//! The session and match state machines. Each machine is a pure decision
//! step from the current state and the latest observations to the next
//! state; an outer loop performs the polling, browser, and process I/O and
//! feeds the observations back in. The per-turn bookkeeping that keeps the
//! oracle's replay authoritative also lives here.

use vstd::prelude::*;

use crate::chess_move::spec_uci_chars;
use crate::chess_move::ChessMove;
use crate::errors::DesyncError;
use crate::game_board::spec_classify;
use crate::game_board::spec_diffs;
use crate::game_board::GameBoard;
use crate::piece::PieceColor;
use crate::stockfish::Stockfish;

verus! {

/// The session states: log in once, then alternate between waiting for a
/// match, playing it, and requeueing. A failed login is a terminal error.
#[derive(Clone, Copy, Debug, PartialEq, Eq, Structural)]
pub enum BotState {
    Start,
    Login,
    WaitingForMatch,
    MatchFound,
    Requeue,
    Error,
}

/// The per-match states: determine whose turn it is, alternate between
/// waiting and moving, and stop when the match ends.
#[derive(Clone, Copy, Debug, PartialEq, Eq, Structural)]
pub enum MatchState {
    Start,
    MyTurn,
    WaitingForTurn,
    MatchOver,
}

impl BotState {
    /// One session step. `login_ok` reports the latest login attempt,
    /// `match_available` whether a match is in progress, and `requeue_ok`
    /// the latest requeue attempt; each is read only in the state that
    /// polls for it. `Error` is a terminal sink with no automatic recovery.
    pub fn transition(self, login_ok: bool, match_available: bool, requeue_ok: bool) -> (next:
        BotState)
        ensures
            self == BotState::Start ==> next == BotState::Login,
            self == BotState::Login ==> next == (if login_ok {
                BotState::WaitingForMatch
            } else {
                BotState::Error
            }),
            self == BotState::WaitingForMatch ==> next == (if match_available {
                BotState::MatchFound
            } else {
                BotState::WaitingForMatch
            }),
            self == BotState::MatchFound ==> next == BotState::Requeue,
            self == BotState::Requeue ==> next == (if requeue_ok {
                BotState::WaitingForMatch
            } else {
                BotState::Requeue
            }),
            self == BotState::Error ==> next == BotState::Error,
    {
        match self {
            BotState::Start => BotState::Login,
            BotState::Login => if login_ok {
                BotState::WaitingForMatch
            } else {
                BotState::Error
            },
            BotState::WaitingForMatch => if match_available {
                BotState::MatchFound
            } else {
                BotState::WaitingForMatch
            },
            BotState::MatchFound => BotState::Requeue,
            BotState::Requeue => if requeue_ok {
                BotState::WaitingForMatch
            } else {
                BotState::Requeue
            },
            BotState::Error => BotState::Error,
        }
    }
}

impl MatchState {
    /// One match step, checked at every iteration boundary: a match no
    /// longer in progress forces `MatchOver` whatever the state. Otherwise
    /// the opening state hands the turn to whichever side moves first, the
    /// waiting state polls `my_turn`, and a completed turn goes back to
    /// waiting.
    pub fn transition(self, match_in_progress: bool, color: PieceColor, my_turn: bool) -> (next:
        MatchState)
        ensures
            !match_in_progress ==> next == MatchState::MatchOver,
            match_in_progress && self == MatchState::Start ==> next == (if color
                == PieceColor::White {
                MatchState::MyTurn
            } else {
                MatchState::WaitingForTurn
            }),
            match_in_progress && self == MatchState::WaitingForTurn ==> next == (if my_turn {
                MatchState::MyTurn
            } else {
                MatchState::WaitingForTurn
            }),
            match_in_progress && self == MatchState::MyTurn ==> next == MatchState::WaitingForTurn,
            match_in_progress && self == MatchState::MatchOver ==> next == MatchState::MatchOver,
    {
        if !match_in_progress {
            return MatchState::MatchOver;
        }
        match self {
            MatchState::Start => if color == PieceColor::White {
                MatchState::MyTurn
            } else {
                MatchState::WaitingForTurn
            },
            MatchState::WaitingForTurn => if my_turn {
                MatchState::MyTurn
            } else {
                MatchState::WaitingForTurn
            },
            MatchState::MyTurn => MatchState::WaitingForTurn,
            MatchState::MatchOver => MatchState::MatchOver,
        }
    }
}

/// Infers the opponent's move by diffing the last known snapshot against
/// the freshly observed one, and records it so the oracle's replay stays
/// authoritative. An unchanged board (the first look at a starting
/// position) records nothing; a desync records nothing and must abort the
/// match.
pub fn observe_opponent_move(
    last_board: &GameBoard,
    current_board: &GameBoard,
    engine: &mut Stockfish,
) -> (r: Result<Option<ChessMove>, DesyncError>)
    requires
        last_board.wf(),
        current_board.wf(),
    ensures
        r matches Ok(m) ==> spec_classify(
            *last_board,
            *current_board,
            spec_diffs(*last_board, *current_board),
        ) == Some(m),
        r matches Ok(Some(mv)) ==> mv.wf() && final(engine).history() == old(engine).history().push(
            spec_uci_chars(mv),
        ),
        r matches Ok(None::<ChessMove>) ==> final(engine).history() == old(engine).history(),
        r matches Err(e) ==> spec_classify(
            *last_board,
            *current_board,
            spec_diffs(*last_board, *current_board),
        ) is None && e.count == spec_diffs(*last_board, *current_board).len() && final(engine).history() == old(engine).history(),
{
    match last_board.get_move_from_difference(current_board) {
        Ok(Some(mv)) => {
            engine.record_move_played(&mv);
            Ok(Some(mv))
        },
        Ok(None) => Ok(None),
        Err(e) => Err(e),
    }
}

/// Finishes the bot's own turn after its move was dispatched: records the
/// move so both sides stay in the oracle's replay, and rolls the last known
/// snapshot forward to the post-dispatch observation.
pub fn complete_own_move(
    last_board: &mut GameBoard,
    engine: &mut Stockfish,
    played: &ChessMove,
    observed: &GameBoard,
)
    requires
        played.wf(),
        observed.wf(),
    ensures
        final(engine).history() == old(engine).history().push(spec_uci_chars(*played)),
        final(last_board).wf(),
        forall|r: int, f: int|
            0 <= r < 8 && 0 <= f < 8 ==> #[trigger] final(last_board).piece_at(r, f)
                == observed.piece_at(r, f),
{
    engine.record_move_played(played);
    last_board.set_state(observed);
}

/// Relies on rand::random_range: returns a uniformly random value within
/// the given range (it panics only on an empty range, which the
/// precondition rules out).
#[verifier::external_body]
fn random_in_range(low: u64, high: u64) -> (r: u64)
    requires
        low < high,
    ensures
        low <= r < high,
{
    rand::random_range(low..high)
}

/// How long to pause before dispatching the chosen move, imitating a human
/// deliberating over the position: between 4.5 and 15 seconds.
pub fn human_thinking_time_ms() -> (r: u64)
    ensures
        4500 <= r < 15000,
{
    random_in_range(4500, 15000)
}

} // verus!
