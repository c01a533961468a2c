//! The oracle adapter: owns the per-match move history and the line-oriented
//! protocol spoken to the external move-search oracle. The adapter builds
//! every directive line from the full current history (the oracle has no
//! persistent memory of its own, so the entire game is resent each query)
//! and decodes the oracle's reply line into a move. Process I/O lives
//! outside the library: callers send the returned directive strings and
//! feed captured output lines back in.

use vstd::prelude::*;
use vstd::string::StrSliceExecFns;
use vstd::string::StringExecFns;

use crate::chess_move::spec_move_of_chars;
use crate::chess_move::spec_uci_chars;
use crate::chess_move::ChessMove;
use crate::errors::MoveDecodeError;
use crate::errors::OracleProtocolError;
use crate::text::spec_split_ws;
use crate::text::split_ws;
use crate::text::str_to_chars;

verus! {

/// A failure of one oracle exchange: the reply sentinel never appeared, or
/// the reply's move token was malformed. Either way the history may no
/// longer match the oracle's internal state, so the failure is fatal to the
/// current match.
#[derive(Clone, Copy, Debug, PartialEq, Eq, Structural)]
pub enum OracleError {
    Protocol(OracleProtocolError),
    Decode(MoveDecodeError),
}

/// The directive that resets oracle-side game state.
pub open spec fn spec_new_game_chars() -> Seq<char> {
    "ucinewgame"@
}

/// The fixed head of every position directive: a replay from the standard
/// starting position.
pub open spec fn spec_position_prefix() -> Seq<char> {
    "position startpos moves"@
}

/// The search directive with its bounded strength parameter.
pub open spec fn spec_go_chars() -> Seq<char> {
    "go depth 1"@
}

/// The sentinel that marks the oracle's final reply line.
pub open spec fn spec_reply_sentinel() -> Seq<char> {
    "bestmove"@
}

/// The full position directive replaying `history` from the starting
/// position: the fixed prefix followed by each token, space-separated.
pub open spec fn spec_position_command(history: Seq<Seq<char>>) -> Seq<char>
    decreases history.len(),
{
    if history.len() == 0 {
        spec_position_prefix()
    } else {
        spec_position_command(history.drop_last()) + seq![' '] + history.last()
    }
}

/// True when an output line is the oracle's final answer: it begins with
/// the reply sentinel.
pub open spec fn spec_is_reply_line(line: Seq<char>) -> bool {
    line.len() >= spec_reply_sentinel().len() && line.subrange(
        0,
        spec_reply_sentinel().len() as int,
    ) == spec_reply_sentinel()
}

/// The first output line that is a reply line, if any.
pub open spec fn spec_first_reply_line(lines: Seq<Seq<char>>) -> Option<Seq<char>>
    decreases lines.len(),
{
    if lines.len() == 0 {
        None
    } else if spec_is_reply_line(lines[0]) {
        Some(lines[0])
    } else {
        spec_first_reply_line(lines.drop_first())
    }
}

/// The move a reply line carries: its second whitespace-delimited token,
/// decoded from coordinate notation. A missing or malformed token is a
/// decode failure.
pub open spec fn spec_decode_reply(line: Seq<char>) -> Result<ChessMove, OracleError> {
    let tokens = spec_split_ws(line);
    if tokens.len() < 2 {
        Err(OracleError::Decode(MoveDecodeError))
    } else {
        match spec_move_of_chars(tokens[1]) {
            Some(m) => Ok(m),
            None => Err(OracleError::Decode(MoveDecodeError)),
        }
    }
}

proof fn lemma_first_reply_skip(lines: Seq<Seq<char>>, j: int)
    requires
        0 <= j <= lines.len(),
        forall|k: int| 0 <= k < j ==> !spec_is_reply_line(lines[k]),
    ensures
        spec_first_reply_line(lines) == spec_first_reply_line(lines.skip(j)),
    decreases j,
{
    if j > 0 {
        lemma_first_reply_skip(lines.drop_first(), j - 1);
        assert(lines.drop_first().skip(j - 1) =~= lines.skip(j));
    } else {
        assert(lines.skip(0) =~= lines);
    }
}

/// The adapter. It holds the match's move history: the ordered,
/// append-only sequence of coordinate-notation tokens, reset to empty
/// exactly once at match start.
pub struct Stockfish {
    pub moves: Vec<String>,
}

impl Stockfish {
    /// The recorded notation tokens, oldest first.
    pub open spec fn history(self) -> Seq<Seq<char>> {
        self.moves.deep_view()
    }

    /// An adapter with an empty history.
    pub fn new() -> (s: Stockfish)
        ensures
            s.history().len() == 0,
    {
        Stockfish { moves: Vec::new() }
    }

    /// Clears the history and hands back the new-game directive, which the
    /// caller must send to the oracle exactly once per match, before any
    /// position directive. Idempotent: safe at the start of every match.
    pub fn reset(&mut self) -> (directive: String)
        ensures
            final(self).history().len() == 0,
            directive@ == spec_new_game_chars(),
    {
        self.moves = Vec::new();
        String::from_str("ucinewgame")
    }

    /// Appends the move's notation token to the history. Side effect only:
    /// no process I/O, and nothing already recorded changes.
    pub fn record_move_played(&mut self, chess_move: &ChessMove)
        requires
            chess_move.wf(),
        ensures
            final(self).history() == old(self).history().push(spec_uci_chars(*chess_move)),
    {
        let token = chess_move.uci_notation();
        self.moves.push(token);
        proof {
            assert(self.history() =~~= old(self).history().push(spec_uci_chars(*chess_move)));
        }
    }

    /// The position directive replaying the whole current history.
    pub fn position_command(&self) -> (r: String)
        ensures
            r@ == spec_position_command(self.history()),
    {
        let ghost h = self.history();
        let mut out = String::from_str("position startpos moves");
        let mut i: usize = 0;
        proof {
            assert(h.take(0) =~= Seq::<Seq<char>>::empty());
        }
        while i < self.moves.len()
            invariant
                i <= self.moves@.len(),
                h == self.history(),
                h.len() == self.moves@.len(),
                out@ == spec_position_command(h.take(i as int)),
            decreases self.moves@.len() - i,
        {
            let ghost prev = out@;
            out.append(" ");
            out.append(self.moves[i].as_str());
            proof {
                reveal_strlit(" ");
                assert(h.take(i + 1).drop_last() =~= h.take(i as int));
                assert(h.take(i + 1).last() == h[i as int]);
                assert(h[i as int] =~= self.moves@[i as int]@);
                assert(out@ =~= prev + seq![' '] + h[i as int]);
            }
            i += 1;
        }
        proof {
            assert(h.take(h.len() as int) =~= h);
        }
        out
    }

    /// The search directive to send after the position directive. Its depth
    /// is a strength and latency knob, not a correctness parameter.
    pub fn go_command(&self) -> (r: String)
        ensures
            r@ == spec_go_chars(),
    {
        String::from_str("go depth 1")
    }

    /// Decodes the oracle's answer from its captured output lines: the
    /// first line beginning with the reply sentinel carries the chosen move
    /// as its second whitespace-delimited token. No reply line is a
    /// protocol failure (the process exited or desynchronized); a malformed
    /// token is a decode failure.
    pub fn get_best_move(&self, output_lines: &Vec<String>) -> (r: Result<ChessMove, OracleError>)
        ensures
            spec_first_reply_line(output_lines.deep_view()) matches Some(line) ==> r
                == spec_decode_reply(line),
            spec_first_reply_line(output_lines.deep_view()) is None <==> r == Err::<
                ChessMove,
                OracleError,
            >(OracleError::Protocol(OracleProtocolError)),
            r matches Ok(m) ==> m.wf(),
    {
        let ghost dv = output_lines.deep_view();
        let mut j: usize = 0;
        while j < output_lines.len()
            invariant
                j <= output_lines@.len(),
                dv == output_lines.deep_view(),
                dv.len() == output_lines@.len(),
                forall|k: int| 0 <= k < j ==> !spec_is_reply_line(#[trigger] dv[k]),
            decreases output_lines@.len() - j,
        {
            let line = &output_lines[j];
            proof {
                assert(dv[j as int] =~= line@);
            }
            if is_best_move_reply(line.as_str()) {
                proof {
                    lemma_first_reply_skip(dv, j as int);
                    assert(dv.skip(j as int)[0] == dv[j as int]);
                    assert(spec_first_reply_line(dv) == Some(dv[j as int]));
                }
                let chars = str_to_chars(line.as_str());
                let tokens = split_ws(&chars);
                if tokens.len() < 2 {
                    return Err(OracleError::Decode(MoveDecodeError));
                }
                let token = &tokens[1];
                proof {
                    assert(tokens.deep_view()[1] =~= token@);
                }
                return match ChessMove::from_uci_chars(token) {
                    Ok(m) => Ok(m),
                    Err(_) => Err(OracleError::Decode(MoveDecodeError)),
                };
            }
            j += 1;
        }
        proof {
            lemma_first_reply_skip(dv, dv.len() as int);
            assert(dv.skip(dv.len() as int) =~= Seq::<Seq<char>>::empty());
        }
        Err(OracleError::Protocol(OracleProtocolError))
    }
}

/// True when an output line begins with the reply sentinel.
pub fn is_best_move_reply(line: &str) -> (r: bool)
    ensures
        r == spec_is_reply_line(line@),
{
    proof {
        reveal_strlit("bestmove");
    }
    let n = line.unicode_len();
    if n < 8 {
        return false;
    }
    let r = line.get_char(0) == 'b' && line.get_char(1) == 'e' && line.get_char(2) == 's'
        && line.get_char(3) == 't' && line.get_char(4) == 'm' && line.get_char(5) == 'o'
        && line.get_char(6) == 'v' && line.get_char(7) == 'e';
    proof {
        if r {
            assert(line@.subrange(0, 8) =~= spec_reply_sentinel());
        } else {
            if line@.subrange(0, 8) == spec_reply_sentinel() {
                assert forall|k: int| 0 <= k < 8 implies line@[k] == spec_reply_sentinel()[k] by {
                    assert(line@.subrange(0, 8)[k] == line@[k]);
                };
                assert(false);
            }
        }
    }
    r
}

/// Law: a reset leaves the next query replaying an empty history — the
/// position directive built from a just-cleared history is exactly the bare
/// replay prefix, with no move tokens appended.
pub proof fn lemma_reset_then_query_replays_empty(s: Stockfish)
    requires
        s.history().len() == 0,
    ensures
        spec_position_command(s.history()) == spec_position_prefix(),
{
    assert(s.history() =~= Seq::<Seq<char>>::empty());
}

/// The history obtained by recording each of `moves`, oldest first, on top
/// of `h`.
pub open spec fn spec_history_after_records(h: Seq<Seq<char>>, moves: Seq<ChessMove>) -> Seq<
    Seq<char>,
>
    decreases moves.len(),
{
    if moves.len() == 0 {
        h
    } else {
        spec_history_after_records(h, moves.drop_last()).push(spec_uci_chars(moves.last()))
    }
}

/// Law: recording N moves grows the history by exactly N tokens, leaves
/// everything already recorded unchanged, and lists the new tokens in the
/// order the moves were recorded.
pub proof fn lemma_record_preserves_history(h: Seq<Seq<char>>, moves: Seq<ChessMove>)
    ensures
        spec_history_after_records(h, moves).len() == h.len() + moves.len(),
        forall|i: int| 0 <= i < h.len() ==> #[trigger] spec_history_after_records(h, moves)[i] == h[i],
        forall|i: int|
            0 <= i < moves.len() ==> #[trigger] spec_history_after_records(h, moves)[h.len() + i]
                == spec_uci_chars(moves[i]),
    decreases moves.len(),
{
    if moves.len() > 0 {
        lemma_record_preserves_history(h, moves.drop_last());
    }
}

} // verus!
