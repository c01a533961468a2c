//! Plain-text helpers for the observed square descriptions: extracting the
//! characters of a string and splitting on ASCII whitespace.

use vstd::prelude::*;
use vstd::string::StrSliceExecFns;

verus! {

/// ASCII whitespace, the separator between the fields of an observed square
/// description.
pub open spec fn is_ws(c: char) -> bool {
    c == ' ' || c == '\t' || c == '\n' || c == '\r'
}

/// The whitespace-separated tokens of `s` from position `i` on, with `cur`
/// the partial token read so far.
pub open spec fn spec_split_ws_from(s: Seq<char>, i: int, cur: Seq<char>) -> Seq<Seq<char>>
    decreases s.len() - i,
{
    if i < 0 || i >= s.len() {
        if cur.len() == 0 {
            Seq::empty()
        } else {
            seq![cur]
        }
    } else if is_ws(s[i]) {
        if cur.len() == 0 {
            spec_split_ws_from(s, i + 1, Seq::empty())
        } else {
            seq![cur] + spec_split_ws_from(s, i + 1, Seq::empty())
        }
    } else {
        spec_split_ws_from(s, i + 1, cur.push(s[i]))
    }
}

/// The whitespace-separated tokens of `s`: maximal runs of non-whitespace
/// characters, in order.
pub open spec fn spec_split_ws(s: Seq<char>) -> Seq<Seq<char>> {
    spec_split_ws_from(s, 0, Seq::empty())
}

/// The characters of a string, in order.
pub fn str_to_chars(s: &str) -> (r: Vec<char>)
    ensures
        r@ == s@,
{
    let n = s.unicode_len();
    let mut out: Vec<char> = Vec::new();
    let mut i: usize = 0;
    while i < n
        invariant
            i <= n,
            n == s@.len(),
            out@.len() == i,
            forall|k: int| 0 <= k < i ==> out@[k] == s@[k],
        decreases n - i,
    {
        out.push(s.get_char(i));
        i += 1;
    }
    proof {
        assert(out@ =~= s@);
    }
    out
}

/// Splits a character sequence into its whitespace-separated tokens.
pub fn split_ws(s: &Vec<char>) -> (r: Vec<Vec<char>>)
    ensures
        r.deep_view() == spec_split_ws(s@),
{
    let mut out: Vec<Vec<char>> = Vec::new();
    let mut cur: Vec<char> = Vec::new();
    let mut i: usize = 0;
    while i < s.len()
        invariant
            i <= s@.len(),
            spec_split_ws(s@) == out.deep_view() + spec_split_ws_from(s@, i as int, cur@),
        decreases s@.len() - i,
    {
        let ghost prev_out = out.deep_view();
        let ghost prev_cur = cur@;
        let c = s[i];
        if c == ' ' || c == '\t' || c == '\n' || c == '\r' {
            if cur.len() > 0 {
                out.push(cur);
                cur = Vec::new();
                proof {
                    assert(out.deep_view() =~~= prev_out.push(prev_cur));
                    assert(out.deep_view() + spec_split_ws_from(s@, i + 1, cur@) =~~= prev_out + (
                    seq![prev_cur] + spec_split_ws_from(s@, i + 1, cur@)));
                    assert(spec_split_ws(s@) == out.deep_view() + spec_split_ws_from(
                        s@,
                        i + 1,
                        cur@,
                    ));
                }
            } else {
                proof {
                    assert(cur@ =~= Seq::empty());
                    assert(spec_split_ws_from(s@, i as int, prev_cur) == spec_split_ws_from(
                        s@,
                        i + 1,
                        cur@,
                    ));
                }
            }
        } else {
            cur.push(c);
            proof {
                assert(cur@ == prev_cur.push(s@[i as int]));
                assert(spec_split_ws_from(s@, i as int, prev_cur) == spec_split_ws_from(
                    s@,
                    i + 1,
                    cur@,
                ));
            }
        }
        i += 1;
    }
    if cur.len() > 0 {
        let ghost prev_out = out.deep_view();
        let ghost prev_cur = cur@;
        out.push(cur);
        proof {
            assert(out.deep_view() =~~= prev_out.push(prev_cur));
            assert(prev_out.push(prev_cur) =~~= prev_out + seq![prev_cur]);
        }
    }
    proof {
        assert(out.deep_view() =~~= spec_split_ws(s@));
    }
    out
}

} // verus!
