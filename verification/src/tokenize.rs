use vstd::prelude::*;
use vstd::string::StrSliceExecFns;
use crate::chars::{is_space, is_space_char};

verus! {

/// The index of the first whitespace character at or after `i`, or the end
/// of the string: where the token starting at `i` ends.
pub open spec fn token_end(s: Seq<char>, i: int) -> int
    decreases s.len() - i when 0 <= i <= s.len()
{
    if i >= s.len() || is_space(s[i]) {
        i
    } else {
        token_end(s, i + 1)
    }
}

/// `token_end` stays within bounds, skips no whitespace, and stops at
/// whitespace or the end.
pub proof fn lemma_token_end_bounds(s: Seq<char>, i: int)
    requires
        0 <= i <= s.len(),
    ensures
        i <= token_end(s, i) <= s.len(),
        forall|k: int| i <= k < token_end(s, i) ==> !is_space(#[trigger] s[k]),
        token_end(s, i) == s.len() || is_space(s[token_end(s, i)]),
    decreases s.len() - i,
{
    if i >= s.len() || is_space(s[i]) {
    } else {
        lemma_token_end_bounds(s, i + 1);
    }
}

/// `token_end(s, i)` is exactly the first index at or after `i` holding
/// whitespace, or the end when there is none.
pub proof fn lemma_token_end_at(s: Seq<char>, i: int, j: int)
    requires
        0 <= i <= j <= s.len(),
        forall|k: int| i <= k < j ==> !is_space(#[trigger] s[k]),
        j == s.len() || is_space(s[j]),
    ensures
        token_end(s, i) == j,
    decreases j - i,
{
    if i == j {
    } else {
        lemma_token_end_at(s, i + 1, j);
    }
}

/// The whitespace-separated tokens of `s[i..]`, in order, with no empty
/// tokens: what remains of `split_whitespace` from position `i` on.
pub open spec fn tokens_from(s: Seq<char>, i: int) -> Seq<Seq<char>>
    decreases s.len() - i when 0 <= i <= s.len() via tokens_from_decreases
{
    if i >= s.len() {
        Seq::empty()
    } else if is_space(s[i]) {
        tokens_from(s, i + 1)
    } else {
        seq![s.subrange(i, token_end(s, i))] + tokens_from(s, token_end(s, i))
    }
}

#[via_fn]
proof fn tokens_from_decreases(s: Seq<char>, i: int) {
    if 0 <= i && i < s.len() && !is_space(s[i]) {
        lemma_token_end_bounds(s, i);
    }
}

/// The whitespace-separated tokens of `s`: runs of non-whitespace
/// characters, in order.
pub open spec fn tokens_of(s: Seq<char>) -> Seq<Seq<char>> {
    tokens_from(s, 0)
}

/// Split `line` on runs of whitespace, discarding empty tokens and keeping
/// order, exactly as `str::split_whitespace` does.
#[verifier::loop_isolation(false)]
pub fn tokenize(line: &str) -> (r: Vec<String>)
    ensures
        r.deep_view() == tokens_of(line@),
{
    let len: usize = line.unicode_len();
    let mut toks: Vec<String> = Vec::new();
    let mut i: usize = 0;
    while i < len
        invariant
            i <= len,
            toks.deep_view() + tokens_from(line@, i as int) == tokens_of(line@),
        decreases len - i,
    {
        let c: char = line.get_char(i);
        if is_space_char(c) {
            i = i + 1;
        } else {
            let ghost toks_before = toks.deep_view();
            let mut j: usize = i + 1;
            while j < len && !is_space_char(line.get_char(j))
                invariant
                    i < j <= len,
                    forall|k: int| i <= k < j ==> !is_space(#[trigger] line@[k]),
                decreases len - j,
            {
                j = j + 1;
            }
            proof {
                lemma_token_end_at(line@, i as int, j as int);
            }
            let tok: &str = line.substring_char(i, j);
            toks.push(tok.to_owned());
            proof {
                assert(toks.deep_view() =~= toks_before.push(line@.subrange(
                    i as int,
                    j as int,
                )));
                assert(toks.deep_view() + tokens_from(line@, j as int) =~= toks_before + (seq![
                    line@.subrange(i as int, j as int),
                ] + tokens_from(line@, j as int)));
            }
            i = j;
        }
    }
    proof {
        assert(toks.deep_view() + tokens_from(line@, i as int) =~= toks.deep_view());
    }
    toks
}

} // verus!
