//! Tag stripping: removal of every substring of the shape `<`, then one or
//! more characters none of which is `<`, up to the first closing `>` — a
//! simple non-nesting pattern, not a markup parser.
//!
//! A candidate tag open at `i` closes at the first `>` that lies at least two
//! places further on, provided no `<` stands in between; an open with no such
//! close is kept as ordinary text.

use vstd::prelude::*;

verus! {

/// The position of the `>` closing a tag opened at `start`, scanning from
/// `p`: the first `>` at `start + 2` or later, unless a `<` comes first.
pub open spec fn scan_close(s: Seq<char>, p: int, start: int) -> Option<int>
    decreases s.len() - p,
{
    if p < 0 || p >= s.len() {
        None
    } else if s[p] == '<' {
        None
    } else if s[p] == '>' && p >= start + 2 {
        Some(p)
    } else {
        scan_close(s, p + 1, start)
    }
}

/// A close found by `scan_close` lies between `p` and the end of `s`, at
/// `start + 2` or later.
pub proof fn lemma_scan_close_bounds(s: Seq<char>, p: int, start: int)
    ensures
        match scan_close(s, p, start) {
            Some(j) => p <= j < s.len() && start + 2 <= j && s[j] == '>',
            None => true,
        },
    decreases s.len() - p,
{
    if 0 <= p < s.len() {
        lemma_scan_close_bounds(s, p + 1, start);
    }
}

/// `s` from position `i` on, with every tag removed.
pub open spec fn strip_from(s: Seq<char>, i: int) -> Seq<char>
    decreases s.len() - i,
        via strip_from_dec
{
    if i < 0 || i >= s.len() {
        Seq::empty()
    } else if s[i] == '<' {
        match scan_close(s, i + 1, i) {
            Some(j) => strip_from(s, j + 1),
            None => seq![s[i]] + strip_from(s, i + 1),
        }
    } else {
        seq![s[i]] + strip_from(s, i + 1)
    }
}

#[via_fn]
proof fn strip_from_dec(s: Seq<char>, i: int) {
    lemma_scan_close_bounds(s, i + 1, i);
}

/// `s` with every tag removed.
pub open spec fn strip_tags_rep(s: Seq<char>) -> Seq<char> {
    strip_from(s, 0)
}

/// Exec search for the close of a tag opened at `start`.
fn scan_close_exec(s: &Vec<char>, p: usize, start: usize) -> (r: Option<usize>)
    requires
        p <= s.len(),
    ensures
        match r {
            Some(j) => scan_close(s@, p as int, start as int) == Some(j as int) && p <= j
                < s.len(),
            None => scan_close(s@, p as int, start as int) is None,
        },
    decreases s.len() - p,
{
    if p >= s.len() {
        None
    } else if s[p] == '<' {
        None
    } else if s[p] == '>' && p >= 2 && p - 2 >= start {
        Some(p)
    } else {
        scan_close_exec(s, p + 1, start)
    }
}

/// Append `s[i..]`, stripped, to `out`.
fn strip_into(s: &Vec<char>, i: usize, out: &mut Vec<char>)
    requires
        i <= s.len(),
    ensures
        final(out)@ == old(out)@ + strip_from(s@, i as int),
    decreases s.len() - i,
{
    if i == s.len() {
        proof {
            assert(out@ =~= old(out)@ + strip_from(s@, i as int));
        }
    } else if s[i] == '<' {
        match scan_close_exec(s, i + 1, i) {
            Some(j) => {
                strip_into(s, j + 1, out);
            },
            None => {
                out.push(s[i]);
                strip_into(s, i + 1, out);
                proof {
                    assert(out@ =~= old(out)@ + strip_from(s@, i as int));
                }
            },
        }
    } else {
        out.push(s[i]);
        strip_into(s, i + 1, out);
        proof {
            assert(out@ =~= old(out)@ + strip_from(s@, i as int));
        }
    }
}

/// `s` with every tag removed, as a newly allocated string.
pub fn strip_tags(s: &str) -> (r: String)
    ensures
        r@ == strip_tags_rep(s@),
{
    let cs = crate::text::chars_of(s);
    let mut out: Vec<char> = Vec::new();
    strip_into(&cs, 0, &mut out);
    crate::text::string_from_chars(&out)
}

} // verus!
