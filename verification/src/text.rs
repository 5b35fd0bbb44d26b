//! Whitespace handling for protocol text: splitting a reply into tokens and
//! trimming a reply's surroundings.

use vstd::prelude::*;
use vstd::string::StrSliceExecFns;

verus! {

/// Whether a character counts as whitespace on the wire (the ASCII
/// whitespace characters).
pub open spec fn is_space(c: char) -> bool {
    c == ' ' || c == '\t' || c == '\n' || c == '\r' || c == '\u{b}' || c == '\u{c}'
}

/// The whitespace-separated tokens of `s`, read left to right with `cur` as
/// the partial token already begun.
pub open spec fn tokens_from(s: Seq<char>, cur: Seq<char>) -> Seq<Seq<char>>
    decreases s.len(),
{
    if s.len() == 0 {
        if cur.len() == 0 {
            Seq::empty()
        } else {
            seq![cur]
        }
    } else if is_space(s[0]) {
        if cur.len() == 0 {
            tokens_from(s.drop_first(), cur)
        } else {
            seq![cur] + tokens_from(s.drop_first(), Seq::empty())
        }
    } else {
        tokens_from(s.drop_first(), cur.push(s[0]))
    }
}

/// The maximal runs of non-whitespace characters in `s`, in order.
pub open spec fn tokens_of(s: Seq<char>) -> Seq<Seq<char>> {
    tokens_from(s, Seq::empty())
}

/// `s` without its leading whitespace.
pub open spec fn trim_left(s: Seq<char>) -> Seq<char>
    decreases s.len(),
{
    if s.len() > 0 && is_space(s[0]) {
        trim_left(s.drop_first())
    } else {
        s
    }
}

/// `s` without its trailing whitespace.
pub open spec fn trim_right(s: Seq<char>) -> Seq<char>
    decreases s.len(),
{
    if s.len() > 0 && is_space(s.last()) {
        trim_right(s.drop_last())
    } else {
        s
    }
}

/// `s` without leading and trailing whitespace.
pub open spec fn trimmed(s: Seq<char>) -> Seq<char> {
    trim_right(trim_left(s))
}

/// Scanning a run of non-whitespace characters folds the whole run into the
/// partial token.
pub proof fn lemma_tokens_from_nonspace(t: Seq<char>, rest: Seq<char>, cur: Seq<char>)
    requires
        forall|i: int| 0 <= i < t.len() ==> !is_space(t[i]),
    ensures
        tokens_from(t + rest, cur) == tokens_from(rest, cur + t),
    decreases t.len(),
{
    if t.len() == 0 {
        assert(t + rest =~= rest);
        assert(cur + t =~= cur);
    } else {
        assert((t + rest)[0] == t[0]);
        assert((t + rest).drop_first() =~= t.drop_first() + rest);
        lemma_tokens_from_nonspace(t.drop_first(), rest, cur.push(t[0]));
        assert(cur.push(t[0]) + t.drop_first() =~= cur + t);
    }
}

/// Two runs of non-whitespace characters joined by a single space are
/// exactly two tokens.
pub proof fn lemma_tokens_of_two(a: Seq<char>, b: Seq<char>)
    requires
        a.len() > 0,
        b.len() > 0,
        forall|i: int| 0 <= i < a.len() ==> !is_space(a[i]),
        forall|i: int| 0 <= i < b.len() ==> !is_space(b[i]),
    ensures
        tokens_of(a + seq![' '] + b) == seq![a, b],
{
    let line = a + seq![' '] + b;
    assert(line =~= a + (seq![' '] + b));
    lemma_tokens_from_nonspace(a, seq![' '] + b, Seq::empty());
    assert(Seq::empty() + a =~= a);
    let mid = seq![' '] + b;
    assert(is_space(mid[0]));
    assert(mid.drop_first() =~= b);
    assert(tokens_from(mid, a) == seq![a] + tokens_from(b, Seq::empty()));
    lemma_tokens_from_nonspace(b, Seq::empty(), Seq::empty());
    assert(b + Seq::empty() =~= b);
    assert(Seq::empty() + b =~= b);
    assert(tokens_from(Seq::empty(), b) == seq![b]);
    assert(seq![a] + seq![b] =~= seq![a, b]);
}

/// Whether a character counts as whitespace on the wire.
pub fn is_space_char(c: char) -> (r: bool)
    ensures
        r == is_space(c),
{
    c == ' ' || c == '\t' || c == '\n' || c == '\r' || c == '\u{b}' || c == '\u{c}'
}

/// The views of a sequence of string slices.
pub open spec fn views_of(ts: Seq<&str>) -> Seq<Seq<char>> {
    ts.map_values(|t: &str| t@)
}

/// Splits `s` into its maximal runs of non-whitespace characters.
pub fn split_whitespace_tokens<'a>(s: &'a str) -> (tokens: Vec<&'a str>)
    ensures
        views_of(tokens@) == tokens_of(s@),
{
    let n: usize = s.unicode_len();
    let mut tokens: Vec<&'a str> = Vec::new();
    let mut i: usize = 0;
    let mut start: usize = 0;
    let mut in_token: bool = false;
    proof {
        assert(s@.skip(0) =~= s@);
        assert(views_of(tokens@) =~= Seq::<Seq<char>>::empty());
        assert(views_of(tokens@) + tokens_of(s@) =~= tokens_of(s@));
    }
    while i < n
        invariant
            n == s@.len(),
            i <= n,
            in_token ==> start < i,
            tokens_of(s@) == views_of(tokens@) + tokens_from(
                s@.skip(i as int),
                if in_token {
                    s@.subrange(start as int, i as int)
                } else {
                    Seq::empty()
                },
            ),
        decreases n - i,
    {
        let ghost cur: Seq<char> = if in_token {
            s@.subrange(start as int, i as int)
        } else {
            Seq::empty()
        };
        proof {
            assert(s@.skip(i as int).len() > 0);
            assert(s@.skip(i as int)[0] == s@[i as int]);
            assert(s@.skip(i as int).drop_first() =~= s@.skip(i as int + 1));
        }
        let c = s.get_char(i);
        if is_space_char(c) {
            if in_token {
                let tok = s.substring_char(start, i);
                tokens.push(tok);
                in_token = false;
                proof {
                    assert(views_of(tokens@) =~= views_of(tokens@.drop_last()) + seq![tok@]);
                }
            }
        } else {
            if !in_token {
                start = i;
                in_token = true;
            }
            proof {
                assert(s@.subrange(start as int, i as int + 1) =~= cur.push(s@[i as int]));
            }
        }
        i = i + 1;
    }
    proof {
        assert(s@.skip(n as int) =~= Seq::<char>::empty());
    }
    if in_token {
        let tok = s.substring_char(start, n);
        tokens.push(tok);
        proof {
            assert(views_of(tokens@) =~= views_of(tokens@.drop_last()) + seq![tok@]);
        }
    }
    proof {
        assert(views_of(tokens@) =~= tokens_of(s@));
    }
    tokens
}

/// Returns `s` without leading and trailing whitespace.
pub fn trim_str<'a>(s: &'a str) -> (r: &'a str)
    ensures
        r@ == trimmed(s@),
{
    let n: usize = s.unicode_len();
    let mut lo: usize = 0;
    proof {
        assert(s@.skip(0) =~= s@);
    }
    while lo < n && is_space_char(s.get_char(lo))
        invariant
            n == s@.len(),
            lo <= n,
            trim_left(s@) == trim_left(s@.skip(lo as int)),
        decreases n - lo,
    {
        proof {
            assert(s@.skip(lo as int)[0] == s@[lo as int]);
            assert(s@.skip(lo as int).drop_first() =~= s@.skip(lo as int + 1));
        }
        lo = lo + 1;
    }
    proof {
        if lo == n {
            assert(s@.skip(lo as int) =~= Seq::<char>::empty());
        } else {
            assert(s@.skip(lo as int)[0] == s@[lo as int]);
        }
        assert(trim_left(s@) == s@.skip(lo as int));
    }
    let mut hi: usize = n;
    while hi > lo && is_space_char(s.get_char(hi - 1))
        invariant
            n == s@.len(),
            lo <= hi <= n,
            trim_left(s@) == s@.skip(lo as int),
            trim_right(s@.skip(lo as int)) == trim_right(s@.subrange(lo as int, hi as int)),
        decreases hi,
    {
        proof {
            let t = s@.subrange(lo as int, hi as int);
            assert(t.last() == s@[hi as int - 1]);
            assert(t.drop_last() =~= s@.subrange(lo as int, hi as int - 1));
        }
        hi = hi - 1;
    }
    proof {
        let t = s@.subrange(lo as int, hi as int);
        if hi == lo {
            assert(t =~= Seq::<char>::empty());
        } else {
            assert(t.last() == s@[hi as int - 1]);
        }
        assert(trim_right(s@.subrange(lo as int, hi as int)) == t);
    }
    let r = s.substring_char(lo, hi);
    proof {
        assert(r@ == trimmed(s@));
    }
    r
}

} // verus!
