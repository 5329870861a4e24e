//! The outer punctuation filter: strips leading and trailing punctuation
//! from a token, keeping a leading marker character from a configured
//! exception set.

use crate::text::{chars_of, string_from_chars};
use crate::unicode::{is_punct, is_punct_char};
use vstd::prelude::*;

verus! {

/// The sequence with its leading run of punctuation removed.
pub open spec fn strip_leading(s: Seq<char>) -> Seq<char>
    decreases s.len(),
{
    if s.len() > 0 && is_punct(s[0]) {
        strip_leading(s.drop_first())
    } else {
        s
    }
}

/// The sequence with its trailing run of punctuation removed.
pub open spec fn strip_trailing(s: Seq<char>) -> Seq<char>
    decreases s.len(),
{
    if s.len() > 0 && is_punct(s.last()) {
        strip_trailing(s.drop_last())
    } else {
        s
    }
}

/// What the outer punctuation filter produces: if the very first character
/// belongs to the exception set it is retained and leading punctuation is
/// stripped from the rest; otherwise leading punctuation is stripped from the
/// start. Trailing punctuation is stripped unconditionally.
pub open spec fn strip_outer(s: Seq<char>, exceptions: Seq<char>) -> Seq<char> {
    if s.len() > 0 && exceptions.contains(s[0]) {
        seq![s[0]] + strip_trailing(strip_leading(s.drop_first()))
    } else {
        strip_trailing(strip_leading(s))
    }
}

proof fn lemma_strip_leading_at(s: Seq<char>, i: int)
    requires
        0 <= i <= s.len(),
        forall|k: int| 0 <= k < i ==> is_punct(#[trigger] s[k]),
        i == s.len() || !is_punct(s[i]),
    ensures
        strip_leading(s) == s.skip(i),
    decreases i,
{
    if i == 0 {
        assert(s.skip(0) =~= s);
    } else {
        let t = s.drop_first();
        assert(t =~= s.skip(1));
        assert(forall|k: int| 0 <= k < i - 1 ==> is_punct(#[trigger] t[k]));
        lemma_strip_leading_at(t, i - 1);
        assert(t.skip(i - 1) =~= s.skip(i));
    }
}

proof fn lemma_strip_trailing_at(s: Seq<char>, j: int)
    requires
        0 <= j <= s.len(),
        forall|k: int| j <= k < s.len() ==> is_punct(#[trigger] s[k]),
        j == 0 || !is_punct(s[j - 1]),
    ensures
        strip_trailing(s) == s.take(j),
    decreases s.len() - j,
{
    if j == s.len() {
        assert(s.take(j) =~= s);
    } else {
        let t = s.drop_last();
        assert(forall|k: int| j <= k < t.len() ==> is_punct(#[trigger] t[k]));
        lemma_strip_trailing_at(t, j);
        assert(t.take(j) =~= s.take(j));
    }
}

proof fn lemma_strip_leading_head(s: Seq<char>)
    ensures
        strip_leading(s).len() <= s.len(),
        strip_leading(s).len() > 0 ==> !is_punct(strip_leading(s)[0]),
    decreases s.len(),
{
    if s.len() > 0 && is_punct(s[0]) {
        lemma_strip_leading_head(s.drop_first());
    }
}

proof fn lemma_strip_trailing_last(s: Seq<char>)
    ensures
        strip_trailing(s).len() <= s.len(),
        strip_trailing(s).len() > 0 ==> !is_punct(strip_trailing(s).last()),
    decreases s.len(),
{
    if s.len() > 0 && is_punct(s.last()) {
        lemma_strip_trailing_last(s.drop_last());
    }
}

proof fn lemma_strip_trailing_prefix(s: Seq<char>)
    ensures
        strip_trailing(s) == s.take(strip_trailing(s).len() as int),
    decreases s.len(),
{
    if s.len() > 0 && is_punct(s.last()) {
        lemma_strip_trailing_prefix(s.drop_last());
        lemma_strip_trailing_last(s.drop_last());
        assert(s.drop_last().take(strip_trailing(s).len() as int) =~= s.take(
            strip_trailing(s).len() as int,
        ));
    } else {
        assert(s.take(s.len() as int) =~= s);
    }
}

/// Strips leading and trailing punctuation from a token's text. If the very
/// first character of the text is in the exception set, that character is
/// retained.
pub struct OuterPunctuationFilter {
    pub exceptions: Vec<char>,
}

impl OuterPunctuationFilter {
    /// A filter retaining the given leading marker characters.
    pub fn new(exceptions: Vec<char>) -> (f: Self)
        ensures
            f.exceptions@ == exceptions@,
    {
        OuterPunctuationFilter { exceptions }
    }

    fn is_exception(&self, c: char) -> (r: bool)
        ensures
            r == self.exceptions@.contains(c),
    {
        let mut i: usize = 0;
        while i < self.exceptions.len()
            invariant
                i <= self.exceptions@.len(),
                forall|k: int| 0 <= k < i ==> self.exceptions@[k] != c,
            decreases self.exceptions@.len() - i,
        {
            if self.exceptions[i] == c {
                return true;
            }
            i = i + 1;
        }
        false
    }

    /// The filtered text of a token.
    pub fn apply(&self, text: &str) -> (r: String)
        ensures
            r@ == strip_outer(text@, self.exceptions@),
    {
        let v = chars_of(text);
        let n = v.len();
        let keep: bool = n > 0 && self.is_exception(v[0]);
        let lo: usize = if keep {
            1
        } else {
            0
        };
        let mut i: usize = lo;
        while i < n && is_punct_char(v[i])
            invariant
                lo <= i <= n,
                n == v@.len(),
                v@ == text@,
                forall|k: int| lo <= k < i ==> is_punct(#[trigger] text@[k]),
            decreases n - i,
        {
            i = i + 1;
        }
        let mut j: usize = n;
        while j > i && is_punct_char(v[j - 1])
            invariant
                i <= j <= n,
                n == v@.len(),
                v@ == text@,
                forall|k: int| j <= k < n ==> is_punct(#[trigger] text@[k]),
            decreases j,
        {
            j = j - 1;
        }
        let mut out: Vec<char> = Vec::new();
        if keep {
            out.push(v[0]);
        }
        let ghost pre: Seq<char> = if keep {
            seq![text@[0]]
        } else {
            Seq::<char>::empty()
        };
        assert(out@ =~= pre + text@.subrange(i as int, i as int));
        let mut k: usize = i;
        while k < j
            invariant
                i <= k <= j <= n,
                n == v@.len(),
                v@ == text@,
                out@ == pre + text@.subrange(i as int, k as int),
            decreases j - k,
        {
            out.push(v[k]);
            proof {
                assert((pre + text@.subrange(i as int, k as int)).push(text@[k as int]) =~= pre
                    + text@.subrange(i as int, k + 1 as int));
            }
            k = k + 1;
        }
        proof {
            let s = text@;
            let m = s.skip(lo as int);
            assert(forall|k: int| 0 <= k < i - lo ==> is_punct(#[trigger] m[k])) by {
                assert(forall|k: int| 0 <= k < i - lo ==> m[k] == s[k + lo]);
            }
            lemma_strip_leading_at(m, i - lo);
            let t = m.skip((i - lo) as int);
            assert(t =~= s.subrange(i as int, n as int));
            assert(forall|k: int| j - i <= k < t.len() ==> is_punct(#[trigger] t[k])) by {
                assert(forall|k: int| 0 <= k < t.len() ==> t[k] == s[k + i]);
            }
            lemma_strip_trailing_at(t, (j - i) as int);
            assert(t.take((j - i) as int) =~= s.subrange(i as int, j as int));
            if keep {
                assert(s.drop_first() =~= m);
                assert(out@ =~= strip_outer(s, self.exceptions@));
            } else {
                assert(m =~= s);
                assert(out@ =~= strip_outer(s, self.exceptions@));
            }
        }
        string_from_chars(&out)
    }
}

/// Law: the outer punctuation filter is idempotent, provided every exception
/// character is itself punctuation (as marker characters such as `#` and `@`
/// are): stripping an already-stripped token changes nothing.
pub proof fn lemma_strip_outer_idempotent(s: Seq<char>, exceptions: Seq<char>)
    requires
        forall|k: int| 0 <= k < exceptions.len() ==> is_punct(#[trigger] exceptions[k]),
    ensures
        strip_outer(strip_outer(s, exceptions), exceptions) == strip_outer(s, exceptions),
{
    let o = strip_outer(s, exceptions);
    if s.len() > 0 && exceptions.contains(s[0]) {
        let sl = strip_leading(s.drop_first());
        let m = strip_trailing(sl);
        lemma_strip_leading_head(s.drop_first());
        lemma_strip_trailing_prefix(sl);
        lemma_strip_trailing_last(sl);
        assert(o[0] == s[0]);
        assert(o.drop_first() =~= m);
        if m.len() > 0 {
            assert(m[0] == sl.take(m.len() as int)[0]);
            assert(!is_punct(m[0]));
        }
        assert(strip_leading(m) == m);
        assert(strip_trailing(m) == m);
        assert(strip_outer(o, exceptions) =~= o);
    } else {
        let sl = strip_leading(s);
        lemma_strip_leading_head(s);
        lemma_strip_trailing_prefix(sl);
        lemma_strip_trailing_last(sl);
        assert(o == strip_trailing(sl));
        if o.len() > 0 {
            assert(o[0] == sl.take(o.len() as int)[0]);
            assert(!is_punct(o[0]));
            assert(!exceptions.contains(o[0])) by {
                if exceptions.contains(o[0]) {
                    let k = choose|k: int|
                        0 <= k < exceptions.len() && exceptions[k] == o[0];
                    assert(is_punct(exceptions[k]));
                }
            }
            assert(strip_leading(o) == o);
            assert(strip_trailing(o) == o);
        } else {
            assert(strip_leading(o) == o);
            assert(strip_trailing(o) == o);
        }
    }
}

/// Law: for the marker exception set `#`, `@` that the ready-made analyzers
/// use, the outer punctuation filter is idempotent on every token, with no
/// side condition: both markers are punctuation themselves.
pub proof fn lemma_marker_strip_idempotent(s: Seq<char>)
    ensures
        strip_outer(strip_outer(s, seq!['#', '@']), seq!['#', '@']) == strip_outer(
            s,
            seq!['#', '@'],
        ),
{
    let e = seq!['#', '@'];
    assert(forall|k: int| 0 <= k < e.len() ==> is_punct(#[trigger] e[k])) by {
        assert(e[0] == '#');
        assert(e[1] == '@');
        assert(is_punct('#'));
        assert(is_punct('@'));
    }
    lemma_strip_outer_idempotent(s, e);
}

} // verus!
