//! Whitespace tokenization: splitting text into candidate tokens.

use crate::text::chars_of;
use crate::unicode::{is_space, is_space_char};
use vstd::prelude::*;
use vstd::string::StrSliceExecFns;

verus! {

/// The number of characters in the word at the front of the sequence: the
/// length of the longest prefix free of whitespace.
pub open spec fn word_len(s: Seq<char>) -> nat
    decreases s.len(),
{
    if s.len() == 0 || is_space(s[0]) {
        0
    } else {
        1 + word_len(s.drop_first())
    }
}

pub proof fn lemma_word_len_le(s: Seq<char>)
    ensures
        word_len(s) <= s.len(),
    decreases s.len(),
{
    if s.len() > 0 && !is_space(s[0]) {
        lemma_word_len_le(s.drop_first());
    }
}

/// The whitespace-delimited words of the text, in order.
pub open spec fn split_ws(s: Seq<char>) -> Seq<Seq<char>>
    decreases s.len(),
    via split_ws_decreases
{
    if s.len() == 0 {
        Seq::empty()
    } else if is_space(s[0]) {
        split_ws(s.drop_first())
    } else {
        seq![s.take(word_len(s) as int)] + split_ws(s.skip(word_len(s) as int))
    }
}

#[via_fn]
proof fn split_ws_decreases(s: Seq<char>) {
    lemma_word_len_le(s);
}

pub proof fn lemma_word_len_at(s: Seq<char>, m: int)
    requires
        0 <= m <= s.len(),
        forall|k: int| 0 <= k < m ==> !is_space(#[trigger] s[k]),
        m == s.len() || is_space(s[m]),
    ensures
        word_len(s) == m,
    decreases m,
{
    if m > 0 {
        let t = s.drop_first();
        assert(forall|k: int| 0 <= k < m - 1 ==> !is_space(#[trigger] t[k])) by {
            assert(forall|k: int| 0 <= k < m - 1 ==> t[k] == s[k + 1]);
        }
        lemma_word_len_at(t, m - 1);
    }
}

/// The whitespace-delimited words of the text, left to right.
pub fn tokenize(text: &str) -> (r: Vec<String>)
    ensures
        r.deep_view() == split_ws(text@),
{
    let v = chars_of(text);
    let n = v.len();
    let mut r: Vec<String> = Vec::new();
    proof {
        assert(text@.skip(0) =~= text@);
        assert(r.deep_view() + split_ws(text@) =~~= split_ws(text@));
    }
    let mut i: usize = 0;
    while i < n
        invariant
            i <= n,
            n == v@.len(),
            v@ == text@,
            r.deep_view() + split_ws(text@.skip(i as int)) == split_ws(text@),
        decreases n - i,
    {
        if is_space_char(v[i]) {
            proof {
                assert(text@.skip(i as int).drop_first() =~= text@.skip(i + 1 as int));
            }
            i = i + 1;
        } else {
            let start = i;
            let mut j = i;
            while j < n && !is_space_char(v[j])
                invariant
                    start <= j <= n,
                    n == v@.len(),
                    v@ == text@,
                    forall|k: int| start <= k < j ==> !is_space(#[trigger] text@[k]),
                decreases n - j,
            {
                j = j + 1;
            }
            let w: String = text.substring_char(start, j).to_owned();
            let ghost r0: Seq<Seq<char>> = r.deep_view();
            r.push(w);
            proof {
                let s = text@;
                let m = s.skip(start as int);
                assert(forall|k: int| 0 <= k < j - start ==> !is_space(#[trigger] m[k])) by {
                    assert(forall|k: int| 0 <= k < j - start ==> m[k] == s[k + start]);
                }
                assert(j == n || is_space(m[j as int - start as int]));
                lemma_word_len_at(m, j as int - start as int);
                assert(m[0] == s[start as int]);
                assert(m.take(word_len(m) as int) =~= s.subrange(start as int, j as int));
                assert(m.skip(word_len(m) as int) =~= s.skip(j as int));
                assert(split_ws(m) == seq![w@] + split_ws(s.skip(j as int)));
                assert(r.deep_view() =~~= r0.push(w@));
                assert(r0.push(w@) + split_ws(s.skip(j as int)) =~~= r0 + (seq![w@] + split_ws(
                    s.skip(j as int),
                )));
            }
            i = j;
        }
    }
    proof {
        assert(text@.skip(n as int) =~= Seq::<char>::empty());
        assert(r.deep_view() + split_ws(Seq::<char>::empty()) =~~= r.deep_view());
    }
    r
}

} // verus!
