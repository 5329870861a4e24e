//! Apostrophe-aware stopword handling: detecting and normalizing apostrophe
//! variants, and expanding a stopword list so that every variant form of a
//! contraction-bearing entry is recognized.

use crate::text::{chars_of, string_from_chars};
use crate::tokenizer::{split_ws, tokenize};
use crate::unicode::{apostrophe_variant, apostrophes, is_apostrophe, is_apostrophe_char};
use vstd::prelude::*;

verus! {

/// Whether the sequence holds at least one apostrophe variant.
pub open spec fn has_apostrophe(s: Seq<char>) -> bool {
    exists|i: int| 0 <= i < s.len() && is_apostrophe(#[trigger] s[i])
}

/// The sequence with every apostrophe variant replaced by `rep`.
pub open spec fn with_apostrophes_replaced(s: Seq<char>, rep: char) -> Seq<char> {
    s.map_values(
        |c: char|
            if is_apostrophe(c) {
                rep
            } else {
                c
            },
    )
}

/// The eight variant forms of a word, one per apostrophe variant, in table
/// order.
pub open spec fn variant_forms(w: Seq<char>) -> Seq<Seq<char>> {
    Seq::new(8, |i: int| with_apostrophes_replaced(w, apostrophe_variant(i)))
}

/// What one word of the base list contributes to the expanded list: its
/// eight variant forms if it holds an apostrophe, else the word itself.
pub open spec fn expanded_words(w: Seq<char>) -> Seq<Seq<char>> {
    if has_apostrophe(w) {
        variant_forms(w)
    } else {
        seq![w]
    }
}

/// The expansion of a whole base list, in base-list order.
pub open spec fn expand_spec(base: Seq<Seq<char>>) -> Seq<Seq<char>>
    decreases base.len(),
{
    if base.len() == 0 {
        Seq::empty()
    } else {
        expand_spec(base.drop_last()) + expanded_words(base.last())
    }
}

/// Whether the string contains any apostrophe variant.
pub fn contains_apostrophe(s: &str) -> (r: bool)
    ensures
        r == has_apostrophe(s@),
{
    let v = chars_of(s);
    let mut i: usize = 0;
    while i < v.len()
        invariant
            i <= v@.len(),
            v@ == s@,
            forall|k: int| 0 <= k < i ==> !is_apostrophe(#[trigger] s@[k]),
        decreases v@.len() - i,
    {
        if is_apostrophe_char(v[i]) {
            return true;
        }
        i = i + 1;
    }
    false
}

/// The string with every apostrophe variant replaced by `replacement`.
pub fn replace_apostrophes(s: &str, replacement: char) -> (r: String)
    ensures
        r@ == with_apostrophes_replaced(s@, replacement),
{
    let v = chars_of(s);
    let mut out: Vec<char> = Vec::new();
    proof {
        assert(out@ =~= with_apostrophes_replaced(s@.take(0), replacement));
    }
    let mut i: usize = 0;
    while i < v.len()
        invariant
            i <= v@.len(),
            v@ == s@,
            out@ == with_apostrophes_replaced(s@.take(i as int), replacement),
        decreases v@.len() - i,
    {
        let c = v[i];
        if is_apostrophe_char(c) {
            out.push(replacement);
        } else {
            out.push(c);
        }
        proof {
            assert(out@ =~= with_apostrophes_replaced(s@.take(i + 1 as int), replacement));
        }
        i = i + 1;
    }
    proof {
        assert(s@.take(v@.len() as int) =~= s@);
    }
    string_from_chars(&out)
}

proof fn lemma_expand_snoc(base: Seq<Seq<char>>, i: int)
    requires
        0 <= i < base.len(),
    ensures
        expand_spec(base.take(i + 1)) == expand_spec(base.take(i)) + expanded_words(base[i]),
{
    assert(base.take(i + 1).drop_last() =~= base.take(i));
    assert(base.take(i + 1).last() == base[i]);
}

/// Expands a stopword list so that every entry holding an apostrophe is
/// replaced, in place, by its eight apostrophe-variant forms; entries without
/// an apostrophe pass through unchanged. The base list's order is kept.
pub fn expand_stopwords_with_apostrophe_variants(base_stopwords: &Vec<&str>) -> (r: Vec<String>)
    ensures
        r.deep_view() == expand_spec(base_stopwords.deep_view()),
{
    let ghost base: Seq<Seq<char>> = base_stopwords.deep_view();
    let mut r: Vec<String> = Vec::new();
    proof {
        assert(base.take(0) =~= Seq::<Seq<char>>::empty());
        assert(r.deep_view() =~~= expand_spec(base.take(0)));
    }
    let mut i: usize = 0;
    while i < base_stopwords.len()
        invariant
            i <= base_stopwords@.len(),
            base == base_stopwords.deep_view(),
            r.deep_view() == expand_spec(base.take(i as int)),
        decreases base_stopwords@.len() - i,
    {
        let word: &str = base_stopwords[i];
        assert(word@ == base[i as int]);
        if contains_apostrophe(word) {
            let apos = apostrophes();
            let ghost r1: Seq<Seq<char>> = r.deep_view();
            let mut k: usize = 0;
            proof {
                assert(variant_forms(word@).take(0) =~= Seq::<Seq<char>>::empty());
                assert(r.deep_view() =~~= r1 + variant_forms(word@).take(0));
            }
            while k < 8
                invariant
                    k <= 8,
                    apos@.len() == 8,
                    forall|t: int| 0 <= t < 8 ==> apos@[t] == apostrophe_variant(t),
                    word@ == base[i as int],
                    r.deep_view() == r1 + variant_forms(word@).take(k as int),
                decreases 8 - k,
            {
                let w2 = replace_apostrophes(word, apos[k]);
                let ghost r2: Seq<Seq<char>> = r.deep_view();
                r.push(w2);
                proof {
                    assert(r.deep_view() =~~= r2.push(w2@));
                    assert(r2.push(w2@) =~~= r1 + variant_forms(word@).take(k + 1 as int));
                }
                k = k + 1;
            }
            proof {
                assert(variant_forms(word@).take(8) =~= variant_forms(word@));
                lemma_expand_snoc(base, i as int);
                assert(r.deep_view() =~~= expand_spec(base.take(i + 1 as int)));
            }
        } else {
            let w2 = word.to_owned();
            let ghost r2: Seq<Seq<char>> = r.deep_view();
            r.push(w2);
            proof {
                assert(r.deep_view() =~~= r2.push(word@));
                lemma_expand_snoc(base, i as int);
                assert(expanded_words(base[i as int]) =~= seq![word@]);
                assert(r2.push(word@) =~~= r2 + seq![word@]);
            }
        }
        i = i + 1;
    }
    proof {
        assert(base.take(base.len() as int) =~= base);
    }
    r
}

/// Law: a base list in which no word holds an apostrophe expands one to one,
/// with unchanged order.
pub proof fn lemma_expand_no_apostrophes(base: Seq<Seq<char>>)
    requires
        forall|i: int| 0 <= i < base.len() ==> !has_apostrophe(#[trigger] base[i]),
    ensures
        expand_spec(base) == base,
    decreases base.len(),
{
    if base.len() > 0 {
        assert(forall|i: int|
            0 <= i < base.len() - 1 ==> #[trigger] base.drop_last()[i] == base[i]);
        lemma_expand_no_apostrophes(base.drop_last());
        assert(expanded_words(base.last()) =~= seq![base.last()]);
        assert(base.drop_last() + seq![base.last()] =~= base);
    }
}

/// The curated base list of English stopwords, as a sequence of words.
/// Contraction-bearing entries are written with the ASCII apostrophe.
pub open spec fn en_base_words() -> Seq<Seq<char>> {
    split_ws(
        "a about above after again against all am an and any are aren't as at be because been before being below between both but by can can't cannot could couldn't did didn't do does doesn't doing don't down during each few for from further had hadn't has hasn't have haven't having he her here hers herself him himself his how i i'll i'm i've if in into is isn't it it's its itself just let's me more most mustn't my myself no nor not of off on once only or other ought our ours ourselves out over own same shan't she should shouldn't so some such than that that's the their theirs them themselves then there there's these they this those through to too under until up very was wasn't we we're were weren't what when where which while who whom why with won't would wouldn't you you're your yours yourself yourselves"@,
    )
}

/// The curated base English stopword list, one entry per word.
pub fn stopwords_en_base() -> (r: Vec<String>)
    ensures
        r.deep_view() == en_base_words(),
{
    tokenize(
        "a about above after again against all am an and any are aren't as at be because been before being below between both but by can can't cannot could couldn't did didn't do does doesn't doing don't down during each few for from further had hadn't has hasn't have haven't having he her here hers herself him himself his how i i'll i'm i've if in into is isn't it it's its itself just let's me more most mustn't my myself no nor not of off on once only or other ought our ours ourselves out over own same shan't she should shouldn't so some such than that that's the their theirs them themselves then there there's these they this those through to too under until up very was wasn't we we're were weren't what when where which while who whom why with won't would wouldn't you you're your yours yourself yourselves",
    )
}

/// The curated English stopword list with apostrophe variants expanded.
pub fn get_stopwords_filter_en() -> (r: Vec<String>)
    ensures
        r.deep_view() == expand_spec(en_base_words()),
{
    let base: Vec<String> = stopwords_en_base();
    let mut refs: Vec<&str> = Vec::new();
    proof {
        assert(refs.deep_view() =~~= base.deep_view().take(0));
    }
    let mut i: usize = 0;
    while i < base.len()
        invariant
            i <= base@.len(),
            base.deep_view() == en_base_words(),
            refs.deep_view() == base.deep_view().take(i as int),
        decreases base@.len() - i,
    {
        let ghost d: Seq<Seq<char>> = refs.deep_view();
        refs.push(base[i].as_str());
        proof {
            assert(refs.deep_view() =~~= d.push(base@[i as int]@));
            assert(d.push(base@[i as int]@) =~~= base.deep_view().take(i + 1 as int));
        }
        i = i + 1;
    }
    proof {
        assert(base.deep_view().take(base@.len() as int) =~~= en_base_words());
    }
    expand_stopwords_with_apostrophe_variants(&refs)
}

} // verus!
