//! Counting the tokens that survive an analyzer, without materializing them.

use crate::analyzers::{analyze_model, analyzed_token, Analyzer, StepModel};
use crate::text::chars_of;
use crate::token::{Token, TokenModel, TokenState};
use crate::tokenizer::{lemma_word_len_at, split_ws, word_len};
use crate::unicode::{is_space, is_space_char};
use vstd::prelude::*;
use vstd::string::StrSliceExecFns;

verus! {

/// The number of live tokens in a token sequence.
pub open spec fn live_count(toks: Seq<TokenModel>) -> int
    decreases toks.len(),
{
    if toks.len() == 0 {
        0
    } else {
        live_count(toks.drop_last()) + (if toks.last().live {
            1int
        } else {
            0int
        })
    }
}

/// The number of words whose token survives the chain.
pub open spec fn surviving(chain: Seq<StepModel>, words: Seq<Seq<char>>) -> int
    decreases words.len(),
{
    if words.len() == 0 {
        0
    } else {
        surviving(chain, words.drop_last()) + (if analyzed_token(chain, words.last()).live {
            1int
        } else {
            0int
        })
    }
}

proof fn lemma_surviving_le(chain: Seq<StepModel>, words: Seq<Seq<char>>)
    ensures
        0 <= surviving(chain, words) <= words.len(),
    decreases words.len(),
{
    if words.len() > 0 {
        lemma_surviving_le(chain, words.drop_last());
    }
}

proof fn lemma_surviving_is_live_count(
    chain: Seq<StepModel>,
    words: Seq<Seq<char>>,
    toks: Seq<TokenModel>,
)
    requires
        toks.len() == words.len(),
        forall|i: int| 0 <= i < words.len() ==> toks[i] == analyzed_token(chain, #[trigger] words[i]),
    ensures
        surviving(chain, words) == live_count(toks),
    decreases words.len(),
{
    if words.len() > 0 {
        assert(forall|i: int|
            0 <= i < words.len() - 1 ==> #[trigger] words.drop_last()[i] == words[i]);
        assert(forall|i: int|
            0 <= i < toks.len() - 1 ==> #[trigger] toks.drop_last()[i] == toks[i]);
        lemma_surviving_is_live_count(chain, words.drop_last(), toks.drop_last());
    }
}

/// Counts the tokens of the text that survive the analyzer's chain: the
/// number of tokens not marked removed. Streams over the input, inspecting
/// one token at a time, without materializing the token list.
pub fn count_tokens(analyzer: &Analyzer, text: &str) -> (count: usize)
    ensures
        count == live_count(analyze_model(analyzer.chain(), text@)),
{
    let v = chars_of(text);
    let n = v.len();
    let mut count: usize = 0;
    let mut pos: usize = 0;
    let ghost chain: Seq<StepModel> = analyzer.chain();
    let ghost mut done: Seq<Seq<char>> = Seq::empty();
    proof {
        assert(text@.skip(0) =~= text@);
        assert(done + split_ws(text@) =~~= split_ws(text@));
    }
    let mut i: usize = 0;
    while i < n
        invariant
            i <= n,
            n == v@.len(),
            v@ == text@,
            chain == analyzer.chain(),
            done + split_ws(text@.skip(i as int)) == split_ws(text@),
            done.len() <= i,
            pos == done.len(),
            count == surviving(chain, done),
        decreases n - i,
    {
        if is_space_char(v[i]) {
            proof {
                assert(text@.skip(i as int).drop_first() =~= text@.skip(i + 1 as int));
            }
            i = i + 1;
        } else {
            let start = i;
            let mut j = i;
            while j < n && !is_space_char(v[j])
                invariant
                    start <= j <= n,
                    n == v@.len(),
                    v@ == text@,
                    forall|k: int| start <= k < j ==> !is_space(#[trigger] text@[k]),
                decreases n - j,
            {
                j = j + 1;
            }
            let w: String = text.substring_char(start, j).to_owned();
            let ghost wv: Seq<char> = w@;
            let mut tok = Token { text: w, state: TokenState::Live(pos) };
            analyzer.run_chain(&mut tok);
            let live = match tok.state {
                TokenState::Live(_) => true,
                TokenState::Removed => false,
            };
            proof {
                let s = text@;
                let m = s.skip(start as int);
                assert(forall|k: int| 0 <= k < j - start ==> !is_space(#[trigger] m[k])) by {
                    assert(forall|k: int| 0 <= k < j - start ==> m[k] == s[k + start]);
                }
                assert(j == n || is_space(m[j as int - start as int]));
                lemma_word_len_at(m, j as int - start as int);
                assert(m[0] == s[start as int]);
                assert(m.take(word_len(m) as int) =~= s.subrange(start as int, j as int));
                assert(m.skip(word_len(m) as int) =~= s.skip(j as int));
                assert(split_ws(m) == seq![wv] + split_ws(s.skip(j as int)));
                assert(live == analyzed_token(chain, wv).live);
                lemma_surviving_le(chain, done);
                let done2 = done.push(wv);
                assert(done2.drop_last() =~= done);
                assert(done2 + split_ws(s.skip(j as int)) =~~= done + (seq![wv] + split_ws(
                    s.skip(j as int),
                )));
                done = done2;
            }
            if live {
                count = count + 1;
            }
            pos = pos + 1;
            i = j;
        }
    }
    proof {
        assert(text@.skip(n as int) =~= Seq::<char>::empty());
        assert(done + split_ws(Seq::<char>::empty()) =~~= done);
        assert(done =~= split_ws(text@));
        lemma_surviving_is_live_count(chain, split_ws(text@), analyze_model(chain, text@));
    }
    count
}

} // verus!
