//! Ready-made analyzers: an ordered, immutable chain of whitespace
//! tokenizer and token filters.

use crate::filters::{en_base_words, expand_spec, get_stopwords_filter_en};
use crate::outer_punctuation::{strip_outer, OuterPunctuationFilter};
use crate::possessive_contraction::{strip_possessive, PossessiveContractionFilter};
use crate::text::{lower_of, lowercase};
use crate::token::{Token, TokenModel, TokenState};
use crate::tokenizer::{split_ws, tokenize};
use vstd::prelude::*;

verus! {

/// One step of an analyzer's filter chain.
pub enum FilterStep {
    Lower,
    OuterPunct(OuterPunctuationFilter),
    StopwordRemoval(Vec<String>),
    Possessive(PossessiveContractionFilter),
}

/// The ghost model of a filter step.
pub enum StepModel {
    Lower,
    OuterPunct(Seq<char>),
    StopwordRemoval(Seq<Seq<char>>),
    Possessive,
}

impl View for FilterStep {
    type V = StepModel;

    open spec fn view(&self) -> StepModel {
        match self {
            FilterStep::Lower => StepModel::Lower,
            FilterStep::OuterPunct(f) => StepModel::OuterPunct(f.exceptions@),
            FilterStep::StopwordRemoval(ws) => StepModel::StopwordRemoval(ws.deep_view()),
            FilterStep::Possessive(_) => StepModel::Possessive,
        }
    }
}

impl DeepView for FilterStep {
    type V = StepModel;

    open spec fn deep_view(&self) -> StepModel {
        self.view()
    }
}

/// What one step does to one token. A removed token is treated as absent
/// and passes unchanged. A live token's text is transformed by a case
/// folding, punctuation, or possessive step; a stopword-removal step marks
/// the token removed when its text matches an entry of the word list.
pub open spec fn step_model(m: StepModel, t: TokenModel) -> TokenModel {
    if !t.live {
        t
    } else {
        match m {
            StepModel::Lower => TokenModel { text: lower_of(t.text), live: true },
            StepModel::OuterPunct(e) => TokenModel { text: strip_outer(t.text, e), live: true },
            StepModel::StopwordRemoval(ws) => TokenModel {
                text: t.text,
                live: !ws.contains(t.text),
            },
            StepModel::Possessive => TokenModel { text: strip_possessive(t.text), live: true },
        }
    }
}

/// The whole chain applied to one token, in chain order.
pub open spec fn chain_model(steps: Seq<StepModel>, t: TokenModel) -> TokenModel
    decreases steps.len(),
{
    if steps.len() == 0 {
        t
    } else {
        chain_model(steps.drop_first(), step_model(steps[0], t))
    }
}

/// What the chain makes of one raw word.
pub open spec fn analyzed_token(chain: Seq<StepModel>, w: Seq<char>) -> TokenModel {
    chain_model(chain, TokenModel { text: w, live: true })
}

/// The tokens of a whole text after the chain, in document order.
pub open spec fn analyze_model(chain: Seq<StepModel>, input: Seq<char>) -> Seq<TokenModel> {
    split_ws(input).map_values(|w: Seq<char>| analyzed_token(chain, w))
}

pub proof fn lemma_chain_snoc(steps: Seq<StepModel>, t: TokenModel, k: int)
    requires
        0 <= k < steps.len(),
    ensures
        chain_model(steps.take(k + 1), t) == step_model(steps[k], chain_model(steps.take(k), t)),
    decreases k,
{
    let pre = steps.take(k);
    let pre1 = steps.take(k + 1);
    assert(pre1[0] == steps[0]);
    if k == 0 {
        assert(pre =~= Seq::<StepModel>::empty());
        assert(pre1.drop_first() =~= Seq::<StepModel>::empty());
        assert(chain_model(pre1, t) == chain_model(pre1.drop_first(), step_model(pre1[0], t)));
        assert(chain_model(pre1.drop_first(), step_model(pre1[0], t)) == step_model(
            pre1[0],
            t,
        ));
        assert(chain_model(pre, t) == t);
    } else {
        let t2 = step_model(steps[0], t);
        assert(pre[0] == steps[0]);
        assert(pre1.drop_first() =~= steps.drop_first().take(k));
        assert(pre.drop_first() =~= steps.drop_first().take(k - 1));
        lemma_chain_snoc(steps.drop_first(), t2, k - 1);
        assert(steps.drop_first()[k - 1] == steps[k]);
        assert(chain_model(pre, t) == chain_model(pre.drop_first(), t2));
        assert(chain_model(pre1, t) == chain_model(pre1.drop_first(), t2));
    }
}

/// Law: a token once marked removed is treated as absent by every later
/// step; the rest of the chain leaves it untouched.
pub proof fn lemma_removed_stays_removed(steps: Seq<StepModel>, t: TokenModel)
    requires
        !t.live,
    ensures
        chain_model(steps, t) == t,
    decreases steps.len(),
{
    if steps.len() > 0 {
        lemma_removed_stays_removed(steps.drop_first(), t);
    }
}

fn stopword_match(words: &Vec<String>, text: &String) -> (r: bool)
    ensures
        r == words.deep_view().contains(text@),
{
    let mut i: usize = 0;
    while i < words.len()
        invariant
            i <= words@.len(),
            forall|k: int| 0 <= k < i ==> words.deep_view()[k] != text@,
        decreases words@.len() - i,
    {
        if words[i].eq(text) {
            assert(words.deep_view()[i as int] == text@);
            return true;
        }
        i = i + 1;
    }
    false
}

impl FilterStep {
    /// Applies this step to a token. A live token keeps its position.
    pub fn apply(&self, t: &mut Token)
        ensures
            final(t)@ == step_model(self@, old(t)@),
            final(t).state is Live ==> final(t).state == old(t).state,
    {
        match t.state {
            TokenState::Removed => {},
            TokenState::Live(_) => {
                match self {
                    FilterStep::Lower => {
                        t.text = lowercase(t.text.as_str());
                    },
                    FilterStep::OuterPunct(f) => {
                        t.text = f.apply(t.text.as_str());
                    },
                    FilterStep::StopwordRemoval(ws) => {
                        if stopword_match(ws, &t.text) {
                            t.state = TokenState::Removed;
                        }
                    },
                    FilterStep::Possessive(f) => {
                        t.text = f.apply(t.text.as_str());
                    },
                }
            },
        }
    }
}

/// An ordered, immutable chain of whitespace tokenizer plus token filters.
/// An analyzer is stateless across inputs and may be reused for many texts.
pub struct Analyzer {
    pub steps: Vec<FilterStep>,
}

impl Analyzer {
    /// The ghost model of the filter chain, in chain order.
    pub open spec fn chain(&self) -> Seq<StepModel> {
        self.steps.deep_view()
    }

    /// Applies the whole filter chain to one token. A live token keeps its
    /// position.
    pub fn run_chain(&self, t: &mut Token)
        ensures
            final(t)@ == chain_model(self.chain(), old(t)@),
            final(t).state is Live ==> final(t).state == old(t).state,
    {
        let ghost t0: TokenModel = t@;
        let ghost s0 = t.state;
        proof {
            assert(self.chain().take(0) =~= Seq::<StepModel>::empty());
        }
        let mut k: usize = 0;
        while k < self.steps.len()
            invariant
                k <= self.steps@.len(),
                t@ == chain_model(self.chain().take(k as int), t0),
                t.state is Live ==> t.state == s0,
            decreases self.steps@.len() - k,
        {
            proof {
                lemma_chain_snoc(self.chain(), t0, k as int);
            }
            let step = &self.steps[k];
            step.apply(t);
            k = k + 1;
        }
        proof {
            assert(self.chain().take(self.steps@.len() as int) =~= self.chain());
        }
    }

    /// All tokens of the text after the chain, in document order. Removed
    /// tokens are present and marked; a live token's position is its index
    /// among the raw tokens.
    pub fn analyze(&self, text: &str) -> (r: Vec<Token>)
        ensures
            r@.len() == analyze_model(self.chain(), text@).len(),
            forall|i: int|
                0 <= i < r@.len() ==> r@[i]@ == analyze_model(self.chain(), text@)[i],
            forall|i: int|
                0 <= i < r@.len() ==> r@[i].state == (if analyze_model(self.chain(), text@)[i].live {
                    TokenState::Live(i as usize)
                } else {
                    TokenState::Removed
                }),
    {
        let words: Vec<String> = tokenize(text);
        let mut r: Vec<Token> = Vec::new();
        let mut i: usize = 0;
        while i < words.len()
            invariant
                i <= words@.len(),
                words.deep_view() == split_ws(text@),
                r@.len() == i,
                forall|k: int|
                    0 <= k < i ==> r@[k]@ == analyze_model(self.chain(), text@)[k],
                forall|k: int|
                    0 <= k < i ==> r@[k].state == (if analyze_model(self.chain(), text@)[k].live {
                        TokenState::Live(k as usize)
                    } else {
                        TokenState::Removed
                    }),
            decreases words@.len() - i,
        {
            let w: String = words[i].clone();
            assert(w@ == split_ws(text@)[i as int]);
            let mut tok = Token { text: w, state: TokenState::Live(i) };
            self.run_chain(&mut tok);
            r.push(tok);
            i = i + 1;
        }
        r
    }

    /// The texts of the live tokens, in order: what a downstream consumer,
    /// which must treat removed tokens as absent, sees.
    pub fn token_texts(&self, text: &str) -> (r: Vec<String>)
        ensures
            r.deep_view() == live_texts(analyze_model(self.chain(), text@)),
    {
        let toks: Vec<Token> = self.analyze(text);
        let ghost model: Seq<TokenModel> = analyze_model(self.chain(), text@);
        let mut r: Vec<String> = Vec::new();
        proof {
            assert(model.take(0) =~= Seq::<TokenModel>::empty());
            assert(r.deep_view() =~~= live_texts(model.take(0)));
        }
        let mut i: usize = 0;
        while i < toks.len()
            invariant
                i <= toks@.len(),
                toks@.len() == model.len(),
                model == analyze_model(self.chain(), text@),
                forall|k: int| 0 <= k < toks@.len() ==> toks@[k]@ == model[k],
                r.deep_view() == live_texts(model.take(i as int)),
            decreases toks@.len() - i,
        {
            proof {
                assert(model.take(i + 1 as int).drop_last() =~= model.take(i as int));
            }
            let live = match toks[i].state {
                TokenState::Live(_) => true,
                TokenState::Removed => false,
            };
            if live {
                let ghost d: Seq<Seq<char>> = r.deep_view();
                r.push(toks[i].text.clone());
                proof {
                    assert(r.deep_view() =~~= d.push(model[i as int].text));
                    assert(d.push(model[i as int].text) =~~= d + seq![model[i as int].text]);
                }
            }
            i = i + 1;
        }
        proof {
            assert(model.take(model.len() as int) =~= model);
        }
        r
    }
}

/// The texts of the live tokens of a token sequence, in order.
pub open spec fn live_texts(toks: Seq<TokenModel>) -> Seq<Seq<char>>
    decreases toks.len(),
{
    if toks.len() == 0 {
        Seq::empty()
    } else {
        live_texts(toks.drop_last()) + (if toks.last().live {
            seq![toks.last().text]
        } else {
            Seq::<Seq<char>>::empty()
        })
    }
}

fn marker_exceptions() -> (v: Vec<char>)
    ensures
        v@ == seq!['#', '@'],
{
    let mut v: Vec<char> = Vec::new();
    v.push('#');
    v.push('@');
    proof {
        assert(v@ =~= seq!['#', '@']);
    }
    v
}

/// The chain every ready-made analyzer starts from: strip outer punctuation
/// keeping a leading `#` or `@`, then strip possessive suffixes. Preserves
/// case; for general-purpose raw tokenization.
pub fn kapiche_analyzer() -> (a: Analyzer)
    ensures
        a.chain() == seq![
            StepModel::OuterPunct(seq!['#', '@']),
            StepModel::Possessive,
        ],
{
    let mut steps: Vec<FilterStep> = Vec::new();
    steps.push(FilterStep::OuterPunct(OuterPunctuationFilter::new(marker_exceptions())));
    steps.push(FilterStep::Possessive(PossessiveContractionFilter));
    let a = Analyzer { steps };
    proof {
        assert(a.chain() =~~= seq![
            StepModel::OuterPunct(seq!['#', '@']),
            StepModel::Possessive,
        ]);
    }
    a
}

/// As [`kapiche_analyzer`], with case folding inserted right after
/// tokenization. For indexing where matching is case-insensitive but
/// stopwords are preserved.
pub fn kapiche_analyzer_lower() -> (a: Analyzer)
    ensures
        a.chain() == seq![
            StepModel::Lower,
            StepModel::OuterPunct(seq!['#', '@']),
            StepModel::Possessive,
        ],
{
    let mut steps: Vec<FilterStep> = Vec::new();
    steps.push(FilterStep::Lower);
    steps.push(FilterStep::OuterPunct(OuterPunctuationFilter::new(marker_exceptions())));
    steps.push(FilterStep::Possessive(PossessiveContractionFilter));
    let a = Analyzer { steps };
    proof {
        assert(a.chain() =~~= seq![
            StepModel::Lower,
            StepModel::OuterPunct(seq!['#', '@']),
            StepModel::Possessive,
        ]);
    }
    a
}

/// As [`kapiche_analyzer_lower`], with stopword removal (over the expanded
/// curated English list) inserted after case folding and before punctuation
/// stripping, and possessive stripping applied last, so that a word removed
/// as a stopword is never rescued by a later change of its surface form.
/// For token counting and topic modeling.
pub fn kapiche_analyzer_lower_with_stopwords() -> (a: Analyzer)
    ensures
        a.chain() == seq![
            StepModel::Lower,
            StepModel::StopwordRemoval(expand_spec(en_base_words())),
            StepModel::OuterPunct(seq!['#', '@']),
            StepModel::Possessive,
        ],
{
    let stopwords_en = get_stopwords_filter_en();
    let mut steps: Vec<FilterStep> = Vec::new();
    steps.push(FilterStep::Lower);
    steps.push(FilterStep::StopwordRemoval(stopwords_en));
    steps.push(FilterStep::OuterPunct(OuterPunctuationFilter::new(marker_exceptions())));
    steps.push(FilterStep::Possessive(PossessiveContractionFilter));
    let a = Analyzer { steps };
    proof {
        assert(a.chain() =~~= seq![
            StepModel::Lower,
            StepModel::StopwordRemoval(expand_spec(en_base_words())),
            StepModel::OuterPunct(seq!['#', '@']),
            StepModel::Possessive,
        ]);
    }
    a
}

} // verus!
