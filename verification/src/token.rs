//! The token model: text content plus an explicit live/removed state.

use vstd::prelude::*;

verus! {

/// Whether a token is still part of the stream. A live token carries its
/// sequence position; a removed token must be treated as absent by
/// downstream consumers.
pub enum TokenState {
    Live(usize),
    Removed,
}

/// A unit of text produced by tokenization, in document order.
pub struct Token {
    pub text: String,
    pub state: TokenState,
}

/// The ghost model of a token: its characters and whether it is live.
pub struct TokenModel {
    pub text: Seq<char>,
    pub live: bool,
}

impl View for Token {
    type V = TokenModel;

    open spec fn view(&self) -> TokenModel {
        TokenModel { text: self.text@, live: self.state is Live }
    }
}

} // verus!
