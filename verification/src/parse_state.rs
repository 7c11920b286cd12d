//! The state of a parse: the current token and the lexer's position.
use vstd::prelude::*;
use crate::lexer::{lemma_lex_progress, lex, TokenView};

verus! {

/// What the parser knows besides the input: the current token and the
/// position from which the lexer reads the next one.
pub struct ParserState {
    pub current: Option<TokenView>,
    pub pos: int,
}

/// Whether the position lies within the input.
pub open spec fn in_input(input: Seq<char>, st: ParserState) -> bool {
    0 <= st.pos <= input.len()
}

/// How much is left to parse: the characters not yet lexed, and one more for a
/// current token.
pub open spec fn remaining(input: Seq<char>, st: ParserState) -> nat {
    if in_input(input, st) {
        (input.len() - st.pos + if st.current is Some {
            1int
        } else {
            0int
        }) as nat
    } else {
        0
    }
}

/// The state after the current token has been replaced by the next one.
pub open spec fn advance(input: Seq<char>, st: ParserState) -> ParserState {
    ParserState { current: lex(input, st.pos).0, pos: lex(input, st.pos).1 }
}

/// The token after the current one.
pub open spec fn peek(input: Seq<char>, st: ParserState) -> Option<TokenView> {
    lex(input, st.pos).0
}

/// Whether `to` has strictly less left to parse than `from`.
pub open spec fn shrinks(input: Seq<char>, from: ParserState, to: ParserState) -> bool {
    in_input(input, to) && remaining(input, to) < remaining(input, from)
}

/// Advancing stays within the input and leaves no more to parse; it leaves
/// less where there was a current token.
pub broadcast proof fn lemma_advance_shrinks(input: Seq<char>, st: ParserState)
    requires
        in_input(input, st),
    ensures
        in_input(input, #[trigger] advance(input, st)),
        remaining(input, advance(input, st)) <= remaining(input, st),
        st.current is Some ==> remaining(input, advance(input, st)) < remaining(input, st),
{
    lemma_lex_progress(input, st.pos);
}

} // verus!
