//! Parsing always moves forward.
//!
//! The grammar's definitions recurse on what is left to parse, and where they
//! go on from the state that an earlier step returned, they first test that
//! the step left less to parse. The lemmas of this module show that these
//! tests always succeed: no step leaves more to parse than it found, and a
//! step that yields a result leaves less.
use vstd::prelude::*;
use crate::ast::{ExprView, PatternView, TypeAnnotationView, TypeView};
use crate::lexer::TokenView;
use crate::parse_state::{
    advance, in_input, lemma_advance_shrinks, peek, remaining, shrinks, ParserState,
};
use crate::parser::{
    expect, not_behind, operator_of, p_all, p_argument_or_parameter, p_arms, p_binary,
    p_binary_rest, p_bracketed, p_closed_elements, p_closed_patterns, p_cond, p_cond_pairs,
    p_elements, p_entries, p_expression, p_fields, p_function_or_call, p_generic_type, p_items,
    p_lambda, p_lambda_params, p_match, p_pattern, p_pattern_list, p_primary, p_program,
    p_struct_definition, p_type, p_type_list, p_type_pair, p_type_then_close, p_wrapped_pattern,
    skip_comma, ItemView,
};

verus! {

broadcast use lemma_advance_shrinks;

/// A step from `st` left no more to parse, and less where it had a result.
pub open spec fn consumed<T>(input: Seq<char>, st: ParserState, r: (Option<T>, ParserState)) -> bool {
    not_behind(input, st, r.1) && (r.0 is Some ==> shrinks(input, st, r.1))
}

/// Parsing a type moves forward.
pub proof fn lemma_type_progress(input: Seq<char>, st: ParserState)
    requires
        in_input(input, st),
    ensures
        consumed(input, st, p_type(input, st)),
    decreases remaining(input, st), 1nat,
{
    match st.current {
        Some(TokenView::Identifier(name)) => {
            if advance(input, st).current == Some(TokenView::LeftBracket) {
                lemma_generic_type_progress(input, advance(input, st), name);
            }
        },
        _ => {},
    }
}

/// Parsing a type and a closing bracket moves forward.
pub proof fn lemma_type_then_close_progress(input: Seq<char>, st: ParserState)
    requires
        in_input(input, st),
    ensures
        consumed(input, st, p_type_then_close(input, st)),
    decreases remaining(input, st), 2nat,
{
    lemma_type_progress(input, st);
}

/// Parsing a pair of types moves forward.
pub proof fn lemma_type_pair_progress(input: Seq<char>, st: ParserState)
    requires
        in_input(input, st),
    ensures
        consumed(input, st, p_type_pair(input, st)),
    decreases remaining(input, st), 3nat,
{
    lemma_type_progress(input, st);
    let after = p_type(input, st).1;
    if p_type(input, st).0 is Some {
        let (found, last) = expect(input, after, TokenView::Comma);
        if found {
            lemma_type_then_close_progress(input, last);
        }
    }
}

/// Parsing the arguments of a generic type leaves less to parse.
pub proof fn lemma_generic_type_progress(input: Seq<char>, st: ParserState, name: Seq<char>)
    requires
        in_input(input, st),
        st.current is Some,
    ensures
        shrinks(input, st, p_generic_type(input, st, name).1),
    decreases remaining(input, st), 0nat,
{
    let inside = advance(input, st);
    if name == "Tuple"@ {
        lemma_type_list_progress(input, inside, Seq::empty());
    } else if name == "List"@ {
        lemma_type_then_close_progress(input, inside);
    } else if name == "Array"@ {
        lemma_type_progress(input, inside);
    } else if name == "Slice"@ || name == "HashSet"@ || name == "BTreeSet"@ {
        lemma_type_then_close_progress(input, inside);
    } else if name == "Map"@ || name == "BTreeMap"@ {
        lemma_type_pair_progress(input, inside);
    }
}

/// Parsing the components of a tuple type leaves no more to parse.
pub proof fn lemma_type_list_progress(input: Seq<char>, st: ParserState, acc: Seq<TypeView>)
    requires
        in_input(input, st),
    ensures
        not_behind(input, st, p_type_list(input, st, acc).1),
    decreases remaining(input, st), 2nat,
{
    match st.current {
        Some(TokenView::RightBracket) => {},
        Some(TokenView::Comma) => {
            lemma_type_list_progress(input, advance(input, st), acc);
        },
        _ => {
            lemma_type_progress(input, st);
            let (t, after) = p_type(input, st);
            if t is Some {
                lemma_type_list_progress(input, after, acc.push(t->0));
            }
        },
    }
}

/// Parsing a pattern moves forward.
pub proof fn lemma_pattern_progress(input: Seq<char>, st: ParserState)
    requires
        in_input(input, st),
    ensures
        consumed(input, st, p_pattern(input, st)),
    decreases remaining(input, st), 0nat,
{
    match st.current {
        Some(TokenView::KeywordSome) => {
            lemma_wrapped_pattern_progress(input, advance(input, st), "Some"@);
        },
        Some(TokenView::KeywordOk) => {
            lemma_wrapped_pattern_progress(input, advance(input, st), "Ok"@);
        },
        Some(TokenView::KeywordErr) => {
            lemma_wrapped_pattern_progress(input, advance(input, st), "Err"@);
        },
        Some(TokenView::Identifier(name)) => {
            if advance(input, st).current == Some(TokenView::LeftBracket) {
                lemma_closed_patterns_progress(
                    input,
                    advance(input, advance(input, st)),
                    TokenView::RightBracket,
                );
            }
        },
        Some(TokenView::LeftParen) => {
            lemma_closed_patterns_progress(input, advance(input, st), TokenView::RightParen);
        },
        Some(TokenView::LeftBracket) => {
            lemma_closed_patterns_progress(input, advance(input, st), TokenView::RightBracket);
        },
        _ => {},
    }
}

/// Parsing the argument of a `Some`, `Ok` or `Err` pattern moves forward.
pub proof fn lemma_wrapped_pattern_progress(input: Seq<char>, st: ParserState, name: Seq<char>)
    requires
        in_input(input, st),
    ensures
        consumed(input, st, p_wrapped_pattern(input, st, name)),
    decreases remaining(input, st), 1nat,
{
    if st.current == Some(TokenView::LeftBracket) {
        lemma_pattern_progress(input, advance(input, st));
    }
}

/// Parsing patterns and their closing token moves forward.
pub proof fn lemma_closed_patterns_progress(input: Seq<char>, st: ParserState, close: TokenView)
    requires
        in_input(input, st),
    ensures
        consumed(input, st, p_closed_patterns(input, st, close)),
    decreases remaining(input, st), 2nat,
{
    lemma_pattern_list_progress(input, st, close, Seq::empty());
}

/// Parsing patterns separated by commas leaves no more to parse.
pub proof fn lemma_pattern_list_progress(
    input: Seq<char>,
    st: ParserState,
    close: TokenView,
    acc: Seq<PatternView>,
)
    requires
        in_input(input, st),
    ensures
        not_behind(input, st, p_pattern_list(input, st, close, acc).1),
    decreases remaining(input, st), 1nat,
{
    if st.current != Some(close) {
        lemma_pattern_progress(input, st);
        let (p, after) = p_pattern(input, st);
        if p is Some && after.current == Some(TokenView::Comma) {
            lemma_pattern_list_progress(input, advance(input, after), close, acc.push(p->0));
        }
    }
}

/// Parsing the fields of a struct moves forward.
pub proof fn lemma_fields_progress(input: Seq<char>, st: ParserState, acc: Seq<TypeAnnotationView>)
    requires
        in_input(input, st),
    ensures
        consumed(input, st, p_fields(input, st, acc)),
    decreases remaining(input, st),
{
    match st.current {
        Some(TokenView::Comma) => {
            lemma_fields_progress(input, advance(input, st), acc);
        },
        Some(TokenView::Identifier(field)) => {
            let (found, a) = expect(input, advance(input, st), TokenView::Colon);
            if found {
                lemma_type_progress(input, a);
                let (t, b) = p_type(input, a);
                if t is Some {
                    lemma_fields_progress(
                        input,
                        b,
                        acc.push(TypeAnnotationView { name: field, type_: t->0 }),
                    );
                }
            }
        },
        _ => {},
    }
}

/// Parsing the rest of a struct definition leaves no more to parse.
pub proof fn lemma_struct_definition_progress(input: Seq<char>, st: ParserState)
    requires
        in_input(input, st),
    ensures
        consumed(input, st, p_struct_definition(input, st)),
{
    match st.current {
        Some(TokenView::Identifier(_)) => {
            let (comma, a) = expect(input, advance(input, st), TokenView::Comma);
            if comma {
                let (bracket, b) = expect(input, a, TokenView::LeftBracket);
                if bracket {
                    lemma_fields_progress(input, b, Seq::empty());
                }
            }
        },
        _ => {},
    }
}

/// Parsing the parameters of a lambda moves forward.
pub proof fn lemma_lambda_params_progress(
    input: Seq<char>,
    st: ParserState,
    acc: Seq<TypeAnnotationView>,
)
    requires
        in_input(input, st),
    ensures
        consumed(input, st, p_lambda_params(input, st, acc)),
    decreases remaining(input, st),
{
    match st.current {
        Some(TokenView::Identifier(name)) => {
            if advance(input, st).current == Some(TokenView::Colon) {
                lemma_type_progress(input, advance(input, advance(input, st)));
                let (t, a) = p_type(input, advance(input, advance(input, st)));
                if t is Some {
                    lemma_lambda_params_progress(
                        input,
                        skip_comma(input, a),
                        acc.push(TypeAnnotationView { name, type_: t->0 }),
                    );
                }
            } else {
                lemma_lambda_params_progress(
                    input,
                    skip_comma(input, advance(input, st)),
                    acc.push(TypeAnnotationView { name, type_: TypeView::Int32 }),
                );
            }
        },
        _ => {},
    }
}

/// Parsing an expression moves forward.
pub proof fn lemma_expression_progress(input: Seq<char>, st: ParserState)
    requires
        in_input(input, st),
    ensures
        consumed(input, st, p_expression(input, st)),
    decreases remaining(input, st), 8nat,
{
    match st.current {
        Some(TokenView::Identifier(id)) => {
            if id == "Cond"@ {
                lemma_cond_progress(input, advance(input, st));
            } else if id == "Match"@ {
                lemma_match_progress(input, advance(input, st));
            } else if id == "Function"@ {
                lemma_lambda_progress(input, advance(input, st));
            } else if peek(input, st) == Some(TokenView::LeftBracket) {
                lemma_function_or_call_progress(input, st);
                let (r, after) = p_function_or_call(input, st);
                if r is None {
                    lemma_binary_progress(input, after);
                }
            } else {
                lemma_binary_progress(input, st);
            }
        },
        _ => {
            lemma_binary_progress(input, st);
        },
    }
}

/// Parsing a call or definition moves forward.
pub proof fn lemma_function_or_call_progress(input: Seq<char>, st: ParserState)
    requires
        in_input(input, st),
    ensures
        consumed(input, st, p_function_or_call(input, st)),
    decreases remaining(input, st), 7nat,
{
    match st.current {
        Some(TokenView::Identifier(name)) => {
            if advance(input, st).current == Some(TokenView::LeftBracket) {
                let inside = advance(input, advance(input, st));
                if name == "Struct"@ {
                    lemma_struct_definition_progress(input, inside);
                } else {
                    lemma_items_progress(input, inside, Seq::empty(), Seq::empty());
                    let (items, after) = p_items(input, inside, Seq::empty(), Seq::empty());
                    if items is Some && after.current == Some(TokenView::Define) {
                        lemma_expression_progress(input, advance(input, after));
                    }
                }
            }
        },
        _ => {},
    }
}

/// Parsing the items of a call or definition leaves no more to parse.
pub proof fn lemma_items_progress(
    input: Seq<char>,
    st: ParserState,
    params: Seq<TypeAnnotationView>,
    args: Seq<ExprView>,
)
    requires
        in_input(input, st),
    ensures
        not_behind(input, st, p_items(input, st, params, args).1),
    decreases remaining(input, st), 10nat,
{
    match st.current {
        Some(TokenView::RightBracket) => {},
        Some(TokenView::Comma) => {
            lemma_items_progress(input, advance(input, st), params, args);
        },
        _ => {
            lemma_argument_or_parameter_progress(input, st);
            let (item, after) = p_argument_or_parameter(input, st);
            if item is Some {
                match item->0 {
                    ItemView::Parameter(p) => {
                        lemma_items_progress(input, after, params.push(p), args);
                    },
                    ItemView::Argument(e) => {
                        lemma_items_progress(input, after, params, args.push(e));
                    },
                }
            }
        },
    }
}

/// Parsing an argument or a parameter moves forward.
pub proof fn lemma_argument_or_parameter_progress(input: Seq<char>, st: ParserState)
    requires
        in_input(input, st),
    ensures
        consumed(input, st, p_argument_or_parameter(input, st)),
    decreases remaining(input, st), 9nat,
{
    match st.current {
        Some(TokenView::Identifier(_)) => {
            if peek(input, st) == Some(TokenView::Colon) {
                let typed = advance(input, advance(input, st));
                lemma_type_progress(input, typed);
                let (t, after) = p_type(input, typed);
                if t is None {
                    lemma_expression_progress(input, after);
                }
            } else {
                lemma_expression_progress(input, st);
            }
        },
        _ => {
            lemma_expression_progress(input, st);
        },
    }
}

/// Parsing a chain of binary operations moves forward.
pub proof fn lemma_binary_progress(input: Seq<char>, st: ParserState)
    requires
        in_input(input, st),
    ensures
        consumed(input, st, p_binary(input, st)),
    decreases remaining(input, st), 6nat,
{
    lemma_primary_progress(input, st);
    let (left, after) = p_primary(input, st);
    if left is Some {
        lemma_binary_rest_progress(input, after, left->0);
    }
}

/// Parsing the rest of a chain of binary operations leaves no more to parse.
pub proof fn lemma_binary_rest_progress(input: Seq<char>, st: ParserState, left: ExprView)
    requires
        in_input(input, st),
    ensures
        not_behind(input, st, p_binary_rest(input, st, left).1),
    decreases remaining(input, st), 6nat,
{
    match operator_of(st.current) {
        None => {},
        Some(operator) => {
            lemma_primary_progress(input, advance(input, st));
            let (right, after) = p_primary(input, advance(input, st));
            if right is Some {
                lemma_binary_rest_progress(
                    input,
                    after,
                    ExprView::BinaryOp { left: Box::new(left), operator, right: Box::new(right->0) },
                );
            }
        },
    }
}

/// Parsing a primary expression moves forward.
pub proof fn lemma_primary_progress(input: Seq<char>, st: ParserState)
    requires
        in_input(input, st),
    ensures
        consumed(input, st, p_primary(input, st)),
    decreases remaining(input, st), 5nat,
{
    match st.current {
        Some(TokenView::Identifier(id)) => {
            if id == "Cond"@ {
                lemma_cond_progress(input, advance(input, st));
            }
        },
        Some(TokenView::LeftParen) => {
            lemma_closed_elements_progress(input, advance(input, st), TokenView::RightParen);
        },
        Some(TokenView::LeftBracket) => {
            lemma_closed_elements_progress(input, advance(input, st), TokenView::RightBracket);
        },
        Some(TokenView::LeftBrace) => {
            lemma_entries_progress(input, advance(input, st), Seq::empty());
        },
        Some(TokenView::LogDebug) => {
            lemma_bracketed_progress(input, advance(input, st));
        },
        Some(TokenView::LogInfo) => {
            lemma_bracketed_progress(input, advance(input, st));
        },
        Some(TokenView::LogWarn) => {
            lemma_bracketed_progress(input, advance(input, st));
        },
        Some(TokenView::LogError) => {
            lemma_bracketed_progress(input, advance(input, st));
        },
        Some(TokenView::KeywordSome) => {
            lemma_bracketed_progress(input, advance(input, st));
        },
        Some(TokenView::KeywordOk) => {
            lemma_bracketed_progress(input, advance(input, st));
        },
        Some(TokenView::KeywordErr) => {
            lemma_bracketed_progress(input, advance(input, st));
        },
        _ => {},
    }
}

/// Parsing a bracketed expression moves forward.
pub proof fn lemma_bracketed_progress(input: Seq<char>, st: ParserState)
    requires
        in_input(input, st),
    ensures
        consumed(input, st, p_bracketed(input, st)),
    decreases remaining(input, st), 0nat,
{
    if st.current == Some(TokenView::LeftBracket) {
        lemma_expression_progress(input, advance(input, st));
    }
}

/// Parsing the elements of a tuple or list leaves no more to parse.
pub proof fn lemma_closed_elements_progress(input: Seq<char>, st: ParserState, close: TokenView)
    requires
        in_input(input, st),
    ensures
        not_behind(input, st, p_closed_elements(input, st, close).1),
    decreases remaining(input, st), 10nat,
{
    lemma_elements_progress(input, st, close, Seq::empty());
}

/// Parsing expressions separated by commas leaves no more to parse.
pub proof fn lemma_elements_progress(
    input: Seq<char>,
    st: ParserState,
    close: TokenView,
    acc: Seq<ExprView>,
)
    requires
        in_input(input, st),
    ensures
        not_behind(input, st, p_elements(input, st, close, acc).1),
    decreases remaining(input, st), 9nat,
{
    if !(st.current is None || st.current == Some(close)) {
        lemma_expression_progress(input, st);
        let (e, after) = p_expression(input, st);
        if e is Some && after.current == Some(TokenView::Comma) {
            lemma_elements_progress(input, advance(input, after), close, acc.push(e->0));
        }
    }
}

/// Parsing the entries of a map literal leaves no more to parse.
pub proof fn lemma_entries_progress(
    input: Seq<char>,
    st: ParserState,
    acc: Seq<(ExprView, ExprView)>,
)
    requires
        in_input(input, st),
    ensures
        not_behind(input, st, p_entries(input, st, acc).1),
    decreases remaining(input, st), 9nat,
{
    if !(st.current is None || st.current == Some(TokenView::RightBrace)) {
        lemma_expression_progress(input, st);
        let (key, a) = p_expression(input, st);
        if key is Some {
            let (found, b) = expect(input, a, TokenView::Colon);
            if found {
                lemma_expression_progress(input, b);
                let (value, c) = p_expression(input, b);
                if value is Some && c.current == Some(TokenView::Comma) {
                    lemma_entries_progress(
                        input,
                        advance(input, c),
                        acc.push((key->0, value->0)),
                    );
                }
            }
        }
    }
}

/// Parsing a conditional moves forward.
pub proof fn lemma_cond_progress(input: Seq<char>, st: ParserState)
    requires
        in_input(input, st),
    ensures
        consumed(input, st, p_cond(input, st)),
    decreases remaining(input, st), 1nat,
{
    if st.current == Some(TokenView::LeftBracket) {
        lemma_cond_pairs_progress(input, advance(input, st), Seq::empty(), None);
    }
}

/// Parsing the branches of a conditional moves forward.
pub proof fn lemma_cond_pairs_progress(
    input: Seq<char>,
    st: ParserState,
    conditions: Seq<(ExprView, ExprView)>,
    default_statements: Option<Box<ExprView>>,
)
    requires
        in_input(input, st),
    ensures
        consumed(input, st, p_cond_pairs(input, st, conditions, default_statements)),
    decreases remaining(input, st), 0nat,
{
    match st.current {
        Some(TokenView::LeftBracket) => {
            lemma_expression_progress(input, advance(input, st));
            let (first, a) = p_expression(input, advance(input, st));
            if first is Some {
                if a.current == Some(TokenView::RightBracket) {
                    lemma_cond_pairs_progress(
                        input,
                        advance(input, a),
                        conditions,
                        Some(Box::new(first->0)),
                    );
                } else {
                    lemma_expression_progress(input, a);
                    let (second, b) = p_expression(input, a);
                    if second is Some {
                        let (found, c) = expect(input, b, TokenView::RightBracket);
                        if found {
                            lemma_cond_pairs_progress(
                                input,
                                c,
                                conditions.push((first->0, second->0)),
                                default_statements,
                            );
                        }
                    }
                }
            }
        },
        _ => {},
    }
}

/// Parsing a match moves forward.
pub proof fn lemma_match_progress(input: Seq<char>, st: ParserState)
    requires
        in_input(input, st),
    ensures
        consumed(input, st, p_match(input, st)),
    decreases remaining(input, st), 1nat,
{
    if st.current == Some(TokenView::LeftBracket) {
        lemma_expression_progress(input, advance(input, st));
        let (value, a) = p_expression(input, advance(input, st));
        if value is Some {
            let (found, b) = expect(input, a, TokenView::Comma);
            if found {
                lemma_arms_progress(input, b, value->0, Seq::empty());
            }
        }
    }
}

/// Parsing the arms of a match moves forward.
pub proof fn lemma_arms_progress(
    input: Seq<char>,
    st: ParserState,
    value: ExprView,
    arms: Seq<(PatternView, ExprView)>,
)
    requires
        in_input(input, st),
    ensures
        consumed(input, st, p_arms(input, st, value, arms)),
    decreases remaining(input, st), 0nat,
{
    match st.current {
        Some(TokenView::LeftBracket) => {
            lemma_pattern_progress(input, advance(input, st));
            let (pattern, a) = p_pattern(input, advance(input, st));
            if pattern is Some {
                let (comma, b) = expect(input, a, TokenView::Comma);
                if comma {
                    lemma_expression_progress(input, b);
                    let (result, c) = p_expression(input, b);
                    if result is Some {
                        let (found, d) = expect(input, c, TokenView::RightBracket);
                        if found {
                            lemma_arms_progress(
                                input,
                                skip_comma(input, d),
                                value,
                                arms.push((pattern->0, result->0)),
                            );
                        }
                    }
                }
            }
        },
        _ => {},
    }
}

/// Parsing a lambda moves forward.
pub proof fn lemma_lambda_progress(input: Seq<char>, st: ParserState)
    requires
        in_input(input, st),
    ensures
        consumed(input, st, p_lambda(input, st)),
    decreases remaining(input, st), 1nat,
{
    let (bracket, a) = expect(input, st, TokenView::LeftBracket);
    if bracket {
        let (brace, b) = expect(input, a, TokenView::LeftBrace);
        if brace {
            lemma_lambda_params_progress(input, b, Seq::empty());
            let (parameters, c) = p_lambda_params(input, b, Seq::empty());
            if parameters is Some {
                let (comma, d) = expect(input, c, TokenView::Comma);
                if comma {
                    lemma_expression_progress(input, d);
                }
            }
        }
    }
}

/// Parsing one expression after another leaves no more to parse.
pub proof fn lemma_all_progress(input: Seq<char>, st: ParserState, acc: Seq<ExprView>)
    requires
        in_input(input, st),
    ensures
        not_behind(input, st, p_all(input, st, acc).1),
    decreases remaining(input, st), 12nat,
{
    if st.current is Some {
        lemma_expression_progress(input, st);
        let (e, after) = p_expression(input, st);
        if e is Some {
            lemma_all_progress(input, after, acc.push(e->0));
        }
    }
}

/// Parsing never goes back: whatever the input and the state, an expression
/// that parses leaves less to parse than there was, and the parse of a whole
/// program leaves no more.
pub proof fn law_parsing_progresses(input: Seq<char>, st: ParserState)
    requires
        in_input(input, st),
    ensures
        consumed(input, st, p_expression(input, st)),
        not_behind(input, st, p_program(input, st).1),
{
    lemma_expression_progress(input, st);
    lemma_all_progress(input, st, Seq::empty());
}

} // verus!
