//! The parser: recursive descent over the lexer's tokens, with one token of
//! lookahead.
//!
//! The grammar is defined by spec functions over the input and a
//! [`ParserState`]; each returns what was parsed, if anything, and the state
//! afterwards, also after a failure, because some rules go on from where
//! another failed. The parser's methods are proved to compute them.
//!
//! The definitions recurse on what is left to parse. Where a rule goes on
//! from the state that an earlier step returned, it tests first that the step
//! left less to parse; the module `parse_progress` proves that this always
//! holds.
use vstd::prelude::*;
use vstd::string::*;
use crate::ast::{
    annotation_views, arm_views, expr_views, pair_views, pattern_views, type_views, ExprView,
    Expression, LogLevel, Operator, Pattern, PatternView, Type, TypeAnnotation,
    TypeAnnotationView, TypeView, lemma_tuple_view,
};
use crate::lexer::{token_view, Lexer, Token, TokenView};
use crate::parse_state::{
    advance, in_input, lemma_advance_shrinks, peek, remaining, shrinks, ParserState,
};
use crate::text::is_word;

verus! {

broadcast use lemma_advance_shrinks;

/// The type that a plain type name denotes: a primitive under its name or its
/// lower-case alias, and a user-defined struct otherwise.
pub open spec fn named_type(name: Seq<char>) -> TypeView {
    if name == "Int8"@ {
        TypeView::Int8
    } else if name == "Int16"@ {
        TypeView::Int16
    } else if name == "Int32"@ {
        TypeView::Int32
    } else if name == "Int64"@ {
        TypeView::Int64
    } else if name == "Int128"@ {
        TypeView::Int128
    } else if name == "Int"@ {
        TypeView::Int
    } else if name == "UInt8"@ {
        TypeView::UInt8
    } else if name == "UInt16"@ {
        TypeView::UInt16
    } else if name == "UInt32"@ {
        TypeView::UInt32
    } else if name == "UInt64"@ {
        TypeView::UInt64
    } else if name == "UInt128"@ {
        TypeView::UInt128
    } else if name == "UInt"@ {
        TypeView::UInt
    } else if name == "Float32"@ {
        TypeView::Float32
    } else if name == "Float64"@ {
        TypeView::Float64
    } else if name == "Bool"@ {
        TypeView::Bool
    } else if name == "Char"@ {
        TypeView::Char
    } else if name == "String"@ {
        TypeView::String
    } else if name == "int"@ {
        TypeView::Int32
    } else if name == "float"@ {
        TypeView::Float64
    } else if name == "string"@ {
        TypeView::String
    } else if name == "bool"@ {
        TypeView::Bool
    } else if name == "char"@ {
        TypeView::Char
    } else {
        TypeView::Custom(name)
    }
}

/// Passes over the token `t`, where it is the current one.
pub open spec fn expect(input: Seq<char>, st: ParserState, t: TokenView) -> (bool, ParserState) {
    if st.current == Some(t) {
        (true, advance(input, st))
    } else {
        (false, st)
    }
}

/// A type: a name, followed by bracketed arguments where it is generic.
pub open spec fn p_type(input: Seq<char>, st: ParserState) -> (Option<TypeView>, ParserState)
    decreases remaining(input, st), 1nat,
    when in_input(input, st)
{
    match st.current {
        Some(TokenView::Identifier(name)) => {
            if advance(input, st).current == Some(TokenView::LeftBracket) {
                p_generic_type(input, advance(input, st), name)
            } else {
                (Some(named_type(name)), advance(input, st))
            }
        },
        _ => (None, st),
    }
}

/// One type between brackets: the argument of `List`, `Slice`, `HashSet`, `BTreeSet`.
pub open spec fn p_type_then_close(input: Seq<char>, st: ParserState) -> (Option<TypeView>, ParserState)
    decreases remaining(input, st), 2nat,
    when in_input(input, st)
{
    match p_type(input, st) {
        (None, after) => (None, after),
        (Some(t), after) => match expect(input, after, TokenView::RightBracket) {
            (true, last) => (Some(t), last),
            (false, last) => (None, last),
        },
    }
}

/// Two types with a comma between and a bracket behind: the arguments of `Map` and `BTreeMap`.
pub open spec fn p_type_pair(input: Seq<char>, st: ParserState) -> (
    Option<(TypeView, TypeView)>,
    ParserState,
)
    decreases remaining(input, st), 3nat,
    when in_input(input, st)
{
    match p_type(input, st) {
        (None, after) => (None, after),
        (Some(k), after) => match expect(input, after, TokenView::Comma) {
            (false, last) => (None, last),
            (true, last) => if shrinks(input, st, last) {
                match p_type_then_close(input, last) {
                    (Some(v), end) => (Some((k, v)), end),
                    (None, end) => (None, end),
                }
            } else {
                (None, last)
            },
        },
    }
}

/// The arguments of a generic type, from the opening bracket on.
pub open spec fn p_generic_type(input: Seq<char>, st: ParserState, name: Seq<char>) -> (
    Option<TypeView>,
    ParserState,
)
    decreases remaining(input, st), 0nat,
    when in_input(input, st) && st.current is Some
{
    let inside = advance(input, st);
    if name == "Tuple"@ {
        match p_type_list(input, inside, Seq::empty()) {
            (None, after) => (None, after),
            (Some(ts), after) => match expect(input, after, TokenView::RightBracket) {
                (true, last) => (Some(TypeView::Tuple(ts)), last),
                (false, last) => (None, last),
            },
        }
    } else if name == "List"@ {
        match p_type_then_close(input, inside) {
            (Some(t), after) => (Some(TypeView::List(Box::new(t))), after),
            (None, after) => (None, after),
        }
    } else if name == "Array"@ {
        match p_type(input, inside) {
            (None, after) => (None, after),
            (Some(t), after) => match expect(input, after, TokenView::Comma) {
                (false, last) => (None, last),
                (true, last) => match last.current {
                    Some(TokenView::Number(n)) => if n < 0 {
                        (None, last)
                    } else {
                        match expect(input, advance(input, last), TokenView::RightBracket) {
                            (true, end) => (Some(TypeView::Array(Box::new(t), n as usize)), end),
                            (false, end) => (None, end),
                        }
                    },
                    _ => (None, last),
                },
            },
        }
    } else if name == "Slice"@ {
        match p_type_then_close(input, inside) {
            (Some(t), after) => (Some(TypeView::Slice(Box::new(t))), after),
            (None, after) => (None, after),
        }
    } else if name == "HashSet"@ {
        match p_type_then_close(input, inside) {
            (Some(t), after) => (Some(TypeView::HashSet(Box::new(t))), after),
            (None, after) => (None, after),
        }
    } else if name == "BTreeSet"@ {
        match p_type_then_close(input, inside) {
            (Some(t), after) => (Some(TypeView::BTreeSet(Box::new(t))), after),
            (None, after) => (None, after),
        }
    } else if name == "Map"@ {
        match p_type_pair(input, inside) {
            (Some(kv), after) => (Some(TypeView::HashMap(Box::new(kv.0), Box::new(kv.1))), after),
            (None, after) => (None, after),
        }
    } else if name == "BTreeMap"@ {
        match p_type_pair(input, inside) {
            (Some(kv), after) => (Some(TypeView::BTreeMap(Box::new(kv.0), Box::new(kv.1))), after),
            (None, after) => (None, after),
        }
    } else {
        (None, inside)
    }
}

/// The component types of a `Tuple`, up to the closing bracket; commas between
/// them are passed over wherever they stand.
pub open spec fn p_type_list(input: Seq<char>, st: ParserState, acc: Seq<TypeView>) -> (
    Option<Seq<TypeView>>,
    ParserState,
)
    decreases remaining(input, st), 2nat,
    when in_input(input, st)
{
    match st.current {
        Some(TokenView::RightBracket) => (Some(acc), st),
        Some(TokenView::Comma) => p_type_list(input, advance(input, st), acc),
        _ => match p_type(input, st) {
            (None, after) => (None, after),
            (Some(t), after) => if shrinks(input, st, after) {
                p_type_list(input, after, acc.push(t))
            } else {
                (None, after)
            },
        },
    }
}


/// A pattern of a match arm: the wildcard, a literal, a variable, a
/// constructor with its arguments in brackets, a tuple or a list. A name is a
/// constructor exactly where a bracket follows it.
pub open spec fn p_pattern(input: Seq<char>, st: ParserState) -> (Option<PatternView>, ParserState)
    decreases remaining(input, st), 0nat,
    when in_input(input, st)
{
    match st.current {
        Some(TokenView::Underscore) => (Some(PatternView::Wildcard), advance(input, st)),
        Some(TokenView::Number(n)) => (
            Some(PatternView::Literal(Box::new(ExprView::Number(n)))),
            advance(input, st),
        ),
        Some(TokenView::String(s)) => (
            Some(PatternView::Literal(Box::new(ExprView::String(s)))),
            advance(input, st),
        ),
        Some(TokenView::Boolean(b)) => (
            Some(PatternView::Literal(Box::new(ExprView::Boolean(b)))),
            advance(input, st),
        ),
        Some(TokenView::KeywordNone) => (
            Some(PatternView::Constructor { name: "None"@, patterns: Seq::empty() }),
            advance(input, st),
        ),
        Some(TokenView::KeywordSome) => p_wrapped_pattern(input, advance(input, st), "Some"@),
        Some(TokenView::KeywordOk) => p_wrapped_pattern(input, advance(input, st), "Ok"@),
        Some(TokenView::KeywordErr) => p_wrapped_pattern(input, advance(input, st), "Err"@),
        Some(TokenView::Identifier(name)) => {
            if advance(input, st).current == Some(TokenView::LeftBracket) {
                match p_closed_patterns(
                    input,
                    advance(input, advance(input, st)),
                    TokenView::RightBracket,
                ) {
                    (Some(ps), after) => (
                        Some(PatternView::Constructor { name, patterns: ps }),
                        after,
                    ),
                    (None, after) => (None, after),
                }
            } else {
                (Some(PatternView::Variable(name)), advance(input, st))
            }
        },
        Some(TokenView::LeftParen) => match p_closed_patterns(
            input,
            advance(input, st),
            TokenView::RightParen,
        ) {
            (Some(ps), after) => (Some(PatternView::Tuple(ps)), after),
            (None, after) => (None, after),
        },
        Some(TokenView::LeftBracket) => match p_closed_patterns(
            input,
            advance(input, st),
            TokenView::RightBracket,
        ) {
            (Some(ps), after) => (Some(PatternView::List(ps)), after),
            (None, after) => (None, after),
        },
        _ => (None, st),
    }
}

/// The one argument of a `Some`, `Ok` or `Err` pattern, in brackets.
pub open spec fn p_wrapped_pattern(input: Seq<char>, st: ParserState, name: Seq<char>) -> (
    Option<PatternView>,
    ParserState,
)
    decreases remaining(input, st), 1nat,
    when in_input(input, st)
{
    if st.current == Some(TokenView::LeftBracket) {
        match p_pattern(input, advance(input, st)) {
            (None, after) => (None, after),
            (Some(p), after) => match expect(input, after, TokenView::RightBracket) {
                (true, last) => (Some(PatternView::Constructor { name, patterns: seq![p] }), last),
                (false, last) => (None, last),
            },
        }
    } else {
        (None, st)
    }
}

/// Patterns separated by commas, and the closing token behind them.
pub open spec fn p_closed_patterns(input: Seq<char>, st: ParserState, close: TokenView) -> (
    Option<Seq<PatternView>>,
    ParserState,
)
    decreases remaining(input, st), 2nat,
    when in_input(input, st)
{
    match p_pattern_list(input, st, close, Seq::empty()) {
        (None, after) => (None, after),
        (Some(ps), after) => match expect(input, after, close) {
            (true, last) => (Some(ps), last),
            (false, last) => (None, last),
        },
    }
}

/// Patterns separated by commas, appended to `acc`, up to the closing token
/// or to a pattern that no comma follows.
pub open spec fn p_pattern_list(
    input: Seq<char>,
    st: ParserState,
    close: TokenView,
    acc: Seq<PatternView>,
) -> (Option<Seq<PatternView>>, ParserState)
    decreases remaining(input, st), 1nat,
    when in_input(input, st)
{
    if st.current == Some(close) {
        (Some(acc), st)
    } else {
        match p_pattern(input, st) {
            (None, after) => (None, after),
            (Some(p), after) => if after.current == Some(TokenView::Comma) {
                if shrinks(input, st, after) {
                    p_pattern_list(input, advance(input, after), close, acc.push(p))
                } else {
                    (None, after)
                }
            } else {
                (Some(acc.push(p)), after)
            },
        }
    }
}

/// An item between the brackets behind a name: an argument of a call, or a
/// parameter of a definition.
pub enum ItemView {
    Argument(ExprView),
    Parameter(TypeAnnotationView),
}

/// Whether `to` has no more left to parse than `from`.
pub open spec fn not_behind(input: Seq<char>, from: ParserState, to: ParserState) -> bool {
    in_input(input, to) && remaining(input, to) <= remaining(input, from)
}

/// The state behind a comma, where the current token is one.
pub open spec fn skip_comma(input: Seq<char>, st: ParserState) -> ParserState {
    if st.current == Some(TokenView::Comma) {
        advance(input, st)
    } else {
        st
    }
}

/// The binary operator that a token denotes.
pub open spec fn operator_of(t: Option<TokenView>) -> Option<Operator> {
    match t {
        Some(TokenView::Plus) => Some(Operator::Add),
        Some(TokenView::Minus) => Some(Operator::Subtract),
        Some(TokenView::Multiply) => Some(Operator::Multiply),
        Some(TokenView::Divide) => Some(Operator::Divide),
        Some(TokenView::Power) => Some(Operator::Power),
        Some(TokenView::Equals) => Some(Operator::Equals),
        Some(TokenView::NotEquals) => Some(Operator::NotEquals),
        Some(TokenView::LessThan) => Some(Operator::LessThan),
        Some(TokenView::GreaterThan) => Some(Operator::GreaterThan),
        _ => None,
    }
}

/// An expression as an argument.
pub open spec fn as_argument(r: (Option<ExprView>, ParserState)) -> (Option<ItemView>, ParserState) {
    match r.0 {
        Some(e) => (Some(ItemView::Argument(e)), r.1),
        None => (None, r.1),
    }
}

/// An expression: `Cond`, `Match` and `Function` forms by their keyword, a call
/// or definition where a bracket follows a name, and a chain of binary
/// operations otherwise. Where a call or definition fails, parsing goes on
/// with a chain of binary operations from where it failed.
pub open spec fn p_expression(input: Seq<char>, st: ParserState) -> (Option<ExprView>, ParserState)
    decreases remaining(input, st), 8nat,
    when in_input(input, st)
{
    match st.current {
        Some(TokenView::Identifier(id)) => {
            if id == "Cond"@ {
                p_cond(input, advance(input, st))
            } else if id == "Match"@ {
                p_match(input, advance(input, st))
            } else if id == "Function"@ {
                p_lambda(input, advance(input, st))
            } else if peek(input, st) == Some(TokenView::LeftBracket) {
                match p_function_or_call(input, st) {
                    (Some(e), after) => (Some(e), after),
                    (None, after) => if not_behind(input, st, after) {
                        p_binary(input, after)
                    } else {
                        (None, after)
                    },
                }
            } else {
                p_binary(input, st)
            }
        },
        _ => p_binary(input, st),
    }
}

/// A name with items in brackets behind it: a function definition where `:=`
/// and a body follow, which keeps the parameters among the items, and a call
/// otherwise, which keeps the arguments. `Struct[...]` is a struct definition.
pub open spec fn p_function_or_call(input: Seq<char>, st: ParserState) -> (
    Option<ExprView>,
    ParserState,
)
    decreases remaining(input, st), 7nat,
    when in_input(input, st)
{
    match st.current {
        Some(TokenView::Identifier(name)) => {
            if advance(input, st).current != Some(TokenView::LeftBracket) {
                (None, advance(input, st))
            } else if name == "Struct"@ {
                p_struct_definition(input, advance(input, advance(input, st)))
            } else {
                match p_items(input, advance(input, advance(input, st)), Seq::empty(), Seq::empty()) {
                    (None, after) => (None, after),
                    (Some(items), after) => if after.current == Some(TokenView::Define) {
                        if shrinks(input, st, after) {
                            match p_expression(input, advance(input, after)) {
                                (Some(body), last) => (
                                    Some(
                                        ExprView::FunctionDefinition {
                                            name,
                                            parameters: items.0,
                                            body: Box::new(body),
                                        },
                                    ),
                                    last,
                                ),
                                (None, last) => (None, last),
                            }
                        } else {
                            (None, after)
                        }
                    } else {
                        (
                            Some(
                                ExprView::FunctionCall {
                                    function: Box::new(ExprView::Identifier(name)),
                                    arguments: items.1,
                                },
                            ),
                            after,
                        )
                    },
                }
            }
        },
        _ => (None, st),
    }
}

/// The rest of a struct definition behind `Struct[`: the name, a comma, and
/// the fields in brackets, then the closing bracket.
pub open spec fn p_struct_definition(input: Seq<char>, st: ParserState) -> (
    Option<ExprView>,
    ParserState,
) {
    match st.current {
        Some(TokenView::Identifier(name)) => match expect(
            input,
            advance(input, st),
            TokenView::Comma,
        ) {
            (false, a) => (None, a),
            (true, a) => match expect(input, a, TokenView::LeftBracket) {
                (false, b) => (None, b),
                (true, b) => match p_fields(input, b, Seq::empty()) {
                    (None, c) => (None, c),
                    (Some(fields), c) => match expect(input, c, TokenView::RightBracket) {
                        (true, d) => (Some(ExprView::StructDefinition { name, fields }), d),
                        (false, d) => (None, d),
                    },
                },
            },
        },
        _ => (None, st),
    }
}

/// The fields of a struct, `name: Type` each, up to and with the closing
/// bracket; commas are passed over wherever they stand.
pub open spec fn p_fields(input: Seq<char>, st: ParserState, acc: Seq<TypeAnnotationView>) -> (
    Option<Seq<TypeAnnotationView>>,
    ParserState,
)
    decreases remaining(input, st),
    when in_input(input, st)
{
    match st.current {
        Some(TokenView::RightBracket) => (Some(acc), advance(input, st)),
        Some(TokenView::Comma) => p_fields(input, advance(input, st), acc),
        Some(TokenView::Identifier(field)) => match expect(
            input,
            advance(input, st),
            TokenView::Colon,
        ) {
            (false, a) => (None, a),
            (true, a) => match p_type(input, a) {
                (None, b) => (None, b),
                (Some(t), b) => if shrinks(input, st, b) {
                    p_fields(input, b, acc.push(TypeAnnotationView { name: field, type_: t }))
                } else {
                    (None, b)
                },
            },
        },
        _ => (None, st),
    }
}

/// The items behind the opening bracket of a call or definition, up to and
/// with the closing bracket: the parameters and the arguments among them,
/// appended to `params` and `args`. Commas are passed over wherever they stand.
pub open spec fn p_items(
    input: Seq<char>,
    st: ParserState,
    params: Seq<TypeAnnotationView>,
    args: Seq<ExprView>,
) -> (Option<(Seq<TypeAnnotationView>, Seq<ExprView>)>, ParserState)
    decreases remaining(input, st), 10nat,
    when in_input(input, st)
{
    match st.current {
        Some(TokenView::RightBracket) => (Some((params, args)), advance(input, st)),
        Some(TokenView::Comma) => p_items(input, advance(input, st), params, args),
        _ => match p_argument_or_parameter(input, st) {
            (None, after) => (None, after),
            (Some(item), after) => if shrinks(input, st, after) {
                match item {
                    ItemView::Parameter(p) => p_items(input, after, params.push(p), args),
                    ItemView::Argument(e) => p_items(input, after, params, args.push(e)),
                }
            } else {
                (None, after)
            },
        },
    }
}

/// One item: a parameter where a name is followed by a colon and a type, and
/// an expression otherwise, also from where the type failed.
pub open spec fn p_argument_or_parameter(input: Seq<char>, st: ParserState) -> (
    Option<ItemView>,
    ParserState,
)
    decreases remaining(input, st), 9nat,
    when in_input(input, st)
{
    match st.current {
        Some(TokenView::Identifier(name)) => if peek(input, st) == Some(TokenView::Colon) {
            match p_type(input, advance(input, advance(input, st))) {
                (Some(t), after) => (
                    Some(ItemView::Parameter(TypeAnnotationView { name, type_: t })),
                    after,
                ),
                (None, after) => if not_behind(input, st, after) {
                    as_argument(p_expression(input, after))
                } else {
                    (None, after)
                },
            }
        } else {
            as_argument(p_expression(input, st))
        },
        _ => as_argument(p_expression(input, st)),
    }
}

/// A chain of binary operations over primaries. All operators share one
/// precedence tier and associate to the left.
pub open spec fn p_binary(input: Seq<char>, st: ParserState) -> (Option<ExprView>, ParserState)
    decreases remaining(input, st), 6nat,
    when in_input(input, st)
{
    match p_primary(input, st) {
        (None, after) => (None, after),
        (Some(left), after) => if shrinks(input, st, after) {
            p_binary_rest(input, after, left)
        } else {
            (None, after)
        },
    }
}

/// The rest of a chain of binary operations whose operands so far make up `left`.
pub open spec fn p_binary_rest(input: Seq<char>, st: ParserState, left: ExprView) -> (
    Option<ExprView>,
    ParserState,
)
    decreases remaining(input, st), 6nat,
    when in_input(input, st)
{
    match operator_of(st.current) {
        None => (Some(left), st),
        Some(operator) => match p_primary(input, advance(input, st)) {
            (None, after) => (None, after),
            (Some(right), after) => if shrinks(input, st, after) {
                p_binary_rest(
                    input,
                    after,
                    ExprView::BinaryOp { left: Box::new(left), operator, right: Box::new(right) },
                )
            } else {
                (None, after)
            },
        },
    }
}

/// A log call of the given level around a bracketed message.
pub open spec fn log_call(level: LogLevel, r: (Option<ExprView>, ParserState)) -> (
    Option<ExprView>,
    ParserState,
) {
    match r.0 {
        Some(message) => (Some(ExprView::LogCall { level, message: Box::new(message) }), r.1),
        None => (None, r.1),
    }
}

/// `Some` around a bracketed value.
pub open spec fn some_around(r: (Option<ExprView>, ParserState)) -> (Option<ExprView>, ParserState) {
    match r.0 {
        Some(value) => (Some(ExprView::OptionSome { value: Box::new(value) }), r.1),
        None => (None, r.1),
    }
}

/// `Ok` around a bracketed value.
pub open spec fn ok_around(r: (Option<ExprView>, ParserState)) -> (Option<ExprView>, ParserState) {
    match r.0 {
        Some(value) => (Some(ExprView::ResultOk { value: Box::new(value) }), r.1),
        None => (None, r.1),
    }
}

/// `Err` around a bracketed error.
pub open spec fn err_around(r: (Option<ExprView>, ParserState)) -> (Option<ExprView>, ParserState) {
    match r.0 {
        Some(error) => (Some(ExprView::ResultErr { error: Box::new(error) }), r.1),
        None => (None, r.1),
    }
}

/// A primary expression: a literal, a name, a tuple, a list, a map, a log
/// call, `None`, or `Some`, `Ok` and `Err` around a bracketed value.
pub open spec fn p_primary(input: Seq<char>, st: ParserState) -> (Option<ExprView>, ParserState)
    decreases remaining(input, st), 5nat,
    when in_input(input, st)
{
    match st.current {
        Some(TokenView::Number(n)) => (Some(ExprView::Number(n)), advance(input, st)),
        Some(TokenView::Float(text)) => (Some(ExprView::Float(text)), advance(input, st)),
        Some(TokenView::String(s)) => (Some(ExprView::String(s)), advance(input, st)),
        Some(TokenView::Boolean(b)) => (Some(ExprView::Boolean(b)), advance(input, st)),
        Some(TokenView::Identifier(id)) => if id == "Cond"@ {
            p_cond(input, advance(input, st))
        } else {
            (Some(ExprView::Identifier(id)), advance(input, st))
        },
        Some(TokenView::LeftParen) => match p_closed_elements(
            input,
            advance(input, st),
            TokenView::RightParen,
        ) {
            (Some(es), after) => (Some(ExprView::Tuple(es)), after),
            (None, after) => (None, after),
        },
        Some(TokenView::LeftBracket) => match p_closed_elements(
            input,
            advance(input, st),
            TokenView::RightBracket,
        ) {
            (Some(es), after) => (Some(ExprView::List(es)), after),
            (None, after) => (None, after),
        },
        Some(TokenView::LeftBrace) => match p_entries(input, advance(input, st), Seq::empty()) {
            (Some(entries), after) => (Some(ExprView::MapLiteral(entries)), advance(input, after)),
            (None, after) => (None, after),
        },
        Some(TokenView::LogDebug) => log_call(
            LogLevel::Debug,
            p_bracketed(input, advance(input, st)),
        ),
        Some(TokenView::LogInfo) => log_call(LogLevel::Info, p_bracketed(input, advance(input, st))),
        Some(TokenView::LogWarn) => log_call(LogLevel::Warn, p_bracketed(input, advance(input, st))),
        Some(TokenView::LogError) => log_call(
            LogLevel::Error,
            p_bracketed(input, advance(input, st)),
        ),
        Some(TokenView::KeywordNone) => (Some(ExprView::OptionNone), advance(input, st)),
        Some(TokenView::KeywordSome) => some_around(p_bracketed(input, advance(input, st))),
        Some(TokenView::KeywordOk) => ok_around(p_bracketed(input, advance(input, st))),
        Some(TokenView::KeywordErr) => err_around(p_bracketed(input, advance(input, st))),
        _ => (None, st),
    }
}

/// One expression between brackets.
pub open spec fn p_bracketed(input: Seq<char>, st: ParserState) -> (Option<ExprView>, ParserState)
    decreases remaining(input, st), 0nat,
    when in_input(input, st)
{
    if st.current == Some(TokenView::LeftBracket) {
        match p_expression(input, advance(input, st)) {
            (None, after) => (None, after),
            (Some(e), after) => match expect(input, after, TokenView::RightBracket) {
                (true, last) => (Some(e), last),
                (false, last) => (None, last),
            },
        }
    } else {
        (None, st)
    }
}

/// The elements of a tuple or list behind its opening token, and the token
/// behind them, which is passed over whatever it is.
pub open spec fn p_closed_elements(input: Seq<char>, st: ParserState, close: TokenView) -> (
    Option<Seq<ExprView>>,
    ParserState,
)
    decreases remaining(input, st), 10nat,
    when in_input(input, st)
{
    match p_elements(input, st, close, Seq::empty()) {
        (Some(es), after) => (Some(es), advance(input, after)),
        (None, after) => (None, after),
    }
}

/// Expressions separated by commas, appended to `acc`, up to the closing token
/// or the end of the input. A comma may stand behind the last one.
pub open spec fn p_elements(input: Seq<char>, st: ParserState, close: TokenView, acc: Seq<ExprView>) -> (
    Option<Seq<ExprView>>,
    ParserState,
)
    decreases remaining(input, st), 9nat,
    when in_input(input, st)
{
    if st.current is None || st.current == Some(close) {
        (Some(acc), st)
    } else {
        match p_expression(input, st) {
            (None, after) => (None, after),
            (Some(e), after) => if after.current == Some(TokenView::Comma) {
                if shrinks(input, st, after) {
                    p_elements(input, advance(input, after), close, acc.push(e))
                } else {
                    (None, after)
                }
            } else if after.current == Some(close) {
                (Some(acc.push(e)), after)
            } else {
                (None, after)
            },
        }
    }
}

/// The entries of a map literal, `key: value` each and separated by commas,
/// appended to `acc`, up to the closing brace or the end of the input.
pub open spec fn p_entries(input: Seq<char>, st: ParserState, acc: Seq<(ExprView, ExprView)>) -> (
    Option<Seq<(ExprView, ExprView)>>,
    ParserState,
)
    decreases remaining(input, st), 9nat,
    when in_input(input, st)
{
    if st.current is None || st.current == Some(TokenView::RightBrace) {
        (Some(acc), st)
    } else {
        match p_expression(input, st) {
            (None, a) => (None, a),
            (Some(key), a) => match expect(input, a, TokenView::Colon) {
                (false, b) => (None, b),
                (true, b) => if shrinks(input, st, b) {
                    match p_expression(input, b) {
                        (None, c) => (None, c),
                        (Some(value), c) => if c.current == Some(TokenView::Comma) {
                            if shrinks(input, st, c) {
                                p_entries(input, advance(input, c), acc.push((key, value)))
                            } else {
                                (None, c)
                            }
                        } else if c.current == Some(TokenView::RightBrace) {
                            (Some(acc.push((key, value))), c)
                        } else {
                            (None, c)
                        },
                    }
                } else {
                    (None, b)
                },
            },
        }
    }
}

/// A conditional behind its keyword: bracketed branches between brackets.
pub open spec fn p_cond(input: Seq<char>, st: ParserState) -> (Option<ExprView>, ParserState)
    decreases remaining(input, st), 1nat,
    when in_input(input, st)
{
    if st.current == Some(TokenView::LeftBracket) {
        p_cond_pairs(input, advance(input, st), Seq::empty(), None)
    } else {
        (None, st)
    }
}

/// The branches of a conditional up to and with its closing bracket. A branch
/// of two expressions is a condition with its result; a branch of one
/// expression is the default, and a later default replaces an earlier one.
pub open spec fn p_cond_pairs(
    input: Seq<char>,
    st: ParserState,
    conditions: Seq<(ExprView, ExprView)>,
    default_statements: Option<Box<ExprView>>,
) -> (Option<ExprView>, ParserState)
    decreases remaining(input, st), 0nat,
    when in_input(input, st)
{
    match st.current {
        Some(TokenView::RightBracket) => (
            Some(ExprView::Cond { conditions, default_statements }),
            advance(input, st),
        ),
        Some(TokenView::LeftBracket) => match p_expression(input, advance(input, st)) {
            (None, a) => (None, a),
            (Some(first), a) => if !shrinks(input, st, a) {
                (None, a)
            } else if a.current == Some(TokenView::RightBracket) {
                p_cond_pairs(input, advance(input, a), conditions, Some(Box::new(first)))
            } else {
                match p_expression(input, a) {
                    (None, b) => (None, b),
                    (Some(second), b) => match expect(input, b, TokenView::RightBracket) {
                        (false, c) => (None, c),
                        (true, c) => if shrinks(input, st, c) {
                            p_cond_pairs(
                                input,
                                c,
                                conditions.push((first, second)),
                                default_statements,
                            )
                        } else {
                            (None, c)
                        },
                    },
                }
            },
        },
        _ => (None, st),
    }
}

/// A match behind its keyword: the value, a comma and the arms, in brackets.
pub open spec fn p_match(input: Seq<char>, st: ParserState) -> (Option<ExprView>, ParserState)
    decreases remaining(input, st), 1nat,
    when in_input(input, st)
{
    if st.current == Some(TokenView::LeftBracket) {
        match p_expression(input, advance(input, st)) {
            (None, a) => (None, a),
            (Some(value), a) => match expect(input, a, TokenView::Comma) {
                (false, b) => (None, b),
                (true, b) => if shrinks(input, st, b) {
                    p_arms(input, b, value, Seq::empty())
                } else {
                    (None, b)
                },
            },
        }
    } else {
        (None, st)
    }
}

/// The arms of a match up to and with its closing bracket: `[pattern,
/// result]` each, with an optional comma behind.
pub open spec fn p_arms(
    input: Seq<char>,
    st: ParserState,
    value: ExprView,
    arms: Seq<(PatternView, ExprView)>,
) -> (Option<ExprView>, ParserState)
    decreases remaining(input, st), 0nat,
    when in_input(input, st)
{
    match st.current {
        Some(TokenView::RightBracket) => (
            Some(ExprView::Match { value: Box::new(value), arms }),
            advance(input, st),
        ),
        Some(TokenView::LeftBracket) => match p_pattern(input, advance(input, st)) {
            (None, a) => (None, a),
            (Some(pattern), a) => match expect(input, a, TokenView::Comma) {
                (false, b) => (None, b),
                (true, b) => if !shrinks(input, st, b) {
                    (None, b)
                } else {
                    match p_expression(input, b) {
                        (None, c) => (None, c),
                        (Some(result), c) => match expect(input, c, TokenView::RightBracket) {
                            (false, d) => (None, d),
                            (true, d) => if shrinks(input, st, d) {
                                p_arms(
                                    input,
                                    skip_comma(input, d),
                                    value,
                                    arms.push((pattern, result)),
                                )
                            } else {
                                (None, d)
                            },
                        },
                    }
                },
            },
        },
        _ => (None, st),
    }
}

/// A lambda behind its keyword: the parameters in braces, a comma and the
/// body, in brackets.
pub open spec fn p_lambda(input: Seq<char>, st: ParserState) -> (Option<ExprView>, ParserState)
    decreases remaining(input, st), 1nat,
    when in_input(input, st)
{
    match expect(input, st, TokenView::LeftBracket) {
        (false, a) => (None, a),
        (true, a) => match expect(input, a, TokenView::LeftBrace) {
            (false, b) => (None, b),
            (true, b) => match p_lambda_params(input, b, Seq::empty()) {
                (None, c) => (None, c),
                (Some(parameters), c) => match expect(input, c, TokenView::Comma) {
                    (false, d) => (None, d),
                    (true, d) => if !shrinks(input, st, d) {
                        (None, d)
                    } else {
                        match p_expression(input, d) {
                            (None, e) => (None, e),
                            (Some(body), e) => match expect(input, e, TokenView::RightBracket) {
                                (true, f) => (
                                    Some(ExprView::Lambda { parameters, body: Box::new(body) }),
                                    f,
                                ),
                                (false, f) => (None, f),
                            },
                        }
                    },
                },
            },
        },
    }
}

/// The parameters of a lambda up to and with the closing brace. A parameter
/// without a type gets the placeholder type `Int32`.
pub open spec fn p_lambda_params(input: Seq<char>, st: ParserState, acc: Seq<TypeAnnotationView>) -> (
    Option<Seq<TypeAnnotationView>>,
    ParserState,
)
    decreases remaining(input, st),
    when in_input(input, st)
{
    match st.current {
        Some(TokenView::RightBrace) => (Some(acc), advance(input, st)),
        Some(TokenView::Identifier(name)) => {
            if advance(input, st).current == Some(TokenView::Colon) {
                match p_type(input, advance(input, advance(input, st))) {
                    (None, a) => (None, a),
                    (Some(t), a) => if shrinks(input, st, a) {
                        p_lambda_params(
                            input,
                            skip_comma(input, a),
                            acc.push(TypeAnnotationView { name, type_: t }),
                        )
                    } else {
                        (None, a)
                    },
                }
            } else {
                p_lambda_params(
                    input,
                    skip_comma(input, advance(input, st)),
                    acc.push(TypeAnnotationView { name, type_: TypeView::Int32 }),
                )
            }
        },
        _ => (None, st),
    }
}

/// Expressions one after another, appended to `acc`, as long as there is a token.
pub open spec fn p_all(input: Seq<char>, st: ParserState, acc: Seq<ExprView>) -> (
    Option<Seq<ExprView>>,
    ParserState,
)
    decreases remaining(input, st), 12nat,
    when in_input(input, st)
{
    if st.current is None {
        (Some(acc), st)
    } else {
        match p_expression(input, st) {
            (None, after) => (None, after),
            (Some(e), after) => if shrinks(input, st, after) {
                p_all(input, after, acc.push(e))
            } else {
                (None, after)
            },
        }
    }
}

/// The whole input: a single expression as it is, several as a `Program`,
/// and nothing where there is no expression or one of them fails.
pub open spec fn p_program(input: Seq<char>, st: ParserState) -> (Option<ExprView>, ParserState) {
    match p_all(input, st, Seq::empty()) {
        (None, after) => (None, after),
        (Some(es), after) => if es.len() == 0 {
            (None, after)
        } else if es.len() == 1 {
            (Some(es[0]), after)
        } else {
            (Some(ExprView::Program(es)), after)
        },
    }
}

/// The view of an optional boxed expression.
pub open spec fn boxed_view(e: Option<Box<Expression>>) -> Option<Box<ExprView>> {
    match e {
        Some(e) => Some(Box::new(e@)),
        None => None,
    }
}

/// The view of an optional expression.
pub open spec fn expr_option_view(e: Option<Expression>) -> Option<ExprView> {
    match e {
        Some(e) => Some(e@),
        None => None,
    }
}

/// An item between the brackets behind a name, before it is known whether
/// the name starts a call or a definition.
enum ArgumentOrParameter {
    Expression(Expression),
    Parameter(TypeAnnotation),
}

impl View for ArgumentOrParameter {
    type V = ItemView;

    closed spec fn view(&self) -> ItemView {
        match self {
            ArgumentOrParameter::Expression(e) => ItemView::Argument(e@),
            ArgumentOrParameter::Parameter(p) => ItemView::Parameter(p@),
        }
    }
}

/// The view of an optional item.
spec fn item_option_view(i: Option<ArgumentOrParameter>) -> Option<ItemView> {
    match i {
        Some(i) => Some(i@),
        None => None,
    }
}

/// The view of an optional pattern.
pub open spec fn pattern_option_view(p: Option<Pattern>) -> Option<PatternView> {
    match p {
        Some(p) => Some(p@),
        None => None,
    }
}

/// The view of an optional type.
pub open spec fn type_option_view(t: Option<Type>) -> Option<TypeView> {
    match t {
        Some(t) => Some(t@),
        None => None,
    }
}

/// The parser: a lexer and the token under consideration.
pub struct Parser {
    lexer: Lexer,
    current_token: Option<Token>,
}

impl Parser {
    /// The whole input.
    pub closed spec fn input(&self) -> Seq<char> {
        self.lexer.input()
    }

    /// The current token and the lexer's position.
    pub closed spec fn state(&self) -> ParserState {
        ParserState { current: token_view(self.current_token), pos: self.lexer.position() }
    }

    /// Whether the lexer's position lies within the input, which holds of
    /// every parser.
    pub open spec fn wf(&self) -> bool {
        in_input(self.input(), self.state())
    }

    /// Whether this parser is `before` after some parsing: on the same input,
    /// with no more left to parse.
    pub open spec fn follows(&self, before: &Parser) -> bool {
        &&& self.input() == before.input()
        &&& self.wf()
        &&& before.wf()
        &&& remaining(self.input(), self.state()) <= remaining(before.input(), before.state())
    }

    /// Whether this parser is `before` after parsing that consumed something.
    pub open spec fn progressed(&self, before: &Parser) -> bool {
        self.follows(before) && shrinks(self.input(), before.state(), self.state())
    }

    /// A parser at the start of `input`, with the first token loaded.
    pub fn new(input: String) -> (r: Self)
        ensures
            r.wf(),
            r.input() == input@,
            r.state() == advance(input@, ParserState { current: None, pos: 0 }),
    {
        let mut lexer = Lexer::new(input);
        let current_token = lexer.next_token();
        Parser { lexer, current_token }
    }

    /// Replaces the current token by the next one.
    fn advance(&mut self)
        requires
            old(self).wf(),
        ensures
            final(self).state() == advance(old(self).input(), old(self).state()),
            final(self).follows(old(self)),
            old(self).state().current is Some ==> final(self).progressed(old(self)),
    {
        self.current_token = self.lexer.next_token();
    }

    /// Passes over the current token where `wanted` says that it is the expected one.
    fn expect_token(&mut self, wanted: &Token) -> (r: bool)
        requires
            old(self).wf(),
            !(wanted is Identifier) && !(wanted is Number) && !(wanted is Float) && !(wanted is String)
                && !(wanted is Boolean),
        ensures
            (r, final(self).state()) == expect(old(self).input(), old(self).state(), wanted@),
            final(self).follows(old(self)),
            r ==> final(self).progressed(old(self)),
    {
        let found = match &self.current_token {
            Some(token) => same_token(token, wanted),
            None => false,
        };
        if found {
            self.advance();
            true
        } else {
            false
        }
    }

    /// Parses the entire input: one expression, or several as a `Program`.
    /// There is no result where the input holds no expression or does not
    /// parse to its end.
    pub fn parse(&mut self) -> (r: Option<Expression>)
        ensures
            (expr_option_view(r), final(self).state()) == p_program(
                old(self).input(),
                old(self).state(),
            ),
            final(self).follows(old(self)),
            r is Some ==> final(self).state().current is None,
    {
        let _ = self.lexer.offset();
        let mut expressions: Vec<Expression> = Vec::new();
        assert(expr_views(expressions@) =~= Seq::<ExprView>::empty());
        while self.current_token.is_some()
            invariant
                self.follows(old(self)),
                p_all(self.input(), old(self).state(), Seq::empty()) == p_all(
                    self.input(),
                    self.state(),
                    expr_views(expressions@),
                ),
            decreases remaining(self.input(), self.state()),
        {
            let ghost before = expr_views(expressions@);
            match self.parse_expression() {
                Some(expr) => {
                    expressions.push(expr);
                    assert(expr_views(expressions@) =~= before.push(expr@));
                },
                None => {
                    return None;
                },
            }
        }
        if expressions.len() == 0 {
            None
        } else if expressions.len() == 1 {
            expressions.pop()
        } else {
            let program = Expression::Program(expressions);
            assert(program@->Program_0 =~= expr_views(expressions@));
            Some(program)
        }
    }

    /// Parses one expression.
    #[verifier::rlimit(40)]
    pub fn parse_expression(&mut self) -> (r: Option<Expression>)
        ensures
            (expr_option_view(r), final(self).state()) == p_expression(
                old(self).input(),
                old(self).state(),
            ),
            final(self).follows(old(self)),
            r is Some ==> final(self).progressed(old(self)),
        decreases remaining(old(self).input(), old(self).state()), 8nat,
    {
        let _ = self.lexer.offset();
        let keyword: u8 = match &self.current_token {
            Some(Token::Identifier(id)) => {
                if is_word(id, "Cond") {
                    1
                } else if is_word(id, "Match") {
                    2
                } else if is_word(id, "Function") {
                    3
                } else {
                    4
                }
            },
            _ => 0,
        };
        if keyword == 1 {
            self.advance();
            return self.parse_cond_expression();
        }
        if keyword == 2 {
            self.advance();
            return self.parse_match_expression();
        }
        if keyword == 3 {
            self.advance();
            return self.parse_lambda_expression();
        }
        if keyword == 4 {
            let is_function_syntax = matches!(self.lexer.peek_token(), Some(Token::LeftBracket));
            if is_function_syntax {
                match self.parse_function_or_call() {
                    Some(func_or_call) => {
                        return Some(func_or_call);
                    },
                    None => {},
                }
            }
        }
        self.parse_binary_operation()
    }

    /// Parses a function definition, a function call or a struct definition.
    #[verifier::rlimit(40)]
    fn parse_function_or_call(&mut self) -> (r: Option<Expression>)
        requires
            old(self).wf(),
        ensures
            (expr_option_view(r), final(self).state()) == p_function_or_call(
                old(self).input(),
                old(self).state(),
            ),
            final(self).follows(old(self)),
            r is Some ==> final(self).progressed(old(self)),
        decreases remaining(old(self).input(), old(self).state()), 7nat,
    {
        let name = match &self.current_token {
            Some(Token::Identifier(id)) => id.clone(),
            _ => {
                return None;
            },
        };
        self.advance();
        if !matches!(self.current_token, Some(Token::LeftBracket)) {
            return None;
        }
        self.advance();
        if is_word(&name, "Struct") {
            return self.parse_struct_definition();
        }
        let (parameters, arguments) = match self.parse_items() {
            Some(items) => items,
            None => {
                return None;
            },
        };
        if matches!(self.current_token, Some(Token::Define)) {
            self.advance();
            match self.parse_expression() {
                Some(body) => Some(
                    Expression::FunctionDefinition { name, parameters, body: Box::new(body) },
                ),
                None => None,
            }
        } else {
            let callee = Expression::Identifier(name);
            assert(callee@ == ExprView::Identifier(name@));
            let call = Expression::FunctionCall { function: Box::new(callee), arguments };
            assert(call@->FunctionCall_arguments =~= expr_views(arguments@));
            Some(call)
        }
    }

    /// Parses the items behind the opening bracket of a call or definition,
    /// up to and with the closing bracket: the parameters and the arguments.
    fn parse_items(&mut self) -> (r: Option<(Vec<TypeAnnotation>, Vec<Expression>)>)
        requires
            old(self).wf(),
        ensures
            match r {
                Some(items) => p_items(
                    old(self).input(),
                    old(self).state(),
                    Seq::empty(),
                    Seq::empty(),
                ) == (Some((annotation_views(items.0@), expr_views(items.1@))), final(self).state()),
                None => p_items(old(self).input(), old(self).state(), Seq::empty(), Seq::empty())
                    == (None::<(Seq<TypeAnnotationView>, Seq<ExprView>)>, final(self).state()),
            },
            final(self).follows(old(self)),
        decreases remaining(old(self).input(), old(self).state()), 10nat,
    {
        let mut parameters: Vec<TypeAnnotation> = Vec::new();
        let mut arguments: Vec<Expression> = Vec::new();
        assert(annotation_views(parameters@) =~= Seq::<TypeAnnotationView>::empty());
        assert(expr_views(arguments@) =~= Seq::<ExprView>::empty());
        loop
            invariant
                self.follows(old(self)),
                p_items(self.input(), old(self).state(), Seq::empty(), Seq::empty()) == p_items(
                    self.input(),
                    self.state(),
                    annotation_views(parameters@),
                    expr_views(arguments@),
                ),
            decreases remaining(self.input(), self.state()),
        {
            let ghost params_before = annotation_views(parameters@);
            let ghost args_before = expr_views(arguments@);
            match &self.current_token {
                Some(Token::RightBracket) => {
                    self.advance();
                    return Some((parameters, arguments));
                },
                Some(Token::Comma) => {
                    self.advance();
                },
                _ => {
                    match self.parse_argument_or_parameter() {
                        Some(ArgumentOrParameter::Parameter(p)) => {
                            parameters.push(p);
                            assert(annotation_views(parameters@) =~= params_before.push(p@));
                        },
                        Some(ArgumentOrParameter::Expression(e)) => {
                            arguments.push(e);
                            assert(expr_views(arguments@) =~= args_before.push(e@));
                        },
                        None => {
                            return None;
                        },
                    }
                },
            }
        }
    }

    /// Parses the fields of a struct up to and with the closing bracket.
    fn parse_fields(&mut self) -> (r: Option<Vec<TypeAnnotation>>)
        requires
            old(self).wf(),
        ensures
            match r {
                Some(fields) => p_fields(old(self).input(), old(self).state(), Seq::empty()) == (
                    Some(annotation_views(fields@)),
                    final(self).state(),
                ),
                None => p_fields(old(self).input(), old(self).state(), Seq::empty()) == (
                    None::<Seq<TypeAnnotationView>>,
                    final(self).state(),
                ),
            },
            final(self).follows(old(self)),
    {
        let mut fields: Vec<TypeAnnotation> = Vec::new();
        assert(annotation_views(fields@) =~= Seq::<TypeAnnotationView>::empty());
        loop
            invariant
                self.follows(old(self)),
                p_fields(self.input(), old(self).state(), Seq::empty()) == p_fields(
                    self.input(),
                    self.state(),
                    annotation_views(fields@),
                ),
            decreases remaining(self.input(), self.state()),
        {
            let ghost before = annotation_views(fields@);
            let field_name = match &self.current_token {
                Some(Token::RightBracket) => {
                    self.advance();
                    return Some(fields);
                },
                Some(Token::Comma) => {
                    self.advance();
                    continue ;
                },
                Some(Token::Identifier(id)) => id.clone(),
                _ => {
                    return None;
                },
            };
            self.advance();
            if !self.expect_token(&Token::Colon) {
                return None;
            }
            match self.parse_type() {
                Some(t) => {
                    let field = TypeAnnotation { name: field_name, type_: t };
                    fields.push(field);
                    assert(annotation_views(fields@) =~= before.push(field@));
                },
                None => {
                    return None;
                },
            }
        }
    }

    /// Parses the rest of a struct definition behind `Struct[`.
    fn parse_struct_definition(&mut self) -> (r: Option<Expression>)
        requires
            old(self).wf(),
        ensures
            (expr_option_view(r), final(self).state()) == p_struct_definition(
                old(self).input(),
                old(self).state(),
            ),
            final(self).follows(old(self)),
    {
        let name = match &self.current_token {
            Some(Token::Identifier(id)) => id.clone(),
            _ => {
                return None;
            },
        };
        self.advance();
        if !self.expect_token(&Token::Comma) {
            return None;
        }
        if !self.expect_token(&Token::LeftBracket) {
            return None;
        }
        let fields = match self.parse_fields() {
            Some(fields) => fields,
            None => {
                return None;
            },
        };
        if !self.expect_token(&Token::RightBracket) {
            return None;
        }
        Some(Expression::StructDefinition { name, fields })
    }

    /// Parses one item between the brackets behind a name.
    fn parse_argument_or_parameter(&mut self) -> (r: Option<ArgumentOrParameter>)
        requires
            old(self).wf(),
        ensures
            (item_option_view(r), final(self).state()) == p_argument_or_parameter(
                old(self).input(),
                old(self).state(),
            ),
            final(self).follows(old(self)),
            r is Some ==> final(self).progressed(old(self)),
        decreases remaining(old(self).input(), old(self).state()), 9nat,
    {
        let typed_name = match &self.current_token {
            Some(Token::Identifier(name)) => {
                if matches!(self.lexer.peek_token(), Some(Token::Colon)) {
                    Some(name.clone())
                } else {
                    None
                }
            },
            _ => None,
        };
        match typed_name {
            Some(param_name) => {
                self.advance();
                self.advance();
                match self.parse_type() {
                    Some(ty) => {
                        return Some(
                            ArgumentOrParameter::Parameter(
                                TypeAnnotation { name: param_name, type_: ty },
                            ),
                        );
                    },
                    None => {},
                }
            },
            None => {},
        }
        match self.parse_expression() {
            Some(e) => Some(ArgumentOrParameter::Expression(e)),
            None => None,
        }
    }

    /// Parses a chain of binary operations.
    fn parse_binary_operation(&mut self) -> (r: Option<Expression>)
        requires
            old(self).wf(),
        ensures
            (expr_option_view(r), final(self).state()) == p_binary(
                old(self).input(),
                old(self).state(),
            ),
            final(self).follows(old(self)),
            r is Some ==> final(self).progressed(old(self)),
        decreases remaining(old(self).input(), old(self).state()), 6nat,
    {
        match self.parse_primary() {
            Some(left) => self.parse_binary_rest(left),
            None => None,
        }
    }

    /// Parses the rest of a chain of binary operations whose operands so far make up `first`.
    fn parse_binary_rest(&mut self, first: Expression) -> (r: Option<Expression>)
        requires
            old(self).wf(),
        ensures
            (expr_option_view(r), final(self).state()) == p_binary_rest(
                old(self).input(),
                old(self).state(),
                first@,
            ),
            final(self).follows(old(self)),
        decreases remaining(old(self).input(), old(self).state()), 6nat,
    {
        let mut left = first;
        loop
            invariant
                self.follows(old(self)),
                p_binary_rest(self.input(), old(self).state(), first@) == p_binary_rest(
                    self.input(),
                    self.state(),
                    left@,
                ),
            decreases remaining(self.input(), self.state()),
        {
            let operator = match &self.current_token {
                Some(Token::Plus) => Operator::Add,
                Some(Token::Minus) => Operator::Subtract,
                Some(Token::Multiply) => Operator::Multiply,
                Some(Token::Divide) => Operator::Divide,
                Some(Token::Power) => Operator::Power,
                Some(Token::Equals) => Operator::Equals,
                Some(Token::NotEquals) => Operator::NotEquals,
                Some(Token::LessThan) => Operator::LessThan,
                Some(Token::GreaterThan) => Operator::GreaterThan,
                _ => {
                    return Some(left);
                },
            };
            self.advance();
            let right = match self.parse_primary() {
                Some(e) => e,
                None => {
                    return None;
                },
            };
            left = Expression::BinaryOp { left: Box::new(left), operator, right: Box::new(right) };
        }
    }

    /// Parses a primary expression.
    #[verifier::rlimit(40)]
    fn parse_primary(&mut self) -> (r: Option<Expression>)
        requires
            old(self).wf(),
        ensures
            (expr_option_view(r), final(self).state()) == p_primary(
                old(self).input(),
                old(self).state(),
            ),
            final(self).follows(old(self)),
            r is Some ==> final(self).progressed(old(self)),
        decreases remaining(old(self).input(), old(self).state()), 5nat,
    {
        let ghost st = self.state();
        match &self.current_token {
            Some(Token::Number(n)) => {
                assert(st.current == Some(TokenView::Number(*n)));
                let expr = Expression::Number(*n);
                self.advance();
                Some(expr)
            },
            Some(Token::Float(text)) => {
                assert(st.current == Some(TokenView::Float(text@)));
                let expr = Expression::Float(text.clone());
                self.advance();
                Some(expr)
            },
            Some(Token::String(s)) => {
                assert(st.current == Some(TokenView::String(s@)));
                let expr = Expression::String(s.clone());
                self.advance();
                Some(expr)
            },
            Some(Token::Boolean(b)) => {
                assert(st.current == Some(TokenView::Boolean(*b)));
                let expr = Expression::Boolean(*b);
                self.advance();
                Some(expr)
            },
            Some(Token::Identifier(id)) => {
                assert(st.current == Some(TokenView::Identifier(id@)));
                if is_word(id, "Cond") {
                    self.advance();
                    self.parse_cond_expression()
                } else {
                    let expr = Expression::Identifier(id.clone());
                    self.advance();
                    Some(expr)
                }
            },
            Some(Token::KeywordNone) => {
                assert(st.current == Some(TokenView::KeywordNone));
                self.advance();
                Some(Expression::OptionNone)
            },
            Some(Token::LeftParen) => self.parse_tuple(),
            Some(Token::LeftBracket) => self.parse_list(),
            Some(Token::LeftBrace) => self.parse_map(),
            _ => self.parse_keyword_primary(),
        }
    }

    /// Parses a primary expression that starts with a keyword: a log call, or
    /// `Some`, `Ok` and `Err` around a bracketed value.
    #[verifier::rlimit(40)]
    fn parse_keyword_primary(&mut self) -> (r: Option<Expression>)
        requires
            old(self).wf(),
            match old(self).state().current {
                Some(TokenView::Number(_)) => false,
                Some(TokenView::Float(_)) => false,
                Some(TokenView::String(_)) => false,
                Some(TokenView::Boolean(_)) => false,
                Some(TokenView::Identifier(_)) => false,
                Some(TokenView::KeywordNone) => false,
                Some(TokenView::LeftParen) => false,
                Some(TokenView::LeftBracket) => false,
                Some(TokenView::LeftBrace) => false,
                _ => true,
            },
        ensures
            (expr_option_view(r), final(self).state()) == p_primary(
                old(self).input(),
                old(self).state(),
            ),
            final(self).follows(old(self)),
            r is Some ==> final(self).progressed(old(self)),
        decreases remaining(old(self).input(), old(self).state()), 4nat,
    {
        let ghost st = self.state();
        match &self.current_token {
            Some(Token::LogDebug) => {
                assert(st.current == Some(TokenView::LogDebug));
                self.advance();
                self.parse_log_call(LogLevel::Debug)
            },
            Some(Token::LogInfo) => {
                assert(st.current == Some(TokenView::LogInfo));
                self.advance();
                self.parse_log_call(LogLevel::Info)
            },
            Some(Token::LogWarn) => {
                assert(st.current == Some(TokenView::LogWarn));
                self.advance();
                self.parse_log_call(LogLevel::Warn)
            },
            Some(Token::LogError) => {
                assert(st.current == Some(TokenView::LogError));
                self.advance();
                self.parse_log_call(LogLevel::Error)
            },
            Some(Token::KeywordSome) => {
                assert(st.current == Some(TokenView::KeywordSome));
                self.advance();
                self.parse_some_expression()
            },
            Some(Token::KeywordOk) => {
                assert(st.current == Some(TokenView::KeywordOk));
                self.advance();
                self.parse_ok_expression()
            },
            Some(Token::KeywordErr) => {
                assert(st.current == Some(TokenView::KeywordErr));
                self.advance();
                self.parse_err_expression()
            },
            _ => None,
        }
    }

    /// Parses one expression between brackets.
    fn parse_bracketed(&mut self) -> (r: Option<Expression>)
        requires
            old(self).wf(),
        ensures
            (expr_option_view(r), final(self).state()) == p_bracketed(
                old(self).input(),
                old(self).state(),
            ),
            final(self).follows(old(self)),
            r is Some ==> final(self).progressed(old(self)),
        decreases remaining(old(self).input(), old(self).state()), 0nat,
    {
        if !matches!(self.current_token, Some(Token::LeftBracket)) {
            return None;
        }
        self.advance();
        let inner = match self.parse_expression() {
            Some(e) => e,
            None => {
                return None;
            },
        };
        if !self.expect_token(&Token::RightBracket) {
            return None;
        }
        Some(inner)
    }

    /// Parses the bracketed message of a log call of the given level.
    fn parse_log_call(&mut self, level: LogLevel) -> (r: Option<Expression>)
        requires
            old(self).wf(),
        ensures
            (expr_option_view(r), final(self).state()) == log_call(
                level,
                p_bracketed(old(self).input(), old(self).state()),
            ),
            final(self).follows(old(self)),
            r is Some ==> final(self).progressed(old(self)),
        decreases remaining(old(self).input(), old(self).state()), 1nat,
    {
        match self.parse_bracketed() {
            Some(message) => Some(Expression::LogCall { level, message: Box::new(message) }),
            None => None,
        }
    }

    /// Parses the bracketed value of a `Some`.
    fn parse_some_expression(&mut self) -> (r: Option<Expression>)
        requires
            old(self).wf(),
        ensures
            (expr_option_view(r), final(self).state()) == some_around(
                p_bracketed(old(self).input(), old(self).state()),
            ),
            final(self).follows(old(self)),
            r is Some ==> final(self).progressed(old(self)),
        decreases remaining(old(self).input(), old(self).state()), 1nat,
    {
        match self.parse_bracketed() {
            Some(value) => Some(Expression::OptionSome { value: Box::new(value) }),
            None => None,
        }
    }

    /// Parses the bracketed value of an `Ok`.
    fn parse_ok_expression(&mut self) -> (r: Option<Expression>)
        requires
            old(self).wf(),
        ensures
            (expr_option_view(r), final(self).state()) == ok_around(
                p_bracketed(old(self).input(), old(self).state()),
            ),
            final(self).follows(old(self)),
            r is Some ==> final(self).progressed(old(self)),
        decreases remaining(old(self).input(), old(self).state()), 1nat,
    {
        match self.parse_bracketed() {
            Some(value) => Some(Expression::ResultOk { value: Box::new(value) }),
            None => None,
        }
    }

    /// Parses the bracketed error of an `Err`.
    fn parse_err_expression(&mut self) -> (r: Option<Expression>)
        requires
            old(self).wf(),
        ensures
            (expr_option_view(r), final(self).state()) == err_around(
                p_bracketed(old(self).input(), old(self).state()),
            ),
            final(self).follows(old(self)),
            r is Some ==> final(self).progressed(old(self)),
        decreases remaining(old(self).input(), old(self).state()), 1nat,
    {
        match self.parse_bracketed() {
            Some(error) => Some(Expression::ResultErr { error: Box::new(error) }),
            None => None,
        }
    }

    /// Parses the elements of a tuple or list behind its opening token, and
    /// passes over the token behind them.
    fn parse_closed_elements(&mut self, close: &Token) -> (r: Option<Vec<Expression>>)
        requires
            old(self).wf(),
            *close == Token::RightBracket || *close == Token::RightParen,
        ensures
            match r {
                Some(es) => p_closed_elements(old(self).input(), old(self).state(), close@) == (
                    Some(expr_views(es@)),
                    final(self).state(),
                ),
                None => p_closed_elements(old(self).input(), old(self).state(), close@) == (
                    None::<Seq<ExprView>>,
                    final(self).state(),
                ),
            },
            final(self).follows(old(self)),
        decreases remaining(old(self).input(), old(self).state()), 10nat,
    {
        let mut elements: Vec<Expression> = Vec::new();
        assert(expr_views(elements@) =~= Seq::<ExprView>::empty());
        loop
            invariant_except_break
                p_elements(self.input(), old(self).state(), close@, Seq::empty()) == p_elements(
                    self.input(),
                    self.state(),
                    close@,
                    expr_views(elements@),
                ),
            invariant
                *close == Token::RightBracket || *close == Token::RightParen,
                self.follows(old(self)),
            ensures
                p_elements(self.input(), old(self).state(), close@, Seq::empty()) == (
                    Some(expr_views(elements@)),
                    self.state(),
                ),
            decreases remaining(self.input(), self.state()),
        {
            let at_end = match &self.current_token {
                Some(token) => same_token(token, close),
                None => true,
            };
            if at_end {
                break ;
            }
            let ghost before = expr_views(elements@);
            match self.parse_expression() {
                Some(e) => {
                    elements.push(e);
                    assert(expr_views(elements@) =~= before.push(e@));
                },
                None => {
                    return None;
                },
            }
            let at_close = match &self.current_token {
                Some(token) => same_token(token, close),
                None => false,
            };
            if matches!(self.current_token, Some(Token::Comma)) {
                self.advance();
            } else if at_close {
                break ;
            } else {
                return None;
            }
        }
        self.advance();
        Some(elements)
    }

    /// Parses a tuple literal.
    fn parse_tuple(&mut self) -> (r: Option<Expression>)
        requires
            old(self).wf(),
            old(self).state().current == Some(TokenView::LeftParen),
        ensures
            (expr_option_view(r), final(self).state()) == p_primary(
                old(self).input(),
                old(self).state(),
            ),
            final(self).progressed(old(self)),
        decreases remaining(old(self).input(), old(self).state()), 4nat,
    {
        self.advance();
        match self.parse_closed_elements(&Token::RightParen) {
            Some(elements) => {
                let tuple = Expression::Tuple(elements);
                assert(tuple@->Tuple_0 =~= expr_views(elements@));
                Some(tuple)
            },
            None => None,
        }
    }

    /// Parses a list literal.
    fn parse_list(&mut self) -> (r: Option<Expression>)
        requires
            old(self).wf(),
            old(self).state().current == Some(TokenView::LeftBracket),
        ensures
            (expr_option_view(r), final(self).state()) == p_primary(
                old(self).input(),
                old(self).state(),
            ),
            final(self).progressed(old(self)),
        decreases remaining(old(self).input(), old(self).state()), 4nat,
    {
        self.advance();
        match self.parse_closed_elements(&Token::RightBracket) {
            Some(elements) => {
                let list = Expression::List(elements);
                assert(list@->List_0 =~= expr_views(elements@));
                Some(list)
            },
            None => None,
        }
    }

    /// Parses a map literal.
    fn parse_map(&mut self) -> (r: Option<Expression>)
        requires
            old(self).wf(),
            old(self).state().current == Some(TokenView::LeftBrace),
        ensures
            (expr_option_view(r), final(self).state()) == p_primary(
                old(self).input(),
                old(self).state(),
            ),
            final(self).progressed(old(self)),
        decreases remaining(old(self).input(), old(self).state()), 4nat,
    {
        self.advance();
        match self.parse_entries() {
            Some(entries) => {
                self.advance();
                let map = Expression::MapLiteral(entries);
                assert(map@->MapLiteral_0 =~= pair_views(entries@));
                Some(map)
            },
            None => None,
        }
    }

    /// Parses the entries of a map literal up to the closing brace or the end of the input.
    fn parse_entries(&mut self) -> (r: Option<Vec<(Expression, Expression)>>)
        requires
            old(self).wf(),
        ensures
            match r {
                Some(entries) => p_entries(old(self).input(), old(self).state(), Seq::empty()) == (
                    Some(pair_views(entries@)),
                    final(self).state(),
                ),
                None => p_entries(old(self).input(), old(self).state(), Seq::empty()) == (
                    None::<Seq<(ExprView, ExprView)>>,
                    final(self).state(),
                ),
            },
            final(self).follows(old(self)),
        decreases remaining(old(self).input(), old(self).state()), 9nat,
    {
        let mut entries: Vec<(Expression, Expression)> = Vec::new();
        assert(pair_views(entries@) =~= Seq::<(ExprView, ExprView)>::empty());
        loop
            invariant
                self.follows(old(self)),
                p_entries(self.input(), old(self).state(), Seq::empty()) == p_entries(
                    self.input(),
                    self.state(),
                    pair_views(entries@),
                ),
            decreases remaining(self.input(), self.state()),
        {
            match &self.current_token {
                None => {
                    return Some(entries);
                },
                Some(Token::RightBrace) => {
                    return Some(entries);
                },
                _ => {},
            }
            let ghost before = pair_views(entries@);
            let key = match self.parse_expression() {
                Some(e) => e,
                None => {
                    return None;
                },
            };
            if !self.expect_token(&Token::Colon) {
                return None;
            }
            let value = match self.parse_expression() {
                Some(e) => e,
                None => {
                    return None;
                },
            };
            entries.push((key, value));
            assert(pair_views(entries@) =~= before.push((key@, value@)));
            match &self.current_token {
                Some(Token::Comma) => {
                    self.advance();
                },
                Some(Token::RightBrace) => {
                    return Some(entries);
                },
                _ => {
                    return None;
                },
            }
        }
    }

    /// Parses a conditional behind its keyword.
    fn parse_cond_expression(&mut self) -> (r: Option<Expression>)
        requires
            old(self).wf(),
        ensures
            (expr_option_view(r), final(self).state()) == p_cond(
                old(self).input(),
                old(self).state(),
            ),
            final(self).follows(old(self)),
            r is Some ==> final(self).progressed(old(self)),
        decreases remaining(old(self).input(), old(self).state()), 1nat,
    {
        if !matches!(self.current_token, Some(Token::LeftBracket)) {
            return None;
        }
        self.advance();
        self.parse_cond_pairs()
    }

    /// Parses the branches of a conditional up to and with its closing bracket.
    fn parse_cond_pairs(&mut self) -> (r: Option<Expression>)
        requires
            old(self).wf(),
        ensures
            (expr_option_view(r), final(self).state()) == p_cond_pairs(
                old(self).input(),
                old(self).state(),
                Seq::empty(),
                None,
            ),
            final(self).follows(old(self)),
            r is Some ==> final(self).progressed(old(self)),
        decreases remaining(old(self).input(), old(self).state()), 0nat,
    {
        let mut conditions: Vec<(Expression, Expression)> = Vec::new();
        let mut default_statements: Option<Box<Expression>> = None;
        assert(pair_views(conditions@) =~= Seq::<(ExprView, ExprView)>::empty());
        loop
            invariant
                self.follows(old(self)),
                p_cond_pairs(self.input(), old(self).state(), Seq::empty(), None) == p_cond_pairs(
                    self.input(),
                    self.state(),
                    pair_views(conditions@),
                    boxed_view(default_statements),
                ),
            decreases remaining(self.input(), self.state()),
        {
            match &self.current_token {
                Some(Token::RightBracket) => {
                    self.advance();
                    let cond = Expression::Cond { conditions, default_statements };
                    assert(cond@->Cond_conditions =~= pair_views(conditions@));
                    return Some(cond);
                },
                Some(Token::LeftBracket) => {},
                _ => {
                    return None;
                },
            }
            self.advance();
            let ghost before = pair_views(conditions@);
            let first_expr = match self.parse_expression() {
                Some(e) => e,
                None => {
                    return None;
                },
            };
            if matches!(self.current_token, Some(Token::RightBracket)) {
                self.advance();
                default_statements = Some(Box::new(first_expr));
            } else {
                let statements = match self.parse_expression() {
                    Some(e) => e,
                    None => {
                        return None;
                    },
                };
                if !self.expect_token(&Token::RightBracket) {
                    return None;
                }
                conditions.push((first_expr, statements));
                assert(pair_views(conditions@) =~= before.push((first_expr@, statements@)));
            }
        }
    }

    /// Parses a match behind its keyword.
    fn parse_match_expression(&mut self) -> (r: Option<Expression>)
        requires
            old(self).wf(),
        ensures
            (expr_option_view(r), final(self).state()) == p_match(
                old(self).input(),
                old(self).state(),
            ),
            final(self).follows(old(self)),
            r is Some ==> final(self).progressed(old(self)),
        decreases remaining(old(self).input(), old(self).state()), 1nat,
    {
        if !matches!(self.current_token, Some(Token::LeftBracket)) {
            return None;
        }
        self.advance();
        let value = match self.parse_expression() {
            Some(e) => e,
            None => {
                return None;
            },
        };
        if !self.expect_token(&Token::Comma) {
            return None;
        }
        self.parse_arms(value)
    }

    /// Parses the arms of a match on `value` up to and with its closing bracket.
    fn parse_arms(&mut self, value: Expression) -> (r: Option<Expression>)
        requires
            old(self).wf(),
        ensures
            (expr_option_view(r), final(self).state()) == p_arms(
                old(self).input(),
                old(self).state(),
                value@,
                Seq::empty(),
            ),
            final(self).follows(old(self)),
            r is Some ==> final(self).progressed(old(self)),
        decreases remaining(old(self).input(), old(self).state()), 0nat,
    {
        let mut arms: Vec<(Pattern, Expression)> = Vec::new();
        assert(arm_views(arms@) =~= Seq::<(PatternView, ExprView)>::empty());
        loop
            invariant
                self.follows(old(self)),
                p_arms(self.input(), old(self).state(), value@, Seq::empty()) == p_arms(
                    self.input(),
                    self.state(),
                    value@,
                    arm_views(arms@),
                ),
            decreases remaining(self.input(), self.state()),
        {
            match &self.current_token {
                Some(Token::RightBracket) => {
                    self.advance();
                    let matched = Expression::Match { value: Box::new(value), arms };
                    assert(matched@->Match_arms =~= arm_views(arms@));
                    return Some(matched);
                },
                Some(Token::LeftBracket) => {},
                _ => {
                    return None;
                },
            }
            self.advance();
            let ghost before = arm_views(arms@);
            let pattern = match self.parse_pattern() {
                Some(p) => p,
                None => {
                    return None;
                },
            };
            if !self.expect_token(&Token::Comma) {
                return None;
            }
            let result = match self.parse_expression() {
                Some(e) => e,
                None => {
                    return None;
                },
            };
            if !self.expect_token(&Token::RightBracket) {
                return None;
            }
            arms.push((pattern, result));
            assert(arm_views(arms@) =~= before.push((pattern@, result@)));
            if matches!(self.current_token, Some(Token::Comma)) {
                self.advance();
            }
        }
    }

    /// Parses a lambda behind its keyword.
    fn parse_lambda_expression(&mut self) -> (r: Option<Expression>)
        requires
            old(self).wf(),
        ensures
            (expr_option_view(r), final(self).state()) == p_lambda(
                old(self).input(),
                old(self).state(),
            ),
            final(self).follows(old(self)),
            r is Some ==> final(self).progressed(old(self)),
        decreases remaining(old(self).input(), old(self).state()), 1nat,
    {
        if !self.expect_token(&Token::LeftBracket) {
            return None;
        }
        if !self.expect_token(&Token::LeftBrace) {
            return None;
        }
        let parameters = match self.parse_lambda_parameters() {
            Some(ps) => ps,
            None => {
                return None;
            },
        };
        if !self.expect_token(&Token::Comma) {
            return None;
        }
        let body = match self.parse_expression() {
            Some(e) => e,
            None => {
                return None;
            },
        };
        if !self.expect_token(&Token::RightBracket) {
            return None;
        }
        Some(Expression::Lambda { parameters, body: Box::new(body) })
    }

    /// Parses the parameters of a lambda up to and with the closing brace.
    fn parse_lambda_parameters(&mut self) -> (r: Option<Vec<TypeAnnotation>>)
        requires
            old(self).wf(),
        ensures
            match r {
                Some(ps) => p_lambda_params(old(self).input(), old(self).state(), Seq::empty())
                    == (Some(annotation_views(ps@)), final(self).state()),
                None => p_lambda_params(old(self).input(), old(self).state(), Seq::empty()) == (
                    None::<Seq<TypeAnnotationView>>,
                    final(self).state(),
                ),
            },
            final(self).follows(old(self)),
    {
        let mut parameters: Vec<TypeAnnotation> = Vec::new();
        assert(annotation_views(parameters@) =~= Seq::<TypeAnnotationView>::empty());
        loop
            invariant
                self.follows(old(self)),
                p_lambda_params(self.input(), old(self).state(), Seq::empty()) == p_lambda_params(
                    self.input(),
                    self.state(),
                    annotation_views(parameters@),
                ),
            decreases remaining(self.input(), self.state()),
        {
            let ghost before = annotation_views(parameters@);
            let param_name = match &self.current_token {
                Some(Token::RightBrace) => {
                    self.advance();
                    return Some(parameters);
                },
                Some(Token::Identifier(name)) => name.clone(),
                _ => {
                    return None;
                },
            };
            self.advance();
            let param_type = if matches!(self.current_token, Some(Token::Colon)) {
                self.advance();
                match self.parse_type() {
                    Some(t) => t,
                    None => {
                        return None;
                    },
                }
            } else {
                Type::Int32
            };
            let parameter = TypeAnnotation { name: param_name, type_: param_type };
            parameters.push(parameter);
            assert(annotation_views(parameters@) =~= before.push(parameter@));
            if matches!(self.current_token, Some(Token::Comma)) {
                self.advance();
            }
        }
    }

    /// Parses a pattern of a match arm.
    #[verifier::rlimit(40)]
    fn parse_pattern(&mut self) -> (r: Option<Pattern>)
        requires
            old(self).wf(),
        ensures
            (pattern_option_view(r), final(self).state()) == p_pattern(
                old(self).input(),
                old(self).state(),
            ),
            final(self).follows(old(self)),
            r is Some ==> final(self).progressed(old(self)),
        decreases remaining(old(self).input(), old(self).state()), 5nat,
    {
        match &self.current_token {
            Some(Token::Underscore) => self.parse_simple_pattern(),
            Some(Token::Number(_)) => self.parse_simple_pattern(),
            Some(Token::String(_)) => self.parse_simple_pattern(),
            Some(Token::Boolean(_)) => self.parse_simple_pattern(),
            Some(Token::KeywordNone) => self.parse_simple_pattern(),
            Some(Token::KeywordSome) => {
                self.advance();
                self.parse_wrapped_pattern("Some")
            },
            Some(Token::KeywordOk) => {
                self.advance();
                self.parse_wrapped_pattern("Ok")
            },
            Some(Token::KeywordErr) => {
                self.advance();
                self.parse_wrapped_pattern("Err")
            },
            Some(Token::Identifier(_)) => self.parse_named_pattern(),
            Some(Token::LeftParen) => self.parse_tuple_pattern(),
            Some(Token::LeftBracket) => self.parse_list_pattern(),
            _ => None,
        }
    }

    /// Parses a pattern of one token: the wildcard, a literal, or `None`.
    #[verifier::rlimit(40)]
    fn parse_simple_pattern(&mut self) -> (r: Option<Pattern>)
        requires
            old(self).wf(),
            match old(self).state().current {
                Some(TokenView::Underscore) => true,
                Some(TokenView::Number(_)) => true,
                Some(TokenView::String(_)) => true,
                Some(TokenView::Boolean(_)) => true,
                Some(TokenView::KeywordNone) => true,
                _ => false,
            },
        ensures
            (pattern_option_view(r), final(self).state()) == p_pattern(
                old(self).input(),
                old(self).state(),
            ),
            final(self).progressed(old(self)),
    {
        let ghost st = self.state();
        match &self.current_token {
            Some(Token::Underscore) => {
                assert(st.current == Some(TokenView::Underscore));
                self.advance();
                Some(Pattern::Wildcard)
            },
            Some(Token::Number(n)) => {
                assert(st.current == Some(TokenView::Number(*n)));
                let literal = Expression::Number(*n);
                assert(literal@ == ExprView::Number(*n));
                self.advance();
                Some(Pattern::Literal(Box::new(literal)))
            },
            Some(Token::String(s)) => {
                assert(st.current == Some(TokenView::String(s@)));
                let literal = Expression::String(s.clone());
                assert(literal@ == ExprView::String(s@));
                self.advance();
                Some(Pattern::Literal(Box::new(literal)))
            },
            Some(Token::Boolean(b)) => {
                assert(st.current == Some(TokenView::Boolean(*b)));
                let literal = Expression::Boolean(*b);
                assert(literal@ == ExprView::Boolean(*b));
                self.advance();
                Some(Pattern::Literal(Box::new(literal)))
            },
            _ => {
                assert(st.current == Some(TokenView::KeywordNone));
                self.advance();
                let patterns: Vec<Pattern> = Vec::new();
                let pattern = Pattern::Constructor { name: String::from_str("None"), patterns };
                assert(pattern@->Constructor_patterns =~= Seq::<PatternView>::empty());
                Some(pattern)
            },
        }
    }

    /// Parses a pattern that starts with a name: a constructor where a bracket
    /// follows, and a variable otherwise.
    #[verifier::rlimit(40)]
    fn parse_named_pattern(&mut self) -> (r: Option<Pattern>)
        requires
            old(self).wf(),
            old(self).state().current is Some,
            old(self).state().current->0 is Identifier,
        ensures
            (pattern_option_view(r), final(self).state()) == p_pattern(
                old(self).input(),
                old(self).state(),
            ),
            final(self).follows(old(self)),
            r is Some ==> final(self).progressed(old(self)),
        decreases remaining(old(self).input(), old(self).state()), 4nat,
    {
        let name = match &self.current_token {
            Some(Token::Identifier(id)) => id.clone(),
            _ => {
                return None;
            },
        };
        self.advance();
        if matches!(self.current_token, Some(Token::LeftBracket)) {
            self.advance();
            match self.parse_closed_patterns(&Token::RightBracket) {
                Some(patterns) => {
                    let pattern = Pattern::Constructor { name, patterns };
                    assert(pattern@->Constructor_patterns =~= pattern_views(patterns@));
                    Some(pattern)
                },
                None => None,
            }
        } else {
            Some(Pattern::Variable(name))
        }
    }

    /// Parses a tuple pattern.
    fn parse_tuple_pattern(&mut self) -> (r: Option<Pattern>)
        requires
            old(self).wf(),
            old(self).state().current == Some(TokenView::LeftParen),
        ensures
            (pattern_option_view(r), final(self).state()) == p_pattern(
                old(self).input(),
                old(self).state(),
            ),
            final(self).progressed(old(self)),
        decreases remaining(old(self).input(), old(self).state()), 4nat,
    {
        self.advance();
        match self.parse_closed_patterns(&Token::RightParen) {
            Some(patterns) => {
                let pattern = Pattern::Tuple(patterns);
                assert(pattern@->Tuple_0 =~= pattern_views(patterns@));
                Some(pattern)
            },
            None => None,
        }
    }

    /// Parses a list pattern.
    fn parse_list_pattern(&mut self) -> (r: Option<Pattern>)
        requires
            old(self).wf(),
            old(self).state().current == Some(TokenView::LeftBracket),
        ensures
            (pattern_option_view(r), final(self).state()) == p_pattern(
                old(self).input(),
                old(self).state(),
            ),
            final(self).progressed(old(self)),
        decreases remaining(old(self).input(), old(self).state()), 4nat,
    {
        self.advance();
        match self.parse_closed_patterns(&Token::RightBracket) {
            Some(patterns) => {
                let pattern = Pattern::List(patterns);
                assert(pattern@->List_0 =~= pattern_views(patterns@));
                Some(pattern)
            },
            None => None,
        }
    }

    /// Parses the one argument of a `Some`, `Ok` or `Err` pattern, in brackets.
    fn parse_wrapped_pattern(&mut self, name: &str) -> (r: Option<Pattern>)
        requires
            old(self).wf(),
        ensures
            (pattern_option_view(r), final(self).state()) == p_wrapped_pattern(
                old(self).input(),
                old(self).state(),
                name@,
            ),
            final(self).follows(old(self)),
            r is Some ==> final(self).progressed(old(self)),
        decreases remaining(old(self).input(), old(self).state()), 1nat,
    {
        if !matches!(self.current_token, Some(Token::LeftBracket)) {
            return None;
        }
        self.advance();
        let inner = match self.parse_pattern() {
            Some(p) => p,
            None => {
                return None;
            },
        };
        if !self.expect_token(&Token::RightBracket) {
            return None;
        }
        let mut patterns: Vec<Pattern> = Vec::new();
        patterns.push(inner);
        let pattern = Pattern::Constructor { name: String::from_str(name), patterns };
        assert(pattern@->Constructor_patterns =~= seq![inner@]);
        Some(pattern)
    }

    /// Parses patterns separated by commas, and the closing token behind them.
    fn parse_closed_patterns(&mut self, close: &Token) -> (r: Option<Vec<Pattern>>)
        requires
            old(self).wf(),
            *close == Token::RightBracket || *close == Token::RightParen,
        ensures
            match r {
                Some(ps) => p_closed_patterns(old(self).input(), old(self).state(), close@) == (
                    Some(pattern_views(ps@)),
                    final(self).state(),
                ),
                None => p_closed_patterns(old(self).input(), old(self).state(), close@) == (
                    None::<Seq<PatternView>>,
                    final(self).state(),
                ),
            },
            final(self).follows(old(self)),
            r is Some ==> final(self).progressed(old(self)),
        decreases remaining(old(self).input(), old(self).state()), 6nat,
    {
        let mut patterns: Vec<Pattern> = Vec::new();
        assert(pattern_views(patterns@) =~= Seq::<PatternView>::empty());
        loop
            invariant_except_break
                p_pattern_list(self.input(), old(self).state(), close@, Seq::empty())
                    == p_pattern_list(
                    self.input(),
                    self.state(),
                    close@,
                    pattern_views(patterns@),
                ),
            invariant
                *close == Token::RightBracket || *close == Token::RightParen,
                self.follows(old(self)),
            ensures
                p_pattern_list(self.input(), old(self).state(), close@, Seq::empty()) == (
                    Some(pattern_views(patterns@)),
                    self.state(),
                ),
            decreases remaining(self.input(), self.state()),
        {
            let at_close = match &self.current_token {
                Some(token) => same_token(token, close),
                None => false,
            };
            if at_close {
                break ;
            }
            let ghost before = pattern_views(patterns@);
            match self.parse_pattern() {
                Some(p) => {
                    patterns.push(p);
                    assert(pattern_views(patterns@) =~= before.push(p@));
                },
                None => {
                    return None;
                },
            }
            if matches!(self.current_token, Some(Token::Comma)) {
                self.advance();
            } else {
                break ;
            }
        }
        if !self.expect_token(close) {
            return None;
        }
        Some(patterns)
    }

    /// Parses a type.
    fn parse_type(&mut self) -> (r: Option<Type>)
        requires
            old(self).wf(),
        ensures
            (type_option_view(r), final(self).state()) == p_type(
                old(self).input(),
                old(self).state(),
            ),
            final(self).follows(old(self)),
            r is Some ==> final(self).progressed(old(self)),
        decreases remaining(old(self).input(), old(self).state()), 1nat,
    {
        let kind = match &self.current_token {
            Some(Token::Identifier(id)) => id.clone(),
            _ => {
                return None;
            },
        };
        self.advance();
        if matches!(self.current_token, Some(Token::LeftBracket)) {
            return self.parse_generic_type(&kind);
        }
        Some(type_named(kind))
    }

    /// Parses one type and the closing bracket behind it.
    fn parse_type_then_close(&mut self) -> (r: Option<Type>)
        requires
            old(self).wf(),
        ensures
            (type_option_view(r), final(self).state()) == p_type_then_close(
                old(self).input(),
                old(self).state(),
            ),
            final(self).follows(old(self)),
            r is Some ==> final(self).progressed(old(self)),
        decreases remaining(old(self).input(), old(self).state()), 2nat,
    {
        let inner = match self.parse_type() {
            Some(t) => t,
            None => {
                return None;
            },
        };
        if !self.expect_token(&Token::RightBracket) {
            return None;
        }
        Some(inner)
    }

    /// Parses two types with a comma between and the closing bracket behind.
    fn parse_type_pair(&mut self) -> (r: Option<(Type, Type)>)
        requires
            old(self).wf(),
        ensures
            match r {
                Some(kv) => p_type_pair(old(self).input(), old(self).state()) == (
                    Some((kv.0@, kv.1@)),
                    final(self).state(),
                ),
                None => p_type_pair(old(self).input(), old(self).state()) == (
                    None::<(TypeView, TypeView)>,
                    final(self).state(),
                ),
            },
            final(self).follows(old(self)),
            r is Some ==> final(self).progressed(old(self)),
        decreases remaining(old(self).input(), old(self).state()), 3nat,
    {
        let key = match self.parse_type() {
            Some(t) => t,
            None => {
                return None;
            },
        };
        if !self.expect_token(&Token::Comma) {
            return None;
        }
        let value = match self.parse_type_then_close() {
            Some(t) => t,
            None => {
                return None;
            },
        };
        Some((key, value))
    }

    /// Parses the component types of a `Tuple`, up to the closing bracket.
    fn parse_type_list(&mut self) -> (r: Option<Vec<Type>>)
        requires
            old(self).wf(),
        ensures
            match r {
                Some(ts) => p_type_list(old(self).input(), old(self).state(), Seq::empty()) == (
                    Some(type_views(ts@)),
                    final(self).state(),
                ),
                None => p_type_list(old(self).input(), old(self).state(), Seq::empty()) == (
                    None::<Seq<TypeView>>,
                    final(self).state(),
                ),
            },
            final(self).follows(old(self)),
        decreases remaining(old(self).input(), old(self).state()), 2nat,
    {
        let mut types: Vec<Type> = Vec::new();
        assert(type_views(types@) =~= Seq::<TypeView>::empty());
        loop
            invariant
                self.follows(old(self)),
                p_type_list(self.input(), old(self).state(), Seq::empty()) == p_type_list(
                    self.input(),
                    self.state(),
                    type_views(types@),
                ),
            decreases remaining(self.input(), self.state()),
        {
            let ghost before = type_views(types@);
            match &self.current_token {
                Some(Token::RightBracket) => {
                    return Some(types);
                },
                Some(Token::Comma) => {
                    self.advance();
                },
                _ => {
                    match self.parse_type() {
                        Some(t) => {
                            types.push(t);
                            assert(type_views(types@) =~= before.push(t@));
                        },
                        None => {
                            return None;
                        },
                    }
                },
            }
        }
    }

    /// Parses the arguments of the generic type `kind`, from the opening bracket on.
    #[verifier::rlimit(40)]
    fn parse_generic_type(&mut self, kind: &String) -> (r: Option<Type>)
        requires
            old(self).wf(),
            old(self).state().current is Some,
        ensures
            (type_option_view(r), final(self).state()) == p_generic_type(
                old(self).input(),
                old(self).state(),
                kind@,
            ),
            final(self).progressed(old(self)),
        decreases remaining(old(self).input(), old(self).state()), 0nat,
    {
        self.advance();
        if is_word(kind, "Tuple") {
            let types = match self.parse_type_list() {
                Some(ts) => ts,
                None => {
                    return None;
                },
            };
            if !self.expect_token(&Token::RightBracket) {
                return None;
            }
            proof {
                lemma_tuple_view(types);
            }
            Some(Type::Tuple(types))
        } else if is_word(kind, "List") {
            match self.parse_type_then_close() {
                Some(t) => Some(Type::List(Box::new(t))),
                None => None,
            }
        } else if is_word(kind, "Array") {
            let inner = match self.parse_type() {
                Some(t) => t,
                None => {
                    return None;
                },
            };
            if !self.expect_token(&Token::Comma) {
                return None;
            }
            let size: usize = match &self.current_token {
                Some(Token::Number(n)) => {
                    if *n < 0 {
                        return None;
                    }
                    *n as usize
                },
                _ => {
                    return None;
                },
            };
            self.advance();
            if !self.expect_token(&Token::RightBracket) {
                return None;
            }
            Some(Type::Array(Box::new(inner), size))
        } else if is_word(kind, "Slice") {
            match self.parse_type_then_close() {
                Some(t) => Some(Type::Slice(Box::new(t))),
                None => None,
            }
        } else if is_word(kind, "HashSet") {
            match self.parse_type_then_close() {
                Some(t) => Some(Type::HashSet(Box::new(t))),
                None => None,
            }
        } else if is_word(kind, "BTreeSet") {
            match self.parse_type_then_close() {
                Some(t) => Some(Type::BTreeSet(Box::new(t))),
                None => None,
            }
        } else if is_word(kind, "Map") {
            match self.parse_type_pair() {
                Some(kv) => Some(Type::HashMap(Box::new(kv.0), Box::new(kv.1))),
                None => None,
            }
        } else if is_word(kind, "BTreeMap") {
            match self.parse_type_pair() {
                Some(kv) => Some(Type::BTreeMap(Box::new(kv.0), Box::new(kv.1))),
                None => None,
            }
        } else {
            None
        }
    }
}

/// Whether two tokens are the same punctuation, operator or keyword.
fn same_token(a: &Token, b: &Token) -> (r: bool)
    requires
        !(b is Identifier) && !(b is Number) && !(b is Float) && !(b is String) && !(b is Boolean),
    ensures
        r == (a@ == b@),
{
    match b {
        Token::LeftBracket => matches!(a, Token::LeftBracket),
        Token::RightBracket => matches!(a, Token::RightBracket),
        Token::LeftBrace => matches!(a, Token::LeftBrace),
        Token::RightBrace => matches!(a, Token::RightBrace),
        Token::LeftParen => matches!(a, Token::LeftParen),
        Token::RightParen => matches!(a, Token::RightParen),
        Token::Comma => matches!(a, Token::Comma),
        Token::Colon => matches!(a, Token::Colon),
        Token::Define => matches!(a, Token::Define),
        Token::Plus => matches!(a, Token::Plus),
        Token::Minus => matches!(a, Token::Minus),
        Token::Multiply => matches!(a, Token::Multiply),
        Token::Divide => matches!(a, Token::Divide),
        Token::Power => matches!(a, Token::Power),
        Token::Equals => matches!(a, Token::Equals),
        Token::NotEquals => matches!(a, Token::NotEquals),
        Token::LessThan => matches!(a, Token::LessThan),
        Token::GreaterThan => matches!(a, Token::GreaterThan),
        Token::LogDebug => matches!(a, Token::LogDebug),
        Token::LogInfo => matches!(a, Token::LogInfo),
        Token::LogWarn => matches!(a, Token::LogWarn),
        Token::LogError => matches!(a, Token::LogError),
        Token::KeywordNone => matches!(a, Token::KeywordNone),
        Token::KeywordSome => matches!(a, Token::KeywordSome),
        Token::KeywordOk => matches!(a, Token::KeywordOk),
        Token::KeywordErr => matches!(a, Token::KeywordErr),
        Token::Underscore => matches!(a, Token::Underscore),
        _ => false,
    }
}

/// The type that a plain type name denotes.
fn type_named(name: String) -> (r: Type)
    ensures
        r@ == named_type(name@),
{
    if is_word(&name, "Int8") {
        Type::Int8
    } else if is_word(&name, "Int16") {
        Type::Int16
    } else if is_word(&name, "Int32") {
        Type::Int32
    } else if is_word(&name, "Int64") {
        Type::Int64
    } else if is_word(&name, "Int128") {
        Type::Int128
    } else if is_word(&name, "Int") {
        Type::Int
    } else if is_word(&name, "UInt8") {
        Type::UInt8
    } else if is_word(&name, "UInt16") {
        Type::UInt16
    } else if is_word(&name, "UInt32") {
        Type::UInt32
    } else if is_word(&name, "UInt64") {
        Type::UInt64
    } else if is_word(&name, "UInt128") {
        Type::UInt128
    } else if is_word(&name, "UInt") {
        Type::UInt
    } else if is_word(&name, "Float32") {
        Type::Float32
    } else if is_word(&name, "Float64") {
        Type::Float64
    } else if is_word(&name, "Bool") {
        Type::Bool
    } else if is_word(&name, "Char") {
        Type::Char
    } else if is_word(&name, "String") {
        Type::String
    } else if is_word(&name, "int") {
        Type::Int32
    } else if is_word(&name, "float") {
        Type::Float64
    } else if is_word(&name, "string") {
        Type::String
    } else if is_word(&name, "bool") {
        Type::Bool
    } else if is_word(&name, "char") {
        Type::Char
    } else {
        Type::Custom(name)
    }
}


/// The binary operation of two operands.
pub open spec fn binary_of(left: ExprView, operator: Operator, right: ExprView) -> ExprView {
    ExprView::BinaryOp { left: Box::new(left), operator, right: Box::new(right) }
}

/// Flat precedence: where the tokens from the current one on are a number, an
/// operator, a number, another operator and a third number, and no operator
/// follows, the expression is the second operation applied to the first one
/// and the third number, whatever the two operators are.
pub proof fn law_flat_precedence(
    input: Seq<char>,
    st: ParserState,
    a: i32,
    first: Operator,
    b: i32,
    second: Operator,
    c: i32,
)
    requires
        in_input(input, st),
        st.current == Some(TokenView::Number(a)),
        operator_of(advance(input, st).current) == Some(first),
        advance(input, advance(input, st)).current == Some(TokenView::Number(b)),
        operator_of(advance(input, advance(input, advance(input, st))).current) == Some(second),
        advance(input, advance(input, advance(input, advance(input, st)))).current == Some(
            TokenView::Number(c),
        ),
        operator_of(
            advance(input, advance(input, advance(input, advance(input, advance(input, st))))).current,
        ) is None,
    ensures
        p_expression(input, st) == (
            Some(
                binary_of(
                    binary_of(ExprView::Number(a), first, ExprView::Number(b)),
                    second,
                    ExprView::Number(c),
                ),
            ),
            advance(input, advance(input, advance(input, advance(input, advance(input, st))))),
        ),
{
    let s1 = advance(input, st);
    let s2 = advance(input, s1);
    let s3 = advance(input, s2);
    let s4 = advance(input, s3);
    let s5 = advance(input, s4);
    let ab = binary_of(ExprView::Number(a), first, ExprView::Number(b));
    let abc = binary_of(ab, second, ExprView::Number(c));
    assert(p_primary(input, st) == (Some(ExprView::Number(a)), s1));
    assert(p_primary(input, s2) == (Some(ExprView::Number(b)), s3));
    assert(p_primary(input, s4) == (Some(ExprView::Number(c)), s5));
    assert(p_binary_rest(input, s5, abc) == (Some(abc), s5));
    assert(p_binary_rest(input, s3, ab) == (Some(abc), s5));
    assert(p_binary_rest(input, s1, ExprView::Number(a)) == (Some(abc), s5));
    assert(p_binary(input, st) == (Some(abc), s5));
}


/// Where a sequence of expressions parses, no token is left behind it.
pub proof fn lemma_all_consumes_input(input: Seq<char>, st: ParserState, acc: Seq<ExprView>)
    requires
        in_input(input, st),
    ensures
        p_all(input, st, acc).0 is Some ==> p_all(input, st, acc).1.current is None,
    decreases remaining(input, st),
{
    if st.current is Some {
        let (r, after) = p_expression(input, st);
        if r is Some && shrinks(input, st, after) {
            lemma_all_consumes_input(input, after, acc.push(r->0));
        }
    }
}

/// A parse of the whole input succeeds only where it consumes every token.
pub proof fn law_program_consumes_input(input: Seq<char>, st: ParserState)
    requires
        in_input(input, st),
    ensures
        p_program(input, st).0 is Some ==> p_program(input, st).1.current is None,
{
    lemma_all_consumes_input(input, st, Seq::empty());
}

} // verus!
