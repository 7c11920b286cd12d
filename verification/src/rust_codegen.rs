//! Code generation: renders a syntax tree as Rust source text.
//!
//! The spec functions of this module define the text of every node; the
//! generator's methods are proved to produce exactly that text.
use vstd::prelude::*;
use vstd::string::*;
use crate::ast::{
    annotation_views, arm_views, expr_views, pair_views, pattern_views, type_views, ExprView,
    Expression, LogLevel, Operator, Pattern, PatternView, Type, TypeAnnotation,
    TypeAnnotationView, TypeView,
};
use crate::table::NameTable;
use crate::text::{
    ascii_lower, char_is_uppercase, chars_of, concat, concat_strings, i32_to_text, indent_text,
    int_text, is_uppercase, is_word, join, join_strings, lemma_concat_step, make_indent, nat_text,
    push_char, string_views, to_ascii_lowercase, usize_to_text,
};

verus! {

/// For each struct defined so far, its field names in declaration order, in snake case.
pub type StructFields = Map<Seq<char>, Seq<Seq<char>>>;

/// Whether every element is present.
pub open spec fn all_some<T>(s: Seq<Option<T>>) -> bool {
    forall|i: int| 0 <= i < s.len() ==> (#[trigger] s[i]) is Some
}

/// The elements of `s`, if every one is present.
pub open spec fn collect<T>(s: Seq<Option<T>>) -> Option<Seq<T>> {
    if all_some(s) {
        Some(Seq::new(s.len(), |i: int| s[i]->0))
    } else {
        None
    }
}

/// One character of a name in snake case: an upper-case letter is lowered, and
/// gets an underscore in front unless it starts the name or follows another
/// upper-case letter.
pub open spec fn snake_piece(s: Seq<char>, i: int) -> Seq<char> {
    if is_uppercase(s[i]) {
        if i > 0 && !is_uppercase(s[i - 1]) {
            seq!['_', ascii_lower(s[i])]
        } else {
            seq![ascii_lower(s[i])]
        }
    } else {
        seq![s[i]]
    }
}

/// A PascalCase or camelCase name in snake case.
pub open spec fn snake_case(s: Seq<char>) -> Seq<char>
    decreases s.len(),
{
    if s.len() == 0 {
        Seq::empty()
    } else {
        snake_case(s.drop_last()) + snake_piece(s, s.len() - 1)
    }
}

/// The Rust spelling of a type.
pub open spec fn type_text(t: TypeView) -> Seq<char>
    decreases t,
{
    match t {
        TypeView::Int8 => "i8"@,
        TypeView::Int16 => "i16"@,
        TypeView::Int32 => "i32"@,
        TypeView::Int64 => "i64"@,
        TypeView::Int128 => "i128"@,
        TypeView::Int => "isize"@,
        TypeView::UInt8 => "u8"@,
        TypeView::UInt16 => "u16"@,
        TypeView::UInt32 => "u32"@,
        TypeView::UInt64 => "u64"@,
        TypeView::UInt128 => "u128"@,
        TypeView::UInt => "usize"@,
        TypeView::Float32 => "f32"@,
        TypeView::Float64 => "f64"@,
        TypeView::Bool => "bool"@,
        TypeView::Char => "char"@,
        TypeView::String => "String"@,
        TypeView::Tuple(ts) => if ts.len() == 0 {
            "()"@
        } else {
            "("@ + join(type_texts(ts), ", "@) + ")"@
        },
        TypeView::List(inner) => "Vec<"@ + type_text(*inner) + ">"@,
        TypeView::Array(inner, size) => "["@ + type_text(*inner) + "; "@ + nat_text(size as nat)
            + "]"@,
        TypeView::Slice(inner) => "&["@ + type_text(*inner) + "]"@,
        TypeView::HashMap(k, v) => "std::collections::HashMap<"@ + type_text(*k) + ", "@
            + type_text(*v) + ">"@,
        TypeView::HashSet(inner) => "std::collections::HashSet<"@ + type_text(*inner) + ">"@,
        TypeView::BTreeMap(k, v) => "std::collections::BTreeMap<"@ + type_text(*k) + ", "@
            + type_text(*v) + ">"@,
        TypeView::BTreeSet(inner) => "std::collections::BTreeSet<"@ + type_text(*inner) + ">"@,
        TypeView::Function(ps, r) => "fn("@ + join(type_texts(ps), ", "@) + ") -> "@ + type_text(
            *r,
        ),
        TypeView::Option(inner) => "Option<"@ + type_text(*inner) + ">"@,
        TypeView::Result(t, e) => "Result<"@ + type_text(*t) + ", "@ + type_text(*e) + ">"@,
        TypeView::LogLevel => "LogLevel"@,
        TypeView::Custom(name) => name,
    }
}

/// The Rust spellings of a sequence of types.
pub open spec fn type_texts(ts: Seq<TypeView>) -> Seq<Seq<char>>
    decreases ts,
{
    Seq::new(
        ts.len(),
        |i: int|
            if 0 <= i < ts.len() {
                type_text(ts[i])
            } else {
                Seq::empty()
            },
    )
}


/// `true` or `false`.
pub open spec fn bool_text(b: bool) -> Seq<char> {
    if b {
        "true"@
    } else {
        "false"@
    }
}

/// A tuple of the given component texts: `()` for none, a trailing comma after a single one.
pub open spec fn tuple_text(parts: Seq<Seq<char>>) -> Seq<char> {
    if parts.len() == 0 {
        "()"@
    } else if parts.len() == 1 {
        "("@ + join(parts, ", "@) + ","@ + ")"@
    } else {
        "("@ + join(parts, ", "@) + ")"@
    }
}

/// The Rust spelling of a pattern, where it has one. A string literal becomes a
/// guarded binding; other literals are numbers and booleans.
pub open spec fn pattern_text(p: PatternView) -> Option<Seq<char>>
    decreases p,
{
    match p {
        PatternView::Wildcard => Some("_"@),
        PatternView::Literal(e) => match *e {
            ExprView::Number(n) => Some(int_text(n as int)),
            ExprView::String(s) => Some("s if s == \""@ + s + "\""@),
            ExprView::Boolean(b) => Some(bool_text(b)),
            _ => None,
        },
        PatternView::Variable(name) => Some(snake_case(name)),
        PatternView::Constructor { name, patterns } => {
            if name == "Some"@ || name == "Ok"@ || name == "Err"@ {
                if patterns.len() == 1 {
                    match pattern_text(patterns[0]) {
                        Some(inner) => Some(name + "("@ + inner + ")"@),
                        None => None,
                    }
                } else {
                    None
                }
            } else if name == "None"@ {
                Some("None"@)
            } else {
                match collect(pattern_texts(patterns)) {
                    Some(parts) => Some(name + "("@ + join(parts, ", "@) + ")"@),
                    None => None,
                }
            }
        },
        PatternView::Tuple(ps) => match collect(pattern_texts(ps)) {
            Some(parts) => Some(tuple_text(parts)),
            None => None,
        },
        PatternView::List(ps) => match collect(pattern_texts(ps)) {
            Some(parts) => Some("["@ + join(parts, ", "@) + "]"@),
            None => None,
        },
    }
}

/// The spellings of a sequence of patterns.
pub open spec fn pattern_texts(ps: Seq<PatternView>) -> Seq<Option<Seq<char>>>
    decreases ps,
{
    Seq::new(
        ps.len(),
        |i: int|
            if 0 <= i < ps.len() {
                pattern_text(ps[i])
            } else {
                None
            },
    )
}

/// The spelling of a binary operator between its operands.
pub open spec fn operator_text(op: Operator) -> Seq<char> {
    match op {
        Operator::Add => " + "@,
        Operator::Subtract => " - "@,
        Operator::Multiply => " * "@,
        Operator::Divide => " / "@,
        Operator::Power => " ^ "@,
        Operator::Equals => " == "@,
        Operator::NotEquals => " != "@,
        Operator::LessThan => " < "@,
        Operator::GreaterThan => " > "@,
    }
}

/// A binary operation over operand texts, always parenthesized. Exponentiation
/// is an integer `pow` call with width casts.
pub open spec fn binary_text(left: Seq<char>, op: Operator, right: Seq<char>) -> Seq<char> {
    match op {
        Operator::Power => "(("@ + left + " as i32).pow("@ + right + " as u32))"@,
        _ => "("@ + left + operator_text(op) + right + ")"@,
    }
}

/// The logging macro of a level.
pub open spec fn log_macro_text(level: LogLevel) -> Seq<char> {
    match level {
        LogLevel::Debug => "debug!"@,
        LogLevel::Info => "info!"@,
        LogLevel::Warn => "warn!"@,
        LogLevel::Error => "error!"@,
    }
}

/// The placeholder with which `Print` shows an argument: the debug form for
/// containers, for `Map` and `Filter` calls and for struct constructors.
pub open spec fn print_placeholder(arg: ExprView, table: StructFields) -> Seq<char> {
    match arg {
        ExprView::List(_) | ExprView::MapLiteral(_) | ExprView::Tuple(_) => "{:?}"@,
        ExprView::FunctionCall { function, .. } => match *function {
            ExprView::Identifier(name) => if name == "Map"@ || name == "Filter"@
                || table.contains_key(name) {
                "{:?}"@
            } else {
                "{}"@
            },
            _ => "{}"@,
        },
        _ => "{}"@,
    }
}

/// The placeholders of all arguments of a `Print`.
pub open spec fn print_placeholders(args: Seq<ExprView>, table: StructFields) -> Seq<Seq<char>> {
    Seq::new(args.len(), |i: int| print_placeholder(args[i], table))
}

/// Each part with `prefix` in front.
pub open spec fn prefixed(prefix: Seq<char>, parts: Seq<Seq<char>>) -> Seq<Seq<char>> {
    Seq::new(parts.len(), |i: int| prefix + parts[i])
}

/// A `println!` statement from the arguments' placeholders and texts.
pub open spec fn println_text(placeholders: Seq<Seq<char>>, parts: Seq<Seq<char>>) -> Seq<char> {
    if parts.len() == 0 {
        "println!("@ + ");\n"@
    } else {
        "println!("@ + "\""@ + join(placeholders, " "@) + "\""@ + concat(prefixed(", "@, parts))
            + ");\n"@
    }
}

/// `name: value` for each field, in order.
pub open spec fn field_inits(fields: Seq<Seq<char>>, values: Seq<Seq<char>>) -> Seq<Seq<char>> {
    Seq::new(fields.len(), |i: int| fields[i] + ": "@ + values[i])
}

/// A struct literal.
pub open spec fn struct_literal_text(
    name: Seq<char>,
    fields: Seq<Seq<char>>,
    values: Seq<Seq<char>>,
) -> Seq<char> {
    name + " { "@ + join(field_inits(fields, values), ", "@) + " }"@
}

/// The names of parameters or fields, in snake case.
pub open spec fn snake_names(ps: Seq<TypeAnnotationView>) -> Seq<Seq<char>> {
    Seq::new(ps.len(), |i: int| snake_case(ps[i].name))
}

/// One line of a map literal's block: the insertion of an entry.
pub open spec fn insert_lines(indent: nat, entries: Seq<(Seq<char>, Seq<char>)>) -> Seq<Seq<char>> {
    Seq::new(
        entries.len(),
        |i: int|
            indent_text(indent) + "map.insert("@ + entries[i].0 + ", "@ + entries[i].1 + ");\n"@,
    )
}

/// The branches of a conditional: `if c { s }` each.
pub open spec fn branch_texts(indent: nat, branches: Seq<(Seq<char>, Seq<char>)>) -> Seq<Seq<char>> {
    Seq::new(
        branches.len(),
        |i: int|
            "if "@ + branches[i].0 + " {\n"@ + indent_text(indent + 1) + branches[i].1 + "\n"@
                + indent_text(indent) + "}"@,
    )
}

/// The arms of a `match`, one line each.
pub open spec fn arm_lines(arms: Seq<(Seq<char>, Seq<char>)>) -> Seq<Seq<char>> {
    Seq::new(arms.len(), |i: int| "    "@ + arms[i].0 + " => "@ + arms[i].1 + ",\n"@)
}

/// The text of an expression in value position, at the given indentation depth
/// and with the given structs defined; `None` where the node has no such text:
/// a `Program` or a struct definition in value position, an unregistered struct
/// or a wrong number of fields, a wrong number of arguments or of lambda
/// parameters for `Map`, `Filter` and `Fold`, a pattern without spelling, or
/// an indentation depth beyond the machine's word.
pub open spec fn value_text(e: ExprView, indent: nat, table: StructFields) -> Option<Seq<char>>
    decreases e,
{
    match e {
        ExprView::Program(_) => None,
        ExprView::Number(n) => Some(int_text(n as int)),
        ExprView::Float(text) => Some(text),
        ExprView::String(s) => Some("\""@ + s + "\".to_string()"@),
        ExprView::Boolean(b) => Some(bool_text(b)),
        ExprView::Identifier(name) => Some(snake_case(name)),
        ExprView::Tuple(es) => match collect(value_texts(es, indent, table)) {
            Some(parts) => Some(tuple_text(parts)),
            None => None,
        },
        ExprView::List(es) => match collect(value_texts(es, indent, table)) {
            Some(parts) => Some("vec!["@ + join(parts, ", "@) + "]"@),
            None => None,
        },
        ExprView::MapLiteral(entries) => if indent >= usize::MAX {
            None
        } else {
            match collect(pair_texts(entries, indent + 1, indent + 1, table)) {
                Some(pairs) => Some(
                    "{\n"@ + indent_text(indent + 1)
                        + "let mut map = std::collections::HashMap::new();\n"@ + concat(
                        insert_lines(indent + 1, pairs),
                    ) + indent_text(indent + 1) + "map\n"@ + indent_text(indent) + "}"@,
                ),
                None => None,
            }
        },
        ExprView::BinaryOp { left, operator, right } => match (
            value_text(*left, indent, table),
            value_text(*right, indent, table),
        ) {
            (Some(l), Some(r)) => Some(binary_text(l, operator, r)),
            _ => None,
        },
        ExprView::FunctionCall { function, arguments } => match *function {
            ExprView::Identifier(name) => call_text(name, arguments, indent, table),
            _ => Some("/* unsupported function call */"@),
        },
        ExprView::Cond { conditions, default_statements } => if conditions.len() == 0
            && default_statements is None {
            Some(Seq::empty())
        } else if indent >= usize::MAX {
            None
        } else {
            match (
                collect(pair_texts(conditions, indent, indent + 1, table)),
                default_statements,
            ) {
                (Some(branches), None) => Some(join(branch_texts(indent, branches), " else "@)),
                (Some(branches), Some(d)) => match value_text(*d, indent + 1, table) {
                    Some(dt) => Some(
                        join(branch_texts(indent, branches), " else "@) + " else {\n"@
                            + indent_text(indent + 1) + dt + "\n"@ + indent_text(indent) + "}"@,
                    ),
                    None => None,
                },
                _ => None,
            }
        },
        ExprView::LogCall { level, message } => match value_text(*message, indent, table) {
            Some(m) => Some(log_macro_text(level) + "("@ + m + ")"@),
            None => None,
        },
        ExprView::FunctionDefinition { .. } => Some(
            "/* function definitions not supported as values */"@,
        ),
        ExprView::OptionNone => Some("None"@),
        ExprView::OptionSome { value } => match value_text(*value, indent, table) {
            Some(v) => Some("Some("@ + v + ")"@),
            None => None,
        },
        ExprView::ResultOk { value } => match value_text(*value, indent, table) {
            Some(v) => Some("Ok("@ + v + ")"@),
            None => None,
        },
        ExprView::ResultErr { error } => match value_text(*error, indent, table) {
            Some(v) => Some("Err("@ + v + ")"@),
            None => None,
        },
        ExprView::Match { value, arms } => match (
            value_text(*value, indent, table),
            collect(arm_texts(arms, indent, table)),
        ) {
            (Some(v), Some(lines)) => Some("match "@ + v + " {\n"@ + concat(arm_lines(lines)) + "}"@),
            _ => None,
        },
        ExprView::Lambda { parameters, body } => match value_text(*body, indent, table) {
            Some(b) => Some("|"@ + join(snake_names(parameters), ", "@) + "| "@ + b),
            None => None,
        },
        ExprView::StructDefinition { .. } => None,
        ExprView::StructInstantiation { struct_name, field_values } => if table.contains_key(
            struct_name,
        ) && table[struct_name].len() == field_values.len() {
            match collect(value_texts(field_values, indent, table)) {
                Some(parts) => Some(struct_literal_text(struct_name, table[struct_name], parts)),
                None => None,
            }
        } else {
            None
        },
    }
}

/// The texts of a sequence of expressions in value position.
pub open spec fn value_texts(es: Seq<ExprView>, indent: nat, table: StructFields) -> Seq<
    Option<Seq<char>>,
>
    decreases es, 0nat,
{
    Seq::new(
        es.len(),
        |i: int|
            if 0 <= i < es.len() {
                value_text(es[i], indent, table)
            } else {
                None
            },
    )
}

/// Both texts of a pair of expressions, if both exist.
pub open spec fn both(a: Option<Seq<char>>, b: Option<Seq<char>>) -> Option<(Seq<char>, Seq<char>)> {
    match (a, b) {
        (Some(x), Some(y)) => Some((x, y)),
        _ => None,
    }
}

/// The texts of both expressions of each pair, the first at depth `first_indent`
/// and the second at depth `second_indent`.
pub open spec fn pair_texts(
    pairs: Seq<(ExprView, ExprView)>,
    first_indent: nat,
    second_indent: nat,
    table: StructFields,
) -> Seq<Option<(Seq<char>, Seq<char>)>>
    decreases pairs,
{
    Seq::new(
        pairs.len(),
        |i: int|
            if 0 <= i < pairs.len() {
                both(
                    value_text(pairs[i].0, first_indent, table),
                    value_text(pairs[i].1, second_indent, table),
                )
            } else {
                None
            },
    )
}

/// The texts of pattern and result of each arm of a `match`.
pub open spec fn arm_texts(
    arms: Seq<(PatternView, ExprView)>,
    indent: nat,
    table: StructFields,
) -> Seq<Option<(Seq<char>, Seq<char>)>>
    decreases arms,
{
    Seq::new(
        arms.len(),
        |i: int|
            if 0 <= i < arms.len() {
                both(pattern_text(arms[i].0), value_text(arms[i].1, indent, table))
            } else {
                None
            },
    )
}

/// An iterator chain over `list`: the adapter applied to `callee`, then what follows.
pub open spec fn chain_text(
    list: Seq<char>,
    adapter: Seq<char>,
    callee: Seq<char>,
    rest: Seq<char>,
) -> Seq<char> {
    list + adapter + callee + rest
}

/// The text of a call of `name` in value position: the built-ins `Tuple`, `Map`,
/// `Filter`, `Fold` and `Print`, a struct constructor where `name` is a
/// registered struct, and an ordinary call of the snake-cased name otherwise.
/// `Map`, `Filter` and `Fold` inline a literal lambda's parameters and body.
pub open spec fn call_text(
    name: Seq<char>,
    arguments: Seq<ExprView>,
    indent: nat,
    table: StructFields,
) -> Option<Seq<char>>
    decreases arguments, 1nat,
{
    if name == "Tuple"@ {
        match collect(value_texts(arguments, indent, table)) {
            Some(parts) => Some(tuple_text(parts)),
            None => None,
        }
    } else if name == "Map"@ {
        if arguments.len() != 2 {
            None
        } else {
            match value_text(arguments[1], indent, table) {
                None => None,
                Some(list) => match arguments[0] {
                    ExprView::Lambda { parameters, body } => if parameters.len() == 1 {
                        match value_text(*body, indent, table) {
                            Some(b) => Some(
                                chain_text(
                                    list,
                                    ".into_iter().map("@,
                                    "|"@ + snake_case(parameters[0].name) + "| "@ + b,
                                    ").collect::<Vec<_>>()"@,
                                ),
                            ),
                            None => None,
                        }
                    } else {
                        None
                    },
                    _ => match value_text(arguments[0], indent, table) {
                        Some(f) => Some(
                            chain_text(list, ".into_iter().map("@, f, ").collect::<Vec<_>>()"@),
                        ),
                        None => None,
                    },
                },
            }
        }
    } else if name == "Filter"@ {
        if arguments.len() != 2 {
            None
        } else {
            match (
                value_text(arguments[0], indent, table),
                value_text(arguments[1], indent, table),
            ) {
                (Some(f), Some(list)) => match arguments[0] {
                    ExprView::Lambda { parameters, body } => if parameters.len() == 1 {
                        match value_text(*body, indent, table) {
                            Some(b) => Some(
                                chain_text(
                                    list,
                                    ".into_iter().filter("@,
                                    "|&"@ + snake_case(parameters[0].name) + "| "@ + b,
                                    ").collect::<Vec<_>>()"@,
                                ),
                            ),
                            None => None,
                        }
                    } else {
                        None
                    },
                    _ => Some(
                        chain_text(list, ".into_iter().filter("@, f, ").collect::<Vec<_>>()"@),
                    ),
                },
                _ => None,
            }
        }
    } else if name == "Fold"@ {
        if arguments.len() != 3 {
            None
        } else {
            match (
                value_text(arguments[1], indent, table),
                value_text(arguments[2], indent, table),
            ) {
                (Some(init), Some(list)) => match arguments[0] {
                    ExprView::Lambda { parameters, body } => if parameters.len() == 2 {
                        match value_text(*body, indent, table) {
                            Some(b) => Some(
                                chain_text(
                                    list,
                                    ".into_iter().fold("@ + init + ", "@,
                                    "|"@ + snake_case(parameters[0].name) + ", "@ + snake_case(
                                        parameters[1].name,
                                    ) + "| "@ + b,
                                    ")"@,
                                ),
                            ),
                            None => None,
                        }
                    } else {
                        None
                    },
                    _ => match value_text(arguments[0], indent, table) {
                        Some(f) => Some(
                            chain_text(list, ".into_iter().fold("@ + init + ", "@, f, ")"@),
                        ),
                        None => None,
                    },
                },
                _ => None,
            }
        }
    } else if name == "Print"@ {
        if indent >= usize::MAX {
            None
        } else {
            match collect(value_texts(arguments, indent + 1, table)) {
                Some(parts) => Some(
                    "{\n"@ + indent_text(indent + 1) + println_text(
                        print_placeholders(arguments, table),
                        parts,
                    ) + indent_text(indent) + "}"@,
                ),
                None => None,
            }
        }
    } else if table.contains_key(name) {
        if table[name].len() != arguments.len() {
            None
        } else {
            match collect(value_texts(arguments, indent, table)) {
                Some(parts) => Some(struct_literal_text(name, table[name], parts)),
                None => None,
            }
        }
    } else {
        match collect(value_texts(arguments, indent, table)) {
            Some(parts) => Some(snake_case(name) + "("@ + join(parts, ", "@) + ")"@),
            None => None,
        }
    }
}


/// The declared type of the first parameter called `name`, searching from position `i`.
pub open spec fn first_param_type(params: Seq<TypeAnnotationView>, name: Seq<char>, i: int) -> Option<
    TypeView,
>
    decreases params.len() - i,
{
    if i < 0 || i >= params.len() {
        None
    } else if params[i].name == name {
        Some(params[i].type_)
    } else {
        first_param_type(params, name, i + 1)
    }
}

/// Whether `t` spells one of Rust's numeric primitive types.
pub open spec fn is_numeric_name(t: Seq<char>) -> bool {
    t == "i8"@ || t == "i16"@ || t == "i32"@ || t == "i64"@ || t == "i128"@ || t == "isize"@ || t
        == "u8"@ || t == "u16"@ || t == "u32"@ || t == "u64"@ || t == "u128"@ || t == "usize"@ || t
        == "f32"@ || t == "f64"@
}

/// The return type that a function's signature declares for a body: read off
/// the body's outer shape, with the parameters' declared types for identifiers.
pub open spec fn return_type_text(e: ExprView, params: Seq<TypeAnnotationView>) -> Seq<char>
    decreases e,
{
    match e {
        ExprView::Number(_) => "i32"@,
        ExprView::Float(_) => "f64"@,
        ExprView::String(_) => "String"@,
        ExprView::Boolean(_) => "bool"@,
        ExprView::Tuple(es) => if es.len() == 0 {
            "()"@
        } else {
            "("@ + join(return_type_texts(es, params), ", "@) + ")"@
        },
        ExprView::List(_) => "Vec<i32>"@,
        ExprView::MapLiteral(_) => "HashMap<String, String>"@,
        ExprView::Identifier(name) => match first_param_type(params, name, 0) {
            Some(t) => type_text(t),
            None => "()"@,
        },
        ExprView::BinaryOp { left, operator, .. } => match operator {
            Operator::Add | Operator::Subtract | Operator::Multiply | Operator::Divide => {
                if is_numeric_name(return_type_text(*left, params)) {
                    return_type_text(*left, params)
                } else {
                    "i32"@
                }
            },
            _ => "i32"@,
        },
        ExprView::OptionNone => "Option<()>"@,
        ExprView::OptionSome { value } => "Option<"@ + return_type_text(*value, params) + ">"@,
        ExprView::ResultOk { value } => "Result<"@ + return_type_text(*value, params) + ", ()>"@,
        ExprView::ResultErr { error } => "Result<(), "@ + return_type_text(*error, params) + ">"@,
        _ => "()"@,
    }
}

/// The declared return types for a sequence of bodies.
pub open spec fn return_type_texts(es: Seq<ExprView>, params: Seq<TypeAnnotationView>) -> Seq<
    Seq<char>,
>
    decreases es,
{
    Seq::new(
        es.len(),
        |i: int|
            if 0 <= i < es.len() {
                return_type_text(es[i], params)
            } else {
                Seq::empty()
            },
    )
}

/// `name: Type` for each parameter.
pub open spec fn param_decls(params: Seq<TypeAnnotationView>) -> Seq<Seq<char>> {
    Seq::new(params.len(), |i: int| snake_case(params[i].name) + ": "@ + type_text(params[i].type_))
}

/// A function item: signature with snake-cased names, the return type unless it
/// is the unit type, and the body as the function's value.
pub open spec fn function_text(
    name: Seq<char>,
    params: Seq<TypeAnnotationView>,
    body: ExprView,
    table: StructFields,
) -> Option<Seq<char>> {
    match value_text(body, 1, table) {
        Some(b) => Some(
            "fn "@ + snake_case(name) + "("@ + join(param_decls(params), ", "@) + ")"@ + (
            if return_type_text(body, params) != "()"@ {
                " -> "@ + return_type_text(body, params)
            } else {
                Seq::empty()
            }) + " {\n"@ + indent_text(1) + b + "\n"@ + "}\n"@,
        ),
        None => None,
    }
}

/// The field declarations of a struct item, one line each.
pub open spec fn field_lines(fields: Seq<TypeAnnotationView>) -> Seq<Seq<char>> {
    Seq::new(
        fields.len(),
        |i: int|
            indent_text(1) + "pub "@ + snake_case(fields[i].name) + ": "@ + type_text(
                fields[i].type_,
            ) + ",\n"@,
    )
}

/// A struct item with its derives.
pub open spec fn struct_text(name: Seq<char>, fields: Seq<TypeAnnotationView>) -> Seq<char> {
    "#[derive(Debug, Clone, PartialEq)]\n"@ + "pub struct "@ + name + " {\n"@ + concat(
        field_lines(fields),
    ) + "}\n"@
}

/// Whether the expression is a call of the built-in `Print`.
pub open spec fn is_print_call(e: ExprView) -> bool {
    e is FunctionCall && *e->FunctionCall_function == ExprView::Identifier("Print"@)
}

/// The text of an expression in statement position: a `Print` call becomes a
/// `println!`, anything else its value followed by a semicolon.
pub open spec fn statement_text(e: ExprView, indent: nat, table: StructFields) -> Option<Seq<char>> {
    if is_print_call(e) {
        match collect(value_texts(e->FunctionCall_arguments, indent, table)) {
            Some(parts) => Some(
                indent_text(indent) + println_text(
                    print_placeholders(e->FunctionCall_arguments, table),
                    parts,
                ),
            ),
            None => None,
        }
    } else {
        match value_text(e, indent, table) {
            Some(v) => Some(indent_text(indent) + v + ";\n"@),
            None => None,
        }
    }
}

/// Whether the expression is a top-level definition: a function or a struct.
pub open spec fn is_definition(e: ExprView) -> bool {
    e is FunctionDefinition || e is StructDefinition
}

/// The text of a top-level item and the structs known after it. A struct
/// definition registers its field names, replacing an earlier struct of the name.
pub open spec fn item_text(e: ExprView, table: StructFields) -> (Option<Seq<char>>, StructFields) {
    match e {
        ExprView::FunctionDefinition { name, parameters, body } => (
            function_text(name, parameters, *body, table),
            table,
        ),
        ExprView::StructDefinition { name, fields } => (
            Some(struct_text(name, fields)),
            table.insert(name, snake_names(fields)),
        ),
        _ => (statement_text(e, 0, table), table),
    }
}

/// The entry point that is emitted where there is no statement.
pub open spec fn stub_main_text() -> Seq<char> {
    "fn main() {\n    // Stub main function for compilation\n}\n"@
}

/// `acc` followed by the definitions among `es[i..]` in order, each with an
/// empty line after it, and the structs known afterwards. Generation stops at
/// the first definition without text.
pub open spec fn definitions_text(
    es: Seq<ExprView>,
    i: int,
    table: StructFields,
    acc: Seq<char>,
) -> (Option<Seq<char>>, StructFields)
    decreases es.len() - i,
{
    if i < 0 || i >= es.len() {
        (Some(acc), table)
    } else if is_definition(es[i]) {
        match item_text(es[i], table).0 {
            Some(t) => definitions_text(es, i + 1, item_text(es[i], table).1, acc + t + "\n"@),
            None => (None, item_text(es[i], table).1),
        }
    } else {
        definitions_text(es, i + 1, table, acc)
    }
}

/// `acc` followed by the statements among `es[i..]` in order, one step indented.
pub open spec fn statements_text(
    es: Seq<ExprView>,
    i: int,
    table: StructFields,
    acc: Seq<char>,
) -> Option<Seq<char>>
    decreases es.len() - i,
{
    if i < 0 || i >= es.len() {
        Some(acc)
    } else if is_definition(es[i]) {
        statements_text(es, i + 1, table, acc)
    } else {
        match statement_text(es[i], 1, table) {
            Some(t) => statements_text(es, i + 1, table, acc + t),
            None => None,
        }
    }
}

/// Whether some expression of `es` is a statement.
pub open spec fn has_statement(es: Seq<ExprView>) -> bool {
    exists|i: int| 0 <= i < es.len() && !is_definition(#[trigger] es[i])
}

/// The complete program for an expression, and the structs known afterwards.
///
/// A `Program` yields its definitions first, in order, then an entry point
/// that holds its statements in order; the statements see every struct of the
/// program. A single definition is followed by the stub entry point, and any
/// other expression becomes the one statement of the entry point.
pub open spec fn program_text(e: ExprView, table: StructFields) -> (Option<Seq<char>>, StructFields) {
    match e {
        ExprView::Program(es) => {
            let (defs, after) = definitions_text(es, 0, table, Seq::empty());
            match defs {
                None => (None, after),
                Some(d) => if has_statement(es) {
                    match statements_text(es, 0, after, d + "fn main() {\n"@) {
                        Some(body) => (Some(body + "}\n"@), after),
                        None => (None, after),
                    }
                } else {
                    (Some(d + stub_main_text()), after)
                },
            }
        },
        ExprView::FunctionDefinition { .. } | ExprView::StructDefinition { .. } => {
            match item_text(e, table).0 {
                Some(t) => (Some(t + "\n"@ + stub_main_text()), item_text(e, table).1),
                None => (None, item_text(e, table).1),
            }
        },
        _ => match statement_text(e, 1, table) {
            Some(t) => (Some("fn main() {\n"@ + t + "}\n"@), table),
            None => (None, table),
        },
    }
}

/// The views of a sequence of string pairs, element by element.
pub open spec fn string_pair_views(v: Seq<(String, String)>) -> Seq<(Seq<char>, Seq<char>)> {
    Seq::new(v.len(), |i: int| (v[i].0@, v[i].1@))
}

/// Converts a PascalCase or camelCase name to snake case.
pub fn to_snake_case(s: &str) -> (r: String)
    ensures
        r@ == snake_case(s@),
{
    let cs = chars_of(s);
    let mut out = String::new();
    let mut prev_is_upper = false;
    let mut i: usize = 0;
    while i < cs.len()
        invariant
            0 <= i <= cs.len(),
            cs@ == s@,
            out@ == snake_case(cs@.take(i as int)),
            prev_is_upper == (i > 0 && is_uppercase(cs[i - 1])),
        decreases cs.len() - i,
    {
        let c = cs[i];
        proof {
            assert(cs@.take(i + 1).drop_last() =~= cs@.take(i as int));
            assert(snake_piece(cs@.take(i + 1), i as int) == snake_piece(cs@, i as int));
        }
        let ghost before = out@;
        if char_is_uppercase(c) {
            if i > 0 && !prev_is_upper {
                push_char(&mut out, '_');
            }
            push_char(&mut out, to_ascii_lowercase(c));
            prev_is_upper = true;
        } else {
            push_char(&mut out, c);
            prev_is_upper = false;
        }
        assert(out@ =~= before + snake_piece(cs@, i as int));
        i += 1;
    }
    assert(cs@.take(cs.len() as int) =~= cs@);
    out
}


/// `std::fmt::Error`, the error of the generator's results: a marker that
/// carries no data.
#[verifier::external_type_specification]
#[verifier::external_body]
pub struct ExFmtError(std::fmt::Error);

/// Makes the one value of `std::fmt::Error`, a unit struct without data.
#[verifier::external_body]
fn fmt_error() -> std::fmt::Error {
    std::fmt::Error
}

/// A generation result agrees with a specified text: the same text where there
/// is one, a failure where there is none.
pub open spec fn is_text(r: Result<String, std::fmt::Error>, t: Option<Seq<char>>) -> bool {
    match r {
        Ok(s) => t == Some(s@),
        Err(_) => t is None,
    }
}

/// As [`is_text`], for a sequence of texts.
pub open spec fn are_texts(r: Result<Vec<String>, std::fmt::Error>, t: Option<Seq<Seq<char>>>) -> bool {
    match r {
        Ok(v) => t == Some(string_views(v@)),
        Err(_) => t is None,
    }
}

/// As [`is_text`], for a sequence of pairs of texts.
pub open spec fn are_text_pairs(
    r: Result<Vec<(String, String)>, std::fmt::Error>,
    t: Option<Seq<(Seq<char>, Seq<char>)>>,
) -> bool {
    match r {
        Ok(v) => t == Some(string_pair_views(v@)),
        Err(_) => t is None,
    }
}

/// Two texts, one after the other.
fn cat2(a: &str, b: &str) -> (r: String)
    ensures
        r@ == a@ + b@,
{
    let mut out = String::from_str(a);
    out.append(b);
    out
}

/// Three texts, one after another.
fn cat3(a: &str, b: &str, c: &str) -> (r: String)
    ensures
        r@ == a@ + b@ + c@,
{
    let mut out = String::from_str(a);
    out.append(b);
    out.append(c);
    out
}

/// Five texts, one after another.
fn cat5(a: &str, b: &str, c: &str, d: &str, e: &str) -> (r: String)
    ensures
        r@ == a@ + b@ + c@ + d@ + e@,
{
    let mut out = String::from_str(a);
    out.append(b);
    out.append(c);
    out.append(d);
    out.append(e);
    out
}

/// Renders syntax trees as Rust source text. It remembers the structs whose
/// definitions it has generated, to recognise their constructors later.
pub struct RustCodeGenerator {
    struct_definitions: NameTable<Vec<String>>,
}

impl RustCodeGenerator {
    /// The structs defined so far, each with its field names in snake case.
    pub closed spec fn structs(&self) -> StructFields {
        self.struct_definitions@
    }

    /// A generator that knows no struct.
    pub fn new() -> (r: Self)
        ensures
            r.structs() == Map::<Seq<char>, Seq<Seq<char>>>::empty(),
    {
        RustCodeGenerator { struct_definitions: NameTable::new() }
    }

    /// The Rust spelling of a type.
    #[verifier::rlimit(40)]
    pub fn type_to_rust(&self, ty: &Type) -> (r: String)
        ensures
            r@ == type_text(ty@),
        decreases ty, 1nat,
    {
        match ty {
            Type::Int8 => String::from_str("i8"),
            Type::Int16 => String::from_str("i16"),
            Type::Int32 => String::from_str("i32"),
            Type::Int64 => String::from_str("i64"),
            Type::Int128 => String::from_str("i128"),
            Type::Int => String::from_str("isize"),
            Type::UInt8 => String::from_str("u8"),
            Type::UInt16 => String::from_str("u16"),
            Type::UInt32 => String::from_str("u32"),
            Type::UInt64 => String::from_str("u64"),
            Type::UInt128 => String::from_str("u128"),
            Type::UInt => String::from_str("usize"),
            Type::Float32 => String::from_str("f32"),
            Type::Float64 => String::from_str("f64"),
            Type::Bool => String::from_str("bool"),
            Type::Char => String::from_str("char"),
            Type::String => String::from_str("String"),
            Type::Tuple(types) => {
                assert(ty@->Tuple_0 =~= type_views(types@));
                if types.len() == 0 {
                    String::from_str("()")
                } else {
                    let parts = self.types_to_rust(types);
                    let joined = join_strings(&parts, ", ");
                    cat3("(", joined.as_str(), ")")
                }
            },
            Type::List(inner) => {
                let t = self.type_to_rust(inner);
                cat3("Vec<", t.as_str(), ">")
            },
            Type::Array(inner, size) => {
                let t = self.type_to_rust(inner);
                let n = usize_to_text(*size);
                cat5("[", t.as_str(), "; ", n.as_str(), "]")
            },
            Type::Slice(inner) => {
                let t = self.type_to_rust(inner);
                cat3("&[", t.as_str(), "]")
            },
            Type::HashMap(key, value) => {
                let k = self.type_to_rust(key);
                let v = self.type_to_rust(value);
                cat5("std::collections::HashMap<", k.as_str(), ", ", v.as_str(), ">")
            },
            Type::HashSet(inner) => {
                let t = self.type_to_rust(inner);
                cat3("std::collections::HashSet<", t.as_str(), ">")
            },
            Type::BTreeMap(key, value) => {
                let k = self.type_to_rust(key);
                let v = self.type_to_rust(value);
                cat5("std::collections::BTreeMap<", k.as_str(), ", ", v.as_str(), ">")
            },
            Type::BTreeSet(inner) => {
                let t = self.type_to_rust(inner);
                cat3("std::collections::BTreeSet<", t.as_str(), ">")
            },
            Type::Function(params, ret) => {
                assert(ty@->Function_0 =~= type_views(params@));
                let parts = self.types_to_rust(params);
                let joined = join_strings(&parts, ", ");
                let r = self.type_to_rust(ret);
                let mut out = cat3("fn(", joined.as_str(), ") -> ");
                out.append(r.as_str());
                out
            },
            Type::Option(inner) => {
                let t = self.type_to_rust(inner);
                cat3("Option<", t.as_str(), ">")
            },
            Type::Result(ok_type, err_type) => {
                let t = self.type_to_rust(ok_type);
                let e = self.type_to_rust(err_type);
                cat5("Result<", t.as_str(), ", ", e.as_str(), ">")
            },
            Type::LogLevel => String::from_str("LogLevel"),
            Type::Custom(name) => name.clone(),
        }
    }

    /// The Rust spellings of a sequence of types.
    fn types_to_rust(&self, types: &Vec<Type>) -> (r: Vec<String>)
        ensures
            string_views(r@) == type_texts(type_views(types@)),
        decreases types, 0nat,
    {
        let mut out: Vec<String> = Vec::new();
        let mut i: usize = 0;
        while i < types.len()
            invariant
                0 <= i <= types.len(),
                out.len() == i,
                forall|j: int| 0 <= j < i ==> out[j]@ == type_text(types[j]@),
            decreases types.len() - i,
        {
            out.push(self.type_to_rust(&types[i]));
            i += 1;
        }
        assert(string_views(out@) =~= type_texts(type_views(types@)));
        out
    }

    /// The Rust spelling of a pattern.
    #[verifier::rlimit(40)]
    pub fn generate_pattern(&self, pattern: &Pattern) -> (r: Result<String, std::fmt::Error>)
        ensures
            is_text(r, pattern_text(pattern@)),
        decreases pattern, 1nat,
    {
        match pattern {
            Pattern::Wildcard => Ok(String::from_str("_")),
            Pattern::Literal(expr) => match &**expr {
                Expression::Number(n) => {
                    assert(expr@ == ExprView::Number(*n));
                    Ok(i32_to_text(*n))
                },
                Expression::String(s) => {
                    assert(expr@ == ExprView::String(s@));
                    Ok(cat3("s if s == \"", s.as_str(), "\""))
                },
                Expression::Boolean(b) => {
                    assert(expr@ == ExprView::Boolean(*b));
                    Ok(bool_to_text(*b))
                },
                _ => {
                    assert(!(expr@ is Number) && !(expr@ is String) && !(expr@ is Boolean));
                    Err(fmt_error())
                },
            },
            Pattern::Variable(name) => Ok(to_snake_case(name.as_str())),
            Pattern::Constructor { name, patterns } => {
                assert(pattern@->Constructor_patterns =~= pattern_views(patterns@));
                if is_word(name, "Some") || is_word(name, "Ok") || is_word(name, "Err") {
                    if patterns.len() == 1 {
                        match self.generate_pattern(&patterns[0]) {
                            Ok(inner) => {
                                let mut out = cat2(name.as_str(), "(");
                                out.append(inner.as_str());
                                out.append(")");
                                Ok(out)
                            },
                            Err(e) => Err(e),
                        }
                    } else {
                        Err(fmt_error())
                    }
                } else if is_word(name, "None") {
                    Ok(String::from_str("None"))
                } else {
                    match self.generate_patterns(patterns) {
                        Ok(parts) => {
                            let joined = join_strings(&parts, ", ");
                            let mut out = cat2(name.as_str(), "(");
                            out.append(joined.as_str());
                            out.append(")");
                            Ok(out)
                        },
                        Err(e) => Err(e),
                    }
                }
            },
            Pattern::Tuple(patterns) => {
                assert(pattern@->Tuple_0 =~= pattern_views(patterns@));
                match self.generate_patterns(patterns) {
                    Ok(parts) => Ok(tuple_of(&parts)),
                    Err(e) => Err(e),
                }
            },
            Pattern::List(patterns) => {
                assert(pattern@->List_0 =~= pattern_views(patterns@));
                match self.generate_patterns(patterns) {
                    Ok(parts) => {
                        let joined = join_strings(&parts, ", ");
                        Ok(cat3("[", joined.as_str(), "]"))
                    },
                    Err(e) => Err(e),
                }
            },
        }
    }

    /// The text of an expression in value position at depth `indent`.
    #[verifier::rlimit(40)]
    pub fn generate_expression_value(&self, expr: &Expression, indent: usize) -> (r: Result<
        String,
        std::fmt::Error,
    >)
        ensures
            is_text(r, value_text(expr@, indent as nat, self.structs())),
        decreases expr, 2nat,
    {
        match expr {
            Expression::Program(_) => Err(fmt_error()),
            Expression::Number(n) => Ok(i32_to_text(*n)),
            Expression::Float(text) => Ok(text.clone()),
            Expression::String(s) => Ok(cat3("\"", s.as_str(), "\".to_string()")),
            Expression::Boolean(b) => Ok(bool_to_text(*b)),
            Expression::Identifier(name) => Ok(to_snake_case(name.as_str())),
            Expression::Tuple(elements) => {
                assert(expr@->Tuple_0 =~= expr_views(elements@));
                match self.generate_values(elements, indent) {
                    Ok(parts) => Ok(tuple_of(&parts)),
                    Err(e) => Err(e),
                }
            },
            Expression::List(elements) => {
                assert(expr@->List_0 =~= expr_views(elements@));
                match self.generate_values(elements, indent) {
                    Ok(parts) => {
                        let joined = join_strings(&parts, ", ");
                        Ok(cat3("vec![", joined.as_str(), "]"))
                    },
                    Err(e) => Err(e),
                }
            },
            Expression::MapLiteral(entries) => {
                assert(expr@->MapLiteral_0 =~= pair_views(entries@));
                if indent == usize::MAX {
                    return Err(fmt_error());
                }
                match self.generate_pairs(entries, indent + 1, indent + 1) {
                    Ok(pairs) => {
                        let inner = make_indent(indent + 1);
                        let lines = insert_lines_of(indent + 1, &pairs);
                        let mut out = cat3(
                            "{\n",
                            inner.as_str(),
                            "let mut map = std::collections::HashMap::new();\n",
                        );
                        out.append(lines.as_str());
                        out.append(inner.as_str());
                        out.append("map\n");
                        out.append(make_indent(indent).as_str());
                        out.append("}");
                        Ok(out)
                    },
                    Err(e) => Err(e),
                }
            },
            Expression::BinaryOp { left, operator, right } => {
                let l = match self.generate_expression_value(left, indent) {
                    Ok(l) => l,
                    Err(e) => { return Err(e); },
                };
                let r = match self.generate_expression_value(right, indent) {
                    Ok(r) => r,
                    Err(e) => { return Err(e); },
                };
                Ok(binary_of(l.as_str(), *operator, r.as_str()))
            },
            Expression::FunctionCall { function, arguments } => {
                assert(expr@->FunctionCall_arguments =~= expr_views(arguments@));
                match &**function {
                    Expression::Identifier(name) => {
                        assert(function@ == ExprView::Identifier(name@));
                        self.generate_call(name, arguments, indent)
                    },
                    _ => {
                        assert(!(function@ is Identifier));
                        Ok(String::from_str("/* unsupported function call */"))
                    },
                }
            },
            Expression::Cond { conditions, default_statements } => {
                assert(expr@->Cond_conditions =~= pair_views(conditions@));
                if conditions.len() == 0 && default_statements.is_none() {
                    return Ok(String::new());
                }
                if indent == usize::MAX {
                    return Err(fmt_error());
                }
                let branches = match self.generate_pairs(conditions, indent, indent + 1) {
                    Ok(b) => b,
                    Err(e) => { return Err(e); },
                };
                let mut out = branches_of(indent, &branches);
                match default_statements {
                    Some(default_expr) => {
                        match self.generate_expression_value(default_expr, indent + 1) {
                            Ok(d) => {
                                out.append(" else {\n");
                                out.append(make_indent(indent + 1).as_str());
                                out.append(d.as_str());
                                out.append("\n");
                                out.append(make_indent(indent).as_str());
                                out.append("}");
                                Ok(out)
                            },
                            Err(e) => Err(e),
                        }
                    },
                    None => Ok(out),
                }
            },
            Expression::LogCall { level, message } => {
                match self.generate_expression_value(message, indent) {
                    Ok(m) => {
                        let mut out = log_macro_of(*level);
                        out.append("(");
                        out.append(m.as_str());
                        out.append(")");
                        Ok(out)
                    },
                    Err(e) => Err(e),
                }
            },
            Expression::FunctionDefinition { .. } => Ok(
                String::from_str("/* function definitions not supported as values */"),
            ),
            Expression::OptionNone => Ok(String::from_str("None")),
            Expression::OptionSome { value } => {
                match self.generate_expression_value(value, indent) {
                    Ok(v) => Ok(cat3("Some(", v.as_str(), ")")),
                    Err(e) => Err(e),
                }
            },
            Expression::ResultOk { value } => {
                match self.generate_expression_value(value, indent) {
                    Ok(v) => Ok(cat3("Ok(", v.as_str(), ")")),
                    Err(e) => Err(e),
                }
            },
            Expression::ResultErr { error } => {
                match self.generate_expression_value(error, indent) {
                    Ok(v) => Ok(cat3("Err(", v.as_str(), ")")),
                    Err(e) => Err(e),
                }
            },
            Expression::Match { value, arms } => {
                assert(expr@->Match_arms =~= arm_views(arms@));
                let v = match self.generate_expression_value(value, indent) {
                    Ok(v) => v,
                    Err(e) => { return Err(e); },
                };
                match self.generate_arms(arms, indent) {
                    Ok(lines) => {
                        let body = arm_lines_of(&lines);
                        let mut out = cat3("match ", v.as_str(), " {\n");
                        out.append(body.as_str());
                        out.append("}");
                        Ok(out)
                    },
                    Err(e) => Err(e),
                }
            },
            Expression::Lambda { parameters, body } => {
                match self.generate_expression_value(body, indent) {
                    Ok(b) => {
                        let names = snake_names_of(parameters);
                        let joined = join_strings(&names, ", ");
                        let mut out = cat3("|", joined.as_str(), "| ");
                        out.append(b.as_str());
                        Ok(out)
                    },
                    Err(e) => Err(e),
                }
            },
            Expression::StructDefinition { .. } => Err(fmt_error()),
            Expression::StructInstantiation { struct_name, field_values } => {
                assert(expr@->StructInstantiation_field_values =~= expr_views(field_values@));
                match self.struct_definitions.get(struct_name) {
                    Some(field_names) => {
                        assert(field_names.deep_view() =~= string_views(field_names@));
                        if field_names.len() != field_values.len() {
                            return Err(fmt_error());
                        }
                        match self.generate_values(field_values, indent) {
                            Ok(parts) => Ok(
                                struct_literal_of(struct_name.as_str(), field_names, &parts),
                            ),
                            Err(e) => Err(e),
                        }
                    },
                    None => Err(fmt_error()),
                }
            },
        }
    }

    /// The text of a call of `name` in value position at depth `indent`.
    #[verifier::rlimit(40)]
    fn generate_call(&self, name: &String, arguments: &Vec<Expression>, indent: usize) -> (r: Result<
        String,
        std::fmt::Error,
    >)
        ensures
            is_text(r, call_text(name@, expr_views(arguments@), indent as nat, self.structs())),
        decreases arguments, 1nat,
    {
        if is_word(name, "Tuple") {
            match self.generate_values(arguments, indent) {
                Ok(parts) => Ok(tuple_of(&parts)),
                Err(e) => Err(e),
            }
        } else if is_word(name, "Map") {
            if arguments.len() != 2 {
                return Err(fmt_error());
            }
            let list = match self.generate_expression_value(&arguments[1], indent) {
                Ok(l) => l,
                Err(e) => { return Err(e); },
            };
            match &arguments[0] {
                Expression::Lambda { parameters, body } => {
                    assert(arguments[0]@ == ExprView::Lambda {
                        parameters: annotation_views(parameters@),
                        body: Box::new(body@),
                    });
                    if parameters.len() == 1 {
                        match self.generate_expression_value(body, indent) {
                            Ok(b) => {
                                let param = to_snake_case(parameters[0].name.as_str());
                                let mut callee = cat3("|", param.as_str(), "| ");
                                callee.append(b.as_str());
                                Ok(
                                    chain_of(
                                        list.as_str(),
                                        ".into_iter().map(",
                                        callee.as_str(),
                                        ").collect::<Vec<_>>()",
                                    ),
                                )
                            },
                            Err(e) => Err(e),
                        }
                    } else {
                        Err(fmt_error())
                    }
                },
                _ => {
                    assert(!(arguments[0]@ is Lambda));
                    match self.generate_expression_value(&arguments[0], indent) {
                        Ok(f) => Ok(
                            chain_of(
                                list.as_str(),
                                ".into_iter().map(",
                                f.as_str(),
                                ").collect::<Vec<_>>()",
                            ),
                        ),
                        Err(e) => Err(e),
                    }
                },
            }
        } else if is_word(name, "Filter") {
            if arguments.len() != 2 {
                return Err(fmt_error());
            }
            let func = match self.generate_expression_value(&arguments[0], indent) {
                Ok(f) => f,
                Err(e) => { return Err(e); },
            };
            let list = match self.generate_expression_value(&arguments[1], indent) {
                Ok(l) => l,
                Err(e) => { return Err(e); },
            };
            match &arguments[0] {
                Expression::Lambda { parameters, body } => {
                    assert(arguments[0]@ == ExprView::Lambda {
                        parameters: annotation_views(parameters@),
                        body: Box::new(body@),
                    });
                    if parameters.len() == 1 {
                        match self.generate_expression_value(body, indent) {
                            Ok(b) => {
                                let param = to_snake_case(parameters[0].name.as_str());
                                let mut callee = cat3("|&", param.as_str(), "| ");
                                callee.append(b.as_str());
                                Ok(
                                    chain_of(
                                        list.as_str(),
                                        ".into_iter().filter(",
                                        callee.as_str(),
                                        ").collect::<Vec<_>>()",
                                    ),
                                )
                            },
                            Err(e) => Err(e),
                        }
                    } else {
                        Err(fmt_error())
                    }
                },
                _ => {
                    assert(!(arguments[0]@ is Lambda));
                    Ok(
                        chain_of(
                            list.as_str(),
                            ".into_iter().filter(",
                            func.as_str(),
                            ").collect::<Vec<_>>()",
                        ),
                    )
                },
            }
        } else if is_word(name, "Fold") {
            if arguments.len() != 3 {
                return Err(fmt_error());
            }
            let init = match self.generate_expression_value(&arguments[1], indent) {
                Ok(v) => v,
                Err(e) => { return Err(e); },
            };
            let list = match self.generate_expression_value(&arguments[2], indent) {
                Ok(l) => l,
                Err(e) => { return Err(e); },
            };
            let adapter = cat3(".into_iter().fold(", init.as_str(), ", ");
            match &arguments[0] {
                Expression::Lambda { parameters, body } => {
                    assert(arguments[0]@ == ExprView::Lambda {
                        parameters: annotation_views(parameters@),
                        body: Box::new(body@),
                    });
                    if parameters.len() == 2 {
                        match self.generate_expression_value(body, indent) {
                            Ok(b) => {
                                let first = to_snake_case(parameters[0].name.as_str());
                                let second = to_snake_case(parameters[1].name.as_str());
                                let mut callee = cat5(
                                    "|",
                                    first.as_str(),
                                    ", ",
                                    second.as_str(),
                                    "| ",
                                );
                                callee.append(b.as_str());
                                Ok(chain_of(list.as_str(), adapter.as_str(), callee.as_str(), ")"))
                            },
                            Err(e) => Err(e),
                        }
                    } else {
                        Err(fmt_error())
                    }
                },
                _ => {
                    assert(!(arguments[0]@ is Lambda));
                    match self.generate_expression_value(&arguments[0], indent) {
                        Ok(f) => Ok(chain_of(list.as_str(), adapter.as_str(), f.as_str(), ")")),
                        Err(e) => Err(e),
                    }
                },
            }
        } else if is_word(name, "Print") {
            if indent == usize::MAX {
                return Err(fmt_error());
            }
            match self.generate_values(arguments, indent + 1) {
                Ok(parts) => {
                    let placeholders = self.placeholders_of(arguments);
                    let line = println_of(&placeholders, &parts);
                    let mut out = cat3("{\n", make_indent(indent + 1).as_str(), line.as_str());
                    out.append(make_indent(indent).as_str());
                    out.append("}");
                    Ok(out)
                },
                Err(e) => Err(e),
            }
        } else {
            match self.struct_definitions.get(name) {
                Some(field_names) => {
                    assert(field_names.deep_view() =~= string_views(field_names@));
                    if field_names.len() != arguments.len() {
                        return Err(fmt_error());
                    }
                    match self.generate_values(arguments, indent) {
                        Ok(parts) => Ok(struct_literal_of(name.as_str(), field_names, &parts)),
                        Err(e) => Err(e),
                    }
                },
                None => {
                    match self.generate_values(arguments, indent) {
                        Ok(parts) => {
                            let joined = join_strings(&parts, ", ");
                            let mut out = to_snake_case(name.as_str());
                            out.append("(");
                            out.append(joined.as_str());
                            out.append(")");
                            Ok(out)
                        },
                        Err(e) => Err(e),
                    }
                },
            }
        }
    }

    /// The texts of a sequence of expressions in value position, if every one has a text.
    fn generate_values(&self, es: &Vec<Expression>, indent: usize) -> (r: Result<
        Vec<String>,
        std::fmt::Error,
    >)
        ensures
            are_texts(r, collect(value_texts(expr_views(es@), indent as nat, self.structs()))),
            r is Ok ==> r->Ok_0.len() == es.len(),
        decreases es, 0nat,
    {
        let ghost texts = value_texts(expr_views(es@), indent as nat, self.structs());
        let mut out: Vec<String> = Vec::new();
        let mut i: usize = 0;
        while i < es.len()
            invariant
                0 <= i <= es.len(),
                out.len() == i,
                texts == value_texts(expr_views(es@), indent as nat, self.structs()),
                forall|j: int| 0 <= j < i ==> texts[j] == Some(out[j]@),
            decreases es.len() - i,
        {
            match self.generate_expression_value(&es[i], indent) {
                Ok(s) => {
                    out.push(s);
                },
                Err(e) => {
                    assert(texts[i as int] is None);
                    return Err(e);
                },
            }
            i += 1;
        }
        assert(collect(texts)->0 =~= string_views(out@));
        Ok(out)
    }

    /// The texts of both expressions of each pair, if every one has a text.
    fn generate_pairs(
        &self,
        pairs: &Vec<(Expression, Expression)>,
        first_indent: usize,
        second_indent: usize,
    ) -> (r: Result<Vec<(String, String)>, std::fmt::Error>)
        ensures
            are_text_pairs(
                r,
                collect(
                    pair_texts(
                        pair_views(pairs@),
                        first_indent as nat,
                        second_indent as nat,
                        self.structs(),
                    ),
                ),
            ),
        decreases pairs, 0nat,
    {
        let ghost texts = pair_texts(
            pair_views(pairs@),
            first_indent as nat,
            second_indent as nat,
            self.structs(),
        );
        let mut out: Vec<(String, String)> = Vec::new();
        let mut i: usize = 0;
        while i < pairs.len()
            invariant
                0 <= i <= pairs.len(),
                out.len() == i,
                texts == pair_texts(
                    pair_views(pairs@),
                    first_indent as nat,
                    second_indent as nat,
                    self.structs(),
                ),
                forall|j: int| 0 <= j < i ==> texts[j] == Some((out[j].0@, out[j].1@)),
            decreases pairs.len() - i,
        {
            let a = match self.generate_expression_value(&pairs[i].0, first_indent) {
                Ok(s) => s,
                Err(e) => {
                    assert(texts[i as int] is None);
                    return Err(e);
                },
            };
            let b = match self.generate_expression_value(&pairs[i].1, second_indent) {
                Ok(s) => s,
                Err(e) => {
                    assert(texts[i as int] is None);
                    return Err(e);
                },
            };
            out.push((a, b));
            i += 1;
        }
        assert(collect(texts)->0 =~= string_pair_views(out@));
        Ok(out)
    }

    /// The texts of pattern and result of each arm, if every one has a text.
    fn generate_arms(&self, arms: &Vec<(Pattern, Expression)>, indent: usize) -> (r: Result<
        Vec<(String, String)>,
        std::fmt::Error,
    >)
        ensures
            are_text_pairs(r, collect(arm_texts(arm_views(arms@), indent as nat, self.structs()))),
        decreases arms, 0nat,
    {
        let ghost texts = arm_texts(arm_views(arms@), indent as nat, self.structs());
        let mut out: Vec<(String, String)> = Vec::new();
        let mut i: usize = 0;
        while i < arms.len()
            invariant
                0 <= i <= arms.len(),
                out.len() == i,
                texts == arm_texts(arm_views(arms@), indent as nat, self.structs()),
                forall|j: int| 0 <= j < i ==> texts[j] == Some((out[j].0@, out[j].1@)),
            decreases arms.len() - i,
        {
            let a = match self.generate_pattern(&arms[i].0) {
                Ok(s) => s,
                Err(e) => {
                    assert(texts[i as int] is None);
                    return Err(e);
                },
            };
            let b = match self.generate_expression_value(&arms[i].1, indent) {
                Ok(s) => s,
                Err(e) => {
                    assert(texts[i as int] is None);
                    return Err(e);
                },
            };
            out.push((a, b));
            i += 1;
        }
        assert(collect(texts)->0 =~= string_pair_views(out@));
        Ok(out)
    }

    /// The placeholder of each argument of a `Print`.
    fn placeholders_of(&self, args: &Vec<Expression>) -> (r: Vec<String>)
        ensures
            string_views(r@) == print_placeholders(expr_views(args@), self.structs()),
    {
        let mut out: Vec<String> = Vec::new();
        let mut i: usize = 0;
        while i < args.len()
            invariant
                0 <= i <= args.len(),
                out.len() == i,
                forall|j: int| 0 <= j < i ==> out[j]@ == print_placeholder(args[j]@, self.structs()),
            decreases args.len() - i,
        {
            let debug = match &args[i] {
                Expression::List(_) | Expression::MapLiteral(_) | Expression::Tuple(_) => true,
                Expression::FunctionCall { function, .. } => match &**function {
                    Expression::Identifier(name) => {
                        assert(function@ == ExprView::Identifier(name@));
                        is_word(name, "Map") || is_word(name, "Filter")
                            || self.struct_definitions.contains(name)
                    },
                    _ => {
                        assert(!(function@ is Identifier));
                        false
                    },
                },
                _ => false,
            };
            if debug {
                out.push(String::from_str("{:?}"));
            } else {
                out.push(String::from_str("{}"));
            }
            i += 1;
        }
        assert(string_views(out@) =~= print_placeholders(expr_views(args@), self.structs()));
        out
    }

    /// The return type that a function's signature declares for `expr` as its body.
    #[verifier::rlimit(40)]
    fn infer_return_type(&self, expr: &Expression, parameters: &Vec<TypeAnnotation>) -> (r: String)
        ensures
            r@ == return_type_text(expr@, annotation_views(parameters@)),
        decreases expr, 1nat,
    {
        match expr {
            Expression::Number(_) => String::from_str("i32"),
            Expression::Float(_) => String::from_str("f64"),
            Expression::String(_) => String::from_str("String"),
            Expression::Boolean(_) => String::from_str("bool"),
            Expression::Tuple(elements) => {
                assert(expr@->Tuple_0 =~= expr_views(elements@));
                if elements.len() == 0 {
                    String::from_str("()")
                } else {
                    let parts = self.infer_return_types(elements, parameters);
                    let joined = join_strings(&parts, ", ");
                    cat3("(", joined.as_str(), ")")
                }
            },
            Expression::List(_) => String::from_str("Vec<i32>"),
            Expression::MapLiteral(_) => String::from_str("HashMap<String, String>"),
            Expression::Identifier(name) => {
                let ghost params = annotation_views(parameters@);
                let mut i: usize = 0;
                while i < parameters.len()
                    invariant
                        0 <= i <= parameters.len(),
                        params == annotation_views(parameters@),
                        expr@ == ExprView::Identifier(name@),
                        first_param_type(params, name@, 0) == first_param_type(
                            params,
                            name@,
                            i as int,
                        ),
                    decreases parameters.len() - i,
                {
                    assert(params[i as int] == parameters[i as int]@);
                    if parameters[i].name == *name {
                        return self.type_to_rust(&parameters[i].type_);
                    }
                    i += 1;
                }
                String::from_str("()")
            },
            Expression::BinaryOp { left, operator, right: _ } => {
                let left_type = self.infer_return_type(left, parameters);
                match operator {
                    Operator::Add | Operator::Subtract | Operator::Multiply | Operator::Divide => {
                        if is_numeric_type_name(&left_type) {
                            left_type
                        } else {
                            String::from_str("i32")
                        }
                    },
                    _ => String::from_str("i32"),
                }
            },
            Expression::OptionNone => String::from_str("Option<()>"),
            Expression::OptionSome { value } => {
                let inner = self.infer_return_type(value, parameters);
                cat3("Option<", inner.as_str(), ">")
            },
            Expression::ResultOk { value } => {
                let inner = self.infer_return_type(value, parameters);
                cat3("Result<", inner.as_str(), ", ()>")
            },
            Expression::ResultErr { error } => {
                let inner = self.infer_return_type(error, parameters);
                cat3("Result<(), ", inner.as_str(), ">")
            },
            _ => String::from_str("()"),
        }
    }

    /// The declared return types for a sequence of bodies.
    fn infer_return_types(&self, es: &Vec<Expression>, parameters: &Vec<TypeAnnotation>) -> (r: Vec<
        String,
    >)
        ensures
            string_views(r@) == return_type_texts(expr_views(es@), annotation_views(parameters@)),
        decreases es, 0nat,
    {
        let mut out: Vec<String> = Vec::new();
        let mut i: usize = 0;
        while i < es.len()
            invariant
                0 <= i <= es.len(),
                out.len() == i,
                forall|j: int|
                    0 <= j < i ==> out[j]@ == return_type_text(
                        es[j]@,
                        annotation_views(parameters@),
                    ),
            decreases es.len() - i,
        {
            out.push(self.infer_return_type(&es[i], parameters));
            i += 1;
        }
        assert(string_views(out@) =~= return_type_texts(
            expr_views(es@),
            annotation_views(parameters@),
        ));
        out
    }

    /// The text of an expression in statement position at depth `indent`.
    pub fn generate_statement(&self, expr: &Expression, indent: usize) -> (r: Result<
        String,
        std::fmt::Error,
    >)
        ensures
            is_text(r, statement_text(expr@, indent as nat, self.structs())),
    {
        match expr {
            Expression::FunctionCall { function, arguments } => {
                assert(expr@->FunctionCall_arguments =~= expr_views(arguments@));
                match &**function {
                    Expression::Identifier(name) => {
                        assert(function@ == ExprView::Identifier(name@));
                        if is_word(name, "Print") {
                            return match self.generate_values(arguments, indent) {
                                Ok(parts) => {
                                    let placeholders = self.placeholders_of(arguments);
                                    let line = println_of(&placeholders, &parts);
                                    Ok(cat2(make_indent(indent).as_str(), line.as_str()))
                                },
                                Err(e) => Err(e),
                            };
                        }
                    },
                    _ => {
                        assert(!(function@ is Identifier));
                    },
                }
            },
            _ => {},
        }
        assert(!is_print_call(expr@));
        match self.generate_expression_value(expr, indent) {
            Ok(v) => Ok(cat3(make_indent(indent).as_str(), v.as_str(), ";\n")),
            Err(e) => Err(e),
        }
    }

    /// The text of a function item.
    fn generate_function_definition(
        &self,
        name: &String,
        parameters: &Vec<TypeAnnotation>,
        body: &Expression,
    ) -> (r: Result<String, std::fmt::Error>)
        ensures
            is_text(
                r,
                function_text(name@, annotation_views(parameters@), body@, self.structs()),
            ),
    {
        let mut decls: Vec<String> = Vec::new();
        let mut i: usize = 0;
        while i < parameters.len()
            invariant
                0 <= i <= parameters.len(),
                decls.len() == i,
                forall|j: int|
                    0 <= j < i ==> decls[j]@ == snake_case(parameters[j].name@) + ": "@ + type_text(
                        parameters[j].type_@,
                    ),
            decreases parameters.len() - i,
        {
            let param_name = to_snake_case(parameters[i].name.as_str());
            let param_type = self.type_to_rust(&parameters[i].type_);
            decls.push(cat3(param_name.as_str(), ": ", param_type.as_str()));
            i += 1;
        }
        assert(string_views(decls@) =~= param_decls(annotation_views(parameters@)));
        let return_type = self.infer_return_type(body, parameters);
        match self.generate_expression_value(body, 1) {
            Ok(b) => {
                let rust_name = to_snake_case(name.as_str());
                let joined = join_strings(&decls, ", ");
                let mut out = cat5("fn ", rust_name.as_str(), "(", joined.as_str(), ")");
                let arrow = if !is_word(&return_type, "()") {
                    cat2(" -> ", return_type.as_str())
                } else {
                    String::new()
                };
                out.append(arrow.as_str());
                out.append(" {\n");
                out.append(make_indent(1).as_str());
                out.append(b.as_str());
                out.append("\n");
                out.append("}\n");
                Ok(out)
            },
            Err(e) => Err(e),
        }
    }

    /// The text of a struct item. The struct's field names are registered for
    /// later constructor calls.
    pub fn generate_struct_definition(&mut self, name: &String, fields: &Vec<TypeAnnotation>) -> (r:
        String)
        ensures
            r@ == struct_text(name@, annotation_views(fields@)),
            final(self).structs() == old(self).structs().insert(
                name@,
                snake_names(annotation_views(fields@)),
            ),
    {
        let field_names = snake_names_of(fields);
        assert(field_names.deep_view() =~= string_views(field_names@));
        self.struct_definitions.insert(name.clone(), field_names);
        let inner = make_indent(1);
        let mut lines: Vec<String> = Vec::new();
        let mut i: usize = 0;
        while i < fields.len()
            invariant
                0 <= i <= fields.len(),
                lines.len() == i,
                inner@ == indent_text(1),
                forall|j: int|
                    0 <= j < i ==> lines[j]@ == indent_text(1) + "pub "@ + snake_case(
                        fields[j].name@,
                    ) + ": "@ + type_text(fields[j].type_@) + ",\n"@,
            decreases fields.len() - i,
        {
            let field_name = to_snake_case(fields[i].name.as_str());
            let field_type = self.type_to_rust(&fields[i].type_);
            let mut line = cat5(
                inner.as_str(),
                "pub ",
                field_name.as_str(),
                ": ",
                field_type.as_str(),
            );
            line.append(",\n");
            lines.push(line);
            i += 1;
        }
        assert(string_views(lines@) =~= field_lines(annotation_views(fields@)));
        let body = concat_strings(&lines);
        let mut out = cat5(
            "#[derive(Debug, Clone, PartialEq)]\n",
            "pub struct ",
            name.as_str(),
            " {\n",
            body.as_str(),
        );
        out.append("}\n");
        out
    }

    /// The text of a top-level item.
    fn generate_top_level_item(&mut self, expr: &Expression) -> (r: Result<String, std::fmt::Error>)
        ensures
            is_text(r, item_text(expr@, old(self).structs()).0),
            final(self).structs() == item_text(expr@, old(self).structs()).1,
    {
        match expr {
            Expression::FunctionDefinition { name, parameters, body } => {
                self.generate_function_definition(name, parameters, body)
            },
            Expression::StructDefinition { name, fields } => {
                Ok(self.generate_struct_definition(name, fields))
            },
            _ => self.generate_statement(expr, 0),
        }
    }

    /// Generates the complete Rust program for `expr`.
    ///
    /// Struct definitions met on the way are registered with the generator,
    /// also where generation fails later.
    #[verifier::rlimit(40)]
    pub fn generate(&mut self, expr: &Expression) -> (r: Result<String, std::fmt::Error>)
        ensures
            is_text(r, program_text(expr@, old(self).structs()).0),
            final(self).structs() == program_text(expr@, old(self).structs()).1,
    {
        match expr {
            Expression::Program(expressions) => {
                let ghost es = expr_views(expressions@);
                let ghost start = self.structs();
                assert(expr@->Program_0 =~= es);
                let mut out = String::new();
                let mut any_statement = false;
                let mut i: usize = 0;
                while i < expressions.len()
                    invariant
                        0 <= i <= expressions.len(),
                        es == expr_views(expressions@),
                        expr@ == ExprView::Program(es),
                        start == old(self).structs(),
                        definitions_text(es, 0, start, Seq::empty()) == definitions_text(
                            es,
                            i as int,
                            self.structs(),
                            out@,
                        ),
                        any_statement == exists|j: int| 0 <= j < i && !is_definition(#[trigger] es[j]),
                    decreases expressions.len() - i,
                {
                    match &expressions[i] {
                        Expression::FunctionDefinition { .. } | Expression::StructDefinition { .. } => {
                            assert(is_definition(es[i as int]));
                            match self.generate_top_level_item(&expressions[i]) {
                                Ok(t) => {
                                    out.append(t.as_str());
                                    out.append("\n");
                                },
                                Err(e) => {
                                    return Err(e);
                                },
                            }
                        },
                        _ => {
                            assert(!is_definition(es[i as int]));
                            any_statement = true;
                        },
                    }
                    i += 1;
                }
                assert(any_statement == has_statement(es));
                if !any_statement {
                    out.append("fn main() {\n    // Stub main function for compilation\n}\n");
                    return Ok(out);
                }
                let ghost defs = out@;
                out.append("fn main() {\n");
                let ghost head = out@;
                let mut k: usize = 0;
                while k < expressions.len()
                    invariant
                        0 <= k <= expressions.len(),
                        es == expr_views(expressions@),
                        expr@ == ExprView::Program(es),
                        start == old(self).structs(),
                        definitions_text(es, 0, start, Seq::empty()) == (
                            Some(defs),
                            self.structs(),
                        ),
                        has_statement(es),
                        head == defs + "fn main() {\n"@,
                        statements_text(es, 0, self.structs(), head) == statements_text(
                            es,
                            k as int,
                            self.structs(),
                            out@,
                        ),
                    decreases expressions.len() - k,
                {
                    match &expressions[k] {
                        Expression::FunctionDefinition { .. } | Expression::StructDefinition { .. } => {
                            assert(is_definition(es[k as int]));
                        },
                        _ => {
                            assert(!is_definition(es[k as int]));
                            match self.generate_statement(&expressions[k], 1) {
                                Ok(t) => {
                                    out.append(t.as_str());
                                },
                                Err(e) => {
                                    return Err(e);
                                },
                            }
                        },
                    }
                    k += 1;
                }
                out.append("}\n");
                Ok(out)
            },
            Expression::FunctionDefinition { .. } | Expression::StructDefinition { .. } => {
                match self.generate_top_level_item(expr) {
                    Ok(t) => {
                        let mut out = t;
                        out.append("\n");
                        out.append("fn main() {\n    // Stub main function for compilation\n}\n");
                        Ok(out)
                    },
                    Err(e) => Err(e),
                }
            },
            _ => {
                match self.generate_statement(expr, 1) {
                    Ok(t) => Ok(cat3("fn main() {\n", t.as_str(), "}\n")),
                    Err(e) => Err(e),
                }
            },
        }
    }

    /// The spellings of a sequence of patterns, if every one has a spelling.
    fn generate_patterns(&self, patterns: &Vec<Pattern>) -> (r: Result<Vec<String>, std::fmt::Error>)
        ensures
            are_texts(r, collect(pattern_texts(pattern_views(patterns@)))),
        decreases patterns, 0nat,
    {
        let ghost texts = pattern_texts(pattern_views(patterns@));
        let mut out: Vec<String> = Vec::new();
        let mut i: usize = 0;
        while i < patterns.len()
            invariant
                0 <= i <= patterns.len(),
                out.len() == i,
                texts == pattern_texts(pattern_views(patterns@)),
                forall|j: int| 0 <= j < i ==> texts[j] == Some(out[j]@),
            decreases patterns.len() - i,
        {
            match self.generate_pattern(&patterns[i]) {
                Ok(s) => {
                    out.push(s);
                },
                Err(e) => {
                    assert(texts[i as int] is None);
                    return Err(e);
                },
            }
            i += 1;
        }
        assert(collect(texts)->0 =~= string_views(out@));
        Ok(out)
    }
}

/// `true` or `false`.
fn bool_to_text(b: bool) -> (r: String)
    ensures
        r@ == bool_text(b),
{
    if b {
        String::from_str("true")
    } else {
        String::from_str("false")
    }
}

/// A tuple of the given component texts.
fn tuple_of(parts: &Vec<String>) -> (r: String)
    ensures
        r@ == tuple_text(string_views(parts@)),
{
    if parts.len() == 0 {
        String::from_str("()")
    } else {
        let joined = join_strings(parts, ", ");
        let mut out = cat2("(", joined.as_str());
        if parts.len() == 1 {
            out.append(",");
        }
        out.append(")");
        out
    }
}


/// Whether `t` spells one of Rust's numeric primitive types.
fn is_numeric_type_name(t: &String) -> (b: bool)
    ensures
        b == is_numeric_name(t@),
{
    is_word(t, "i8") || is_word(t, "i16") || is_word(t, "i32") || is_word(t, "i64") || is_word(
        t,
        "i128",
    ) || is_word(t, "isize") || is_word(t, "u8") || is_word(t, "u16") || is_word(t, "u32")
        || is_word(t, "u64") || is_word(t, "u128") || is_word(t, "usize") || is_word(t, "f32")
        || is_word(t, "f64")
}

/// A binary operation over operand texts.
fn binary_of(left: &str, op: Operator, right: &str) -> (r: String)
    ensures
        r@ == binary_text(left@, op, right@),
{
    match op {
        Operator::Power => cat5("((", left, " as i32).pow(", right, " as u32))"),
        Operator::Add => cat5("(", left, " + ", right, ")"),
        Operator::Subtract => cat5("(", left, " - ", right, ")"),
        Operator::Multiply => cat5("(", left, " * ", right, ")"),
        Operator::Divide => cat5("(", left, " / ", right, ")"),
        Operator::Equals => cat5("(", left, " == ", right, ")"),
        Operator::NotEquals => cat5("(", left, " != ", right, ")"),
        Operator::LessThan => cat5("(", left, " < ", right, ")"),
        Operator::GreaterThan => cat5("(", left, " > ", right, ")"),
    }
}

/// The logging macro of a level.
fn log_macro_of(level: LogLevel) -> (r: String)
    ensures
        r@ == log_macro_text(level),
{
    match level {
        LogLevel::Debug => String::from_str("debug!"),
        LogLevel::Info => String::from_str("info!"),
        LogLevel::Warn => String::from_str("warn!"),
        LogLevel::Error => String::from_str("error!"),
    }
}

/// An iterator chain.
fn chain_of(list: &str, adapter: &str, callee: &str, rest: &str) -> (r: String)
    ensures
        r@ == chain_text(list@, adapter@, callee@, rest@),
{
    let mut out = cat3(list, adapter, callee);
    out.append(rest);
    out
}

/// The names of parameters or fields, in snake case.
fn snake_names_of(params: &Vec<TypeAnnotation>) -> (r: Vec<String>)
    ensures
        string_views(r@) == snake_names(annotation_views(params@)),
{
    let mut out: Vec<String> = Vec::new();
    let mut i: usize = 0;
    while i < params.len()
        invariant
            0 <= i <= params.len(),
            out.len() == i,
            forall|j: int| 0 <= j < i ==> out[j]@ == snake_case(params[j].name@),
        decreases params.len() - i,
    {
        out.push(to_snake_case(params[i].name.as_str()));
        i += 1;
    }
    assert(string_views(out@) =~= snake_names(annotation_views(params@)));
    out
}

/// Each part with `prefix` in front, one after another.
fn concat_prefixed(prefix: &str, parts: &Vec<String>) -> (r: String)
    ensures
        r@ == concat(prefixed(prefix@, string_views(parts@))),
{
    let ghost lines = prefixed(prefix@, string_views(parts@));
    let mut out = String::new();
    let mut i: usize = 0;
    while i < parts.len()
        invariant
            0 <= i <= parts.len(),
            lines == prefixed(prefix@, string_views(parts@)),
            out@ == concat(lines.take(i as int)),
        decreases parts.len() - i,
    {
        proof {
            lemma_concat_step(lines, i as int);
        }
        let ghost before = out@;
        out.append(prefix);
        out.append(parts[i].as_str());
        assert(out@ =~= before + lines[i as int]);
        i += 1;
    }
    assert(lines.take(parts.len() as int) =~= lines);
    out
}

/// A `println!` statement.
fn println_of(placeholders: &Vec<String>, parts: &Vec<String>) -> (r: String)
    ensures
        r@ == println_text(string_views(placeholders@), string_views(parts@)),
{
    if parts.len() == 0 {
        cat2("println!(", ");\n")
    } else {
        let format = join_strings(placeholders, " ");
        let args = concat_prefixed(", ", parts);
        let mut out = cat3("println!(", "\"", format.as_str());
        out.append("\"");
        out.append(args.as_str());
        out.append(");\n");
        out
    }
}

/// A struct literal.
fn struct_literal_of(name: &str, fields: &Vec<String>, values: &Vec<String>) -> (r: String)
    requires
        fields.len() == values.len(),
    ensures
        r@ == struct_literal_text(name@, string_views(fields@), string_views(values@)),
{
    let mut inits: Vec<String> = Vec::new();
    let mut i: usize = 0;
    while i < fields.len()
        invariant
            0 <= i <= fields.len(),
            fields.len() == values.len(),
            inits.len() == i,
            forall|j: int| 0 <= j < i ==> inits[j]@ == fields[j]@ + ": "@ + values[j]@,
        decreases fields.len() - i,
    {
        inits.push(cat3(fields[i].as_str(), ": ", values[i].as_str()));
        i += 1;
    }
    assert(string_views(inits@) =~= field_inits(string_views(fields@), string_views(values@)));
    let joined = join_strings(&inits, ", ");
    let mut out = cat3(name, " { ", joined.as_str());
    out.append(" }");
    out
}

/// The insertion lines of a map literal's block.
fn insert_lines_of(indent: usize, pairs: &Vec<(String, String)>) -> (r: String)
    ensures
        r@ == concat(insert_lines(indent as nat, string_pair_views(pairs@))),
{
    let prefix = make_indent(indent);
    let mut lines: Vec<String> = Vec::new();
    let mut i: usize = 0;
    while i < pairs.len()
        invariant
            0 <= i <= pairs.len(),
            lines.len() == i,
            prefix@ == indent_text(indent as nat),
            forall|j: int|
                0 <= j < i ==> lines[j]@ == indent_text(indent as nat) + "map.insert("@
                    + pairs[j].0@ + ", "@ + pairs[j].1@ + ");\n"@,
        decreases pairs.len() - i,
    {
        let mut line = cat5(
            prefix.as_str(),
            "map.insert(",
            pairs[i].0.as_str(),
            ", ",
            pairs[i].1.as_str(),
        );
        line.append(");\n");
        lines.push(line);
        i += 1;
    }
    assert(string_views(lines@) =~= insert_lines(indent as nat, string_pair_views(pairs@)));
    concat_strings(&lines)
}

/// The branches of a conditional, joined by `else`.
fn branches_of(indent: usize, branches: &Vec<(String, String)>) -> (r: String)
    requires
        indent < usize::MAX,
    ensures
        r@ == join(branch_texts(indent as nat, string_pair_views(branches@)), " else "@),
{
    let inner = make_indent(indent + 1);
    let outer = make_indent(indent);
    let mut texts: Vec<String> = Vec::new();
    let mut i: usize = 0;
    while i < branches.len()
        invariant
            0 <= i <= branches.len(),
            texts.len() == i,
            inner@ == indent_text((indent + 1) as nat),
            outer@ == indent_text(indent as nat),
            forall|j: int|
                0 <= j < i ==> texts[j]@ == "if "@ + branches[j].0@ + " {\n"@ + indent_text(
                    (indent + 1) as nat,
                ) + branches[j].1@ + "\n"@ + indent_text(indent as nat) + "}"@,
        decreases branches.len() - i,
    {
        let mut text = cat5(
            "if ",
            branches[i].0.as_str(),
            " {\n",
            inner.as_str(),
            branches[i].1.as_str(),
        );
        text.append("\n");
        text.append(outer.as_str());
        text.append("}");
        texts.push(text);
        i += 1;
    }
    assert(string_views(texts@) =~= branch_texts(indent as nat, string_pair_views(branches@)));
    join_strings(&texts, " else ")
}

/// The arms of a `match`, one line each.
fn arm_lines_of(arms: &Vec<(String, String)>) -> (r: String)
    ensures
        r@ == concat(arm_lines(string_pair_views(arms@))),
{
    let mut lines: Vec<String> = Vec::new();
    let mut i: usize = 0;
    while i < arms.len()
        invariant
            0 <= i <= arms.len(),
            lines.len() == i,
            forall|j: int|
                0 <= j < i ==> lines[j]@ == "    "@ + arms[j].0@ + " => "@ + arms[j].1@ + ",\n"@,
        decreases arms.len() - i,
    {
        lines.push(cat5("    ", arms[i].0.as_str(), " => ", arms[i].1.as_str(), ",\n"));
        i += 1;
    }
    assert(string_views(lines@) =~= arm_lines(string_pair_views(arms@)));
    concat_strings(&lines)
}


/// Whether `name` is one of the built-in call names.
pub open spec fn is_builtin_call(name: Seq<char>) -> bool {
    name == "Tuple"@ || name == "Map"@ || name == "Filter"@ || name == "Fold"@ || name == "Print"@
}

/// Once a struct definition has been generated, a call of the struct's name
/// with as many arguments as it has fields is a struct literal with exactly
/// the registered field names, in order. This holds of every struct whose
/// name is not a built-in call name.
pub proof fn law_struct_constructor(
    name: Seq<char>,
    fields: Seq<TypeAnnotationView>,
    arguments: Seq<ExprView>,
    parts: Seq<Seq<char>>,
    indent: nat,
    table: StructFields,
)
    requires
        !is_builtin_call(name),
        arguments.len() == fields.len(),
        collect(
            value_texts(arguments, indent, item_text(ExprView::StructDefinition { name, fields }, table).1),
        ) == Some(parts),
    ensures
        item_text(ExprView::StructDefinition { name, fields }, table).0 == Some(
            struct_text(name, fields),
        ),
        value_text(
            ExprView::FunctionCall { function: Box::new(ExprView::Identifier(name)), arguments },
            indent,
            item_text(ExprView::StructDefinition { name, fields }, table).1,
        ) == Some(struct_literal_text(name, snake_names(fields), parts)),
{
    let after = item_text(ExprView::StructDefinition { name, fields }, table).1;
    assert(after == table.insert(name, snake_names(fields)));
    assert(after.contains_key(name));
    assert(after[name] == snake_names(fields));
    assert(value_text(
        ExprView::FunctionCall { function: Box::new(ExprView::Identifier(name)), arguments },
        indent,
        after,
    ) == call_text(name, arguments, indent, after));
}

/// A tuple of one element is written with a comma behind the element, and a
/// tuple of two with a comma between them.
pub proof fn law_tuple_commas(a: ExprView, b: ExprView, indent: nat, table: StructFields)
    requires
        value_text(a, indent, table) is Some,
        value_text(b, indent, table) is Some,
    ensures
        value_text(ExprView::Tuple(seq![a]), indent, table) == Some(
            "("@ + value_text(a, indent, table)->0 + ","@ + ")"@,
        ),
        value_text(ExprView::Tuple(seq![a, b]), indent, table) == Some(
            "("@ + (value_text(a, indent, table)->0 + ", "@ + value_text(b, indent, table)->0) + ")"@,
        ),
{
    let ta = value_text(a, indent, table)->0;
    let tb = value_text(b, indent, table)->0;
    let one = value_texts(seq![a], indent, table);
    assert(one[0] == Some(ta));
    assert(collect(one)->0 =~= seq![ta]);
    let two = value_texts(seq![a, b], indent, table);
    assert(two[0] == Some(ta));
    assert(two[1] == Some(tb));
    assert(collect(two)->0 =~= seq![ta, tb]);
    assert(seq![ta, tb].drop_last() =~= seq![ta]);
    assert(join(seq![ta], ", "@) == ta);
    assert(join(seq![ta, tb], ", "@) == ta + ", "@ + tb);
}


/// A `Fold` over a literal lambda of two parameters is a `fold` on the list's
/// iterator, seeded with the initial value, whose closure has the lambda's
/// parameters and body.
pub proof fn law_fold_text(
    first: TypeAnnotationView,
    second: TypeAnnotationView,
    body: ExprView,
    initial: ExprView,
    list: ExprView,
    indent: nat,
    table: StructFields,
)
    requires
        value_text(body, indent, table) is Some,
        value_text(initial, indent, table) is Some,
        value_text(list, indent, table) is Some,
    ensures
        value_text(
            ExprView::FunctionCall {
                function: Box::new(ExprView::Identifier("Fold"@)),
                arguments: seq![
                    ExprView::Lambda { parameters: seq![first, second], body: Box::new(body) },
                    initial,
                    list,
                ],
            },
            indent,
            table,
        ) == Some(
            value_text(list, indent, table)->0 + (".into_iter().fold("@ + value_text(
                initial,
                indent,
                table,
            )->0 + ", "@) + ("|"@ + snake_case(first.name) + ", "@ + snake_case(second.name) + "| "@
                + value_text(body, indent, table)->0) + ")"@,
        ),
{
    reveal_strlit("Fold");
    reveal_strlit("Tuple");
    reveal_strlit("Map");
    reveal_strlit("Filter");
    let lambda = ExprView::Lambda { parameters: seq![first, second], body: Box::new(body) };
    let arguments = seq![lambda, initial, list];
    assert(arguments[0] == lambda);
    assert(arguments[1] == initial);
    assert(arguments[2] == list);
    let parameters = seq![first, second];
    assert(arguments.len() == 3);
    assert(parameters.len() == 2);
    assert(parameters[0] == first);
    assert(parameters[1] == second);
    let b = value_text(body, indent, table)->0;
    let init = value_text(initial, indent, table)->0;
    let l = value_text(list, indent, table)->0;
    assert("Fold"@.len() == 4 && "Tuple"@.len() == 5 && "Map"@.len() == 3 && "Filter"@.len() == 6);
    assert(call_text("Fold"@, arguments, indent, table) == Some(
        chain_text(
            l,
            ".into_iter().fold("@ + init + ", "@,
            "|"@ + snake_case(first.name) + ", "@ + snake_case(second.name) + "| "@ + b,
            ")"@,
        ),
    ));
    assert(value_text(
        ExprView::FunctionCall { function: Box::new(ExprView::Identifier("Fold"@)), arguments },
        indent,
        table,
    ) == call_text("Fold"@, arguments, indent, table));
}


/// The opening of the entry point.
pub open spec fn entry_point_opening() -> Seq<char> {
    "fn main() {\n"@
}

/// Whether `text` holds `part` from position `at` on.
pub open spec fn holds_at(text: Seq<char>, part: Seq<char>, at: int) -> bool {
    0 <= at && at + part.len() <= text.len() && text.subrange(at, at + part.len()) == part
}

/// Statements are appended to what has been generated.
pub proof fn lemma_statements_text_extends(
    es: Seq<ExprView>,
    i: int,
    table: StructFields,
    acc: Seq<char>,
)
    ensures
        statements_text(es, i, table, acc) is Some ==> acc.is_prefix_of(
            statements_text(es, i, table, acc)->0,
        ),
    decreases es.len() - i,
{
    if 0 <= i < es.len() {
        if is_definition(es[i]) {
            lemma_statements_text_extends(es, i + 1, table, acc);
        } else if statement_text(es[i], 1, table) is Some {
            let t = statement_text(es[i], 1, table)->0;
            lemma_statements_text_extends(es, i + 1, table, acc + t);
            if statements_text(es, i, table, acc) is Some {
                let all = statements_text(es, i, table, acc)->0;
                assert((acc + t).is_prefix_of(all));
                assert(acc =~= (acc + t).subrange(0, acc.len() as int));
                assert(acc =~= all.subrange(0, acc.len() as int));
            }
        }
    } else {
        assert(acc =~= acc.subrange(0, acc.len() as int));
    }
}

/// Every generated program has an entry point: whatever the expression is,
/// the text that `generate` returns for it holds the opening of `main`
/// somewhere, and ends with a closing brace and a line break.
pub proof fn law_output_has_entry_point(e: ExprView, table: StructFields)
    requires
        program_text(e, table).0 is Some,
    ensures
        exists|at: int| holds_at(program_text(e, table).0->0, entry_point_opening(), at),
        "}\n"@.is_suffix_of(program_text(e, table).0->0),
{
    reveal_strlit("fn main() {\n");
    reveal_strlit("fn main() {\n    // Stub main function for compilation\n}\n");
    reveal_strlit("}\n");
    let opening = entry_point_opening();
    let stub = stub_main_text();
    let text = program_text(e, table).0->0;
    assert(opening.len() == 12 && stub.len() == 56 && "}\n"@.len() == 2);
    assert(stub.subrange(0, 12) =~= opening);
    assert(stub.subrange(54, 56) =~= "}\n"@);
    match e {
        ExprView::Program(es) => {
            let (defs, after) = definitions_text(es, 0, table, Seq::empty());
            let d = defs->0;
            if has_statement(es) {
                lemma_statements_text_extends(es, 0, after, d + opening);
                let body = statements_text(es, 0, after, d + opening)->0;
                assert(text == body + "}\n"@);
                let head = body.subrange(0, (d.len() + 12) as int);
                assert(d + opening =~= head);
                assert forall|k: int| 0 <= k < 12 implies text[d.len() + k] == opening[k] by {
                    assert(text[d.len() + k] == body[d.len() + k]);
                    assert(body[d.len() + k] == head[d.len() + k]);
                    assert(head[d.len() + k] == (d + opening)[d.len() + k]);
                }
                assert(text.subrange(d.len() as int, (d.len() + 12) as int) =~= opening);
                assert(holds_at(text, opening, d.len() as int));
                assert(text.subrange(text.len() - 2, text.len() as int) =~= "}\n"@);
            } else {
                assert(text == d + stub);
                assert(text.subrange(d.len() as int, (d.len() + 12) as int) =~= opening);
                assert(holds_at(text, opening, d.len() as int));
                assert(text.subrange(text.len() - 2, text.len() as int) =~= "}\n"@);
            }
        },
        ExprView::FunctionDefinition { .. } | ExprView::StructDefinition { .. } => {
            let t = item_text(e, table).0->0;
            assert(text == t + "\n"@ + stub);
            let at = (t + "\n"@).len() as int;
            assert(text.subrange(at, at + 12) =~= opening);
            assert(holds_at(text, opening, at));
            assert(text.subrange(text.len() - 2, text.len() as int) =~= "}\n"@);
        },
        _ => {
            let t = statement_text(e, 1, table)->0;
            assert(text == opening + t + "}\n"@);
            assert(text.subrange(0, 12) =~= opening);
            assert(holds_at(text, opening, 0));
            assert(text.subrange(text.len() - 2, text.len() as int) =~= "}\n"@);
        },
    }
}


/// A match has one arm per line, as many as the expression has arms and in
/// their order: line `i` holds the pattern and the result of arm `i`, for
/// every `i`.
pub proof fn law_match_arms_in_order(
    value: ExprView,
    arms: Seq<(PatternView, ExprView)>,
    indent: nat,
    table: StructFields,
    i: int,
)
    requires
        value_text(ExprView::Match { value: Box::new(value), arms }, indent, table) is Some,
        0 <= i < arms.len(),
    ensures
        value_text(value, indent, table) is Some,
        collect(arm_texts(arms, indent, table)) is Some,
        value_text(ExprView::Match { value: Box::new(value), arms }, indent, table) == Some(
            "match "@ + value_text(value, indent, table)->0 + " {\n"@ + concat(
                arm_lines(collect(arm_texts(arms, indent, table))->0),
            ) + "}"@,
        ),
        arm_lines(collect(arm_texts(arms, indent, table))->0).len() == arms.len(),
        pattern_text(arms[i].0) is Some,
        value_text(arms[i].1, indent, table) is Some,
        arm_lines(collect(arm_texts(arms, indent, table))->0)[i] == "    "@ + pattern_text(
            arms[i].0,
        )->0 + " => "@ + value_text(arms[i].1, indent, table)->0 + ",\n"@,
{
    let texts = arm_texts(arms, indent, table);
    assert(all_some(texts));
    assert(texts[i] is Some);
    assert(collect(texts)->0[i] == texts[i]->0);
}

} // verus!
