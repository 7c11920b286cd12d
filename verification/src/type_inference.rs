//! Type inference: assigns every expression a type, or reports the first
//! violation found.
//!
//! [`infer`] defines the typing rules over the models of expression and
//! environment; [`TypeInference::infer_expression`] is proved to compute it.
use vstd::prelude::*;
use vstd::string::*;
use crate::ast::{
    annotation_views, arm_views, clone_annotations, clone_type, clone_types, expr_views,
    lemma_function_view, lemma_tuple_view, pair_views, pattern_views, type_eq, type_views,
    ExprView, Expression, Operator, Pattern, PatternView, Type, TypeAnnotation,
    TypeAnnotationView, TypeView,
};
use crate::table::{lemma_map_of_same_views, map_of, NameTable};
use crate::text::{is_word, join, join_strings, nat_text, string_views, usize_to_text};

verus! {

/// What can be wrong with the types of an expression.
#[allow(inconsistent_fields)]
#[derive(Debug, PartialEq)]
pub enum TypeError {
    /// Two types that must agree differ.
    TypeMismatch { expected: Type, actual: Type, context: String },
    /// A variable or function that is not bound.
    UndefinedIdentifier(String),
    /// A call with the wrong number of arguments.
    ArityMismatch { function: String, expected: usize, actual: usize },
    /// There is not enough information to give a type.
    CannotInfer(String),
    /// A struct that is not defined.
    UndefinedStruct(String),
    /// A struct constructor with the wrong number of field values.
    FieldCountMismatch { struct_name: String, expected: usize, actual: usize },
}

/// Model of a [`TypeError`].
#[allow(inconsistent_fields)]
pub enum TypeErrorView {
    TypeMismatch { expected: TypeView, actual: TypeView, context: Seq<char> },
    UndefinedIdentifier(Seq<char>),
    ArityMismatch { function: Seq<char>, expected: nat, actual: nat },
    CannotInfer(Seq<char>),
    UndefinedStruct(Seq<char>),
    FieldCountMismatch { struct_name: Seq<char>, expected: nat, actual: nat },
}

impl View for TypeError {
    type V = TypeErrorView;

    open spec fn view(&self) -> TypeErrorView {
        match self {
            TypeError::TypeMismatch { expected, actual, context } => TypeErrorView::TypeMismatch {
                expected: expected@,
                actual: actual@,
                context: context@,
            },
            TypeError::UndefinedIdentifier(name) => TypeErrorView::UndefinedIdentifier(name@),
            TypeError::ArityMismatch { function, expected, actual } => TypeErrorView::ArityMismatch {
                function: function@,
                expected: *expected as nat,
                actual: *actual as nat,
            },
            TypeError::CannotInfer(what) => TypeErrorView::CannotInfer(what@),
            TypeError::UndefinedStruct(name) => TypeErrorView::UndefinedStruct(name@),
            TypeError::FieldCountMismatch { struct_name, expected, actual } => {
                TypeErrorView::FieldCountMismatch {
                    struct_name: struct_name@,
                    expected: *expected as nat,
                    actual: *actual as nat,
                }
            },
        }
    }
}

impl Clone for TypeError {
    fn clone(&self) -> (r: Self)
        ensures
            r@ == self@,
    {
        match self {
            TypeError::TypeMismatch { expected, actual, context } => TypeError::TypeMismatch {
                expected: clone_type(expected),
                actual: clone_type(actual),
                context: context.clone(),
            },
            TypeError::UndefinedIdentifier(name) => TypeError::UndefinedIdentifier(name.clone()),
            TypeError::ArityMismatch { function, expected, actual } => TypeError::ArityMismatch {
                function: function.clone(),
                expected: *expected,
                actual: *actual,
            },
            TypeError::CannotInfer(what) => TypeError::CannotInfer(what.clone()),
            TypeError::UndefinedStruct(name) => TypeError::UndefinedStruct(name.clone()),
            TypeError::FieldCountMismatch { struct_name, expected, actual } => {
                TypeError::FieldCountMismatch {
                    struct_name: struct_name.clone(),
                    expected: *expected,
                    actual: *actual,
                }
            },
        }
    }
}

/// Model of a [`TypeEnvironment`]: the type of each bound name and the field
/// list of each defined struct.
pub struct EnvView {
    pub bindings: Map<Seq<char>, TypeView>,
    pub structs: Map<Seq<char>, Seq<TypeAnnotationView>>,
}

impl EnvView {
    /// This environment with `name` bound to `ty`.
    pub open spec fn bind(self, name: Seq<char>, ty: TypeView) -> EnvView {
        EnvView { bindings: self.bindings.insert(name, ty), structs: self.structs }
    }

    /// This environment with struct `name` defined by `fields`.
    pub open spec fn define_struct(self, name: Seq<char>, fields: Seq<TypeAnnotationView>) -> EnvView {
        EnvView { bindings: self.bindings, structs: self.structs.insert(name, fields) }
    }

    /// This environment with each parameter bound to its declared type, in order.
    pub open spec fn bind_all(self, params: Seq<TypeAnnotationView>) -> EnvView
        decreases params.len(),
    {
        if params.len() == 0 {
            self
        } else {
            self.bind_all(params.drop_last()).bind(params.last().name, params.last().type_)
        }
    }
}

/// The types that a sequence of annotations declares.
pub open spec fn declared_types(params: Seq<TypeAnnotationView>) -> Seq<TypeView> {
    Seq::new(params.len(), |i: int| params[i].type_)
}

/// The unit type: the empty tuple.
pub open spec fn unit_type() -> TypeView {
    TypeView::Tuple(Seq::empty())
}

/// Whether a type is one of the integer or floating-point types.
pub open spec fn is_numeric_type(t: TypeView) -> bool {
    t is Int8 || t is Int16 || t is Int32 || t is Int64 || t is Int128 || t is Int || t is UInt8
        || t is UInt16 || t is UInt32 || t is UInt64 || t is UInt128 || t is UInt || t is Float32
        || t is Float64
}

/// A mismatch between an expected and an actual type.
pub open spec fn mismatch(expected: TypeView, actual: TypeView, context: Seq<char>) -> TypeErrorView {
    TypeErrorView::TypeMismatch { expected, actual, context }
}

/// The type of a binary operation from its operands' types.
///
/// Arithmetic takes two operands of one numeric type and has that type.
/// Equality and inequality take two operands of one type; ordering takes two
/// numeric operands, which may differ in type. Comparisons have type `Bool`.
pub open spec fn binary_type(op: Operator, left: TypeView, right: TypeView) -> Result<
    TypeView,
    TypeErrorView,
> {
    match op {
        Operator::Add | Operator::Subtract | Operator::Multiply | Operator::Divide | Operator::Power => {
            if !is_numeric_type(left) {
                Err(mismatch(TypeView::Int32, left, "arithmetic operation"@))
            } else if left != right {
                Err(mismatch(left, right, "arithmetic operation"@))
            } else {
                Ok(left)
            }
        },
        Operator::Equals | Operator::NotEquals => {
            if left != right {
                Err(mismatch(left, right, "comparison operation"@))
            } else {
                Ok(TypeView::Bool)
            }
        },
        Operator::LessThan | Operator::GreaterThan => {
            if !is_numeric_type(left) {
                Err(mismatch(TypeView::Int32, left, "comparison operation"@))
            } else if !is_numeric_type(right) {
                Err(mismatch(left, right, "comparison operation"@))
            } else {
                Ok(TypeView::Bool)
            }
        },
    }
}

/// The common type of branches seen so far, joined with one more branch's type.
pub open spec fn unify(result: Option<TypeView>, next: TypeView, context: Seq<char>) -> Result<
    Option<TypeView>,
    TypeErrorView,
> {
    match result {
        None => Ok(Some(next)),
        Some(expected) => if expected != next {
            Err(mismatch(expected, next, context))
        } else {
            Ok(result)
        },
    }
}

/// The type of an expression in an environment, or the first error, together
/// with the environment afterwards. Function and struct definitions extend the
/// environment; the bodies of functions and of match arms are typed in a copy
/// that is discarded.
pub open spec fn infer(e: ExprView, env: EnvView) -> (Result<TypeView, TypeErrorView>, EnvView)
    decreases e, 0nat,
{
    match e {
        ExprView::Number(_) => (Ok(TypeView::Int32), env),
        ExprView::Float(_) => (Ok(TypeView::Float64), env),
        ExprView::String(_) => (Ok(TypeView::String), env),
        ExprView::Boolean(_) => (Ok(TypeView::Bool), env),
        ExprView::Tuple(es) => match infer_all(es, 0, env, Seq::empty()) {
            (Ok(ts), after) => (Ok(TypeView::Tuple(ts)), after),
            (Err(x), after) => (Err(x), after),
        },
        ExprView::List(es) => if es.len() == 0 {
            (Err(TypeErrorView::CannotInfer("empty list"@)), env)
        } else {
            match infer(es[0], env) {
                (Ok(first), after) => infer_list_rest(es, 1, after, first),
                (Err(x), after) => (Err(x), after),
            }
        },
        ExprView::Identifier(name) => if env.bindings.contains_key(name) {
            (Ok(env.bindings[name]), env)
        } else {
            (Err(TypeErrorView::UndefinedIdentifier(name)), env)
        },
        ExprView::BinaryOp { left, operator, right } => match infer(*left, env) {
            (Err(x), after) => (Err(x), after),
            (Ok(lt), after) => match infer(*right, after) {
                (Err(x), last) => (Err(x), last),
                (Ok(rt), last) => (binary_type(operator, lt, rt), last),
            },
        },
        ExprView::FunctionDefinition { name, parameters, body } => match infer(
            *body,
            env.bind_all(parameters),
        ).0 {
            Ok(rt) => (
                Ok(TypeView::Function(declared_types(parameters), Box::new(rt))),
                env.bind(name, TypeView::Function(declared_types(parameters), Box::new(rt))),
            ),
            Err(x) => (Err(x), env),
        },
        ExprView::FunctionCall { function, arguments } => match *function {
            ExprView::Identifier(name) => infer_call(name, arguments, env),
            _ => (Err(TypeErrorView::CannotInfer("complex function expression"@)), env),
        },
        ExprView::StructDefinition { name, fields } => (
            Ok(unit_type()),
            env.define_struct(name, fields),
        ),
        ExprView::OptionNone => (Ok(TypeView::Option(Box::new(TypeView::Int32))), env),
        ExprView::OptionSome { value } => match infer(*value, env) {
            (Ok(t), after) => (Ok(TypeView::Option(Box::new(t))), after),
            (Err(x), after) => (Err(x), after),
        },
        ExprView::ResultOk { value } => match infer(*value, env) {
            (Ok(t), after) => (
                Ok(TypeView::Result(Box::new(t), Box::new(TypeView::String))),
                after,
            ),
            (Err(x), after) => (Err(x), after),
        },
        ExprView::ResultErr { error } => match infer(*error, env) {
            (Ok(t), after) => (Ok(TypeView::Result(Box::new(TypeView::Int32), Box::new(t))), after),
            (Err(x), after) => (Err(x), after),
        },
        ExprView::Match { value, arms } => match infer(*value, env) {
            (Err(x), after) => (Err(x), after),
            (Ok(vt), after) => (match_arms(arms, 0, vt, after, None), after),
        },
        ExprView::Cond { conditions, default_statements } => match cond_branches(
            conditions,
            0,
            env,
            None,
        ) {
            (Err(x), after) => (Err(x), after),
            (Ok(result), after) => match default_statements {
                None => (
                    Ok(
                        match result {
                            Some(t) => t,
                            None => unit_type(),
                        },
                    ),
                    after,
                ),
                Some(d) => match infer(*d, after) {
                    (Err(x), last) => (Err(x), last),
                    (Ok(dt), last) => match unify(result, dt, "cond default branch"@) {
                        Ok(unified) => (Ok(unified->0), last),
                        Err(x) => (Err(x), last),
                    },
                },
            },
        },
        ExprView::Program(_) => (Err(TypeErrorView::CannotInfer("program"@)), env),
        ExprView::Lambda { .. } => (Err(TypeErrorView::CannotInfer("lambda"@)), env),
        ExprView::LogCall { .. } => (Ok(unit_type()), env),
        ExprView::MapLiteral(_) => (Err(TypeErrorView::CannotInfer("map literal"@)), env),
        ExprView::StructInstantiation { .. } => (
            Err(TypeErrorView::CannotInfer("struct instantiation"@)),
            env,
        ),
    }
}

/// The types of `es[i..]` appended to `acc`, inferred from left to right.
pub open spec fn infer_all(es: Seq<ExprView>, i: int, env: EnvView, acc: Seq<TypeView>) -> (
    Result<Seq<TypeView>, TypeErrorView>,
    EnvView,
)
    decreases es, es.len() - i,
{
    if i < 0 || i >= es.len() {
        (Ok(acc), env)
    } else {
        match infer(es[i], env) {
            (Ok(t), after) => infer_all(es, i + 1, after, acc.push(t)),
            (Err(x), after) => (Err(x), after),
        }
    }
}

/// The list type over `first`, provided that every element of `es[i..]` has type `first`.
pub open spec fn infer_list_rest(es: Seq<ExprView>, i: int, env: EnvView, first: TypeView) -> (
    Result<TypeView, TypeErrorView>,
    EnvView,
)
    decreases es, es.len() - i,
{
    if i < 0 || i >= es.len() {
        (Ok(TypeView::List(Box::new(first))), env)
    } else {
        match infer(es[i], env) {
            (Ok(t), after) => if t != first {
                (Err(mismatch(first, t, "list elements"@)), after)
            } else {
                infer_list_rest(es, i + 1, after, first)
            },
            (Err(x), after) => (Err(x), after),
        }
    }
}

/// Checks `args[i..]` against the expected types, from left to right: the
/// first error, if any, and the environment afterwards.
pub open spec fn check_arguments(
    args: Seq<ExprView>,
    expected: Seq<TypeView>,
    contexts: Seq<Seq<char>>,
    i: int,
    env: EnvView,
) -> (Option<TypeErrorView>, EnvView)
    decreases args, args.len() - i,
{
    if i < 0 || i >= args.len() {
        (None, env)
    } else {
        match infer(args[i], env) {
            (Ok(t), after) => if t != expected[i] {
                (Some(mismatch(expected[i], t, contexts[i])), after)
            } else {
                check_arguments(args, expected, contexts, i + 1, after)
            },
            (Err(x), after) => (Some(x), after),
        }
    }
}

/// The contexts of field mismatches: `field <name>` for each field.
pub open spec fn field_contexts(fields: Seq<TypeAnnotationView>) -> Seq<Seq<char>> {
    Seq::new(fields.len(), |i: int| "field "@ + fields[i].name)
}

/// The contexts of argument mismatches: `argument to <function>` for each argument.
pub open spec fn argument_contexts(function: Seq<char>, n: nat) -> Seq<Seq<char>> {
    Seq::new(n, |i: int| "argument to "@ + function)
}

/// The type of a call of `name`: the built-ins `Print`, `Tuple`, `Map`,
/// `Filter` and `Fold`, then struct constructors, then bound functions.
pub open spec fn infer_call(name: Seq<char>, arguments: Seq<ExprView>, env: EnvView) -> (
    Result<TypeView, TypeErrorView>,
    EnvView,
)
    decreases arguments, arguments.len() + 1,
{
    if name == "Print"@ {
        (Ok(unit_type()), env)
    } else if name == "Tuple"@ {
        match infer_all(arguments, 0, env, Seq::empty()) {
            (Ok(ts), after) => (Ok(TypeView::Tuple(ts)), after),
            (Err(x), after) => (Err(x), after),
        }
    } else if name == "Map"@ || name == "Filter"@ {
        if arguments.len() != 2 {
            (
                Err(
                    TypeErrorView::ArityMismatch {
                        function: name,
                        expected: 2,
                        actual: arguments.len(),
                    },
                ),
                env,
            )
        } else {
            (Ok(TypeView::List(Box::new(TypeView::Int32))), env)
        }
    } else if name == "Fold"@ {
        if arguments.len() != 3 {
            (
                Err(
                    TypeErrorView::ArityMismatch {
                        function: name,
                        expected: 3,
                        actual: arguments.len(),
                    },
                ),
                env,
            )
        } else {
            infer(arguments[1], env)
        }
    } else if env.structs.contains_key(name) {
        let fields = env.structs[name];
        if fields.len() != arguments.len() {
            (
                Err(
                    TypeErrorView::FieldCountMismatch {
                        struct_name: name,
                        expected: fields.len(),
                        actual: arguments.len(),
                    },
                ),
                env,
            )
        } else {
            match check_arguments(arguments, declared_types(fields), field_contexts(fields), 0, env) {
                (None, after) => (Ok(TypeView::Custom(name)), after),
                (Some(x), after) => (Err(x), after),
            }
        }
    } else if env.bindings.contains_key(name) {
        match env.bindings[name] {
            TypeView::Function(params, ret) => if params.len() != arguments.len() {
                (
                    Err(
                        TypeErrorView::ArityMismatch {
                            function: name,
                            expected: params.len(),
                            actual: arguments.len(),
                        },
                    ),
                    env,
                )
            } else {
                match check_arguments(
                    arguments,
                    params,
                    argument_contexts(name, params.len()),
                    0,
                    env,
                ) {
                    (None, after) => (Ok(*ret), after),
                    (Some(x), after) => (Err(x), after),
                }
            },
            other => (
                Err(
                    mismatch(
                        TypeView::Function(Seq::empty(), Box::new(TypeView::Int32)),
                        other,
                        name + " is not a function"@,
                    ),
                ),
                env,
            ),
        }
    } else {
        (Err(TypeErrorView::UndefinedIdentifier(name)), env)
    }
}

/// The common type of the results of `arms[i..]`, given the common type of the
/// arms before. Each arm is typed in a copy of `env` that holds the bindings
/// of its pattern.
pub open spec fn match_arms(
    arms: Seq<(PatternView, ExprView)>,
    i: int,
    scrutinee: TypeView,
    env: EnvView,
    result: Option<TypeView>,
) -> Result<TypeView, TypeErrorView>
    decreases arms, arms.len() - i,
{
    if i < 0 || i >= arms.len() {
        match result {
            Some(t) => Ok(t),
            None => Err(TypeErrorView::CannotInfer("match with no arms"@)),
        }
    } else {
        match check_pattern(arms[i].0, scrutinee, env, env) {
            Err(x) => Err(x),
            Ok(scope) => match infer(arms[i].1, scope).0 {
                Err(x) => Err(x),
                Ok(t) => match unify(result, t, "match arm result"@) {
                    Ok(unified) => match_arms(arms, i + 1, scrutinee, env, unified),
                    Err(x) => Err(x),
                },
            },
        }
    }
}

/// Types the branches `conditions[i..]` of a conditional from left to right:
/// each condition must be `Bool`, and all results must have one type.
pub open spec fn cond_branches(
    conditions: Seq<(ExprView, ExprView)>,
    i: int,
    env: EnvView,
    result: Option<TypeView>,
) -> (Result<Option<TypeView>, TypeErrorView>, EnvView)
    decreases conditions, conditions.len() - i,
{
    if i < 0 || i >= conditions.len() {
        (Ok(result), env)
    } else {
        match infer(conditions[i].0, env) {
            (Err(x), after) => (Err(x), after),
            (Ok(ct), after) => if ct != TypeView::Bool {
                (Err(mismatch(TypeView::Bool, ct, "condition"@)), after)
            } else {
                match infer(conditions[i].1, after) {
                    (Err(x), last) => (Err(x), last),
                    (Ok(t), last) => match unify(result, t, "cond branch"@) {
                        Ok(unified) => cond_branches(conditions, i + 1, last, unified),
                        Err(x) => (Err(x), last),
                    },
                }
            },
        }
    }
}

/// Checks a pattern against the type of what it matches and returns `scope`
/// extended by the pattern's bindings. Literals are typed in `env`.
pub open spec fn check_pattern(p: PatternView, expected: TypeView, env: EnvView, scope: EnvView) -> Result<
    EnvView,
    TypeErrorView,
>
    decreases p, 0nat,
{
    match p {
        PatternView::Wildcard => Ok(scope),
        PatternView::Literal(e) => match infer(*e, env).0 {
            Err(x) => Err(x),
            Ok(t) => if t != expected {
                Err(mismatch(expected, t, "pattern literal"@))
            } else {
                Ok(scope)
            },
        },
        PatternView::Variable(name) => Ok(scope.bind(name, expected)),
        PatternView::Constructor { name, patterns } => {
            if name == "Some"@ {
                match expected {
                    TypeView::Option(inner) => if patterns.len() != 1 {
                        Err(
                            TypeErrorView::CannotInfer(
                                "Some pattern must have exactly one argument"@,
                            ),
                        )
                    } else {
                        check_pattern(patterns[0], *inner, env, scope)
                    },
                    _ => Err(
                        mismatch(
                            TypeView::Option(Box::new(TypeView::Int32)),
                            expected,
                            "Some pattern"@,
                        ),
                    ),
                }
            } else if name == "None"@ {
                match expected {
                    TypeView::Option(_) => if patterns.len() != 0 {
                        Err(TypeErrorView::CannotInfer("None pattern should have no arguments"@))
                    } else {
                        Ok(scope)
                    },
                    _ => Err(
                        mismatch(
                            TypeView::Option(Box::new(TypeView::Int32)),
                            expected,
                            "None pattern"@,
                        ),
                    ),
                }
            } else if name == "Ok"@ {
                match expected {
                    TypeView::Result(ok_type, _) => if patterns.len() != 1 {
                        Err(
                            TypeErrorView::CannotInfer("Ok pattern must have exactly one argument"@),
                        )
                    } else {
                        check_pattern(patterns[0], *ok_type, env, scope)
                    },
                    _ => Err(
                        mismatch(
                            TypeView::Result(
                                Box::new(TypeView::Int32),
                                Box::new(TypeView::String),
                            ),
                            expected,
                            "Ok pattern"@,
                        ),
                    ),
                }
            } else if name == "Err"@ {
                match expected {
                    TypeView::Result(_, err_type) => if patterns.len() != 1 {
                        Err(
                            TypeErrorView::CannotInfer(
                                "Err pattern must have exactly one argument"@,
                            ),
                        )
                    } else {
                        check_pattern(patterns[0], *err_type, env, scope)
                    },
                    _ => Err(
                        mismatch(
                            TypeView::Result(
                                Box::new(TypeView::Int32),
                                Box::new(TypeView::String),
                            ),
                            expected,
                            "Err pattern"@,
                        ),
                    ),
                }
            } else {
                Err(TypeErrorView::CannotInfer("Unknown constructor: "@ + name))
            }
        },
        PatternView::Tuple(patterns) => match expected {
            TypeView::Tuple(types) => if patterns.len() != types.len() {
                Err(
                    mismatch(
                        expected,
                        unit_type(),
                        "tuple pattern length mismatch: expected "@ + nat_text(types.len())
                            + ", got "@ + nat_text(patterns.len()),
                    ),
                )
            } else {
                check_patterns(patterns, types, 0, env, scope)
            },
            _ => Err(mismatch(unit_type(), expected, "tuple pattern"@)),
        },
        PatternView::List(patterns) => match expected {
            TypeView::List(element) => check_patterns(
                patterns,
                Seq::new(patterns.len(), |i: int| *element),
                0,
                env,
                scope,
            ),
            _ => Err(
                mismatch(TypeView::List(Box::new(TypeView::Int32)), expected, "list pattern"@),
            ),
        },
    }
}

/// Checks `patterns[i..]` against the types at the same positions, from left
/// to right, threading the scope.
pub open spec fn check_patterns(
    patterns: Seq<PatternView>,
    types: Seq<TypeView>,
    i: int,
    env: EnvView,
    scope: EnvView,
) -> Result<EnvView, TypeErrorView>
    decreases patterns, patterns.len() - i,
{
    if i < 0 || i >= patterns.len() {
        Ok(scope)
    } else {
        match check_pattern(patterns[i], types[i], env, scope) {
            Ok(next) => check_patterns(patterns, types, i + 1, env, next),
            Err(x) => Err(x),
        }
    }
}


/// Names in scope: the type of each variable and function, and the fields of
/// each struct. A nested scope works on a copy.
pub struct TypeEnvironment {
    bindings: NameTable<Type>,
    structs: NameTable<Vec<TypeAnnotation>>,
}

impl View for TypeEnvironment {
    type V = EnvView;

    closed spec fn view(&self) -> EnvView {
        EnvView { bindings: self.bindings@, structs: self.structs@ }
    }
}

impl TypeEnvironment {
    /// The empty environment.
    pub fn new() -> (r: Self)
        ensures
            r@ == (EnvView { bindings: Map::empty(), structs: Map::empty() }),
    {
        TypeEnvironment { bindings: NameTable::new(), structs: NameTable::new() }
    }

    /// Binds a variable or function name to its type.
    pub fn bind(&mut self, name: String, ty: Type)
        ensures
            final(self)@ == old(self)@.bind(name@, ty@),
    {
        self.bindings.insert(name, ty);
    }

    /// The type that a variable or function name is bound to.
    pub fn lookup(&self, name: &str) -> (r: Option<&Type>)
        ensures
            r is Some <==> self@.bindings.contains_key(name@),
            r is Some ==> r->0@ == self@.bindings[name@],
    {
        let key = String::from_str(name);
        self.bindings.get(&key)
    }

    /// Defines a struct by its fields, replacing an earlier struct of that name.
    pub fn define_struct(&mut self, name: String, fields: Vec<TypeAnnotation>)
        ensures
            final(self)@ == old(self)@.define_struct(name@, annotation_views(fields@)),
    {
        assert(fields.deep_view() =~= annotation_views(fields@));
        self.structs.insert(name, fields);
    }

    /// The fields of a struct.
    pub fn lookup_struct(&self, name: &str) -> (r: Option<&Vec<TypeAnnotation>>)
        ensures
            r is Some <==> self@.structs.contains_key(name@),
            r is Some ==> annotation_views(r->0@) == self@.structs[name@],
    {
        let key = String::from_str(name);
        let r = self.structs.get(&key);
        proof {
            if r is Some {
                assert(r->0.deep_view() =~= annotation_views(r->0@));
            }
        }
        r
    }

    /// A copy of this environment, for a nested scope.
    pub fn child(&self) -> (r: Self)
        ensures
            r@ == self@,
    {
        let mut bindings: Vec<(String, Type)> = Vec::new();
        let mut i: usize = 0;
        while i < self.bindings.entries.len()
            invariant
                0 <= i <= self.bindings.entries.len(),
                bindings.len() == i,
                forall|j: int|
                    0 <= j < i ==> bindings[j].0@ == self.bindings.entries[j].0@
                        && bindings[j].1@ == self.bindings.entries[j].1@,
            decreases self.bindings.entries.len() - i,
        {
            let entry = &self.bindings.entries[i];
            bindings.push((entry.0.clone(), clone_type(&entry.1)));
            i += 1;
        }
        let mut structs: Vec<(String, Vec<TypeAnnotation>)> = Vec::new();
        let mut k: usize = 0;
        while k < self.structs.entries.len()
            invariant
                0 <= k <= self.structs.entries.len(),
                structs.len() == k,
                forall|j: int|
                    0 <= j < k ==> structs[j].0@ == self.structs.entries[j].0@
                        && structs[j].1.deep_view() == self.structs.entries[j].1.deep_view(),
            decreases self.structs.entries.len() - k,
        {
            let entry = &self.structs.entries[k];
            let fields = clone_annotations(&entry.1);
            assert(fields.deep_view() =~= annotation_views(fields@));
            assert(entry.1.deep_view() =~= annotation_views(entry.1@));
            structs.push((entry.0.clone(), fields));
            k += 1;
        }
        proof {
            lemma_map_of_same_views(bindings@, self.bindings.entries@);
            lemma_map_of_same_views(structs@, self.structs.entries@);
        }
        TypeEnvironment {
            bindings: NameTable { entries: bindings },
            structs: NameTable { entries: structs },
        }
    }
}

/// The view of an inference result: the view of the type or of the error.
pub open spec fn result_view(r: Result<Type, TypeError>) -> Result<TypeView, TypeErrorView> {
    match r {
        Ok(t) => Ok(t@),
        Err(e) => Err(e@),
    }
}

/// Whether a type is one of the integer or floating-point types.
pub fn is_numeric(ty: &Type) -> (b: bool)
    ensures
        b == is_numeric_type(ty@),
{
    matches!(
        ty,
        Type::Int8 | Type::Int16 | Type::Int32 | Type::Int64 | Type::Int128 | Type::Int
            | Type::UInt8 | Type::UInt16 | Type::UInt32 | Type::UInt64 | Type::UInt128
            | Type::UInt | Type::Float32 | Type::Float64
    )
}

/// Whether a type is `Bool`.
fn is_bool(ty: &Type) -> (b: bool)
    ensures
        b == (ty@ == TypeView::Bool),
{
    matches!(ty, Type::Bool)
}

/// The unit type.
fn unit() -> (r: Type)
    ensures
        r@ == unit_type(),
{
    let parts: Vec<Type> = Vec::new();
    proof {
        lemma_tuple_view(parts);
        assert(type_views(parts@) =~= Seq::<TypeView>::empty());
    }
    Type::Tuple(parts)
}

/// A mismatch error.
fn type_mismatch(expected: Type, actual: Type, context: &str) -> (r: TypeError)
    ensures
        r@ == mismatch(expected@, actual@, context@),
{
    TypeError::TypeMismatch { expected, actual, context: String::from_str(context) }
}

/// A cannot-infer error.
fn cannot_infer(what: &str) -> (r: TypeError)
    ensures
        r@ == TypeErrorView::CannotInfer(what@),
{
    TypeError::CannotInfer(String::from_str(what))
}

/// The type of a binary operation from its operands' types.
fn binary_result(op: Operator, left: Type, right: Type) -> (r: Result<Type, TypeError>)
    ensures
        result_view(r) == binary_type(op, left@, right@),
{
    match op {
        Operator::Add | Operator::Subtract | Operator::Multiply | Operator::Divide | Operator::Power => {
            if !is_numeric(&left) {
                Err(type_mismatch(Type::Int32, left, "arithmetic operation"))
            } else if !type_eq(&left, &right) {
                Err(type_mismatch(left, right, "arithmetic operation"))
            } else {
                Ok(left)
            }
        },
        Operator::Equals | Operator::NotEquals => {
            if !type_eq(&left, &right) {
                Err(type_mismatch(left, right, "comparison operation"))
            } else {
                Ok(Type::Bool)
            }
        },
        Operator::LessThan | Operator::GreaterThan => {
            if !is_numeric(&left) {
                Err(type_mismatch(Type::Int32, left, "comparison operation"))
            } else if !is_numeric(&right) {
                Err(type_mismatch(left, right, "comparison operation"))
            } else {
                Ok(Type::Bool)
            }
        },
    }
}

/// The view of an optional type.
pub open spec fn option_view(t: Option<Type>) -> Option<TypeView> {
    match t {
        Some(t) => Some(t@),
        None => None,
    }
}

/// Joins the common type of the branches seen so far with one more branch's type.
fn unify_with(result: Option<Type>, next: Type, context: &str) -> (r: Result<Option<Type>, TypeError>)
    ensures
        match r {
            Ok(t) => unify(option_view(result), next@, context@) == Ok::<
                Option<TypeView>,
                TypeErrorView,
            >(option_view(t)),
            Err(e) => unify(option_view(result), next@, context@) == Err::<
                Option<TypeView>,
                TypeErrorView,
            >(e@),
        },
{
    match result {
        None => Ok(Some(next)),
        Some(expected) => {
            if !type_eq(&expected, &next) {
                Err(type_mismatch(expected, next, context))
            } else {
                Ok(Some(expected))
            }
        },
    }
}

/// The type inference engine: an environment that grows with the definitions
/// it has seen.
pub struct TypeInference {
    env: TypeEnvironment,
}

impl TypeInference {
    /// The names in scope.
    pub closed spec fn env(&self) -> EnvView {
        self.env@
    }

    /// An engine with the empty environment.
    pub fn new() -> (r: Self)
        ensures
            r.env() == (EnvView { bindings: Map::empty(), structs: Map::empty() }),
    {
        TypeInference { env: TypeEnvironment::new() }
    }

    /// Infers the type of an expression. Definitions in it extend the
    /// environment, also where inference fails later.
    #[verifier::rlimit(40)]
    pub fn infer_expression(&mut self, expr: &Expression) -> (r: Result<Type, TypeError>)
        ensures
            result_view(r) == infer(expr@, old(self).env()).0,
            final(self).env() == infer(expr@, old(self).env()).1,
        decreases expr, 0nat,
    {
        proof {
            reveal_with_fuel(Type::model, 3);
        }
        match expr {
            Expression::Number(_) => Ok(Type::Int32),
            Expression::Float(_) => Ok(Type::Float64),
            Expression::String(_) => Ok(Type::String),
            Expression::Boolean(_) => Ok(Type::Bool),
            Expression::Tuple(elements) => {
                assert(expr@->Tuple_0 =~= expr_views(elements@));
                match self.infer_sequence(elements) {
                    Ok(types) => {
                        proof {
                            lemma_tuple_view(types);
                        }
                        Ok(Type::Tuple(types))
                    },
                    Err(e) => Err(e),
                }
            },
            Expression::List(elements) => {
                assert(expr@->List_0 =~= expr_views(elements@));
                if elements.len() == 0 {
                    return Err(cannot_infer("empty list"));
                }
                match self.infer_expression(&elements[0]) {
                    Ok(first_type) => self.infer_list_rest(elements, first_type),
                    Err(e) => Err(e),
                }
            },
            Expression::Identifier(name) => {
                match self.env.lookup(name.as_str()) {
                    Some(t) => Ok(clone_type(t)),
                    None => Err(TypeError::UndefinedIdentifier(name.clone())),
                }
            },
            Expression::BinaryOp { left, operator, right } => {
                let left_type = match self.infer_expression(left) {
                    Ok(t) => t,
                    Err(e) => {
                        return Err(e);
                    },
                };
                let right_type = match self.infer_expression(right) {
                    Ok(t) => t,
                    Err(e) => {
                        return Err(e);
                    },
                };
                binary_result(*operator, left_type, right_type)
            },
            Expression::FunctionDefinition { name, parameters, body } => {
                let ghost params = annotation_views(parameters@);
                let mut child_env = self.env.child();
                let mut param_types: Vec<Type> = Vec::new();
                let mut i: usize = 0;
                while i < parameters.len()
                    invariant
                        0 <= i <= parameters.len(),
                        params == annotation_views(parameters@),
                        child_env@ == self.env().bind_all(params.take(i as int)),
                        param_types.len() == i,
                        forall|j: int| 0 <= j < i ==> param_types[j]@ == parameters[j].type_@,
                    decreases parameters.len() - i,
                {
                    proof {
                        assert(params.take(i + 1).drop_last() =~= params.take(i as int));
                    }
                    child_env.bind(parameters[i].name.clone(), clone_type(&parameters[i].type_));
                    param_types.push(clone_type(&parameters[i].type_));
                    i += 1;
                }
                assert(params.take(parameters.len() as int) =~= params);
                assert(type_views(param_types@) =~= declared_types(params));
                let mut child_inference = TypeInference { env: child_env };
                match child_inference.infer_expression(body) {
                    Ok(return_type) => {
                        let result_types = clone_types(&param_types);
                        let result_return = Box::new(clone_type(&return_type));
                        let bound_return = Box::new(return_type);
                        proof {
                            lemma_function_view(param_types, bound_return);
                            lemma_function_view(result_types, result_return);
                        }
                        self.env.bind(name.clone(), Type::Function(param_types, bound_return));
                        Ok(Type::Function(result_types, result_return))
                    },
                    Err(e) => Err(e),
                }
            },
            Expression::FunctionCall { function, arguments } => {
                assert(expr@->FunctionCall_arguments =~= expr_views(arguments@));
                match &**function {
                    Expression::Identifier(name) => {
                        assert(function@ == ExprView::Identifier(name@));
                        self.infer_call(name, arguments)
                    },
                    _ => {
                        assert(!(function@ is Identifier));
                        Err(cannot_infer("complex function expression"))
                    },
                }
            },
            Expression::StructDefinition { name, fields } => {
                self.env.define_struct(name.clone(), clone_annotations(fields));
                Ok(unit())
            },
            Expression::OptionNone => Ok(Type::Option(Box::new(Type::Int32))),
            Expression::OptionSome { value } => {
                match self.infer_expression(value) {
                    Ok(t) => Ok(Type::Option(Box::new(t))),
                    Err(e) => Err(e),
                }
            },
            Expression::ResultOk { value } => {
                match self.infer_expression(value) {
                    Ok(t) => Ok(Type::Result(Box::new(t), Box::new(Type::String))),
                    Err(e) => Err(e),
                }
            },
            Expression::ResultErr { error } => {
                match self.infer_expression(error) {
                    Ok(t) => Ok(Type::Result(Box::new(Type::Int32), Box::new(t))),
                    Err(e) => Err(e),
                }
            },
            Expression::Match { value, arms } => {
                assert(expr@->Match_arms =~= arm_views(arms@));
                match self.infer_expression(value) {
                    Ok(value_type) => self.infer_arms(arms, &value_type),
                    Err(e) => Err(e),
                }
            },
            Expression::Cond { conditions, default_statements } => {
                assert(expr@->Cond_conditions =~= pair_views(conditions@));
                let result_type = match self.infer_branches(conditions) {
                    Ok(t) => t,
                    Err(e) => {
                        return Err(e);
                    },
                };
                match default_statements {
                    Some(default_expr) => {
                        let default_type = match self.infer_expression(default_expr) {
                            Ok(t) => t,
                            Err(e) => {
                                return Err(e);
                            },
                        };
                        match unify_with(result_type, default_type, "cond default branch") {
                            Ok(unified) => match unified {
                                Some(t) => Ok(t),
                                None => Ok(unit()),
                            },
                            Err(e) => Err(e),
                        }
                    },
                    None => match result_type {
                        Some(t) => Ok(t),
                        None => Ok(unit()),
                    },
                }
            },
            Expression::Program(_) => Err(cannot_infer("program")),
            Expression::Lambda { .. } => Err(cannot_infer("lambda")),
            Expression::LogCall { .. } => Ok(unit()),
            Expression::MapLiteral(_) => Err(cannot_infer("map literal")),
            Expression::StructInstantiation { .. } => Err(cannot_infer("struct instantiation")),
        }
    }

    /// The list type over `first_type`, provided that every element after the
    /// first has that type.
    fn infer_list_rest(&mut self, elements: &Vec<Expression>, first_type: Type) -> (r: Result<
        Type,
        TypeError,
    >)
        ensures
            result_view(r) == infer_list_rest(
                expr_views(elements@),
                1,
                old(self).env(),
                first_type@,
            ).0,
            final(self).env() == infer_list_rest(
                expr_views(elements@),
                1,
                old(self).env(),
                first_type@,
            ).1,
        decreases elements, 1nat,
    {
        let ghost es = expr_views(elements@);
        let ghost start = self.env();
        let mut i: usize = 1;
        while i < elements.len()
            invariant
                1 <= i,
                es == expr_views(elements@),
                start == old(self).env(),
                infer_list_rest(es, 1, start, first_type@) == infer_list_rest(
                    es,
                    i as int,
                    self.env(),
                    first_type@,
                ),
            decreases elements.len() - i,
        {
            match self.infer_expression(&elements[i]) {
                Ok(t) => {
                    if !type_eq(&t, &first_type) {
                        return Err(type_mismatch(first_type, t, "list elements"));
                    }
                },
                Err(e) => {
                    return Err(e);
                },
            }
            i += 1;
        }
        Ok(Type::List(Box::new(first_type)))
    }

    /// The common type of the results of the arms of a match on a value of
    /// type `value_type`.
    fn infer_arms(&self, arms: &Vec<(Pattern, Expression)>, value_type: &Type) -> (r: Result<
        Type,
        TypeError,
    >)
        ensures
            result_view(r) == match_arms(arm_views(arms@), 0, value_type@, self.env(), None),
        decreases arms, 1nat,
    {
        let ghost views = arm_views(arms@);
        let mut result_type: Option<Type> = None;
        let mut i: usize = 0;
        while i < arms.len()
            invariant
                0 <= i <= arms.len(),
                views == arm_views(arms@),
                match_arms(views, 0, value_type@, self.env(), None) == match_arms(
                    views,
                    i as int,
                    value_type@,
                    self.env(),
                    option_view(result_type),
                ),
            decreases arms.len() - i,
        {
            let mut child_env = self.env.child();
            match self.check_pattern(&arms[i].0, value_type, &mut child_env) {
                Ok(()) => {},
                Err(e) => {
                    return Err(e);
                },
            }
            let mut child_inference = TypeInference { env: child_env };
            let arm_type = match child_inference.infer_expression(&arms[i].1) {
                Ok(t) => t,
                Err(e) => {
                    return Err(e);
                },
            };
            match unify_with(result_type, arm_type, "match arm result") {
                Ok(unified) => {
                    result_type = unified;
                },
                Err(e) => {
                    return Err(e);
                },
            }
            i += 1;
        }
        match result_type {
            Some(t) => Ok(t),
            None => Err(cannot_infer("match with no arms")),
        }
    }

    /// Types the branches of a conditional from left to right and returns
    /// their common type, if there is a branch.
    fn infer_branches(&mut self, conditions: &Vec<(Expression, Expression)>) -> (r: Result<
        Option<Type>,
        TypeError,
    >)
        ensures
            match r {
                Ok(t) => cond_branches(pair_views(conditions@), 0, old(self).env(), None).0 == Ok::<
                    Option<TypeView>,
                    TypeErrorView,
                >(option_view(t)),
                Err(e) => cond_branches(pair_views(conditions@), 0, old(self).env(), None).0
                    == Err::<Option<TypeView>, TypeErrorView>(e@),
            },
            final(self).env() == cond_branches(pair_views(conditions@), 0, old(self).env(), None).1,
        decreases conditions, 1nat,
    {
        let ghost views = pair_views(conditions@);
        let ghost start = self.env();
        let mut result_type: Option<Type> = None;
        let mut i: usize = 0;
        while i < conditions.len()
            invariant
                0 <= i <= conditions.len(),
                views == pair_views(conditions@),
                start == old(self).env(),
                cond_branches(views, 0, start, None) == cond_branches(
                    views,
                    i as int,
                    self.env(),
                    option_view(result_type),
                ),
            decreases conditions.len() - i,
        {
            let cond_type = match self.infer_expression(&conditions[i].0) {
                Ok(t) => t,
                Err(e) => {
                    return Err(e);
                },
            };
            if !is_bool(&cond_type) {
                return Err(type_mismatch(Type::Bool, cond_type, "condition"));
            }
            let branch_type = match self.infer_expression(&conditions[i].1) {
                Ok(t) => t,
                Err(e) => {
                    return Err(e);
                },
            };
            match unify_with(result_type, branch_type, "cond branch") {
                Ok(unified) => {
                    result_type = unified;
                },
                Err(e) => {
                    return Err(e);
                },
            }
            i += 1;
        }
        Ok(result_type)
    }

    /// Checks patterns against the types at the same positions, from left to
    /// right, adding their bindings to `scope`.
    fn check_patterns(&self, patterns: &Vec<Pattern>, types: &Vec<Type>, scope: &mut TypeEnvironment) -> (r:
        Result<(), TypeError>)
        requires
            patterns.len() == types.len(),
        ensures
            match r {
                Ok(_) => check_patterns(
                    pattern_views(patterns@),
                    type_views(types@),
                    0,
                    self.env(),
                    old(scope)@,
                ) == Ok::<EnvView, TypeErrorView>(final(scope)@),
                Err(e) => check_patterns(
                    pattern_views(patterns@),
                    type_views(types@),
                    0,
                    self.env(),
                    old(scope)@,
                ) == Err::<EnvView, TypeErrorView>(e@),
            },
        decreases patterns, 1nat,
    {
        let ghost views = pattern_views(patterns@);
        let ghost start = scope@;
        let mut i: usize = 0;
        while i < patterns.len()
            invariant
                0 <= i <= patterns.len(),
                patterns.len() == types.len(),
                views == pattern_views(patterns@),
                start == old(scope)@,
                check_patterns(views, type_views(types@), 0, self.env(), start) == check_patterns(
                    views,
                    type_views(types@),
                    i as int,
                    self.env(),
                    scope@,
                ),
            decreases patterns.len() - i,
        {
            match self.check_pattern(&patterns[i], &types[i], scope) {
                Ok(()) => {},
                Err(e) => {
                    return Err(e);
                },
            }
            i += 1;
        }
        Ok(())
    }

    /// Checks every pattern against one element type, from left to right,
    /// adding their bindings to `scope`.
    fn check_list_patterns(
        &self,
        patterns: &Vec<Pattern>,
        element_type: &Type,
        scope: &mut TypeEnvironment,
    ) -> (r: Result<(), TypeError>)
        ensures
            match r {
                Ok(_) => check_patterns(
                    pattern_views(patterns@),
                    Seq::new(pattern_views(patterns@).len(), |i: int| element_type@),
                    0,
                    self.env(),
                    old(scope)@,
                ) == Ok::<EnvView, TypeErrorView>(final(scope)@),
                Err(e) => check_patterns(
                    pattern_views(patterns@),
                    Seq::new(pattern_views(patterns@).len(), |i: int| element_type@),
                    0,
                    self.env(),
                    old(scope)@,
                ) == Err::<EnvView, TypeErrorView>(e@),
            },
        decreases patterns, 1nat,
    {
        let ghost views = pattern_views(patterns@);
        let ghost types = Seq::new(views.len(), |i: int| element_type@);
        let ghost start = scope@;
        let mut i: usize = 0;
        while i < patterns.len()
            invariant
                0 <= i <= patterns.len(),
                views == pattern_views(patterns@),
                types == Seq::new(views.len(), |i: int| element_type@),
                start == old(scope)@,
                check_patterns(views, types, 0, self.env(), start) == check_patterns(
                    views,
                    types,
                    i as int,
                    self.env(),
                    scope@,
                ),
            decreases patterns.len() - i,
        {
            match self.check_pattern(&patterns[i], element_type, scope) {
                Ok(()) => {},
                Err(e) => {
                    return Err(e);
                },
            }
            i += 1;
        }
        Ok(())
    }

    /// The types of a sequence of expressions, inferred from left to right.
    fn infer_sequence(&mut self, es: &Vec<Expression>) -> (r: Result<Vec<Type>, TypeError>)
        ensures
            match r {
                Ok(ts) => infer_all(expr_views(es@), 0, old(self).env(), Seq::empty()).0 == Ok::<
                    Seq<TypeView>,
                    TypeErrorView,
                >(type_views(ts@)),
                Err(e) => infer_all(expr_views(es@), 0, old(self).env(), Seq::empty()).0 == Err::<
                    Seq<TypeView>,
                    TypeErrorView,
                >(e@),
            },
            final(self).env() == infer_all(expr_views(es@), 0, old(self).env(), Seq::empty()).1,
        decreases es, 1nat,
    {
        let ghost views = expr_views(es@);
        let ghost start = self.env();
        let mut types: Vec<Type> = Vec::new();
        let mut i: usize = 0;
        assert(type_views(types@) =~= Seq::<TypeView>::empty());
        while i < es.len()
            invariant
                0 <= i <= es.len(),
                views == expr_views(es@),
                start == old(self).env(),
                infer_all(views, 0, start, Seq::empty()) == infer_all(
                    views,
                    i as int,
                    self.env(),
                    type_views(types@),
                ),
            decreases es.len() - i,
        {
            let ghost before = type_views(types@);
            match self.infer_expression(&es[i]) {
                Ok(t) => {
                    types.push(t);
                    assert(type_views(types@) =~= before.push(t@));
                },
                Err(e) => {
                    return Err(e);
                },
            }
            i += 1;
        }
        Ok(types)
    }

    /// Checks arguments against expected types from left to right.
    fn check_argument_types(
        &mut self,
        arguments: &Vec<Expression>,
        expected: &Vec<Type>,
        contexts: &Vec<String>,
    ) -> (r: Option<TypeError>)
        requires
            expected.len() == arguments.len(),
            contexts.len() == arguments.len(),
        ensures
            match r {
                Some(e) => check_arguments(
                    expr_views(arguments@),
                    type_views(expected@),
                    string_views(contexts@),
                    0,
                    old(self).env(),
                ).0 == Some(e@),
                None => check_arguments(
                    expr_views(arguments@),
                    type_views(expected@),
                    string_views(contexts@),
                    0,
                    old(self).env(),
                ).0 is None,
            },
            final(self).env() == check_arguments(
                expr_views(arguments@),
                type_views(expected@),
                string_views(contexts@),
                0,
                old(self).env(),
            ).1,
        decreases arguments, 1nat,
    {
        let ghost views = expr_views(arguments@);
        let ghost types = type_views(expected@);
        let ghost texts = string_views(contexts@);
        let ghost start = self.env();
        let mut i: usize = 0;
        while i < arguments.len()
            invariant
                0 <= i <= arguments.len(),
                expected.len() == arguments.len(),
                contexts.len() == arguments.len(),
                views == expr_views(arguments@),
                types == type_views(expected@),
                texts == string_views(contexts@),
                start == old(self).env(),
                check_arguments(views, types, texts, 0, start) == check_arguments(
                    views,
                    types,
                    texts,
                    i as int,
                    self.env(),
                ),
            decreases arguments.len() - i,
        {
            match self.infer_expression(&arguments[i]) {
                Ok(t) => {
                    if !type_eq(&t, &expected[i]) {
                        return Some(
                            TypeError::TypeMismatch {
                                expected: clone_type(&expected[i]),
                                actual: t,
                                context: contexts[i].clone(),
                            },
                        );
                    }
                },
                Err(e) => {
                    return Some(e);
                },
            }
            i += 1;
        }
        None
    }

    /// The type of a call of `name`.
    #[verifier::rlimit(40)]
    fn infer_call(&mut self, name: &String, arguments: &Vec<Expression>) -> (r: Result<
        Type,
        TypeError,
    >)
        ensures
            result_view(r) == infer_call(name@, expr_views(arguments@), old(self).env()).0,
            final(self).env() == infer_call(name@, expr_views(arguments@), old(self).env()).1,
        decreases arguments, 2nat,
    {
        proof {
            reveal_with_fuel(Type::model, 3);
        }
        if is_word(name, "Print") {
            return Ok(unit());
        }
        if is_word(name, "Tuple") {
            return match self.infer_sequence(arguments) {
                Ok(types) => {
                    proof {
                        lemma_tuple_view(types);
                    }
                    Ok(Type::Tuple(types))
                },
                Err(e) => Err(e),
            };
        }
        if is_word(name, "Map") || is_word(name, "Filter") {
            if arguments.len() != 2 {
                return Err(
                    TypeError::ArityMismatch {
                        function: name.clone(),
                        expected: 2,
                        actual: arguments.len(),
                    },
                );
            }
            return Ok(Type::List(Box::new(Type::Int32)));
        }
        if is_word(name, "Fold") {
            if arguments.len() != 3 {
                return Err(
                    TypeError::ArityMismatch {
                        function: name.clone(),
                        expected: 3,
                        actual: arguments.len(),
                    },
                );
            }
            return self.infer_expression(&arguments[1]);
        }
        let struct_fields = match self.env.lookup_struct(name.as_str()) {
            Some(fields) => Some(clone_annotations(fields)),
            None => None,
        };
        if let Some(fields) = struct_fields {
            if fields.len() != arguments.len() {
                return Err(
                    TypeError::FieldCountMismatch {
                        struct_name: name.clone(),
                        expected: fields.len(),
                        actual: arguments.len(),
                    },
                );
            }
            let mut expected: Vec<Type> = Vec::new();
            let mut contexts: Vec<String> = Vec::new();
            let mut i: usize = 0;
            while i < fields.len()
                invariant
                    0 <= i <= fields.len(),
                    expected.len() == i,
                    contexts.len() == i,
                    forall|j: int| 0 <= j < i ==> expected[j]@ == fields[j].type_@,
                    forall|j: int| 0 <= j < i ==> contexts[j]@ == "field "@ + fields[j].name@,
                decreases fields.len() - i,
            {
                expected.push(clone_type(&fields[i].type_));
                let mut context = String::from_str("field ");
                context.append(fields[i].name.as_str());
                contexts.push(context);
                i += 1;
            }
            assert(type_views(expected@) =~= declared_types(annotation_views(fields@)));
            assert(string_views(contexts@) =~= field_contexts(annotation_views(fields@)));
            return match self.check_argument_types(arguments, &expected, &contexts) {
                Some(e) => Err(e),
                None => Ok(Type::Custom(name.clone())),
            };
        }
        let bound = match self.env.lookup(name.as_str()) {
            Some(t) => Some(clone_type(t)),
            None => None,
        };
        match bound {
            Some(func_type) => match func_type {
                Type::Function(param_types, return_type) => {
                    proof {
                        lemma_function_view(param_types, return_type);
                    }
                    if param_types.len() != arguments.len() {
                        return Err(
                            TypeError::ArityMismatch {
                                function: name.clone(),
                                expected: param_types.len(),
                                actual: arguments.len(),
                            },
                        );
                    }
                    let mut contexts: Vec<String> = Vec::new();
                    let mut i: usize = 0;
                    while i < param_types.len()
                        invariant
                            0 <= i <= param_types.len(),
                            contexts.len() == i,
                            forall|j: int| 0 <= j < i ==> contexts[j]@ == "argument to "@ + name@,
                        decreases param_types.len() - i,
                    {
                        let mut context = String::from_str("argument to ");
                        context.append(name.as_str());
                        contexts.push(context);
                        i += 1;
                    }
                    assert(string_views(contexts@) =~= argument_contexts(
                        name@,
                        param_types.len() as nat,
                    ));
                    match self.check_argument_types(arguments, &param_types, &contexts) {
                        Some(e) => Err(e),
                        None => Ok(*return_type),
                    }
                },
                other => {
                    let mut context = name.clone();
                    context.append(" is not a function");
                    let no_params: Vec<Type> = Vec::new();
                    let placeholder = Box::new(Type::Int32);
                    proof {
                        lemma_function_view(no_params, placeholder);
                        assert(type_views(no_params@) =~= Seq::<TypeView>::empty());
                    }
                    Err(
                        TypeError::TypeMismatch {
                            expected: Type::Function(no_params, placeholder),
                            actual: other,
                            context,
                        },
                    )
                },
            },
            None => Err(TypeError::UndefinedIdentifier(name.clone())),
        }
    }

    /// Checks a pattern against the type of what it matches and adds the
    /// pattern's bindings to `scope`.
    #[verifier::rlimit(40)]
    fn check_pattern(&self, pattern: &Pattern, expected_type: &Type, scope: &mut TypeEnvironment) -> (r:
        Result<(), TypeError>)
        ensures
            match r {
                Ok(_) => check_pattern(pattern@, expected_type@, self.env(), old(scope)@) == Ok::<
                    EnvView,
                    TypeErrorView,
                >(final(scope)@),
                Err(e) => check_pattern(pattern@, expected_type@, self.env(), old(scope)@) == Err::<
                    EnvView,
                    TypeErrorView,
                >(e@),
            },
        decreases pattern, 0nat,
    {
        proof {
            reveal_with_fuel(Type::model, 3);
        }
        match pattern {
            Pattern::Wildcard => Ok(()),
            Pattern::Literal(expr) => {
                let mut temp_inference = TypeInference { env: self.env.child() };
                match temp_inference.infer_expression(expr) {
                    Ok(literal_type) => {
                        if !type_eq(&literal_type, expected_type) {
                            Err(
                                type_mismatch(
                                    clone_type(expected_type),
                                    literal_type,
                                    "pattern literal",
                                ),
                            )
                        } else {
                            Ok(())
                        }
                    },
                    Err(e) => Err(e),
                }
            },
            Pattern::Variable(name) => {
                scope.bind(name.clone(), clone_type(expected_type));
                Ok(())
            },
            Pattern::Constructor { name, patterns } => {
                assert(pattern@->Constructor_patterns =~= pattern_views(patterns@));
                if is_word(name, "Some") {
                    match expected_type {
                        Type::Option(inner_type) => {
                            if patterns.len() != 1 {
                                return Err(
                                    cannot_infer("Some pattern must have exactly one argument"),
                                );
                            }
                            self.check_pattern(&patterns[0], inner_type, scope)
                        },
                        _ => Err(
                            type_mismatch(
                                Type::Option(Box::new(Type::Int32)),
                                clone_type(expected_type),
                                "Some pattern",
                            ),
                        ),
                    }
                } else if is_word(name, "None") {
                    match expected_type {
                        Type::Option(_) => {
                            if patterns.len() != 0 {
                                return Err(cannot_infer("None pattern should have no arguments"));
                            }
                            Ok(())
                        },
                        _ => Err(
                            type_mismatch(
                                Type::Option(Box::new(Type::Int32)),
                                clone_type(expected_type),
                                "None pattern",
                            ),
                        ),
                    }
                } else if is_word(name, "Ok") {
                    match expected_type {
                        Type::Result(ok_type, _) => {
                            if patterns.len() != 1 {
                                return Err(
                                    cannot_infer("Ok pattern must have exactly one argument"),
                                );
                            }
                            self.check_pattern(&patterns[0], ok_type, scope)
                        },
                        _ => Err(
                            type_mismatch(
                                Type::Result(Box::new(Type::Int32), Box::new(Type::String)),
                                clone_type(expected_type),
                                "Ok pattern",
                            ),
                        ),
                    }
                } else if is_word(name, "Err") {
                    match expected_type {
                        Type::Result(_, err_type) => {
                            if patterns.len() != 1 {
                                return Err(
                                    cannot_infer("Err pattern must have exactly one argument"),
                                );
                            }
                            self.check_pattern(&patterns[0], err_type, scope)
                        },
                        _ => Err(
                            type_mismatch(
                                Type::Result(Box::new(Type::Int32), Box::new(Type::String)),
                                clone_type(expected_type),
                                "Err pattern",
                            ),
                        ),
                    }
                } else {
                    let mut what = String::from_str("Unknown constructor: ");
                    what.append(name.as_str());
                    Err(TypeError::CannotInfer(what))
                }
            },
            Pattern::Tuple(patterns) => {
                assert(pattern@->Tuple_0 =~= pattern_views(patterns@));
                match expected_type {
                    Type::Tuple(types) => {
                        proof {
                            lemma_tuple_view(*types);
                        }
                        if patterns.len() != types.len() {
                            let mut context = String::from_str(
                                "tuple pattern length mismatch: expected ",
                            );
                            context.append(usize_to_text(types.len()).as_str());
                            context.append(", got ");
                            context.append(usize_to_text(patterns.len()).as_str());
                            return Err(
                                TypeError::TypeMismatch {
                                    expected: clone_type(expected_type),
                                    actual: unit(),
                                    context,
                                },
                            );
                        }
                        self.check_patterns(patterns, types, scope)
                    },
                    _ => Err(type_mismatch(unit(), clone_type(expected_type), "tuple pattern")),
                }
            },
            Pattern::List(patterns) => {
                assert(pattern@->List_0 =~= pattern_views(patterns@));
                match expected_type {
                    Type::List(element_type) => self.check_list_patterns(
                        patterns,
                        element_type,
                        scope,
                    ),
                    _ => Err(
                        type_mismatch(
                            Type::List(Box::new(Type::Int32)),
                            clone_type(expected_type),
                            "list pattern",
                        ),
                    ),
                }
            },
        }
    }

    /// Type checks a program: the expressions one after another, up to the first error.
    pub fn check_program(&mut self, expressions: &[Expression]) -> (r: Result<(), TypeError>)
        ensures
            match r {
                Ok(_) => infer_all(expr_views(expressions@), 0, old(self).env(), Seq::empty()).0 is Ok,
                Err(e) => infer_all(expr_views(expressions@), 0, old(self).env(), Seq::empty()).0
                    == Err::<Seq<TypeView>, TypeErrorView>(e@),
            },
            final(self).env() == infer_all(
                expr_views(expressions@),
                0,
                old(self).env(),
                Seq::empty(),
            ).1,
    {
        let ghost views = expr_views(expressions@);
        let ghost start = self.env();
        let ghost mut types: Seq<TypeView> = Seq::empty();
        let mut i: usize = 0;
        while i < expressions.len()
            invariant
                0 <= i <= expressions.len(),
                views == expr_views(expressions@),
                start == old(self).env(),
                infer_all(views, 0, start, Seq::empty()) == infer_all(
                    views,
                    i as int,
                    self.env(),
                    types,
                ),
            decreases expressions.len() - i,
        {
            match self.infer_expression(&expressions[i]) {
                Ok(t) => {
                    proof {
                        types = types.push(t@);
                    }
                },
                Err(e) => {
                    return Err(e);
                },
            }
            i += 1;
        }
        Ok(())
    }
}

/// The type of a literal by its kind.
pub open spec fn literal_type(e: ExprView) -> TypeView
    recommends
        e is Number || e is Float || e is String || e is Boolean,
{
    match e {
        ExprView::Number(_) => TypeView::Int32,
        ExprView::Float(_) => TypeView::Float64,
        ExprView::String(_) => TypeView::String,
        _ => TypeView::Bool,
    }
}

/// Inference never fails on a literal: a number is an `Int32`, a float a
/// `Float64`, a string a `String` and a boolean a `Bool`, in every
/// environment, and the environment stays as it was.
pub proof fn law_literal_types(e: ExprView, env: EnvView)
    requires
        e is Number || e is Float || e is String || e is Boolean,
    ensures
        infer(e, env) == (Ok::<TypeView, TypeErrorView>(literal_type(e)), env),
{
}

/// The rest of a list whose elements from `j` on all have the first element's type.
proof fn lemma_list_rest_same(es: Seq<ExprView>, envs: Seq<EnvView>, ts: Seq<TypeView>, j: int)
    requires
        es.len() > 0,
        envs.len() == es.len() + 1,
        ts.len() == es.len(),
        1 <= j <= es.len(),
        forall|i: int|
            0 <= i < es.len() ==> infer(#[trigger] es[i], envs[i]) == (
                Ok::<TypeView, TypeErrorView>(ts[i]),
                envs[i + 1],
            ),
        forall|i: int| 0 <= i < es.len() ==> #[trigger] ts[i] == ts[0],
    ensures
        infer_list_rest(es, j, envs[j], ts[0]) == (
            Ok::<TypeView, TypeErrorView>(TypeView::List(Box::new(ts[0]))),
            envs[es.len() as int],
        ),
    decreases es.len() - j,
{
    if j < es.len() {
        assert(infer(es[j], envs[j]) == (Ok::<TypeView, TypeErrorView>(ts[j]), envs[j + 1]));
        assert(ts[j] == ts[0]);
        lemma_list_rest_same(es, envs, ts, j + 1);
    }
}

/// A non-empty list whose elements all have one type `T` has type `List(T)`:
/// where the elements have the types `ts` one after another, from the
/// environment `envs[i]` to `envs[i + 1]` each, and every type is that of the
/// first element.
pub proof fn law_homogeneous_list(es: Seq<ExprView>, envs: Seq<EnvView>, ts: Seq<TypeView>)
    requires
        es.len() > 0,
        envs.len() == es.len() + 1,
        ts.len() == es.len(),
        forall|i: int|
            0 <= i < es.len() ==> infer(#[trigger] es[i], envs[i]) == (
                Ok::<TypeView, TypeErrorView>(ts[i]),
                envs[i + 1],
            ),
        forall|i: int| 0 <= i < es.len() ==> #[trigger] ts[i] == ts[0],
    ensures
        infer(ExprView::List(es), envs[0]) == (
            Ok::<TypeView, TypeErrorView>(TypeView::List(Box::new(ts[0]))),
            envs[es.len() as int],
        ),
{
    assert(infer(es[0], envs[0]) == (Ok::<TypeView, TypeErrorView>(ts[0]), envs[1]));
    lemma_list_rest_same(es, envs, ts, 1);
}

/// The rest of a list whose element `k` is the first of another type than the first element.
proof fn lemma_list_rest_differs(
    es: Seq<ExprView>,
    envs: Seq<EnvView>,
    ts: Seq<TypeView>,
    k: int,
    j: int,
)
    requires
        envs.len() == es.len() + 1,
        ts.len() == es.len(),
        1 <= j <= k < es.len(),
        forall|i: int|
            0 <= i <= k ==> infer(#[trigger] es[i], envs[i]) == (
                Ok::<TypeView, TypeErrorView>(ts[i]),
                envs[i + 1],
            ),
        forall|i: int| 0 <= i < k ==> #[trigger] ts[i] == ts[0],
        ts[k] != ts[0],
    ensures
        infer_list_rest(es, j, envs[j], ts[0]) == (
            Err::<TypeView, TypeErrorView>(mismatch(ts[0], ts[k], "list elements"@)),
            envs[k + 1],
        ),
    decreases k - j,
{
    assert(infer(es[j], envs[j]) == (Ok::<TypeView, TypeErrorView>(ts[j]), envs[j + 1]));
    if j < k {
        assert(ts[j] == ts[0]);
        lemma_list_rest_differs(es, envs, ts, k, j + 1);
    }
}

/// A list with an element of another type than the first element's fails with
/// a `TypeMismatch` whose `expected` is the first element's type and whose
/// `actual` is the type of the first such element, `es[k]`.
pub proof fn law_heterogeneous_list(es: Seq<ExprView>, envs: Seq<EnvView>, ts: Seq<TypeView>, k: int)
    requires
        envs.len() == es.len() + 1,
        ts.len() == es.len(),
        1 <= k < es.len(),
        forall|i: int|
            0 <= i <= k ==> infer(#[trigger] es[i], envs[i]) == (
                Ok::<TypeView, TypeErrorView>(ts[i]),
                envs[i + 1],
            ),
        forall|i: int| 0 <= i < k ==> #[trigger] ts[i] == ts[0],
        ts[k] != ts[0],
    ensures
        infer(ExprView::List(es), envs[0]) == (
            Err::<TypeView, TypeErrorView>(mismatch(ts[0], ts[k], "list elements"@)),
            envs[k + 1],
        ),
{
    assert(infer(es[0], envs[0]) == (Ok::<TypeView, TypeErrorView>(ts[0]), envs[1]));
    lemma_list_rest_differs(es, envs, ts, k, 1);
}

/// Whether `name` is one of the built-in call names.
pub open spec fn is_builtin_name(name: Seq<char>) -> bool {
    name == "Print"@ || name == "Tuple"@ || name == "Map"@ || name == "Filter"@ || name == "Fold"@
}

/// After a function definition has been typed, a call of the function with
/// another number of arguments than it has parameters fails with an
/// `ArityMismatch` that gives both numbers. This holds of every function whose
/// name is neither a built-in nor the name of a struct.
pub proof fn law_arity_mismatch(
    name: Seq<char>,
    parameters: Seq<TypeAnnotationView>,
    body: ExprView,
    arguments: Seq<ExprView>,
    env: EnvView,
)
    requires
        infer(ExprView::FunctionDefinition { name, parameters, body: Box::new(body) }, env).0 is Ok,
        arguments.len() != parameters.len(),
        !is_builtin_name(name),
        !env.structs.contains_key(name),
    ensures
        infer(
            ExprView::FunctionCall {
                function: Box::new(ExprView::Identifier(name)),
                arguments,
            },
            infer(ExprView::FunctionDefinition { name, parameters, body: Box::new(body) }, env).1,
        ).0 == Err::<TypeView, TypeErrorView>(
            TypeErrorView::ArityMismatch {
                function: name,
                expected: parameters.len(),
                actual: arguments.len(),
            },
        ),
{
    let definition = ExprView::FunctionDefinition { name, parameters, body: Box::new(body) };
    let call = ExprView::FunctionCall { function: Box::new(ExprView::Identifier(name)), arguments };
    let body_type = infer(body, env.bind_all(parameters)).0;
    assert(body_type is Ok);
    let function_type = TypeView::Function(declared_types(parameters), Box::new(body_type->Ok_0));
    let after = infer(definition, env).1;
    assert(after == env.bind(name, function_type));
    assert(after.bindings.contains_key(name));
    assert(after.bindings[name] == function_type);
    assert(!after.structs.contains_key(name));
    assert(infer(call, after) == infer_call(name, arguments, after));
}


/// A `Fold` has the type of its initial value, whatever its function and its
/// list are, and fails exactly as the initial value does.
pub proof fn law_fold_type(function: ExprView, initial: ExprView, list: ExprView, env: EnvView)
    ensures
        infer(
            ExprView::FunctionCall {
                function: Box::new(ExprView::Identifier("Fold"@)),
                arguments: seq![function, initial, list],
            },
            env,
        ) == infer(initial, env),
{
    reveal_strlit("Fold");
    reveal_strlit("Print");
    reveal_strlit("Tuple");
    reveal_strlit("Map");
    reveal_strlit("Filter");
    assert("Fold"@.len() == 4 && "Print"@.len() == 5 && "Tuple"@.len() == 5 && "Map"@.len() == 3
        && "Filter"@.len() == 6);
    let arguments = seq![function, initial, list];
    assert(arguments[1] == initial);
    assert(infer_call("Fold"@, arguments, env) == infer(initial, env));
}

/// Whether arm `i` checks against a scrutinee of type `scrutinee` and has a
/// result of type `t`.
pub open spec fn arm_has_type(
    arms: Seq<(PatternView, ExprView)>,
    i: int,
    scrutinee: TypeView,
    env: EnvView,
    t: TypeView,
) -> bool {
    check_pattern(arms[i].0, scrutinee, env, env) is Ok && infer(
        arms[i].1,
        check_pattern(arms[i].0, scrutinee, env, env)->Ok_0,
    ).0 == Ok::<TypeView, TypeErrorView>(t)
}

/// The arms from `i` on have the common type `t`, where each of them has it.
proof fn lemma_match_arms_common(
    arms: Seq<(PatternView, ExprView)>,
    i: int,
    scrutinee: TypeView,
    env: EnvView,
    t: TypeView,
)
    requires
        arms.len() > 0,
        0 <= i <= arms.len(),
        forall|j: int| 0 <= j < arms.len() ==> arm_has_type(arms, j, scrutinee, env, t),
    ensures
        match_arms(
            arms,
            i,
            scrutinee,
            env,
            if i == 0 {
                None
            } else {
                Some(t)
            },
        ) == Ok::<TypeView, TypeErrorView>(t),
    decreases arms.len() - i,
{
    if i < arms.len() {
        assert(arm_has_type(arms, i, scrutinee, env, t));
        lemma_match_arms_common(arms, i + 1, scrutinee, env, t);
    }
}

/// A match whose arms all check against the scrutinee's type and all have
/// results of one type `t` has type `t`, and the bindings of its patterns do
/// not reach the environment.
pub proof fn law_match_type(
    value: ExprView,
    arms: Seq<(PatternView, ExprView)>,
    env: EnvView,
    scrutinee: TypeView,
    after: EnvView,
    t: TypeView,
)
    requires
        arms.len() > 0,
        infer(value, env) == (Ok::<TypeView, TypeErrorView>(scrutinee), after),
        forall|j: int| 0 <= j < arms.len() ==> arm_has_type(arms, j, scrutinee, after, t),
    ensures
        infer(ExprView::Match { value: Box::new(value), arms }, env) == (
            Ok::<TypeView, TypeErrorView>(t),
            after,
        ),
{
    lemma_match_arms_common(arms, 0, scrutinee, after, t);
}

/// The text of a string as a quoted literal: in double quotes, with the
/// characters that cannot stand for themselves escaped.
pub uninterp spec fn quoted(s: Seq<char>) -> Seq<char>;

/// Formats a string with its `Debug` implementation, which writes it as a
/// quoted and escaped literal; the result depends on the string alone.
#[verifier::external_body]
fn debug_quote(s: &str) -> (r: String)
    ensures
        r@ == quoted(s@),
{
    format!("{:?}", s)
}

/// The text of a type in error messages: the variant's name, with what it
/// holds in parentheses behind it.
pub open spec fn type_debug_text(t: TypeView) -> Seq<char>
    decreases t,
{
    match t {
        TypeView::Int8 => "Int8"@,
        TypeView::Int16 => "Int16"@,
        TypeView::Int32 => "Int32"@,
        TypeView::Int64 => "Int64"@,
        TypeView::Int128 => "Int128"@,
        TypeView::Int => "Int"@,
        TypeView::UInt8 => "UInt8"@,
        TypeView::UInt16 => "UInt16"@,
        TypeView::UInt32 => "UInt32"@,
        TypeView::UInt64 => "UInt64"@,
        TypeView::UInt128 => "UInt128"@,
        TypeView::UInt => "UInt"@,
        TypeView::Float32 => "Float32"@,
        TypeView::Float64 => "Float64"@,
        TypeView::Bool => "Bool"@,
        TypeView::Char => "Char"@,
        TypeView::String => "String"@,
        TypeView::Tuple(ts) => "Tuple(["@ + join(type_debug_texts(ts), ", "@) + "])"@,
        TypeView::List(inner) => "List("@ + type_debug_text(*inner) + ")"@,
        TypeView::Array(inner, size) => "Array("@ + type_debug_text(*inner) + ", "@ + nat_text(
            size as nat,
        ) + ")"@,
        TypeView::Slice(inner) => "Slice("@ + type_debug_text(*inner) + ")"@,
        TypeView::HashMap(k, v) => "HashMap("@ + type_debug_text(*k) + ", "@ + type_debug_text(*v)
            + ")"@,
        TypeView::HashSet(inner) => "HashSet("@ + type_debug_text(*inner) + ")"@,
        TypeView::BTreeMap(k, v) => "BTreeMap("@ + type_debug_text(*k) + ", "@ + type_debug_text(*v)
            + ")"@,
        TypeView::BTreeSet(inner) => "BTreeSet("@ + type_debug_text(*inner) + ")"@,
        TypeView::Function(ps, r) => "Function(["@ + join(type_debug_texts(ps), ", "@) + "], "@
            + type_debug_text(*r) + ")"@,
        TypeView::Option(inner) => "Option("@ + type_debug_text(*inner) + ")"@,
        TypeView::Result(t, e) => "Result("@ + type_debug_text(*t) + ", "@ + type_debug_text(*e)
            + ")"@,
        TypeView::LogLevel => "LogLevel"@,
        TypeView::Custom(name) => "Custom("@ + quoted(name) + ")"@,
    }
}

/// The texts of a sequence of types in error messages.
pub open spec fn type_debug_texts(ts: Seq<TypeView>) -> Seq<Seq<char>>
    decreases ts,
{
    Seq::new(
        ts.len(),
        |i: int|
            if 0 <= i < ts.len() {
                type_debug_text(ts[i])
            } else {
                Seq::empty()
            },
    )
}

/// The message of an error.
pub open spec fn error_text(e: TypeErrorView) -> Seq<char> {
    match e {
        TypeErrorView::TypeMismatch { expected, actual, context } => "Type mismatch in "@ + context
            + ": expected "@ + type_debug_text(expected) + ", got "@ + type_debug_text(actual),
        TypeErrorView::UndefinedIdentifier(name) => "Undefined identifier: "@ + name,
        TypeErrorView::ArityMismatch { function, expected, actual } => "Function "@ + function
            + " expects "@ + nat_text(expected) + " arguments, got "@ + nat_text(actual),
        TypeErrorView::CannotInfer(what) => "Cannot infer type for: "@ + what,
        TypeErrorView::UndefinedStruct(name) => "Undefined struct: "@ + name,
        TypeErrorView::FieldCountMismatch { struct_name, expected, actual } => "Struct "@
            + struct_name + " expects "@ + nat_text(expected) + " fields, got "@ + nat_text(actual),
    }
}

/// `head`, then `inner`, then `tail`.
fn wrap(head: &str, inner: &str, tail: &str) -> (r: String)
    ensures
        r@ == head@ + inner@ + tail@,
{
    let mut out = String::from_str(head);
    out.append(inner);
    out.append(tail);
    out
}

/// `head`, then `first`, a comma, `second` and a closing parenthesis.
fn wrap_pair(head: &str, first: &str, second: &str) -> (r: String)
    ensures
        r@ == head@ + first@ + ", "@ + second@ + ")"@,
{
    let mut out = String::from_str(head);
    out.append(first);
    out.append(", ");
    out.append(second);
    out.append(")");
    out
}

/// The text of a type in error messages.
#[verifier::rlimit(40)]
pub fn type_debug(ty: &Type) -> (r: String)
    ensures
        r@ == type_debug_text(ty@),
    decreases ty, 1nat,
{
    match ty {
        Type::Int8 => String::from_str("Int8"),
        Type::Int16 => String::from_str("Int16"),
        Type::Int32 => String::from_str("Int32"),
        Type::Int64 => String::from_str("Int64"),
        Type::Int128 => String::from_str("Int128"),
        Type::Int => String::from_str("Int"),
        Type::UInt8 => String::from_str("UInt8"),
        Type::UInt16 => String::from_str("UInt16"),
        Type::UInt32 => String::from_str("UInt32"),
        Type::UInt64 => String::from_str("UInt64"),
        Type::UInt128 => String::from_str("UInt128"),
        Type::UInt => String::from_str("UInt"),
        Type::Float32 => String::from_str("Float32"),
        Type::Float64 => String::from_str("Float64"),
        Type::Bool => String::from_str("Bool"),
        Type::Char => String::from_str("Char"),
        Type::String => String::from_str("String"),
        Type::Tuple(types) => {
            assert(ty@->Tuple_0 =~= type_views(types@));
            let joined = join_strings(&type_debugs(types), ", ");
            wrap("Tuple([", joined.as_str(), "])")
        },
        Type::List(inner) => wrap("List(", type_debug(inner).as_str(), ")"),
        Type::Array(inner, size) => wrap_pair(
            "Array(",
            type_debug(inner).as_str(),
            usize_to_text(*size).as_str(),
        ),
        Type::Slice(inner) => wrap("Slice(", type_debug(inner).as_str(), ")"),
        Type::HashMap(key, value) => wrap_pair(
            "HashMap(",
            type_debug(key).as_str(),
            type_debug(value).as_str(),
        ),
        Type::HashSet(inner) => wrap("HashSet(", type_debug(inner).as_str(), ")"),
        Type::BTreeMap(key, value) => wrap_pair(
            "BTreeMap(",
            type_debug(key).as_str(),
            type_debug(value).as_str(),
        ),
        Type::BTreeSet(inner) => wrap("BTreeSet(", type_debug(inner).as_str(), ")"),
        Type::Function(params, ret) => {
            assert(ty@->Function_0 =~= type_views(params@));
            let joined = join_strings(&type_debugs(params), ", ");
            let mut out = wrap("Function([", joined.as_str(), "], ");
            out.append(type_debug(ret).as_str());
            out.append(")");
            out
        },
        Type::Option(inner) => wrap("Option(", type_debug(inner).as_str(), ")"),
        Type::Result(ok_type, err_type) => wrap_pair(
            "Result(",
            type_debug(ok_type).as_str(),
            type_debug(err_type).as_str(),
        ),
        Type::LogLevel => String::from_str("LogLevel"),
        Type::Custom(name) => wrap("Custom(", debug_quote(name.as_str()).as_str(), ")"),
    }
}

/// The texts of a sequence of types in error messages.
fn type_debugs(types: &Vec<Type>) -> (r: Vec<String>)
    ensures
        string_views(r@) == type_debug_texts(type_views(types@)),
    decreases types, 0nat,
{
    let mut out: Vec<String> = Vec::new();
    let mut i: usize = 0;
    while i < types.len()
        invariant
            0 <= i <= types.len(),
            out.len() == i,
            forall|j: int| 0 <= j < i ==> out[j]@ == type_debug_text(types[j]@),
        decreases types.len() - i,
    {
        out.push(type_debug(&types[i]));
        i += 1;
    }
    assert(string_views(out@) =~= type_debug_texts(type_views(types@)));
    out
}

impl TypeError {
    /// The message of this error, as it is shown to the user.
    pub fn to_string(&self) -> (r: String)
        ensures
            r@ == error_text(self@),
    {
        match self {
            TypeError::TypeMismatch { expected, actual, context } => {
                let mut out = wrap("Type mismatch in ", context.as_str(), ": expected ");
                out.append(type_debug(expected).as_str());
                out.append(", got ");
                out.append(type_debug(actual).as_str());
                out
            },
            TypeError::UndefinedIdentifier(name) => {
                let mut out = String::from_str("Undefined identifier: ");
                out.append(name.as_str());
                out
            },
            TypeError::ArityMismatch { function, expected, actual } => {
                let mut out = wrap("Function ", function.as_str(), " expects ");
                out.append(usize_to_text(*expected).as_str());
                out.append(" arguments, got ");
                out.append(usize_to_text(*actual).as_str());
                out
            },
            TypeError::CannotInfer(what) => {
                let mut out = String::from_str("Cannot infer type for: ");
                out.append(what.as_str());
                out
            },
            TypeError::UndefinedStruct(name) => {
                let mut out = String::from_str("Undefined struct: ");
                out.append(name.as_str());
                out
            },
            TypeError::FieldCountMismatch { struct_name, expected, actual } => {
                let mut out = wrap("Struct ", struct_name.as_str(), " expects ");
                out.append(usize_to_text(*expected).as_str());
                out.append(" fields, got ");
                out.append(usize_to_text(*actual).as_str());
                out
            },
        }
    }
}

} // verus!
