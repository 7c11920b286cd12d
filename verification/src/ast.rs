//! Shared data definitions of the W language: types, patterns, expressions and
//! operators, each with the mathematical model that the contracts of the other
//! modules speak of.
//!
//! An executable value (`Type`, `Pattern`, `Expression`, ...) owns `String`s and
//! `Vec`s; its view (`TypeView`, `PatternView`, `ExprView`, ...) is the same tree
//! over `Seq<char>` and `Seq<_>`.
use vstd::prelude::*;

verus! {

/// Severity of a log statement.
#[derive(Debug, Clone, Copy, PartialEq, Eq, Structural)]
pub enum LogLevel {
    Debug,
    Info,
    Warn,
    Error,
}

/// Binary operators. All of them share one precedence tier.
#[derive(Debug, Clone, Copy, PartialEq, Eq, Structural)]
pub enum Operator {
    Add,
    Subtract,
    Multiply,
    Divide,
    Power,
    Equals,
    NotEquals,
    LessThan,
    GreaterThan,
}

/// The target type system. Two types are compatible exactly when their views
/// are equal: there is no subtyping and no coercion.
#[derive(Debug, PartialEq)]
pub enum Type {
    Int8,
    Int16,
    Int32,
    Int64,
    Int128,
    /// Pointer-width signed integer.
    Int,
    UInt8,
    UInt16,
    UInt32,
    UInt64,
    UInt128,
    /// Pointer-width unsigned integer.
    UInt,
    Float32,
    Float64,
    Bool,
    Char,
    String,
    Tuple(Vec<Type>),
    List(Box<Type>),
    /// Fixed-size array: element type and length.
    Array(Box<Type>, usize),
    Slice(Box<Type>),
    /// Hash map from key type to value type.
    HashMap(Box<Type>, Box<Type>),
    HashSet(Box<Type>),
    BTreeMap(Box<Type>, Box<Type>),
    BTreeSet(Box<Type>),
    /// Parameter types and return type.
    Function(Vec<Type>, Box<Type>),
    Option(Box<Type>),
    Result(Box<Type>, Box<Type>),
    LogLevel,
    /// A user-defined struct, by name.
    Custom(String),
}

/// Model of a [`Type`].
pub enum TypeView {
    Int8,
    Int16,
    Int32,
    Int64,
    Int128,
    Int,
    UInt8,
    UInt16,
    UInt32,
    UInt64,
    UInt128,
    UInt,
    Float32,
    Float64,
    Bool,
    Char,
    String,
    Tuple(Seq<TypeView>),
    List(Box<TypeView>),
    Array(Box<TypeView>, usize),
    Slice(Box<TypeView>),
    HashMap(Box<TypeView>, Box<TypeView>),
    HashSet(Box<TypeView>),
    BTreeMap(Box<TypeView>, Box<TypeView>),
    BTreeSet(Box<TypeView>),
    Function(Seq<TypeView>, Box<TypeView>),
    Option(Box<TypeView>),
    Result(Box<TypeView>, Box<TypeView>),
    LogLevel,
    Custom(Seq<char>),
}

impl Type {
    /// The model of this type, by structural recursion.
    pub open spec fn model(&self) -> TypeView
        decreases self,
    {
        match self {
            Type::Int8 => TypeView::Int8,
            Type::Int16 => TypeView::Int16,
            Type::Int32 => TypeView::Int32,
            Type::Int64 => TypeView::Int64,
            Type::Int128 => TypeView::Int128,
            Type::Int => TypeView::Int,
            Type::UInt8 => TypeView::UInt8,
            Type::UInt16 => TypeView::UInt16,
            Type::UInt32 => TypeView::UInt32,
            Type::UInt64 => TypeView::UInt64,
            Type::UInt128 => TypeView::UInt128,
            Type::UInt => TypeView::UInt,
            Type::Float32 => TypeView::Float32,
            Type::Float64 => TypeView::Float64,
            Type::Bool => TypeView::Bool,
            Type::Char => TypeView::Char,
            Type::String => TypeView::String,
            Type::Tuple(ts) => TypeView::Tuple(
                Seq::new(
                    ts.len() as nat,
                    |i: int|
                        if 0 <= i < ts.len() {
                            ts[i].model()
                        } else {
                            TypeView::Bool
                        },
                ),
            ),
            Type::List(t) => TypeView::List(Box::new(t.model())),
            Type::Array(t, n) => TypeView::Array(Box::new(t.model()), *n),
            Type::Slice(t) => TypeView::Slice(Box::new(t.model())),
            Type::HashMap(k, v) => TypeView::HashMap(Box::new(k.model()), Box::new(v.model())),
            Type::HashSet(t) => TypeView::HashSet(Box::new(t.model())),
            Type::BTreeMap(k, v) => TypeView::BTreeMap(Box::new(k.model()), Box::new(v.model())),
            Type::BTreeSet(t) => TypeView::BTreeSet(Box::new(t.model())),
            Type::Function(ps, r) => TypeView::Function(
                Seq::new(
                    ps.len() as nat,
                    |i: int|
                        if 0 <= i < ps.len() {
                            ps[i].model()
                        } else {
                            TypeView::Bool
                        },
                ),
                Box::new(r.model()),
            ),
            Type::Option(t) => TypeView::Option(Box::new(t.model())),
            Type::Result(t, e) => TypeView::Result(Box::new(t.model()), Box::new(e.model())),
            Type::LogLevel => TypeView::LogLevel,
            Type::Custom(name) => TypeView::Custom(name@),
        }
    }
}

impl View for Type {
    type V = TypeView;

    open spec fn view(&self) -> TypeView {
        self.model()
    }
}

/// The views of a sequence of types, element by element.
pub open spec fn type_views(ts: Seq<Type>) -> Seq<TypeView> {
    Seq::new(ts.len(), |i: int| ts[i]@)
}

/// A tuple type's view holds the views of its components.
pub proof fn lemma_tuple_view(ts: Vec<Type>)
    ensures
        Type::Tuple(ts)@ == TypeView::Tuple(type_views(ts@)),
{
    assert(Type::Tuple(ts)@->Tuple_0 =~= type_views(ts@));
}

/// A function type's view holds the views of its parameters and of its result.
pub proof fn lemma_function_view(ps: Vec<Type>, r: Box<Type>)
    ensures
        Type::Function(ps, r)@ == TypeView::Function(type_views(ps@), Box::new(r@)),
{
    assert(Type::Function(ps, r)@->Function_0 =~= type_views(ps@));
}

/// A name with its declared type: a parameter or a struct field.
#[derive(Debug, PartialEq)]
pub struct TypeAnnotation {
    pub name: String,
    pub type_: Type,
}

/// Model of a [`TypeAnnotation`].
pub struct TypeAnnotationView {
    pub name: Seq<char>,
    pub type_: TypeView,
}

impl View for TypeAnnotation {
    type V = TypeAnnotationView;

    open spec fn view(&self) -> TypeAnnotationView {
        TypeAnnotationView { name: self.name@, type_: self.type_@ }
    }
}

/// The views of a sequence of annotations, element by element.
pub open spec fn annotation_views(ps: Seq<TypeAnnotation>) -> Seq<TypeAnnotationView> {
    Seq::new(ps.len(), |i: int| ps[i]@)
}

/// Patterns of a `Match` arm.
#[derive(Debug, PartialEq)]
pub enum Pattern {
    /// `_`: matches anything.
    Wildcard,
    /// Matches one literal value.
    Literal(Box<Expression>),
    /// Binds the value to a name.
    Variable(String),
    /// `Name[p1, ...]`, which covers `Some`, `None`, `Ok` and `Err`.
    Constructor { name: String, patterns: Vec<Pattern> },
    Tuple(Vec<Pattern>),
    List(Vec<Pattern>),
}

/// Model of a [`Pattern`].
pub enum PatternView {
    Wildcard,
    Literal(Box<ExprView>),
    Variable(Seq<char>),
    Constructor { name: Seq<char>, patterns: Seq<PatternView> },
    Tuple(Seq<PatternView>),
    List(Seq<PatternView>),
}

/// A node of the syntax tree. Each node owns its children.
#[derive(Debug, PartialEq)]
pub enum Expression {
    Number(i32),
    /// A floating-point literal, kept as its decimal text.
    Float(String),
    String(String),
    Boolean(bool),
    Tuple(Vec<Expression>),
    List(Vec<Expression>),
    /// Key-value pairs in source order, not deduplicated.
    MapLiteral(Vec<(Expression, Expression)>),
    Identifier(String),
    FunctionCall { function: Box<Expression>, arguments: Vec<Expression> },
    FunctionDefinition { name: String, parameters: Vec<TypeAnnotation>, body: Box<Expression> },
    /// Several top-level expressions in sequence.
    Program(Vec<Expression>),
    BinaryOp { left: Box<Expression>, operator: Operator, right: Box<Expression> },
    LogCall { level: LogLevel, message: Box<Expression> },
    /// `Cond[[c1 s1] [c2 s2] ... [default]]`.
    Cond { conditions: Vec<(Expression, Expression)>, default_statements: Option<Box<Expression>> },
    /// The empty optional value.
    OptionNone,
    /// `Some[value]`.
    OptionSome { value: Box<Expression> },
    /// `Ok[value]`.
    ResultOk { value: Box<Expression> },
    /// `Err[error]`.
    ResultErr { error: Box<Expression> },
    /// `Match[value, [pattern, result], ...]`.
    Match { value: Box<Expression>, arms: Vec<(Pattern, Expression)> },
    /// `Function[{p1, p2: T}, body]`.
    Lambda { parameters: Vec<TypeAnnotation>, body: Box<Expression> },
    /// `Struct[Name, [f1: T1, ...]]`.
    StructDefinition { name: String, fields: Vec<TypeAnnotation> },
    StructInstantiation { struct_name: String, field_values: Vec<Expression> },
}

/// Model of an [`Expression`].
pub enum ExprView {
    Number(i32),
    Float(Seq<char>),
    String(Seq<char>),
    Boolean(bool),
    Tuple(Seq<ExprView>),
    List(Seq<ExprView>),
    MapLiteral(Seq<(ExprView, ExprView)>),
    Identifier(Seq<char>),
    FunctionCall { function: Box<ExprView>, arguments: Seq<ExprView> },
    FunctionDefinition { name: Seq<char>, parameters: Seq<TypeAnnotationView>, body: Box<ExprView> },
    Program(Seq<ExprView>),
    BinaryOp { left: Box<ExprView>, operator: Operator, right: Box<ExprView> },
    LogCall { level: LogLevel, message: Box<ExprView> },
    Cond { conditions: Seq<(ExprView, ExprView)>, default_statements: Option<Box<ExprView>> },
    OptionNone,
    OptionSome { value: Box<ExprView> },
    ResultOk { value: Box<ExprView> },
    ResultErr { error: Box<ExprView> },
    Match { value: Box<ExprView>, arms: Seq<(PatternView, ExprView)> },
    Lambda { parameters: Seq<TypeAnnotationView>, body: Box<ExprView> },
    StructDefinition { name: Seq<char>, fields: Seq<TypeAnnotationView> },
    StructInstantiation { struct_name: Seq<char>, field_values: Seq<ExprView> },
}

impl Pattern {
    /// The model of this pattern, by structural recursion.
    pub open spec fn model(&self) -> PatternView
        decreases self,
    {
        match self {
            Pattern::Wildcard => PatternView::Wildcard,
            Pattern::Literal(e) => PatternView::Literal(Box::new(e.model())),
            Pattern::Variable(name) => PatternView::Variable(name@),
            Pattern::Constructor { name, patterns } => PatternView::Constructor {
                name: name@,
                patterns: Seq::new(
                    patterns.len() as nat,
                    |i: int|
                        if 0 <= i < patterns.len() {
                            patterns[i].model()
                        } else {
                            PatternView::Wildcard
                        },
                ),
            },
            Pattern::Tuple(ps) => PatternView::Tuple(
                Seq::new(
                    ps.len() as nat,
                    |i: int|
                        if 0 <= i < ps.len() {
                            ps[i].model()
                        } else {
                            PatternView::Wildcard
                        },
                ),
            ),
            Pattern::List(ps) => PatternView::List(
                Seq::new(
                    ps.len() as nat,
                    |i: int|
                        if 0 <= i < ps.len() {
                            ps[i].model()
                        } else {
                            PatternView::Wildcard
                        },
                ),
            ),
        }
    }
}

impl Expression {
    /// The model of this expression, by structural recursion.
    pub open spec fn model(&self) -> ExprView
        decreases self,
    {
        match self {
            Expression::Number(n) => ExprView::Number(*n),
            Expression::Float(text) => ExprView::Float(text@),
            Expression::String(s) => ExprView::String(s@),
            Expression::Boolean(b) => ExprView::Boolean(*b),
            Expression::Tuple(es) => ExprView::Tuple(
                Seq::new(
                    es.len() as nat,
                    |i: int|
                        if 0 <= i < es.len() {
                            es[i].model()
                        } else {
                            ExprView::OptionNone
                        },
                ),
            ),
            Expression::List(es) => ExprView::List(
                Seq::new(
                    es.len() as nat,
                    |i: int|
                        if 0 <= i < es.len() {
                            es[i].model()
                        } else {
                            ExprView::OptionNone
                        },
                ),
            ),
            Expression::MapLiteral(entries) => ExprView::MapLiteral(
                Seq::new(
                    entries.len() as nat,
                    |i: int|
                        if 0 <= i < entries.len() {
                            (entries[i].0.model(), entries[i].1.model())
                        } else {
                            (ExprView::OptionNone, ExprView::OptionNone)
                        },
                ),
            ),
            Expression::Identifier(name) => ExprView::Identifier(name@),
            Expression::FunctionCall { function, arguments } => ExprView::FunctionCall {
                function: Box::new(function.model()),
                arguments: Seq::new(
                    arguments.len() as nat,
                    |i: int|
                        if 0 <= i < arguments.len() {
                            arguments[i].model()
                        } else {
                            ExprView::OptionNone
                        },
                ),
            },
            Expression::FunctionDefinition { name, parameters, body } => {
                ExprView::FunctionDefinition {
                    name: name@,
                    parameters: annotation_views(parameters@),
                    body: Box::new(body.model()),
                }
            },
            Expression::Program(es) => ExprView::Program(
                Seq::new(
                    es.len() as nat,
                    |i: int|
                        if 0 <= i < es.len() {
                            es[i].model()
                        } else {
                            ExprView::OptionNone
                        },
                ),
            ),
            Expression::BinaryOp { left, operator, right } => ExprView::BinaryOp {
                left: Box::new(left.model()),
                operator: *operator,
                right: Box::new(right.model()),
            },
            Expression::LogCall { level, message } => ExprView::LogCall {
                level: *level,
                message: Box::new(message.model()),
            },
            Expression::Cond { conditions, default_statements } => ExprView::Cond {
                conditions: Seq::new(
                    conditions.len() as nat,
                    |i: int|
                        if 0 <= i < conditions.len() {
                            (conditions[i].0.model(), conditions[i].1.model())
                        } else {
                            (ExprView::OptionNone, ExprView::OptionNone)
                        },
                ),
                default_statements: match default_statements {
                    Some(d) => Some(Box::new(d.model())),
                    None => None,
                },
            },
            Expression::OptionNone => ExprView::OptionNone,
            Expression::OptionSome { value } => ExprView::OptionSome {
                value: Box::new(value.model()),
            },
            Expression::ResultOk { value } => ExprView::ResultOk { value: Box::new(value.model()) },
            Expression::ResultErr { error } => ExprView::ResultErr {
                error: Box::new(error.model()),
            },
            Expression::Match { value, arms } => ExprView::Match {
                value: Box::new(value.model()),
                arms: Seq::new(
                    arms.len() as nat,
                    |i: int|
                        if 0 <= i < arms.len() {
                            (arms[i].0.model(), arms[i].1.model())
                        } else {
                            (PatternView::Wildcard, ExprView::OptionNone)
                        },
                ),
            },
            Expression::Lambda { parameters, body } => ExprView::Lambda {
                parameters: annotation_views(parameters@),
                body: Box::new(body.model()),
            },
            Expression::StructDefinition { name, fields } => ExprView::StructDefinition {
                name: name@,
                fields: annotation_views(fields@),
            },
            Expression::StructInstantiation { struct_name, field_values } => {
                ExprView::StructInstantiation {
                    struct_name: struct_name@,
                    field_values: Seq::new(
                        field_values.len() as nat,
                        |i: int|
                            if 0 <= i < field_values.len() {
                                field_values[i].model()
                            } else {
                                ExprView::OptionNone
                            },
                    ),
                }
            },
        }
    }
}

impl View for Pattern {
    type V = PatternView;

    open spec fn view(&self) -> PatternView {
        self.model()
    }
}

impl View for Expression {
    type V = ExprView;

    open spec fn view(&self) -> ExprView {
        self.model()
    }
}

/// The views of a sequence of expressions, element by element.
pub open spec fn expr_views(es: Seq<Expression>) -> Seq<ExprView> {
    Seq::new(es.len(), |i: int| es[i]@)
}

/// The views of a sequence of patterns, element by element.
pub open spec fn pattern_views(ps: Seq<Pattern>) -> Seq<PatternView> {
    Seq::new(ps.len(), |i: int| ps[i]@)
}

/// The views of a sequence of expression pairs, element by element.
pub open spec fn pair_views(ps: Seq<(Expression, Expression)>) -> Seq<(ExprView, ExprView)> {
    Seq::new(ps.len(), |i: int| (ps[i].0@, ps[i].1@))
}

/// The views of a sequence of match arms, element by element.
pub open spec fn arm_views(arms: Seq<(Pattern, Expression)>) -> Seq<(PatternView, ExprView)> {
    Seq::new(arms.len(), |i: int| (arms[i].0@, arms[i].1@))
}


impl DeepView for Type {
    type V = TypeView;

    open spec fn deep_view(&self) -> TypeView {
        self@
    }
}

impl DeepView for TypeAnnotation {
    type V = TypeAnnotationView;

    open spec fn deep_view(&self) -> TypeAnnotationView {
        self@
    }
}

/// Whether two types are the same type.
#[verifier::rlimit(40)]
pub fn type_eq(a: &Type, b: &Type) -> (r: bool)
    ensures
        r == (a@ == b@),
    decreases a, 1nat,
{
    match a {
        Type::Int8 => matches!(b, Type::Int8),
        Type::Int16 => matches!(b, Type::Int16),
        Type::Int32 => matches!(b, Type::Int32),
        Type::Int64 => matches!(b, Type::Int64),
        Type::Int128 => matches!(b, Type::Int128),
        Type::Int => matches!(b, Type::Int),
        Type::UInt8 => matches!(b, Type::UInt8),
        Type::UInt16 => matches!(b, Type::UInt16),
        Type::UInt32 => matches!(b, Type::UInt32),
        Type::UInt64 => matches!(b, Type::UInt64),
        Type::UInt128 => matches!(b, Type::UInt128),
        Type::UInt => matches!(b, Type::UInt),
        Type::Float32 => matches!(b, Type::Float32),
        Type::Float64 => matches!(b, Type::Float64),
        Type::Bool => matches!(b, Type::Bool),
        Type::Char => matches!(b, Type::Char),
        Type::String => matches!(b, Type::String),
        Type::Tuple(xs) => match b {
            Type::Tuple(ys) => {
                proof {
                    lemma_tuple_view(*xs);
                    lemma_tuple_view(*ys);
                }
                types_eq(xs, ys)
            },
            _ => false,
        },
        Type::List(x) => match b {
            Type::List(y) => type_eq(x, y),
            _ => false,
        },
        Type::Array(x, n) => match b {
            Type::Array(y, m) => *n == *m && type_eq(x, y),
            _ => false,
        },
        Type::Slice(x) => match b {
            Type::Slice(y) => type_eq(x, y),
            _ => false,
        },
        Type::HashMap(k, v) => match b {
            Type::HashMap(l, w) => type_eq(k, l) && type_eq(v, w),
            _ => false,
        },
        Type::HashSet(x) => match b {
            Type::HashSet(y) => type_eq(x, y),
            _ => false,
        },
        Type::BTreeMap(k, v) => match b {
            Type::BTreeMap(l, w) => type_eq(k, l) && type_eq(v, w),
            _ => false,
        },
        Type::BTreeSet(x) => match b {
            Type::BTreeSet(y) => type_eq(x, y),
            _ => false,
        },
        Type::Function(ps, r) => match b {
            Type::Function(qs, s) => {
                proof {
                    lemma_function_view(*ps, *r);
                    lemma_function_view(*qs, *s);
                }
                types_eq(ps, qs) && type_eq(r, s)
            },
            _ => false,
        },
        Type::Option(x) => match b {
            Type::Option(y) => type_eq(x, y),
            _ => false,
        },
        Type::Result(t, e) => match b {
            Type::Result(u, f) => type_eq(t, u) && type_eq(e, f),
            _ => false,
        },
        Type::LogLevel => matches!(b, Type::LogLevel),
        Type::Custom(x) => match b {
            Type::Custom(y) => *x == *y,
            _ => false,
        },
    }
}

/// Whether two sequences of types agree element by element.
pub fn types_eq(xs: &Vec<Type>, ys: &Vec<Type>) -> (r: bool)
    ensures
        r == (type_views(xs@) == type_views(ys@)),
    decreases xs, 0nat,
{
    if xs.len() != ys.len() {
        assert(type_views(xs@).len() != type_views(ys@).len());
        return false;
    }
    let mut i: usize = 0;
    while i < xs.len()
        invariant
            xs.len() == ys.len(),
            0 <= i <= xs.len(),
            forall|j: int| 0 <= j < i ==> xs[j]@ == ys[j]@,
        decreases xs.len() - i,
    {
        if !type_eq(&xs[i], &ys[i]) {
            assert(type_views(xs@)[i as int] != type_views(ys@)[i as int]);
            return false;
        }
        i += 1;
    }
    assert(type_views(xs@) =~= type_views(ys@));
    true
}

/// A copy of a type.
#[verifier::rlimit(40)]
pub fn clone_type(t: &Type) -> (r: Type)
    ensures
        r@ == t@,
    decreases t, 1nat,
{
    match t {
        Type::Int8 => Type::Int8,
        Type::Int16 => Type::Int16,
        Type::Int32 => Type::Int32,
        Type::Int64 => Type::Int64,
        Type::Int128 => Type::Int128,
        Type::Int => Type::Int,
        Type::UInt8 => Type::UInt8,
        Type::UInt16 => Type::UInt16,
        Type::UInt32 => Type::UInt32,
        Type::UInt64 => Type::UInt64,
        Type::UInt128 => Type::UInt128,
        Type::UInt => Type::UInt,
        Type::Float32 => Type::Float32,
        Type::Float64 => Type::Float64,
        Type::Bool => Type::Bool,
        Type::Char => Type::Char,
        Type::String => Type::String,
        Type::Tuple(xs) => {
            let ys = clone_types(xs);
            proof {
                lemma_tuple_view(*xs);
                lemma_tuple_view(ys);
            }
            Type::Tuple(ys)
        },
        Type::List(x) => Type::List(Box::new(clone_type(x))),
        Type::Array(x, n) => Type::Array(Box::new(clone_type(x)), *n),
        Type::Slice(x) => Type::Slice(Box::new(clone_type(x))),
        Type::HashMap(k, v) => Type::HashMap(Box::new(clone_type(k)), Box::new(clone_type(v))),
        Type::HashSet(x) => Type::HashSet(Box::new(clone_type(x))),
        Type::BTreeMap(k, v) => Type::BTreeMap(Box::new(clone_type(k)), Box::new(clone_type(v))),
        Type::BTreeSet(x) => Type::BTreeSet(Box::new(clone_type(x))),
        Type::Function(ps, r) => {
            let qs = clone_types(ps);
            let s = Box::new(clone_type(r));
            proof {
                lemma_function_view(*ps, *r);
                lemma_function_view(qs, s);
            }
            Type::Function(qs, s)
        },
        Type::Option(x) => Type::Option(Box::new(clone_type(x))),
        Type::Result(t, e) => Type::Result(Box::new(clone_type(t)), Box::new(clone_type(e))),
        Type::LogLevel => Type::LogLevel,
        Type::Custom(x) => Type::Custom(x.clone()),
    }
}

/// Copies of a sequence of types.
pub fn clone_types(xs: &Vec<Type>) -> (r: Vec<Type>)
    ensures
        type_views(r@) == type_views(xs@),
    decreases xs, 0nat,
{
    let mut out: Vec<Type> = Vec::new();
    let mut i: usize = 0;
    while i < xs.len()
        invariant
            0 <= i <= xs.len(),
            out.len() == i,
            forall|j: int| 0 <= j < i ==> out[j]@ == xs[j]@,
        decreases xs.len() - i,
    {
        out.push(clone_type(&xs[i]));
        i += 1;
    }
    assert(type_views(out@) =~= type_views(xs@));
    out
}

impl Clone for Type {
    fn clone(&self) -> (r: Self)
        ensures
            r@ == self@,
    {
        clone_type(self)
    }
}

impl Clone for TypeAnnotation {
    fn clone(&self) -> (r: Self)
        ensures
            r@ == self@,
    {
        TypeAnnotation { name: self.name.clone(), type_: clone_type(&self.type_) }
    }
}

/// Copies of a sequence of annotations.
pub fn clone_annotations(xs: &Vec<TypeAnnotation>) -> (r: Vec<TypeAnnotation>)
    ensures
        annotation_views(r@) == annotation_views(xs@),
{
    let mut out: Vec<TypeAnnotation> = Vec::new();
    let mut i: usize = 0;
    while i < xs.len()
        invariant
            0 <= i <= xs.len(),
            out.len() == i,
            forall|j: int| 0 <= j < i ==> out[j]@ == xs[j]@,
        decreases xs.len() - i,
    {
        out.push(xs[i].clone());
        i += 1;
    }
    assert(annotation_views(out@) =~= annotation_views(xs@));
    out
}


/// A copy of an expression.
#[verifier::rlimit(40)]
pub fn clone_expression(e: &Expression) -> (r: Expression)
    ensures
        r@ == e@,
    decreases e, 1nat,
{
    match e {
        Expression::Number(n) => Expression::Number(*n),
        Expression::Float(text) => Expression::Float(text.clone()),
        Expression::String(s) => Expression::String(s.clone()),
        Expression::Boolean(b) => Expression::Boolean(*b),
        Expression::Tuple(es) => {
            let copies = clone_expressions(es);
            let r = Expression::Tuple(copies);
            assert(r@->Tuple_0 =~= expr_views(copies@));
            assert(e@->Tuple_0 =~= expr_views(es@));
            r
        },
        Expression::List(es) => {
            let copies = clone_expressions(es);
            let r = Expression::List(copies);
            assert(r@->List_0 =~= expr_views(copies@));
            assert(e@->List_0 =~= expr_views(es@));
            r
        },
        Expression::MapLiteral(entries) => {
            let copies = clone_pairs(entries);
            let r = Expression::MapLiteral(copies);
            assert(r@->MapLiteral_0 =~= pair_views(copies@));
            assert(e@->MapLiteral_0 =~= pair_views(entries@));
            r
        },
        Expression::Identifier(name) => Expression::Identifier(name.clone()),
        Expression::FunctionCall { function, arguments } => {
            let copies = clone_expressions(arguments);
            let r = Expression::FunctionCall {
                function: Box::new(clone_expression(function)),
                arguments: copies,
            };
            assert(r@->FunctionCall_arguments =~= expr_views(copies@));
            assert(e@->FunctionCall_arguments =~= expr_views(arguments@));
            r
        },
        Expression::FunctionDefinition { name, parameters, body } => {
            Expression::FunctionDefinition {
                name: name.clone(),
                parameters: clone_annotations(parameters),
                body: Box::new(clone_expression(body)),
            }
        },
        Expression::Program(es) => {
            let copies = clone_expressions(es);
            let r = Expression::Program(copies);
            assert(r@->Program_0 =~= expr_views(copies@));
            assert(e@->Program_0 =~= expr_views(es@));
            r
        },
        Expression::BinaryOp { left, operator, right } => Expression::BinaryOp {
            left: Box::new(clone_expression(left)),
            operator: *operator,
            right: Box::new(clone_expression(right)),
        },
        Expression::LogCall { level, message } => Expression::LogCall {
            level: *level,
            message: Box::new(clone_expression(message)),
        },
        Expression::Cond { conditions, default_statements } => {
            let copies = clone_pairs(conditions);
            let default_copy = match default_statements {
                Some(d) => Some(Box::new(clone_expression(d))),
                None => None,
            };
            let r = Expression::Cond { conditions: copies, default_statements: default_copy };
            assert(r@->Cond_conditions =~= pair_views(copies@));
            assert(e@->Cond_conditions =~= pair_views(conditions@));
            r
        },
        Expression::OptionNone => Expression::OptionNone,
        Expression::OptionSome { value } => Expression::OptionSome {
            value: Box::new(clone_expression(value)),
        },
        Expression::ResultOk { value } => Expression::ResultOk {
            value: Box::new(clone_expression(value)),
        },
        Expression::ResultErr { error } => Expression::ResultErr {
            error: Box::new(clone_expression(error)),
        },
        Expression::Match { value, arms } => {
            let copies = clone_arms(arms);
            let r = Expression::Match { value: Box::new(clone_expression(value)), arms: copies };
            assert(r@->Match_arms =~= arm_views(copies@));
            assert(e@->Match_arms =~= arm_views(arms@));
            r
        },
        Expression::Lambda { parameters, body } => Expression::Lambda {
            parameters: clone_annotations(parameters),
            body: Box::new(clone_expression(body)),
        },
        Expression::StructDefinition { name, fields } => Expression::StructDefinition {
            name: name.clone(),
            fields: clone_annotations(fields),
        },
        Expression::StructInstantiation { struct_name, field_values } => {
            let copies = clone_expressions(field_values);
            let r = Expression::StructInstantiation {
                struct_name: struct_name.clone(),
                field_values: copies,
            };
            assert(r@->StructInstantiation_field_values =~= expr_views(copies@));
            assert(e@->StructInstantiation_field_values =~= expr_views(field_values@));
            r
        },
    }
}

/// Copies of a sequence of expressions.
pub fn clone_expressions(es: &Vec<Expression>) -> (r: Vec<Expression>)
    ensures
        expr_views(r@) == expr_views(es@),
    decreases es, 0nat,
{
    let mut out: Vec<Expression> = Vec::new();
    let mut i: usize = 0;
    while i < es.len()
        invariant
            0 <= i <= es.len(),
            out.len() == i,
            forall|j: int| 0 <= j < i ==> out[j]@ == es[j]@,
        decreases es.len() - i,
    {
        out.push(clone_expression(&es[i]));
        i += 1;
    }
    assert(expr_views(out@) =~= expr_views(es@));
    out
}

/// Copies of a sequence of pairs of expressions.
pub fn clone_pairs(pairs: &Vec<(Expression, Expression)>) -> (r: Vec<(Expression, Expression)>)
    ensures
        pair_views(r@) == pair_views(pairs@),
    decreases pairs, 0nat,
{
    let mut out: Vec<(Expression, Expression)> = Vec::new();
    let mut i: usize = 0;
    while i < pairs.len()
        invariant
            0 <= i <= pairs.len(),
            out.len() == i,
            forall|j: int| 0 <= j < i ==> out[j].0@ == pairs[j].0@ && out[j].1@ == pairs[j].1@,
        decreases pairs.len() - i,
    {
        out.push((clone_expression(&pairs[i].0), clone_expression(&pairs[i].1)));
        i += 1;
    }
    assert(pair_views(out@) =~= pair_views(pairs@));
    out
}

/// Copies of a sequence of match arms.
pub fn clone_arms(arms: &Vec<(Pattern, Expression)>) -> (r: Vec<(Pattern, Expression)>)
    ensures
        arm_views(r@) == arm_views(arms@),
    decreases arms, 0nat,
{
    let mut out: Vec<(Pattern, Expression)> = Vec::new();
    let mut i: usize = 0;
    while i < arms.len()
        invariant
            0 <= i <= arms.len(),
            out.len() == i,
            forall|j: int| 0 <= j < i ==> out[j].0@ == arms[j].0@ && out[j].1@ == arms[j].1@,
        decreases arms.len() - i,
    {
        out.push((clone_pattern(&arms[i].0), clone_expression(&arms[i].1)));
        i += 1;
    }
    assert(arm_views(out@) =~= arm_views(arms@));
    out
}

/// A copy of a pattern.
pub fn clone_pattern(p: &Pattern) -> (r: Pattern)
    ensures
        r@ == p@,
    decreases p, 1nat,
{
    match p {
        Pattern::Wildcard => Pattern::Wildcard,
        Pattern::Literal(e) => Pattern::Literal(Box::new(clone_expression(e))),
        Pattern::Variable(name) => Pattern::Variable(name.clone()),
        Pattern::Constructor { name, patterns } => {
            let copies = clone_patterns(patterns);
            let r = Pattern::Constructor { name: name.clone(), patterns: copies };
            assert(r@->Constructor_patterns =~= pattern_views(copies@));
            assert(p@->Constructor_patterns =~= pattern_views(patterns@));
            r
        },
        Pattern::Tuple(patterns) => {
            let copies = clone_patterns(patterns);
            let r = Pattern::Tuple(copies);
            assert(r@->Tuple_0 =~= pattern_views(copies@));
            assert(p@->Tuple_0 =~= pattern_views(patterns@));
            r
        },
        Pattern::List(patterns) => {
            let copies = clone_patterns(patterns);
            let r = Pattern::List(copies);
            assert(r@->List_0 =~= pattern_views(copies@));
            assert(p@->List_0 =~= pattern_views(patterns@));
            r
        },
    }
}

/// Copies of a sequence of patterns.
pub fn clone_patterns(patterns: &Vec<Pattern>) -> (r: Vec<Pattern>)
    ensures
        pattern_views(r@) == pattern_views(patterns@),
    decreases patterns, 0nat,
{
    let mut out: Vec<Pattern> = Vec::new();
    let mut i: usize = 0;
    while i < patterns.len()
        invariant
            0 <= i <= patterns.len(),
            out.len() == i,
            forall|j: int| 0 <= j < i ==> out[j]@ == patterns[j]@,
        decreases patterns.len() - i,
    {
        out.push(clone_pattern(&patterns[i]));
        i += 1;
    }
    assert(pattern_views(out@) =~= pattern_views(patterns@));
    out
}

impl Clone for Expression {
    fn clone(&self) -> (r: Self)
        ensures
            r@ == self@,
    {
        clone_expression(self)
    }
}

impl Clone for Pattern {
    fn clone(&self) -> (r: Self)
        ensures
            r@ == self@,
    {
        clone_pattern(self)
    }
}

} // verus!
