use wlang::ast::{Expression, LogLevel, Operator, Pattern, Type, TypeAnnotation};
use wlang::parser::Parser;

fn parse(input: &str) -> Option<Expression> {
    Parser::new(input.to_string()).parse()
}

fn number(n: i32) -> Expression {
    Expression::Number(n)
}

fn name(s: &str) -> Expression {
    Expression::Identifier(s.to_string())
}

fn binary(left: Expression, operator: Operator, right: Expression) -> Expression {
    Expression::BinaryOp { left: Box::new(left), operator, right: Box::new(right) }
}

fn call(function: &str, arguments: Vec<Expression>) -> Expression {
    Expression::FunctionCall { function: Box::new(name(function)), arguments }
}

fn annotation(name: &str, type_: Type) -> TypeAnnotation {
    TypeAnnotation { name: name.to_string(), type_ }
}

#[test]
fn binary_operators_share_one_precedence_tier() {
    assert_eq!(
        parse("2 + 3 * 4"),
        Some(binary(binary(number(2), Operator::Add, number(3)), Operator::Multiply, number(4)))
    );
}

#[test]
fn binary_operators_associate_to_the_left() {
    assert_eq!(
        parse("8 - 4 - 2 ^ 2 == 1"),
        Some(binary(
            binary(
                binary(binary(number(8), Operator::Subtract, number(4)), Operator::Subtract, number(2)),
                Operator::Power,
                number(2)
            ),
            Operator::Equals,
            number(1)
        ))
    );
}

#[test]
fn every_operator_token_has_its_operator() {
    let cases = vec![
        ("1 + 2", Operator::Add),
        ("1 - 2", Operator::Subtract),
        ("1 * 2", Operator::Multiply),
        ("1 / 2", Operator::Divide),
        ("1 ^ 2", Operator::Power),
        ("1 == 2", Operator::Equals),
        ("1 != 2", Operator::NotEquals),
        ("1 < 2", Operator::LessThan),
        ("1 > 2", Operator::GreaterThan),
    ];
    for (input, operator) in cases {
        assert_eq!(parse(input), Some(binary(number(1), operator, number(2))));
    }
}

#[test]
fn operator_without_right_operand_fails() {
    assert_eq!(parse("1 +"), None);
}

#[test]
fn empty_input_does_not_parse() {
    assert_eq!(parse(""), None);
    assert_eq!(parse("  (* nothing *) "), None);
}

#[test]
fn several_expressions_make_a_program() {
    assert_eq!(parse("1 2 x"), Some(Expression::Program(vec![number(1), number(2), name("x")])));
}

#[test]
fn leftover_token_fails_the_parse() {
    assert_eq!(parse("1 )"), None);
    assert_eq!(parse("1 ]"), None);
    assert_eq!(parse("[1, 2] :"), None);
}

#[test]
fn parse_expression_takes_one_expression_and_stops() {
    let mut parser = Parser::new("1 2".to_string());
    assert_eq!(parser.parse_expression(), Some(number(1)));
    assert_eq!(parser.parse_expression(), Some(number(2)));
    assert_eq!(parser.parse_expression(), None);
}

#[test]
fn trailing_comma_in_list_and_tuple() {
    assert_eq!(parse("[1, 2,]"), Some(Expression::List(vec![number(1), number(2)])));
    assert_eq!(parse("(1, 2,)"), Some(Expression::Tuple(vec![number(1), number(2)])));
}

#[test]
fn missing_comma_in_list_fails() {
    assert_eq!(parse("[1 2]"), None);
    assert_eq!(parse("(1 2)"), None);
}

#[test]
fn opening_token_at_the_end_is_an_empty_container() {
    assert_eq!(parse("("), Some(Expression::Tuple(vec![])));
    assert_eq!(parse("["), Some(Expression::List(vec![])));
    assert_eq!(parse("{"), Some(Expression::MapLiteral(vec![])));
}

#[test]
fn map_entries_keep_their_order_and_duplicates() {
    assert_eq!(
        parse("{1: 2, 1: 3}"),
        Some(Expression::MapLiteral(vec![(number(1), number(2)), (number(1), number(3))]))
    );
}

#[test]
fn map_entry_without_colon_fails() {
    assert_eq!(parse("{1 2}"), None);
}

#[test]
fn call_keeps_arguments_and_drops_parameter_shaped_items() {
    assert_eq!(parse("F[x: Int32, 5, y]"), Some(call("F", vec![number(5), name("y")])));
}

#[test]
fn definition_keeps_parameters_and_drops_expression_shaped_items() {
    assert_eq!(
        parse("F[x: Int32, 5] := x"),
        Some(Expression::FunctionDefinition {
            name: "F".to_string(),
            parameters: vec![annotation("x", Type::Int32)],
            body: Box::new(name("x")),
        })
    );
}

#[test]
fn call_without_arguments() {
    assert_eq!(parse("F[]"), Some(call("F", vec![])));
}

#[test]
fn nested_calls() {
    assert_eq!(
        parse("Add[Multiply[2, 3], 4]"),
        Some(call("Add", vec![call("Multiply", vec![number(2), number(3)]), number(4)]))
    );
}

#[test]
fn call_result_is_not_an_operand_of_a_following_operator() {
    assert_eq!(
        parse("F[1] + 2"),
        None
    );
}

#[test]
fn definition_without_body_fails() {
    assert_eq!(parse("F[x: Int32] :="), None);
}

#[test]
fn all_primitive_type_names() {
    let input = "F[a: Int8, b: Int16, c: Int32, d: Int64, e: Int128, f: Int, g: UInt8, h: UInt16, \
                 i: UInt32, j: UInt64, k: UInt128, l: UInt, m: Float32, n: Float64, o: Bool, \
                 p: Char, q: String] := a";
    let expected = vec![
        annotation("a", Type::Int8),
        annotation("b", Type::Int16),
        annotation("c", Type::Int32),
        annotation("d", Type::Int64),
        annotation("e", Type::Int128),
        annotation("f", Type::Int),
        annotation("g", Type::UInt8),
        annotation("h", Type::UInt16),
        annotation("i", Type::UInt32),
        annotation("j", Type::UInt64),
        annotation("k", Type::UInt128),
        annotation("l", Type::UInt),
        annotation("m", Type::Float32),
        annotation("n", Type::Float64),
        annotation("o", Type::Bool),
        annotation("p", Type::Char),
        annotation("q", Type::String),
    ];
    match parse(input) {
        Some(Expression::FunctionDefinition { parameters, .. }) => assert_eq!(parameters, expected),
        other => panic!("expected a definition, got {:?}", other),
    }
}

#[test]
fn lower_case_type_aliases() {
    match parse("F[a: int, b: float, c: string, d: bool, e: char] := a") {
        Some(Expression::FunctionDefinition { parameters, .. }) => assert_eq!(parameters, vec![
            annotation("a", Type::Int32),
            annotation("b", Type::Float64),
            annotation("c", Type::String),
            annotation("d", Type::Bool),
            annotation("e", Type::Char),
        ]),
        other => panic!("expected a definition, got {:?}", other),
    }
}

#[test]
fn generic_type_arguments() {
    let input = "F[a: Tuple[Int32, String], b: Map[String, List[Int32]], c: Array[UInt8, 3], \
                 d: Slice[Bool], e: HashSet[Char], f: BTreeMap[Int64, Point], g: BTreeSet[Int], \
                 h: Tuple[]] := a";
    match parse(input) {
        Some(Expression::FunctionDefinition { parameters, .. }) => assert_eq!(parameters, vec![
            annotation("a", Type::Tuple(vec![Type::Int32, Type::String])),
            annotation(
                "b",
                Type::HashMap(Box::new(Type::String), Box::new(Type::List(Box::new(Type::Int32))))
            ),
            annotation("c", Type::Array(Box::new(Type::UInt8), 3)),
            annotation("d", Type::Slice(Box::new(Type::Bool))),
            annotation("e", Type::HashSet(Box::new(Type::Char))),
            annotation(
                "f",
                Type::BTreeMap(Box::new(Type::Int64), Box::new(Type::Custom("Point".to_string())))
            ),
            annotation("g", Type::BTreeSet(Box::new(Type::Int))),
            annotation("h", Type::Tuple(vec![])),
        ]),
        other => panic!("expected a definition, got {:?}", other),
    }
}

#[test]
fn unknown_generic_type_fails() {
    assert_eq!(parse("F[a: Stack[Int32]] := a"), None);
}

#[test]
fn array_size_must_be_a_number() {
    assert_eq!(parse("F[a: Array[Int32, n]] := a"), None);
}

#[test]
fn lambda_parameter_without_type_gets_the_placeholder() {
    assert_eq!(
        parse("Function[{x, y: String}, x]"),
        Some(Expression::Lambda {
            parameters: vec![annotation("x", Type::Int32), annotation("y", Type::String)],
            body: Box::new(name("x")),
        })
    );
}

#[test]
fn lambda_without_parameters() {
    assert_eq!(
        parse("Function[{}, 1]"),
        Some(Expression::Lambda { parameters: vec![], body: Box::new(number(1)) })
    );
}

#[test]
fn lambda_needs_braces_and_a_comma() {
    assert_eq!(parse("Function[x, x]"), None);
    assert_eq!(parse("Function[{x} x]"), None);
    assert_eq!(parse("Function[{x}, x"), None);
}

#[test]
fn cond_branch_of_two_expressions_is_a_condition() {
    assert_eq!(
        parse("Cond[[x > 10 1]]"),
        Some(Expression::Cond {
            conditions: vec![(binary(name("x"), Operator::GreaterThan, number(10)), number(1))],
            default_statements: None,
        })
    );
}

#[test]
fn cond_branch_of_one_expression_is_the_default() {
    assert_eq!(
        parse("Cond[[7]]"),
        Some(Expression::Cond { conditions: vec![], default_statements: Some(Box::new(number(7))) })
    );
}

#[test]
fn cond_last_default_wins() {
    assert_eq!(
        parse("Cond[[1] [true 5] [2]]"),
        Some(Expression::Cond {
            conditions: vec![(Expression::Boolean(true), number(5))],
            default_statements: Some(Box::new(number(2))),
        })
    );
}

#[test]
fn cond_without_branches() {
    assert_eq!(
        parse("Cond[]"),
        Some(Expression::Cond { conditions: vec![], default_statements: None })
    );
}

#[test]
fn cond_as_an_operand() {
    assert_eq!(
        parse("1 + Cond[[2]]"),
        Some(binary(
            number(1),
            Operator::Add,
            Expression::Cond { conditions: vec![], default_statements: Some(Box::new(number(2))) }
        ))
    );
}

#[test]
fn cond_branch_of_three_expressions_fails() {
    assert_eq!(parse("Cond[[1 2 3]]"), None);
}

#[test]
fn match_arms_with_and_without_commas_between() {
    let expected = Some(Expression::Match {
        value: Box::new(name("x")),
        arms: vec![
            (Pattern::Literal(Box::new(number(1))), number(2)),
            (Pattern::Wildcard, number(4)),
        ],
    });
    assert_eq!(parse("Match[x, [1, 2], [_, 4]]"), expected);
    assert_eq!(parse("Match[x, [1, 2] [_, 4]]"), expected);
    assert_eq!(parse("Match[x, [1, 2], [_, 4],]"), expected);
}

#[test]
fn match_without_arms() {
    assert_eq!(parse("Match[x,]"), Some(Expression::Match { value: Box::new(name("x")), arms: vec![] }));
}

#[test]
fn match_needs_a_comma_after_the_value() {
    assert_eq!(parse("Match[x [1, 2]]"), None);
}

#[test]
fn patterns_of_every_kind() {
    let input = "Match[v, [true, 1], [\"s\", 2], [None, 3], [Some[_], 4], [Ok[a], 5], \
                 [Err[(b, 1)], 6], [Point[x, y], 7], [Unit[], 8], [(), 9], [[], 10], [[p, q], 11]]";
    let variable = |s: &str| Pattern::Variable(s.to_string());
    let constructor = |s: &str, patterns: Vec<Pattern>| Pattern::Constructor { name: s.to_string(), patterns };
    match parse(input) {
        Some(Expression::Match { arms, .. }) => {
            let patterns: Vec<Pattern> = arms.into_iter().map(|arm| arm.0).collect();
            assert_eq!(patterns, vec![
                Pattern::Literal(Box::new(Expression::Boolean(true))),
                Pattern::Literal(Box::new(Expression::String("s".to_string()))),
                constructor("None", vec![]),
                constructor("Some", vec![Pattern::Wildcard]),
                constructor("Ok", vec![variable("a")]),
                constructor("Err", vec![Pattern::Tuple(vec![
                    variable("b"),
                    Pattern::Literal(Box::new(number(1))),
                ])]),
                constructor("Point", vec![variable("x"), variable("y")]),
                constructor("Unit", vec![]),
                Pattern::Tuple(vec![]),
                Pattern::List(vec![]),
                Pattern::List(vec![variable("p"), variable("q")]),
            ]);
        },
        other => panic!("expected a match, got {:?}", other),
    }
}

#[test]
fn some_pattern_needs_its_bracket() {
    assert_eq!(parse("Match[v, [Some, 1]]"), None);
    assert_eq!(parse("Match[v, [Some[a, b], 1]]"), None);
}

#[test]
fn pattern_list_with_trailing_comma() {
    assert_eq!(
        parse("Match[v, [(a,), 1]]"),
        Some(Expression::Match {
            value: Box::new(name("v")),
            arms: vec![(Pattern::Tuple(vec![Pattern::Variable("a".to_string())]), number(1))],
        })
    );
}

#[test]
fn struct_definition_with_commas_anywhere() {
    assert_eq!(
        parse("Struct[P, [, x: Int32,, y: Bool,]]"),
        Some(Expression::StructDefinition {
            name: "P".to_string(),
            fields: vec![annotation("x", Type::Int32), annotation("y", Type::Bool)],
        })
    );
}

#[test]
fn struct_definition_needs_name_comma_and_fields() {
    assert_eq!(parse("Struct[P]"), None);
    assert_eq!(parse("Struct[P, x: Int32]"), None);
    assert_eq!(parse("Struct[P, [x]]"), None);
    assert_eq!(parse("Struct[1, [x: Int32]]"), None);
}

#[test]
fn log_calls_of_every_level() {
    let levels = vec![
        ("LogDebug[1]", LogLevel::Debug),
        ("LogInfo[1]", LogLevel::Info),
        ("LogWarn[1]", LogLevel::Warn),
        ("LogError[1]", LogLevel::Error),
    ];
    for (input, level) in levels {
        assert_eq!(parse(input), Some(Expression::LogCall { level, message: Box::new(number(1)) }));
    }
}

#[test]
fn keyword_without_bracket_fails() {
    assert_eq!(parse("LogInfo 1"), None);
    assert_eq!(parse("Some 1"), None);
    assert_eq!(parse("Ok"), None);
    assert_eq!(parse("Err[1"), None);
}

#[test]
fn option_and_result_values() {
    assert_eq!(parse("None"), Some(Expression::OptionNone));
    assert_eq!(parse("Some[1]"), Some(Expression::OptionSome { value: Box::new(number(1)) }));
    assert_eq!(parse("Ok[1]"), Some(Expression::ResultOk { value: Box::new(number(1)) }));
    assert_eq!(parse("Err[1]"), Some(Expression::ResultErr { error: Box::new(number(1)) }));
}

#[test]
fn boolean_and_string_literals() {
    assert_eq!(parse("true"), Some(Expression::Boolean(true)));
    assert_eq!(parse("false"), Some(Expression::Boolean(false)));
    assert_eq!(parse("\"a b\""), Some(Expression::String("a b".to_string())));
}

#[test]
fn deeply_nested_lists_parse() {
    let depth = 200;
    let input = format!("{}{}", "[".repeat(depth), "]".repeat(depth));
    let mut expected = Expression::List(vec![]);
    for _ in 1..depth {
        expected = Expression::List(vec![expected]);
    }
    assert_eq!(parse(&input), Some(expected));
}

#[test]
fn long_list_parses() {
    let count = 20000;
    let numbers: Vec<String> = (0..count).map(|n| n.to_string()).collect();
    let input = format!("[{}]", numbers.join(", "));
    match parse(&input) {
        Some(Expression::List(elements)) => {
            assert_eq!(elements.len(), count);
            assert_eq!(elements[count - 1], number(count as i32 - 1));
        },
        other => panic!("expected a list, got {:?}", other),
    }
}

#[test]
fn long_chain_of_operations_parses() {
    let count = 5000;
    let input = vec!["1"; count].join(" + ");
    let mut expected = number(1);
    for _ in 1..count {
        expected = binary(expected, Operator::Add, number(1));
    }
    assert_eq!(parse(&input), Some(expected));
}
