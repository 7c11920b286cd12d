use wlang::parser::Parser;
use wlang::rust_codegen::RustCodeGenerator;
use wlang::type_inference::TypeInference;
use wlang::ast::{Expression, Type};

fn showcase_source() -> String {
    let lines = vec![
        "Match[42, [_, \"matches anything\"]]\n",
        "Match[5, [1, \"one\"], [2, \"two\"], [3, \"three\"], [_, \"other number\"]]\n",
        "Match[100, [x, x]]\n",
        "Match[\"hello\", [msg, msg]]\n",
        "Match[true, [true, \"yes\"], [false, \"no\"]]\n",
        "Match[Some[42], [Some[x], x], [None, 0]]\n",
        "Match[Some[Some[100]], [Some[Some[val]], val], [Some[None], 0], [None, 0]]\n",
        "Match[Some[42], [Some[value], value], [None, 0]]\n",
        "Match[(1, 2), [(x, y), x]]\n",
        "Match[(10, \"hello\", true), [(num, str, bool), num]]\n",
        "Match[((1, 2), (3, 4)), [((a, b), (c, d)), a]]\n",
        "Match[(Some[5], Some[10]), [(Some[x], Some[y]), x], [(None, _), 0], [(_, None), 0]]\n",
        "Match[[1, 2, 3], [_, \"any list\"]]\n",
        "Match[Some[(42, \"answer\")], [Some[(num, str)], num], [None, 0]]\n",
        "Match[Some[Some[(1, 2)]], [Some[Some[(x, y)]], x], [Some[None], 0], [None, 0]]\n",
        "Print[\"Wildcard match:\", Match[99, [_, \"anything\"]]]\n",
        "Print[\"Number match:\", Match[7, [7, \"lucky seven\"], [13, \"unlucky thirteen\"], [_, \"some other number\"]]]\n",
        "Print[\"Option match:\", Match[Some[42], [Some[x], x], [None, 0]]]\n",
        "Print[\"Option match (nested):\", Match[Some[Some[100]], [Some[Some[val]], val], [_, 0]]]\n",
        "Print[\"Tuple match:\", Match[(100, 200), [(a, b), a]]]\n",
        "Match[Some[10], [Some[result], result], [None, 0]]\n",
        "Match[Some[\"config.json\"], [Some[filename], filename], [None, \"default.json\"]]\n",
        "Match[200, [200, \"OK\"], [404, \"Not Found\"], [500, \"Internal Server Error\"], [_, \"Unknown Status\"]]\n",
    ];
    lines.concat()
}

fn showcase_program() -> String {
    let lines = vec![
        "fn main() {\n",
        "    match 42 {\n",
        "    _ => \"matches anything\".to_string(),\n",
        "};\n",
        "    match 5 {\n",
        "    1 => \"one\".to_string(),\n",
        "    2 => \"two\".to_string(),\n",
        "    3 => \"three\".to_string(),\n",
        "    _ => \"other number\".to_string(),\n",
        "};\n",
        "    match 100 {\n",
        "    x => x,\n",
        "};\n",
        "    match \"hello\".to_string() {\n",
        "    msg => msg,\n",
        "};\n",
        "    match true {\n",
        "    true => \"yes\".to_string(),\n",
        "    false => \"no\".to_string(),\n",
        "};\n",
        "    match Some(42) {\n",
        "    Some(x) => x,\n",
        "    None => 0,\n",
        "};\n",
        "    match Some(Some(100)) {\n",
        "    Some(Some(val)) => val,\n",
        "    Some(None) => 0,\n",
        "    None => 0,\n",
        "};\n",
        "    match Some(42) {\n",
        "    Some(value) => value,\n",
        "    None => 0,\n",
        "};\n",
        "    match (1, 2) {\n",
        "    (x, y) => x,\n",
        "};\n",
        "    match (10, \"hello\".to_string(), true) {\n",
        "    (num, str, bool) => num,\n",
        "};\n",
        "    match ((1, 2), (3, 4)) {\n",
        "    ((a, b), (c, d)) => a,\n",
        "};\n",
        "    match (Some(5), Some(10)) {\n",
        "    (Some(x), Some(y)) => x,\n",
        "    (None, _) => 0,\n",
        "    (_, None) => 0,\n",
        "};\n",
        "    match vec![1, 2, 3] {\n",
        "    _ => \"any list\".to_string(),\n",
        "};\n",
        "    match Some((42, \"answer\".to_string())) {\n",
        "    Some((num, str)) => num,\n",
        "    None => 0,\n",
        "};\n",
        "    match Some(Some((1, 2))) {\n",
        "    Some(Some((x, y))) => x,\n",
        "    Some(None) => 0,\n",
        "    None => 0,\n",
        "};\n",
        "    println!(\"{} {}\", \"Wildcard match:\".to_string(), match 99 {\n",
        "    _ => \"anything\".to_string(),\n",
        "});\n",
        "    println!(\"{} {}\", \"Number match:\".to_string(), match 7 {\n",
        "    7 => \"lucky seven\".to_string(),\n",
        "    13 => \"unlucky thirteen\".to_string(),\n",
        "    _ => \"some other number\".to_string(),\n",
        "});\n",
        "    println!(\"{} {}\", \"Option match:\".to_string(), match Some(42) {\n",
        "    Some(x) => x,\n",
        "    None => 0,\n",
        "});\n",
        "    println!(\"{} {}\", \"Option match (nested):\".to_string(), match Some(Some(100)) {\n",
        "    Some(Some(val)) => val,\n",
        "    _ => 0,\n",
        "});\n",
        "    println!(\"{} {}\", \"Tuple match:\".to_string(), match (100, 200) {\n",
        "    (a, b) => a,\n",
        "});\n",
        "    match Some(10) {\n",
        "    Some(result) => result,\n",
        "    None => 0,\n",
        "};\n",
        "    match Some(\"config.json\".to_string()) {\n",
        "    Some(filename) => filename,\n",
        "    None => \"default.json\".to_string(),\n",
        "};\n",
        "    match 200 {\n",
        "    200 => \"OK\".to_string(),\n",
        "    404 => \"Not Found\".to_string(),\n",
        "    500 => \"Internal Server Error\".to_string(),\n",
        "    _ => \"Unknown Status\".to_string(),\n",
        "};\n",
        "}\n",
    ];
    lines.concat()
}

#[test]
fn generates_the_pattern_matching_showcase() {
    let program = Parser::new(showcase_source()).parse().unwrap();
    let code = RustCodeGenerator::new().generate(&program).unwrap();
    assert_eq!(code, showcase_program());
}

#[test]
fn types_the_pattern_matching_showcase() {
    let program = Parser::new(showcase_source()).parse().unwrap();
    let expressions = match program {
        Expression::Program(expressions) => expressions,
        other => panic!("expected a program, got {:?}", other),
    };
    assert_eq!(expressions.len(), 23);
    let mut inference = TypeInference::new();
    let types: Vec<Type> = expressions
        .iter()
        .map(|e| inference.infer_expression(e).unwrap())
        .collect();
    let unit = Type::Tuple(vec![]);
    assert_eq!(types, vec![
        Type::String,
        Type::String,
        Type::Int32,
        Type::String,
        Type::String,
        Type::Int32,
        Type::Int32,
        Type::Int32,
        Type::Int32,
        Type::Int32,
        Type::Int32,
        Type::Int32,
        Type::String,
        Type::Int32,
        Type::Int32,
        unit.clone(),
        unit.clone(),
        unit.clone(),
        unit.clone(),
        unit,
        Type::Int32,
        Type::String,
        Type::String,
    ]);
}
