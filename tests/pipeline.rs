use mlog_transpiler::ast::{ExpressionASTNode, StatementASTNode};
use mlog_transpiler::generator::{ArgumentKind, GenerationError};
use mlog_transpiler::mlog::Instruction;
use mlog_transpiler::parser::{parse_program, parse_statement};
use mlog_transpiler::tokenizer::{tokenize, Keyword, LexError, Token};

fn compile(src: &str) -> Result<String, GenerationError> {
    let tokens = tokenize(src).expect("lexing failed");
    let program = parse_program(&tokens).expect("parsing failed");
    program.generate()
}

fn lines(src: &str) -> Vec<String> {
    compile(src).expect("generation failed").lines().map(|l| l.to_string()).collect()
}

#[test]
fn parses_globals_and_function_body() {
    let tokens = tokenize("let x fn main() { let y y = 5 }").unwrap();
    let program = parse_program(&tokens).unwrap();
    assert_eq!(program.variables().len(), 1);
    assert_eq!(program.variables()[0].name, "x");
    assert_eq!(program.functions().len(), 1);
    let main = &program.functions()[0];
    assert_eq!(main.name, "main");
    assert_eq!(main.statements.len(), 2);
    match &main.statements[0] {
        StatementASTNode::LocalVariableAST(lv) => assert_eq!(lv.name, "y"),
        other => panic!("expected a declaration, got {:?}", other),
    }
    match &main.statements[1] {
        StatementASTNode::AssignmentAST(a) => {
            assert_eq!(a.target_var_name, "y");
            match &a.value {
                ExpressionASTNode::NumberLiteral(n) => assert_eq!(n, "5"),
                other => panic!("expected a number, got {:?}", other),
            }
        }
        other => panic!("expected an assignment, got {:?}", other),
    }
}

#[test]
fn identifier_before_assign_is_an_assignment() {
    let tokens = tokenize("x = y").unwrap();
    let mut pos: usize = 0;
    let st = parse_statement(&tokens, &mut pos).unwrap();
    assert!(matches!(st, StatementASTNode::AssignmentAST(_)));
    assert_eq!(pos, 3);
}

#[test]
fn failed_statement_leaves_cursor() {
    let tokens = tokenize("} x").unwrap();
    let mut pos: usize = 0;
    assert!(parse_statement(&tokens, &mut pos).is_err());
    assert_eq!(pos, 0);
}

#[test]
fn sibling_declarations_get_distinct_names() {
    let out = lines("let cond1 fn main() { if cond1 { let tmp tmp = 1 } else { let tmp tmp = 2 } }");
    let sets: Vec<&String> = out.iter().filter(|l| l.starts_with("set tmp")).collect();
    assert_eq!(sets.len(), 2);
    assert_eq!(sets[0], "set tmp_4 1");
    assert_eq!(sets[1], "set tmp_5 2");
    assert_ne!(sets[0].split(' ').nth(1), sets[1].split(' ').nth(1));
}

#[test]
fn if_else_lowering() {
    let out = lines("let cond1 fn main() { if cond1 { let tmp tmp = 1 } else { let tmp tmp = 2 } }");
    let expected = vec![
        "op add ret_addr_main @counter 1",
        "jump main always",
        "set blackhole_7 main_result",
        "main:",
        "set cond_2_3 cond1",
        "jump else_1 equal cond_2_3 0",
        "set tmp_4 1",
        "jump endif_6 always",
        "else_1:",
        "set tmp_5 2",
        "endif_6:",
    ];
    assert_eq!(out, expected);
}

#[test]
fn binary_intrinsic_materializes_operands() {
    let out = lines("let x fn main() { x = add(1, 2) }");
    let expected = vec![
        "op add ret_addr_main @counter 1",
        "jump main always",
        "set blackhole_4 main_result",
        "main:",
        "set tmp_2_1 1",
        "set tmp_3_1 2",
        "op add x tmp_2_1 tmp_3_1",
    ];
    assert_eq!(out, expected);
}

#[test]
fn while_lowering() {
    let out = lines("let c fn main() { while c { let b b = 1 } }");
    let expected = vec![
        "op add ret_addr_main @counter 1",
        "jump main always",
        "set blackhole_5 main_result",
        "main:",
        "while_begin_1:",
        "set cond_3_4 c",
        "jump while_end_2 equal cond_3_4 0",
        "set b_4 1",
        "jump while_begin_1 always",
        "while_end_2:",
    ];
    assert_eq!(out, expected);
    assert_eq!(out.iter().filter(|l| *l == "while_begin_1:").count(), 1);
    assert_eq!(out.iter().filter(|l| *l == "while_end_2:").count(), 1);
    assert_eq!(out.iter().filter(|l| l.starts_with("jump while_end_2 equal")).count(), 1);
    assert_eq!(out.iter().filter(|l| *l == "jump while_begin_1 always").count(), 1);
}

#[test]
fn radar_rejects_number_in_string_slot() {
    let r = compile("fn main() { let obj radar(1, \"b\", \"c\", \"d\", obj, 0) }");
    match r {
        Err(GenerationError::ArgumentKindMismatch { function, position, expected_kind }) => {
            assert_eq!(function, "radar");
            assert_eq!(position, 1);
            assert_eq!(expected_kind, ArgumentKind::StringLiteral);
        }
        other => panic!("expected a kind mismatch, got {:?}", other),
    }
}

#[test]
fn radar_line() {
    let out = lines("fn main() { let obj let out out = radar(\"enemy\", \"any\", \"any\", \"distance\", obj, 1) }");
    assert_eq!(out[4], "radar enemy any any distance obj_0 1 out_0");
}

#[test]
fn ubind_and_ucontrol() {
    let out = lines("let u fn main() { ubind(u) ucontrolMove(1, 2) }");
    assert!(out.contains(&"ubind u".to_string()));
    assert!(out.contains(&"ucontrol move tmp_5_4 tmp_6_4 0 0 0".to_string()));
}

#[test]
fn ucontrol_within_line() {
    let out = lines("let r fn main() { r = ucontrolWithin(1, 2, 3) }");
    assert_eq!(out[7], "ucontrol move tmp_2_1 tmp_3_1 tmp_4_1 r 0");
}

#[test]
fn undefined_variable_is_reported() {
    match compile("fn main() { y = 1 }") {
        Err(GenerationError::UndefinedVariable(n)) => assert_eq!(n, "y"),
        other => panic!("unexpected {:?}", other),
    }
}

#[test]
fn undefined_function_is_reported() {
    match compile("fn main() { nothing() }") {
        Err(GenerationError::UndefinedFunction(n)) => assert_eq!(n, "nothing"),
        other => panic!("unexpected {:?}", other),
    }
}

#[test]
fn missing_main_is_undefined_function() {
    match compile("let x") {
        Err(GenerationError::UndefinedFunction(n)) => assert_eq!(n, "main"),
        other => panic!("unexpected {:?}", other),
    }
}

#[test]
fn intrinsic_arity_is_checked() {
    match compile("let x fn main() { x = add(1) }") {
        Err(GenerationError::ArityMismatch { function, expected, found }) => {
            assert_eq!(function, "add");
            assert_eq!(expected, 2);
            assert_eq!(found, 1);
        }
        other => panic!("unexpected {:?}", other),
    }
}

#[test]
fn ubind_wants_a_variable() {
    match compile("fn main() { ubind(\"x\") }") {
        Err(GenerationError::ArgumentKindMismatch { position, expected_kind, .. }) => {
            assert_eq!(position, 1);
            assert_eq!(expected_kind, ArgumentKind::VariableReference);
        }
        other => panic!("unexpected {:?}", other),
    }
}

#[test]
fn inline_functions_have_no_lowering() {
    match compile("inline fn f() { } fn main() { f() }") {
        Err(GenerationError::InlineUnsupported(n)) => assert_eq!(n, "f"),
        other => panic!("unexpected {:?}", other),
    }
}

#[test]
fn reserved_names_pass_through() {
    let out = lines("fn main() { @unit = 3 }");
    assert!(out.contains(&"set @unit 3".to_string()));
}

#[test]
fn string_assignment_is_quoted() {
    let out = lines("let s fn main() { s = \"hi\" }");
    assert!(out.contains(&"set s \"hi\"".to_string()));
}

#[test]
fn user_call_result_goes_to_target() {
    let out = lines("let x fn f() { } fn main() { x = f() }");
    assert!(out.contains(&"op add ret_addr_f @counter 1".to_string()));
    assert!(out.contains(&"set x f_result".to_string()));
}

#[test]
fn last_declaration_wins() {
    let tokens = tokenize("fn f() { let a } fn f() { } let g let g").unwrap();
    let program = parse_program(&tokens).unwrap();
    assert_eq!(program.functions().len(), 1);
    assert_eq!(program.functions()[0].statements.len(), 0);
    assert_eq!(program.variables().len(), 1);
}

#[test]
fn parameters_are_parsed_and_dropped() {
    let tokens = tokenize("fn f(a, b) { }").unwrap();
    let program = parse_program(&tokens).unwrap();
    assert_eq!(program.functions()[0].name, "f");
    assert!(parse_program(&tokenize("fn f(a b) { }").unwrap()).is_err());
}

#[test]
fn parse_failure_is_an_error() {
    assert!(parse_program(&tokenize("fn main() { = }").unwrap()).is_err());
    assert!(parse_program(&tokenize("fn main() {").unwrap()).is_err());
    assert!(parse_program(&tokenize("x").unwrap()).is_err());
}

#[test]
fn empty_program_parses() {
    let program = parse_program(&[]).unwrap();
    assert_eq!(program.variables().len(), 0);
    assert_eq!(program.functions().len(), 0);
}

#[test]
fn lexes_keywords_and_punctuation() {
    let toks = tokenize("inline fn f(a, b) { let x = 1 } if else while").unwrap();
    assert!(matches!(toks[0], Token::Keyword(Keyword::Inline)));
    assert!(matches!(toks[1], Token::Keyword(Keyword::Fn)));
    assert!(matches!(&toks[2], Token::Identifier(n) if n == "f"));
    assert!(matches!(toks[3], Token::Keyword(Keyword::LeftParenthese)));
    assert!(matches!(toks[5], Token::Keyword(Keyword::Comma)));
    assert!(matches!(toks[7], Token::Keyword(Keyword::RightParenthese)));
    assert!(matches!(toks[8], Token::Keyword(Keyword::LeftCurly)));
    assert!(matches!(toks[9], Token::Keyword(Keyword::Let)));
    assert!(matches!(toks[11], Token::Keyword(Keyword::Assign)));
    assert!(matches!(&toks[12], Token::Number(n) if n == "1"));
    assert!(matches!(toks[13], Token::Keyword(Keyword::RightCurly)));
    assert!(matches!(toks[14], Token::Keyword(Keyword::If)));
    assert!(matches!(toks[15], Token::Keyword(Keyword::Else)));
    assert!(matches!(toks[16], Token::Keyword(Keyword::While)));
    assert_eq!(toks.len(), 17);
}

#[test]
fn lexes_unicode_and_reserved_identifiers() {
    let toks = tokenize("été @counter _x1").unwrap();
    assert!(matches!(&toks[0], Token::Identifier(n) if n == "été"));
    assert!(matches!(&toks[1], Token::Identifier(n) if n == "@counter"));
    assert!(matches!(&toks[2], Token::Identifier(n) if n == "_x1"));
}

#[test]
fn lexes_string_escapes() {
    let toks = tokenize("\"a\\\\b\\\"c\\nd\"").unwrap();
    assert_eq!(toks.len(), 1);
    assert!(matches!(&toks[0], Token::String(s) if s == "a\\b\"c\nd"));
}

#[test]
fn lexes_decimal_numbers() {
    let toks = tokenize("1.5 42").unwrap();
    assert!(matches!(&toks[0], Token::Number(n) if n == "1.5"));
    assert!(matches!(&toks[1], Token::Number(n) if n == "42"));
}

#[test]
fn rejects_number_with_two_dots() {
    match tokenize("x\n  1.2.3") {
        Err(LexError::InvalidNumber { text, line, column }) => {
            assert_eq!(text, "1.2.3");
            assert_eq!(line, 2);
            assert_eq!(column, 3);
        }
        other => panic!("unexpected {:?}", other),
    }
}

#[test]
fn rejects_unexpected_character_with_position() {
    match tokenize("let x\nfn # ") {
        Err(LexError::UnexpectedCharacter { character, line, column }) => {
            assert_eq!(character, '#');
            assert_eq!(line, 2);
            assert_eq!(column, 4);
        }
        other => panic!("unexpected {:?}", other),
    }
}

#[test]
fn rejects_unknown_escape() {
    match tokenize("  \"a\\q\"") {
        Err(LexError::UnknownEscape { character, line, column }) => {
            assert_eq!(character, 'q');
            assert_eq!(line, 1);
            assert_eq!(column, 3);
        }
        other => panic!("unexpected {:?}", other),
    }
}

#[test]
fn rejects_trailing_backslash() {
    assert!(matches!(tokenize("\"abc\\"), Err(LexError::UnterminatedEscape { line: 1, column: 1 })));
}

#[test]
fn unterminated_string_ends_with_text() {
    let toks = tokenize("\"abc").unwrap();
    assert!(matches!(&toks[0], Token::String(s) if s == "abc"));
}

#[test]
fn instructions_render_one_per_line() {
    let tokens = tokenize("let x fn main() { x = 1 }").unwrap();
    let program = parse_program(&tokens).unwrap();
    let code = program.generate_code().unwrap();
    assert!(matches!(&code[3], Instruction::Label { name } if name == "main"));
    let text = program.generate().unwrap();
    assert!(text.ends_with("main:\nset x 1\n"));
    assert_eq!(text.lines().count(), code.len());
}

#[test]
fn every_output_line_has_a_target_form() {
    let src = "let g let u fn helper() { g = 1 } fn main() { let a a = add(g, mul(2, 3)) \
               if equal(a, 7) { helper() } else { ubind(u) } \
               while a { a = sub(a, 1) ucontrolMove(a, 2) } let r r = radar(\"enemy\", \"any\", \"any\", \"distance\", u, 1) }";
    let out = lines(src);
    assert!(!out.is_empty());
    for l in &out {
        let ok = l.starts_with("set ")
            || l.starts_with("op ")
            || (l.starts_with("jump ") && (l.ends_with(" always") || l.ends_with(" 0")))
            || l.starts_with("radar ")
            || l.starts_with("ubind ")
            || l.starts_with("ucontrol move ")
            || l.ends_with(':');
        assert!(ok, "unexpected line {:?}", l);
    }
    assert_eq!(out.iter().filter(|l| l.ends_with(':')).count(), 6);
}

#[test]
fn assignment_without_value_is_an_error() {
    let tokens = tokenize("y = }").unwrap();
    let mut pos: usize = 0;
    let r = parse_statement(&tokens, &mut pos);
    assert!(r.is_err());
    assert_eq!(pos, 0);
    assert!(parse_program(&tokenize("let y fn main() { y = }").unwrap()).is_err());
}

#[test]
fn call_arguments_need_commas() {
    assert!(parse_program(&tokenize("fn main() { f(1 2) }").unwrap()).is_err());
    assert!(parse_program(&tokenize("fn main() { f(1,) }").unwrap()).is_err());
    let program = parse_program(&tokenize("fn f() { } fn main() { f() f(1, 2) }").unwrap()).unwrap();
    let main = &program.functions()[1];
    match &main.statements[1] {
        StatementASTNode::ExpressionAST(ExpressionASTNode::FunctionCallAST(fc)) => {
            assert_eq!(fc.function_name, "f");
            assert_eq!(fc.args.len(), 2);
        }
        other => panic!("expected a call, got {:?}", other),
    }
}

#[test]
fn parameter_list_rejects_trailing_comma() {
    assert!(parse_program(&tokenize("fn f(a,) { }").unwrap()).is_err());
    assert!(parse_program(&tokenize("fn f(,) { }").unwrap()).is_err());
    assert!(parse_program(&tokenize("fn f(a, b, c) { }").unwrap()).is_ok());
}

#[test]
fn statement_error_joins_alternatives() {
    let tokens = tokenize("}").unwrap();
    let mut pos: usize = 0;
    let msg = parse_statement(&tokens, &mut pos).unwrap_err();
    assert_eq!(
        msg,
        "Invalid statement: Invalid variable declaration; Invalid assignment; \
         Invalid expression: Invalid function call; not a literal or a variable reference; \
         Invalid if statement; Invalid while statement"
    );
}

#[test]
fn committed_assignment_reports_its_value_error() {
    let tokens = tokenize("y = }").unwrap();
    let mut pos: usize = 0;
    let msg = parse_statement(&tokens, &mut pos).unwrap_err();
    assert_eq!(
        msg,
        "Invalid statement: Invalid expression: Invalid function call; not a literal or a variable reference"
    );
}
