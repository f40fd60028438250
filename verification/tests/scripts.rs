use script_deps::ast::BinaryExpression;
use script_deps::ast::BinaryOperation;
use script_deps::ast::CommentStatement;
use script_deps::ast::DisplayInstruction;
use script_deps::ast::Expression;
use script_deps::ast::Instruction;
use script_deps::ast::LimitExpression;
use script_deps::ast::LiteralExpression;
use script_deps::ast::ScriptInstruction;
use script_deps::ast::Statement;
use script_deps::ast::UnaryExpression;
use script_deps::ast::UnaryOperation;
use script_deps::ast::VariableReference;
use script_deps::hd_script_parser::parse;
use script_deps::hd_script_parser::parse_comment_statement;
use script_deps::hd_script_parser::parse_entry_expression;
use script_deps::hd_script_parser::parse_expression_atom;

fn number(text: &str) -> Expression {
    Expression::Literal(LiteralExpression::Number(text.to_string()))
}

fn variable(name: &str) -> Expression {
    Expression::Variable(VariableReference {
        name: name.to_string(),
        indexer: None,
    })
}

#[test]
fn precedence_multiplicative_binds_before_additive() {
    let (rest, script) = parse("1 + 2 * 3");
    assert_eq!(rest, "1 + 2 * 3".len());
    let inner = Expression::Binary(Box::new(BinaryExpression {
        left: number("2"),
        right: vec![(BinaryOperation::Multiply, number("3"))],
    }));
    let expected = Statement::Return(Expression::Binary(Box::new(BinaryExpression {
        left: number("1"),
        right: vec![(BinaryOperation::Add, inner)],
    })));
    assert_eq!(script.body, vec![expected]);
}

#[test]
fn chain_stays_flat_at_one_level() {
    let (_, script) = parse("1 * 2 + 3");
    let expected = Statement::Return(Expression::Binary(Box::new(BinaryExpression {
        left: number("1"),
        right: vec![
            (BinaryOperation::Multiply, number("2")),
            (BinaryOperation::Add, number("3")),
        ],
    })));
    assert_eq!(script.body, vec![expected]);
}

#[test]
fn identifier_with_embedded_space() {
    let (_, script) = parse("SET Client Name TO \"John\"");
    let expected = Statement::Instruction(Instruction::Script(ScriptInstruction::SetTo(
        VariableReference {
            name: "Client Name".to_string(),
            indexer: None,
        },
        Expression::Literal(LiteralExpression::Text("John".to_string())),
    )));
    assert_eq!(script.body, vec![expected]);
}

#[test]
fn doubled_quote_escapes_one_quote() {
    let input = "\"He said \"\"hi\"\"\"";
    let (j, e) = parse_entry_expression(input, 0).unwrap();
    assert_eq!(j, input.len());
    assert_eq!(
        e,
        Expression::Literal(LiteralExpression::Text("He said \"hi\"".to_string()))
    );
}

#[test]
fn unterminated_string_fails() {
    assert!(parse_entry_expression("\"abc", 0).is_err());
}

#[test]
fn lone_atom_is_not_wrapped_in_a_binary_node() {
    let (_, e) = parse_entry_expression("42\n", 0).unwrap();
    assert_eq!(e, number("42"));
}

#[test]
fn leading_minus_is_part_of_a_numeric_literal() {
    let (_, e) = parse_entry_expression("-5\n", 0).unwrap();
    assert_eq!(e, number("-5"));
}

#[test]
fn negation_of_a_parenthesized_expression() {
    let (_, e) = parse_entry_expression("-(A)\n", 0).unwrap();
    assert_eq!(
        e,
        Expression::Unary(Box::new(UnaryExpression {
            operation: UnaryOperation::Negate,
            expression: variable("A"),
        }))
    );
}

#[test]
fn not_keyword_wraps_whole_expression() {
    let (_, e) = parse_entry_expression("NOT A\n", 0).unwrap();
    assert_eq!(
        e,
        Expression::Unary(Box::new(UnaryExpression {
            operation: UnaryOperation::Not,
            expression: variable("A"),
        }))
    );
}

#[test]
fn boolean_literals_parse() {
    let (_, e) = parse_entry_expression("TRUE\n", 0).unwrap();
    assert_eq!(e, Expression::Literal(LiteralExpression::Boolean(true)));
    let (_, e2) = parse_entry_expression("FALSE\n", 0).unwrap();
    assert_eq!(e2, Expression::Literal(LiteralExpression::Boolean(false)));
}

#[test]
fn date_suffix_wraps_parenthesized_atom() {
    let (_, e) = parse_entry_expression("(B) DAYS\n", 0).unwrap();
    assert_eq!(e, Expression::Days(Box::new(variable("B"))));
    let (_, e2) = parse_entry_expression("(B) MONTH\n", 0).unwrap();
    assert_eq!(e2, Expression::Months(Box::new(variable("B"))));
}

#[test]
fn function_call_with_arguments() {
    let (_, e) = parse_entry_expression("Foo(A, 2)\n", 0).unwrap();
    match e {
        Expression::FunctionCall(f) => {
            assert_eq!(f.name, "Foo");
            assert_eq!(f.args, vec![variable("A"), number("2")]);
        }
        other => panic!("expected a function call, got {:?}", other),
    }
}

#[test]
fn indexer_attaches_to_variable_reference() {
    let (_, script) = parse("ERASE X[N]\n");
    match &script.body[0] {
        Statement::Instruction(Instruction::Script(ScriptInstruction::Erase(v))) => {
            assert_eq!(v.name, "X");
            let idx = v.indexer.as_ref().unwrap();
            assert_eq!(idx.name, "");
            assert_eq!(idx.args, vec![variable("N")]);
        }
        other => panic!("expected ERASE, got {:?}", other),
    }
}

#[test]
fn comment_keeps_rest_of_line() {
    let (j, c) = parse_comment_statement("// a note\nSET", 0).unwrap();
    assert_eq!(j, "// a note".len());
    assert_eq!(
        c,
        CommentStatement {
            comment: " a note".to_string()
        }
    );
}

#[test]
fn else_if_chain_closes_with_one_end_if() {
    let input = "IF A\nSET X TO 1\nELSE IF B\nSET Y TO 2\nEND IF";
    let (rest, script) = parse(input);
    assert_eq!(rest, input.len());
    assert_eq!(script.body.len(), 1);
    match &script.body[0] {
        Statement::If(top) => {
            assert_eq!(top.condition, variable("A"));
            assert_eq!(top.then_body.len(), 1);
            assert_eq!(top.else_body.len(), 1);
            match &top.else_body[0] {
                Statement::If(nested) => {
                    assert_eq!(nested.condition, variable("B"));
                    assert_eq!(nested.then_body.len(), 1);
                    assert!(nested.else_body.is_empty());
                }
                other => panic!("expected a nested IF, got {:?}", other),
            }
        }
        other => panic!("expected an IF, got {:?}", other),
    }
}

#[test]
fn while_loop_parses_condition_and_body() {
    let (_, script) = parse("WHILE A\nERASE X\nEND WHILE");
    match &script.body[0] {
        Statement::Loop(script_deps::ast::LoopStatement::While(w)) => {
            assert_eq!(w.condition, variable("A"));
            assert_eq!(w.body.len(), 1);
        }
        other => panic!("expected WHILE, got {:?}", other),
    }
}

#[test]
fn repeat_loop_names_its_dialog() {
    let (_, script) = parse("REPEAT D\nERASE X\nEND REPEAT");
    match &script.body[0] {
        Statement::Loop(script_deps::ast::LoopStatement::Repeat(r)) => {
            assert_eq!(r.dialog.name, "D");
            assert_eq!(r.body.len(), 1);
        }
        other => panic!("expected REPEAT, got {:?}", other),
    }
}

#[test]
fn quit_consumes_only_its_line() {
    let (rest, script) = parse("QUIT and then some");
    assert_eq!(rest, "QUIT and then some".len());
    assert_eq!(
        script.body,
        vec![Statement::Instruction(Instruction::Script(
            ScriptInstruction::Quit
        ))]
    );
    let input = "QUIT a\nERASE X\n";
    let (rest2, script2) = parse(input);
    // the trailing line ending stays unconsumed, as after any statement
    assert_eq!(rest2, input.len() - 1);
    assert_eq!(script2.body.len(), 2);
    assert!(matches!(
        script2.body[0],
        Statement::Instruction(Instruction::Script(ScriptInstruction::Quit))
    ));
    assert!(matches!(
        script2.body[1],
        Statement::Instruction(Instruction::Script(ScriptInstruction::Erase(_)))
    ));
}

#[test]
fn zero_argument_keywords_parse_as_instructions() {
    let (_, script) = parse("FILTER\nZERO\nUNANSWERED\n");
    assert_eq!(
        script.body,
        vec![
            Statement::Instruction(Instruction::Script(ScriptInstruction::Filter)),
            Statement::Instruction(Instruction::Script(ScriptInstruction::Zero)),
            Statement::Instruction(Instruction::Script(ScriptInstruction::Unanswered)),
        ]
    );
}

#[test]
fn ascend_and_descend_take_trailing_text() {
    let (_, script) = parse("ASCEND Last Name\nDESCEND First Name\n");
    assert_eq!(
        script.body,
        vec![
            Statement::Instruction(Instruction::Script(ScriptInstruction::Ascend(
                "Last Name".to_string()
            ))),
            Statement::Instruction(Instruction::Script(ScriptInstruction::Descend(
                "First Name".to_string()
            ))),
        ]
    );
}

#[test]
fn gray_all_is_tried_before_gray() {
    let (_, script) = parse("GRAY ALL");
    assert_eq!(
        script.body,
        vec![Statement::Instruction(Instruction::Display(
            DisplayInstruction::GrayAll
        ))]
    );
    let (_, script2) = parse("GRAY Something\n");
    assert_eq!(
        script2.body,
        vec![Statement::Instruction(Instruction::Display(
            DisplayInstruction::Gray("Something".to_string())
        ))]
    );
}

#[test]
fn limit_takes_a_number_or_raw_text() {
    let (_, script) = parse("LIMIT 5\n");
    assert_eq!(
        script.body,
        vec![Statement::Instruction(Instruction::Display(
            DisplayInstruction::Limit(LimitExpression::Number("5".to_string()))
        ))]
    );
    let (_, script2) = parse("LIMIT Some Var\n");
    assert_eq!(
        script2.body,
        vec![Statement::Instruction(Instruction::Display(
            DisplayInstruction::Limit(LimitExpression::Variable("Some Var".to_string()))
        ))]
    );
}

#[test]
fn trailing_unparsed_input_is_left_unconsumed() {
    let (rest, script) = parse("ERASE X\n)unparsed");
    assert_eq!(script.body.len(), 1);
    assert!(rest < "ERASE X\n)unparsed".len());
}

#[test]
fn division_is_not_confused_with_a_comment() {
    let (_, script) = parse("SET A TO 6 / 2\n");
    match &script.body[0] {
        Statement::Instruction(Instruction::Script(ScriptInstruction::SetTo(v, e))) => {
            assert_eq!(v.name, "A");
            assert_eq!(
                *e,
                Expression::Binary(Box::new(BinaryExpression {
                    left: number("6"),
                    right: vec![(BinaryOperation::Divide, number("2"))],
                }))
            );
        }
        other => panic!("expected SET, got {:?}", other),
    }
}

#[test]
fn atom_failure_reports_an_error() {
    assert!(parse_expression_atom(")", 0).is_err());
}

#[test]
fn else_branch_holds_plain_statements() {
    let input = "IF A\nERASE X\nELSE\nERASE Y\nEND IF";
    let (rest, script) = parse(input);
    assert_eq!(rest, input.len());
    match &script.body[0] {
        Statement::If(top) => {
            assert_eq!(top.then_body.len(), 1);
            assert_eq!(top.else_body.len(), 1);
            assert!(matches!(
                top.else_body[0],
                Statement::Instruction(Instruction::Script(ScriptInstruction::Erase(_)))
            ));
        }
        other => panic!("expected an IF, got {:?}", other),
    }
}

#[test]
fn text_operators_parse_as_binary_operations() {
    let (_, e) = parse_entry_expression("A CONTAINS \"x\"\n", 0).unwrap();
    match e {
        Expression::Binary(b) => {
            assert_eq!(b.right.len(), 1);
            assert_eq!(b.right[0].0, BinaryOperation::Contains);
        }
        other => panic!("expected a binary expression, got {:?}", other),
    }
    let (_, e2) = parse_entry_expression("A STARTS WITH \"x\"\n", 0).unwrap();
    match e2 {
        Expression::Binary(b) => assert_eq!(b.right[0].0, BinaryOperation::StartsWith),
        other => panic!("expected a binary expression, got {:?}", other),
    }
    let (_, e3) = parse_entry_expression("A ENDS WITH \"x\"\n", 0).unwrap();
    match e3 {
        Expression::Binary(b) => assert_eq!(b.right[0].0, BinaryOperation::EndsWith),
        other => panic!("expected a binary expression, got {:?}", other),
    }
}

#[test]
fn or_binds_looser_than_and() {
    let (_, e) = parse_entry_expression("A OR B AND C\n", 0).unwrap();
    match e {
        Expression::Binary(b) => {
            assert_eq!(b.left, variable("A"));
            assert_eq!(b.right.len(), 1);
            assert_eq!(b.right[0].0, BinaryOperation::Or);
            match &b.right[0].1 {
                Expression::Binary(inner) => {
                    assert_eq!(inner.left, variable("B"));
                    assert_eq!(inner.right, vec![(BinaryOperation::And, variable("C"))]);
                }
                other => panic!("expected AND below OR, got {:?}", other),
            }
        }
        other => panic!("expected a binary expression, got {:?}", other),
    }
}

#[test]
fn syntax_error_names_position_and_rule() {
    let err = script_deps::hd_script_parser::parse_if_statement("SET A TO 1\n", 0).unwrap_err();
    assert_eq!(err.position, 0);
    assert_eq!(err.rule, "IF");
}

#[test]
fn variable_scan_stops_before_a_binary_operator() {
    let (_, e) = parse_entry_expression("First Name + Last Name\n", 0).unwrap();
    match e {
        Expression::Binary(b) => {
            assert_eq!(b.left, variable("First Name"));
            assert_eq!(b.right, vec![(BinaryOperation::Add, variable("Last Name"))]);
        }
        other => panic!("expected a binary expression, got {:?}", other),
    }
}

#[test]
fn remaining_display_keywords_parse() {
    let (_, script) = parse("UNGRAY ALL");
    assert_eq!(
        script.body,
        vec![Statement::Instruction(Instruction::Display(
            DisplayInstruction::UngrayAll
        ))]
    );
    let (_, script2) = parse("REQUIRE Name Field\n");
    assert_eq!(
        script2.body,
        vec![Statement::Instruction(Instruction::Display(
            DisplayInstruction::Require("Name Field".to_string())
        ))]
    );
    let (_, script3) = parse("SHOW ALL\nHIDE ALL\n");
    assert_eq!(
        script3.body,
        vec![
            Statement::Instruction(Instruction::Display(DisplayInstruction::ShowAll)),
            Statement::Instruction(Instruction::Display(DisplayInstruction::HideAll)),
        ]
    );
}

#[test]
fn three_branch_chain_nests_in_the_else_body() {
    let input = "IF A\nERASE W\nELSE IF B\nERASE X\nELSE\nERASE Y\nEND IF";
    let (rest, script) = parse(input);
    assert_eq!(rest, input.len());
    match &script.body[0] {
        Statement::If(top) => {
            assert_eq!(top.else_body.len(), 1);
            match &top.else_body[0] {
                Statement::If(nested) => {
                    assert_eq!(nested.then_body.len(), 1);
                    assert_eq!(nested.else_body.len(), 1);
                }
                other => panic!("expected a nested IF, got {:?}", other),
            }
        }
        other => panic!("expected an IF, got {:?}", other),
    }
}
