//! The executable recursive-descent parser.  Every function returns exactly
//! what the corresponding grammar function (module `grammar`) says: the same
//! next position, and a tree whose view is the grammar's tree; it fails
//! precisely where the grammar has no match.
use vstd::prelude::*;
use crate::ast::BinaryExpression;
use crate::ast::BinaryOperation;
use crate::ast::CommentStatement;
use crate::ast::DisplayInstruction;
use crate::ast::Expression;
use crate::ast::FunctionCall;
use crate::ast::IfStatement;
use crate::ast::Instruction;
use crate::ast::LimitExpression;
use crate::ast::LiteralExpression;
use crate::ast::LoopStatement;
use crate::ast::RepeatStatement;
use crate::ast::Script;
use crate::ast::ScriptInstruction;
use crate::ast::ScriptView;
use crate::ast::Statement;
use crate::ast::UnaryExpression;
use crate::ast::UnaryOperation;
use crate::ast::VariableReference;
use crate::ast::WhileStatement;
use crate::ast::lemma_view_expressions_push;
use crate::ast::lemma_view_operator_pairs_push;
use crate::ast::lemma_view_statements_push;
use crate::ast::precedence_of;
use crate::ast::view_expression;
use crate::ast::view_expressions;
use crate::ast::view_function_call;
use crate::ast::view_operator_pairs;
use crate::ast::view_script;
use crate::ast::view_statement;
use crate::ast::view_statements;
use crate::ast::view_variable_reference;
use crate::grammar;
use crate::grammar::Terminator;
use crate::lexical::lex_binary_operator;
use crate::lexical::lex_boolean_token;
use crate::lexical::lex_match_tag;
use crate::lexical::lex_name_token;
use crate::lexical::lex_number_token;
use crate::lexical::lex_remaining_text;
use crate::lexical::lex_scan_to_line_ending;
use crate::lexical::lex_skip_whitespace;
use crate::lexical::lex_string_token;

verus! {

/// A terminal syntax failure: no grammar alternative matched at `position`
/// while the rule named by `rule` was being attempted.
#[derive(Debug, PartialEq, Eq)]
pub struct ParseError {
    pub position: usize,
    pub rule: String,
}

impl ParseError {
    fn at(position: usize, rule: &str) -> (r: ParseError)
        ensures
            r.position == position,
            r.rule@ == rule@,
    {
        ParseError { position, rule: rule.to_owned() }
    }
}

/// The precedence tier of an operator, as the grammar fixes it.
fn precedence(op: BinaryOperation) -> (p: u8)
    ensures
        p as nat == precedence_of(op),
{
    match op {
        BinaryOperation::Or => 1,
        BinaryOperation::And => 2,
        BinaryOperation::EQ => 3,
        BinaryOperation::GT => 3,
        BinaryOperation::GTE => 3,
        BinaryOperation::LT => 3,
        BinaryOperation::LTE => 3,
        BinaryOperation::NE => 3,
        BinaryOperation::Add => 4,
        BinaryOperation::Subtract => 4,
        BinaryOperation::Multiply => 5,
        BinaryOperation::Divide => 5,
        BinaryOperation::Contains => 6,
        BinaryOperation::StartsWith => 6,
        BinaryOperation::EndsWith => 6,
    }
}

fn parse_variable_reference(input: &str, pos: usize) -> (r: Result<
    (usize, VariableReference),
    ParseError,
>)
    requires
        pos <= input@.len(),
    ensures
        match r {
            Ok((j, v)) => grammar::variable_reference(input@, pos as nat) == Some(
                (((j as nat), view_variable_reference(v))),
            ) && pos < j <= input@.len(),
            Err(err) => grammar::variable_reference(input@, pos as nat) is None && pos <= err.position <= input@.len(),
        },
    decreases input@.len() - pos, 0int,
{
    match lex_name_token(input, pos) {
        None => Err(ParseError::at(pos, "variable reference")),
        Some((j, nm)) => match parse_indexer(input, j) {
            Ok((k, fc)) => Ok((k, VariableReference { name: nm, indexer: Some(fc) })),
            Err(_) => Ok((j, VariableReference { name: nm, indexer: None })),
        },
    }
}

/// A bracketed, comma-separated expression list; its name field is the
/// empty-string sentinel, not a real call.
pub fn parse_indexer(input: &str, pos: usize) -> (r: Result<(usize, FunctionCall), ParseError>)
    requires
        pos <= input@.len(),
    ensures
        match r {
            Ok((j, f)) => grammar::indexer(input@, pos as nat) == Some(
                (((j as nat), view_function_call(f))),
            ) && pos < j <= input@.len(),
            Err(err) => grammar::indexer(input@, pos as nat) is None && pos <= err.position <= input@.len(),
        },
    decreases input@.len() - pos, 1int,
{
    let n = input.unicode_len();
    if pos < n && input.get_char(pos) == '[' {
        let j = lex_skip_whitespace(input, pos + 1);
        let (k, args) = parse_expression_list(input, j);
        let k2 = lex_skip_whitespace(input, k);
        if k2 < n && input.get_char(k2) == ']' {
            let e = lex_skip_whitespace(input, k2 + 1);
            Ok((e, FunctionCall { name: String::new(), args }))
        } else {
            Err(ParseError::at(k2, "indexer"))
        }
    } else {
        Err(ParseError::at(pos, "indexer"))
    }
}

/// A named call: an identifier scanned exactly like a variable reference,
/// then a parenthesized argument list.
pub fn parse_function_call(input: &str, pos: usize) -> (r: Result<
    (usize, FunctionCall),
    ParseError,
>)
    requires
        pos <= input@.len(),
    ensures
        match r {
            Ok((j, f)) => grammar::function_call(input@, pos as nat) == Some(
                (((j as nat), view_function_call(f))),
            ) && pos < j <= input@.len(),
            Err(err) => grammar::function_call(input@, pos as nat) is None && pos <= err.position <= input@.len(),
        },
    decreases input@.len() - pos, 2int,
{
    let n = input.unicode_len();
    match parse_variable_reference(input, pos) {
        Err(e) => Err(e),
        Ok((k, v)) => if k < n && input.get_char(k) == '(' {
            let j = lex_skip_whitespace(input, k + 1);
            let (m, args) = parse_expression_list(input, j);
            let m2 = lex_skip_whitespace(input, m);
            if m2 < n && input.get_char(m2) == ')' {
                let e = lex_skip_whitespace(input, m2 + 1);
                Ok((e, FunctionCall { name: v.name, args }))
            } else {
                Err(ParseError::at(m2, "function call"))
            }
        } else {
            Err(ParseError::at(k, "function call"))
        },
    }
}

/// Unary `NOT` (spelled `!` or `NOT`) applied to a whole entry expression.
fn parse_not_expression(input: &str, pos: usize) -> (r: Result<(usize, Expression), ParseError>)
    requires
        pos <= input@.len(),
    ensures
        match r {
            Ok((j, e)) => grammar::not_expression(input@, pos as nat) == Some(
                (((j as nat), view_expression(e))),
            ) && pos <= j <= input@.len(),
            Err(err) => grammar::not_expression(input@, pos as nat) is None && pos <= err.position <= input@.len(),
        },
    decreases input@.len() - pos, 2int,
{
    proof {
        reveal_strlit("!");
        reveal_strlit("NOT");
    }
    let n = input.unicode_len();
    let w = lex_skip_whitespace(input, pos);
    let t: Option<usize> = if lex_match_tag(input, w, "!") {
        Some(w + "!".unicode_len())
    } else if lex_match_tag(input, w, "NOT") {
        Some(w + "NOT".unicode_len())
    } else {
        None
    };
    match t {
        None => Err(ParseError::at(pos, "NOT")),
        Some(a) => {
            let b = lex_skip_whitespace(input, a);
            match parse_entry_expression(input, b) {
                Err(e) => Err(e),
                Ok((j, e)) => Ok(
                    (
                        j,
                        Expression::Unary(
                            Box::new(
                                UnaryExpression {
                                    operation: UnaryOperation::Not,
                                    expression: e,
                                },
                            ),
                        ),
                    ),
                ),
            }
        },
    }
}

/// The first matching atom alternative; see `grammar::atom_head`.
fn parse_atom_head(input: &str, pos: usize) -> (r: Result<(usize, Expression), ParseError>)
    requires
        pos <= input@.len(),
    ensures
        match r {
            Ok((j, e)) => grammar::atom_head(input@, pos as nat) == Some(
                (((j as nat), view_expression(e))),
            ) && pos <= j <= input@.len(),
            Err(err) => grammar::atom_head(input@, pos as nat) is None && pos <= err.position <= input@.len(),
        },
    decreases input@.len() - pos, 3int,
{
    let n = input.unicode_len();
    let paren: Option<(usize, Expression)> = if pos < n && input.get_char(pos) == '(' {
        let j = lex_skip_whitespace(input, pos + 1);
        match parse_entry_expression(input, j) {
            Err(_) => None,
            Ok((p, e)) => {
                let k = lex_skip_whitespace(input, p);
                if k < n && input.get_char(k) == ')' {
                    Some((lex_skip_whitespace(input, k + 1), e))
                } else {
                    None
                }
            },
        }
    } else {
        None
    };
    let inner: Option<(usize, Expression)> = if paren.is_some() {
        paren
    } else {
        match lex_number_token(input, pos) {
            Some((j, t)) => Some((j, Expression::Literal(LiteralExpression::Number(t)))),
            None => match lex_boolean_token(input, pos) {
                Some((j, b)) => Some((j, Expression::Literal(LiteralExpression::Boolean(b)))),
                None => match lex_string_token(input, pos) {
                    Some((j, t)) => Some((j, Expression::Literal(LiteralExpression::Text(t)))),
                    None => match parse_not_expression(input, pos) {
                        Ok((j, e)) => Some((j, e)),
                        Err(_) => {
                            let neg: Option<(usize, Expression)> = if pos < n && input.get_char(
                                pos,
                            ) == '-' {
                                match parse_expression_atom(input, pos + 1) {
                                    Ok((j, e)) => Some(
                                        (
                                            j,
                                            Expression::Unary(
                                                Box::new(
                                                    UnaryExpression {
                                                        operation: UnaryOperation::Negate,
                                                        expression: e,
                                                    },
                                                ),
                                            ),
                                        ),
                                    ),
                                    Err(_) => None,
                                }
                            } else {
                                None
                            };
                            if neg.is_some() {
                                neg
                            } else {
                                match parse_function_call(input, pos) {
                                    Ok((j, f)) => Some((j, Expression::FunctionCall(f))),
                                    Err(_) => match parse_variable_reference(input, pos) {
                                        Ok((j, v)) => Some((j, Expression::Variable(v))),
                                        Err(_) => None,
                                    },
                                }
                            }
                        },
                    },
                },
            },
        }
    };
    match inner {
        None => Err(ParseError::at(pos, "expression atom")),
        Some((j, e)) => Ok((j, e)),
    }
}

/// One atom of an expression: the first matching alternative, then optional
/// whitespace and an optional date-unit suffix; see `grammar::atom`.
pub fn parse_expression_atom(input: &str, pos: usize) -> (r: Result<
    (usize, Expression),
    ParseError,
>)
    requires
        pos <= input@.len(),
    ensures
        match r {
            Ok((j, e)) => grammar::atom(input@, pos as nat) == Some(
                (((j as nat), view_expression(e))),
            ) && pos <= j <= input@.len(),
            Err(err) => grammar::atom(input@, pos as nat) is None && pos <= err.position <= input@.len(),
        },
    decreases input@.len() - pos, 4int,
{
    let n = input.unicode_len();
    match parse_atom_head(input, pos) {
        Err(e) => Err(e),
        Ok((j, e)) => {
            let j2 = lex_skip_whitespace(input, j);
            let (j3, e2): (usize, Expression) = if lex_match_tag(input, j2, "DAYS") {
                (j2 + "DAYS".unicode_len(), Expression::Days(Box::new(e)))
            } else if lex_match_tag(input, j2, "MONTHS") {
                (j2 + "MONTHS".unicode_len(), Expression::Months(Box::new(e)))
            } else if lex_match_tag(input, j2, "YEARS") {
                (j2 + "YEARS".unicode_len(), Expression::Years(Box::new(e)))
            } else if lex_match_tag(input, j2, "DAY") {
                (j2 + "DAY".unicode_len(), Expression::Days(Box::new(e)))
            } else if lex_match_tag(input, j2, "MONTH") {
                (j2 + "MONTH".unicode_len(), Expression::Months(Box::new(e)))
            } else if lex_match_tag(input, j2, "YEAR") {
                (j2 + "YEAR".unicode_len(), Expression::Years(Box::new(e)))
            } else {
                (j2, e)
            };
            Ok((lex_skip_whitespace(input, j3), e2))
        },
    }
}

/// The operator loop of precedence climbing; see `grammar::operator_chain`.
fn parse_operator_chain(input: &str, pos: usize, level: u8) -> (r: (
    usize,
    Vec<(BinaryOperation, Expression)>,
))
    requires
        pos <= input@.len(),
    ensures
        grammar::operator_chain(input@, pos as nat, level as nat) == ((r.0 as nat), view_operator_pairs(r.1@)),
        pos <= r.0 <= input@.len(),
    decreases input@.len() - pos, 4int,
{
    let mut acc: Vec<(BinaryOperation, Expression)> = Vec::new();
    let mut cur = pos;
    loop
        invariant
            pos <= cur <= input@.len(),
            ({
                let (m, rest) = grammar::operator_chain(input@, cur as nat, level as nat);
                grammar::operator_chain(input@, pos as nat, level as nat) == (m, view_operator_pairs(acc@) + rest)
            }),
        decreases input@.len() - cur,
    {
        let stop: bool = match lex_binary_operator(input, cur) {
            None => true,
            Some((a, op)) => {
                let p = precedence(op);
                if p < level {
                    true
                } else {
                    let j = lex_skip_whitespace(input, a);
                    match parse_expression(input, j, p + 1) {
                        Err(_) => true,
                        Ok((m, rhs)) => {
                            proof {
                                lemma_view_operator_pairs_push(acc@, (op, rhs));
                                let (mm, rest) = grammar::operator_chain(
                                    input@,
                                    m as nat,
                                    level as nat,
                                );
                                assert(view_operator_pairs(acc@) + (seq![
                                    (op, view_expression(rhs)),
                                ] + rest) =~= view_operator_pairs(acc@.push((op, rhs))) + rest);
                            }
                            acc.push((op, rhs));
                            cur = m;
                            false
                        },
                    }
                }
            },
        };
        if stop {
            proof {
                assert(view_operator_pairs(acc@) + Seq::<
                    (BinaryOperation, crate::ast::ExpressionView),
                >::empty() =~= view_operator_pairs(acc@));
            }
            return (cur, acc);
        }
    }
}

/// An expression at a minimum precedence level; see `grammar::expression`.
fn parse_expression(input: &str, pos: usize, level: u8) -> (r: Result<
    (usize, Expression),
    ParseError,
>)
    requires
        pos <= input@.len(),
    ensures
        match r {
            Ok((j, e)) => grammar::expression(input@, pos as nat, level as nat) == Some(
                (((j as nat), view_expression(e))),
            ) && pos <= j <= input@.len(),
            Err(err) => grammar::expression(input@, pos as nat, level as nat) is None && pos <= err.position <= input@.len(),
        },
    decreases input@.len() - pos, 5int,
{
    match parse_expression_atom(input, pos) {
        Err(e) => Err(e),
        Ok((j0, left)) => {
            let j = lex_skip_whitespace(input, j0);
            let (k, pairs) = parse_operator_chain(input, j, level);
            let e = lex_skip_whitespace(input, k);
            if pairs.len() > 0 {
                Ok((e, Expression::Binary(Box::new(BinaryExpression { left, right: pairs }))))
            } else {
                Ok((e, left))
            }
        },
    }
}

/// An expression with no minimum precedence: every operator is accepted.
pub fn parse_entry_expression(input: &str, pos: usize) -> (r: Result<
    (usize, Expression),
    ParseError,
>)
    requires
        pos <= input@.len(),
    ensures
        match r {
            Ok((j, e)) => grammar::entry_expression(input@, pos as nat) == Some(
                (((j as nat), view_expression(e))),
            ) && pos <= j <= input@.len(),
            Err(err) => grammar::entry_expression(input@, pos as nat) is None && pos <= err.position <= input@.len(),
        },
    decreases input@.len() - pos, 6int,
{
    parse_expression(input, pos, 1)
}

/// A possibly empty comma-separated expression list, each element around
/// optional whitespace; see `grammar::expression_list`.
#[verifier::rlimit(60)]
fn parse_expression_list(input: &str, pos: usize) -> (r: (usize, Vec<Expression>))
    requires
        pos <= input@.len(),
    ensures
        grammar::expression_list(input@, pos as nat) == ((r.0 as nat), view_expressions(r.1@)),
        pos <= r.0 <= input@.len(),
    decreases input@.len() - pos, 8int,
{
    let n = input.unicode_len();
    let j = lex_skip_whitespace(input, pos);
    match parse_expression(input, j, 1) {
        Err(_) => (pos, Vec::new()),
        Ok((k, e)) => {
            let k2 = lex_skip_whitespace(input, k);
            if !(pos < k2) {
                return (pos, Vec::new());
            }
            let mut acc: Vec<Expression> = Vec::new();
            proof {
                lemma_view_expressions_push(acc@, e);
            }
            acc.push(e);
            let mut cur = k2;
            loop
                invariant
                    pos < cur <= input@.len(),
                    n == input@.len(),
                    ({
                        let (m, rest) = grammar::expression_list_more(input@, cur as nat);
                        grammar::expression_list(input@, pos as nat) == (m, view_expressions(acc@) + rest)
                    }),
                decreases input@.len() - cur,
            {
                let stop: bool = if cur < n && input.get_char(cur) == ',' {
                    let j2 = lex_skip_whitespace(input, cur + 1);
                    match parse_expression(input, j2, 1) {
                        Err(_) => true,
                        Ok((k3, e2)) => {
                            let k4 = lex_skip_whitespace(input, k3);
                            if !(cur < k4) {
                                true
                            } else {
                                proof {
                                    lemma_view_expressions_push(acc@, e2);
                                    let (mm, rest) = grammar::expression_list_more(
                                        input@,
                                        k4 as nat,
                                    );
                                    assert(view_expressions(acc@) + (seq![view_expression(e2)]
                                        + rest) =~= view_expressions(acc@.push(e2)) + rest);
                                }
                                acc.push(e2);
                                cur = k4;
                                false
                            }
                        },
                    }
                } else {
                    true
                };
                if stop {
                    proof {
                        assert(view_expressions(acc@) + Seq::<
                            crate::ast::ExpressionView,
                        >::empty() =~= view_expressions(acc@));
                    }
                    return (cur, acc);
                }
            }
        },
    }
}

/// Whitespace, then the terminator of a statement sequence; see
/// `grammar::terminator_match`.
fn parse_terminator(input: &str, pos: usize, t: Terminator) -> (r: Option<(usize, bool)>)
    requires
        pos <= input@.len(),
    ensures
        match r {
            Some((j, he)) => grammar::terminator_match(input@, pos as nat, t) == Some(
                (((j as nat), he)),
            ) && pos <= j <= input@.len(),
            None => grammar::terminator_match(input@, pos as nat, t) is None,
        },
{
    let n = input.unicode_len();
    let k = lex_skip_whitespace(input, pos);
    match t {
        Terminator::EndIfOrElse => if lex_match_tag(input, k, "END IF") {
            Some((k + "END IF".unicode_len(), false))
        } else if lex_match_tag(input, k, "ELSE") {
            Some((k + "ELSE".unicode_len(), true))
        } else {
            None
        },
        Terminator::ElseOrPeekEndIf => if lex_match_tag(input, k, "END IF") {
            Some((k, false))
        } else if lex_match_tag(input, k, "ELSE") {
            Some((k + "ELSE".unicode_len(), true))
        } else {
            None
        },
        Terminator::EndWhile => if lex_match_tag(input, k, "END WHILE") {
            Some((k + "END WHILE".unicode_len(), false))
        } else {
            None
        },
        Terminator::EndRepeat => if lex_match_tag(input, k, "END REPEAT") {
            Some((k + "END REPEAT".unicode_len(), false))
        } else {
            None
        },
    }
}

/// A comment: `//`, then the rest of the line as its text.
pub fn parse_comment_statement(input: &str, pos: usize) -> (r: Result<
    (usize, CommentStatement),
    ParseError,
>)
    requires
        pos <= input@.len(),
    ensures
        match r {
            Ok((j, c)) => grammar::comment_statement(input@, pos as nat) == Some(
                (((j as nat), c.comment@)),
            ) && pos <= j <= input@.len(),
            Err(err) => grammar::comment_statement(input@, pos as nat) is None && pos <= err.position <= input@.len(),
        },
{
    let n = input.unicode_len();
    if lex_match_tag(input, pos, "//") {
        let b = pos + "//".unicode_len();
        let e = lex_scan_to_line_ending(input, b);
        Ok((e, CommentStatement { comment: input.substring_char(b, e).to_owned() }))
    } else {
        Err(ParseError::at(pos, "comment"))
    }
}

/// `QUIT`: the remainder of the line is consumed and discarded.
pub fn parse_quit_instruction(input: &str, pos: usize) -> (r: Result<
    (usize, ScriptInstruction),
    ParseError,
>)
    requires
        pos <= input@.len(),
    ensures
        match r {
            Ok((j, x)) => grammar::quit_instruction(input@, pos as nat) == Some(
                (((j as nat), crate::ast::view_script_instruction(x))),
            ) && pos <= j <= input@.len(),
            Err(err) => grammar::quit_instruction(input@, pos as nat) is None && pos <= err.position <= input@.len(),
        },
{
    let n = input.unicode_len();
    if lex_match_tag(input, pos, "QUIT") {
        let e = lex_scan_to_line_ending(input, pos + "QUIT".unicode_len());
        Ok((e, ScriptInstruction::Quit))
    } else {
        Err(ParseError::at(pos, "QUIT"))
    }
}

/// The zero-argument instruction keywords, and `ASCEND`/`DESCEND` with their
/// trailing free text.
fn parse_bare_keyword_instruction(input: &str, pos: usize) -> (r: Result<
    (usize, ScriptInstruction),
    ParseError,
>)
    requires
        pos <= input@.len(),
    ensures
        match r {
            Ok((j, x)) => grammar::bare_keyword_instruction(input@, pos as nat) == Some(
                (((j as nat), crate::ast::view_script_instruction(x))),
            ) && pos <= j <= input@.len(),
            Err(err) => grammar::bare_keyword_instruction(input@, pos as nat) is None && pos <= err.position <= input@.len(),
        },
{
    let n = input.unicode_len();
    if lex_match_tag(input, pos, "FILTER") {
        Ok((pos + "FILTER".unicode_len(), ScriptInstruction::Filter))
    } else if lex_match_tag(input, pos, "FORMAT") {
        Ok((pos + "FORMAT".unicode_len(), ScriptInstruction::Format))
    } else if lex_match_tag(input, pos, "OTHER") {
        Ok((pos + "OTHER".unicode_len(), ScriptInstruction::Other))
    } else if lex_match_tag(input, pos, "SELECTION") {
        Ok((pos + "SELECTION".unicode_len(), ScriptInstruction::Selection))
    } else if lex_match_tag(input, pos, "UNANSWERED") {
        Ok((pos + "UNANSWERED".unicode_len(), ScriptInstruction::Unanswered))
    } else if lex_match_tag(input, pos, "UNION") {
        Ok((pos + "UNION".unicode_len(), ScriptInstruction::Union))
    } else if lex_match_tag(input, pos, "VALUE") {
        Ok((pos + "VALUE".unicode_len(), ScriptInstruction::Value))
    } else if lex_match_tag(input, pos, "ZERO") {
        Ok((pos + "ZERO".unicode_len(), ScriptInstruction::Zero))
    } else {
        let asc: Option<(usize, ScriptInstruction)> = if lex_match_tag(input, pos, "ASCEND") {
            match lex_remaining_text(input, pos + "ASCEND".unicode_len()) {
                Some((e, t)) => Some((e, ScriptInstruction::Ascend(t))),
                None => None,
            }
        } else {
            None
        };
        if asc.is_some() {
            Ok(asc.unwrap())
        } else if lex_match_tag(input, pos, "DESCEND") {
            match lex_remaining_text(input, pos + "DESCEND".unicode_len()) {
                Some((e, t)) => Ok((e, ScriptInstruction::Descend(t))),
                None => Err(ParseError::at(pos, "instruction")),
            }
        } else {
            Err(ParseError::at(pos, "instruction"))
        }
    }
}

/// A keyword followed by one variable reference; see
/// `grammar::keyword_reference`.
fn parse_keyword_reference(input: &str, pos: usize, kw: &str) -> (r: Result<
    (usize, VariableReference),
    ParseError,
>)
    requires
        pos <= input@.len(),
    ensures
        match r {
            Ok((j, v)) => grammar::keyword_reference(input@, pos as nat, kw@) == Some(
                (((j as nat), view_variable_reference(v))),
            ) && pos <= j <= input@.len(),
            Err(err) => grammar::keyword_reference(input@, pos as nat, kw@) is None && pos <= err.position <= input@.len(),
        },
{
    let n = input.unicode_len();
    if lex_match_tag(input, pos, kw) {
        parse_variable_reference(input, pos + kw.unicode_len())
    } else {
        Err(ParseError::at(pos, "instruction"))
    }
}

pub fn parse_increment_instruction(input: &str, pos: usize) -> (r: Result<
    (usize, ScriptInstruction),
    ParseError,
>)
    requires
        pos <= input@.len(),
    ensures
        match r {
            Ok((j, x)) => grammar::increment_instruction(input@, pos as nat) == Some(
                (((j as nat), crate::ast::view_script_instruction(x))),
            ) && pos <= j <= input@.len(),
            Err(err) => grammar::increment_instruction(input@, pos as nat) is None && pos <= err.position <= input@.len(),
        },
{
    match parse_keyword_reference(input, pos, "INCREMENT ") {
        Ok((j, v)) => Ok((j, ScriptInstruction::Increment(v))),
        Err(e) => Err(e),
    }
}

pub fn parse_decrement_instruction(input: &str, pos: usize) -> (r: Result<
    (usize, ScriptInstruction),
    ParseError,
>)
    requires
        pos <= input@.len(),
    ensures
        match r {
            Ok((j, x)) => grammar::decrement_instruction(input@, pos as nat) == Some(
                (((j as nat), crate::ast::view_script_instruction(x))),
            ) && pos <= j <= input@.len(),
            Err(err) => grammar::decrement_instruction(input@, pos as nat) is None && pos <= err.position <= input@.len(),
        },
{
    match parse_keyword_reference(input, pos, "DECREMENT ") {
        Ok((j, v)) => Ok((j, ScriptInstruction::Decrement(v))),
        Err(e) => Err(e),
    }
}

pub fn parse_erase_instruction(input: &str, pos: usize) -> (r: Result<
    (usize, ScriptInstruction),
    ParseError,
>)
    requires
        pos <= input@.len(),
    ensures
        match r {
            Ok((j, x)) => grammar::erase_instruction(input@, pos as nat) == Some(
                (((j as nat), crate::ast::view_script_instruction(x))),
            ) && pos <= j <= input@.len(),
            Err(err) => grammar::erase_instruction(input@, pos as nat) is None && pos <= err.position <= input@.len(),
        },
{
    match parse_keyword_reference(input, pos, "ERASE ") {
        Ok((j, v)) => Ok((j, ScriptInstruction::Erase(v))),
        Err(e) => Err(e),
    }
}

pub fn parse_assemble_instruction(input: &str, pos: usize) -> (r: Result<
    (usize, ScriptInstruction),
    ParseError,
>)
    requires
        pos <= input@.len(),
    ensures
        match r {
            Ok((j, x)) => grammar::assemble_instruction(input@, pos as nat) == Some(
                (((j as nat), crate::ast::view_script_instruction(x))),
            ) && pos <= j <= input@.len(),
            Err(err) => grammar::assemble_instruction(input@, pos as nat) is None && pos <= err.position <= input@.len(),
        },
{
    match parse_keyword_reference(input, pos, "ASSEMBLE ") {
        Ok((j, v)) => Ok((j, ScriptInstruction::Assemble(v))),
        Err(e) => Err(e),
    }
}

/// `SET <variable> TO <expression>`.
pub fn parse_set_instruction(input: &str, pos: usize) -> (r: Result<
    (usize, ScriptInstruction),
    ParseError,
>)
    requires
        pos <= input@.len(),
    ensures
        match r {
            Ok((j, x)) => grammar::set_instruction(input@, pos as nat) == Some(
                (((j as nat), crate::ast::view_script_instruction(x))),
            ) && pos <= j <= input@.len(),
            Err(err) => grammar::set_instruction(input@, pos as nat) is None && pos <= err.position <= input@.len(),
        },
{
    let n = input.unicode_len();
    if lex_match_tag(input, pos, "SET ") {
        match parse_variable_reference(input, pos + "SET ".unicode_len()) {
            Err(e) => Err(e),
            Ok((k, v)) => {
                let k2 = lex_skip_whitespace(input, k);
                if lex_match_tag(input, k2, "TO ") {
                    match parse_entry_expression(input, k2 + "TO ".unicode_len()) {
                        Err(e) => Err(e),
                        Ok((m, e)) => Ok((m, ScriptInstruction::SetTo(v, e))),
                    }
                } else {
                    Err(ParseError::at(k2, "SET"))
                }
            },
        }
    } else {
        Err(ParseError::at(pos, "SET"))
    }
}

/// `ADD <expression> TO <variable>`.
pub fn parse_add_instruction(input: &str, pos: usize) -> (r: Result<
    (usize, ScriptInstruction),
    ParseError,
>)
    requires
        pos <= input@.len(),
    ensures
        match r {
            Ok((j, x)) => grammar::add_instruction(input@, pos as nat) == Some(
                (((j as nat), crate::ast::view_script_instruction(x))),
            ) && pos <= j <= input@.len(),
            Err(err) => grammar::add_instruction(input@, pos as nat) is None && pos <= err.position <= input@.len(),
        },
{
    proof {
        reveal_strlit("ADD ");
    }
    let n = input.unicode_len();
    if lex_match_tag(input, pos, "ADD ") {
        match parse_entry_expression(input, pos + "ADD ".unicode_len()) {
            Err(e) => Err(e),
            Ok((k, e)) => {
                let k2 = lex_skip_whitespace(input, k);
                if lex_match_tag(input, k2, "TO ") {
                    match parse_variable_reference(input, k2 + "TO ".unicode_len()) {
                        Err(e2) => Err(e2),
                        Ok((m, v)) => Ok((m, ScriptInstruction::Add(v, e))),
                    }
                } else {
                    Err(ParseError::at(k2, "ADD"))
                }
            },
        }
    } else {
        Err(ParseError::at(pos, "ADD"))
    }
}

/// `DEFAULT <variable> TO <expression>`, with at least one whitespace
/// character after the `TO`.
pub fn parse_default_instruction(input: &str, pos: usize) -> (r: Result<
    (usize, ScriptInstruction),
    ParseError,
>)
    requires
        pos <= input@.len(),
    ensures
        match r {
            Ok((j, x)) => grammar::default_instruction(input@, pos as nat) == Some(
                (((j as nat), crate::ast::view_script_instruction(x))),
            ) && pos <= j <= input@.len(),
            Err(err) => grammar::default_instruction(input@, pos as nat) is None && pos <= err.position <= input@.len(),
        },
{
    let n = input.unicode_len();
    if lex_match_tag(input, pos, "DEFAULT ") {
        match parse_variable_reference(input, pos + "DEFAULT ".unicode_len()) {
            Err(e) => Err(e),
            Ok((k, v)) => {
                let k2 = lex_skip_whitespace(input, k);
                if lex_match_tag(input, k2, "TO") {
                    let m0 = k2 + "TO".unicode_len();
                    let m = lex_skip_whitespace(input, m0);
                    if m > m0 {
                        match parse_entry_expression(input, m) {
                            Err(e2) => Err(e2),
                            Ok((q, x)) => Ok((q, ScriptInstruction::Default(v, x))),
                        }
                    } else {
                        Err(ParseError::at(m0, "DEFAULT"))
                    }
                } else {
                    Err(ParseError::at(k2, "DEFAULT"))
                }
            },
        }
    } else {
        Err(ParseError::at(pos, "DEFAULT"))
    }
}

/// The operand of `LIMIT`: a numeric literal, else the rest of the line as a
/// bare variable name.
fn parse_limit_expression(input: &str, pos: usize) -> (r: (usize, LimitExpression))
    requires
        pos <= input@.len(),
    ensures
        grammar::limit_expression(input@, pos as nat) == (
            (r.0 as nat),
            crate::ast::view_limit(r.1),
        ),
        pos <= r.0 <= input@.len(),
{
    match lex_number_token(input, pos) {
        Some((e, t)) => (e, LimitExpression::Number(t)),
        None => {
            let e = lex_scan_to_line_ending(input, pos);
            (e, LimitExpression::Variable(input.substring_char(pos, e).to_owned()))
        },
    }
}

/// A display instruction; see `grammar::display_instruction` for the
/// keywords and their order.
fn parse_display_instruction(input: &str, pos: usize) -> (r: Result<
    (usize, DisplayInstruction),
    ParseError,
>)
    requires
        pos <= input@.len(),
    ensures
        match r {
            Ok((j, d)) => grammar::display_instruction(input@, pos as nat) == Some(
                (((j as nat), crate::ast::view_display(d))),
            ) && pos <= j <= input@.len(),
            Err(err) => grammar::display_instruction(input@, pos as nat) is None && pos <= err.position <= input@.len(),
        },
{
    let n = input.unicode_len();
    let r0: Option<(usize, DisplayInstruction)> = if lex_match_tag(input, pos, "ASK") {
        match lex_remaining_text(input, pos + "ASK".unicode_len()) {
            Some((e, t)) => Some((e, DisplayInstruction::Ask(t))),
            None => None,
        }
    } else {
        None
    };
    let r1: Option<(usize, DisplayInstruction)> = if r0.is_some() {
        r0
    } else if lex_match_tag(input, pos, "GRAY ALL") {
        Some((pos + "GRAY ALL".unicode_len(), DisplayInstruction::GrayAll))
    } else if lex_match_tag(input, pos, "GRAY") {
        match lex_remaining_text(input, pos + "GRAY".unicode_len()) {
            Some((e, t)) => Some((e, DisplayInstruction::Gray(t))),
            None => None,
        }
    } else {
        None
    };
    let r2: Option<(usize, DisplayInstruction)> = if r1.is_some() {
        r1
    } else if lex_match_tag(input, pos, "UNGRAY ALL") {
        Some((pos + "UNGRAY ALL".unicode_len(), DisplayInstruction::UngrayAll))
    } else if lex_match_tag(input, pos, "UNGRAY") {
        match lex_remaining_text(input, pos + "UNGRAY".unicode_len()) {
            Some((e, t)) => Some((e, DisplayInstruction::Ungray(t))),
            None => None,
        }
    } else {
        None
    };
    let r3: Option<(usize, DisplayInstruction)> = if r2.is_some() {
        r2
    } else if lex_match_tag(input, pos, "SHOW ALL") {
        Some((pos + "SHOW ALL".unicode_len(), DisplayInstruction::ShowAll))
    } else if lex_match_tag(input, pos, "SHOW") {
        match lex_remaining_text(input, pos + "SHOW".unicode_len()) {
            Some((e, t)) => Some((e, DisplayInstruction::Show(t))),
            None => None,
        }
    } else {
        None
    };
    let r4: Option<(usize, DisplayInstruction)> = if r3.is_some() {
        r3
    } else if lex_match_tag(input, pos, "HIDE ALL") {
        Some((pos + "HIDE ALL".unicode_len(), DisplayInstruction::HideAll))
    } else if lex_match_tag(input, pos, "HIDE") {
        match lex_remaining_text(input, pos + "HIDE".unicode_len()) {
            Some((e, t)) => Some((e, DisplayInstruction::Hide(t))),
            None => None,
        }
    } else {
        None
    };
    let r5: Option<(usize, DisplayInstruction)> = if r4.is_some() {
        r4
    } else if lex_match_tag(input, pos, "REQUIRE ALL") {
        Some((pos + "REQUIRE ALL".unicode_len(), DisplayInstruction::RequireAll))
    } else if lex_match_tag(input, pos, "REQUIRE") {
        match lex_remaining_text(input, pos + "REQUIRE".unicode_len()) {
            Some((e, t)) => Some((e, DisplayInstruction::Require(t))),
            None => None,
        }
    } else {
        None
    };
    let r6: Option<(usize, DisplayInstruction)> = if r5.is_some() {
        r5
    } else if lex_match_tag(input, pos, "LIMIT") {
        let a = pos + "LIMIT".unicode_len();
        let k = lex_skip_whitespace(input, a);
        if k > a {
            let (e, l) = parse_limit_expression(input, k);
            Some((e, DisplayInstruction::Limit(l)))
        } else {
            None
        }
    } else {
        None
    };
    match r6 {
        None => Err(ParseError::at(pos, "display instruction")),
        Some((e, d)) => Ok((lex_skip_whitespace(input, e), d)),
    }
}

/// A scripting or display instruction, the alternatives tried in the
/// grammar's fixed order.
fn parse_instruction(input: &str, pos: usize) -> (r: Result<(usize, Instruction), ParseError>)
    requires
        pos <= input@.len(),
    ensures
        match r {
            Ok((j, x)) => grammar::instruction(input@, pos as nat) == Some(
                (((j as nat), crate::ast::view_instruction(x))),
            ) && pos <= j <= input@.len(),
            Err(err) => grammar::instruction(input@, pos as nat) is None && pos <= err.position <= input@.len(),
        },
{
    match parse_increment_instruction(input, pos) {
        Ok((j, x)) => {
            return Ok((j, Instruction::Script(x)));
        },
        Err(_) => {},
    }
    match parse_decrement_instruction(input, pos) {
        Ok((j, x)) => {
            return Ok((j, Instruction::Script(x)));
        },
        Err(_) => {},
    }
    match parse_quit_instruction(input, pos) {
        Ok((j, x)) => {
            return Ok((j, Instruction::Script(x)));
        },
        Err(_) => {},
    }
    match parse_erase_instruction(input, pos) {
        Ok((j, x)) => {
            return Ok((j, Instruction::Script(x)));
        },
        Err(_) => {},
    }
    match parse_set_instruction(input, pos) {
        Ok((j, x)) => {
            return Ok((j, Instruction::Script(x)));
        },
        Err(_) => {},
    }
    match parse_add_instruction(input, pos) {
        Ok((j, x)) => {
            return Ok((j, Instruction::Script(x)));
        },
        Err(_) => {},
    }
    match parse_default_instruction(input, pos) {
        Ok((j, x)) => {
            return Ok((j, Instruction::Script(x)));
        },
        Err(_) => {},
    }
    match parse_assemble_instruction(input, pos) {
        Ok((j, x)) => {
            return Ok((j, Instruction::Script(x)));
        },
        Err(_) => {},
    }
    match parse_bare_keyword_instruction(input, pos) {
        Ok((j, x)) => {
            return Ok((j, Instruction::Script(x)));
        },
        Err(_) => {},
    }
    match parse_display_instruction(input, pos) {
        Ok((j, d)) => Ok((j, Instruction::Display(d))),
        Err(e) => Err(e),
    }
}

/// `IF <expression>`, statements to `END IF` or `ELSE`, and on `ELSE` an
/// else block; see `grammar::if_statement`.
pub fn parse_if_statement(input: &str, pos: usize) -> (r: Result<(usize, IfStatement), ParseError>)
    requires
        pos <= input@.len(),
    ensures
        match r {
            Ok((j, f)) => grammar::if_statement(input@, pos as nat) == Some(
                (((j as nat), view_statement(Statement::If(f)))),
            ) && pos <= j <= input@.len(),
            Err(err) => grammar::if_statement(input@, pos as nat) is None && pos <= err.position <= input@.len(),
        },
    decreases input@.len() - pos, 12int,
{
    proof {
        reveal_strlit("IF");
    }
    let n = input.unicode_len();
    if !lex_match_tag(input, pos, "IF") {
        return Err(ParseError::at(pos, "IF"));
    }
    let j = lex_skip_whitespace(input, pos + "IF".unicode_len());
    match parse_expression(input, j, 1) {
        Err(e) => Err(e),
        Ok((p, cond)) => match parse_statement_sequence(input, p, Terminator::EndIfOrElse) {
            Err(e) => Err(e),
            Ok((q, then_b, hit_else)) => if !hit_else {
                Ok((q, IfStatement { condition: cond, then_body: then_b, else_body: Vec::new() }))
            } else {
                match parse_else_block(input, q, false) {
                    Err(e) => Err(e),
                    Ok((w, else_b)) => Ok(
                        (w, IfStatement { condition: cond, then_body: then_b, else_body: else_b }),
                    ),
                }
            },
        },
    }
}

/// An else-if right after a consumed `ELSE`; it only peeks at the closing
/// `END IF`.
fn parse_else_if(input: &str, pos: usize) -> (r: Result<(usize, Statement), ParseError>)
    requires
        pos <= input@.len(),
    ensures
        match r {
            Ok((j, st)) => grammar::else_if(input@, pos as nat) == Some(
                (((j as nat), view_statement(st))),
            ) && pos <= j <= input@.len(),
            Err(err) => grammar::else_if(input@, pos as nat) is None && pos <= err.position <= input@.len(),
        },
    decreases input@.len() - pos, 12int,
{
    proof {
        reveal_strlit(" IF");
    }
    let n = input.unicode_len();
    if !lex_match_tag(input, pos, " IF") {
        return Err(ParseError::at(pos, "ELSE IF"));
    }
    let j = lex_skip_whitespace(input, pos + " IF".unicode_len());
    match parse_expression(input, j, 1) {
        Err(e) => Err(e),
        Ok((p, cond)) => match parse_statement_sequence(input, p, Terminator::ElseOrPeekEndIf) {
            Err(e) => Err(e),
            Ok((q, then_b, hit_else)) => if !hit_else {
                Ok(
                    (
                        q,
                        Statement::If(
                            IfStatement {
                                condition: cond,
                                then_body: then_b,
                                else_body: Vec::new(),
                            },
                        ),
                    ),
                )
            } else {
                match parse_else_block(input, q, true) {
                    Err(e) => Err(e),
                    Ok((w, else_b)) => Ok(
                        (
                            w,
                            Statement::If(
                                IfStatement {
                                    condition: cond,
                                    then_body: then_b,
                                    else_body: else_b,
                                },
                            ),
                        ),
                    ),
                }
            },
        },
    }
}

/// `WHILE <expression>`, statements, `END WHILE`.
pub fn parse_while_statement(input: &str, pos: usize) -> (r: Result<
    (usize, LoopStatement),
    ParseError,
>)
    requires
        pos <= input@.len(),
    ensures
        match r {
            Ok((j, l)) => grammar::while_statement(input@, pos as nat) == Some(
                (((j as nat), view_statement(Statement::Loop(l)))),
            ) && pos <= j <= input@.len(),
            Err(err) => grammar::while_statement(input@, pos as nat) is None && pos <= err.position <= input@.len(),
        },
    decreases input@.len() - pos, 12int,
{
    proof {
        reveal_strlit("WHILE ");
    }
    let n = input.unicode_len();
    if !lex_match_tag(input, pos, "WHILE ") {
        return Err(ParseError::at(pos, "WHILE"));
    }
    match parse_entry_expression(input, pos + "WHILE ".unicode_len()) {
        Err(e) => Err(e),
        Ok((p, cond)) => match parse_statement_sequence(input, p, Terminator::EndWhile) {
            Err(e) => Err(e),
            Ok((q, body, _)) => Ok(
                (q, LoopStatement::While(WhileStatement { condition: cond, body })),
            ),
        },
    }
}

/// `REPEAT <variable>`, statements, `END REPEAT`, optional whitespace.
pub fn parse_repeat_statement(input: &str, pos: usize) -> (r: Result<
    (usize, LoopStatement),
    ParseError,
>)
    requires
        pos <= input@.len(),
    ensures
        match r {
            Ok((j, l)) => grammar::repeat_statement(input@, pos as nat) == Some(
                (((j as nat), view_statement(Statement::Loop(l)))),
            ) && pos <= j <= input@.len(),
            Err(err) => grammar::repeat_statement(input@, pos as nat) is None && pos <= err.position <= input@.len(),
        },
    decreases input@.len() - pos, 12int,
{
    proof {
        reveal_strlit("REPEAT ");
    }
    let n = input.unicode_len();
    if !lex_match_tag(input, pos, "REPEAT ") {
        return Err(ParseError::at(pos, "REPEAT"));
    }
    match parse_variable_reference(input, pos + "REPEAT ".unicode_len()) {
        Err(e) => Err(e),
        Ok((p, dialog)) => match parse_statement_sequence(input, p, Terminator::EndRepeat) {
            Err(e) => Err(e),
            Ok((q, body, _)) => Ok(
                (
                    lex_skip_whitespace(input, q),
                    LoopStatement::Repeat(RepeatStatement { dialog, body }),
                ),
            ),
        },
    }
}

/// A bare expression in statement position, recorded as a return statement.
pub fn parse_return_statement(input: &str, pos: usize) -> (r: Result<
    (usize, Expression),
    ParseError,
>)
    requires
        pos <= input@.len(),
    ensures
        match r {
            Ok((j, e)) => grammar::entry_expression(input@, pos as nat) == Some(
                (((j as nat), view_expression(e))),
            ) && pos <= j <= input@.len(),
            Err(err) => grammar::entry_expression(input@, pos as nat) is None && pos <= err.position <= input@.len(),
        },
{
    parse_entry_expression(input, pos)
}

/// One statement: optional whitespace, then the first matching alternative;
/// see `grammar::statement`.
pub fn parse_statement(input: &str, pos: usize) -> (r: Result<(usize, Statement), ParseError>)
    requires
        pos <= input@.len(),
    ensures
        match r {
            Ok((j, st)) => grammar::statement(input@, pos as nat) == Some(
                (((j as nat), view_statement(st))),
            ) && pos <= j <= input@.len(),
            Err(err) => grammar::statement(input@, pos as nat) is None && pos <= err.position <= input@.len(),
        },
    decreases input@.len() - pos, 13int,
{
    let k = lex_skip_whitespace(input, pos);
    match parse_comment_statement(input, k) {
        Ok((j, c)) => {
            return Ok((j, Statement::Comment(c)));
        },
        Err(_) => {},
    }
    match parse_if_statement(input, k) {
        Ok((j, f)) => {
            return Ok((j, Statement::If(f)));
        },
        Err(_) => {},
    }
    match parse_while_statement(input, k) {
        Ok((j, l)) => {
            return Ok((j, Statement::Loop(l)));
        },
        Err(_) => {},
    }
    match parse_repeat_statement(input, k) {
        Ok((j, l)) => {
            return Ok((j, Statement::Loop(l)));
        },
        Err(_) => {},
    }
    match parse_instruction(input, k) {
        Ok((j, x)) => {
            return Ok((j, Statement::Instruction(x)));
        },
        Err(_) => {},
    }
    match parse_entry_expression(input, k) {
        Ok((j, e)) => Ok((j, Statement::Return(e))),
        Err(e) => Err(e),
    }
}

/// Statements up to a terminator; see `grammar::statement_sequence`.
#[verifier::rlimit(60)]
fn parse_statement_sequence(input: &str, pos: usize, t: Terminator) -> (r: Result<
    (usize, Vec<Statement>, bool),
    ParseError,
>)
    requires
        pos <= input@.len(),
    ensures
        match r {
            Ok((j, ss, he)) => grammar::statement_sequence(input@, pos as nat, t) == Some(
                (((j as nat), view_statements(ss@), he)),
            ) && pos <= j <= input@.len(),
            Err(err) => grammar::statement_sequence(input@, pos as nat, t) is None && pos <= err.position <= input@.len(),
        },
    decreases input@.len() - pos, 14int,
{
    let mut acc: Vec<Statement> = Vec::new();
    let mut cur = pos;
    loop
        invariant
            pos <= cur <= input@.len(),
            (match grammar::statement_sequence(input@, cur as nat, t) {
                None => grammar::statement_sequence(input@, pos as nat, t) is None,
                Some((m, rest, he)) => grammar::statement_sequence(input@, pos as nat, t)
                    == Some((m, view_statements(acc@) + rest, he)),
            }),
        decreases input@.len() - cur,
    {
        match parse_terminator(input, cur, t) {
            Some((j, he)) => {
                proof {
                    assert(view_statements(acc@) + Seq::<
                        crate::ast::StatementView,
                    >::empty() =~= view_statements(acc@));
                }
                return Ok((j, acc, he));
            },
            None => {
                match parse_statement(input, cur) {
                    Err(e) => {
                        return Err(e);
                    },
                    Ok((j, st)) => {
                        if j <= cur {
                            return Err(ParseError::at(cur, "statement"));
                        }
                        proof {
                            lemma_view_statements_push(acc@, st);
                            match grammar::statement_sequence(input@, j as nat, t) {
                                None => {},
                                Some((m, rest, he)) => {
                                    assert(view_statements(acc@) + (seq![view_statement(st)]
                                        + rest) =~= view_statements(acc@.push(st)) + rest);
                                },
                            }
                        }
                        acc.push(st);
                        cur = j;
                    },
                }
            },
        }
    }
}

/// The body of an else branch; see `grammar::else_block`.
#[verifier::rlimit(60)]
fn parse_else_block(input: &str, pos: usize, peek_end: bool) -> (r: Result<
    (usize, Vec<Statement>),
    ParseError,
>)
    requires
        pos <= input@.len(),
    ensures
        match r {
            Ok((j, ss)) => grammar::else_block(input@, pos as nat, peek_end) == Some(
                (((j as nat), view_statements(ss@))),
            ) && pos <= j <= input@.len(),
            Err(err) => grammar::else_block(input@, pos as nat, peek_end) is None && pos <= err.position <= input@.len(),
        },
    decreases input@.len() - pos, 15int,
{
    let n = input.unicode_len();
    let mut acc: Vec<Statement> = Vec::new();
    let mut cur = pos;
    loop
        invariant
            pos <= cur <= input@.len(),
            n == input@.len(),
            (match grammar::else_block(input@, cur as nat, peek_end) {
                None => grammar::else_block(input@, pos as nat, peek_end) is None,
                Some((m, rest)) => grammar::else_block(input@, pos as nat, peek_end) == Some(
                    (m, view_statements(acc@) + rest),
                ),
            }),
        decreases input@.len() - cur,
    {
        let k = lex_skip_whitespace(input, cur);
        if lex_match_tag(input, k, "END IF") {
            let j = if peek_end {
                k
            } else {
                k + "END IF".unicode_len()
            };
            proof {
                assert(view_statements(acc@) + Seq::<
                    crate::ast::StatementView,
                >::empty() =~= view_statements(acc@));
            }
            return Ok((j, acc));
        }
        let step: Result<(usize, Statement), ParseError> = match parse_else_if(input, cur) {
            Ok(x) => Ok(x),
            Err(_) => parse_statement(input, cur),
        };
        match step {
            Err(e) => {
                return Err(e);
            },
            Ok((j, st)) => {
                if j <= cur {
                    return Err(ParseError::at(cur, "ELSE"));
                }
                proof {
                    lemma_view_statements_push(acc@, st);
                    match grammar::else_block(input@, j as nat, peek_end) {
                        None => {},
                        Some((m, rest)) => {
                            assert(view_statements(acc@) + (seq![view_statement(st)] + rest)
                                =~= view_statements(acc@.push(st)) + rest);
                        },
                    }
                }
                acc.push(st);
                cur = j;
            },
        }
    }
}

/// A whole script: statements until no further statement matches, as
/// `grammar::script` says.  Trailing input that matches no statement is left
/// unconsumed; the returned position says how far parsing went.
#[verifier::rlimit(60)]
pub fn parse(input: &str) -> (r: (usize, Script))
    ensures
        ({
            let (m, body) = grammar::script(input@, 0);
            r.0 == m && view_script(r.1) == (ScriptView { body }) && r.0 <= input@.len()
        }),
{
    let n = input.unicode_len();
    let mut acc: Vec<Statement> = Vec::new();
    let mut cur: usize = 0;
    loop
        invariant
            0 <= cur <= input@.len(),
            ({
                let (m, rest) = grammar::script(input@, cur as nat);
                grammar::script(input@, 0) == (m, view_statements(acc@) + rest)
            }),
        decreases input@.len() - cur,
    {
        match parse_statement(input, cur) {
            Err(_) => {
                proof {
                    assert(view_statements(acc@) + Seq::<
                        crate::ast::StatementView,
                    >::empty() =~= view_statements(acc@));
                }
                return (cur, Script { body: acc });
            },
            Ok((j, st)) => {
                if j <= cur {
                    proof {
                        assert(view_statements(acc@) + Seq::<
                            crate::ast::StatementView,
                        >::empty() =~= view_statements(acc@));
                    }
                    return (cur, Script { body: acc });
                }
                proof {
                    lemma_view_statements_push(acc@, st);
                    let (m, rest) = grammar::script(input@, j as nat);
                    assert(view_statements(acc@) + (seq![view_statement(st)] + rest)
                        =~= view_statements(acc@.push(st)) + rest);
                }
                acc.push(st);
                cur = j;
            },
        }
    }
}

} // verus!
