//! The script grammar, stated as specification functions over `Seq<char>`.
//!
//! Each function takes the input text and a position and yields the position
//! after what it consumed together with the tree it built, or `None` where no
//! grammar alternative matches.  Alternatives are tried in a fixed order and
//! the first that matches wins; a failed alternative consumes nothing.
//!
//! Expressions are parsed by precedence climbing: `expression` at a level
//! only consumes operators whose tier (`precedence_of`) is at least that
//! level, and parses each right-hand side one level above the operator's
//! tier.  A lone atom is returned unwrapped; a `Binary` node is built only
//! when at least one operator was consumed.
//!
//! The position-progress tests (`i < j && j <= s.len()`) on results of the
//! mutually recursive functions make every function well-founded; a
//! successful parse always moves strictly forward, so the failing branches
//! of those tests are never taken.
use vstd::prelude::*;
use crate::ast::BinaryOperation;
use crate::ast::DisplayView;
use crate::ast::ExpressionView;
use crate::ast::FunctionCallView;
use crate::ast::InstructionView;
use crate::ast::LimitView;
use crate::ast::LiteralView;
use crate::ast::ScriptInstructionView;
use crate::ast::StatementView;
use crate::ast::UnaryOperation;
use crate::ast::VariableReferenceView;
use crate::ast::precedence_of;
use crate::lexical::binary_operator_token;
use crate::lexical::boolean_token;
use crate::lexical::name_token;
use crate::lexical::number_token;
use crate::lexical::remaining_text;
use crate::lexical::scan_to_line_ending;
use crate::lexical::skip_whitespace;
use crate::lexical::string_token;
use crate::lexical::tag_at;

verus! {

broadcast use
    crate::lexical::lemma_skip_whitespace_bounds,
    crate::lexical::lemma_scan_to_line_ending_bounds,
    crate::lexical::lemma_name_token_bounds,
    crate::lexical::lemma_number_token_bounds,
    crate::lexical::lemma_string_token_bounds,
    crate::lexical::lemma_boolean_token_bounds,
    crate::lexical::lemma_binary_operator_token_bounds,
    crate::lexical::lemma_remaining_text_bounds;

/// Which terminator a statement sequence runs to, and whether the sequence
/// consumes it.  An `END IF` closing an else-if chain is only peeked, so that
/// the outermost `IF` consumes it.
#[derive(Debug, Clone, Copy, PartialEq, Eq, Structural)]
pub enum Terminator {
    /// `END IF` or `ELSE`, both consumed.
    EndIfOrElse,
    /// `END IF` peeked, `ELSE` consumed.
    ElseOrPeekEndIf,
    /// `END WHILE`, consumed.
    EndWhile,
    /// `END REPEAT`, consumed.
    EndRepeat,
}

/// Whitespace, then the terminator.  Yields the position after it (at it,
/// where it is only peeked) and whether it was `ELSE`.
pub open spec fn terminator_match(s: Seq<char>, i: nat, t: Terminator) -> Option<(nat, bool)> {
    let k = skip_whitespace(s, i);
    match t {
        Terminator::EndIfOrElse => if tag_at(s, k, "END IF"@) {
            Some(((k + "END IF"@.len()) as nat, false))
        } else if tag_at(s, k, "ELSE"@) {
            Some(((k + "ELSE"@.len()) as nat, true))
        } else {
            None
        },
        Terminator::ElseOrPeekEndIf => if tag_at(s, k, "END IF"@) {
            Some((k, false))
        } else if tag_at(s, k, "ELSE"@) {
            Some(((k + "ELSE"@.len()) as nat, true))
        } else {
            None
        },
        Terminator::EndWhile => if tag_at(s, k, "END WHILE"@) {
            Some(((k + "END WHILE"@.len()) as nat, false))
        } else {
            None
        },
        Terminator::EndRepeat => if tag_at(s, k, "END REPEAT"@) {
            Some(((k + "END REPEAT"@.len()) as nat, false))
        } else {
            None
        },
    }
}

/// The operand of `LIMIT`: a numeric literal, else the rest of the line as a
/// bare variable name.  The grammar does not support a full expression here.
pub open spec fn limit_expression(s: Seq<char>, i: nat) -> (nat, LimitView) {
    match number_token(s, i) {
        Some((e, t)) => (e, LimitView::Number(t)),
        None => {
            let e = scan_to_line_ending(s, i);
            (e, LimitView::Variable(s.subrange(i as int, e as int)))
        },
    }
}

/// A display instruction: a keyword, then trailing free text to the end of
/// the line (not re-parsed as an expression), or the `ALL` form, or `LIMIT`
/// with its operand; then optional whitespace.  The `ALL` form of a keyword
/// is tried before its plain form.
pub open spec fn display_instruction(s: Seq<char>, i: nat) -> Option<(nat, DisplayView)> {
    let r = if tag_at(s, i, "ASK"@) && remaining_text(s, (i + "ASK"@.len()) as nat) is Some {
        let (e, t) = remaining_text(s, (i + "ASK"@.len()) as nat)->0;
        Some((e, DisplayView::Ask(t)))
    } else if tag_at(s, i, "GRAY ALL"@) {
        Some(((i + "GRAY ALL"@.len()) as nat, DisplayView::GrayAll))
    } else if tag_at(s, i, "GRAY"@) && remaining_text(s, (i + "GRAY"@.len()) as nat) is Some {
        let (e, t) = remaining_text(s, (i + "GRAY"@.len()) as nat)->0;
        Some((e, DisplayView::Gray(t)))
    } else if tag_at(s, i, "UNGRAY ALL"@) {
        Some(((i + "UNGRAY ALL"@.len()) as nat, DisplayView::UngrayAll))
    } else if tag_at(s, i, "UNGRAY"@) && remaining_text(s, (i + "UNGRAY"@.len()) as nat) is Some {
        let (e, t) = remaining_text(s, (i + "UNGRAY"@.len()) as nat)->0;
        Some((e, DisplayView::Ungray(t)))
    } else if tag_at(s, i, "SHOW ALL"@) {
        Some(((i + "SHOW ALL"@.len()) as nat, DisplayView::ShowAll))
    } else if tag_at(s, i, "SHOW"@) && remaining_text(s, (i + "SHOW"@.len()) as nat) is Some {
        let (e, t) = remaining_text(s, (i + "SHOW"@.len()) as nat)->0;
        Some((e, DisplayView::Show(t)))
    } else if tag_at(s, i, "HIDE ALL"@) {
        Some(((i + "HIDE ALL"@.len()) as nat, DisplayView::HideAll))
    } else if tag_at(s, i, "HIDE"@) && remaining_text(s, (i + "HIDE"@.len()) as nat) is Some {
        let (e, t) = remaining_text(s, (i + "HIDE"@.len()) as nat)->0;
        Some((e, DisplayView::Hide(t)))
    } else if tag_at(s, i, "REQUIRE ALL"@) {
        Some(((i + "REQUIRE ALL"@.len()) as nat, DisplayView::RequireAll))
    } else if tag_at(s, i, "REQUIRE"@) && remaining_text(s, (i + "REQUIRE"@.len()) as nat)
        is Some {
        let (e, t) = remaining_text(s, (i + "REQUIRE"@.len()) as nat)->0;
        Some((e, DisplayView::Require(t)))
    } else if tag_at(s, i, "LIMIT"@) && skip_whitespace(s, (i + "LIMIT"@.len()) as nat) > i
        + "LIMIT"@.len() {
        let k = skip_whitespace(s, (i + "LIMIT"@.len()) as nat);
        let (e, l) = limit_expression(s, k);
        Some((e, DisplayView::Limit(l)))
    } else {
        None
    };
    match r {
        None => None,
        Some((e, d)) => Some((skip_whitespace(s, e), d)),
    }
}

/// A variable reference: an identifier up to the first reserved boundary,
/// then an optional bracketed indexer.
pub open spec fn variable_reference(s: Seq<char>, i: nat) -> Option<
    (nat, VariableReferenceView),
>
    decreases s.len() - i, 0int,
{
    match name_token(s, i) {
        None => None,
        Some((j, nm)) => match indexer(s, j) {
            Some((k, fc)) => Some((k, VariableReferenceView { name: nm, indexer: Some(fc) })),
            None => Some((j, VariableReferenceView { name: nm, indexer: None })),
        },
    }
}

/// A bracketed, comma-separated expression list attached to a variable
/// reference.  Its name field is the empty-string sentinel.
pub open spec fn indexer(s: Seq<char>, i: nat) -> Option<(nat, FunctionCallView)>
    decreases s.len() - i, 1int,
{
    if i < s.len() && s[i as int] == '[' {
        let j = skip_whitespace(s, (i + 1) as nat);
        let (k, args) = expression_list(s, j);
        if !(j <= k && k <= s.len()) {
            None
        } else {
            let k2 = skip_whitespace(s, k);
            if k2 < s.len() && s[k2 as int] == ']' {
                Some(
                    (
                        skip_whitespace(s, (k2 + 1) as nat),
                        FunctionCallView { name: Seq::empty(), args },
                    ),
                )
            } else {
                None
            }
        }
    } else {
        None
    }
}

/// A function call: an identifier (scanned exactly like a variable
/// reference), then a parenthesized, comma-separated argument list.
pub open spec fn function_call(s: Seq<char>, i: nat) -> Option<(nat, FunctionCallView)>
    decreases s.len() - i, 2int,
{
    match variable_reference(s, i) {
        None => None,
        Some((k, vr)) => if !(i < k && k <= s.len()) {
            None
        } else if k < s.len() && s[k as int] == '(' {
            let j = skip_whitespace(s, (k + 1) as nat);
            let (m, args) = expression_list(s, j);
            if !(j <= m && m <= s.len()) {
                None
            } else {
                let m2 = skip_whitespace(s, m);
                if m2 < s.len() && s[m2 as int] == ')' {
                    Some(
                        (
                            skip_whitespace(s, (m2 + 1) as nat),
                            FunctionCallView { name: vr.name, args },
                        ),
                    )
                } else {
                    None
                }
            }
        } else {
            None
        },
    }
}

/// An optional trailing date-unit keyword after an atom, with the longer
/// spellings tried first, then optional whitespace.
pub open spec fn date_suffix(s: Seq<char>, j: nat, e: ExpressionView) -> (nat, ExpressionView) {
    let (j2, e2) = if tag_at(s, j, "DAYS"@) {
        ((j + "DAYS"@.len()) as nat, ExpressionView::Days(Box::new(e)))
    } else if tag_at(s, j, "MONTHS"@) {
        ((j + "MONTHS"@.len()) as nat, ExpressionView::Months(Box::new(e)))
    } else if tag_at(s, j, "YEARS"@) {
        ((j + "YEARS"@.len()) as nat, ExpressionView::Years(Box::new(e)))
    } else if tag_at(s, j, "DAY"@) {
        ((j + "DAY"@.len()) as nat, ExpressionView::Days(Box::new(e)))
    } else if tag_at(s, j, "MONTH"@) {
        ((j + "MONTH"@.len()) as nat, ExpressionView::Months(Box::new(e)))
    } else if tag_at(s, j, "YEAR"@) {
        ((j + "YEAR"@.len()) as nat, ExpressionView::Years(Box::new(e)))
    } else {
        (j, e)
    };
    (skip_whitespace(s, j2), e2)
}

/// One atom of an expression before its optional date-unit suffix, the
/// alternatives tried in this order: a parenthesized sub-expression; a
/// numeric literal; a boolean literal; a text literal; unary `NOT`/`!`;
/// unary negation; a function call; a variable reference.
pub open spec fn atom_head(s: Seq<char>, i: nat) -> Option<(nat, ExpressionView)>
    decreases s.len() - i, 3int,
{
    if i < s.len() && s[i as int] == '(' && {
        let j = skip_whitespace(s, (i + 1) as nat);
        entry_expression(s, j) is Some
    } && {
        let j = skip_whitespace(s, (i + 1) as nat);
        let (p, e) = entry_expression(s, j)->0;
        let k = skip_whitespace(s, p);
        p <= s.len() && k < s.len() && s[k as int] == ')'
    } {
        let j = skip_whitespace(s, (i + 1) as nat);
        let (p, e) = entry_expression(s, j)->0;
        let k = skip_whitespace(s, p);
        Some((skip_whitespace(s, (k + 1) as nat), e))
    } else if number_token(s, i) is Some {
        let (j, t) = number_token(s, i)->0;
        Some((j, ExpressionView::Literal(LiteralView::Number(t))))
    } else if boolean_token(s, i) is Some {
        let (j, b) = boolean_token(s, i)->0;
        Some((j, ExpressionView::Literal(LiteralView::Boolean(b))))
    } else if string_token(s, i) is Some {
        let (j, t) = string_token(s, i)->0;
        Some((j, ExpressionView::Literal(LiteralView::Text(t))))
    } else if not_expression(s, i) is Some {
        not_expression(s, i)
    } else if i < s.len() && s[i as int] == '-' && atom(s, (i + 1) as nat) is Some {
        let (j, e) = atom(s, (i + 1) as nat)->0;
        Some(
            (
                j,
                ExpressionView::Unary {
                    operation: UnaryOperation::Negate,
                    expression: Box::new(e),
                },
            ),
        )
    } else if function_call(s, i) is Some {
        let (j, f) = function_call(s, i)->0;
        Some((j, ExpressionView::FunctionCall(f)))
    } else {
        match variable_reference(s, i) {
            None => None,
            Some((j, v)) => Some((j, ExpressionView::Variable(v))),
        }
    }
}

/// One atom of an expression: the first matching alternative, then optional
/// whitespace and an optional date-unit suffix.
pub open spec fn atom(s: Seq<char>, i: nat) -> Option<(nat, ExpressionView)>
    decreases s.len() - i, 4int,
{
    match atom_head(s, i) {
        None => None,
        Some((j, e)) => if !(i <= j && j <= s.len()) {
            None
        } else {
            Some(date_suffix(s, skip_whitespace(s, j), e))
        },
    }
}

/// Unary `NOT` (spelled `!` or `NOT`, around optional whitespace) applied to
/// a whole entry expression.
pub open spec fn not_expression(s: Seq<char>, i: nat) -> Option<(nat, ExpressionView)>
    decreases s.len() - i, 2int,
{
    let w = skip_whitespace(s, i);
    if !(i <= w && w <= s.len()) {
        None
    } else {
        let t: Option<nat> = if tag_at(s, w, "!"@) {
            Some((w + "!"@.len()) as nat)
        } else if tag_at(s, w, "NOT"@) {
            Some((w + "NOT"@.len()) as nat)
        } else {
            None
        };
        match t {
            None => None,
            Some(a) => {
                let b = skip_whitespace(s, a);
                if !(i < b && b <= s.len()) {
                    None
                } else {
                    match entry_expression(s, b) {
                        None => None,
                        Some((j, e)) => Some(
                            (
                                j,
                                ExpressionView::Unary {
                                    operation: UnaryOperation::Not,
                                    expression: Box::new(e),
                                },
                            ),
                        ),
                    }
                }
            },
        }
    }
}

/// The operator loop of precedence climbing: while the next token is an
/// operator whose tier is at least `level`, consume it, parse the right-hand
/// side one level higher, and append the pair.  Stops, consuming nothing of
/// the rejected operator, as soon as the lookahead fails, binds too loosely,
/// or its right-hand side does not parse.
pub open spec fn operator_chain(s: Seq<char>, i: nat, level: nat) -> (
    nat,
    Seq<(BinaryOperation, ExpressionView)>,
)
    decreases s.len() - i, 4int,
{
    match binary_operator_token(s, i) {
        None => (i, Seq::empty()),
        Some((a, op)) => if precedence_of(op) < level {
            (i, Seq::empty())
        } else {
            let j = skip_whitespace(s, a);
            if !(i < j && j <= s.len()) {
                (i, Seq::empty())
            } else {
                match expression(s, j, (precedence_of(op) + 1) as nat) {
                    None => (i, Seq::empty()),
                    Some((m, rhs)) => if !(i < m && m <= s.len()) {
                        (i, Seq::empty())
                    } else {
                        let (e, rest) = operator_chain(s, m, level);
                        (e, seq![(op, rhs)] + rest)
                    },
                }
            }
        },
    }
}

/// An expression at a minimum precedence level: an atom, optional
/// whitespace, then the operator chain.  With an empty chain the bare atom
/// is the result; otherwise a `Binary` node holding the chain.
pub open spec fn expression(s: Seq<char>, i: nat, level: nat) -> Option<(nat, ExpressionView)>
    decreases s.len() - i, 5int,
{
    match atom(s, i) {
        None => None,
        Some((j0, left)) => if !(i <= j0 && j0 <= s.len()) {
            None
        } else {
            let j = skip_whitespace(s, j0);
            let (k, pairs) = operator_chain(s, j, level);
            if !(j <= k && k <= s.len()) {
                None
            } else {
                let e = skip_whitespace(s, k);
                if pairs.len() > 0 {
                    Some((e, ExpressionView::Binary { left: Box::new(left), right: pairs }))
                } else {
                    Some((e, left))
                }
            }
        },
    }
}

/// An expression with no minimum precedence: every operator is accepted.
pub open spec fn entry_expression(s: Seq<char>, i: nat) -> Option<(nat, ExpressionView)>
    decreases s.len() - i, 6int,
{
    expression(s, i, 1)
}

/// The tail of a comma-separated expression list: zero or more of a comma
/// followed by an expression around optional whitespace.  A comma whose
/// expression fails is left unconsumed.
pub open spec fn expression_list_more(s: Seq<char>, i: nat) -> (nat, Seq<ExpressionView>)
    decreases s.len() - i, 7int,
{
    if i < s.len() && s[i as int] == ',' {
        let j = skip_whitespace(s, (i + 1) as nat);
        if !(i < j && j <= s.len()) {
            (i, Seq::empty())
        } else {
            match expression(s, j, 1) {
                None => (i, Seq::empty()),
                Some((k, e)) => {
                    let k2 = skip_whitespace(s, k);
                    if !(i < k2 && k2 <= s.len()) {
                        (i, Seq::empty())
                    } else {
                        let (m, rest) = expression_list_more(s, k2);
                        (m, seq![e] + rest)
                    }
                },
            }
        }
    } else {
        (i, Seq::empty())
    }
}

/// A possibly empty comma-separated expression list, each element around
/// optional whitespace.  When even the first element fails, the list is
/// empty and nothing is consumed.
pub open spec fn expression_list(s: Seq<char>, i: nat) -> (nat, Seq<ExpressionView>)
    decreases s.len() - i, 8int,
{
    let j = skip_whitespace(s, i);
    if !(i <= j && j <= s.len()) {
        (i, Seq::empty())
    } else {
        match expression(s, j, 1) {
            None => (i, Seq::empty()),
            Some((k, e)) => {
                let k2 = skip_whitespace(s, k);
                if !(i < k2 && k2 <= s.len()) {
                    (i, Seq::empty())
                } else {
                    let (m, rest) = expression_list_more(s, k2);
                    (m, seq![e] + rest)
                }
            },
        }
    }
}

/// A comment: `//`, then the rest of the line, which is its text.  The line
/// ending itself is not consumed.
pub open spec fn comment_statement(s: Seq<char>, i: nat) -> Option<(nat, Seq<char>)> {
    if tag_at(s, i, "//"@) {
        let b = (i + "//"@.len()) as nat;
        let e = scan_to_line_ending(s, b);
        Some((e, s.subrange(b as int, e as int)))
    } else {
        None
    }
}

/// `QUIT`: the remainder of the line is consumed and discarded.
pub open spec fn quit_instruction(s: Seq<char>, i: nat) -> Option<(nat, ScriptInstructionView)> {
    if tag_at(s, i, "QUIT"@) {
        Some((scan_to_line_ending(s, (i + "QUIT"@.len()) as nat), ScriptInstructionView::Quit))
    } else {
        None
    }
}

/// The zero-argument instruction keywords, and `ASCEND`/`DESCEND` with their
/// trailing free text.  None of them carries an operand relevant to
/// dependencies.
pub open spec fn bare_keyword_instruction(s: Seq<char>, i: nat) -> Option<
    (nat, ScriptInstructionView),
> {
    if tag_at(s, i, "FILTER"@) {
        Some(((i + "FILTER"@.len()) as nat, ScriptInstructionView::Filter))
    } else if tag_at(s, i, "FORMAT"@) {
        Some(((i + "FORMAT"@.len()) as nat, ScriptInstructionView::Format))
    } else if tag_at(s, i, "OTHER"@) {
        Some(((i + "OTHER"@.len()) as nat, ScriptInstructionView::Other))
    } else if tag_at(s, i, "SELECTION"@) {
        Some(((i + "SELECTION"@.len()) as nat, ScriptInstructionView::Selection))
    } else if tag_at(s, i, "UNANSWERED"@) {
        Some(((i + "UNANSWERED"@.len()) as nat, ScriptInstructionView::Unanswered))
    } else if tag_at(s, i, "UNION"@) {
        Some(((i + "UNION"@.len()) as nat, ScriptInstructionView::Union))
    } else if tag_at(s, i, "VALUE"@) {
        Some(((i + "VALUE"@.len()) as nat, ScriptInstructionView::Value))
    } else if tag_at(s, i, "ZERO"@) {
        Some(((i + "ZERO"@.len()) as nat, ScriptInstructionView::Zero))
    } else if tag_at(s, i, "ASCEND"@) && remaining_text(s, (i + "ASCEND"@.len()) as nat)
        is Some {
        let (e, t) = remaining_text(s, (i + "ASCEND"@.len()) as nat)->0;
        Some((e, ScriptInstructionView::Ascend(t)))
    } else if tag_at(s, i, "DESCEND"@) && remaining_text(s, (i + "DESCEND"@.len()) as nat)
        is Some {
        let (e, t) = remaining_text(s, (i + "DESCEND"@.len()) as nat)->0;
        Some((e, ScriptInstructionView::Descend(t)))
    } else {
        None
    }
}

/// A keyword followed by one variable reference, shared by `INCREMENT`,
/// `DECREMENT`, `ERASE` and `ASSEMBLE`.  Yields the reference.
pub open spec fn keyword_reference(s: Seq<char>, i: nat, kw: Seq<char>) -> Option<
    (nat, VariableReferenceView),
>
    decreases s.len() - i, 9int,
{
    if tag_at(s, i, kw) {
        variable_reference(s, (i + kw.len()) as nat)
    } else {
        None
    }
}

pub open spec fn increment_instruction(s: Seq<char>, i: nat) -> Option<
    (nat, ScriptInstructionView),
>
    decreases s.len() - i, 10int,
{
    match keyword_reference(s, i, "INCREMENT "@) {
        Some((j, v)) => Some((j, ScriptInstructionView::Increment(v))),
        None => None,
    }
}

pub open spec fn decrement_instruction(s: Seq<char>, i: nat) -> Option<
    (nat, ScriptInstructionView),
>
    decreases s.len() - i, 10int,
{
    match keyword_reference(s, i, "DECREMENT "@) {
        Some((j, v)) => Some((j, ScriptInstructionView::Decrement(v))),
        None => None,
    }
}

pub open spec fn erase_instruction(s: Seq<char>, i: nat) -> Option<(nat, ScriptInstructionView)>
    decreases s.len() - i, 10int,
{
    match keyword_reference(s, i, "ERASE "@) {
        Some((j, v)) => Some((j, ScriptInstructionView::Erase(v))),
        None => None,
    }
}

pub open spec fn assemble_instruction(s: Seq<char>, i: nat) -> Option<
    (nat, ScriptInstructionView),
>
    decreases s.len() - i, 10int,
{
    match keyword_reference(s, i, "ASSEMBLE "@) {
        Some((j, v)) => Some((j, ScriptInstructionView::Assemble(v))),
        None => None,
    }
}

/// `SET <variable> TO <expression>`.
pub open spec fn set_instruction(s: Seq<char>, i: nat) -> Option<(nat, ScriptInstructionView)>
    decreases s.len() - i, 10int,
{
    if tag_at(s, i, "SET "@) {
        match variable_reference(s, (i + "SET "@.len()) as nat) {
            None => None,
            Some((k, v)) => if !(i < k && k <= s.len()) {
                None
            } else {
                let k2 = skip_whitespace(s, k);
                if tag_at(s, k2, "TO "@) {
                    match entry_expression(s, (k2 + "TO "@.len()) as nat) {
                        None => None,
                        Some((m, e)) => Some((m, ScriptInstructionView::SetTo(v, e))),
                    }
                } else {
                    None
                }
            },
        }
    } else {
        None
    }
}

/// `ADD <expression> TO <variable>`.
pub open spec fn add_instruction(s: Seq<char>, i: nat) -> Option<(nat, ScriptInstructionView)>
    decreases s.len() - i, 10int,
{
    if tag_at(s, i, "ADD "@) {
        match entry_expression(s, (i + "ADD "@.len()) as nat) {
            None => None,
            Some((k, e)) => if !(i < k && k <= s.len()) {
                None
            } else {
                let k2 = skip_whitespace(s, k);
                if tag_at(s, k2, "TO "@) {
                    match variable_reference(s, (k2 + "TO "@.len()) as nat) {
                        None => None,
                        Some((m, v)) => Some((m, ScriptInstructionView::Add(v, e))),
                    }
                } else {
                    None
                }
            },
        }
    } else {
        None
    }
}

/// `DEFAULT <variable> TO <expression>`, with at least one whitespace
/// character after the `TO`.
pub open spec fn default_instruction(s: Seq<char>, i: nat) -> Option<(nat, ScriptInstructionView)>
    decreases s.len() - i, 10int,
{
    if tag_at(s, i, "DEFAULT "@) {
        match variable_reference(s, (i + "DEFAULT "@.len()) as nat) {
            None => None,
            Some((k, v)) => if !(i < k && k <= s.len()) {
                None
            } else {
                let k2 = skip_whitespace(s, k);
                if tag_at(s, k2, "TO"@) {
                    let m0 = (k2 + "TO"@.len()) as nat;
                    let m = skip_whitespace(s, m0);
                    if m > m0 {
                        match entry_expression(s, m) {
                            None => None,
                            Some((e, x)) => Some((e, ScriptInstructionView::Default(v, x))),
                        }
                    } else {
                        None
                    }
                } else {
                    None
                }
            },
        }
    } else {
        None
    }
}

/// A scripting or display instruction, the alternatives tried in this fixed
/// order.
pub open spec fn instruction(s: Seq<char>, i: nat) -> Option<(nat, InstructionView)>
    decreases s.len() - i, 11int,
{
    if increment_instruction(s, i) is Some {
        let (j, x) = increment_instruction(s, i)->0;
        Some((j, InstructionView::Script(x)))
    } else if decrement_instruction(s, i) is Some {
        let (j, x) = decrement_instruction(s, i)->0;
        Some((j, InstructionView::Script(x)))
    } else if quit_instruction(s, i) is Some {
        let (j, x) = quit_instruction(s, i)->0;
        Some((j, InstructionView::Script(x)))
    } else if erase_instruction(s, i) is Some {
        let (j, x) = erase_instruction(s, i)->0;
        Some((j, InstructionView::Script(x)))
    } else if set_instruction(s, i) is Some {
        let (j, x) = set_instruction(s, i)->0;
        Some((j, InstructionView::Script(x)))
    } else if add_instruction(s, i) is Some {
        let (j, x) = add_instruction(s, i)->0;
        Some((j, InstructionView::Script(x)))
    } else if default_instruction(s, i) is Some {
        let (j, x) = default_instruction(s, i)->0;
        Some((j, InstructionView::Script(x)))
    } else if assemble_instruction(s, i) is Some {
        let (j, x) = assemble_instruction(s, i)->0;
        Some((j, InstructionView::Script(x)))
    } else if bare_keyword_instruction(s, i) is Some {
        let (j, x) = bare_keyword_instruction(s, i)->0;
        Some((j, InstructionView::Script(x)))
    } else {
        match display_instruction(s, i) {
            None => None,
            Some((j, d)) => Some((j, InstructionView::Display(d))),
        }
    }
}

/// `IF <expression>`, a statement sequence up to `END IF` or `ELSE`, and on
/// `ELSE` an else block; exactly this outermost `IF` consumes the single
/// `END IF` that closes the whole chain.
pub open spec fn if_statement(s: Seq<char>, i: nat) -> Option<(nat, StatementView)>
    decreases s.len() - i, 12int,
{
    if tag_at(s, i, "IF"@) {
        let j = skip_whitespace(s, (i + "IF"@.len()) as nat);
        match expression(s, j, 1) {
            None => None,
            Some((p, cond)) => if !(i < p && p <= s.len()) {
                None
            } else {
                match statement_sequence(s, p, Terminator::EndIfOrElse) {
                    None => None,
                    Some((q, then_b, hit_else)) => if !hit_else {
                        Some(
                            (
                                q,
                                StatementView::If {
                                    condition: cond,
                                    then_body: then_b,
                                    else_body: Seq::empty(),
                                },
                            ),
                        )
                    } else if !(i < q && q <= s.len()) {
                        None
                    } else {
                        match else_block(s, q, false) {
                            None => None,
                            Some((r, else_b)) => Some(
                                (
                                    r,
                                    StatementView::If {
                                        condition: cond,
                                        then_body: then_b,
                                        else_body: else_b,
                                    },
                                ),
                            ),
                        }
                    },
                }
            },
        }
    } else {
        None
    }
}

/// An else-if: a space and `IF` right after a consumed `ELSE`.  Unlike the
/// outermost `IF` it only peeks at the closing `END IF`.
pub open spec fn else_if(s: Seq<char>, i: nat) -> Option<(nat, StatementView)>
    decreases s.len() - i, 12int,
{
    if tag_at(s, i, " IF"@) {
        let j = skip_whitespace(s, (i + " IF"@.len()) as nat);
        match expression(s, j, 1) {
            None => None,
            Some((p, cond)) => if !(i < p && p <= s.len()) {
                None
            } else {
                match statement_sequence(s, p, Terminator::ElseOrPeekEndIf) {
                    None => None,
                    Some((q, then_b, hit_else)) => if !hit_else {
                        Some(
                            (
                                q,
                                StatementView::If {
                                    condition: cond,
                                    then_body: then_b,
                                    else_body: Seq::empty(),
                                },
                            ),
                        )
                    } else if !(i < q && q <= s.len()) {
                        None
                    } else {
                        match else_block(s, q, true) {
                            None => None,
                            Some((r, else_b)) => Some(
                                (
                                    r,
                                    StatementView::If {
                                        condition: cond,
                                        then_body: then_b,
                                        else_body: else_b,
                                    },
                                ),
                            ),
                        }
                    },
                }
            },
        }
    } else {
        None
    }
}

/// `WHILE <expression>`, a statement sequence, `END WHILE`.
pub open spec fn while_statement(s: Seq<char>, i: nat) -> Option<(nat, StatementView)>
    decreases s.len() - i, 12int,
{
    if tag_at(s, i, "WHILE "@) {
        match entry_expression(s, (i + "WHILE "@.len()) as nat) {
            None => None,
            Some((p, cond)) => if !(i < p && p <= s.len()) {
                None
            } else {
                match statement_sequence(s, p, Terminator::EndWhile) {
                    None => None,
                    Some((q, body, _)) => Some(
                        (q, StatementView::While { condition: cond, body }),
                    ),
                }
            },
        }
    } else {
        None
    }
}

/// `REPEAT <variable>`, a statement sequence, `END REPEAT`, optional
/// whitespace.  The reference names the dialog being iterated.
pub open spec fn repeat_statement(s: Seq<char>, i: nat) -> Option<(nat, StatementView)>
    decreases s.len() - i, 12int,
{
    if tag_at(s, i, "REPEAT "@) {
        match variable_reference(s, (i + "REPEAT "@.len()) as nat) {
            None => None,
            Some((p, dialog)) => if !(i < p && p <= s.len()) {
                None
            } else {
                match statement_sequence(s, p, Terminator::EndRepeat) {
                    None => None,
                    Some((q, body, _)) => Some(
                        (skip_whitespace(s, q), StatementView::Repeat { dialog, body }),
                    ),
                }
            },
        }
    } else {
        None
    }
}

/// One statement: optional whitespace, then the first of these that matches:
/// a comment, an `IF`, a `WHILE`, a `REPEAT`, an instruction, or a bare
/// expression recorded as a return statement.
pub open spec fn statement(s: Seq<char>, i: nat) -> Option<(nat, StatementView)>
    decreases s.len() - i, 13int,
{
    let k = skip_whitespace(s, i);
    if !(i <= k && k <= s.len()) {
        None
    } else if comment_statement(s, k) is Some {
        let (j, c) = comment_statement(s, k)->0;
        Some((j, StatementView::Comment(c)))
    } else if if_statement(s, k) is Some {
        if_statement(s, k)
    } else if while_statement(s, k) is Some {
        while_statement(s, k)
    } else if repeat_statement(s, k) is Some {
        repeat_statement(s, k)
    } else if instruction(s, k) is Some {
        let (j, x) = instruction(s, k)->0;
        Some((j, StatementView::Instruction(x)))
    } else {
        match entry_expression(s, k) {
            None => None,
            Some((j, e)) => Some((j, StatementView::Return(e))),
        }
    }
}

/// Statements up to a terminator: before each statement the terminator is
/// tried first; a position where neither matches fails the whole sequence.
/// Yields the statements, the position after (or, where it is only peeked,
/// at) the terminator, and whether the terminator was `ELSE`.
pub open spec fn statement_sequence(s: Seq<char>, i: nat, t: Terminator) -> Option<
    (nat, Seq<StatementView>, bool),
>
    decreases s.len() - i, 14int,
{
    match terminator_match(s, i, t) {
        Some((j, hit_else)) => Some((j, Seq::empty(), hit_else)),
        None => match statement(s, i) {
            None => None,
            Some((j, st)) => if !(i < j && j <= s.len()) {
                None
            } else {
                match statement_sequence(s, j, t) {
                    None => None,
                    Some((m, rest, he)) => Some((m, seq![st] + rest, he)),
                }
            },
        },
    }
}

/// The body of an else branch: statements (an else-if tried first at each
/// position) up to `END IF`, consumed only when `peek_end` is false.
pub open spec fn else_block(s: Seq<char>, i: nat, peek_end: bool) -> Option<
    (nat, Seq<StatementView>),
>
    decreases s.len() - i, 15int,
{
    let k = skip_whitespace(s, i);
    if tag_at(s, k, "END IF"@) {
        let j = if peek_end {
            k
        } else {
            (k + "END IF"@.len()) as nat
        };
        Some((j, Seq::empty()))
    } else {
        let first: Option<(nat, StatementView)> = if else_if(s, i) is Some {
            else_if(s, i)
        } else {
            statement(s, i)
        };
        match first {
            None => None,
            Some((j, st)) => if !(i < j && j <= s.len()) {
                None
            } else {
                match else_block(s, j, peek_end) {
                    None => None,
                    Some((m, rest)) => Some((m, seq![st] + rest)),
                }
            },
        }
    }
}

/// A whole script: statements until no further statement matches.  Trailing
/// input that matches no statement is left unconsumed, not flagged as an
/// error.
pub open spec fn script(s: Seq<char>, i: nat) -> (nat, Seq<StatementView>)
    decreases s.len() - i, 16int,
{
    match statement(s, i) {
        None => (i, Seq::empty()),
        Some((j, st)) => if !(i < j && j <= s.len()) {
            (i, Seq::empty())
        } else {
            let (m, rest) = script(s, j);
            (m, seq![st] + rest)
        },
    }
}

} // verus!
