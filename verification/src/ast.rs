//! Data model of the scripting language: the expression and statement trees
//! produced by one parse of a script, together with their mathematical views.
//!
//! Every node is immutable once constructed.  The executable types own their
//! text; the ghost `...View` types mirror them over `Seq<char>`, and the
//! `view_*` functions relate the two.
use vstd::prelude::*;

verus! {

/// The binary operators, each bound to a fixed precedence tier (see
/// `precedence_of`).
#[derive(Debug, Clone, Copy, PartialEq, Eq, Structural)]
pub enum BinaryOperation {
    And,
    Or,
    Subtract,
    Add,
    Multiply,
    Divide,
    GT,
    LT,
    EQ,
    NE,
    LTE,
    GTE,
    Contains,
    StartsWith,
    EndsWith,
}

/// The precedence tier of a binary operator.  A higher tier binds tighter.
pub open spec fn precedence_of(op: BinaryOperation) -> nat {
    match op {
        BinaryOperation::Or => 1,
        BinaryOperation::And => 2,
        BinaryOperation::EQ => 3,
        BinaryOperation::GT => 3,
        BinaryOperation::GTE => 3,
        BinaryOperation::LT => 3,
        BinaryOperation::LTE => 3,
        BinaryOperation::NE => 3,
        BinaryOperation::Add => 4,
        BinaryOperation::Subtract => 4,
        BinaryOperation::Multiply => 5,
        BinaryOperation::Divide => 5,
        _ => 6,
    }
}

#[derive(Debug, Clone, Copy, PartialEq, Eq, Structural)]
pub enum UnaryOperation {
    Not,
    Negate,
}

/// A literal value.  A numeric literal keeps its source text: the analyzer
/// never reads the numeric value, and the host converts where it needs to.
#[derive(Debug, PartialEq, Eq)]
pub enum LiteralExpression {
    Number(String),
    Text(String),
    Boolean(bool),
    List,
    Record,
}

/// A named call with an ordered argument list.  Also reused for the indexer
/// of a variable reference, where `name` is an empty-string sentinel.
#[derive(Debug, PartialEq, Eq)]
pub struct FunctionCall {
    pub name: String,
    pub args: Vec<Expression>,
}

/// A reference to a variable, with an optional bracketed indexer.
#[derive(Debug, PartialEq, Eq)]
pub struct VariableReference {
    pub name: String,
    pub indexer: Option<FunctionCall>,
}

/// A chain of binary operations: the left atom followed by the ordered
/// `(operator, right operand)` pairs that were consumed at one precedence
/// tier.  A `BinaryExpression` is only built when `right` is non-empty.
#[derive(Debug, PartialEq, Eq)]
pub struct BinaryExpression {
    pub left: Expression,
    pub right: Vec<(BinaryOperation, Expression)>,
}

#[derive(Debug, PartialEq, Eq)]
pub struct UnaryExpression {
    pub operation: UnaryOperation,
    pub expression: Expression,
}

#[derive(Debug, PartialEq, Eq)]
pub enum Expression {
    Variable(VariableReference),
    Literal(LiteralExpression),
    Binary(Box<BinaryExpression>),
    Unary(Box<UnaryExpression>),
    FunctionCall(FunctionCall),
    Days(Box<Expression>),
    Months(Box<Expression>),
    Years(Box<Expression>),
}

/// The operand of a `LIMIT` display instruction: a numeric literal or, as the
/// fallback, the raw remaining text treated as a bare variable name.
#[derive(Debug, PartialEq, Eq)]
pub enum LimitExpression {
    Number(String),
    Variable(String),
    Function(FunctionCall),
}

#[derive(Debug, PartialEq, Eq)]
pub enum DisplayInstruction {
    Ask(String),
    Gray(String),
    GrayAll,
    Hide(String),
    HideAll,
    Show(String),
    ShowAll,
    Ungray(String),
    UngrayAll,
    Require(String),
    RequireAll,
    Limit(LimitExpression),
}

#[derive(Debug, PartialEq, Eq)]
pub enum ScriptInstruction {
    Erase(VariableReference),
    Increment(VariableReference),
    Decrement(VariableReference),
    Quit,
    Ascend(String),
    Descend(String),
    Filter,
    Format,
    SetTo(VariableReference, Expression),
    Add(VariableReference, Expression),
    Default(VariableReference, Expression),
    Other,
    Selection,
    Unanswered,
    Union,
    Value,
    Zero,
    Assemble(VariableReference),
}

#[derive(Debug, PartialEq, Eq)]
pub enum Instruction {
    Display(DisplayInstruction),
    Script(ScriptInstruction),
}

#[derive(Debug, PartialEq, Eq)]
pub struct CommentStatement {
    pub comment: String,
}

#[derive(Debug, PartialEq, Eq)]
pub struct IfStatement {
    pub condition: Expression,
    pub then_body: Vec<Statement>,
    pub else_body: Vec<Statement>,
}

#[derive(Debug, PartialEq, Eq)]
pub struct WhileStatement {
    pub condition: Expression,
    pub body: Vec<Statement>,
}

#[derive(Debug, PartialEq, Eq)]
pub struct RepeatStatement {
    pub dialog: VariableReference,
    pub body: Vec<Statement>,
}

#[derive(Debug, PartialEq, Eq)]
pub enum LoopStatement {
    While(WhileStatement),
    Repeat(RepeatStatement),
}

#[derive(Debug, PartialEq, Eq)]
pub enum Statement {
    Comment(CommentStatement),
    If(IfStatement),
    Loop(LoopStatement),
    Instruction(Instruction),
    Return(Expression),
}

/// One parsed script: the ordered list of its statements.
#[derive(Debug, PartialEq, Eq)]
pub struct Script {
    pub body: Vec<Statement>,
}

// ---------------------------------------------------------------------------
// Ghost views of the tree, over Seq<char>.
// ---------------------------------------------------------------------------
pub ghost enum LiteralView {
    Number(Seq<char>),
    Text(Seq<char>),
    Boolean(bool),
    List,
    Record,
}

pub ghost struct FunctionCallView {
    pub name: Seq<char>,
    pub args: Seq<ExpressionView>,
}

pub ghost struct VariableReferenceView {
    pub name: Seq<char>,
    pub indexer: Option<FunctionCallView>,
}

pub ghost enum ExpressionView {
    Variable(VariableReferenceView),
    Literal(LiteralView),
    Binary { left: Box<ExpressionView>, right: Seq<(BinaryOperation, ExpressionView)> },
    Unary { operation: UnaryOperation, expression: Box<ExpressionView> },
    FunctionCall(FunctionCallView),
    Days(Box<ExpressionView>),
    Months(Box<ExpressionView>),
    Years(Box<ExpressionView>),
}

pub ghost enum LimitView {
    Number(Seq<char>),
    Variable(Seq<char>),
    Function(FunctionCallView),
}

pub ghost enum DisplayView {
    Ask(Seq<char>),
    Gray(Seq<char>),
    GrayAll,
    Hide(Seq<char>),
    HideAll,
    Show(Seq<char>),
    ShowAll,
    Ungray(Seq<char>),
    UngrayAll,
    Require(Seq<char>),
    RequireAll,
    Limit(LimitView),
}

pub ghost enum ScriptInstructionView {
    Erase(VariableReferenceView),
    Increment(VariableReferenceView),
    Decrement(VariableReferenceView),
    Quit,
    Ascend(Seq<char>),
    Descend(Seq<char>),
    Filter,
    Format,
    SetTo(VariableReferenceView, ExpressionView),
    Add(VariableReferenceView, ExpressionView),
    Default(VariableReferenceView, ExpressionView),
    Other,
    Selection,
    Unanswered,
    Union,
    Value,
    Zero,
    Assemble(VariableReferenceView),
}

pub ghost enum InstructionView {
    Display(DisplayView),
    Script(ScriptInstructionView),
}

pub ghost enum StatementView {
    Comment(Seq<char>),
    If { condition: ExpressionView, then_body: Seq<StatementView>, else_body: Seq<StatementView> },
    While { condition: ExpressionView, body: Seq<StatementView> },
    Repeat { dialog: VariableReferenceView, body: Seq<StatementView> },
    Instruction(InstructionView),
    Return(ExpressionView),
}

pub ghost struct ScriptView {
    pub body: Seq<StatementView>,
}

// ---------------------------------------------------------------------------
// View functions from the executable tree to the ghost tree.
// ---------------------------------------------------------------------------
pub open spec fn view_literal(l: LiteralExpression) -> LiteralView {
    match l {
        LiteralExpression::Number(t) => LiteralView::Number(t@),
        LiteralExpression::Text(t) => LiteralView::Text(t@),
        LiteralExpression::Boolean(b) => LiteralView::Boolean(b),
        LiteralExpression::List => LiteralView::List,
        LiteralExpression::Record => LiteralView::Record,
    }
}

pub open spec fn view_function_call(f: FunctionCall) -> FunctionCallView
    decreases f,
{
    FunctionCallView { name: f.name@, args: view_expressions(f.args@) }
}

pub open spec fn view_variable_reference(v: VariableReference) -> VariableReferenceView
    decreases v,
{
    VariableReferenceView {
        name: v.name@,
        indexer: match v.indexer {
            Some(f) => Some(view_function_call(f)),
            None => None,
        },
    }
}

pub open spec fn view_expressions(es: Seq<Expression>) -> Seq<ExpressionView>
    decreases es,
{
    if es.len() == 0 {
        Seq::empty()
    } else {
        view_expressions(es.drop_last()).push(view_expression(es.last()))
    }
}

pub open spec fn view_operator_pairs(ps: Seq<(BinaryOperation, Expression)>) -> Seq<
    (BinaryOperation, ExpressionView),
>
    decreases ps,
{
    if ps.len() == 0 {
        Seq::empty()
    } else {
        view_operator_pairs(ps.drop_last()).push(
            (ps.last().0, view_expression(ps.last().1)),
        )
    }
}

pub open spec fn view_expression(e: Expression) -> ExpressionView
    decreases e,
{
    match e {
        Expression::Variable(v) => ExpressionView::Variable(view_variable_reference(v)),
        Expression::Literal(l) => ExpressionView::Literal(view_literal(l)),
        Expression::Binary(b) => ExpressionView::Binary {
            left: Box::new(view_expression(b.left)),
            right: view_operator_pairs(b.right@),
        },
        Expression::Unary(u) => ExpressionView::Unary {
            operation: u.operation,
            expression: Box::new(view_expression(u.expression)),
        },
        Expression::FunctionCall(f) => ExpressionView::FunctionCall(view_function_call(f)),
        Expression::Days(inner) => ExpressionView::Days(Box::new(view_expression(*inner))),
        Expression::Months(inner) => ExpressionView::Months(Box::new(view_expression(*inner))),
        Expression::Years(inner) => ExpressionView::Years(Box::new(view_expression(*inner))),
    }
}

pub open spec fn view_limit(l: LimitExpression) -> LimitView {
    match l {
        LimitExpression::Number(t) => LimitView::Number(t@),
        LimitExpression::Variable(t) => LimitView::Variable(t@),
        LimitExpression::Function(f) => LimitView::Function(view_function_call(f)),
    }
}

pub open spec fn view_display(d: DisplayInstruction) -> DisplayView {
    match d {
        DisplayInstruction::Ask(t) => DisplayView::Ask(t@),
        DisplayInstruction::Gray(t) => DisplayView::Gray(t@),
        DisplayInstruction::GrayAll => DisplayView::GrayAll,
        DisplayInstruction::Hide(t) => DisplayView::Hide(t@),
        DisplayInstruction::HideAll => DisplayView::HideAll,
        DisplayInstruction::Show(t) => DisplayView::Show(t@),
        DisplayInstruction::ShowAll => DisplayView::ShowAll,
        DisplayInstruction::Ungray(t) => DisplayView::Ungray(t@),
        DisplayInstruction::UngrayAll => DisplayView::UngrayAll,
        DisplayInstruction::Require(t) => DisplayView::Require(t@),
        DisplayInstruction::RequireAll => DisplayView::RequireAll,
        DisplayInstruction::Limit(l) => DisplayView::Limit(view_limit(l)),
    }
}

pub open spec fn view_script_instruction(s: ScriptInstruction) -> ScriptInstructionView {
    match s {
        ScriptInstruction::Erase(v) => ScriptInstructionView::Erase(view_variable_reference(v)),
        ScriptInstruction::Increment(v) => ScriptInstructionView::Increment(
            view_variable_reference(v),
        ),
        ScriptInstruction::Decrement(v) => ScriptInstructionView::Decrement(
            view_variable_reference(v),
        ),
        ScriptInstruction::Quit => ScriptInstructionView::Quit,
        ScriptInstruction::Ascend(t) => ScriptInstructionView::Ascend(t@),
        ScriptInstruction::Descend(t) => ScriptInstructionView::Descend(t@),
        ScriptInstruction::Filter => ScriptInstructionView::Filter,
        ScriptInstruction::Format => ScriptInstructionView::Format,
        ScriptInstruction::SetTo(v, e) => ScriptInstructionView::SetTo(
            view_variable_reference(v),
            view_expression(e),
        ),
        ScriptInstruction::Add(v, e) => ScriptInstructionView::Add(
            view_variable_reference(v),
            view_expression(e),
        ),
        ScriptInstruction::Default(v, e) => ScriptInstructionView::Default(
            view_variable_reference(v),
            view_expression(e),
        ),
        ScriptInstruction::Other => ScriptInstructionView::Other,
        ScriptInstruction::Selection => ScriptInstructionView::Selection,
        ScriptInstruction::Unanswered => ScriptInstructionView::Unanswered,
        ScriptInstruction::Union => ScriptInstructionView::Union,
        ScriptInstruction::Value => ScriptInstructionView::Value,
        ScriptInstruction::Zero => ScriptInstructionView::Zero,
        ScriptInstruction::Assemble(v) => ScriptInstructionView::Assemble(
            view_variable_reference(v),
        ),
    }
}

pub open spec fn view_instruction(i: Instruction) -> InstructionView {
    match i {
        Instruction::Display(d) => InstructionView::Display(view_display(d)),
        Instruction::Script(s) => InstructionView::Script(view_script_instruction(s)),
    }
}

pub open spec fn view_statements(ss: Seq<Statement>) -> Seq<StatementView>
    decreases ss,
{
    if ss.len() == 0 {
        Seq::empty()
    } else {
        view_statements(ss.drop_last()).push(view_statement(ss.last()))
    }
}

pub open spec fn view_statement(s: Statement) -> StatementView
    decreases s,
{
    match s {
        Statement::Comment(c) => StatementView::Comment(c.comment@),
        Statement::If(i) => StatementView::If {
            condition: view_expression(i.condition),
            then_body: view_statements(i.then_body@),
            else_body: view_statements(i.else_body@),
        },
        Statement::Loop(LoopStatement::While(w)) => StatementView::While {
            condition: view_expression(w.condition),
            body: view_statements(w.body@),
        },
        Statement::Loop(LoopStatement::Repeat(r)) => StatementView::Repeat {
            dialog: view_variable_reference(r.dialog),
            body: view_statements(r.body@),
        },
        Statement::Instruction(i) => StatementView::Instruction(view_instruction(i)),
        Statement::Return(e) => StatementView::Return(view_expression(e)),
    }
}

pub open spec fn view_script(s: Script) -> ScriptView {
    ScriptView { body: view_statements(s.body@) }
}

pub proof fn lemma_view_expressions_push(es: Seq<Expression>, x: Expression)
    ensures
        view_expressions(es.push(x)) == view_expressions(es).push(view_expression(x)),
{
    assert(es.push(x).drop_last() =~= es);
    assert(es.push(x).last() == x);
}

pub proof fn lemma_view_operator_pairs_push(
    ps: Seq<(BinaryOperation, Expression)>,
    x: (BinaryOperation, Expression),
)
    ensures
        view_operator_pairs(ps.push(x)) == view_operator_pairs(ps).push(
            (x.0, view_expression(x.1)),
        ),
{
    assert(ps.push(x).drop_last() =~= ps);
    assert(ps.push(x).last() == x);
}

pub proof fn lemma_view_statements_push(ss: Seq<Statement>, x: Statement)
    ensures
        view_statements(ss.push(x)) == view_statements(ss).push(view_statement(x)),
{
    assert(ss.push(x).drop_last() =~= ss);
    assert(ss.push(x).last() == x);
}

impl View for Expression {
    type V = ExpressionView;

    open spec fn view(&self) -> ExpressionView {
        view_expression(*self)
    }
}

impl View for Statement {
    type V = StatementView;

    open spec fn view(&self) -> StatementView {
        view_statement(*self)
    }
}

impl View for Script {
    type V = ScriptView;

    open spec fn view(&self) -> ScriptView {
        view_script(*self)
    }
}

impl View for VariableReference {
    type V = VariableReferenceView;

    open spec fn view(&self) -> VariableReferenceView {
        view_variable_reference(*self)
    }
}

impl View for FunctionCall {
    type V = FunctionCallView;

    open spec fn view(&self) -> FunctionCallView {
        view_function_call(*self)
    }
}

} // verus!
