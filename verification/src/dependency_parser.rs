//! The dependency analyzer: a pure, read-only walk over a parsed script that
//! accumulates the set of external names the script references.
//!
//! What each node contributes is fixed by the `deps_of_*` functions over the
//! ghost tree; the executable walk is proved to return exactly that set.
//! Deliberate asymmetries of the language are preserved: `ASSEMBLE`'s operand
//! is excluded although its sibling instructions' operands are included, and
//! a date-unit wrapper hides every reference inside it.
use vstd::prelude::*;
use crate::ast::BinaryOperation;
use crate::ast::DisplayView;
use crate::ast::Expression;
use crate::ast::ExpressionView;
use crate::ast::FunctionCall;
use crate::ast::Instruction;
use crate::ast::InstructionView;
use crate::ast::LoopStatement;
use crate::ast::Script;
use crate::ast::ScriptInstruction;
use crate::ast::ScriptInstructionView;
use crate::ast::ScriptView;
use crate::ast::Statement;
use crate::ast::StatementView;
use crate::ast::VariableReference;
use crate::ast::VariableReferenceView;
use crate::ast::view_expression;
use crate::ast::view_expressions;
use crate::ast::view_operator_pairs;
use crate::ast::view_script;
use crate::ast::view_statement;
use crate::ast::view_statements;
use crate::ast::view_variable_reference;
use crate::grammar;
use crate::lexical::lex_match_tag;

verus! {

/// The names a variable reference contributes: its own name and, through an
/// indexer, the references of every indexer argument — but not the indexer's
/// empty-string sentinel name.
pub open spec fn deps_of_variable_reference(v: VariableReferenceView) -> Set<Seq<char>>
    decreases v,
{
    match v.indexer {
        Some(f) => set![v.name].union(deps_of_expressions(f.args)),
        None => set![v.name],
    }
}

pub open spec fn deps_of_expressions(es: Seq<ExpressionView>) -> Set<Seq<char>>
    decreases es,
{
    if es.len() == 0 {
        Set::empty()
    } else {
        deps_of_expressions(es.drop_last()).union(deps_of_expression(es.last()))
    }
}

pub open spec fn deps_of_operator_pairs(ps: Seq<(BinaryOperation, ExpressionView)>) -> Set<
    Seq<char>,
>
    decreases ps,
{
    if ps.len() == 0 {
        Set::empty()
    } else {
        deps_of_operator_pairs(ps.drop_last()).union(deps_of_expression(ps.last().1))
    }
}

/// The names an expression contributes.  A literal contributes nothing, text
/// literals included: string contents are never scanned for embedded
/// references.  A function call contributes the call's own name and its
/// arguments' references.  A date-unit wrapper contributes nothing at all.
pub open spec fn deps_of_expression(e: ExpressionView) -> Set<Seq<char>>
    decreases e,
{
    match e {
        ExpressionView::Variable(v) => deps_of_variable_reference(v),
        ExpressionView::Literal(_) => Set::empty(),
        ExpressionView::Binary { left, right } => deps_of_expression(*left).union(
            deps_of_operator_pairs(right),
        ),
        ExpressionView::Unary { expression, .. } => deps_of_expression(*expression),
        ExpressionView::FunctionCall(f) => set![f.name].union(deps_of_expressions(f.args)),
        ExpressionView::Days(_) => Set::empty(),
        ExpressionView::Months(_) => Set::empty(),
        ExpressionView::Years(_) => Set::empty(),
    }
}

/// The names a scripting instruction contributes.  `ASSEMBLE`'s operand is
/// deliberately excluded.
pub open spec fn deps_of_script_instruction(x: ScriptInstructionView) -> Set<Seq<char>> {
    match x {
        ScriptInstructionView::Erase(v) => deps_of_variable_reference(v),
        ScriptInstructionView::Increment(v) => deps_of_variable_reference(v),
        ScriptInstructionView::Decrement(v) => deps_of_variable_reference(v),
        ScriptInstructionView::SetTo(v, e) => deps_of_variable_reference(v).union(
            deps_of_expression(e),
        ),
        ScriptInstructionView::Add(v, e) => deps_of_variable_reference(v).union(
            deps_of_expression(e),
        ),
        ScriptInstructionView::Default(v, e) => deps_of_variable_reference(v).union(
            deps_of_expression(e),
        ),
        _ => Set::empty(),
    }
}

/// The names a display instruction contributes: only `ASK`'s raw trailing
/// text, taken verbatim as one name.
pub open spec fn deps_of_display(d: DisplayView) -> Set<Seq<char>> {
    match d {
        DisplayView::Ask(t) => set![t],
        _ => Set::empty(),
    }
}

pub open spec fn deps_of_instruction(x: InstructionView) -> Set<Seq<char>> {
    match x {
        InstructionView::Display(d) => deps_of_display(d),
        InstructionView::Script(s) => deps_of_script_instruction(s),
    }
}

pub open spec fn deps_of_statements(ss: Seq<StatementView>) -> Set<Seq<char>>
    decreases ss,
{
    if ss.len() == 0 {
        Set::empty()
    } else {
        deps_of_statements(ss.drop_last()).union(deps_of_statement(ss.last()))
    }
}

/// The names a statement contributes.  A comment contributes nothing, even
/// where names appear in its text.
pub open spec fn deps_of_statement(st: StatementView) -> Set<Seq<char>>
    decreases st,
{
    match st {
        StatementView::Comment(_) => Set::empty(),
        StatementView::If { condition, then_body, else_body } => deps_of_expression(
            condition,
        ).union(deps_of_statements(then_body)).union(deps_of_statements(else_body)),
        StatementView::While { condition, body } => deps_of_expression(condition).union(
            deps_of_statements(body),
        ),
        StatementView::Repeat { dialog, body } => deps_of_variable_reference(dialog).union(
            deps_of_statements(body),
        ),
        StatementView::Instruction(x) => deps_of_instruction(x),
        StatementView::Return(e) => deps_of_expression(e),
    }
}

/// The dependency set of a whole script.
pub open spec fn deps_of_script(s: ScriptView) -> Set<Seq<char>> {
    deps_of_statements(s.body)
}

proof fn lemma_deps_expressions_push(es: Seq<ExpressionView>, x: ExpressionView)
    ensures
        deps_of_expressions(es.push(x)) == deps_of_expressions(es).union(deps_of_expression(x)),
{
    assert(es.push(x).drop_last() =~= es);
    assert(es.push(x).last() == x);
}

proof fn lemma_deps_operator_pairs_push(
    ps: Seq<(BinaryOperation, ExpressionView)>,
    x: (BinaryOperation, ExpressionView),
)
    ensures
        deps_of_operator_pairs(ps.push(x)) == deps_of_operator_pairs(ps).union(
            deps_of_expression(x.1),
        ),
{
    assert(ps.push(x).drop_last() =~= ps);
    assert(ps.push(x).last() == x);
}

proof fn lemma_deps_statements_push(ss: Seq<StatementView>, x: StatementView)
    ensures
        deps_of_statements(ss.push(x)) == deps_of_statements(ss).union(deps_of_statement(x)),
{
    assert(ss.push(x).drop_last() =~= ss);
    assert(ss.push(x).last() == x);
}

/// Analysis is deterministic: the dependency set is a function of the parsed
/// script text alone.  Any two scripts parsed from one and the same text are
/// equal, and equal scripts have the identical dependency set, so repeated
/// parsing and analysis of a script yields the identical result.
pub proof fn lemma_analysis_deterministic(text: Seq<char>, s1: ScriptView, s2: ScriptView)
    requires
        s1 == (ScriptView { body: grammar::script(text, 0).1 }),
        s2 == (ScriptView { body: grammar::script(text, 0).1 }),
    ensures
        s1 == s2,
        deps_of_script(s1) == deps_of_script(s2),
{
}

/// The deduplicated, unordered set of names the analyzer returns.
#[derive(Debug, PartialEq, Eq)]
pub struct DependencySet {
    items: Vec<String>,
}

impl View for DependencySet {
    type V = Set<Seq<char>>;

    closed spec fn view(&self) -> Set<Seq<char>> {
        self.items@.map_values(|s: String| s@).to_set()
    }
}

proof fn lemma_names_push(items: Seq<String>, x: String)
    ensures
        items.push(x).map_values(|s: String| s@).to_set() == items.map_values(
            |s: String| s@,
        ).to_set().insert(x@),
{
    let f = |s: String| s@;
    assert(items.push(x).map_values(f) =~= items.map_values(f).push(x@));
    assert(items.map_values(f).push(x@).to_set() =~= items.map_values(f).to_set().insert(x@)) by {
        let a = items.map_values(f);
        assert forall|y: Seq<char>| a.push(x@).to_set().contains(y) implies a.to_set().insert(
            x@,
        ).contains(y) by {
            let k = choose|k: int| 0 <= k < a.push(x@).len() && a.push(x@)[k] == y;
            if k < a.len() {
                assert(a[k] == y);
            }
        }
        assert forall|y: Seq<char>| a.to_set().insert(x@).contains(y) implies a.push(
            x@,
        ).to_set().contains(y) by {
            if y == x@ {
                assert(a.push(x@)[a.len() as int] == y);
            } else {
                let k = choose|k: int| 0 <= k < a.len() && a[k] == y;
                assert(a.push(x@)[k] == y);
            }
        }
    }
}

impl DependencySet {
    /// No two held names are equal: the set is deduplicated.
    pub closed spec fn wf(&self) -> bool {
        forall|i: int, j: int|
            0 <= i < j < self.items@.len() ==> self.items@[i]@ != self.items@[j]@
    }

    pub fn new() -> (r: DependencySet)
        ensures
            r@ == Set::<Seq<char>>::empty(),
            r.wf(),
    {
        let r = DependencySet { items: Vec::new() };
        proof {
            assert(r.items@.map_values(|s: String| s@).to_set() =~= Set::<Seq<char>>::empty());
        }
        r
    }

    /// Whether `name` is in the set.
    pub fn contains(&self, name: &str) -> (b: bool)
        ensures
            b == self@.contains(name@),
    {
        let mut i: usize = 0;
        while i < self.items.len()
            invariant
                0 <= i <= self.items@.len(),
                forall|k: int| 0 <= k < i ==> self.items@[k]@ != name@,
            decreases self.items@.len() - i,
        {
            if str_equal(self.items[i].as_str(), name) {
                proof {
                    assert(self.items@.map_values(|s: String| s@)[i as int] == name@);
                }
                return true;
            }
            i = i + 1;
        }
        proof {
            if self@.contains(name@) {
                let a = self.items@.map_values(|s: String| s@);
                let k = choose|k: int| 0 <= k < a.len() && a[k] == name@;
                assert(self.items@[k]@ == name@);
            }
        }
        false
    }

    /// Add one name; a name already held is not duplicated.
    pub fn insert(&mut self, name: String)
        ensures
            final(self)@ == old(self)@.insert(name@),
            old(self).wf() ==> final(self).wf(),
    {
        if self.contains(name.as_str()) {
            proof {
                assert(self@.insert(name@) =~= self@);
            }
        } else {
            proof {
                lemma_names_push(self.items@, name);
                assert forall|k: int|
                    0 <= k < self.items@.len() implies self.items@[k]@ != name@ by {
                    if self.items@[k]@ == name@ {
                        assert(self.items@.map_values(|s: String| s@)[k] == name@);
                    }
                }
            }
            self.items.push(name);
            proof {
                assert(self.items@.drop_last() =~= old(self).items@);
            }
        }
    }

    proof fn lemma_cardinality(items: Seq<String>)
        requires
            forall|i: int, j: int| 0 <= i < j < items.len() ==> items[i]@ != items[j]@,
        ensures
            items.map_values(|s: String| s@).to_set().len() == items.len(),
        decreases items.len(),
    {
        let f = |s: String| s@;
        let a = items.map_values(f);
        assert(a.no_duplicates());
        a.unique_seq_to_set();
    }

    /// The held names, one for each member of the set, in the order first
    /// inserted: the list form in which the set is handed back to the host.
    pub fn names(&self) -> (r: &Vec<String>)
        ensures
            r@.map_values(|s: String| s@).to_set() == self@,
            self.wf() ==> r@.map_values(|s: String| s@).no_duplicates(),
    {
        proof {
            if self.wf() {
                let a = self.items@.map_values(|s: String| s@);
                assert forall|i: int, j: int|
                    0 <= i < a.len() && 0 <= j < a.len() && i != j implies a[i] != a[j] by {
                    assert(a[i] == self.items@[i]@);
                    assert(a[j] == self.items@[j]@);
                }
            }
        }
        &self.items
    }

    /// How many names the set holds.
    pub fn len(&self) -> (r: usize)
        requires
            self.wf(),
        ensures
            r == self@.len(),
    {
        proof {
            Self::lemma_cardinality(self.items@);
        }
        self.items.len()
    }
}

/// Whether two pieces of text are equal character for character.
fn str_equal(a: &str, b: &str) -> (r: bool)
    ensures
        r == (a@ == b@),
{
    let n = a.unicode_len();
    let m = b.unicode_len();
    if n != m {
        return false;
    }
    let r = lex_match_tag(a, 0, b);
    proof {
        if r {
            assert(a@.subrange(0, m as int) =~= a@);
        } else {
            if a@ == b@ {
                assert(a@.subrange(0, m as int) =~= b@);
            }
        }
    }
    r
}

fn collect_variable_reference(v: &VariableReference, acc: &mut DependencySet)
    ensures
        final(acc)@ == old(acc)@.union(deps_of_variable_reference(view_variable_reference(*v))),
        old(acc).wf() ==> final(acc).wf(),
    decreases v, 1int,
{
    acc.insert(v.name.clone());
    proof {
        assert(old(acc)@.insert(v.name@) =~= old(acc)@.union(set![v.name@]));
    }
    match &v.indexer {
        Some(f) => {
            let ghost mid = acc@;
            collect_expression_vec(&f.args, acc);
            proof {
                assert(old(acc)@.union(set![v.name@]).union(
                    deps_of_expressions(view_expressions(f.args@)),
                ) =~= old(acc)@.union(
                    set![v.name@].union(deps_of_expressions(view_expressions(f.args@))),
                ));
            }
        },
        None => {},
    }
}

fn collect_expression_vec(es: &Vec<Expression>, acc: &mut DependencySet)
    ensures
        final(acc)@ == old(acc)@.union(deps_of_expressions(view_expressions(es@))),
        old(acc).wf() ==> final(acc).wf(),
    decreases es, 1int,
{
    let mut i: usize = 0;
    proof {
        assert(old(acc)@.union(deps_of_expressions(view_expressions(es@.take(0)))) =~= old(
            acc,
        )@) by {
            assert(es@.take(0) =~= Seq::<Expression>::empty());
        }
    }
    while i < es.len()
        invariant
            0 <= i <= es@.len(),
            acc@ == old(acc)@.union(deps_of_expressions(view_expressions(es@.take(i as int)))),
            old(acc).wf() ==> acc.wf(),
        decreases es@.len() - i,
    {
        let ghost before = acc@;
        collect_expression(&es[i], acc);
        proof {
            crate::ast::lemma_view_expressions_push(es@.take(i as int), es@[i as int]);
            lemma_deps_expressions_push(
                view_expressions(es@.take(i as int)),
                view_expression(es@[i as int]),
            );
            assert(es@.take(i as int).push(es@[i as int]) =~= es@.take(i + 1));
            assert(before.union(deps_of_expression(view_expression(es@[i as int]))) =~= old(
                acc,
            )@.union(deps_of_expressions(view_expressions(es@.take(i + 1)))));
        }
        i = i + 1;
    }
    proof {
        assert(es@.take(es@.len() as int) =~= es@);
    }
}

#[verifier::loop_isolation(false)]
fn collect_expression(e: &Expression, acc: &mut DependencySet)
    ensures
        final(acc)@ == old(acc)@.union(deps_of_expression(view_expression(*e))),
        old(acc).wf() ==> final(acc).wf(),
    decreases e, 2int,
{
    match e {
        Expression::Variable(v) => {
            collect_variable_reference(v, acc);
        },
        Expression::Literal(_) => {
            proof {
                assert(old(acc)@.union(Set::<Seq<char>>::empty()) =~= old(acc)@);
            }
        },
        Expression::Binary(b) => {
            collect_expression(&b.left, acc);
            let ghost mid = acc@;
            let mut i: usize = 0;
            proof {
                assert(mid.union(
                    deps_of_operator_pairs(view_operator_pairs(b.right@.take(0))),
                ) =~= mid) by {
                    assert(b.right@.take(0) =~= Seq::<(BinaryOperation, Expression)>::empty());
                }
            }
            while i < b.right.len()
                invariant
                    0 <= i <= b.right@.len(),
                    acc@ == mid.union(
                        deps_of_operator_pairs(view_operator_pairs(b.right@.take(i as int))),
                    ),
                    old(acc).wf() ==> acc.wf(),
                    mid == old(acc)@.union(deps_of_expression(view_expression(b.left))),
                decreases b.right@.len() - i,
            {
                let ghost before = acc@;

                collect_expression(&b.right[i].1, acc);
                proof {
                    crate::ast::lemma_view_operator_pairs_push(
                        b.right@.take(i as int),
                        b.right@[i as int],
                    );
                    lemma_deps_operator_pairs_push(
                        view_operator_pairs(b.right@.take(i as int)),
                        (b.right@[i as int].0, view_expression(b.right@[i as int].1)),
                    );
                    assert(b.right@.take(i as int).push(b.right@[i as int]) =~= b.right@.take(
                        i + 1,
                    ));
                    assert(before.union(
                        deps_of_expression(view_expression(b.right@[i as int].1)),
                    ) =~= mid.union(
                        deps_of_operator_pairs(view_operator_pairs(b.right@.take(i + 1))),
                    ));
                }
                i = i + 1;
            }
            proof {
                assert(b.right@.take(b.right@.len() as int) =~= b.right@);
                assert(mid.union(deps_of_operator_pairs(view_operator_pairs(b.right@))) =~= old(
                    acc,
                )@.union(deps_of_expression(view_expression(*e))));
            }
        },
        Expression::Unary(u) => {
            collect_expression(&u.expression, acc);
        },
        Expression::FunctionCall(f) => {
            acc.insert(f.name.clone());
            proof {
                assert(acc@ == old(acc)@.insert(f.name@));
            }
            let ghost a1 = acc@;
            collect_expression_vec(&f.args, acc);
            proof {
                assert(acc@ == a1.union(deps_of_expressions(view_expressions(f.args@))));
                assert(view_expression(*e) == ExpressionView::FunctionCall(
                    crate::ast::view_function_call(*f),
                ));
                assert(deps_of_expression(view_expression(*e)) =~= set![f.name@].union(
                    deps_of_expressions(view_expressions(f.args@)),
                ));
                assert(acc@ =~= old(acc)@.union(deps_of_expression(view_expression(*e))));
            }
        },
        Expression::Days(_) => {
            proof {
                assert(old(acc)@.union(Set::<Seq<char>>::empty()) =~= old(acc)@);
            }
        },
        Expression::Months(_) => {
            proof {
                assert(old(acc)@.union(Set::<Seq<char>>::empty()) =~= old(acc)@);
            }
        },
        Expression::Years(_) => {
            proof {
                assert(old(acc)@.union(Set::<Seq<char>>::empty()) =~= old(acc)@);
            }
        },
    }
}

fn collect_statement_vec(ss: &Vec<Statement>, acc: &mut DependencySet)
    ensures
        final(acc)@ == old(acc)@.union(deps_of_statements(view_statements(ss@))),
        old(acc).wf() ==> final(acc).wf(),
    decreases ss, 1int,
{
    let mut i: usize = 0;
    proof {
        assert(old(acc)@.union(deps_of_statements(view_statements(ss@.take(0)))) =~= old(
            acc,
        )@) by {
            assert(ss@.take(0) =~= Seq::<Statement>::empty());
        }
    }
    while i < ss.len()
        invariant
            0 <= i <= ss@.len(),
            acc@ == old(acc)@.union(deps_of_statements(view_statements(ss@.take(i as int)))),
            old(acc).wf() ==> acc.wf(),
        decreases ss@.len() - i,
    {
        let ghost before = acc@;
        collect_statement(&ss[i], acc);
        proof {
            crate::ast::lemma_view_statements_push(ss@.take(i as int), ss@[i as int]);
            lemma_deps_statements_push(
                view_statements(ss@.take(i as int)),
                view_statement(ss@[i as int]),
            );
            assert(ss@.take(i as int).push(ss@[i as int]) =~= ss@.take(i + 1));
            assert(before.union(deps_of_statement(view_statement(ss@[i as int]))) =~= old(
                acc,
            )@.union(deps_of_statements(view_statements(ss@.take(i + 1)))));
        }
        i = i + 1;
    }
    proof {
        assert(ss@.take(ss@.len() as int) =~= ss@);
    }
}

fn collect_statement(st: &Statement, acc: &mut DependencySet)
    ensures
        final(acc)@ == old(acc)@.union(deps_of_statement(view_statement(*st))),
        old(acc).wf() ==> final(acc).wf(),
    decreases st, 2int,
{
    match st {
        Statement::Comment(_) => {
            proof {
                assert(old(acc)@.union(Set::<Seq<char>>::empty()) =~= old(acc)@);
            }
        },
        Statement::If(f) => {
            collect_expression(&f.condition, acc);
            let ghost a = acc@;
            collect_statement_vec(&f.then_body, acc);
            let ghost b = acc@;
            collect_statement_vec(&f.else_body, acc);
            proof {
                assert(b.union(deps_of_statements(view_statements(f.else_body@))) =~= old(
                    acc,
                )@.union(deps_of_statement(view_statement(*st))));
            }
        },
        Statement::Loop(LoopStatement::While(w)) => {
            collect_expression(&w.condition, acc);
            let ghost a = acc@;
            collect_statement_vec(&w.body, acc);
            proof {
                assert(a.union(deps_of_statements(view_statements(w.body@))) =~= old(
                    acc,
                )@.union(deps_of_statement(view_statement(*st))));
            }
        },
        Statement::Loop(LoopStatement::Repeat(rp)) => {
            collect_variable_reference(&rp.dialog, acc);
            let ghost a = acc@;
            collect_statement_vec(&rp.body, acc);
            proof {
                assert(a.union(deps_of_statements(view_statements(rp.body@))) =~= old(
                    acc,
                )@.union(deps_of_statement(view_statement(*st))));
            }
        },
        Statement::Instruction(Instruction::Script(x)) => {
            match x {
                ScriptInstruction::Erase(v) => {
                    collect_variable_reference(v, acc);
                },
                ScriptInstruction::Increment(v) => {
                    collect_variable_reference(v, acc);
                },
                ScriptInstruction::Decrement(v) => {
                    collect_variable_reference(v, acc);
                },
                ScriptInstruction::SetTo(v, e) => {
                    collect_variable_reference(v, acc);
                    let ghost a = acc@;
                    collect_expression(e, acc);
                    proof {
                        assert(a.union(deps_of_expression(view_expression(*e))) =~= old(
                            acc,
                        )@.union(deps_of_statement(view_statement(*st))));
                    }
                },
                ScriptInstruction::Add(v, e) => {
                    collect_variable_reference(v, acc);
                    let ghost a = acc@;
                    collect_expression(e, acc);
                    proof {
                        assert(a.union(deps_of_expression(view_expression(*e))) =~= old(
                            acc,
                        )@.union(deps_of_statement(view_statement(*st))));
                    }
                },
                ScriptInstruction::Default(v, e) => {
                    collect_variable_reference(v, acc);
                    let ghost a = acc@;
                    collect_expression(e, acc);
                    proof {
                        assert(a.union(deps_of_expression(view_expression(*e))) =~= old(
                            acc,
                        )@.union(deps_of_statement(view_statement(*st))));
                    }
                },
                _ => {
                    proof {
                        assert(old(acc)@.union(deps_of_statement(view_statement(*st))) =~= old(
                            acc,
                        )@);
                    }
                },
            }
        },
        Statement::Instruction(Instruction::Display(d)) => {
            match d {
                crate::ast::DisplayInstruction::Ask(t) => {
                    acc.insert(t.clone());
                    proof {
                        assert(old(acc)@.insert(t@) =~= old(acc)@.union(set![t@]));
                    }
                },
                _ => {
                    proof {
                        assert(old(acc)@.union(deps_of_statement(view_statement(*st))) =~= old(
                            acc,
                        )@);
                    }
                },
            }
        },
        Statement::Return(e) => {
            collect_expression(e, acc);
        },
    }
}

/// The dependency set of a parsed script: every external name the script
/// references, deduplicated and unordered.
pub fn parse(script: &Script) -> (r: DependencySet)
    ensures
        r@ == deps_of_script(view_script(*script)),
        r.wf(),
{
    let mut acc = DependencySet::new();
    collect_statement_vec(&script.body, &mut acc);
    proof {
        assert(Set::<Seq<char>>::empty().union(
            deps_of_statements(view_statements(script.body@)),
        ) =~= deps_of_statements(view_statements(script.body@)));
    }
    acc
}

} // verus!
