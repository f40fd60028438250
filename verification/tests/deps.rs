use script_deps::dependency_parser;
use script_deps::hd_script_parser::parse;

fn analyze(input: &str) -> dependency_parser::DependencySet {
    let (_, script) = parse(input);
    dependency_parser::parse(&script)
}

#[test]
fn conditional_contributes_condition_and_assignment() {
    let set = analyze("IF Income > 1000\nSET Bracket TO \"High\"\nEND IF");
    assert_eq!(set.len(), 2);
    assert!(set.contains("Income"));
    assert!(set.contains("Bracket"));
}

#[test]
fn else_if_chain_contributes_all_four_names() {
    let set = analyze("IF A\nSET X TO 1\nELSE IF B\nSET Y TO 2\nEND IF");
    assert_eq!(set.len(), 4);
    assert!(set.contains("A"));
    assert!(set.contains("B"));
    assert!(set.contains("X"));
    assert!(set.contains("Y"));
}

#[test]
fn ask_contributes_its_raw_text_verbatim() {
    let set = analyze("ASK What is your name?");
    assert_eq!(set.len(), 1);
    assert!(set.contains("What is your name?"));
}

#[test]
fn comment_contributes_nothing() {
    let set = analyze("// refers to Foo");
    assert_eq!(set.len(), 0);
    assert!(!set.contains("Foo"));
}

#[test]
fn assemble_operand_is_excluded() {
    let set = analyze("ASSEMBLE SomeVar");
    assert_eq!(set.len(), 0);
    let set2 = analyze("ASSEMBLE SomeVar\n");
    assert_eq!(set2.len(), 0);
    assert!(!set2.contains("SomeVar"));
}

#[test]
fn erase_operand_is_included_unlike_assemble() {
    let set = analyze("ERASE SomeVar\n");
    assert_eq!(set.len(), 1);
    assert!(set.contains("SomeVar"));
}

#[test]
fn repeated_analysis_yields_the_identical_set() {
    let input = "IF Income > 1000\nSET Bracket TO \"High\"\nEND IF";
    let first = analyze(input);
    let second = analyze(input);
    assert_eq!(first, second);
}

#[test]
fn date_wrapper_hides_inner_references() {
    let set = analyze("SET A TO (B) DAYS\n");
    assert_eq!(set.len(), 1);
    assert!(set.contains("A"));
    assert!(!set.contains("B"));
}

#[test]
fn function_call_contributes_name_and_arguments() {
    let set = analyze("SET A TO Foo(B, C)\n");
    assert_eq!(set.len(), 4);
    assert!(set.contains("A"));
    assert!(set.contains("Foo"));
    assert!(set.contains("B"));
    assert!(set.contains("C"));
}

#[test]
fn indexer_contributes_arguments_but_not_the_sentinel() {
    let set = analyze("ERASE X[N]\n");
    assert_eq!(set.len(), 2);
    assert!(set.contains("X"));
    assert!(set.contains("N"));
    assert!(!set.contains(""));
}

#[test]
fn text_literal_contents_are_never_scanned() {
    let set = analyze("SET A TO \"B plus C\"\n");
    assert_eq!(set.len(), 1);
    assert!(set.contains("A"));
}

#[test]
fn while_loop_contributes_condition_and_body() {
    let set = analyze("WHILE A\nERASE X\nEND WHILE");
    assert_eq!(set.len(), 2);
    assert!(set.contains("A"));
    assert!(set.contains("X"));
}

#[test]
fn repeat_loop_contributes_dialog_and_body() {
    let set = analyze("REPEAT D\nERASE X\nEND REPEAT");
    assert_eq!(set.len(), 2);
    assert!(set.contains("D"));
    assert!(set.contains("X"));
}

#[test]
fn default_contributes_variable_and_expression() {
    let set = analyze("DEFAULT A TO B\n");
    assert_eq!(set.len(), 2);
    assert!(set.contains("A"));
    assert!(set.contains("B"));
}

#[test]
fn add_contributes_variable_and_expression() {
    let set = analyze("ADD B TO A\n");
    assert_eq!(set.len(), 2);
    assert!(set.contains("A"));
    assert!(set.contains("B"));
}

#[test]
fn increment_and_decrement_contribute_their_operand() {
    let set = analyze("INCREMENT X\nDECREMENT Y\n");
    assert_eq!(set.len(), 2);
    assert!(set.contains("X"));
    assert!(set.contains("Y"));
}

#[test]
fn display_instructions_other_than_ask_contribute_nothing() {
    let set = analyze("GRAY Field One\nHIDE Field Two\nSHOW ALL\nLIMIT 5\n");
    assert_eq!(set.len(), 0);
}

#[test]
fn duplicate_references_are_deduplicated() {
    let set = analyze("ERASE X\nINCREMENT X\nSET X TO X\n");
    assert_eq!(set.len(), 1);
    assert!(set.contains("X"));
}

#[test]
fn quit_contributes_nothing() {
    let set = analyze("QUIT everything else");
    assert_eq!(set.len(), 0);
}

#[test]
fn statements_after_a_quit_line_still_contribute() {
    let set = analyze("QUIT now\nERASE X\n");
    assert_eq!(set.len(), 1);
    assert!(set.contains("X"));
}

#[test]
fn bare_keywords_contribute_nothing() {
    let set = analyze("FILTER\nUNANSWERED\nASCEND Last Name\nDESCEND First Name\n");
    assert_eq!(set.len(), 0);
}

#[test]
fn names_lists_every_member_once() {
    let set = analyze("ERASE X\nINCREMENT Y\nDECREMENT X\n");
    let names = set.names();
    assert_eq!(names.len(), 2);
    assert!(names.contains(&"X".to_string()));
    assert!(names.contains(&"Y".to_string()));
}

#[test]
fn binary_expression_contributes_both_operands() {
    let set = analyze("SET A TO B + C * D\n");
    assert_eq!(set.len(), 4);
    assert!(set.contains("A"));
    assert!(set.contains("B"));
    assert!(set.contains("C"));
    assert!(set.contains("D"));
}

#[test]
fn empty_dependency_set_reports_no_members() {
    let set = dependency_parser::DependencySet::new();
    assert_eq!(set.len(), 0);
    assert!(!set.contains("anything"));
}

#[test]
fn dependency_set_insert_deduplicates() {
    let mut set = dependency_parser::DependencySet::new();
    set.insert("A".to_string());
    set.insert("B".to_string());
    set.insert("A".to_string());
    assert_eq!(set.len(), 2);
    assert!(set.contains("A"));
    assert!(set.contains("B"));
}

#[test]
fn three_branch_chain_contributes_every_branch() {
    let set = analyze("IF A\nERASE W\nELSE IF B\nERASE X\nELSE\nERASE Y\nEND IF");
    assert_eq!(set.len(), 5);
    assert!(set.contains("A"));
    assert!(set.contains("W"));
    assert!(set.contains("B"));
    assert!(set.contains("X"));
    assert!(set.contains("Y"));
}

#[test]
fn nested_indexer_call_contributes_names() {
    let set = analyze("ERASE X[Foo(Y)]\n");
    assert_eq!(set.len(), 3);
    assert!(set.contains("X"));
    assert!(set.contains("Foo"));
    assert!(set.contains("Y"));
}

#[test]
fn keywords_are_case_sensitive() {
    let set = analyze("set a to 1\n");
    assert_eq!(set.len(), 1);
    assert!(set.contains("set a to 1"));
}
