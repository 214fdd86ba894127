use import_rewrite::text::substitute;
use import_rewrite::{
    process_transform, ImportDecl, ImportSpecifier, Program, TransformModuleVisitor,
    TransformModuleVisitorConfig,
};

fn rule(enable: bool, source: &str, target: &str) -> TransformModuleVisitorConfig {
    TransformModuleVisitorConfig {
        enable,
        source: String::from(source),
        target: String::from(target),
    }
}

fn bare(path: &str) -> ImportDecl {
    ImportDecl { specifiers: Vec::new(), src: String::from(path) }
}

fn bound(specifiers: Vec<ImportSpecifier>, path: &str) -> ImportDecl {
    ImportDecl { specifiers, src: String::from(path) }
}

fn run_on_path(config: TransformModuleVisitorConfig, path: &str) -> String {
    let program = Program { imports: vec![bare(path)] };
    let out = process_transform(program, Some(config));
    assert_eq!(out.imports.len(), 1);
    assert!(out.imports[0].specifiers.is_empty());
    out.imports[0].src.clone()
}

fn sample_program() -> Program {
    Program {
        imports: vec![
            bare("a/b"),
            bound(vec![ImportSpecifier::Default], "a/c"),
            bare("lib/a"),
            bound(vec![ImportSpecifier::Named, ImportSpecifier::Named], "a"),
            bound(vec![ImportSpecifier::Namespace], "a/a"),
            bare(""),
        ],
    }
}

// Substitution on plain strings.

#[test]
fn substitute_replaces_a_leading_occurrence() {
    assert_eq!(substitute("a/b", "a", "x"), "x/b");
}

#[test]
fn substitute_replaces_every_occurrence() {
    assert_eq!(substitute("a/a", "a", "x"), "x/x");
    assert_eq!(substitute("banana", "an", "AN"), "bANANa");
}

#[test]
fn substitute_replaces_an_inner_occurrence() {
    assert_eq!(substitute("lib/a/index", "/a/", "/x/"), "lib/x/index");
}

#[test]
fn substitute_without_an_occurrence_keeps_the_text() {
    assert_eq!(substitute("a/b", "z", "x"), "a/b");
}

#[test]
fn substitute_takes_occurrences_from_the_left_without_overlap() {
    assert_eq!(substitute("aaa", "aa", "x"), "xa");
    assert_eq!(substitute("aaaa", "aa", "x"), "xx");
    assert_eq!(substitute("ababa", "aba", "-"), "-ba");
}

#[test]
fn substitute_with_an_empty_source_keeps_the_text() {
    assert_eq!(substitute("a/b", "", "x"), "a/b");
    assert_eq!(substitute("", "", "x"), "");
}

#[test]
fn substitute_with_an_empty_target_deletes() {
    assert_eq!(substitute("a/b/a", "a", ""), "/b/");
    assert_eq!(substitute("aaa", "a", ""), "");
}

#[test]
fn substitute_on_an_empty_text() {
    assert_eq!(substitute("", "a", "x"), "");
}

#[test]
fn substitute_with_a_source_longer_than_the_text() {
    assert_eq!(substitute("ab", "abc", "x"), "ab");
}

#[test]
fn substitute_of_the_whole_text() {
    assert_eq!(substitute("a/b", "a/b", "x/y/z"), "x/y/z");
}

#[test]
fn substitute_at_the_end_of_the_text() {
    assert_eq!(substitute("lib/a", "a", "xyz"), "lib/xyz");
}

#[test]
fn substitute_does_not_look_into_what_it_inserted() {
    assert_eq!(substitute("a", "a", "aa"), "aa");
    assert_eq!(substitute("a/a", "a", "ba"), "ba/ba");
}

#[test]
fn substitute_by_itself_keeps_the_text() {
    assert_eq!(substitute("a/a", "a", "a"), "a/a");
}

#[test]
fn substitute_counts_characters_not_bytes() {
    assert_eq!(substitute("módulo/é", "é", "e"), "módulo/e");
    assert_eq!(substitute("日本/語", "本/", "-"), "日-語");
    assert_eq!(substitute("a/b", "a", "ü"), "ü/b");
}

// One visit.

#[test]
fn visitor_rewrites_a_side_effect_import() {
    let mut visitor = TransformModuleVisitor { config: Some(rule(true, "a", "x")) };
    let mut decl = bare("a/b");
    visitor.visit_mut_import_decl(&mut decl);
    assert_eq!(decl, bare("x/b"));
}

#[test]
fn visitor_keeps_its_configuration() {
    let mut visitor = TransformModuleVisitor { config: Some(rule(true, "a", "x")) };
    let mut decl = bare("a/b");
    visitor.visit_mut_import_decl(&mut decl);
    assert_eq!(visitor.config, Some(rule(true, "a", "x")));
}

#[test]
fn visitor_without_configuration_changes_nothing() {
    let mut visitor = TransformModuleVisitor { config: None };
    let mut decl = bare("a/b");
    visitor.visit_mut_import_decl(&mut decl);
    assert_eq!(decl, bare("a/b"));
    assert_eq!(visitor.config, None);
}

#[test]
fn visitor_switched_off_changes_nothing() {
    let mut visitor = TransformModuleVisitor { config: Some(rule(false, "a", "x")) };
    let mut decl = bare("a/b");
    visitor.visit_mut_import_decl(&mut decl);
    assert_eq!(decl, bare("a/b"));
}

#[test]
fn visitor_leaves_imports_with_bindings() {
    let mut visitor = TransformModuleVisitor { config: Some(rule(true, "a", "x")) };
    for specifier in [ImportSpecifier::Named, ImportSpecifier::Default, ImportSpecifier::Namespace]
    {
        let mut decl = bound(vec![specifier], "a/b");
        visitor.visit_mut_import_decl(&mut decl);
        assert_eq!(decl, bound(vec![specifier], "a/b"));
    }
}

#[test]
fn visitor_walks_a_program_in_place() {
    let mut visitor = TransformModuleVisitor { config: Some(rule(true, "a", "x")) };
    let mut program = sample_program();
    visitor.visit_mut_program(&mut program);
    assert_eq!(
        program,
        Program {
            imports: vec![
                bare("x/b"),
                bound(vec![ImportSpecifier::Default], "a/c"),
                bare("lib/x"),
                bound(vec![ImportSpecifier::Named, ImportSpecifier::Named], "a"),
                bound(vec![ImportSpecifier::Namespace], "a/a"),
                bare(""),
            ],
        }
    );
}

#[test]
fn visitor_without_configuration_walks_without_a_change() {
    let mut visitor = TransformModuleVisitor { config: None };
    let mut program = sample_program();
    visitor.visit_mut_program(&mut program);
    assert_eq!(program, sample_program());
}

#[test]
fn visitor_without_configuration_walks_a_program_without_imports() {
    let mut visitor = TransformModuleVisitor { config: None };
    let mut program = Program { imports: Vec::new() };
    visitor.visit_mut_program(&mut program);
    assert_eq!(program, Program { imports: Vec::new() });
}

#[test]
fn visitor_walks_an_empty_program() {
    let mut visitor = TransformModuleVisitor { config: Some(rule(true, "a", "x")) };
    let mut program = Program { imports: Vec::new() };
    visitor.visit_mut_program(&mut program);
    assert_eq!(program, Program { imports: Vec::new() });
}

// The configuration.

#[test]
fn disabled_configuration_is_off_and_empty() {
    let config = TransformModuleVisitorConfig::disabled();
    assert!(!config.enable);
    assert_eq!(config.source, "");
    assert_eq!(config.target, "");
}

#[test]
fn missing_configuration_falls_back_on_disabled() {
    assert_eq!(TransformModuleVisitorConfig::or_disabled(None), rule(false, "", ""));
}

#[test]
fn decoded_configuration_is_taken_as_it_is() {
    let decoded = rule(true, "  a ", "");
    assert_eq!(TransformModuleVisitorConfig::or_disabled(Some(decoded.clone())), decoded);
    let off = rule(false, "a", "x");
    assert_eq!(TransformModuleVisitorConfig::or_disabled(Some(off.clone())), off);
}

// Whole runs.

#[test]
fn run_rewrites_a_leading_occurrence() {
    assert_eq!(run_on_path(rule(true, "a", "x"), "a/b"), "x/b");
}

#[test]
fn run_rewrites_every_occurrence() {
    assert_eq!(run_on_path(rule(true, "a", "x"), "a/a"), "x/x");
}

#[test]
fn run_without_an_occurrence_keeps_the_path() {
    assert_eq!(run_on_path(rule(true, "z", "x"), "a/b"), "a/b");
}

#[test]
fn run_rewrites_an_occurrence_that_does_not_lead() {
    assert_eq!(run_on_path(rule(true, "a", "x"), "lib/a"), "lib/x");
}

#[test]
fn run_with_an_empty_source_keeps_the_path() {
    assert_eq!(run_on_path(rule(true, "", "x"), "a/b"), "a/b");
}

#[test]
fn run_does_not_trim_the_configuration() {
    assert_eq!(run_on_path(rule(true, " a", "x"), "a/ a"), "a/x");
}

#[test]
fn run_switched_off_hands_the_program_back() {
    let out = process_transform(sample_program(), Some(rule(false, "a", "x")));
    assert_eq!(out, sample_program());
}

#[test]
fn run_without_configuration_hands_the_program_back() {
    let out = process_transform(sample_program(), None);
    assert_eq!(out, sample_program());
}

#[test]
fn run_on_a_program_without_imports() {
    let out = process_transform(Program { imports: Vec::new() }, Some(rule(true, "a", "x")));
    assert_eq!(out, Program { imports: Vec::new() });
    let out = process_transform(Program { imports: Vec::new() }, None);
    assert_eq!(out, Program { imports: Vec::new() });
}

#[test]
fn run_leaves_imports_with_bindings() {
    let program = Program {
        imports: vec![
            bound(vec![ImportSpecifier::Default], "a/b"),
            bound(vec![ImportSpecifier::Named], "a/b"),
            bound(vec![ImportSpecifier::Namespace], "a/b"),
            bound(vec![ImportSpecifier::Default, ImportSpecifier::Named], "a/b"),
        ],
    };
    let out = process_transform(program.clone(), Some(rule(true, "a", "x")));
    assert_eq!(out, program);
}

#[test]
fn run_keeps_order_and_bindings() {
    let out = process_transform(sample_program(), Some(rule(true, "a", "x")));
    let before = sample_program();
    assert_eq!(out.imports.len(), before.imports.len());
    for (after, before) in out.imports.iter().zip(before.imports.iter()) {
        assert_eq!(after.specifiers, before.specifiers);
    }
    let paths: Vec<&str> = out.imports.iter().map(|decl| decl.src.as_str()).collect();
    assert_eq!(paths, vec!["x/b", "a/c", "lib/x", "a", "a/a", ""]);
}

#[test]
fn second_run_changes_nothing_once_the_source_is_gone() {
    let once = process_transform(sample_program(), Some(rule(true, "a", "x")));
    let twice = process_transform(once.clone(), Some(rule(true, "a", "x")));
    assert_eq!(twice, once);
}

#[test]
fn second_run_rewrites_again_where_the_target_holds_the_source() {
    let config = rule(true, "a", "aa");
    let once = run_on_path(config.clone(), "a/b");
    assert_eq!(once, "aa/b");
    let twice = run_on_path(config, &once);
    assert_eq!(twice, "aaaa/b");
}

#[test]
fn second_run_rewrites_again_where_an_occurrence_forms_at_a_seam() {
    let config = rule(true, "ab", "a");
    let once = run_on_path(config.clone(), "aabb");
    assert_eq!(once, "aab");
    let twice = run_on_path(config, &once);
    assert_eq!(twice, "aa");
}
