use zellij_bookmarks::bookmark::{Bookmark, Config};
use zellij_bookmarks::resolve::{finish_line, ResolutionError};
use zellij_bookmarks::vars::VarMap;

fn vars(pairs: &[(&str, &str)]) -> VarMap {
    let mut m = VarMap::new();
    for (k, v) in pairs {
        m.insert(k.to_string(), v.to_string());
    }
    m
}

fn bookmark(name: &str, cmds: &[&str], pairs: &[(&str, &str)]) -> Bookmark {
    Bookmark {
        id: 0,
        name: name.to_string(),
        desc: String::new(),
        cmds: cmds.iter().map(|c| c.to_string()).collect(),
        labels: Vec::new(),
        vars: vars(pairs),
        auto_submit: None,
    }
}

fn config(bookmarks: Vec<Bookmark>) -> Config {
    Config { vars: VarMap::new(), cmds: VarMap::new(), bookmarks }
}

#[test]
fn a_template_is_rendered_with_the_bookmarks_variables() {
    let a = bookmark("a", &["echo {{x}}"], &[("x", "hi")]);
    let c = config(vec![a.clone()]);
    assert_eq!(c.gen_command(&a, false).unwrap(), "echo hi");
}

#[test]
fn a_reference_expands_to_the_other_bookmark_with_the_callers_variables() {
    let a = bookmark("A", &["bookmark::B"], &[("y", "z")]);
    let b = bookmark("B", &["echo {{y}}"], &[]);
    let c = config(vec![a.clone(), b]);
    assert_eq!(c.gen_command(&a, false).unwrap(), "echo z");
}

#[test]
fn the_callers_variables_win_over_those_of_the_bookmark_referred_to() {
    let a = bookmark("A", &["bookmark::B"], &[("y", "from a")]);
    let b = bookmark("B", &["echo {{y}} {{w}}"], &[("y", "from b"), ("w", "kept")]);
    let c = config(vec![a.clone(), b]);
    assert_eq!(c.gen_command(&a, false).unwrap(), "echo from a kept");
}

#[test]
fn the_bookmarks_variables_win_over_the_global_ones() {
    let a = bookmark("a", &["echo {{x}} {{g}}"], &[("x", "mine")]);
    let mut c = config(vec![a.clone()]);
    c.vars = vars(&[("x", "global"), ("g", "shared")]);
    assert_eq!(c.gen_command(&a, false).unwrap(), "echo mine shared");
}

#[test]
fn a_reference_expands_to_all_lines_of_the_other_bookmark() {
    let a = bookmark("A", &["echo first", "bookmark::B", "echo last"], &[]);
    let b = bookmark("B", &["echo one", "echo two"], &[]);
    let c = config(vec![a.clone(), b]);
    assert_eq!(
        c.gen_command(&a, false).unwrap(),
        "echo first \\\n&& echo one \\\n&& echo two \\\n&& echo last"
    );
}

#[test]
fn two_bookmarks_that_refer_to_each_other_fail_as_circular() {
    let a = bookmark("A", &["bookmark::B"], &[]);
    let b = bookmark("B", &["bookmark::A"], &[]);
    let c = config(vec![a.clone(), b]);
    match c.gen_command(&a, false) {
        Err(ResolutionError::CircularDependency(name)) => assert_eq!(name, "A"),
        other => panic!("unexpected outcome: {:?}", other),
    }
}

#[test]
fn a_bookmark_that_refers_to_itself_fails_as_circular() {
    let a = bookmark("A", &["bookmark::A"], &[]);
    let c = config(vec![a.clone()]);
    let e = c.gen_command(&a, false).unwrap_err();
    assert!(matches!(e, ResolutionError::CircularDependency(_)));
    assert_eq!(e.message(), "Circular dependency detected for bookmark 'A'");
}

#[test]
fn a_bookmark_reached_twice_on_different_paths_fails_as_circular() {
    let a = bookmark("A", &["bookmark::B", "bookmark::C"], &[]);
    let b = bookmark("B", &["bookmark::D"], &[]);
    let c_ = bookmark("C", &["bookmark::D"], &[]);
    let d = bookmark("D", &["echo d"], &[]);
    let c = config(vec![a.clone(), b, c_, d]);
    match c.gen_command(&a, false) {
        Err(ResolutionError::CircularDependency(name)) => assert_eq!(name, "D"),
        other => panic!("unexpected outcome: {:?}", other),
    }
}

#[test]
fn a_reference_to_a_missing_shared_command_fails() {
    let a = bookmark("A", &["cmd::build"], &[]);
    let c = config(vec![a.clone()]);
    match c.gen_command(&a, false) {
        Err(ResolutionError::MacroNotFound(key)) => assert_eq!(key, "build"),
        other => panic!("unexpected outcome: {:?}", other),
    }
    let e = c.gen_command(&a, false).unwrap_err();
    assert_eq!(e.message(), "Command key 'build' not found in cmds");
}

#[test]
fn a_reference_to_a_missing_bookmark_fails() {
    let a = bookmark("A", &["echo a", "bookmark::nowhere"], &[]);
    let c = config(vec![a.clone()]);
    match c.gen_command(&a, false) {
        Err(ResolutionError::BookmarkNotFound(name)) => assert_eq!(name, "nowhere"),
        other => panic!("unexpected outcome: {:?}", other),
    }
    let e = c.gen_command(&a, false).unwrap_err();
    assert_eq!(e.message(), "Bookmark 'nowhere' not found");
}

#[test]
fn a_shared_command_is_rendered_with_the_bookmarks_variables() {
    let a = bookmark("A", &["cmd::greet"], &[("who", "world")]);
    let mut c = config(vec![a.clone()]);
    c.cmds = vars(&[("greet", "  echo hello {{who}}  ")]);
    assert_eq!(c.gen_command(&a, false).unwrap(), "echo hello world");
}

#[test]
fn a_malformed_template_fails_with_the_rendering_error() {
    let a = bookmark("A", &["echo {{#if}}"], &[]);
    let c = config(vec![a.clone()]);
    let e = c.gen_command(&a, false).unwrap_err();
    assert!(matches!(e, ResolutionError::TemplateRenderError(_)));
    assert!(e.message().starts_with("Template rendering error: "));
    assert!(e.message().len() > "Template rendering error: ".len());
}

#[test]
fn the_first_failure_ends_the_resolution() {
    let a = bookmark("A", &["cmd::missing", "bookmark::nowhere"], &[]);
    let c = config(vec![a.clone()]);
    assert!(matches!(c.gen_command(&a, false), Err(ResolutionError::MacroNotFound(_))));
}

#[test]
fn the_command_ends_with_a_line_break_where_it_is_to_be_submitted() {
    let mut a = bookmark("a", &["echo hi"], &[]);
    let c = config(vec![a.clone()]);
    assert_eq!(c.gen_command(&a, false).unwrap(), "echo hi");
    assert_eq!(c.gen_command(&a, true).unwrap(), "echo hi\n");
    a.auto_submit = Some(true);
    assert_eq!(c.gen_command(&a, false).unwrap(), "echo hi\n");
    a.auto_submit = Some(false);
    assert_eq!(c.gen_command(&a, true).unwrap(), "echo hi");
}

#[test]
fn a_bookmark_without_lines_gives_the_empty_command() {
    let a = bookmark("a", &[], &[]);
    let c = config(vec![a.clone()]);
    assert_eq!(c.gen_command(&a, false).unwrap(), "");
    assert_eq!(c.gen_command(&a, true).unwrap(), "\n");
}

#[test]
fn a_line_is_trimmed_after_rendering() {
    let a = bookmark("a", &["  {{x}} echo  "], &[("x", " ")]);
    let c = config(vec![a.clone()]);
    assert_eq!(c.gen_command(&a, false).unwrap(), "echo");
}

#[test]
fn a_variable_without_a_value_renders_as_nothing() {
    let a = bookmark("a", &["echo [{{missing}}]"], &[]);
    let c = config(vec![a.clone()]);
    assert_eq!(c.gen_command(&a, false).unwrap(), "echo []");
}

#[test]
fn finish_line_trims_a_rendered_text_and_wraps_an_error() {
    assert_eq!(finish_line(Ok("  ls -l \n".to_string())).unwrap(), "ls -l");
    match finish_line(Err("bad".to_string())) {
        Err(ResolutionError::TemplateRenderError(detail)) => assert_eq!(detail, "bad"),
        other => panic!("unexpected outcome: {:?}", other),
    }
}

#[test]
fn find_gives_the_first_bookmark_of_a_name() {
    let c = config(vec![
        bookmark("a", &[], &[]),
        bookmark("b", &["one"], &[]),
        bookmark("b", &["two"], &[]),
    ]);
    assert_eq!(c.find("a"), Some(0));
    assert_eq!(c.find("b"), Some(1));
    assert_eq!(c.find("c"), None);
}

#[test]
fn a_template_that_could_include_itself_is_refused() {
    let a = bookmark(
        "A",
        &["{{#*inline \"a\"}}x{{> b}}{{/inline}}{{#*inline \"b\"}}y{{> a}}{{/inline}}{{> a}}"],
        &[],
    );
    let c = config(vec![a.clone()]);
    match c.gen_command(&a, false) {
        Err(ResolutionError::TemplateRenderError(detail)) => {
            assert_eq!(detail, "templates whose partials include partials are not supported")
        }
        other => panic!("unexpected outcome: {:?}", other),
    }
}
