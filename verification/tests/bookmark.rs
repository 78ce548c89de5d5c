use zellij_bookmarks::bookmark::{clone_bookmarks, clone_strings, Bookmark, Config, Label};
use zellij_bookmarks::vars::VarMap;

fn sample() -> Bookmark {
    let mut vars = VarMap::new();
    vars.insert("env".to_string(), "dev".to_string());
    Bookmark {
        id: 7,
        name: "deploy".to_string(),
        desc: "puts it out".to_string(),
        cmds: vec!["echo {{env}}".to_string(), "cmd::push".to_string()],
        labels: vec!["ops".to_string()],
        vars,
        auto_submit: Some(false),
    }
}

fn same(a: &Bookmark, b: &Bookmark) -> bool {
    a.id == b.id
        && a.name == b.name
        && a.desc == b.desc
        && a.cmds == b.cmds
        && a.labels == b.labels
        && a.vars.pairs() == b.vars.pairs()
        && a.auto_submit == b.auto_submit
}

#[test]
fn a_cloned_bookmark_holds_the_same_values() {
    let b = sample();
    let c = b.clone();
    assert!(same(&b, &c));
    let mut changed = b.clone();
    changed.vars.insert("env".to_string(), "prod".to_string());
    changed.cmds.push("echo more".to_string());
    assert!(same(&b, &c));
    assert!(!same(&b, &changed));
}

#[test]
fn cloned_lists_hold_the_same_entries() {
    let list = vec!["a".to_string(), "".to_string(), "c".to_string()];
    assert_eq!(clone_strings(&list), list);
    assert!(clone_strings(&Vec::new()).is_empty());
    let bookmarks = vec![sample(), Bookmark { id: 8, name: "other".to_string(), ..sample() }];
    let copy = clone_bookmarks(&bookmarks);
    assert_eq!(copy.len(), 2);
    assert!(same(&copy[0], &bookmarks[0]));
    assert!(same(&copy[1], &bookmarks[1]));
}

#[test]
fn a_label_keeps_its_number_and_name() {
    let l = Label::new(3, "ops".to_string());
    assert_eq!((l.id, l.name.as_str()), (3, "ops"));
    let c = l.clone();
    assert_eq!((c.id, c.name.as_str()), (3, "ops"));
}

#[test]
fn a_new_configuration_is_empty_and_a_clone_holds_the_same() {
    let empty = Config::new();
    assert!(empty.bookmarks.is_empty());
    assert!(empty.vars.pairs().is_empty());
    assert!(empty.cmds.pairs().is_empty());
    let mut config = Config::new();
    config.vars.insert("g".to_string(), "1".to_string());
    config.cmds.insert("push".to_string(), "git push".to_string());
    config.bookmarks.push(sample());
    let copy = config.clone();
    assert_eq!(copy.vars.get("g"), Some(&"1".to_string()));
    assert_eq!(copy.cmds.get("push"), Some(&"git push".to_string()));
    assert_eq!(copy.bookmarks.len(), 1);
    assert!(same(&copy.bookmarks[0], &config.bookmarks[0]));
}
