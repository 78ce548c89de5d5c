use zellij_bookmarks::bookmark::Bookmark;
use zellij_bookmarks::catalog::{collect_labels, number_bookmarks, LoadError};
use zellij_bookmarks::vars::VarMap;

fn bookmark(name: &str, labels: &[&str]) -> Bookmark {
    Bookmark {
        id: 0,
        name: name.to_string(),
        desc: format!("about {}", name),
        cmds: vec![format!("echo {}", name)],
        labels: labels.iter().map(|l| l.to_string()).collect(),
        vars: VarMap::new(),
        auto_submit: Some(true),
    }
}

#[test]
fn bookmarks_are_numbered_by_their_place_from_one() {
    let catalog = number_bookmarks(vec![bookmark("a", &[]), bookmark("b", &[]), bookmark("c", &[])])
        .unwrap();
    let ids: Vec<usize> = catalog.iter().map(|b| b.id).collect();
    assert_eq!(ids, vec![1, 2, 3]);
    let names: Vec<&str> = catalog.iter().map(|b| b.name.as_str()).collect();
    assert_eq!(names, vec!["a", "b", "c"]);
    assert_eq!(catalog[1].desc, "about b");
    assert_eq!(catalog[1].cmds, vec!["echo b".to_string()]);
    assert_eq!(catalog[1].auto_submit, Some(true));
}

#[test]
fn an_empty_catalog_is_accepted() {
    assert!(number_bookmarks(Vec::new()).unwrap().is_empty());
}

#[test]
fn a_catalog_with_a_repeated_name_is_refused_as_a_whole() {
    let r = number_bookmarks(vec![bookmark("a", &[]), bookmark("b", &[]), bookmark("a", &[])]);
    assert_eq!(r.err(), Some(LoadError::DuplicateBookmarkName(1)));
}

#[test]
fn every_bookmark_that_repeats_an_earlier_name_is_counted() {
    let r = number_bookmarks(vec![
        bookmark("a", &[]),
        bookmark("a", &[]),
        bookmark("b", &[]),
        bookmark("a", &[]),
        bookmark("b", &[]),
    ]);
    let e = r.err().unwrap();
    assert_eq!(e, LoadError::DuplicateBookmarkName(3));
    assert_eq!(e.message(), "Duplicate bookmarks names: 3");
}

#[test]
fn names_that_differ_in_case_are_different_names() {
    assert!(number_bookmarks(vec![bookmark("a", &[]), bookmark("A", &[])]).is_ok());
}

#[test]
fn labels_are_listed_once_in_the_order_of_first_appearance() {
    let labels = collect_labels(&vec![
        bookmark("a", &["dev", "ops"]),
        bookmark("b", &[]),
        bookmark("c", &["ops", "db", "dev", "db"]),
        bookmark("d", &["ci"]),
    ]);
    let got: Vec<(usize, &str)> = labels.iter().map(|l| (l.id, l.name.as_str())).collect();
    assert_eq!(got, vec![(1, "dev"), (2, "ops"), (3, "db"), (4, "ci")]);
}

#[test]
fn a_catalog_without_labels_has_an_empty_label_list() {
    assert!(collect_labels(&vec![bookmark("a", &[]), bookmark("b", &[])]).is_empty());
    assert!(collect_labels(&Vec::new()).is_empty());
}
