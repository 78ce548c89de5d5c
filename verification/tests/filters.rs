use zellij_bookmarks::bookmark::{Bookmark, Label};
use zellij_bookmarks::filters::{BookmarkFilter, Filter, LabelFilter, Mode};
use zellij_bookmarks::tab_manager::TabManager;
use zellij_bookmarks::vars::VarMap;

fn bookmark(id: usize, name: &str, labels: &[&str]) -> Bookmark {
    Bookmark {
        id,
        name: name.to_string(),
        desc: String::new(),
        cmds: Vec::new(),
        labels: labels.iter().map(|l| l.to_string()).collect(),
        vars: VarMap::new(),
        auto_submit: None,
    }
}

fn keeps(mode: Mode, filter: &str, ignore_case: bool, b: &Bookmark) -> bool {
    BookmarkFilter::new(mode, filter.to_string(), ignore_case).keep(b)
}

fn keeps_label(mode: Mode, filter: &str, ignore_case: bool, l: &Label) -> bool {
    LabelFilter::new(mode, filter.to_string(), ignore_case).keep(l)
}

#[test]
fn an_empty_filter_keeps_every_bookmark_in_every_mode() {
    let b = bookmark(12, "Deploy", &["dev"]);
    let plain = bookmark(3, "", &[]);
    for mode in [Mode::Name, Mode::ID, Mode::Label] {
        for ignore_case in [false, true] {
            assert!(keeps(mode, "", ignore_case, &b));
            assert!(keeps(mode, "", ignore_case, &plain));
        }
    }
}

#[test]
fn an_empty_filter_keeps_every_label_in_every_mode() {
    let l = Label::new(4, "dev".to_string());
    for mode in [Mode::Name, Mode::ID, Mode::Label] {
        for ignore_case in [false, true] {
            assert!(keeps_label(mode, "", ignore_case, &l));
        }
    }
}

#[test]
fn a_label_is_compared_as_a_whole_and_a_name_is_searched() {
    let b = bookmark(1, "deploy", &["dev"]);
    assert!(keeps(Mode::Label, "dev", false, &b));
    assert!(!keeps(Mode::Label, "de", false, &b));
    assert!(keeps(Mode::Name, "de", false, &b));
    assert!(keeps(Mode::Name, "ploy", false, &b));
    assert!(keeps(Mode::Name, "deploy", false, &b));
    assert!(!keeps(Mode::Name, "dev", false, &b));
    assert!(!keeps(Mode::Label, "deploy", false, &b));
}

#[test]
fn case_is_set_aside_only_where_the_filter_ignores_it() {
    let b = bookmark(1, "Deploy", &["Dev"]);
    assert!(keeps(Mode::Name, "dEp", true, &b));
    assert!(!keeps(Mode::Name, "dEp", false, &b));
    assert!(keeps(Mode::Name, "Dep", false, &b));
    assert!(keeps(Mode::Label, "dEV", true, &b));
    assert!(!keeps(Mode::Label, "dev", false, &b));
    assert!(keeps(Mode::Label, "Dev", false, &b));
    assert!(!keeps(Mode::Label, "de", true, &b));
}

#[test]
fn a_bookmark_with_one_matching_label_among_several_is_kept() {
    let b = bookmark(1, "x", &["ops", "dev", "db"]);
    assert!(keeps(Mode::Label, "db", false, &b));
    assert!(keeps(Mode::Label, "ops", false, &b));
    assert!(!keeps(Mode::Label, "d", false, &b));
    assert!(!keeps(Mode::Label, "x", false, &bookmark(1, "x", &[])));
}

#[test]
fn a_number_is_matched_by_the_beginning_of_its_decimal_notation() {
    let b = bookmark(123, "x", &[]);
    assert!(keeps(Mode::ID, "1", false, &b));
    assert!(keeps(Mode::ID, "12", true, &b));
    assert!(keeps(Mode::ID, "123", false, &b));
    assert!(!keeps(Mode::ID, "23", false, &b));
    assert!(!keeps(Mode::ID, "1234", false, &b));
    assert!(!keeps(Mode::ID, "x", false, &b));
    assert!(keeps(Mode::ID, "0", false, &bookmark(0, "x", &[])));
}

#[test]
fn a_label_list_falls_back_to_the_name_in_label_mode() {
    let l = Label::new(21, "Backend".to_string());
    assert!(keeps_label(Mode::Label, "end", false, &l));
    assert!(keeps_label(Mode::Label, "BACK", true, &l));
    assert!(!keeps_label(Mode::Label, "BACK", false, &l));
    assert!(keeps_label(Mode::Name, "ck", false, &l));
    assert!(keeps_label(Mode::ID, "2", false, &l));
    assert!(!keeps_label(Mode::ID, "1", false, &l));
    assert!(!keeps_label(Mode::ID, "Back", false, &l));
}

#[test]
fn the_number_of_kept_entries_is_the_number_of_accepted_entries() {
    let catalog = vec![
        bookmark(1, "deploy dev", &["dev"]),
        bookmark(2, "build", &["ci"]),
        bookmark(3, "redeploy", &["dev", "ci"]),
        bookmark(4, "Deploy prod", &[]),
    ];
    let mut m = TabManager::new(catalog.clone());
    for (mode, text, ignore_case) in [
        (Mode::Name, "deploy", false),
        (Mode::Name, "deploy", true),
        (Mode::Label, "ci", false),
        (Mode::ID, "3", false),
        (Mode::ID, "", false),
        (Mode::Name, "zzz", true),
    ] {
        let filter = BookmarkFilter::new(mode, text.to_string(), ignore_case);
        let expected: Vec<usize> =
            catalog.iter().filter(|b| filter.keep(b)).map(|b| b.id).collect();
        m.with_filter(&filter);
        assert_eq!(m.len(), expected.len());
        let got: Vec<usize> = m.iter().into_iter().map(|(_, b)| b.id).collect();
        assert_eq!(got, expected);
        assert_eq!(m.get_position(), 0);
    }
    m.with_filter(&BookmarkFilter::new(Mode::Name, "deploy".to_string(), true));
    let got: Vec<usize> = m.iter().into_iter().map(|(_, b)| b.id).collect();
    assert_eq!(got, vec![1, 3, 4]);
}

#[test]
fn asking_twice_for_a_mode_leads_back_to_names() {
    for mode in [Mode::Name, Mode::ID, Mode::Label] {
        assert_eq!(Mode::default().switch_to(mode).switch_to(mode), Mode::Name);
    }
    assert_eq!(Mode::Name.switch_to(Mode::ID), Mode::ID);
    assert_eq!(Mode::ID.switch_to(Mode::ID), Mode::Name);
    assert_eq!(Mode::ID.switch_to(Mode::Label), Mode::Label);
    assert_eq!(Mode::Label.switch_to(Mode::Label), Mode::Name);
    assert_eq!(Mode::Name.switch_to(Mode::Name), Mode::Name);
    assert_eq!(Mode::default(), Mode::Name);
}

#[test]
fn a_filter_mode_is_shown_by_its_name() {
    assert_eq!(Mode::Name.to_string(), "Name");
    assert_eq!(Mode::ID.to_string(), "ID");
    assert_eq!(Mode::Label.to_string(), "Label");
}

#[test]
fn matching_by_name_is_the_search_of_the_text_in_the_name() {
    let names = ["", "a", "ab", "deploy", "de", "Deploy", "redeploy dev", "ploy"];
    let texts = ["", "a", "b", "de", "ploy", "deploy", "dev", "Deploy", "y d", "x"];
    for name in names {
        for text in texts {
            let f = BookmarkFilter::new(Mode::Name, text.to_string(), false);
            let plain = bookmark(1, name, &[]);
            let other = bookmark(77, name, &[text, "de", "x"]);
            let expected = name.contains(text);
            assert_eq!(f.keep(&plain), expected, "{:?} in {:?}", text, name);
            assert_eq!(f.keep_by_name(&plain), expected);
            assert_eq!(f.keep(&other), expected);
            assert_eq!(f.keep_by_name(&other), expected);
            let l = LabelFilter::new(Mode::Name, text.to_string(), false);
            assert_eq!(l.keep_by_name(&Label::new(5, name.to_string())), expected);
        }
    }
}

#[test]
fn the_matchers_look_at_their_own_field_only() {
    let b = bookmark(42, "deploy", &["dev", "ops"]);
    let f = BookmarkFilter::new(Mode::Name, "dev".to_string(), false);
    assert!(f.keep_by_label(&b));
    assert!(!f.keep_by_name(&b));
    assert!(!f.keep_by_id(&b));
    let f = BookmarkFilter::new(Mode::Label, "4".to_string(), true);
    assert!(f.keep_by_id(&b));
    assert!(!f.keep_by_label(&b));
    assert!(!f.keep_by_name(&b));
    assert_eq!(BookmarkFilter::new(Mode::Name, "DeV".to_string(), true).get_filter(), "dev");
    assert_eq!(BookmarkFilter::new(Mode::Name, "DeV".to_string(), false).get_filter(), "DeV");
    let l = Label::new(12, "ops".to_string());
    assert!(LabelFilter::new(Mode::Name, "1".to_string(), false).keep_by_id(&l));
    assert!(!LabelFilter::new(Mode::Name, "2".to_string(), false).keep_by_id(&l));
}
