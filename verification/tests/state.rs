use zellij_bookmarks::bookmark::{Bookmark, Config};
use zellij_bookmarks::catalog::number_bookmarks;
use zellij_bookmarks::filters;
use zellij_bookmarks::navigation::Mode;
use zellij_bookmarks::state::{
    parse_flag, to_digit, Action, BareKey, Bindings, Content, KeyPress, Modifiers, State,
};
use zellij_bookmarks::vars::VarMap;

fn bookmark(name: &str, cmds: &[&str], labels: &[&str]) -> Bookmark {
    Bookmark {
        id: 0,
        name: name.to_string(),
        desc: format!("about {}", name),
        cmds: cmds.iter().map(|c| c.to_string()).collect(),
        labels: labels.iter().map(|l| l.to_string()).collect(),
        vars: VarMap::new(),
        auto_submit: None,
    }
}

fn loaded() -> State {
    let bookmarks = number_bookmarks(vec![
        bookmark("deploy dev", &["echo deploy {{env}}"], &["dev", "ops"]),
        bookmark("build", &["echo build"], &["ci"]),
        bookmark("redeploy", &["bookmark::build", "bookmark::deploy dev"], &["dev"]),
        bookmark("broken", &["bookmark::nowhere"], &[]),
    ])
    .unwrap();
    let mut vars = VarMap::new();
    vars.insert("env".to_string(), "staging".to_string());
    let mut state = State::new();
    state.load_config(Config { vars, cmds: VarMap::new(), bookmarks });
    state
}

const PLAIN: Modifiers = Modifiers { ctrl: false, alt: false, shift: false, super_key: false };
const CTRL: Modifiers = Modifiers { ctrl: true, alt: false, shift: false, super_key: false };
const UNBOUND: Bindings = Bindings {
    edit: false,
    reload: false,
    switch_filter_label: false,
    switch_filter_id: false,
    describe: false,
};

fn key(bare_key: BareKey) -> KeyPress {
    KeyPress { bare_key, modifiers: PLAIN, bindings: UNBOUND }
}

fn ctrl(c: char) -> KeyPress {
    KeyPress { bare_key: BareKey::Char(c), modifiers: CTRL, bindings: UNBOUND }
}

fn typed(state: &mut State, text: &str) {
    for c in text.chars() {
        state.update(&key(BareKey::Char(c)));
    }
}

fn names(state: &State) -> Vec<String> {
    state.bookmarks_mgr.iter().into_iter().map(|(_, b)| b.name.clone()).collect()
}

fn label_names(state: &State) -> Vec<String> {
    state.labels_mgr.iter().into_iter().map(|(_, l)| l.name.clone()).collect()
}

#[test]
fn a_new_state_shows_the_empty_bookmark_list() {
    let state = State::new();
    assert_eq!(state.mode, Mode::Bookmarks);
    assert!(!state.default_submit);
    assert!(state.ignore_case);
    assert!(state.detect_filter_mode);
    assert_eq!(state.filename, ".zellij_bookmarks.yaml");
    assert_eq!(state.filter_mode, filters::Mode::Name);
    assert_eq!(state.filter, "");
    assert_eq!(state.bookmarks_mgr.len(), 0);
    assert_eq!(state.labels_mgr.len(), 0);
    assert!(!state.view_desc);
    assert_eq!(state.error_message, None);
    assert_eq!(state.crit_error_message, None);
}

#[test]
fn loading_a_catalog_fills_both_lists() {
    let state = loaded();
    assert_eq!(names(&state), vec!["deploy dev", "build", "redeploy", "broken"]);
    assert_eq!(label_names(&state), vec!["dev", "ops", "ci"]);
    assert_eq!(state.bookmarks_mgr.get_position(), 0);
    assert_eq!(state.config.bookmarks.len(), 4);
}

#[test]
fn escape_and_ctrl_c_give_the_focus_back() {
    let mut state = loaded();
    let u = state.update(&key(BareKey::Esc));
    assert!(!u.should_render);
    assert!(matches!(u.action, Action::CloseFocus));
    let u = state.update(&ctrl('c'));
    assert!(!u.should_render);
    assert!(matches!(u.action, Action::CloseFocus));
    assert_eq!(state.filter, "");
}

#[test]
fn the_arrow_keys_and_tab_move_the_cursor_of_the_tab_shown() {
    let mut state = loaded();
    assert!(state.update(&key(BareKey::Down)).should_render);
    assert!(state.update(&key(BareKey::Tab)).should_render);
    assert_eq!(state.bookmarks_mgr.get_position(), 2);
    assert_eq!(state.labels_mgr.get_position(), 0);
    assert!(state.update(&key(BareKey::Up)).should_render);
    assert_eq!(state.bookmarks_mgr.get_position(), 1);
    state.update(&key(BareKey::Right));
    assert_eq!(state.mode, Mode::Labels);
    state.update(&key(BareKey::Down));
    assert_eq!(state.labels_mgr.get_position(), 1);
    assert_eq!(state.bookmarks_mgr.get_position(), 1);
    state.update(&key(BareKey::Right));
    assert_eq!(state.mode, Mode::Usage);
    let u = state.update(&key(BareKey::Down));
    assert!(!u.should_render);
    assert!(!state.update(&key(BareKey::Up)).should_render);
}

#[test]
fn left_and_right_go_round_the_tabs_and_reset_the_filter_mode() {
    let mut state = loaded();
    state.filter_mode = filters::Mode::Label;
    let u = state.update(&key(BareKey::Left));
    assert!(u.should_render);
    assert_eq!(state.mode, Mode::Usage);
    assert_eq!(state.filter_mode, filters::Mode::Name);
    state.update(&key(BareKey::Left));
    assert_eq!(state.mode, Mode::Labels);
    state.update(&key(BareKey::Left));
    assert_eq!(state.mode, Mode::Bookmarks);
    state.update(&key(BareKey::Right));
    state.update(&key(BareKey::Right));
    state.update(&key(BareKey::Right));
    assert_eq!(state.mode, Mode::Bookmarks);
}

#[test]
fn ctrl_with_a_digit_opens_the_tab_of_that_number() {
    let mut state = loaded();
    let u = state.update(&ctrl('3'));
    assert!(u.should_render);
    assert_eq!(state.mode, Mode::Usage);
    let u = state.update(&ctrl('3'));
    assert!(!u.should_render);
    assert_eq!(state.mode, Mode::Usage);
    let u = state.update(&ctrl('2'));
    assert!(u.should_render);
    assert_eq!(state.mode, Mode::Labels);
    for c in ['0', '4', '9'] {
        let u = state.update(&ctrl(c));
        assert!(!u.should_render);
        assert_eq!(state.mode, Mode::Labels);
    }
    state.update(&ctrl('1'));
    assert_eq!(state.mode, Mode::Bookmarks);
}

#[test]
fn typing_filters_the_list_by_name() {
    let mut state = loaded();
    state.update(&key(BareKey::Down));
    typed(&mut state, "DEP");
    assert_eq!(state.filter, "DEP");
    assert_eq!(state.filter_mode, filters::Mode::Name);
    assert_eq!(names(&state), vec!["deploy dev", "redeploy"]);
    assert_eq!(state.bookmarks_mgr.get_position(), 0);
    let u = state.update(&key(BareKey::Backspace));
    assert!(u.should_render);
    assert_eq!(state.filter, "DE");
    state.update(&key(BareKey::Backspace));
    state.update(&key(BareKey::Backspace));
    state.update(&key(BareKey::Backspace));
    assert_eq!(state.filter, "");
    assert_eq!(names(&state).len(), 4);
}

#[test]
fn typing_respects_case_where_the_state_does() {
    let mut state = loaded();
    state.ignore_case = false;
    typed(&mut state, "DEP");
    assert!(names(&state).is_empty());
    assert_eq!(state.bookmarks_mgr.get_selected().map(|b| b.id), None);
}

#[test]
fn a_digit_typed_first_filters_by_number() {
    let mut state = loaded();
    let u = state.update(&key(BareKey::Char('3')));
    assert!(u.should_render);
    assert_eq!(state.filter_mode, filters::Mode::ID);
    assert_eq!(state.filter, "3");
    assert_eq!(names(&state), vec!["redeploy"]);
    let u = state.update(&key(BareKey::Char('x')));
    assert!(!u.should_render);
    assert_eq!(state.filter, "3");
    state.update(&key(BareKey::Char('0')));
    assert_eq!(state.filter, "30");
    assert!(names(&state).is_empty());
}

#[test]
fn a_number_does_not_begin_with_zero() {
    let mut state = loaded();
    let u = state.update(&key(BareKey::Char('0')));
    assert!(!u.should_render);
    assert_eq!(state.filter, "");
    assert_eq!(state.filter_mode, filters::Mode::ID);
    let u = state.update(&key(BareKey::Char('d')));
    assert!(u.should_render);
    assert_eq!(state.filter_mode, filters::Mode::Name);
    assert_eq!(state.filter, "d");
}

#[test]
fn without_detection_a_digit_is_part_of_a_name() {
    let mut state = loaded();
    state.detect_filter_mode = false;
    state.update(&key(BareKey::Char('3')));
    assert_eq!(state.filter_mode, filters::Mode::Name);
    assert_eq!(state.filter, "3");
    assert!(names(&state).is_empty());
}

#[test]
fn nothing_is_typed_on_the_usage_tab() {
    let mut state = loaded();
    state.update(&ctrl('3'));
    let u = state.update(&key(BareKey::Char('a')));
    assert!(!u.should_render);
    assert_eq!(state.filter, "");
    let u = state.update(&key(BareKey::Backspace));
    assert!(!u.should_render);
    let u = state.update(&key(BareKey::Enter));
    assert!(!u.should_render);
    assert!(matches!(u.action, Action::Nothing));
}

#[test]
fn enter_on_a_bookmark_writes_its_command() {
    let mut state = loaded();
    let u = state.update(&key(BareKey::Enter));
    assert!(!u.should_render);
    match u.action {
        Action::WriteChars(cmd) => assert_eq!(cmd, "echo deploy staging"),
        other => panic!("unexpected action: {:?}", other),
    }
    state.update(&key(BareKey::Down));
    state.update(&key(BareKey::Down));
    state.default_submit = true;
    match state.update(&key(BareKey::Enter)).action {
        Action::WriteChars(cmd) => {
            assert_eq!(cmd, "echo build \\\n&& echo deploy staging\n")
        }
        other => panic!("unexpected action: {:?}", other),
    }
}

#[test]
fn enter_on_a_bookmark_that_cannot_be_resolved_leaves_an_error() {
    let mut state = loaded();
    typed(&mut state, "broken");
    let u = state.update(&key(BareKey::Enter));
    assert!(u.should_render);
    assert!(matches!(u.action, Action::Nothing));
    assert_eq!(
        state.error_message,
        Some("Failed to generate command: Bookmark 'nowhere' not found".to_string())
    );
    assert_eq!(names(&state), vec!["broken"]);
}

#[test]
fn enter_on_an_empty_list_only_draws_again() {
    let mut state = loaded();
    typed(&mut state, "zzz");
    let u = state.update(&key(BareKey::Enter));
    assert!(u.should_render);
    assert!(matches!(u.action, Action::Nothing));
    assert_eq!(state.error_message, None);
}

#[test]
fn enter_on_a_label_opens_the_bookmarks_of_that_label() {
    let mut state = loaded();
    state.view_desc = true;
    state.update(&key(BareKey::Right));
    state.update(&key(BareKey::Down));
    state.update(&key(BareKey::Down));
    let u = state.update(&key(BareKey::Enter));
    assert!(u.should_render);
    assert_eq!(state.mode, Mode::Bookmarks);
    assert_eq!(state.filter_mode, filters::Mode::Label);
    assert_eq!(state.filter, "ci");
    assert!(!state.view_desc);
    assert_eq!(names(&state), vec!["build"]);
}

#[test]
fn enter_on_an_empty_label_list_opens_all_bookmarks() {
    let mut state = loaded();
    state.update(&key(BareKey::Right));
    typed(&mut state, "zzz");
    assert!(label_names(&state).is_empty());
    state.update(&key(BareKey::Enter));
    assert_eq!(state.mode, Mode::Bookmarks);
    assert_eq!(state.filter, "");
    assert_eq!(state.filter_mode, filters::Mode::Label);
    assert_eq!(names(&state).len(), 4);
}

fn bound(bindings: Bindings) -> KeyPress {
    KeyPress { bare_key: BareKey::Char('x'), modifiers: CTRL, bindings }
}

#[test]
fn the_edit_binding_opens_the_file() {
    let mut state = loaded();
    let u = state.update(&bound(Bindings { edit: true, reload: true, ..UNBOUND }));
    assert!(!u.should_render);
    assert!(matches!(u.action, Action::OpenFile));
}

#[test]
fn the_reload_binding_clears_the_filter_and_asks_for_a_reload() {
    let mut state = loaded();
    typed(&mut state, "de");
    state.update(&key(BareKey::Down));
    assert_eq!(state.bookmarks_mgr.get_position(), 1);
    let u = state.update(&bound(Bindings { reload: true, ..UNBOUND }));
    assert!(u.should_render);
    assert!(matches!(u.action, Action::Reload));
    assert_eq!(state.filter, "");
    assert_eq!(state.bookmarks_mgr.get_position(), 0);
    assert_eq!(names(&state), vec!["deploy dev", "redeploy"]);
}

#[test]
fn the_filter_bindings_toggle_the_filter_mode() {
    let mut state = loaded();
    let label = bound(Bindings { switch_filter_label: true, ..UNBOUND });
    let id = bound(Bindings { switch_filter_id: true, ..UNBOUND });
    assert!(state.update(&label).should_render);
    assert_eq!(state.filter_mode, filters::Mode::Label);
    state.update(&label);
    assert_eq!(state.filter_mode, filters::Mode::Name);
    state.update(&id);
    assert_eq!(state.filter_mode, filters::Mode::ID);
    state.update(&label);
    assert_eq!(state.filter_mode, filters::Mode::Label);
    state.update(&key(BareKey::Right));
    let u = state.update(&label);
    assert!(!u.should_render);
    assert_eq!(state.filter_mode, filters::Mode::Name);
    assert!(state.update(&id).should_render);
    assert_eq!(state.filter_mode, filters::Mode::ID);
    state.update(&key(BareKey::Right));
    assert!(!state.update(&id).should_render);
}

#[test]
fn the_describe_binding_toggles_descriptions_on_the_bookmark_list() {
    let mut state = loaded();
    let describe = bound(Bindings { describe: true, ..UNBOUND });
    assert!(state.update(&describe).should_render);
    assert!(state.view_desc);
    assert!(state.update(&describe).should_render);
    assert!(!state.view_desc);
    state.update(&key(BareKey::Right));
    assert!(!state.update(&describe).should_render);
    assert!(!state.view_desc);
}

#[test]
fn a_key_without_a_meaning_does_nothing() {
    let mut state = loaded();
    let u = state.update(&key(BareKey::Other));
    assert!(!u.should_render);
    assert!(matches!(u.action, Action::Nothing));
    let u = state.update(&KeyPress {
        bare_key: BareKey::Char('a'),
        modifiers: Modifiers { alt: true, ..PLAIN },
        bindings: UNBOUND,
    });
    assert!(!u.should_render);
    assert_eq!(state.filter, "");
}

#[test]
fn a_fixed_key_wins_over_a_binding() {
    let mut state = loaded();
    let all = Bindings {
        edit: true,
        reload: true,
        switch_filter_label: true,
        switch_filter_id: true,
        describe: true,
    };
    let u = state.update(&KeyPress { bare_key: BareKey::Char('c'), modifiers: CTRL, bindings: all });
    assert!(matches!(u.action, Action::CloseFocus));
    let u = state.update(&KeyPress { bare_key: BareKey::Char('a'), modifiers: PLAIN, bindings: all });
    assert!(matches!(u.action, Action::Nothing));
    assert_eq!(state.filter, "a");
    let u = state.update(&KeyPress { bare_key: BareKey::Char('2'), modifiers: CTRL, bindings: all });
    assert!(matches!(u.action, Action::Nothing));
    assert_eq!(state.mode, Mode::Labels);
}

#[test]
fn errors_are_shown_before_the_lists() {
    let mut state = loaded();
    state.handle_error("once".to_string());
    match state.render(20, 40).content {
        Content::Error(message) => assert_eq!(message, "once"),
        other => panic!("unexpected content: {:?}", other),
    }
    assert_eq!(state.error_message, None);
    assert!(matches!(state.render(20, 40).content, Content::Menu(_)));
    state.handle_crit_error("stays".to_string());
    state.handle_error("once".to_string());
    for _ in 0..2 {
        match state.render(20, 40).content {
            Content::Error(message) => assert_eq!(message, "stays"),
            other => panic!("unexpected content: {:?}", other),
        }
    }
    assert_eq!(state.error_message, Some("once".to_string()));
    assert_eq!(state.render_errors(), Some("stays".to_string()));
}

#[test]
fn the_screen_says_when_the_panel_is_too_small() {
    let mut state = loaded();
    assert!(!state.render(5, 12).too_small);
    assert!(state.render(4, 12).too_small);
    assert!(state.render(5, 11).too_small);
    state.update(&ctrl('3'));
    assert!(matches!(state.render(20, 40).content, Content::Usage));
}

#[test]
fn the_bookmark_list_shows_names_or_descriptions() {
    let mut state = loaded();
    let lines = state.render_bookmarks(20, 40);
    let texts: Vec<&str> = lines.iter().map(|l| l.text.as_str()).collect();
    assert_eq!(
        texts,
        vec![
            "Mode: Bookmarks",
            "Search (by Name) _",
            "1. deploy dev",
            "2. build",
            "3. redeploy",
            "4. broken",
            "All: 4",
        ]
    );
    state.view_desc = true;
    let lines = state.render_bookmarks(20, 40);
    assert_eq!(lines[2].text, "1. about deploy dev");
    state.update(&key(BareKey::Right));
    typed(&mut state, "o");
    let lines = state.render_labels(20, 40);
    let texts: Vec<&str> = lines.iter().map(|l| l.text.as_str()).collect();
    assert_eq!(texts, vec!["Mode: Labels", "Search (by Name) o_", "2. ops", "All: 1"]);
}

#[test]
fn a_configured_state_takes_the_switches_and_the_file_name() {
    let mut conf = VarMap::new();
    conf.insert("exec".to_string(), " true ".to_string());
    conf.insert("ignore_case".to_string(), "false".to_string());
    conf.insert("autodetect_filter_mode".to_string(), "false\n".to_string());
    conf.insert("filename".to_string(), "marks.yaml".to_string());
    let mut state = State::new();
    state.load(&conf);
    assert!(state.default_submit);
    assert!(!state.ignore_case);
    assert!(!state.detect_filter_mode);
    assert_eq!(state.filename, "marks.yaml");
    assert_eq!(state.error_message, None);
}

#[test]
fn a_wrong_switch_falls_back_and_leaves_an_error() {
    let mut conf = VarMap::new();
    conf.insert("exec".to_string(), "yes".to_string());
    conf.insert("ignore_case".to_string(), "True".to_string());
    conf.insert("filename".to_string(), "".to_string());
    let mut state = State::new();
    state.default_submit = true;
    state.ignore_case = false;
    state.load(&conf);
    assert!(!state.default_submit);
    assert!(state.ignore_case);
    assert!(state.detect_filter_mode);
    assert_eq!(state.filename, ".zellij_bookmarks.yaml");
    assert_eq!(
        state.error_message,
        Some(
            "'ignore_case' config value must be 'true' or 'false', but it's 'True'. The true is used."
                .to_string()
        )
    );
}

#[test]
fn parse_flag_reads_true_and_false_only() {
    let t = "true".to_string();
    let f = " false".to_string();
    let bad = "1".to_string();
    assert_eq!(parse_flag("exec", Some(&t), false, false), (true, None));
    assert_eq!(parse_flag("exec", Some(&f), true, true), (false, None));
    assert_eq!(parse_flag("exec", None, false, true), (true, None));
    assert_eq!(
        parse_flag("exec", Some(&bad), false, true),
        (
            false,
            Some(
                "'exec' config value must be 'true' or 'false', but it's '1'. The false is used."
                    .to_string()
            )
        )
    );
}

#[test]
fn to_digit_reads_ascii_digits_only() {
    assert_eq!(to_digit('0'), Some(0));
    assert_eq!(to_digit('7'), Some(7));
    assert_eq!(to_digit('9'), Some(9));
    assert_eq!(to_digit('a'), None);
    assert_eq!(to_digit('/'), None);
    assert_eq!(to_digit(':'), None);
    assert_eq!(to_digit('٣'), None);
}

#[test]
fn resolve_selected_gives_the_command_of_the_bookmark_under_the_cursor() {
    let mut state = loaded();
    assert_eq!(state.resolve_selected().unwrap().unwrap(), "echo deploy staging");
    state.update(&key(BareKey::Down));
    assert_eq!(state.resolve_selected().unwrap().unwrap(), "echo build");
    typed(&mut state, "zzz");
    assert!(state.resolve_selected().is_none());
    assert_eq!(State::default().resolve_selected().map(|r| r.is_ok()), None);
}

#[test]
fn a_failed_reload_keeps_the_lists_and_leaves_an_error() {
    let mut state = loaded();
    state.handle_error("Failed to load config file".to_string());
    assert_eq!(names(&state).len(), 4);
    assert_eq!(label_names(&state).len(), 3);
    assert_eq!(state.config.bookmarks.len(), 4);
    assert_eq!(state.error_message, Some("Failed to load config file".to_string()));
}

#[test]
fn a_reload_replaces_both_lists() {
    let mut state = loaded();
    typed(&mut state, "de");
    state.update(&key(BareKey::Down));
    let bookmarks = number_bookmarks(vec![bookmark("only", &["echo only"], &["one"])]).unwrap();
    state.load_config(Config { vars: VarMap::new(), cmds: VarMap::new(), bookmarks });
    assert_eq!(names(&state), vec!["only"]);
    assert_eq!(label_names(&state), vec!["one"]);
    assert_eq!(state.bookmarks_mgr.get_position(), 0);
    assert_eq!(state.filter, "de");
}
