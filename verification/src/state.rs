//! The state of the picker and what a key press does to it. The host hands
//! each key press to `State::update` and carries out the action that comes
//! back; the state itself never touches a file or the terminal.

use crate::bookmark::{
    bookmark_views, clone_bookmarks, label_views, Bookmark, BookmarkView, Config, Label, LabelView,
};
use crate::catalog::{all_labels, collect_labels, first_occurrences, labels_named};
use crate::filters;
use crate::filters::{keeps_bookmark, keeps_label, BookmarkFilter, Filter, LabelFilter};
use crate::navigation::{Mode, Navigation};
use crate::render::{
    entry_views, line_views, menu_lines, panel_too_small, render_main_menu, too_small, Line,
    LineView,
};
use crate::resolve::{command_of, outcome_view, ConfigView, Failure, ResolutionError};
use crate::tab_manager::{
    lemma_filter_commutes, lemma_lists_stay_well_formed, ListView, TabManager,
};
use crate::text::{same_text, trim, trimmed};
use crate::vars::VarMap;
use vstd::prelude::*;
use vstd::string::StringExecFns;

verus! {

/// A key without its modifiers. Keys that the picker gives no meaning of
/// their own are `Other`.
#[derive(PartialEq, Eq, Structural, Clone, Copy, Debug)]
pub enum BareKey {
    Esc,
    Down,
    Tab,
    Up,
    Right,
    Left,
    Backspace,
    Enter,
    Char(char),
    Other,
}

/// The modifiers held with a key.
#[derive(PartialEq, Eq, Structural, Clone, Copy, Debug)]
pub struct Modifiers {
    pub ctrl: bool,
    pub alt: bool,
    pub shift: bool,
    pub super_key: bool,
}

/// Which of the configured key bindings a key press equals.
#[derive(PartialEq, Eq, Structural, Clone, Copy, Debug)]
pub struct Bindings {
    pub edit: bool,
    pub reload: bool,
    pub switch_filter_label: bool,
    pub switch_filter_id: bool,
    pub describe: bool,
}

/// A key press as the picker reads it.
#[derive(PartialEq, Eq, Structural, Clone, Copy, Debug)]
pub struct KeyPress {
    pub bare_key: BareKey,
    pub modifiers: Modifiers,
    pub bindings: Bindings,
}

/// What the host is to do after a key press.
#[derive(Debug)]
pub enum Action {
    /// Nothing.
    Nothing,
    /// Give the focus back.
    CloseFocus,
    /// Give the focus back, then write the text to the terminal.
    WriteChars(String),
    /// Open the configuration file in an editor.
    OpenFile,
    /// Read the configuration file again and hand the outcome to the state.
    Reload,
}

/// An action, as mathematical values.
pub enum ActionView {
    Nothing,
    CloseFocus,
    WriteChars(Seq<char>),
    OpenFile,
    Reload,
}

impl View for Action {
    type V = ActionView;

    open spec fn view(&self) -> ActionView {
        match self {
            Action::Nothing => ActionView::Nothing,
            Action::CloseFocus => ActionView::CloseFocus,
            Action::WriteChars(text) => ActionView::WriteChars(text@),
            Action::OpenFile => ActionView::OpenFile,
            Action::Reload => ActionView::Reload,
        }
    }
}

/// What a key press led to.
#[derive(Debug)]
pub struct Update {
    /// Whether the screen is to be drawn again.
    pub should_render: bool,
    /// What the host is to do.
    pub action: Action,
}

/// What the screen shows.
#[derive(Debug)]
pub enum Content {
    /// An error message.
    Error(String),
    /// The lines of a list screen.
    Menu(Vec<Line>),
    /// The table of keys.
    Usage,
}

/// What the screen shows, as mathematical values.
pub enum ContentView {
    Error(Seq<char>),
    Menu(Seq<LineView>),
    Usage,
}

impl View for Content {
    type V = ContentView;

    open spec fn view(&self) -> ContentView {
        match self {
            Content::Error(message) => ContentView::Error(message@),
            Content::Menu(lines) => ContentView::Menu(line_views(lines@)),
            Content::Usage => ContentView::Usage,
        }
    }
}

/// What is to be drawn.
#[derive(Debug)]
pub struct Screen {
    /// Whether the panel is too small for the picker. The host then gives
    /// the focus back; the content is drawn all the same.
    pub too_small: bool,
    /// What the screen shows.
    pub content: Content,
}

/// The state of the picker.
pub struct State {
    /// The tab shown.
    pub mode: Mode,
    /// Whether a command is submitted at once where its bookmark does not say.
    pub default_submit: bool,
    /// Whether the filter ignores case.
    pub ignore_case: bool,
    /// Whether the first character typed chooses between filtering by
    /// number and by name.
    pub detect_filter_mode: bool,
    /// The name of the configuration file.
    pub filename: String,
    /// What the filter text is matched against.
    pub filter_mode: filters::Mode,
    /// The filter text.
    pub filter: String,
    /// The bookmark list.
    pub bookmarks_mgr: TabManager<Bookmark>,
    /// The label list.
    pub labels_mgr: TabManager<Label>,
    /// The catalog with its global tables.
    pub config: Config,
    /// Whether the bookmark list shows descriptions in place of names.
    pub view_desc: bool,
    /// An error that stays on the screen.
    pub crit_error_message: Option<String>,
    /// An error that is shown once.
    pub error_message: Option<String>,
}

/// What the state holds, as mathematical values.
pub struct StateView {
    pub mode: Mode,
    pub default_submit: bool,
    pub ignore_case: bool,
    pub detect_filter_mode: bool,
    pub filename: Seq<char>,
    pub filter_mode: filters::Mode,
    pub filter: Seq<char>,
    pub bookmarks: ListView<BookmarkView>,
    pub labels: ListView<LabelView>,
    pub config: ConfigView,
    pub view_desc: bool,
    pub crit_error_message: Option<Seq<char>>,
    pub error_message: Option<Seq<char>>,
}

/// An optional text, as mathematical values.
pub open spec fn text_view(text: Option<String>) -> Option<Seq<char>> {
    match text {
        Some(t) => Some(t@),
        None => None,
    }
}

/// A bookmark list, as mathematical values.
pub open spec fn bookmark_list(list: ListView<Bookmark>) -> ListView<BookmarkView> {
    ListView {
        catalog: bookmark_views(list.catalog),
        visible: bookmark_views(list.visible),
        cursor: list.cursor,
    }
}

/// A label list, as mathematical values.
pub open spec fn label_list(list: ListView<Label>) -> ListView<LabelView> {
    ListView {
        catalog: label_views(list.catalog),
        visible: label_views(list.visible),
        cursor: list.cursor,
    }
}

impl View for State {
    type V = StateView;

    open spec fn view(&self) -> StateView {
        StateView {
            mode: self.mode,
            default_submit: self.default_submit,
            ignore_case: self.ignore_case,
            detect_filter_mode: self.detect_filter_mode,
            filename: self.filename@,
            filter_mode: self.filter_mode,
            filter: self.filter@,
            bookmarks: bookmark_list(self.bookmarks_mgr@),
            labels: label_list(self.labels_mgr@),
            config: self.config@,
            view_desc: self.view_desc,
            crit_error_message: text_view(self.crit_error_message),
            error_message: text_view(self.error_message),
        }
    }
}

/// The value of a decimal digit, for the characters `0` to `9`.
pub open spec fn digit_value(c: char) -> Option<nat> {
    if 48 <= c as int <= 57 {
        Some((c as int - 48) as nat)
    } else {
        None
    }
}

/// No modifier is held.
pub open spec fn no_modifiers(m: Modifiers) -> bool {
    !m.ctrl && !m.alt && !m.shift && !m.super_key
}

/// What begins the message for a command that could not be generated.
pub open spec fn command_failure_prefix() -> Seq<char> {
    "Failed to generate command: "@
}

/// The value of a key in a map, if the map has the key.
pub open spec fn option_of(map: Map<Seq<char>, Seq<char>>, key: Seq<char>) -> Option<Seq<char>> {
    if map.contains_key(key) {
        Some(map[key])
    } else {
        None
    }
}

/// The switch that a text stands for: `true` or `false`, with any white
/// space around it.
pub open spec fn parsed_flag(text: Seq<char>) -> Option<bool> {
    if trimmed(text) == "true"@ {
        Some(true)
    } else if trimmed(text) == "false"@ {
        Some(false)
    } else {
        None
    }
}

/// The message for a switch with a value that is neither `true` nor `false`.
pub open spec fn flag_error(name: Seq<char>, value: Seq<char>, fallback: bool) -> Seq<char> {
    "'"@ + name + "' config value must be 'true' or 'false', but it's '"@ + value + "'. The "@
        + (if fallback {
        "true"@
    } else {
        "false"@
    }) + " is used."@
}

/// What a switch of the configuration comes to: its value and the error to
/// show, if any. Without a text the switch stays as it is; a text that is
/// neither `true` nor `false` sets it to `fallback` and leaves an error.
pub open spec fn flag_outcome(
    name: Seq<char>,
    value: Option<Seq<char>>,
    fallback: bool,
    current: bool,
) -> (bool, Option<Seq<char>>) {
    match value {
        None => (current, None),
        Some(text) => match parsed_flag(text) {
            Some(flag) => (flag, None),
            None => (fallback, Some(flag_error(name, text, fallback))),
        },
    }
}

impl StateView {
    /// The state when the picker starts.
    pub open spec fn initial() -> StateView {
        StateView {
            mode: Mode::Bookmarks,
            default_submit: false,
            ignore_case: true,
            detect_filter_mode: true,
            filename: ".zellij_bookmarks.yaml"@,
            filter_mode: filters::Mode::Name,
            filter: Seq::empty(),
            bookmarks: ListView::fresh(Seq::empty()),
            labels: ListView::fresh(Seq::empty()),
            config: ConfigView { vars: Map::empty(), cmds: Map::empty(), bookmarks: Seq::empty() },
            view_desc: false,
            crit_error_message: None,
            error_message: None,
        }
    }

    /// Both lists are well formed: their kept entries are entries of their
    /// catalogs, in order, and their cursors are in range.
    pub open spec fn well_formed(self) -> bool {
        self.bookmarks.well_formed() && self.labels.well_formed()
    }

    /// The state with the filter applied to the list of the tab shown.
    pub open spec fn filter_applied(self) -> StateView {
        match self.mode {
            Mode::Bookmarks => StateView {
                bookmarks: self.bookmarks.filtered(
                    |b: BookmarkView|
                        keeps_bookmark(self.filter_mode, self.filter, self.ignore_case, b),
                ),
                ..self
            },
            Mode::Labels => StateView {
                labels: self.labels.filtered(
                    |l: LabelView| keeps_label(self.filter_mode, self.filter, self.ignore_case, l),
                ),
                ..self
            },
            Mode::Usage => self,
        }
    }

    /// The state with both cursors at the top.
    pub open spec fn selection_reset(self) -> StateView {
        StateView { bookmarks: self.bookmarks.reset(), labels: self.labels.reset(), ..self }
    }

    /// The state with an error to show once.
    pub open spec fn with_error(self, message: Seq<char>) -> StateView {
        StateView { error_message: Some(message), ..self }
    }

    /// The state with an error that stays.
    pub open spec fn with_crit_error(self, message: Seq<char>) -> StateView {
        StateView { crit_error_message: Some(message), ..self }
    }

    /// The state after a catalog was loaded: both lists are new, with every
    /// entry kept and the cursor at the top.
    pub open spec fn loaded(self, config: ConfigView) -> StateView {
        StateView {
            labels: ListView::fresh(labels_named(first_occurrences(all_labels(config.bookmarks)))),
            bookmarks: ListView::fresh(config.bookmarks),
            config: config,
            ..self
        }
    }

    /// The state on another tab: the filter goes back to names and is
    /// applied to the list of the new tab.
    pub open spec fn tab_switched(self, mode: Mode) -> StateView {
        StateView { mode: mode, filter_mode: filters::Mode::Name, ..self }.filter_applied()
    }

    /// The state with the cursor of the tab shown one entry further down.
    pub open spec fn cursor_down(self) -> StateView {
        match self.mode {
            Mode::Bookmarks => StateView { bookmarks: self.bookmarks.moved_down(), ..self },
            Mode::Labels => StateView { labels: self.labels.moved_down(), ..self },
            Mode::Usage => self,
        }
    }

    /// The state with the cursor of the tab shown one entry further up.
    pub open spec fn cursor_up(self) -> StateView {
        match self.mode {
            Mode::Bookmarks => StateView { bookmarks: self.bookmarks.moved_up(), ..self },
            Mode::Labels => StateView { labels: self.labels.moved_up(), ..self },
            Mode::Usage => self,
        }
    }

    /// The filter mode when `c` is typed. With detection on and an empty
    /// filter text a digit leads to filtering by number, and another
    /// character leads from filtering by number back to names.
    pub open spec fn detected_mode(self, c: char) -> filters::Mode {
        if self.detect_filter_mode && self.filter.len() == 0 {
            if digit_value(c) is Some {
                filters::Mode::ID
            } else if self.filter_mode == filters::Mode::ID {
                filters::Mode::Name
            } else {
                self.filter_mode
            }
        } else {
            self.filter_mode
        }
    }

    /// Whether `c` is taken into the filter text under the filter mode
    /// `mode`: a number takes digits only and does not begin with `0`.
    pub open spec fn accepts(self, mode: filters::Mode, c: char) -> bool {
        match mode {
            filters::Mode::ID => match digit_value(c) {
                Some(digit) => self.filter.len() > 0 || digit > 0,
                None => false,
            },
            _ => true,
        }
    }

    /// The state after the character `c` was typed on a list, and whether
    /// the screen is to be drawn again.
    pub open spec fn typed(self, c: char) -> (StateView, bool) {
        let mode = self.detected_mode(c);
        let switched = StateView { filter_mode: mode, ..self };
        if self.accepts(mode, c) {
            (StateView { filter: self.filter.push(c), ..switched }.filter_applied(), true)
        } else {
            (switched, false)
        }
    }

    /// The state after the last character of the filter text was erased.
    pub open spec fn erased(self) -> StateView {
        StateView {
            filter: if self.filter.len() > 0 {
                self.filter.drop_last()
            } else {
                self.filter
            },
            ..self
        }.filter_applied()
    }

    /// What confirming the selection leads to. On the bookmark list the
    /// selected bookmark is resolved into its command; on the label list
    /// the bookmark list is opened, filtered by the selected label.
    /// `detail` is the text of the template engine's error, which goes into
    /// the message where a template cannot be rendered and plays no part
    /// otherwise.
    pub open spec fn confirmed(self, detail: Seq<char>) -> (StateView, bool, ActionView) {
        match self.mode {
            Mode::Bookmarks => match self.bookmarks.selected() {
                Some(bookmark) => match command_of(self.config, bookmark, self.default_submit) {
                    Ok(command) => (self, false, ActionView::WriteChars(command)),
                    Err(failure) => (
                        self.with_error(command_failure_prefix() + failure.message(detail)),
                        true,
                        ActionView::Nothing,
                    ),
                },
                None => (self, true, ActionView::Nothing),
            },
            Mode::Labels => (
                StateView {
                    filter_mode: filters::Mode::Label,
                    filter: match self.labels.selected() {
                        Some(label) => label.name,
                        None => Seq::empty(),
                    },
                    mode: Mode::Bookmarks,
                    view_desc: false,
                    ..self
                }.filter_applied(),
                true,
                ActionView::Nothing,
            ),
            Mode::Usage => (self, false, ActionView::Nothing),
        }
    }

    /// What a key press leads to that equals one of the configured
    /// bindings. Where it equals several, the first of edit, reload, filter
    /// by label, filter by number and describe counts.
    pub open spec fn bound(self, bindings: Bindings) -> (StateView, bool, ActionView) {
        if bindings.edit {
            (self, false, ActionView::OpenFile)
        } else if bindings.reload {
            (
                StateView { filter: Seq::empty(), ..self }.selection_reset(),
                true,
                ActionView::Reload,
            )
        } else if bindings.switch_filter_label {
            if self.mode == Mode::Bookmarks {
                (
                    StateView {
                        filter_mode: self.filter_mode.switched(filters::Mode::Label),
                        ..self
                    }.filter_applied(),
                    true,
                    ActionView::Nothing,
                )
            } else {
                (self, false, ActionView::Nothing)
            }
        } else if bindings.switch_filter_id {
            if self.mode == Mode::Usage {
                (self, false, ActionView::Nothing)
            } else {
                (
                    StateView {
                        filter_mode: self.filter_mode.switched(filters::Mode::ID),
                        ..self
                    }.filter_applied(),
                    true,
                    ActionView::Nothing,
                )
            }
        } else if bindings.describe {
            if self.mode == Mode::Bookmarks {
                (StateView { view_desc: !self.view_desc, ..self }, true, ActionView::Nothing)
            } else {
                (self, false, ActionView::Nothing)
            }
        } else {
            (self, false, ActionView::Nothing)
        }
    }

    /// What a character key leads to.
    pub open spec fn character(self, c: char, key: KeyPress) -> (StateView, bool, ActionView) {
        if c == 'c' && key.modifiers.ctrl {
            (self, false, ActionView::CloseFocus)
        } else if key.modifiers.ctrl && digit_value(c) is Some {
            match Mode::numbered(digit_value(c)->0 as int) {
                Some(mode) => if self.mode != mode {
                    (self.tab_switched(mode), true, ActionView::Nothing)
                } else {
                    (self, false, ActionView::Nothing)
                },
                None => (self, false, ActionView::Nothing),
            }
        } else if no_modifiers(key.modifiers) {
            if self.mode == Mode::Usage {
                (self, false, ActionView::Nothing)
            } else {
                (self.typed(c).0, self.typed(c).1, ActionView::Nothing)
            }
        } else {
            self.bound(key.bindings)
        }
    }

    /// The entries of the bookmark list as the screen shows them: each with
    /// its number and its name, or its description where those are shown.
    pub open spec fn bookmark_entries(self) -> Seq<(nat, Seq<char>)> {
        Seq::new(
            self.bookmarks.visible.len(),
            |i: int|
                (
                    self.bookmarks.visible[i].id,
                    if self.view_desc {
                        self.bookmarks.visible[i].desc
                    } else {
                        self.bookmarks.visible[i].name
                    },
                ),
        )
    }

    /// The entries of the label list as the screen shows them.
    pub open spec fn label_entries(self) -> Seq<(nat, Seq<char>)> {
        Seq::new(
            self.labels.visible.len(),
            |i: int| (self.labels.visible[i].id, self.labels.visible[i].name),
        )
    }

    /// The lines of the bookmark list on a panel of the given size.
    pub open spec fn bookmark_lines(self, rows: nat, cols: nat) -> Seq<LineView> {
        menu_lines(
            rows,
            cols,
            self.bookmarks.cursor,
            self.bookmarks.visible.len(),
            Mode::Bookmarks.label(),
            self.filter,
            self.filter_mode.label(),
            self.bookmark_entries(),
        )
    }

    /// The lines of the label list on a panel of the given size.
    pub open spec fn label_lines(self, rows: nat, cols: nat) -> Seq<LineView> {
        menu_lines(
            rows,
            cols,
            self.labels.cursor,
            self.labels.visible.len(),
            Mode::Labels.label(),
            self.filter,
            self.filter_mode.label(),
            self.label_entries(),
        )
    }

    /// What the screen shows: an error if there is one, else the tab.
    pub open spec fn content(self, rows: nat, cols: nat) -> ContentView {
        match self.crit_error_message {
            Some(message) => ContentView::Error(message),
            None => match self.error_message {
                Some(message) => ContentView::Error(message),
                None => match self.mode {
                    Mode::Bookmarks => ContentView::Menu(self.bookmark_lines(rows, cols)),
                    Mode::Labels => ContentView::Menu(self.label_lines(rows, cols)),
                    Mode::Usage => ContentView::Usage,
                },
            },
        }
    }

    /// The state after the screen was drawn: an error that is shown once is
    /// gone, unless an error that stays was shown in its place.
    pub open spec fn drawn(self) -> StateView {
        match self.crit_error_message {
            Some(message) => self,
            None => StateView { error_message: None, ..self },
        }
    }

    /// The state with an error to show once, if there is one.
    pub open spec fn with_optional_error(self, message: Option<Seq<char>>) -> StateView {
        match message {
            Some(text) => self.with_error(text),
            None => self,
        }
    }

    /// The state with the switch `exec` of the configuration taken up.
    pub open spec fn submit_configured(self, value: Option<Seq<char>>) -> StateView {
        let (flag, error) = flag_outcome("exec"@, value, false, self.default_submit);
        StateView { default_submit: flag, ..self }.with_optional_error(error)
    }

    /// The state with the switch `ignore_case` taken up.
    pub open spec fn case_configured(self, value: Option<Seq<char>>) -> StateView {
        let (flag, error) = flag_outcome("ignore_case"@, value, true, self.ignore_case);
        StateView { ignore_case: flag, ..self }.with_optional_error(error)
    }

    /// The state with the switch `autodetect_filter_mode` taken up.
    pub open spec fn detection_configured(self, value: Option<Seq<char>>) -> StateView {
        let (flag, error) = flag_outcome(
            "autodetect_filter_mode"@,
            value,
            true,
            self.detect_filter_mode,
        );
        StateView { detect_filter_mode: flag, ..self }.with_optional_error(error)
    }

    /// The state with `filename` taken up: an empty name changes nothing.
    pub open spec fn filename_configured(self, value: Option<Seq<char>>) -> StateView {
        match value {
            Some(name) => if name.len() > 0 {
                StateView { filename: name, ..self }
            } else {
                self
            },
            None => self,
        }
    }

    /// The state with the configuration of the host taken up: the three
    /// switches, in the order `exec`, `ignore_case`,
    /// `autodetect_filter_mode`, and the name of the configuration file.
    /// Where several switches are wrong, the error of the last one stays.
    pub open spec fn configured(self, configuration: Map<Seq<char>, Seq<char>>) -> StateView {
        self.submit_configured(option_of(configuration, "exec"@)).case_configured(
            option_of(configuration, "ignore_case"@),
        ).detection_configured(
            option_of(configuration, "autodetect_filter_mode"@),
        ).filename_configured(option_of(configuration, "filename"@))
    }

    /// Whether the key press confirms a bookmark whose resolution fails on
    /// a template.
    pub open spec fn fails_on_rendering(self, key: KeyPress) -> bool {
        &&& key.bare_key == BareKey::Enter
        &&& self.mode == Mode::Bookmarks
        &&& self.bookmarks.selected() matches Some(bookmark)
        &&& command_of(self.config, bookmark, self.default_submit) == Err::<Seq<char>, Failure>(
            Failure::TemplateRenderError,
        )
    }

    /// The key press leads from this state to the state `after`, with the
    /// given answer: they are what `step` gives for some text of the
    /// engine's error.
    pub open spec fn leads_to(
        self,
        key: KeyPress,
        after: StateView,
        should_render: bool,
        action: ActionView,
    ) -> bool {
        exists|detail: Seq<char>| #[trigger] self.step(key, detail) == (after, should_render, action)
    }

    /// What a key press leads to: the next state, whether the screen is to
    /// be drawn again, and what the host is to do. `detail` is the text of
    /// the template engine's error; it goes into the error message where
    /// confirming a bookmark fails on a template, and plays no part
    /// otherwise.
    pub open spec fn step(self, key: KeyPress, detail: Seq<char>) -> (StateView, bool, ActionView) {
        match key.bare_key {
            BareKey::Esc => (self, false, ActionView::CloseFocus),
            BareKey::Down | BareKey::Tab => if self.mode == Mode::Usage {
                (self, false, ActionView::Nothing)
            } else {
                (self.cursor_down(), true, ActionView::Nothing)
            },
            BareKey::Up => if self.mode == Mode::Usage {
                (self, false, ActionView::Nothing)
            } else {
                (self.cursor_up(), true, ActionView::Nothing)
            },
            BareKey::Right => (self.tab_switched(self.mode.following()), true, ActionView::Nothing),
            BareKey::Left => (self.tab_switched(self.mode.preceding()), true, ActionView::Nothing),
            BareKey::Char(c) => self.character(c, key),
            BareKey::Backspace => if self.mode == Mode::Usage {
                (self, false, ActionView::Nothing)
            } else {
                (self.erased(), true, ActionView::Nothing)
            },
            BareKey::Enter => self.confirmed(detail),
            BareKey::Other => self.bound(key.bindings),
        }
    }
}

/// The lists of the picker are well formed when it starts and after a
/// catalog was loaded.
pub proof fn lemma_new_lists_are_well_formed(state: StateView, config: ConfigView)
    ensures
        StateView::initial().well_formed(),
        state.loaded(config).well_formed(),
{
    let none = |b: BookmarkView| true;
    let no_label = |l: LabelView| true;
    lemma_lists_stay_well_formed(StateView::initial().bookmarks, none);
    lemma_lists_stay_well_formed(StateView::initial().labels, no_label);
    lemma_lists_stay_well_formed(state.loaded(config).bookmarks, none);
    lemma_lists_stay_well_formed(state.loaded(config).labels, no_label);
}

/// Applying the filter keeps the lists well formed.
pub proof fn lemma_filter_keeps_lists_well_formed(state: StateView)
    requires
        state.well_formed(),
    ensures
        state.filter_applied().well_formed(),
{
    lemma_lists_stay_well_formed(
        state.bookmarks,
        |b: BookmarkView| keeps_bookmark(state.filter_mode, state.filter, state.ignore_case, b),
    );
    lemma_lists_stay_well_formed(
        state.labels,
        |l: LabelView| keeps_label(state.filter_mode, state.filter, state.ignore_case, l),
    );
}

proof fn lemma_moves_keep_lists_well_formed(state: StateView)
    requires
        state.well_formed(),
    ensures
        state.cursor_down().well_formed(),
        state.cursor_up().well_formed(),
        state.selection_reset().well_formed(),
{
    lemma_lists_stay_well_formed(state.bookmarks, |b: BookmarkView| true);
    lemma_lists_stay_well_formed(state.labels, |l: LabelView| true);
}

proof fn lemma_tab_switch_keeps_lists_well_formed(state: StateView, mode: Mode)
    requires
        state.well_formed(),
    ensures
        state.tab_switched(mode).well_formed(),
{
    lemma_filter_keeps_lists_well_formed(
        StateView { mode: mode, filter_mode: filters::Mode::Name, ..state },
    );
}

proof fn lemma_typing_keeps_lists_well_formed(state: StateView, c: char)
    requires
        state.well_formed(),
    ensures
        state.typed(c).0.well_formed(),
        state.erased().well_formed(),
{
    let mode = state.detected_mode(c);
    let switched = StateView { filter_mode: mode, ..state };
    lemma_filter_keeps_lists_well_formed(StateView { filter: state.filter.push(c), ..switched });
    lemma_filter_keeps_lists_well_formed(
        StateView {
            filter: if state.filter.len() > 0 {
                state.filter.drop_last()
            } else {
                state.filter
            },
            ..state
        },
    );
}

proof fn lemma_confirming_keeps_lists_well_formed(state: StateView, detail: Seq<char>)
    requires
        state.well_formed(),
    ensures
        state.confirmed(detail).0.well_formed(),
{
    lemma_filter_keeps_lists_well_formed(
        StateView {
            filter_mode: filters::Mode::Label,
            filter: match state.labels.selected() {
                Some(label) => label.name,
                None => Seq::empty(),
            },
            mode: Mode::Bookmarks,
            view_desc: false,
            ..state
        },
    );
}

proof fn lemma_bindings_keep_lists_well_formed(state: StateView, bindings: Bindings)
    requires
        state.well_formed(),
    ensures
        state.bound(bindings).0.well_formed(),
{
    lemma_moves_keep_lists_well_formed(StateView { filter: Seq::empty(), ..state });
    lemma_filter_keeps_lists_well_formed(
        StateView { filter_mode: state.filter_mode.switched(filters::Mode::Label), ..state },
    );
    lemma_filter_keeps_lists_well_formed(
        StateView { filter_mode: state.filter_mode.switched(filters::Mode::ID), ..state },
    );
}

proof fn lemma_characters_keep_lists_well_formed(state: StateView, c: char, key: KeyPress)
    requires
        state.well_formed(),
    ensures
        state.character(c, key).0.well_formed(),
{
    lemma_typing_keeps_lists_well_formed(state, c);
    lemma_bindings_keep_lists_well_formed(state, key.bindings);
    if digit_value(c) is Some {
        match Mode::numbered(digit_value(c)->0 as int) {
            Some(mode) => {
                lemma_tab_switch_keeps_lists_well_formed(state, mode);
            },
            None => {},
        }
    }
}

/// No key press breaks the lists: where they are well formed before it,
/// they are well formed after it.
pub proof fn lemma_step_keeps_lists_well_formed(
    state: StateView,
    key: KeyPress,
    detail: Seq<char>,
)
    requires
        state.well_formed(),
    ensures
        state.step(key, detail).0.well_formed(),
{
    match key.bare_key {
        BareKey::Esc => {},
        BareKey::Down | BareKey::Tab | BareKey::Up => {
            lemma_moves_keep_lists_well_formed(state);
        },
        BareKey::Right => {
            lemma_tab_switch_keeps_lists_well_formed(state, state.mode.following());
        },
        BareKey::Left => {
            lemma_tab_switch_keeps_lists_well_formed(state, state.mode.preceding());
        },
        BareKey::Char(c) => {
            lemma_characters_keep_lists_well_formed(state, c, key);
        },
        BareKey::Backspace => {
            lemma_typing_keeps_lists_well_formed(state, 'a');
        },
        BareKey::Enter => {
            lemma_confirming_keeps_lists_well_formed(state, detail);
        },
        BareKey::Other => {
            lemma_bindings_keep_lists_well_formed(state, key.bindings);
        },
    }
}

/// The text of the engine's error plays a part in one case only: where a
/// bookmark is confirmed and a template of it cannot be rendered. There it
/// ends the error message; everywhere else the key press alone decides.
pub proof fn lemma_detail_counts_for_rendering_failures_only(
    state: StateView,
    key: KeyPress,
    detail: Seq<char>,
    other: Seq<char>,
)
    ensures
        !state.fails_on_rendering(key) ==> state.step(key, detail) == state.step(key, other),
        state.fails_on_rendering(key) ==> state.step(key, detail) == (
            state.with_error(
                command_failure_prefix() + Failure::TemplateRenderError.message(detail),
            ),
            true,
            ActionView::Nothing,
        ),
{
}

/// A change of the filter text or of the tab puts the cursor of the list
/// shown at the top.
pub proof fn lemma_filter_changes_reset_the_cursor(state: StateView, c: char, mode: Mode)
    ensures
        state.mode == Mode::Bookmarks ==> state.filter_applied().bookmarks.cursor == 0,
        state.mode == Mode::Labels ==> state.filter_applied().labels.cursor == 0,
        state.mode == Mode::Bookmarks && state.typed(c).1 ==> state.typed(c).0.bookmarks.cursor
            == 0,
        state.mode == Mode::Labels && state.typed(c).1 ==> state.typed(c).0.labels.cursor == 0,
        state.mode == Mode::Bookmarks ==> state.erased().bookmarks.cursor == 0,
        state.mode == Mode::Labels ==> state.erased().labels.cursor == 0,
        mode == Mode::Bookmarks ==> state.tab_switched(mode).bookmarks.cursor == 0,
        mode == Mode::Labels ==> state.tab_switched(mode).labels.cursor == 0,
{
}

/// The value of a decimal digit, for the characters `0` to `9`.
pub fn to_digit(c: char) -> (digit: Option<u32>)
    ensures
        match digit {
            Some(value) => digit_value(c) == Some(value as nat),
            None => digit_value(c) is None,
        },
{
    let code: u32 = c as u32;
    if 48 <= code && code <= 57 {
        Some(code - 48)
    } else {
        None
    }
}

/// An optional text, as mathematical values.
pub open spec fn optional_view(text: Option<&String>) -> Option<Seq<char>> {
    match text {
        Some(t) => Some(t@),
        None => None,
    }
}

/// Reads a switch of the configuration: its value and the error to show,
/// if any.
pub fn parse_flag(name: &str, value: Option<&String>, fallback: bool, current: bool) -> (r: (
    bool,
    Option<String>,
))
    ensures
        (r.0, text_view(r.1)) == flag_outcome(name@, optional_view(value), fallback, current),
{
    match value {
        None => (current, None),
        Some(text) => {
            let word = trim(text.as_str());
            if same_text(word, "true") {
                (true, None)
            } else if same_text(word, "false") {
                (false, None)
            } else {
                let mut message = "'".to_string();
                message.append(name);
                message.append("' config value must be 'true' or 'false', but it's '");
                message.append(text.as_str());
                message.append("'. The ");
                if fallback {
                    message.append("true");
                } else {
                    message.append("false");
                }
                message.append(" is used.");
                (fallback, Some(message))
            }
        },
    }
}

impl Default for State {
    fn default() -> (state: State)
        ensures
            state@ == StateView::initial(),
    {
        State::new()
    }
}

impl State {
    /// The state when the picker starts.
    pub fn new() -> (state: State)
        ensures
            state@ == StateView::initial(),
    {
        let state = State {
            mode: Mode::Bookmarks,
            default_submit: false,
            ignore_case: true,
            detect_filter_mode: true,
            filename: ".zellij_bookmarks.yaml".to_string(),
            filter_mode: filters::Mode::Name,
            filter: String::new(),
            bookmarks_mgr: TabManager::default(),
            labels_mgr: TabManager::default(),
            config: Config::new(),
            view_desc: false,
            crit_error_message: None,
            error_message: None,
        };
        proof {
            assert(state@.bookmarks.visible =~= Seq::empty());
            assert(state@.labels.visible =~= Seq::empty());
            assert(state@.config.bookmarks =~= Seq::empty());
        }
        state
    }

    /// The filter over bookmarks that the state asks for.
    pub fn bookmark_filter(&self) -> (filter: BookmarkFilter)
        ensures
            filter.mode() == self.filter_mode,
            filter.text() == self.filter@,
            filter.ignores_case() == self.ignore_case,
    {
        BookmarkFilter::new(self.filter_mode, self.filter.clone(), self.ignore_case)
    }

    /// The filter over labels that the state asks for.
    pub fn label_filter(&self) -> (filter: LabelFilter)
        ensures
            filter.mode() == self.filter_mode,
            filter.text() == self.filter@,
            filter.ignores_case() == self.ignore_case,
    {
        LabelFilter::new(self.filter_mode, self.filter.clone(), self.ignore_case)
    }

    /// Applies the filter to the list of the tab shown.
    pub fn set_filter(&mut self)
        ensures
            final(self)@ == old(self)@.filter_applied(),
    {
        match self.mode {
            Mode::Bookmarks => {
                let filter = self.bookmark_filter();
                let ghost before = self.bookmarks_mgr@;
                self.bookmarks_mgr.with_filter(&filter);
                proof {
                    let kept = |t: Bookmark| filter.keeps(&t);
                    let kept_view = |b: BookmarkView|
                        keeps_bookmark(self.filter_mode, self.filter@, self.ignore_case, b);
                    let view = |t: Bookmark| t@;
                    lemma_filter_commutes(before.catalog, view, kept, kept_view);
                    assert(bookmark_views(before.catalog) =~= before.catalog.map_values(view));
                    assert(bookmark_views(before.catalog.filter(kept)) =~= before.catalog.filter(
                        kept,
                    ).map_values(view));
                }
            },
            Mode::Labels => {
                let filter = self.label_filter();
                let ghost before = self.labels_mgr@;
                self.labels_mgr.with_filter(&filter);
                proof {
                    let kept = |t: Label| filter.keeps(&t);
                    let kept_view = |l: LabelView|
                        keeps_label(self.filter_mode, self.filter@, self.ignore_case, l);
                    let view = |t: Label| t@;
                    lemma_filter_commutes(before.catalog, view, kept, kept_view);
                    assert(label_views(before.catalog) =~= before.catalog.map_values(view));
                    assert(label_views(before.catalog.filter(kept)) =~= before.catalog.filter(
                        kept,
                    ).map_values(view));
                }
            },
            Mode::Usage => {},
        }
    }

    /// Moves both cursors to the top.
    pub fn reset_selection(&mut self)
        ensures
            final(self)@ == old(self)@.selection_reset(),
    {
        self.bookmarks_mgr.reset_selection();
        self.labels_mgr.reset_selection();
    }

    /// Takes up a catalog that was loaded: the label list is drawn from the
    /// bookmarks, and both lists start anew.
    pub fn load_config(&mut self, config: Config)
        ensures
            final(self)@ == old(self)@.loaded(config@),
    {
        let labels = collect_labels(&config.bookmarks);
        let bookmarks = clone_bookmarks(&config.bookmarks);
        self.labels_mgr = TabManager::new(labels);
        self.bookmarks_mgr = TabManager::new(bookmarks);
        self.config = config;
    }

    /// Keeps an error to be shown once.
    pub fn handle_error(&mut self, error_message: String)
        ensures
            final(self)@ == old(self)@.with_error(error_message@),
    {
        self.error_message = Some(error_message);
    }

    /// Keeps an error that stays on the screen.
    pub fn handle_crit_error(&mut self, error_message: String)
        ensures
            final(self)@ == old(self)@.with_crit_error(error_message@),
    {
        self.crit_error_message = Some(error_message);
    }

    /// The error to show, if there is one. An error that stays wins over an
    /// error that is shown once; the latter is gone after this call.
    pub fn render_errors(&mut self) -> (shown: Option<String>)
        ensures
            text_view(shown) == match old(self)@.crit_error_message {
                Some(message) => Some(message),
                None => old(self)@.error_message,
            },
            final(self)@ == match old(self)@.crit_error_message {
                Some(message) => old(self)@,
                None => StateView { error_message: None, ..old(self)@ },
            },
    {
        match &self.crit_error_message {
            Some(message) => {
                return Some(message.clone());
            },
            None => {},
        }
        self.error_message.take()
    }

    /// The command that selecting `bookmark` gives.
    pub fn gen_command(&self, bookmark: &Bookmark) -> (r: Result<String, ResolutionError>)
        ensures
            outcome_view(r) == command_of(self@.config, bookmark@, self.default_submit),
    {
        self.config.gen_command(bookmark, self.default_submit)
    }

    /// The lines of the bookmark list on a panel of the given size.
    pub fn render_bookmarks(&self, rows: usize, cols: usize) -> (lines: Vec<Line>)
        ensures
            line_views(lines@) == self@.bookmark_lines(rows as nat, cols as nat),
    {
        let listed = self.bookmarks_mgr.iter();
        let mut entries: Vec<(usize, String)> = Vec::new();
        let mut i: usize = 0;
        while i < listed.len()
            invariant
                i <= listed@.len(),
                listed@.len() == self.bookmarks_mgr@.visible.len(),
                forall|k: int|
                    0 <= k < listed@.len() ==> *(#[trigger] listed@[k]).1
                        == self.bookmarks_mgr@.visible[k],
                entries@.len() == i,
                forall|k: int|
                    0 <= k < i ==> (#[trigger] entries@[k]).0 == self.bookmarks_mgr@.visible[k].id
                        && entries@[k].1@ == if self.view_desc {
                        self.bookmarks_mgr@.visible[k].desc@
                    } else {
                        self.bookmarks_mgr@.visible[k].name@
                    },
            decreases listed@.len() - i,
        {
            let bookmark = listed[i].1;
            let text = if self.view_desc {
                bookmark.desc.clone()
            } else {
                bookmark.name.clone()
            };
            entries.push((bookmark.id, text));
            i += 1;
        }
        let mode = Mode::Bookmarks.to_string();
        let filter_by = self.filter_mode.to_string();
        render_main_menu(
            rows,
            cols,
            self.bookmarks_mgr.get_position(),
            self.bookmarks_mgr.len(),
            mode.as_str(),
            self.filter.as_str(),
            filter_by.as_str(),
            &entries,
        )
    }

    /// The lines of the label list on a panel of the given size.
    pub fn render_labels(&self, rows: usize, cols: usize) -> (lines: Vec<Line>)
        ensures
            line_views(lines@) == self@.label_lines(rows as nat, cols as nat),
    {
        let listed = self.labels_mgr.iter();
        let mut entries: Vec<(usize, String)> = Vec::new();
        let mut i: usize = 0;
        while i < listed.len()
            invariant
                i <= listed@.len(),
                listed@.len() == self.labels_mgr@.visible.len(),
                forall|k: int|
                    0 <= k < listed@.len() ==> *(#[trigger] listed@[k]).1
                        == self.labels_mgr@.visible[k],
                entries@.len() == i,
                forall|k: int|
                    0 <= k < i ==> (#[trigger] entries@[k]).0 == self.labels_mgr@.visible[k].id
                        && entries@[k].1@ == self.labels_mgr@.visible[k].name@,
            decreases listed@.len() - i,
        {
            let label = listed[i].1;
            entries.push((label.id, label.name.clone()));
            i += 1;
        }
        let mode = Mode::Labels.to_string();
        let filter_by = self.filter_mode.to_string();
        render_main_menu(
            rows,
            cols,
            self.labels_mgr.get_position(),
            self.labels_mgr.len(),
            mode.as_str(),
            self.filter.as_str(),
            filter_by.as_str(),
            &entries,
        )
    }

    /// What is to be drawn on a panel of the given size. An error that is
    /// shown once is gone afterwards.
    pub fn render(&mut self, rows: usize, cols: usize) -> (screen: Screen)
        ensures
            screen.too_small == too_small(rows as nat, cols as nat),
            screen.content@ == old(self)@.content(rows as nat, cols as nat),
            final(self)@ == old(self)@.drawn(),
    {
        let small = panel_too_small(rows, cols);
        match self.render_errors() {
            Some(message) => {
                return Screen { too_small: small, content: Content::Error(message) };
            },
            None => {},
        }
        let content = match self.mode {
            Mode::Bookmarks => Content::Menu(self.render_bookmarks(rows, cols)),
            Mode::Labels => Content::Menu(self.render_labels(rows, cols)),
            Mode::Usage => Content::Usage,
        };
        Screen { too_small: small, content }
    }

    fn keep_optional_error(&mut self, message: Option<String>)
        ensures
            final(self)@ == old(self)@.with_optional_error(text_view(message)),
    {
        match message {
            Some(text) => {
                self.handle_error(text);
            },
            None => {},
        }
    }

    fn configure_submit(&mut self, value: Option<&String>)
        ensures
            final(self)@ == old(self)@.submit_configured(optional_view(value)),
    {
        let (flag, error) = parse_flag("exec", value, false, self.default_submit);
        self.default_submit = flag;
        self.keep_optional_error(error);
    }

    fn configure_case(&mut self, value: Option<&String>)
        ensures
            final(self)@ == old(self)@.case_configured(optional_view(value)),
    {
        let (flag, error) = parse_flag("ignore_case", value, true, self.ignore_case);
        self.ignore_case = flag;
        self.keep_optional_error(error);
    }

    fn configure_detection(&mut self, value: Option<&String>)
        ensures
            final(self)@ == old(self)@.detection_configured(optional_view(value)),
    {
        let (flag, error) = parse_flag(
            "autodetect_filter_mode",
            value,
            true,
            self.detect_filter_mode,
        );
        self.detect_filter_mode = flag;
        self.keep_optional_error(error);
    }

    fn configure_filename(&mut self, value: Option<&String>)
        ensures
            final(self)@ == old(self)@.filename_configured(optional_view(value)),
    {
        match value {
            Some(name) => {
                if !name.as_str().is_empty() {
                    self.filename = name.clone();
                }
            },
            None => {},
        }
    }

    /// Takes up the configuration of the host: the switches `exec`,
    /// `ignore_case` and `autodetect_filter_mode`, and `filename`.
    pub fn load(&mut self, configuration: &VarMap)
        ensures
            final(self)@ == old(self)@.configured(configuration@),
    {
        self.configure_submit(configuration.get("exec"));
        self.configure_case(configuration.get("ignore_case"));
        self.configure_detection(configuration.get("autodetect_filter_mode"));
        self.configure_filename(configuration.get("filename"));
    }

    /// The command of the bookmark under the cursor, if the bookmark list
    /// has one.
    pub fn resolve_selected(&self) -> (r: Option<Result<String, ResolutionError>>)
        ensures
            match r {
                Some(outcome) => self@.bookmarks.selected() matches Some(bookmark)
                    && outcome_view(outcome) == command_of(
                    self@.config,
                    bookmark,
                    self.default_submit,
                ),
                None => self@.bookmarks.selected() is None,
            },
    {
        match self.bookmarks_mgr.get_selected() {
            Some(bookmark) => Some(self.gen_command(bookmark)),
            None => None,
        }
    }

    fn type_char(&mut self, c: char) -> (should_render: bool)
        ensures
            (final(self)@, should_render) == old(self)@.typed(c),
    {
        let digit = to_digit(c);
        if self.detect_filter_mode && self.filter.as_str().is_empty() {
            if digit.is_some() {
                self.filter_mode = filters::Mode::ID;
            } else if self.filter_mode == filters::Mode::ID {
                self.filter_mode = filters::Mode::Name;
            }
        }
        let accepted: bool = match self.filter_mode {
            filters::Mode::ID => match digit {
                Some(value) => !self.filter.as_str().is_empty() || value > 0,
                None => false,
            },
            _ => true,
        };
        if accepted {
            self.filter.push(c);
            self.set_filter();
        }
        accepted
    }

    fn confirm(&mut self) -> (r: (Update, Ghost<Seq<char>>))
        ensures
            (final(self)@, r.0.should_render, r.0.action@) == old(self)@.confirmed(r.1@),
    {
        let mut detail: Ghost<Seq<char>> = Ghost(Seq::empty());
        let update = match self.mode {
            Mode::Bookmarks => {
                match self.resolve_selected() {
                    Some(Ok(command)) => Update {
                        should_render: false,
                        action: Action::WriteChars(command),
                    },
                    Some(Err(e)) => {
                        let mut message = "Failed to generate command: ".to_string();
                        let failure = e.message();
                        message.append(failure.as_str());
                        proof {
                            detail@ = e.detail();
                        }
                        self.handle_error(message);
                        Update { should_render: true, action: Action::Nothing }
                    },
                    None => Update { should_render: true, action: Action::Nothing },
                }
            },
            Mode::Labels => {
                self.filter_mode = filters::Mode::Label;
                self.filter = match self.labels_mgr.get_selected() {
                    Some(label) => label.name.clone(),
                    None => String::new(),
                };
                self.mode = Mode::Bookmarks;
                self.view_desc = false;
                self.set_filter();
                Update { should_render: true, action: Action::Nothing }
            },
            Mode::Usage => Update { should_render: false, action: Action::Nothing },
        };
        (update, detail)
    }

    fn switch_tab(&mut self, mode: Mode)
        ensures
            final(self)@ == old(self)@.tab_switched(mode),
    {
        self.mode = mode;
        self.filter_mode = filters::Mode::Name;
        self.set_filter();
    }

    fn bound_key(&mut self, bindings: Bindings) -> (update: Update)
        ensures
            (final(self)@, update.should_render, update.action@) == old(self)@.bound(bindings),
    {
        if bindings.edit {
            Update { should_render: false, action: Action::OpenFile }
        } else if bindings.reload {
            self.filter = String::new();
            self.reset_selection();
            Update { should_render: true, action: Action::Reload }
        } else if bindings.switch_filter_label {
            if self.mode == Mode::Bookmarks {
                self.filter_mode = self.filter_mode.switch_to(filters::Mode::Label);
                self.set_filter();
                Update { should_render: true, action: Action::Nothing }
            } else {
                Update { should_render: false, action: Action::Nothing }
            }
        } else if bindings.switch_filter_id {
            if self.mode == Mode::Usage {
                Update { should_render: false, action: Action::Nothing }
            } else {
                self.filter_mode = self.filter_mode.switch_to(filters::Mode::ID);
                self.set_filter();
                Update { should_render: true, action: Action::Nothing }
            }
        } else if bindings.describe {
            if self.mode == Mode::Bookmarks {
                self.view_desc = !self.view_desc;
                Update { should_render: true, action: Action::Nothing }
            } else {
                Update { should_render: false, action: Action::Nothing }
            }
        } else {
            Update { should_render: false, action: Action::Nothing }
        }
    }

    fn character_key(&mut self, c: char, key: &KeyPress) -> (update: Update)
        ensures
            (final(self)@, update.should_render, update.action@) == old(self)@.character(c, *key),
    {
        let digit = to_digit(c);
        if c == 'c' && key.modifiers.ctrl {
            Update { should_render: false, action: Action::CloseFocus }
        } else if key.modifiers.ctrl && digit.is_some() {
            let mut should_render = false;
            match digit {
                Some(value) => match Mode::try_from(value) {
                    Some(mode) => {
                        if self.mode != mode {
                            self.switch_tab(mode);
                            should_render = true;
                        }
                    },
                    None => {},
                },
                None => {},
            }
            Update { should_render, action: Action::Nothing }
        } else if !key.modifiers.ctrl && !key.modifiers.alt && !key.modifiers.shift
            && !key.modifiers.super_key {
            if self.mode == Mode::Usage {
                Update { should_render: false, action: Action::Nothing }
            } else {
                let should_render = self.type_char(c);
                Update { should_render, action: Action::Nothing }
            }
        } else {
            self.bound_key(key.bindings)
        }
    }

    /// Takes a key press: changes the state as `StateView::step` says and
    /// returns whether the screen is to be drawn again and what the host is
    /// to do. Where a template of the confirmed bookmark cannot be rendered,
    /// the error message ends with the text of the engine's error, which
    /// the engine alone decides.
    pub fn update(&mut self, key: &KeyPress) -> (update: Update)
        ensures
            old(self)@.leads_to(*key, final(self)@, update.should_render, update.action@),
    {
        let ghost before = self@;
        let mut detail: Ghost<Seq<char>> = Ghost(Seq::empty());
        let update = match key.bare_key {
            BareKey::Esc => Update { should_render: false, action: Action::CloseFocus },
            BareKey::Down | BareKey::Tab => match self.mode {
                Mode::Bookmarks => {
                    self.bookmarks_mgr.select_down();
                    Update { should_render: true, action: Action::Nothing }
                },
                Mode::Labels => {
                    self.labels_mgr.select_down();
                    Update { should_render: true, action: Action::Nothing }
                },
                Mode::Usage => Update { should_render: false, action: Action::Nothing },
            },
            BareKey::Up => match self.mode {
                Mode::Bookmarks => {
                    self.bookmarks_mgr.select_up();
                    Update { should_render: true, action: Action::Nothing }
                },
                Mode::Labels => {
                    self.labels_mgr.select_up();
                    Update { should_render: true, action: Action::Nothing }
                },
                Mode::Usage => Update { should_render: false, action: Action::Nothing },
            },
            BareKey::Right => {
                let mode = self.mode.next();
                self.switch_tab(mode);
                Update { should_render: true, action: Action::Nothing }
            },
            BareKey::Left => {
                let mode = self.mode.prev();
                self.switch_tab(mode);
                Update { should_render: true, action: Action::Nothing }
            },
            BareKey::Char(c) => self.character_key(c, key),
            BareKey::Backspace => match self.mode {
                Mode::Usage => Update { should_render: false, action: Action::Nothing },
                _ => {
                    self.filter.pop();
                    self.set_filter();
                    Update { should_render: true, action: Action::Nothing }
                },
            },
            BareKey::Enter => {
                let (update, text) = self.confirm();
                proof {
                    detail@ = text@;
                }
                update
            },
            BareKey::Other => self.bound_key(key.bindings),
        };
        proof {
            assert(before.step(*key, detail@) == (self@, update.should_render, update.action@));
        }
        update
    }
}

} // verus!
