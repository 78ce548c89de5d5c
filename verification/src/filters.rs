//! The filter predicate: which entries of a list a filter text keeps, by
//! name, by number or by label.

use crate::bookmark::{Bookmark, BookmarkView, Label, LabelView};
use crate::text::{
    contains, contains_text, decimal, decimal_text, lowercase, occurs_at, same_text, starts_with,
};
use vstd::prelude::*;

verus! {

/// What a filter decides about the entries of a list.
pub trait Filter<T> {
    /// Whether the filter keeps `t`.
    spec fn keeps(&self, t: &T) -> bool;

    /// Whether the filter keeps `t`.
    fn keep(&self, t: &T) -> (kept: bool)
        ensures
            kept == self.keeps(t),
    ;
}

/// What the filter text is matched against.
#[derive(PartialEq, Eq, Structural, Clone, Copy, Debug)]
pub enum Mode {
    /// The name of the entry.
    Name,
    /// The number of the entry.
    ID,
    /// The labels of a bookmark.
    Label,
}

impl Default for Mode {
    fn default() -> (mode: Mode)
        ensures
            mode == Mode::Name,
    {
        Mode::Name
    }
}

impl Mode {
    /// The mode that a request for `mode` leads to: `mode` itself, or back
    /// to `Name` when `mode` is already the current one.
    pub open spec fn switched(self, mode: Mode) -> Mode {
        if self == mode {
            Mode::Name
        } else {
            mode
        }
    }

    /// Switches to `mode`, or back to `Name` when `mode` is already the
    /// current mode.
    pub fn switch_to(&self, mode: Mode) -> (next: Mode)
        ensures
            next == self.switched(mode),
    {
        if *self == mode {
            Mode::Name
        } else {
            mode
        }
    }

    /// The name of the mode as the search line shows it.
    pub open spec fn label(self) -> Seq<char> {
        match self {
            Mode::Name => "Name"@,
            Mode::ID => "ID"@,
            Mode::Label => "Label"@,
        }
    }

    /// The name of the mode as the search line shows it.
    pub fn to_string(&self) -> (name: String)
        ensures
            name@ == self.label(),
    {
        match self {
            Mode::Name => "Name".to_string(),
            Mode::ID => "ID".to_string(),
            Mode::Label => "Label".to_string(),
        }
    }
}

/// Asking twice for the same mode, starting from `Name`, ends in `Name`.
pub proof fn lemma_switch_twice_from_default(mode: Mode)
    ensures
        Mode::Name.switched(mode).switched(mode) == Mode::Name,
{
}

/// Asking twice for the same mode ends in `Name`, unless the mode asked for
/// was the current one: then it is the current mode again.
pub proof fn lemma_switch_twice(current: Mode, mode: Mode)
    ensures
        current.switched(mode).switched(mode) == if current == mode {
            current
        } else {
            Mode::Name
        },
{
}

/// The text as it is compared: in lower case when case is ignored.
pub open spec fn normalized(s: Seq<char>, ignore_case: bool) -> Seq<char> {
    if ignore_case {
        lowercase(s)
    } else {
        s
    }
}

/// The filter text is empty or stands somewhere in the name.
pub open spec fn name_matches(filter: Seq<char>, name: Seq<char>, ignore_case: bool) -> bool {
    filter.len() == 0 || contains_text(
        normalized(name, ignore_case),
        normalized(filter, ignore_case),
    )
}

/// The decimal notation of the number begins with the filter text.
pub open spec fn id_matches(filter: Seq<char>, id: nat) -> bool {
    filter.is_prefix_of(decimal_text(id))
}

/// The filter text is empty or equals one of the labels.
pub open spec fn label_matches(
    filter: Seq<char>,
    labels: Seq<Seq<char>>,
    ignore_case: bool,
) -> bool {
    filter.len() == 0 || exists|i: int|
        0 <= i < labels.len() && normalized(#[trigger] labels[i], ignore_case) == normalized(
            filter,
            ignore_case,
        )
}

/// Whether a filter with the given mode and text keeps a bookmark: by
/// name, by number or by label, as the mode says.
pub open spec fn keeps_bookmark(
    mode: Mode,
    filter: Seq<char>,
    ignore_case: bool,
    bookmark: BookmarkView,
) -> bool {
    match mode {
        Mode::Name => name_matches(filter, bookmark.name, ignore_case),
        Mode::ID => id_matches(filter, bookmark.id),
        Mode::Label => label_matches(filter, bookmark.labels, ignore_case),
    }
}

/// Whether a filter with the given mode and text keeps a label: by number
/// in `ID` mode and by name in the two others.
pub open spec fn keeps_label(
    mode: Mode,
    filter: Seq<char>,
    ignore_case: bool,
    label: LabelView,
) -> bool {
    match mode {
        Mode::ID => id_matches(filter, label.id),
        _ => name_matches(filter, label.name, ignore_case),
    }
}

fn normalize(s: &str, ignore_case: bool) -> (r: String)
    ensures
        r@ == normalized(s@, ignore_case),
{
    if ignore_case {
        s.to_lowercase()
    } else {
        s.to_string()
    }
}

fn keep_name(filter: &str, name: &str, ignore_case: bool) -> (kept: bool)
    ensures
        kept == name_matches(filter@, name@, ignore_case),
{
    if filter.is_empty() {
        return true;
    }
    let f = normalize(filter, ignore_case);
    let n = normalize(name, ignore_case);
    contains(n.as_str(), f.as_str())
}

fn keep_id(filter: &str, id: usize) -> (kept: bool)
    ensures
        kept == id_matches(filter@, id as nat),
{
    let digits = decimal(id);
    starts_with(digits.as_str(), filter)
}

/// A filter over labels.
pub struct LabelFilter {
    mode: Mode,
    filter: String,
    ignore_case: bool,
}

impl LabelFilter {
    /// The filter with the given mode and text.
    pub fn new(mode: Mode, filter: String, ignore_case: bool) -> (f: LabelFilter)
        ensures
            f.mode() == mode,
            f.text() == filter@,
            f.ignores_case() == ignore_case,
    {
        LabelFilter { mode, filter, ignore_case }
    }

    /// The mode of the filter.
    pub closed spec fn mode(&self) -> Mode {
        self.mode
    }

    /// The filter text.
    pub closed spec fn text(&self) -> Seq<char> {
        self.filter@
    }

    /// Whether the filter ignores case.
    pub closed spec fn ignores_case(&self) -> bool {
        self.ignore_case
    }

    /// Whether the filter text is empty or stands somewhere in the label's
    /// name. Nothing but the name of the label is looked at.
    pub fn keep_by_name(&self, label: &Label) -> (kept: bool)
        ensures
            kept == name_matches(self.text(), label.name@, self.ignores_case()),
    {
        keep_name(self.filter.as_str(), label.name.as_str(), self.ignore_case)
    }

    /// Whether the decimal notation of the label's number begins with the
    /// filter text.
    pub fn keep_by_id(&self, label: &Label) -> (kept: bool)
        ensures
            kept == id_matches(self.text(), label.id as nat),
    {
        keep_id(self.filter.as_str(), label.id)
    }
}

impl Filter<Label> for LabelFilter {
    open spec fn keeps(&self, label: &Label) -> bool {
        keeps_label(self.mode(), self.text(), self.ignores_case(), label@)
    }

    fn keep(&self, label: &Label) -> (kept: bool) {
        match self.mode {
            Mode::ID => self.keep_by_id(label),
            _ => self.keep_by_name(label),
        }
    }
}

/// A filter over bookmarks.
pub struct BookmarkFilter {
    mode: Mode,
    filter: String,
    ignore_case: bool,
}

impl BookmarkFilter {
    /// The filter with the given mode and text.
    pub fn new(mode: Mode, filter: String, ignore_case: bool) -> (f: BookmarkFilter)
        ensures
            f.mode() == mode,
            f.text() == filter@,
            f.ignores_case() == ignore_case,
    {
        BookmarkFilter { mode, filter, ignore_case }
    }

    /// The mode of the filter.
    pub closed spec fn mode(&self) -> Mode {
        self.mode
    }

    /// The filter text.
    pub closed spec fn text(&self) -> Seq<char> {
        self.filter@
    }

    /// Whether the filter ignores case.
    pub closed spec fn ignores_case(&self) -> bool {
        self.ignore_case
    }

    /// Whether the filter text is empty or equals one of the bookmark's
    /// labels as a whole. Nothing but the labels of the bookmark is looked
    /// at.
    pub fn keep_by_label(&self, bookmark: &Bookmark) -> (kept: bool)
        ensures
            kept == label_matches(self.text(), bookmark@.labels, self.ignores_case()),
    {
        if self.filter.as_str().is_empty() {
            return true;
        }
        let filter = self.get_filter();
        let mut i: usize = 0;
        while i < bookmark.labels.len()
            invariant
                i <= bookmark.labels@.len(),
                filter@ == normalized(self.filter@, self.ignore_case),
                forall|k: int|
                    0 <= k < i ==> normalized(
                        #[trigger] bookmark@.labels[k],
                        self.ignore_case,
                    ) != filter@,
            decreases bookmark.labels@.len() - i,
        {
            let label = normalize(bookmark.labels[i].as_str(), self.ignore_case);
            assert(bookmark@.labels[i as int] == bookmark.labels@[i as int]@);
            if same_text(filter.as_str(), label.as_str()) {
                return true;
            }
            i += 1;
        }
        false
    }

    /// Whether the filter text is empty or stands somewhere in the
    /// bookmark's name. Nothing but the name of the bookmark is looked at.
    pub fn keep_by_name(&self, bookmark: &Bookmark) -> (kept: bool)
        ensures
            kept == name_matches(self.text(), bookmark.name@, self.ignores_case()),
    {
        keep_name(self.filter.as_str(), bookmark.name.as_str(), self.ignore_case)
    }

    /// Whether the decimal notation of the bookmark's number begins with
    /// the filter text.
    pub fn keep_by_id(&self, bookmark: &Bookmark) -> (kept: bool)
        ensures
            kept == id_matches(self.text(), bookmark.id as nat),
    {
        keep_id(self.filter.as_str(), bookmark.id)
    }

    /// The filter text as it is compared: in lower case where the filter
    /// ignores case.
    pub fn get_filter(&self) -> (filter: String)
        ensures
            filter@ == normalized(self.text(), self.ignores_case()),
    {
        normalize(self.filter.as_str(), self.ignore_case)
    }
}

impl Filter<Bookmark> for BookmarkFilter {
    open spec fn keeps(&self, bookmark: &Bookmark) -> bool {
        keeps_bookmark(self.mode(), self.text(), self.ignores_case(), bookmark@)
    }

    fn keep(&self, bookmark: &Bookmark) -> (kept: bool) {
        match self.mode {
            Mode::Name => self.keep_by_name(bookmark),
            Mode::ID => self.keep_by_id(bookmark),
            Mode::Label => self.keep_by_label(bookmark),
        }
    }
}

/// A filter with an empty text keeps every bookmark and every label, in
/// every mode.
pub proof fn lemma_empty_filter_keeps_everything(
    mode: Mode,
    ignore_case: bool,
    bookmark: BookmarkView,
    label: LabelView,
)
    ensures
        keeps_bookmark(mode, Seq::empty(), ignore_case, bookmark),
        keeps_label(mode, Seq::empty(), ignore_case, label),
{
}

/// In `Name` mode a bookmark is kept exactly when the filter text is empty
/// or stands somewhere in its name; in `Label` mode exactly when the filter
/// text is empty or is one of its labels as a whole. Case is set aside first
/// where the filter ignores it.
pub proof fn lemma_name_is_searched_and_label_is_compared(
    filter: Seq<char>,
    ignore_case: bool,
    bookmark: BookmarkView,
)
    ensures
        keeps_bookmark(Mode::Name, filter, ignore_case, bookmark) <==> filter.len() == 0
            || exists|i: int|
            occurs_at(normalized(filter, ignore_case), normalized(bookmark.name, ignore_case), i),
        keeps_bookmark(Mode::Label, filter, ignore_case, bookmark) <==> filter.len() == 0
            || exists|i: int|
            0 <= i < bookmark.labels.len() && normalized(#[trigger] bookmark.labels[i], ignore_case)
                == normalized(filter, ignore_case),
{
}

/// Where case is kept, matching by name is the search of the filter text in
/// the name and nothing else: a bookmark is kept exactly when the text
/// stands somewhere in its name. So it is kept when the name is the text,
/// and when the text stands at the beginning, in the middle or at the end of
/// the name; and two bookmarks of the same name are kept or dropped
/// together, whatever their numbers and labels.
pub proof fn lemma_name_mode_searches_the_name(
    filter: Seq<char>,
    bookmark: BookmarkView,
    other: BookmarkView,
    before: Seq<char>,
    after: Seq<char>,
)
    ensures
        keeps_bookmark(Mode::Name, filter, false, bookmark) <==> contains_text(
            bookmark.name,
            filter,
        ),
        bookmark.name == filter ==> keeps_bookmark(Mode::Name, filter, false, bookmark),
        bookmark.name == before + filter + after ==> keeps_bookmark(
            Mode::Name,
            filter,
            false,
            bookmark,
        ),
        other.name == bookmark.name ==> keeps_bookmark(Mode::Name, filter, false, other)
            == keeps_bookmark(Mode::Name, filter, false, bookmark),
{
    if filter.len() == 0 {
        assert(bookmark.name.subrange(0, 0) =~= filter);
        assert(occurs_at(filter, bookmark.name, 0));
    }
    if bookmark.name == filter {
        assert(bookmark.name.subrange(0, filter.len() as int) =~= filter);
        assert(occurs_at(filter, bookmark.name, 0));
    }
    if bookmark.name == before + filter + after {
        let at = before.len() as int;
        assert(bookmark.name.subrange(at, at + filter.len()) =~= filter);
        assert(occurs_at(filter, bookmark.name, at));
    }
}

/// What `keep` answers in `Name` mode with case kept: whether the filter
/// text stands somewhere in the name of the bookmark.
pub proof fn lemma_keep_in_name_mode(filter: BookmarkFilter, bookmark: Bookmark)
    requires
        filter.mode() == Mode::Name,
        !filter.ignores_case(),
    ensures
        filter.keeps(&bookmark) <==> contains_text(bookmark.name@, filter.text()),
{
    lemma_name_mode_searches_the_name(
        filter.text(),
        bookmark@,
        bookmark@,
        Seq::empty(),
        Seq::empty(),
    );
}

/// What `keep` answers in `Label` mode with case kept: whether the filter
/// text is empty or is one of the labels of the bookmark.
pub proof fn lemma_keep_in_label_mode(filter: BookmarkFilter, bookmark: Bookmark)
    requires
        filter.mode() == Mode::Label,
        !filter.ignores_case(),
    ensures
        filter.keeps(&bookmark) <==> filter.text().len() == 0 || bookmark@.labels.contains(
            filter.text(),
        ),
{
    if filter.text().len() > 0 {
        if bookmark@.labels.contains(filter.text()) {
            let i = choose|i: int|
                0 <= i < bookmark@.labels.len() && bookmark@.labels[i] == filter.text();
            assert(normalized(bookmark@.labels[i], false) == filter.text());
        }
    }
}

/// Where case is kept, a label is found by a filter text only if the two
/// are the same, while a name is found by any of its parts.
pub proof fn lemma_part_of_a_label_is_not_enough(
    filter: Seq<char>,
    bookmark: BookmarkView,
    from: int,
    to: int,
)
    requires
        0 <= from <= to <= bookmark.name.len(),
        filter == bookmark.name.subrange(from, to),
        filter.len() > 0,
        forall|i: int| 0 <= i < bookmark.labels.len() ==> bookmark.labels[i] != filter,
    ensures
        keeps_bookmark(Mode::Name, filter, false, bookmark),
        !keeps_bookmark(Mode::Label, filter, false, bookmark),
{
    assert(occurs_at(filter, bookmark.name, from));
}

/// A label is kept in `Label` mode as it is in `Name` mode.
pub proof fn lemma_label_mode_falls_back_to_the_name(
    filter: Seq<char>,
    ignore_case: bool,
    label: LabelView,
)
    ensures
        keeps_label(Mode::Label, filter, ignore_case, label) == keeps_label(
            Mode::Name,
            filter,
            ignore_case,
            label,
        ),
{
}

} // verus!
