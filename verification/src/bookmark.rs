//! The records of the catalog: bookmarks, the labels drawn from them, and the
//! configuration that holds the bookmarks with the global tables.

use crate::text::views_of;
use crate::vars::VarMap;
use vstd::prelude::*;

verus! {

/// A named command template.
pub struct Bookmark {
    /// Number of the bookmark, given when the catalog is loaded.
    pub id: usize,
    /// Name, the key of the bookmark in the catalog.
    pub name: String,
    /// Text shown in place of the name on request.
    pub desc: String,
    /// Command lines: templates and references to bookmarks and shared commands.
    pub cmds: Vec<String>,
    /// Labels under which the bookmark is found.
    pub labels: Vec<String>,
    /// Variables of the bookmark.
    pub vars: VarMap,
    /// Whether the command is sent with a closing line break; `None` leaves
    /// the choice to the caller.
    pub auto_submit: Option<bool>,
}

/// What a bookmark holds, as mathematical values.
pub struct BookmarkView {
    pub id: nat,
    pub name: Seq<char>,
    pub desc: Seq<char>,
    pub cmds: Seq<Seq<char>>,
    pub labels: Seq<Seq<char>>,
    pub vars: Map<Seq<char>, Seq<char>>,
    pub auto_submit: Option<bool>,
}

impl View for Bookmark {
    type V = BookmarkView;

    open spec fn view(&self) -> BookmarkView {
        BookmarkView {
            id: self.id as nat,
            name: self.name@,
            desc: self.desc@,
            cmds: views_of(self.cmds@),
            labels: views_of(self.labels@),
            vars: self.vars@,
            auto_submit: self.auto_submit,
        }
    }
}

/// A copy of a list of strings.
pub fn clone_strings(v: &Vec<String>) -> (r: Vec<String>)
    ensures
        views_of(r@) == views_of(v@),
{
    let mut r: Vec<String> = Vec::new();
    let mut i: usize = 0;
    while i < v.len()
        invariant
            i <= v.len(),
            r@.len() == i,
            forall|k: int| 0 <= k < i ==> r@[k]@ == v@[k]@,
        decreases v.len() - i,
    {
        r.push(v[i].clone());
        i += 1;
    }
    r
}

impl Clone for Bookmark {
    fn clone(&self) -> (r: Bookmark)
        ensures
            r@ == self@,
    {
        Bookmark {
            id: self.id,
            name: self.name.clone(),
            desc: self.desc.clone(),
            cmds: clone_strings(&self.cmds),
            labels: clone_strings(&self.labels),
            vars: self.vars.clone(),
            auto_submit: self.auto_submit,
        }
    }
}

/// A label, as the label list shows it.
pub struct Label {
    /// Number of the label, counted from 1 in the order of first appearance.
    pub id: usize,
    /// The label's text.
    pub name: String,
}

/// What a label holds, as mathematical values.
pub struct LabelView {
    pub id: nat,
    pub name: Seq<char>,
}

impl View for Label {
    type V = LabelView;

    open spec fn view(&self) -> LabelView {
        LabelView { id: self.id as nat, name: self.name@ }
    }
}

impl Label {
    /// The label with the given number and text.
    pub fn new(id: usize, name: String) -> (label: Label)
        ensures
            label.id == id,
            label.name == name,
    {
        Label { id, name }
    }
}

impl Clone for Label {
    fn clone(&self) -> (r: Label)
        ensures
            r@ == self@,
    {
        Label { id: self.id, name: self.name.clone() }
    }
}

/// The views of a sequence of bookmarks.
pub open spec fn bookmark_views(v: Seq<Bookmark>) -> Seq<BookmarkView> {
    Seq::new(v.len(), |i: int| v[i]@)
}

/// The views of a sequence of labels.
pub open spec fn label_views(v: Seq<Label>) -> Seq<LabelView> {
    Seq::new(v.len(), |i: int| v[i]@)
}

/// A copy of a list of bookmarks.
pub fn clone_bookmarks(v: &Vec<Bookmark>) -> (r: Vec<Bookmark>)
    ensures
        bookmark_views(r@) == bookmark_views(v@),
{
    let mut r: Vec<Bookmark> = Vec::new();
    let mut i: usize = 0;
    while i < v.len()
        invariant
            i <= v.len(),
            r@.len() == i,
            forall|k: int| 0 <= k < i ==> r@[k]@ == v@[k]@,
        decreases v.len() - i,
    {
        r.push(v[i].clone());
        i += 1;
    }
    r
}

/// The catalog with its global tables.
pub struct Config {
    /// Global variables.
    pub vars: VarMap,
    /// Shared commands, by key.
    pub cmds: VarMap,
    /// The bookmarks.
    pub bookmarks: Vec<Bookmark>,
}

impl Config {
    /// The configuration without bookmarks, variables or shared commands.
    pub fn new() -> (config: Config)
        ensures
            config.vars@ == Map::<Seq<char>, Seq<char>>::empty(),
            config.cmds@ == Map::<Seq<char>, Seq<char>>::empty(),
            config.bookmarks@.len() == 0,
    {
        Config { vars: VarMap::new(), cmds: VarMap::new(), bookmarks: Vec::new() }
    }
}

impl Clone for Config {
    fn clone(&self) -> (r: Config)
        ensures
            r.vars@ == self.vars@,
            r.cmds@ == self.cmds@,
            bookmark_views(r.bookmarks@) == bookmark_views(self.bookmarks@),
    {
        Config {
            vars: self.vars.clone(),
            cmds: self.cmds.clone(),
            bookmarks: clone_bookmarks(&self.bookmarks),
        }
    }
}

} // verus!
