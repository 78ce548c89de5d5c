//! Loading a catalog: the bookmarks are numbered, a catalog with a name that
//! occurs twice is refused, and the labels are drawn from the bookmarks.

use crate::bookmark::{bookmark_views, label_views, Bookmark, BookmarkView, Label, LabelView};
use crate::text::decimal;
use vstd::hash_set::StringHashSet;
use vstd::prelude::*;
use vstd::string::StringExecFns;

verus! {

/// Why a catalog was refused.
#[derive(PartialEq, Eq, Structural, Clone, Copy, Debug)]
pub enum LoadError {
    /// Some bookmarks have the name of an earlier bookmark; the number says
    /// how many.
    DuplicateBookmarkName(usize),
}

impl LoadError {
    /// The message shown for the error.
    pub open spec fn message_text(self) -> Seq<char> {
        match self {
            LoadError::DuplicateBookmarkName(count) => "Duplicate bookmarks names: "@
                + crate::text::decimal_text(count as nat),
        }
    }

    /// The message shown for the error.
    pub fn message(&self) -> (text: String)
        ensures
            text@ == self.message_text(),
    {
        match self {
            LoadError::DuplicateBookmarkName(count) => {
                let mut text = "Duplicate bookmarks names: ".to_string();
                let number = decimal(*count);
                text.append(number.as_str());
                text
            },
        }
    }
}

/// The names of the bookmarks, in order.
pub open spec fn names_of(bookmarks: Seq<BookmarkView>) -> Seq<Seq<char>> {
    Seq::new(bookmarks.len(), |i: int| bookmarks[i].name)
}

/// The number of entries that repeat an earlier entry.
pub open spec fn duplicates(names: Seq<Seq<char>>) -> nat
    decreases names.len(),
{
    if names.len() == 0 {
        0
    } else {
        duplicates(names.drop_last()) + if names.drop_last().contains(names.last()) {
            1nat
        } else {
            0nat
        }
    }
}

/// No more entries repeat an earlier one than there are entries.
pub proof fn lemma_duplicates_bounded(names: Seq<Seq<char>>)
    ensures
        duplicates(names) <= names.len(),
    decreases names.len(),
{
    if names.len() > 0 {
        lemma_duplicates_bounded(names.drop_last());
    }
}

/// No entry repeats an earlier one exactly when the entries are pairwise
/// different.
pub proof fn lemma_no_duplicates(names: Seq<Seq<char>>)
    ensures
        duplicates(names) == 0 <==> names.no_duplicates(),
    decreases names.len(),
{
    if names.len() > 0 {
        let front = names.drop_last();
        let last = names.len() - 1;
        lemma_no_duplicates(front);
        if names.no_duplicates() {
            if front.contains(names.last()) {
                let i = choose|i: int| 0 <= i < front.len() && front[i] == names.last();
                assert(names[i] == names[last]);
            }
        }
        if duplicates(names) == 0 {
            assert forall|i: int, j: int|
                0 <= i < names.len() && 0 <= j < names.len() && i != j implies names[i]
                != names[j] by {
                if i < last && j < last {
                    assert(front[i] == names[i] && front[j] == names[j]);
                } else if i == last {
                    assert(front[j] == names[j]);
                } else {
                    assert(front[i] == names[i]);
                }
            }
        }
    }
}

/// The bookmarks with their numbers: each gets the number of its place,
/// counted from 1.
pub open spec fn numbered(bookmarks: Seq<BookmarkView>) -> Seq<BookmarkView> {
    Seq::new(
        bookmarks.len(),
        |i: int|
            BookmarkView {
                id: (i + 1) as nat,
                name: bookmarks[i].name,
                desc: bookmarks[i].desc,
                cmds: bookmarks[i].cmds,
                labels: bookmarks[i].labels,
                vars: bookmarks[i].vars,
                auto_submit: bookmarks[i].auto_submit,
            },
    )
}

/// Numbers the bookmarks of a catalog by their place, from 1. Where a name
/// occurs twice the whole catalog is refused, with the number of bookmarks
/// that repeat an earlier name.
pub fn number_bookmarks(bookmarks: Vec<Bookmark>) -> (r: Result<Vec<Bookmark>, LoadError>)
    ensures
        r is Ok <==> names_of(bookmark_views(bookmarks@)).no_duplicates(),
        match r {
            Ok(catalog) => bookmark_views(catalog@) == numbered(bookmark_views(bookmarks@)),
            Err(LoadError::DuplicateBookmarkName(count)) => count > 0 && count == duplicates(
                names_of(bookmark_views(bookmarks@)),
            ),
        },
{
    let ghost input = bookmark_views(bookmarks@);
    let ghost names = names_of(input);
    let mut result: Vec<Bookmark> = Vec::new();
    let mut uniq = StringHashSet::new();
    let mut duplicate_count: usize = 0;
    let mut i: usize = 0;
    while i < bookmarks.len()
        invariant
            i <= bookmarks@.len(),
            input == bookmark_views(bookmarks@),
            names == names_of(input),
            duplicate_count == duplicates(names.take(i as int)),
            forall|name: Seq<char>| uniq@.contains(name) <==> names.take(i as int).contains(name),
            duplicate_count == 0 ==> result@.len() == i,
            duplicate_count == 0 ==> forall|k: int|
                0 <= k < i ==> (#[trigger] result@[k])@ == numbered(input)[k],
        decreases bookmarks@.len() - i,
    {
        let ghost seen = names.take(i as int);
        let ghost upto = names.take(i + 1);
        proof {
            assert(upto.drop_last() =~= seen);
            lemma_duplicates_bounded(seen);
        }
        let fresh = uniq.insert(bookmarks[i].name.clone());
        proof {
            assert forall|name: Seq<char>| uniq@.contains(name) <==> upto.contains(name) by {
                assert(upto[i as int] == bookmarks@[i as int].name@);
            }
        }
        if !fresh {
            duplicate_count += 1;
        } else if duplicate_count == 0 {
            let mut bookmark = bookmarks[i].clone();
            bookmark.id = i + 1;
            result.push(bookmark);
        }
        i += 1;
    }
    proof {
        assert(names.take(bookmarks@.len() as int) =~= names);
        lemma_no_duplicates(names);
    }
    if duplicate_count > 0 {
        return Err(LoadError::DuplicateBookmarkName(duplicate_count));
    }
    Ok(result)
}

/// The labels of all bookmarks, bookmark after bookmark.
pub open spec fn all_labels(bookmarks: Seq<BookmarkView>) -> Seq<Seq<char>>
    decreases bookmarks.len(),
{
    if bookmarks.len() == 0 {
        Seq::empty()
    } else {
        all_labels(bookmarks.drop_last()) + bookmarks.last().labels
    }
}

/// The entries without those that repeat an earlier entry.
pub open spec fn first_occurrences(entries: Seq<Seq<char>>) -> Seq<Seq<char>>
    decreases entries.len(),
{
    if entries.len() == 0 {
        Seq::empty()
    } else if entries.drop_last().contains(entries.last()) {
        first_occurrences(entries.drop_last())
    } else {
        first_occurrences(entries.drop_last()).push(entries.last())
    }
}

/// Among the first occurrences every entry occurs, and none twice.
pub proof fn lemma_first_occurrences(entries: Seq<Seq<char>>)
    ensures
        first_occurrences(entries).no_duplicates(),
        forall|entry: Seq<char>|
            first_occurrences(entries).contains(entry) <==> entries.contains(entry),
    decreases entries.len(),
{
    let firsts = first_occurrences(entries);
    if entries.len() > 0 {
        let front = entries.drop_last();
        let before = first_occurrences(front);
        let last = entries.last();
        lemma_first_occurrences(front);
        assert forall|entry: Seq<char>| firsts.contains(entry) <==> entries.contains(entry) by {
            if entries.contains(entry) {
                let i = choose|i: int| 0 <= i < entries.len() && entries[i] == entry;
                if i < front.len() {
                    assert(front[i] == entry);
                    assert(front.contains(entry));
                    let k = choose|k: int| 0 <= k < before.len() && before[k] == entry;
                    assert(firsts[k] == entry);
                } else if front.contains(last) {
                    let k = choose|k: int| 0 <= k < before.len() && before[k] == last;
                    assert(firsts[k] == entry);
                } else {
                    assert(firsts[firsts.len() - 1] == entry);
                }
            }
            if firsts.contains(entry) {
                let k = choose|k: int| 0 <= k < firsts.len() && firsts[k] == entry;
                if k < before.len() {
                    assert(front.contains(entry));
                }
            }
        }
    }
}

/// The labels with the given names, numbered from 1.
pub open spec fn labels_named(names: Seq<Seq<char>>) -> Seq<LabelView> {
    Seq::new(names.len(), |i: int| LabelView { id: (i + 1) as nat, name: names[i] })
}

/// The label list of a catalog: each label once, in the order in which the
/// labels first appear among the bookmarks, numbered from 1.
pub fn collect_labels(bookmarks: &Vec<Bookmark>) -> (labels: Vec<Label>)
    ensures
        label_views(labels@) == labels_named(
            first_occurrences(all_labels(bookmark_views(bookmarks@))),
        ),
{
    let ghost input = bookmark_views(bookmarks@);
    let mut set = StringHashSet::new();
    let mut names: Vec<String> = Vec::new();
    let mut i: usize = 0;
    while i < bookmarks.len()
        invariant
            i <= bookmarks@.len(),
            input == bookmark_views(bookmarks@),
            forall|name: Seq<char>|
                set@.contains(name) <==> all_labels(input.take(i as int)).contains(name),
            crate::text::views_of(names@) == first_occurrences(all_labels(input.take(i as int))),
        decreases bookmarks@.len() - i,
    {
        let ghost before = all_labels(input.take(i as int));
        let ghost own = bookmarks@[i as int]@.labels;
        proof {
            assert(input.take(i + 1).drop_last() =~= input.take(i as int));
        }
        let labels = &bookmarks[i].labels;
        let mut j: usize = 0;
        while j < labels.len()
            invariant
                j <= labels@.len(),
                own == crate::text::views_of(labels@),
                forall|name: Seq<char>|
                    set@.contains(name) <==> (before + own.take(j as int)).contains(name),
                crate::text::views_of(names@) == first_occurrences(before + own.take(j as int)),
            decreases labels@.len() - j,
        {
            let ghost sofar = before + own.take(j as int);
            let ghost next = before + own.take(j + 1);
            proof {
                assert(next.drop_last() =~= sofar);
            }
            if set.insert(labels[j].clone()) {
                names.push(labels[j].clone());
            }
            proof {
                assert forall|name: Seq<char>| set@.contains(name) <==> next.contains(name) by {
                    if next.contains(name) {
                        let k = choose|k: int| 0 <= k < next.len() && next[k] == name;
                        if k < sofar.len() {
                            assert(sofar[k] == name);
                        }
                    }
                    if sofar.contains(name) {
                        let k = choose|k: int| 0 <= k < sofar.len() && sofar[k] == name;
                        assert(next[k] == name);
                    }
                    assert(next[next.len() - 1] == labels@[j as int]@);
                }
            }
            j += 1;
        }
        proof {
            assert(own.take(labels@.len() as int) =~= own);
        }
        i += 1;
    }
    proof {
        assert(input.take(bookmarks@.len() as int) =~= input);
    }
    let ghost firsts = first_occurrences(all_labels(input));
    let mut labels: Vec<Label> = Vec::new();
    let mut k: usize = 0;
    while k < names.len()
        invariant
            k <= names@.len(),
            firsts == crate::text::views_of(names@),
            labels@.len() == k,
            forall|n: int| 0 <= n < k ==> (#[trigger] labels@[n])@ == labels_named(firsts)[n],
        decreases names@.len() - k,
    {
        labels.push(Label::new(k + 1, names[k].clone()));
        k += 1;
    }
    labels
}

} // verus!
