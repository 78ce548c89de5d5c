//! The list manager: a catalog, the part of it that the current filter
//! keeps, and a cursor into that part.

use crate::filters::Filter;
use vstd::prelude::*;

verus! {

/// The rows that are left for entries once the reserved rows are taken away.
pub open spec fn rows_left(total_rows: nat, reserved_rows: nat) -> nat {
    if total_rows >= reserved_rows {
        (total_rows - reserved_rows) as nat
    } else {
        0
    }
}

/// The part of a list that fits on the screen, with the number of entries
/// hidden on either side of it.
#[derive(PartialEq, Eq, Structural, Clone, Copy, Debug)]
pub struct Window {
    /// Position of the first entry shown.
    pub begin: usize,
    /// Position of the last entry shown. Where the list ends earlier, so
    /// does what is shown; `end + 1 == begin` says that nothing fits.
    pub end: usize,
    /// Number of entries above the window.
    pub hidden_above: usize,
    /// Number of entries below the window.
    pub hidden_below: usize,
}

/// A window, as mathematical values.
pub struct WindowView {
    pub begin: int,
    pub end: int,
    pub hidden_above: int,
    pub hidden_below: int,
}

impl View for Window {
    type V = WindowView;

    open spec fn view(&self) -> WindowView {
        WindowView {
            begin: self.begin as int,
            end: self.end as int,
            hidden_above: self.hidden_above as int,
            hidden_below: self.hidden_below as int,
        }
    }
}

/// The window for a list of `len` entries with the cursor at `cursor`, on
/// `height` rows. Once the cursor has left the first `height` entries the
/// window ends at the cursor; before that it starts at the top. The entries
/// before the window are hidden above it, those after it below.
pub open spec fn window_of(height: nat, len: nat, cursor: nat) -> WindowView {
    let begin: int = if cursor >= height {
        cursor + 1 - height
    } else {
        0
    };
    let end: int = if cursor >= height {
        cursor as int
    } else {
        height - 1
    };
    WindowView {
        begin: begin,
        end: end,
        hidden_above: begin,
        hidden_below: if len > end + 1 {
            len - 1 - end
        } else {
            0
        },
    }
}

/// What a list manager holds, as mathematical values.
pub struct ListView<T> {
    /// The whole catalog.
    pub catalog: Seq<T>,
    /// The entries that the last filter kept, in the order of the catalog.
    pub visible: Seq<T>,
    /// The position of the cursor among the kept entries.
    pub cursor: nat,
}

impl<T> ListView<T> {
    /// The list over `items` with every entry kept and the cursor at the top.
    pub open spec fn fresh(items: Seq<T>) -> ListView<T> {
        ListView { catalog: items, visible: items, cursor: 0 }
    }

    /// The list after a filter: the entries of the catalog that `pred`
    /// accepts are kept, in their order, and the cursor is at the top.
    pub open spec fn filtered(self, pred: spec_fn(T) -> bool) -> ListView<T> {
        ListView { catalog: self.catalog, visible: self.catalog.filter(pred), cursor: 0 }
    }

    /// The list with the cursor one entry further down, unless it is at the
    /// last entry or no entry is kept.
    pub open spec fn moved_down(self) -> ListView<T> {
        ListView {
            catalog: self.catalog,
            visible: self.visible,
            cursor: if self.cursor + 1 < self.visible.len() {
                self.cursor + 1
            } else {
                self.cursor
            },
        }
    }

    /// The list with the cursor one entry further up, unless it is at the
    /// first entry.
    pub open spec fn moved_up(self) -> ListView<T> {
        ListView {
            catalog: self.catalog,
            visible: self.visible,
            cursor: if self.cursor > 0 {
                (self.cursor - 1) as nat
            } else {
                0
            },
        }
    }

    /// The list with the cursor at the top.
    pub open spec fn reset(self) -> ListView<T> {
        ListView { catalog: self.catalog, visible: self.visible, cursor: 0 }
    }

    /// The entry under the cursor, if any entry is kept.
    pub open spec fn selected(self) -> Option<T> {
        if self.cursor < self.visible.len() {
            Some(self.visible[self.cursor as int])
        } else {
            None
        }
    }

    /// The cursor points at a kept entry, or is 0 where none is kept.
    pub open spec fn cursor_in_range(self) -> bool {
        self.cursor < self.visible.len() || self.cursor == 0
    }

    /// The kept entries are entries of the catalog, in the order of the
    /// catalog, and the cursor is in range.
    pub open spec fn well_formed(self) -> bool {
        self.cursor_in_range() && selection_of(self.visible, self.catalog)
    }

    /// The window on the kept entries for a screen of `total_rows` rows of
    /// which `reserved_rows` are taken by other things.
    pub open spec fn window(self, total_rows: nat, reserved_rows: nat) -> WindowView {
        window_of(rows_left(total_rows, reserved_rows), self.visible.len(), self.cursor)
    }
}

/// `positions` are places in a list of `len` entries, in ascending order.
pub open spec fn ascending_positions(positions: Seq<int>, len: nat) -> bool {
    &&& forall|k: int| 0 <= k < positions.len() ==> 0 <= #[trigger] positions[k] < len
    &&& forall|a: int, b: int|
        0 <= a < b < positions.len() ==> #[trigger] positions[a] < #[trigger] positions[b]
}

/// `part` holds the entries of `whole` at the places `positions`.
pub open spec fn taken_at<T>(part: Seq<T>, whole: Seq<T>, positions: Seq<int>) -> bool {
    &&& part.len() == positions.len()
    &&& forall|k: int| 0 <= k < part.len() ==> #[trigger] part[k] == whole[positions[k]]
}

/// `part` holds some entries of `whole`, each once, in the order of `whole`.
pub open spec fn selection_of<T>(part: Seq<T>, whole: Seq<T>) -> bool {
    exists|positions: Seq<int>|
        ascending_positions(positions, whole.len()) && #[trigger] taken_at(part, whole, positions)
}

/// The places of the entries that `pred` accepts, in ascending order.
pub open spec fn kept_positions<T>(items: Seq<T>, pred: spec_fn(T) -> bool) -> Seq<int>
    decreases items.len(),
{
    if items.len() == 0 {
        Seq::empty()
    } else if pred(items.last()) {
        kept_positions(items.drop_last(), pred).push(items.len() - 1)
    } else {
        kept_positions(items.drop_last(), pred)
    }
}

/// The number of entries that `pred` accepts.
pub open spec fn accepted_count<T>(items: Seq<T>, pred: spec_fn(T) -> bool) -> nat
    decreases items.len(),
{
    if items.len() == 0 {
        0
    } else {
        accepted_count(items.drop_last(), pred) + if pred(items.last()) {
            1nat
        } else {
            0nat
        }
    }
}

/// What a filter keeps: as many entries as the predicate accepts, and just
/// those, each at its place among the kept ones by the order of the catalog.
pub proof fn lemma_filter_keeps_the_accepted_in_order<T>(items: Seq<T>, pred: spec_fn(T) -> bool)
    ensures
        items.filter(pred).len() == accepted_count(items, pred),
        ascending_positions(kept_positions(items, pred), items.len()),
        taken_at(items.filter(pred), items, kept_positions(items, pred)),
        forall|i: int|
            0 <= i < items.len() ==> (pred(#[trigger] items[i]) <==> kept_positions(
                items,
                pred,
            ).contains(i)),
        selection_of(items.filter(pred), items),
    decreases items.len(),
{
    reveal(Seq::filter);
    let positions = kept_positions(items, pred);
    if items.len() > 0 {
        let front = items.drop_last();
        let before = kept_positions(front, pred);
        let last = items.len() - 1;
        lemma_filter_keeps_the_accepted_in_order(front, pred);
        assert forall|i: int| 0 <= i < items.len() implies (pred(#[trigger] items[i])
            <==> positions.contains(i)) by {
            if i < last {
                assert(front[i] == items[i]);
                if before.contains(i) {
                    let k = choose|k: int| 0 <= k < before.len() && before[k] == i;
                    assert(positions[k] == i);
                }
            } else {
                if pred(items[i]) {
                    assert(positions[positions.len() - 1] == i);
                }
            }
        }
    }
    assert(taken_at(items.filter(pred), items, positions));
}

/// The operations on a list keep it well formed, and a new list is well
/// formed.
pub proof fn lemma_lists_stay_well_formed<T>(list: ListView<T>, pred: spec_fn(T) -> bool)
    ensures
        ListView::fresh(list.catalog).well_formed(),
        list.filtered(pred).well_formed(),
        list.well_formed() ==> list.moved_down().well_formed() && list.moved_up().well_formed()
            && list.reset().well_formed(),
{
    lemma_filter_keeps_the_accepted_in_order(list.catalog, pred);
    let all = Seq::new(list.catalog.len(), |i: int| i);
    assert(taken_at(list.catalog, list.catalog, all));
}

/// A filter is applied to the whole catalog: what an earlier filter kept
/// plays no part, and the catalog stays as it is.
pub proof fn lemma_filter_starts_from_the_catalog<T>(
    list: ListView<T>,
    earlier: spec_fn(T) -> bool,
    pred: spec_fn(T) -> bool,
)
    ensures
        list.filtered(earlier).filtered(pred) == list.filtered(pred),
        list.moved_down().filtered(pred) == list.filtered(pred),
        list.moved_up().filtered(pred) == list.filtered(pred),
        list.filtered(pred).catalog == list.catalog,
{
}

/// The cursor stops at both ends of the kept entries, and does not move
/// where nothing is kept.
pub proof fn lemma_cursor_stops_at_the_ends<T>(list: ListView<T>)
    requires
        list.cursor_in_range(),
    ensures
        list.cursor == 0 ==> list.moved_up() == list,
        list.cursor + 1 == list.visible.len() ==> list.moved_down() == list,
        list.visible.len() == 0 ==> list.moved_down() == list && list.moved_up() == list,
        list.moved_down().cursor_in_range(),
        list.moved_up().cursor_in_range(),
{
}

/// After a filter the list has as many kept entries as the catalog has
/// entries that the predicate accepts, and the cursor is at the top.
pub proof fn lemma_filtered_length<T>(list: ListView<T>, pred: spec_fn(T) -> bool)
    ensures
        list.filtered(pred).visible.len() == accepted_count(list.catalog, pred),
        list.filtered(pred).cursor == 0,
        list.filtered(pred).catalog == list.catalog,
{
    lemma_filter_keeps_the_accepted_in_order(list.catalog, pred);
}

/// Filtering commutes with taking views: where a predicate on entries and a
/// predicate on views agree, the views of the kept entries are the kept
/// views.
pub proof fn lemma_filter_commutes<T, V>(
    items: Seq<T>,
    view: spec_fn(T) -> V,
    kept: spec_fn(T) -> bool,
    kept_view: spec_fn(V) -> bool,
)
    requires
        forall|t: T| #[trigger] kept(t) == kept_view(view(t)),
    ensures
        items.filter(kept).map_values(view) == items.map_values(view).filter(kept_view),
    decreases items.len(),
{
    reveal(Seq::filter);
    if items.len() > 0 {
        let front = items.drop_last();
        lemma_filter_commutes(front, view, kept, kept_view);
        assert(items.map_values(view).drop_last() =~= front.map_values(view));
    }
}

/// A catalog of entries, the entries of it that the last filter kept, and
/// a cursor that points at one of the kept entries.
pub struct TabManager<T> {
    items: Vec<T>,
    filtered: Vec<usize>,
    selected: usize,
}

impl<T> View for TabManager<T> {
    type V = ListView<T>;

    closed spec fn view(&self) -> ListView<T> {
        ListView {
            catalog: self.items@,
            visible: Seq::new(self.filtered@.len(), |i: int| self.items@[self.filtered@[i] as int]),
            cursor: self.selected as nat,
        }
    }
}

impl<T> TabManager<T> {
    #[verifier::type_invariant]
    spec fn inv(self) -> bool {
        &&& forall|i: int| 0 <= i < self.filtered@.len() ==> #[trigger] self.filtered@[i] < self.items@.len()
        &&& forall|i: int, j: int|
            0 <= i < j < self.filtered@.len() ==> #[trigger] self.filtered@[i] < #[trigger] self.filtered@[j]
        &&& self.selected < self.filtered@.len() || self.selected == 0
    }

    proof fn lemma_well_formed(self)
        requires
            self.inv(),
        ensures
            self@.well_formed(),
    {
        let positions = Seq::new(self.filtered@.len(), |k: int| self.filtered@[k] as int);
        assert(taken_at(self@.visible, self@.catalog, positions));
    }

    /// A manager for `items`: every entry is kept, the cursor is at the top.
    pub fn new(items: Vec<T>) -> (m: TabManager<T>)
        ensures
            m@ == ListView::fresh(items@),
    {
        let mut filtered: Vec<usize> = Vec::new();
        let mut i: usize = 0;
        while i < items.len()
            invariant
                i <= items@.len(),
                filtered@.len() == i,
                forall|k: int| 0 <= k < i ==> filtered@[k] == k,
            decreases items@.len() - i,
        {
            filtered.push(i);
            i += 1;
        }
        let m = TabManager { items, filtered, selected: 0 };
        assert(m@.visible =~= items@);
        m
    }

    /// Keeps the entries of the catalog that `filter` accepts, in their
    /// order, and moves the cursor to the top.
    pub fn with_filter<F: Filter<T>>(&mut self, filter: &F)
        ensures
            final(self)@ == old(self)@.filtered(|t: T| filter.keeps(&t)),
            final(self)@.visible.len() <= old(self)@.catalog.len(),
    {
        let ghost pred = |t: T| filter.keeps(&t);
        let mut filtered: Vec<usize> = Vec::new();
        let mut i: usize = 0;
        proof {
            use_type_invariant(&*self);
            reveal(Seq::filter);
        }
        while i < self.items.len()
            invariant
                i <= self.items@.len(),
                pred == |t: T| filter.keeps(&t),
                forall|k: int| 0 <= k < filtered@.len() ==> #[trigger] filtered@[k] < i,
                forall|a: int, b: int|
                    0 <= a < b < filtered@.len() ==> #[trigger] filtered@[a] < #[trigger] filtered@[b],
                Seq::new(filtered@.len(), |k: int| self.items@[filtered@[k] as int])
                    == self.items@.take(i as int).filter(pred),
            decreases self.items@.len() - i,
        {
            let kept = filter.keep(&self.items[i]);
            proof {
                reveal(Seq::filter);
                let upto = self.items@.take(i + 1);
                assert(upto.drop_last() =~= self.items@.take(i as int));
            }
            if kept {
                filtered.push(i);
            }
            i += 1;
        }
        proof {
            assert(self.items@.take(self.items@.len() as int) =~= self.items@);
            self.items@.lemma_filter_len(pred);
        }
        self.selected = 0;
        self.filtered = filtered;
    }

    /// Moves the cursor one entry down, unless it is at the last one.
    pub fn select_down(&mut self)
        ensures
            final(self)@ == old(self)@.moved_down(),
    {
        proof {
            use_type_invariant(&*self);
        }
        if self.filtered.len() > 0 && self.selected < self.filtered.len() - 1 {
            self.selected = self.selected + 1;
        }
    }

    /// Moves the cursor one entry up, unless it is at the first one.
    pub fn select_up(&mut self)
        ensures
            final(self)@ == old(self)@.moved_up(),
    {
        proof {
            use_type_invariant(&*self);
        }
        if self.selected > 0 {
            self.selected = self.selected - 1;
        }
    }

    /// Moves the cursor to the top.
    pub fn reset_selection(&mut self)
        ensures
            final(self)@ == old(self)@.reset(),
    {
        proof {
            use_type_invariant(&*self);
        }
        self.selected = 0;
    }

    /// The entry under the cursor, if any entry is kept.
    pub fn get_selected(&self) -> (r: Option<&T>)
        ensures
            self@.well_formed(),
            match r {
                Some(entry) => self@.selected() == Some(*entry),
                None => self@.selected() is None && self@.visible.len() == 0,
            },
    {
        proof {
            use_type_invariant(self);
            self.lemma_well_formed();
        }
        if self.selected < self.filtered.len() {
            Some(&self.items[self.filtered[self.selected]])
        } else {
            None
        }
    }

    /// The kept entry at `position`, if there is one.
    pub fn get(&self, position: usize) -> (r: Option<&T>)
        ensures
            match r {
                Some(entry) => position < self@.visible.len() && *entry == self@.visible[
                    position as int],
                None => position >= self@.visible.len(),
            },
    {
        proof {
            use_type_invariant(self);
        }
        if position < self.filtered.len() {
            Some(&self.items[self.filtered[position]])
        } else {
            None
        }
    }

    /// The kept entries in order, each with its position.
    pub fn iter(&self) -> (r: Vec<(usize, &T)>)
        ensures
            r@.len() == self@.visible.len(),
            forall|i: int|
                0 <= i < r@.len() ==> (#[trigger] r@[i]).0 == i && *r@[i].1 == self@.visible[i],
    {
        proof {
            use_type_invariant(self);
        }
        let mut r: Vec<(usize, &T)> = Vec::new();
        let mut i: usize = 0;
        while i < self.filtered.len()
            invariant
                i <= self.filtered@.len(),
                r@.len() == i,
                forall|k: int| 0 <= k < self.filtered@.len() ==> #[trigger] self.filtered@[k] < self.items@.len(),
                forall|k: int|
                    0 <= k < i ==> (#[trigger] r@[k]).0 == k && *r@[k].1 == self@.visible[k],
            decreases self.filtered@.len() - i,
        {
            r.push((i, &self.items[self.filtered[i]]));
            i += 1;
        }
        r
    }

    /// The position of the cursor among the kept entries.
    pub fn get_position(&self) -> (position: usize)
        ensures
            position == self@.cursor,
            self@.well_formed(),
    {
        proof {
            use_type_invariant(self);
            self.lemma_well_formed();
        }
        self.selected
    }

    /// The number of kept entries.
    pub fn len(&self) -> (len: usize)
        ensures
            len == self@.visible.len(),
            self@.well_formed(),
    {
        proof {
            use_type_invariant(self);
            self.lemma_well_formed();
        }
        self.filtered.len()
    }

    /// The window on the kept entries for a screen of `total_rows` rows of
    /// which `reserved_rows` are taken by other things.
    pub fn viewport_window(&self, total_rows: usize, reserved_rows: usize) -> (w: Window)
        ensures
            w@ == self@.window(total_rows as nat, reserved_rows as nat),
    {
        proof {
            use_type_invariant(self);
        }
        let height: usize = if total_rows >= reserved_rows {
            total_rows - reserved_rows
        } else {
            0
        };
        let len: usize = self.filtered.len();
        let (begin, end): (usize, usize) = if self.selected >= height {
            (self.selected + 1 - height, self.selected)
        } else {
            (0, height - 1)
        };
        let hidden_below: usize = if len > end && len - 1 - end > 0 {
            len - 1 - end
        } else {
            0
        };
        Window { begin, end, hidden_above: begin, hidden_below }
    }
}

impl<T> Default for TabManager<T> {
    fn default() -> (m: TabManager<T>)
        ensures
            m@ == ListView::<T>::fresh(Seq::empty()),
    {
        let m = TabManager { items: Vec::new(), filtered: Vec::new(), selected: 0 };
        assert(m@.visible =~= Seq::empty());
        m
    }
}

} // verus!
