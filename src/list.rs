//! One list of items with a selection and a vertical scroll offset.
use vstd::prelude::*;
use vstd::relations::sorted_by;
use vstd::string::*;
use crate::wrap::{lines_view, word_wrap, wrap_spec};

verus! {

/// Which of the two lists: items still to do, or items done.
#[derive(Clone, Copy, Debug, PartialEq, Eq, Structural)]
pub enum ListType {
    Todo,
    Done,
}

impl ListType {
    /// The other list.
    pub fn next(&self) -> (r: ListType)
        ensures
            r != *self,
    {
        match self {
            ListType::Todo => ListType::Done,
            ListType::Done => ListType::Todo,
        }
    }
}

/// The index after `cur` in a list of `len` items, going round to 0.
pub open spec fn next_index(len: int, cur: int) -> int {
    if cur + 1 < len {
        cur + 1
    } else if len > 0 {
        0
    } else {
        cur
    }
}

/// Columns taken by the checkbox drawn before an item's first line.
pub const CHECKBOX_WIDTH: usize = 4;

/// `a` orders before or equal to `b`, comparing code points lexicographically.
pub open spec fn chars_le(a: Seq<char>, b: Seq<char>) -> bool
    decreases a.len(),
{
    if a.len() == 0 {
        true
    } else if b.len() == 0 {
        false
    } else if a[0] != b[0] {
        (a[0] as u32) < (b[0] as u32)
    } else {
        chars_le(a.drop_first(), b.drop_first())
    }
}

/// Relies on `<[String]>::sort`: a stable sort by `Ord for str`, which orders
/// strings lexicographically by code point.
#[verifier::external_body]
fn sort_strings(v: &mut Vec<String>)
    ensures
        lines_view(final(v)@).to_multiset() == lines_view(old(v)@).to_multiset(),
        sorted_by(lines_view(final(v)@), |a: Seq<char>, b: Seq<char>| chars_le(a, b)),
{
    v.sort();
}

/// Number of colours that item texts cycle through.
pub const COLORS_LEN: usize = 12;

/// The largest display row that is counted; rows further down are all reported there.
pub const ROW_LIMIT: usize = usize::MAX - 1;

/// Width left for item text in a pane of the given size.
pub open spec fn line_width(size: (u16, u16)) -> nat {
    (size.0 - CHECKBOX_WIDTH) as nat
}

/// The display rows of item `k`: its index, one fragment, and whether the
/// fragment is the item's first.
pub open spec fn item_rows(items: Seq<String>, k: int, w: nat) -> Seq<(int, Seq<char>, bool)> {
    wrap_spec(items[k]@, w).map(|j: int, f: Seq<char>| (k, f, j == 0))
}

/// The display rows of the first `n` items, in order.
pub open spec fn flat_rows(items: Seq<String>, n: int, w: nat) -> Seq<(int, Seq<char>, bool)>
    decreases n,
{
    if n <= 0 {
        Seq::empty()
    } else {
        flat_rows(items, n - 1, w) + item_rows(items, n - 1, w)
    }
}

/// Display row of item `cur`'s first line, counting the title row.
pub open spec fn y_pos_of(items: Seq<String>, cur: int, w: nat) -> int {
    let y = 1 + flat_rows(items, cur, w).len() as int;
    if y < ROW_LIMIT {
        y
    } else {
        ROW_LIMIT as int
    }
}

/// Row `y` is not shown in a pane of height `h` scrolled by `off` rows.
pub open spec fn out_of_view(y: int, off: int, h: int) -> bool {
    y + 1 > h + off || y <= off
}

/// The scroll offset that brings row `y` back into view.
pub open spec fn rescrolled(y: int, off: int, h: int) -> int {
    if y > off {
        if y + 1 > h {
            y + 1 - h
        } else {
            0
        }
    } else {
        y - 1
    }
}

/// The scroll offset after the pane is brought to row `y`.
pub open spec fn scrolled(y: int, off: int, h: int) -> int {
    if out_of_view(y, off, h) {
        rescrolled(y, off, h)
    } else {
        off
    }
}

/// How many rows a pane of height `h`, scrolled by `off`, shows out of `total`.
pub open spec fn visible_count(total: int, off: int, h: int) -> int {
    let avail = if h >= 1 {
        h - 1
    } else {
        0
    };
    let left = if total > off {
        total - off
    } else {
        0
    };
    if left < avail {
        left
    } else {
        avail
    }
}

/// One line drawn in a pane: its row below the pane's top, whether it is the
/// first line of its item (and so carries the checkbox), its text, and its
/// colour index.
pub struct Row {
    pub y: usize,
    pub first: bool,
    pub text: String,
    pub color: usize,
}

/// `r` draws display row `fr` at the `i`-th line below the title.
pub open spec fn row_matches(r: Row, fr: (int, Seq<char>, bool), i: int) -> bool {
    &&& r.y == i + 1
    &&& r.first == fr.2
    &&& r.text@ == fr.1
    &&& r.color == fr.0 % (COLORS_LEN as int)
}

/// Drawing list `a` in a pane of the given size scrolls it into `b` and shows `rows`.
pub open spec fn draws(a: List, b: List, size: (u16, u16), rows: Seq<Row>) -> bool {
    let all = flat_rows(b.items@, b.items@.len() as int, line_width(size));
    &&& b.y_offset == scrolled(a.y_pos_spec(size), a.y_offset as int, size.1 as int)
    &&& b.items@ == a.items@
    &&& b.current_index == a.current_index
    &&& b.list_type == a.list_type
    &&& rows.len() == visible_count(all.len() as int, b.y_offset as int, size.1 as int)
    &&& forall|i: int| 0 <= i < rows.len() ==> row_matches(#[trigger] rows[i], all[b.y_offset + i], i)
}

pub proof fn lemma_flat_prefix(items: Seq<String>, k: int, n: int, w: nat)
    requires
        0 <= k <= n,
    ensures
        flat_rows(items, k, w).len() <= flat_rows(items, n, w).len(),
        forall|g: int|
            0 <= g < flat_rows(items, k, w).len() ==> #[trigger] flat_rows(items, n, w)[g]
                == flat_rows(items, k, w)[g],
    decreases n - k,
{
    if k < n {
        lemma_flat_prefix(items, k + 1, n, w);
        assert(flat_rows(items, k + 1, w) == flat_rows(items, k, w) + item_rows(items, k, w));
    }
}

/// The state of a list as values: item texts, which list it is, the
/// selection and the scroll offset.
pub struct ListModel {
    pub items: Seq<Seq<char>>,
    pub list_type: ListType,
    pub current: int,
    pub offset: int,
}

impl ListModel {
    /// The selection lies inside the list, or is 0 when the list is empty.
    pub open spec fn wf(self) -> bool {
        0 <= self.current < self.items.len() || (self.items.len() == 0 && self.current == 0)
    }

    pub open spec fn len(self) -> int {
        self.items.len() as int
    }

    pub open spec fn with_current(self, c: int) -> ListModel {
        ListModel { current: c, ..self }
    }

    pub open spec fn with_items(self, items: Seq<Seq<char>>) -> ListModel {
        ListModel { items, ..self }
    }

    pub open spec fn moved_to_top(self) -> ListModel {
        self.with_current(0)
    }

    pub open spec fn moved_to_bottom(self) -> ListModel {
        self.with_current(
            if self.len() > 0 {
                self.len() - 1
            } else {
                0
            },
        )
    }

    /// The previous item is selected, the last one after the first.
    pub open spec fn moved_up(self) -> ListModel {
        if self.len() == 0 {
            self
        } else if self.current == 0 {
            self.with_current(self.len() - 1)
        } else {
            self.with_current(self.current - 1)
        }
    }

    /// The next item is selected, the first one after the last.
    pub open spec fn moved_down(self) -> ListModel {
        self.with_current(next_index(self.len(), self.current))
    }

    /// The selected item swaps with the one above it, and stays selected; the
    /// first item goes round to the end.
    pub open spec fn shifted_up(self) -> ListModel {
        let s = self.items;
        let i = self.current;
        if self.len() == 0 {
            self
        } else if i > 0 {
            self.with_items(s.update(i, s[i - 1]).update(i - 1, s[i])).with_current(i - 1)
        } else {
            self.with_items(s.drop_first().push(s[0])).with_current(self.len() - 1)
        }
    }

    /// The selected item swaps with the one below it, and stays selected; the
    /// last item goes round to the front.
    pub open spec fn shifted_down(self) -> ListModel {
        let s = self.items;
        let i = self.current;
        if self.len() == 0 {
            self
        } else if i + 1 < self.len() {
            self.with_items(s.update(i, s[i + 1]).update(i + 1, s[i])).with_current(i + 1)
        } else {
            self.with_items(seq![s[i]] + s.drop_last()).with_current(0)
        }
    }

    /// The selected item is gone; the selection keeps its place, or moves to
    /// the new last item, or to 0 when the list empties.
    pub open spec fn removed(self) -> ListModel {
        let i = self.current;
        if self.len() == 0 {
            self
        } else {
            self.with_items(self.items.remove(i)).with_current(
                if i < self.len() - 1 {
                    i
                } else if self.len() > 1 {
                    self.len() - 2
                } else {
                    0
                },
            )
        }
    }

    pub open spec fn added(self, item: Seq<char>) -> ListModel {
        self.with_items(self.items.push(item))
    }

    /// The item stands at the selection and so becomes the selected item.
    pub open spec fn inserted_before(self, item: Seq<char>) -> ListModel {
        self.with_items(self.items.insert(self.current, item))
    }

    /// The item stands just after the selection, or alone in an empty list.
    pub open spec fn inserted_after(self, item: Seq<char>) -> ListModel {
        if self.len() == 0 {
            self.with_items(seq![item])
        } else {
            self.with_items(self.items.insert(self.current + 1, item))
        }
    }

    /// The selected item's text is replaced; an empty list stays as it is.
    pub open spec fn current_set(self, item: Seq<char>) -> ListModel {
        if self.len() == 0 {
            self
        } else {
            self.with_items(self.items.update(self.current, item))
        }
    }

    /// `b` is this list with its items sorted by code point order.
    pub open spec fn sorted_into(self, b: ListModel) -> bool {
        &&& b.items.to_multiset() == self.items.to_multiset()
        &&& sorted_by(b.items, |x: Seq<char>, y: Seq<char>| chars_le(x, y))
        &&& b == self.with_items(b.items)
    }
}

/// An ordered list of items, the selected item and how many display rows are
/// scrolled off above the pane.
pub struct List {
    pub items: Vec<String>,
    pub list_type: ListType,
    pub current_index: usize,
    pub y_offset: usize,
}

impl View for List {
    type V = ListModel;

    open spec fn view(&self) -> ListModel {
        ListModel {
            items: lines_view(self.items@),
            list_type: self.list_type,
            current: self.current_index as int,
            offset: self.y_offset as int,
        }
    }
}

impl List {
    pub open spec fn wf(&self) -> bool {
        self@.wf()
    }

    pub fn new(items: Vec<String>, list_type: ListType) -> (r: List)
        ensures
            r.items@ == items@,
            r@ == (ListModel { items: lines_view(items@), list_type, current: 0, offset: 0 }),
            r.wf(),
    {
        List { items, list_type, current_index: 0, y_offset: 0 }
    }

    /// The checkbox text drawn before an item's first line.
    pub fn get_checkbox(&self) -> (r: String)
        ensures
            self.list_type == ListType::Todo ==> r@ == "[ ] "@,
            self.list_type == ListType::Done ==> r@ == "[X] "@,
    {
        match self.list_type {
            ListType::Todo => String::from_str("[ ] "),
            ListType::Done => String::from_str("[X] "),
        }
    }

    pub fn move_to_top(&mut self)
        requires
            old(self).wf(),
        ensures
            final(self)@ == old(self)@.moved_to_top(),
            final(self).wf(),
    {
        self.current_index = 0;
    }

    pub fn move_to_bottom(&mut self)
        requires
            old(self).wf(),
        ensures
            final(self)@ == old(self)@.moved_to_bottom(),
            final(self).wf(),
    {
        let len = self.items.len();
        self.current_index = if len == 0 {
            0
        } else {
            len - 1
        };
    }

    /// Selects the previous item, going round from the first to the last.
    pub fn move_up(&mut self)
        requires
            old(self).wf(),
        ensures
            final(self)@ == old(self)@.moved_up(),
            final(self).items@ == old(self).items@,
            final(self).wf(),
    {
        let len = self.items.len();
        if len == 0 {
            return;
        }
        if self.current_index == 0 {
            self.current_index = len - 1;
        } else {
            self.current_index -= 1;
        }
    }

    /// Selects the next item, going round from the last to the first.
    pub fn move_down(&mut self)
        requires
            old(self).wf(),
        ensures
            final(self)@ == old(self)@.moved_down(),
            final(self).items@ == old(self).items@,
            final(self).wf(),
    {
        let len = self.items.len();
        if len == 0 {
            return;
        }
        if self.current_index + 1 < len {
            self.current_index += 1;
        } else {
            self.current_index = 0;
        }
    }

    /// Moves the selected item one place up, and the selection with it; the
    /// first item goes round to the end.
    pub fn shift_up(&mut self)
        requires
            old(self).wf(),
        ensures
            final(self)@ == old(self)@.shifted_up(),
            final(self).wf(),
    {
        if self.items.is_empty() {
            return;
        }
        let ghost s = lines_view(old(self).items@);
        let i = self.current_index;
        if i > 0 {
            let item = self.items.remove(i);
            self.items.insert(i - 1, item);
            assert(lines_view(self.items@) =~= s.update(i as int, s[i - 1]).update(
                i - 1,
                s[i as int],
            ));
        } else {
            let item = self.items.remove(0);
            self.items.push(item);
            assert(lines_view(self.items@) =~= s.drop_first().push(s[0]));
        }
        self.move_up();
    }

    /// Moves the selected item one place down, and the selection with it; the
    /// last item goes round to the front.
    pub fn shift_down(&mut self)
        requires
            old(self).wf(),
        ensures
            final(self)@ == old(self)@.shifted_down(),
            final(self).wf(),
    {
        let len = self.items.len();
        if len == 0 {
            return;
        }
        let ghost s = lines_view(old(self).items@);
        let i = self.current_index;
        if i + 1 < len {
            let item = self.items.remove(i);
            self.items.insert(i + 1, item);
            assert(lines_view(self.items@) =~= s.update(i as int, s[i + 1]).update(
                i + 1,
                s[i as int],
            ));
        } else {
            let item = self.items.remove(len - 1);
            self.items.insert(0, item);
            assert(lines_view(self.items@) =~= seq![s[i as int]] + s.drop_last());
        }
        self.move_down();
    }

    /// Takes the selected item out of the list; the selection stays at its
    /// place, or moves to the new last item, or to 0 when the list empties.
    pub fn remove(&mut self) -> (r: Option<String>)
        requires
            old(self).wf(),
        ensures
            final(self)@ == old(self)@.removed(),
            final(self).wf(),
            r is None <==> old(self).items@.len() == 0,
            r is Some ==> r->0 == old(self).items@[old(self).current_index as int],
    {
        if self.items.is_empty() {
            None
        } else {
            let ghost s = lines_view(old(self).items@);
            let res = Some(self.items.remove(self.current_index));
            assert(lines_view(self.items@) =~= s.remove(old(self).current_index as int));
            let len = self.items.len();
            if len == 0 {
                self.current_index = 0
            } else if self.current_index >= len {
                self.current_index = len - 1;
            }
            res
        }
    }

    /// Appends an item at the end.
    pub fn add(&mut self, item: String)
        requires
            old(self).wf(),
        ensures
            final(self)@ == old(self)@.added(item@),
            final(self).wf(),
    {
        self.items.push(item);
        assert(lines_view(self.items@) =~= lines_view(old(self).items@).push(item@));
    }

    /// Puts an item at position `index`, or at the end when `index` lies
    /// past it.
    pub fn insert(&mut self, item: String, index: usize)
        requires
            old(self).wf(),
        ensures
            final(self)@ == old(self)@.with_items(
                old(self)@.items.insert(
                    if index <= old(self).items@.len() {
                        index as int
                    } else {
                        old(self).items@.len() as int
                    },
                    item@,
                ),
            ),
            final(self).wf(),
    {
        let len = self.items.len();
        let at = if index <= len {
            index
        } else {
            len
        };
        self.items.insert(at, item);
        assert(lines_view(self.items@) =~= lines_view(old(self).items@).insert(at as int, item@));
    }

    /// Puts an item at the selection, so that it becomes the selected item.
    pub fn insert_before(&mut self, item: String)
        requires
            old(self).wf(),
        ensures
            final(self)@ == old(self)@.inserted_before(item@),
            final(self).wf(),
    {
        self.insert(item, self.current_index);
    }

    /// Puts an item just after the selection (at the front of an empty list).
    pub fn insert_after(&mut self, item: String)
        requires
            old(self).wf(),
        ensures
            final(self)@ == old(self)@.inserted_after(item@),
            final(self).wf(),
    {
        let len = self.items.len();
        let mut index = self.current_index + 1;
        if index > len {
            index = self.current_index;
        }
        let ghost v = item@;
        self.insert(item, index);
        proof {
            if len == 0 {
                assert(self@.items =~= seq![v]);
            }
        }
    }

    /// Replaces the text of the selected item; an empty list is left as it is.
    pub fn set_current(&mut self, item: String)
        requires
            old(self).wf(),
        ensures
            final(self)@ == old(self)@.current_set(item@),
            final(self).wf(),
    {
        if !self.items.is_empty() {
            let ghost v = item@;
            self.items.set(self.current_index, item);
            assert(lines_view(self.items@) =~= lines_view(old(self).items@).update(
                self.current_index as int,
                v,
            ));
        }
    }

    /// A copy of the selected item, or `None` for an empty list.
    pub fn clone_current(&self) -> (r: Option<String>)
        requires
            self.wf(),
        ensures
            r is None <==> self.items@.len() == 0,
            r is Some ==> r->0 == self.items@[self.current_index as int],
    {
        if self.items.is_empty() {
            None
        } else {
            Some(self.items[self.current_index].clone())
        }
    }

    /// Width left for item text in a pane of the given size.
    pub fn get_max_line_width(&self, size: (u16, u16)) -> (r: usize)
        requires
            size.0 >= CHECKBOX_WIDTH,
        ensures
            r == line_width(size),
    {
        size.0 as usize - CHECKBOX_WIDTH
    }

    /// Display row of the selected item's first line, title included.
    pub open spec fn y_pos_spec(&self, size: (u16, u16)) -> int {
        y_pos_of(self.items@, self.current_index as int, line_width(size))
    }

    /// Display row of the selected item's first line: one for the title plus
    /// the lines of every item before it.
    pub fn get_y_pos(&self, size: (u16, u16)) -> (r: usize)
        requires
            self.wf(),
            size.0 > CHECKBOX_WIDTH,
        ensures
            r == self.y_pos_spec(size),
            1 <= r <= ROW_LIMIT,
    {
        let ghost w = line_width(size);
        let max = self.get_max_line_width(size);
        let mut y: usize = 1;
        let mut i: usize = 0;
        while i < self.current_index
            invariant
                self.wf(),
                i <= self.current_index,
                max == w,
                w >= 1,
                y == y_pos_of(self.items@, i as int, w),
            decreases self.current_index - i,
        {
            let c = word_wrap(self.items[i].as_str(), max).len();
            assert(flat_rows(self.items@, i + 1, w) == flat_rows(self.items@, i as int, w)
                + item_rows(self.items@, i as int, w));
            if c >= ROW_LIMIT - y {
                y = ROW_LIMIT;
            } else {
                y = y + c;
            }
            i += 1;
        }
        y
    }

    /// The selected item's first line is outside the visible rows.
    pub fn out_of_bounds(&self, size: (u16, u16)) -> (r: bool)
        requires
            self.wf(),
            size.0 > CHECKBOX_WIDTH,
        ensures
            r == out_of_view(self.y_pos_spec(size), self.y_offset as int, size.1 as int),
    {
        let y = self.get_y_pos(size);
        let h = size.1 as usize;
        y + 1 > self.y_offset && y + 1 - self.y_offset > h || y <= self.y_offset
    }

    /// Scrolls so that the selected item's first line is the last visible row
    /// (when it lies below) or the first (when it lies above).
    pub fn update_y_offset(&mut self, size: (u16, u16))
        requires
            old(self).wf(),
            size.0 > CHECKBOX_WIDTH,
        ensures
            final(self).wf(),
            final(self).y_offset == rescrolled(
                old(self).y_pos_spec(size),
                old(self).y_offset as int,
                size.1 as int,
            ),
            final(self).items@ == old(self).items@,
            final(self).current_index == old(self).current_index,
            final(self).list_type == old(self).list_type,
    {
        let y = self.get_y_pos(size);
        self.y_offset = if y > self.y_offset {
            (y + 1).saturating_sub(size.1 as usize)
        } else {
            y - 1
        };
    }

    /// Scrolls only when the selected item's first line is out of view.
    pub fn scroll_to_current(&mut self, size: (u16, u16))
        requires
            old(self).wf(),
            size.0 > CHECKBOX_WIDTH,
        ensures
            final(self).wf(),
            final(self).y_offset == scrolled(
                old(self).y_pos_spec(size),
                old(self).y_offset as int,
                size.1 as int,
            ),
            size.1 >= 2 ==> !out_of_view(
                final(self).y_pos_spec(size),
                final(self).y_offset as int,
                size.1 as int,
            ),
            final(self).items@ == old(self).items@,
            final(self).current_index == old(self).current_index,
            final(self).list_type == old(self).list_type,
    {
        if self.out_of_bounds(size) {
            self.update_y_offset(size);
        }
    }

    /// The rows that a pane of the given size shows, scrolled as it is.
    pub fn visible_rows(&self, size: (u16, u16)) -> (r: Vec<Row>)
        requires
            self.wf(),
            size.0 > CHECKBOX_WIDTH,
        ensures
            ({
                let all = flat_rows(self.items@, self.items@.len() as int, line_width(size));
                &&& r@.len() == visible_count(all.len() as int, self.y_offset as int, size.1 as int)
                &&& forall|i: int|
                    0 <= i < r@.len() ==> row_matches(
                        #[trigger] r@[i],
                        all[self.y_offset + i],
                        i,
                    )
            }),
    {
        let ghost w = line_width(size);
        let ghost n = self.items@.len() as int;
        let ghost all = flat_rows(self.items@, n, w);
        let ghost off = self.y_offset as int;
        let max = self.get_max_line_width(size);
        let h = size.1 as usize;
        let mut out: Vec<Row> = Vec::new();
        let mut skip = self.y_offset;
        let mut full = false;
        let mut k: usize = 0;
        while k < self.items.len() && !full
            invariant
                max == w,
                w >= 1,
                n == self.items@.len(),
                all == flat_rows(self.items@, n, w),
                off == self.y_offset,
                0 <= k <= n,
                h == size.1 as usize,
                !full ==> skip + flat_rows(self.items@, k as int, w).len() == off + out@.len(),
                out@.len() > 0 ==> off + out@.len() <= all.len(),
                skip > 0 ==> out@.len() == 0,
                out@.len() + 1 <= h || out@.len() == 0,
                full ==> out@.len() + 2 > h,
                forall|i: int| 0 <= i < out@.len() ==> row_matches(#[trigger] out@[i], all[off + i], i),
            decreases n - k + (if full {
                0int
            } else {
                1int
            }),
        {
            let frags = word_wrap(self.items[k].as_str(), max);
            let ghost before = flat_rows(self.items@, k as int, w);
            proof {
                lemma_flat_prefix(self.items@, k + 1, n, w);
                assert(flat_rows(self.items@, k + 1, w) == before + item_rows(self.items@, k as int, w));
                assert(lines_view(frags@).len() == frags@.len());
            }
            let mut j: usize = 0;
            while j < frags.len() && !full
                invariant
                    0 <= k < n,
                    lines_view(frags@) == wrap_spec(self.items@[k as int]@, w),
                    j <= frags@.len(),
                    before == flat_rows(self.items@, k as int, w),
                    before.len() + frags@.len() <= all.len(),
                    forall|g: int|
                        before.len() <= g < before.len() + frags@.len() ==> #[trigger] all[g]
                            == (k as int, frags@[g - before.len()]@, g == before.len()),
                    h == size.1 as usize,
                    flat_rows(self.items@, k + 1, w).len() == before.len() + frags@.len(),
                    skip + before.len() + j == off + out@.len(),
                    out@.len() > 0 ==> off + out@.len() <= all.len(),
                    skip > 0 ==> out@.len() == 0,
                    out@.len() + 1 <= h || out@.len() == 0,
                    full ==> out@.len() + 2 > h,
                    forall|i: int|
                        0 <= i < out@.len() ==> row_matches(#[trigger] out@[i], all[off + i], i),
                decreases frags@.len() - j + (if full {
                    0int
                } else {
                    1int
                }),
            {
                if out.len() + 2 > h {
                    full = true;
                } else if skip > 0 {
                    skip -= 1;
                    j += 1;
                } else {
                    let ghost g = before.len() + j;
                    assert(all[g] == (k as int, frags@[j as int]@, j == 0));
                    let row = Row {
                        y: out.len() + 1,
                        first: j == 0,
                        text: frags[j].clone(),
                        color: k % COLORS_LEN,
                    };
                    out.push(row);
                    j += 1;
                }
            }
            if !full {
                k += 1;
            }
        }
        proof {
            lemma_flat_prefix(self.items@, k as int, n, w);
        }
        out
    }

    /// Scrolls the selected item into view, then gives the rows to draw.
    pub fn draw(&mut self, size: (u16, u16)) -> (r: Vec<Row>)
        requires
            old(self).wf(),
            size.0 > CHECKBOX_WIDTH,
        ensures
            final(self).wf(),
            draws(*old(self), *final(self), size, r@),
    {
        self.scroll_to_current(size);
        self.visible_rows(size)
    }

    /// Row of the cursor below the pane's top: the selected item's first
    /// line, or row 1 when that line is scrolled off above.
    pub fn cursor_row(&self, size: (u16, u16)) -> (r: usize)
        requires
            self.wf(),
            size.0 > CHECKBOX_WIDTH,
        ensures
            self.y_pos_spec(size) >= self.y_offset ==> r == self.y_pos_spec(size) - self.y_offset,
            self.y_pos_spec(size) < self.y_offset ==> r == 1,
    {
        let y = self.get_y_pos(size);
        if y >= self.y_offset {
            y - self.y_offset
        } else {
            1
        }
    }

    /// Sorts the items by code point order; the selection keeps its index.
    pub fn sort(&mut self)
        requires
            old(self).wf(),
        ensures
            old(self)@.sorted_into(final(self)@),
            final(self).wf(),
    {
        sort_strings(&mut self.items);
        proof {
            lines_view(old(self).items@).to_multiset_ensures();
            lines_view(self.items@).to_multiset_ensures();
        }
    }
}

/// After the selection moves down one item (going round at the end) and the
/// pane scrolls it into view, its first line's display row lies in
/// `[offset, offset + height)`, below the title row; so this holds after
/// every step of any run of moves down.
pub proof fn lemma_move_down_keeps_selection_visible(
    items: Seq<String>,
    cur: int,
    off: int,
    size: (u16, u16),
)
    requires
        0 <= cur < items.len() || (items.len() == 0 && cur == 0),
        0 <= off,
        size.0 > CHECKBOX_WIDTH,
        size.1 >= 2,
    ensures
        ({
            let c = next_index(items.len() as int, cur);
            let y = y_pos_of(items, c, line_width(size));
            let o = scrolled(y, off, size.1 as int);
            &&& 0 <= o
            &&& o <= y < o + size.1
            &&& o < y
        }),
{
}

} // verus!
