//! The editing session: two lists, which one has focus, and a modal input
//! state machine that routes key events to list commands or a text buffer.
use vstd::prelude::*;
use crate::list::{draws, List, ListModel, ListType, Row, CHECKBOX_WIDTH};
use crate::text::chars_of;

verus! {

/// Where the text typed in insert mode goes when it is committed.
#[derive(Clone, Copy, Debug, PartialEq, Eq, Structural)]
pub enum InputDestination {
    NewItem,
    NewItemBefore,
    NewItemAfter,
    EditItem,
}

#[derive(Clone, Copy, Debug, PartialEq, Eq, Structural)]
pub enum InputMode {
    Normal,
    Insert(InputDestination),
}

/// A key press, as far as the session tells keys apart.
#[derive(Clone, Copy, Debug, PartialEq, Eq, Structural)]
pub enum Key {
    Char(char),
    Enter,
    Esc,
    Backspace,
    Left,
    Right,
    Other,
}

/// An event from the terminal.
#[derive(Clone, Copy, Debug, PartialEq, Eq, Structural)]
pub enum Event {
    Key(Key),
    Resize(u16, u16),
    Other,
}

/// Terminals at most this wide show only the focused list.
pub const MAX_WIDTH_SINGLE_PANE: u16 = 55;

/// Relies on `String::push`: appends one character.
#[verifier::external_body]
fn push_char(s: &mut String, c: char)
    ensures
        final(s)@ == old(s)@.push(c),
{
    s.push(c);
}

/// The string made of the given characters.
pub fn string_of(cs: &Vec<char>) -> (r: String)
    ensures
        r@ == cs@,
{
    let mut r = String::new();
    let mut i: usize = 0;
    while i < cs.len()
        invariant
            i <= cs@.len(),
            r@ == cs@.subrange(0, i as int),
        decreases cs@.len() - i,
    {
        push_char(&mut r, cs[i]);
        assert(r@ =~= cs@.subrange(0, i + 1));
        i += 1;
    }
    assert(r@ =~= cs@);
    r
}

/// Characters that run a command on the focused list.
pub open spec fn is_list_command(c: char) -> bool {
    c == 'j' || c == 'J' || c == 'k' || c == 'K' || c == 'g' || c == 'G' || c == 's'
}

/// What list command `c` makes of list `a`.
pub open spec fn list_command_effect(a: ListModel, b: ListModel, c: char) -> bool {
    if c == 'j' {
        b == a.moved_down()
    } else if c == 'J' {
        b == a.shifted_down()
    } else if c == 'k' {
        b == a.moved_up()
    } else if c == 'K' {
        b == a.shifted_up()
    } else if c == 'g' {
        b == a.moved_to_top()
    } else if c == 'G' {
        b == a.moved_to_bottom()
    } else if c == 's' {
        a.sorted_into(b)
    } else {
        b == a
    }
}

/// Runs list command `c` on `list`; says whether `c` is one.
fn list_command(list: &mut List, c: char) -> (handled: bool)
    requires
        old(list).wf(),
    ensures
        final(list).wf(),
        handled == is_list_command(c),
        list_command_effect(old(list)@, final(list)@, c),
{
    if c == 'j' {
        list.move_down();
    } else if c == 'J' {
        list.shift_down();
    } else if c == 'k' {
        list.move_up();
    } else if c == 'K' {
        list.shift_up();
    } else if c == 'g' {
        list.move_to_top();
    } else if c == 'G' {
        list.move_to_bottom();
    } else if c == 's' {
        list.sort();
    } else {
        return false;
    }
    true
}

/// The session as values.
pub struct AppModel {
    pub running: bool,
    pub todo: ListModel,
    pub done: ListModel,
    pub list_type: ListType,
    pub input_mode: InputMode,
    pub input: Seq<char>,
    pub input_index: int,
    pub terminal_size: (u16, u16),
    pub one_pane: bool,
}

impl AppModel {
    pub open spec fn wf(self) -> bool {
        &&& self.todo.wf()
        &&& self.done.wf()
        &&& self.todo.list_type == ListType::Todo
        &&& self.done.list_type == ListType::Done
        &&& 0 <= self.input_index <= self.input.len()
    }

    pub open spec fn focused(self) -> ListModel {
        if self.list_type == ListType::Todo {
            self.todo
        } else {
            self.done
        }
    }

    pub open spec fn with_focused(self, l: ListModel) -> AppModel {
        if self.list_type == ListType::Todo {
            AppModel { todo: l, ..self }
        } else {
            AppModel { done: l, ..self }
        }
    }

    pub open spec fn quit(self) -> AppModel {
        AppModel { running: false, ..self }
    }

    /// The selected pending item moves to the end of the done list.
    pub open spec fn checked(self) -> AppModel {
        if self.todo.len() > 0 {
            AppModel {
                todo: self.todo.removed(),
                done: self.done.added(self.todo.items[self.todo.current]),
                ..self
            }
        } else {
            self
        }
    }

    /// The selected done item moves to the end of the pending list.
    pub open spec fn unchecked(self) -> AppModel {
        if self.done.len() > 0 {
            AppModel {
                done: self.done.removed(),
                todo: self.todo.added(self.done.items[self.done.current]),
                ..self
            }
        } else {
            self
        }
    }

    /// The selected done item is dropped.
    pub open spec fn deleted(self) -> AppModel {
        AppModel { done: self.done.removed(), ..self }
    }

    pub open spec fn swapped(self) -> AppModel {
        AppModel {
            list_type: if self.list_type == ListType::Todo {
                ListType::Done
            } else {
                ListType::Todo
            },
            ..self
        }
    }

    /// Insert mode for `d`, with an empty buffer.
    pub open spec fn inserting(self, d: InputDestination) -> AppModel {
        AppModel { input_mode: InputMode::Insert(d), input: Seq::empty(), input_index: 0, ..self }
    }

    /// Insert mode for editing the focused item, its text in the buffer and
    /// the caret at the end; nothing happens on an empty list.
    pub open spec fn editing(self) -> AppModel {
        let l = self.focused();
        if l.len() > 0 {
            AppModel {
                input_mode: InputMode::Insert(InputDestination::EditItem),
                input: l.items[l.current],
                input_index: l.items[l.current].len() as int,
                ..self
            }
        } else {
            self
        }
    }

    /// Normal mode with an empty buffer and the caret at 0.
    pub open spec fn normal(self) -> AppModel {
        AppModel { input_mode: InputMode::Normal, input: Seq::empty(), input_index: 0, ..self }
    }

    /// The buffer applied as destination `d` says, back in normal mode.
    pub open spec fn committed(self, d: InputDestination) -> AppModel {
        let s = self.input;
        let m = self.normal();
        match d {
            InputDestination::NewItem => AppModel { todo: m.todo.added(s), ..m },
            InputDestination::NewItemBefore => AppModel { todo: m.todo.inserted_before(s), ..m },
            InputDestination::NewItemAfter => AppModel { todo: m.todo.inserted_after(s), ..m },
            InputDestination::EditItem => m.with_focused(m.focused().current_set(s)),
        }
    }

    pub open spec fn with_caret(self, i: int) -> AppModel {
        AppModel { input_index: i, ..self }
    }

    /// Character key `c` in normal mode.
    pub open spec fn normal_char(self, c: char, b: AppModel, redraw: bool) -> bool {
        let todo = self.list_type == ListType::Todo;
        if c == 'q' {
            b == self.quit() && redraw
        } else if c == 'd' {
            b == (if todo {
                self.checked()
            } else {
                self.deleted()
            }) && redraw
        } else if c == 'x' {
            b == (if todo {
                self.checked()
            } else {
                self.unchecked()
            }) && redraw
        } else if c == 'O' && todo {
            b == self.inserting(InputDestination::NewItemBefore) && redraw
        } else if c == 'o' && todo {
            b == self.inserting(InputDestination::NewItemAfter) && redraw
        } else if c == 'e' {
            b == self.editing() && redraw
        } else if c == 'a' || c == 'i' {
            b == self.inserting(InputDestination::NewItem) && redraw
        } else if c == 'h' || c == 'l' {
            b == self.swapped() && redraw
        } else if is_list_command(c) {
            &&& list_command_effect(self.focused(), b.focused(), c)
            &&& b == self.with_focused(b.focused())
            &&& redraw
        } else {
            b == self && !redraw
        }
    }

    /// Key `k` in normal mode.
    pub open spec fn normal_key(self, k: Key, b: AppModel, redraw: bool) -> bool {
        let todo = self.list_type == ListType::Todo;
        match k {
            Key::Char(c) => self.normal_char(c, b, redraw),
            Key::Esc => b == self.quit() && redraw,
            Key::Enter => b == (if todo {
                self.checked()
            } else {
                self.unchecked()
            }) && redraw,
            Key::Backspace => if todo {
                b == self && !redraw
            } else {
                b == self.deleted() && redraw
            },
            _ => b == self && !redraw,
        }
    }

    /// Key `k` in insert mode for destination `d`.
    pub open spec fn insert_key(self, d: InputDestination, k: Key, b: AppModel, redraw: bool) -> bool {
        let i = self.input_index;
        let n = self.input.len() as int;
        match k {
            Key::Left => b == self.with_caret(
                if i >= 1 {
                    i - 1
                } else {
                    i
                },
            ) && redraw,
            Key::Right => b == self.with_caret(
                if i + 1 <= n {
                    i + 1
                } else {
                    n
                },
            ) && redraw,
            Key::Esc => b == self.normal() && redraw,
            Key::Backspace => (if i > 0 {
                b == AppModel { input: self.input.remove(i - 1), input_index: i - 1, ..self }
            } else {
                b == self
            }) && redraw,
            Key::Enter => b == self.committed(d) && redraw,
            Key::Char(c) => b == AppModel {
                input: self.input.insert(i, c),
                input_index: i + 1,
                ..self
            } && redraw,
            Key::Other => b == self && !redraw,
        }
    }

    /// Event `ev` takes the session from this state to `b`, and asks for a
    /// redraw exactly when `redraw`.
    pub open spec fn handles(self, ev: Event, b: AppModel, redraw: bool) -> bool {
        match self.input_mode {
            InputMode::Normal => match ev {
                Event::Resize(w, h) => b == AppModel {
                    terminal_size: (w, h),
                    one_pane: w <= MAX_WIDTH_SINGLE_PANE,
                    ..self
                } && redraw,
                Event::Key(k) => self.normal_key(k, b, redraw),
                Event::Other => b == self && !redraw,
            },
            InputMode::Insert(d) => match ev {
                Event::Key(k) => self.insert_key(d, k, b, redraw),
                _ => b == self && !redraw,
            },
        }
    }
}

/// Position and size of the pending list's pane: the whole terminal in
/// single-pane mode, else the left half, which takes the odd column.
pub open spec fn todo_pane(size: (u16, u16), one_pane: bool) -> ((u16, u16), (u16, u16)) {
    if one_pane {
        ((0, 0), size)
    } else {
        ((0, 0), ((size.0 - size.0 / 2) as u16, size.1))
    }
}

/// Position and size of the done list's pane: the whole terminal in
/// single-pane mode, else the right half.
pub open spec fn done_pane(size: (u16, u16), one_pane: bool) -> ((u16, u16), (u16, u16)) {
    if one_pane {
        ((0, 0), size)
    } else {
        (((size.0 - size.0 / 2) as u16, 0), ((size.0 / 2) as u16, size.1))
    }
}

/// The prompt shown in insert mode before the buffer.
pub open spec fn leader_spec(d: InputDestination) -> Seq<char> {
    match d {
        InputDestination::NewItem => "New item: "@,
        InputDestination::NewItemBefore => "New item before current: "@,
        InputDestination::NewItemAfter => "New item after current: "@,
        InputDestination::EditItem => "Edit item: "@,
    }
}

/// The prompt shown in insert mode before the buffer.
pub fn leader_text(d: InputDestination) -> (r: String)
    ensures
        r@ == leader_spec(d),
{
    match d {
        InputDestination::NewItem => String::from_str("New item: "),
        InputDestination::NewItemBefore => String::from_str("New item before current: "),
        InputDestination::NewItemAfter => String::from_str("New item after current: "),
        InputDestination::EditItem => String::from_str("Edit item: "),
    }
}

/// `x` as a screen coordinate, the largest one when it does not fit.
pub open spec fn coord(x: int) -> u16 {
    if x <= u16::MAX {
        x as u16
    } else {
        u16::MAX
    }
}

fn coord_sum(a: usize, b: usize) -> (r: u16)
    ensures
        r == coord(a + b),
{
    if a > u16::MAX as usize || b > u16::MAX as usize - a {
        u16::MAX
    } else {
        (a + b) as u16
    }
}

/// One list drawn in its pane.
pub struct Pane {
    pub list_type: ListType,
    pub pos: (u16, u16),
    pub size: (u16, u16),
    pub rows: Vec<Row>,
}

/// What the screen shows: the panes and where the cursor stands, or in
/// insert mode the prompt, the buffer and the cursor.
pub enum Frame {
    Lists(Vec<Pane>, (u16, u16)),
    Prompt(InputDestination, String, (u16, u16)),
}

/// Drawing list `a` into pane `p` at `region` leaves it as `b`: a pane too
/// narrow for any text shows nothing and leaves the list as it is.
pub open spec fn pane_drawn(a: List, b: List, region: ((u16, u16), (u16, u16)), p: Pane) -> bool {
    &&& p.list_type == a.list_type
    &&& p.pos == region.0
    &&& p.size == region.1
    &&& region.1.0 > CHECKBOX_WIDTH ==> draws(a, b, region.1, p.rows@)
    &&& region.1.0 <= CHECKBOX_WIDTH ==> b == a && p.rows@.len() == 0
}

/// The pending and done lists, the focus, the input mode with its text
/// buffer and caret, and the terminal's size.
pub struct TodoApp {
    pub running: bool,
    pub todo: List,
    pub done: List,
    pub list_type: ListType,
    pub input_mode: InputMode,
    pub input: Vec<char>,
    pub input_index: usize,
    pub terminal_size: (u16, u16),
    pub one_pane: bool,
}

impl View for TodoApp {
    type V = AppModel;

    open spec fn view(&self) -> AppModel {
        AppModel {
            running: self.running,
            todo: self.todo@,
            done: self.done@,
            list_type: self.list_type,
            input_mode: self.input_mode,
            input: self.input@,
            input_index: self.input_index as int,
            terminal_size: self.terminal_size,
            one_pane: self.one_pane,
        }
    }
}

impl TodoApp {
    pub open spec fn wf(&self) -> bool {
        self@.wf()
    }

    /// A session in normal mode on the pending list.
    pub fn new(todo: Vec<String>, done: Vec<String>, terminal_size: (u16, u16)) -> (r: TodoApp)
        ensures
            r.wf(),
            r.todo.items@ == todo@,
            r.done.items@ == done@,
            r@.todo.current == 0 && r@.todo.offset == 0,
            r@.done.current == 0 && r@.done.offset == 0,
            r.running,
            r.list_type == ListType::Todo,
            r.input_mode == InputMode::Normal,
            r.input@.len() == 0,
            r.input_index == 0,
            r.terminal_size == terminal_size,
            r.one_pane == (terminal_size.0 <= MAX_WIDTH_SINGLE_PANE),
    {
        TodoApp {
            running: true,
            todo: List::new(todo, ListType::Todo),
            done: List::new(done, ListType::Done),
            list_type: ListType::Todo,
            input_mode: InputMode::Normal,
            input: Vec::new(),
            input_index: 0,
            terminal_size,
            one_pane: terminal_size.0 <= MAX_WIDTH_SINGLE_PANE,
        }
    }

    /// Moves the focus to the other list.
    pub fn swap_list(&mut self)
        requires
            old(self).wf(),
        ensures
            final(self)@ == old(self)@.swapped(),
            final(self).wf(),
    {
        self.list_type = self.list_type.next();
    }

    /// Moves the selected pending item to the end of the done list.
    pub fn check_item(&mut self)
        requires
            old(self).wf(),
        ensures
            final(self)@ == old(self)@.checked(),
            final(self).wf(),
    {
        if let Some(item) = self.todo.remove() {
            self.done.add(item);
        }
    }

    /// Moves the selected done item to the end of the pending list.
    pub fn uncheck_item(&mut self)
        requires
            old(self).wf(),
        ensures
            final(self)@ == old(self)@.unchecked(),
            final(self).wf(),
    {
        if let Some(item) = self.done.remove() {
            self.todo.add(item);
        }
    }

    /// Drops the selected done item.
    pub fn delete_item(&mut self)
        requires
            old(self).wf(),
        ensures
            final(self)@ == old(self)@.deleted(),
            final(self).wf(),
    {
        self.done.remove();
    }

    fn start_input(&mut self, d: InputDestination)
        requires
            old(self).wf(),
        ensures
            final(self)@ == old(self)@.inserting(d),
            final(self).wf(),
    {
        self.input_mode = InputMode::Insert(d);
        self.input = Vec::new();
        self.input_index = 0;
    }

    fn start_edit(&mut self)
        requires
            old(self).wf(),
        ensures
            final(self)@ == old(self)@.editing(),
            final(self).wf(),
    {
        let current = match self.list_type {
            ListType::Todo => self.todo.clone_current(),
            ListType::Done => self.done.clone_current(),
        };
        if let Some(item) = current {
            let cs = chars_of(item.as_str());
            self.input_index = cs.len();
            self.input = cs;
            self.input_mode = InputMode::Insert(InputDestination::EditItem);
        }
    }

    fn focused_command(&mut self, c: char) -> (handled: bool)
        requires
            old(self).wf(),
        ensures
            final(self).wf(),
            handled == is_list_command(c),
            list_command_effect(old(self)@.focused(), final(self)@.focused(), c),
            final(self)@ == old(self)@.with_focused(final(self)@.focused()),
    {
        match self.list_type {
            ListType::Todo => list_command(&mut self.todo, c),
            ListType::Done => list_command(&mut self.done, c),
        }
    }

    fn normal_key(&mut self, k: Key) -> (redraw: bool)
        requires
            old(self).wf(),
            old(self).input_mode == InputMode::Normal,
        ensures
            final(self).wf(),
            old(self)@.normal_key(k, final(self)@, redraw),
    {
        let todo = self.list_type == ListType::Todo;
        match k {
            Key::Esc => {
                self.running = false;
                true
            },
            Key::Enter => {
                if todo {
                    self.check_item();
                } else {
                    self.uncheck_item();
                }
                true
            },
            Key::Backspace => {
                if todo {
                    false
                } else {
                    self.delete_item();
                    true
                }
            },
            Key::Char(c) => {
                if c == 'q' {
                    self.running = false;
                } else if c == 'd' {
                    if todo {
                        self.check_item();
                    } else {
                        self.delete_item();
                    }
                } else if c == 'x' {
                    if todo {
                        self.check_item();
                    } else {
                        self.uncheck_item();
                    }
                } else if c == 'O' && todo {
                    self.start_input(InputDestination::NewItemBefore);
                } else if c == 'o' && todo {
                    self.start_input(InputDestination::NewItemAfter);
                } else if c == 'e' {
                    self.start_edit();
                } else if c == 'a' || c == 'i' {
                    self.start_input(InputDestination::NewItem);
                } else if c == 'h' || c == 'l' {
                    self.swap_list();
                } else {
                    return self.focused_command(c);
                }
                true
            },
            _ => false,
        }
    }

    fn commit_input(&mut self, d: InputDestination)
        requires
            old(self).wf(),
        ensures
            final(self)@ == old(self)@.committed(d),
            final(self).wf(),
    {
        let s = string_of(&self.input);
        self.input_mode = InputMode::Normal;
        self.input_index = 0;
        self.input = Vec::new();
        match d {
            InputDestination::NewItem => self.todo.add(s),
            InputDestination::NewItemBefore => self.todo.insert_before(s),
            InputDestination::NewItemAfter => self.todo.insert_after(s),
            InputDestination::EditItem => match self.list_type {
                ListType::Todo => self.todo.set_current(s),
                ListType::Done => self.done.set_current(s),
            },
        }
    }

    fn insert_key(&mut self, d: InputDestination, k: Key) -> (redraw: bool)
        requires
            old(self).wf(),
        ensures
            final(self).wf(),
            old(self)@.insert_key(d, k, final(self)@, redraw),
    {
        match k {
            Key::Left => {
                if self.input_index >= 1 {
                    self.input_index -= 1;
                }
            },
            Key::Right => {
                let len = self.input.len();
                if self.input_index < len {
                    self.input_index += 1;
                }
            },
            Key::Esc => {
                self.input_mode = InputMode::Normal;
                self.input = Vec::new();
                self.input_index = 0;
            },
            Key::Backspace => {
                if self.input_index > 0 {
                    self.input_index -= 1;
                    self.input.remove(self.input_index);
                }
            },
            Key::Enter => {
                self.commit_input(d);
            },
            Key::Char(c) => {
                self.input.insert(self.input_index, c);
                let len = self.input.len();
                assert(self.input_index < len);
                self.input_index += 1;
            },
            Key::Other => {
                return false;
            },
        }
        true
    }

    /// Handles one terminal event; says whether the screen must be redrawn.
    pub fn handle_event(&mut self, ev: Event) -> (redraw: bool)
        requires
            old(self).wf(),
        ensures
            final(self).wf(),
            old(self)@.handles(ev, final(self)@, redraw),
    {
        match self.input_mode {
            InputMode::Normal => match ev {
                Event::Resize(w, h) => {
                    self.terminal_size = (w, h);
                    self.one_pane = w <= MAX_WIDTH_SINGLE_PANE;
                    true
                },
                Event::Key(k) => self.normal_key(k),
                Event::Other => false,
            },
            InputMode::Insert(d) => match ev {
                Event::Key(k) => self.insert_key(d, k),
                _ => false,
            },
        }
    }
}

impl TodoApp {
    pub fn todo_region(&self) -> (r: ((u16, u16), (u16, u16)))
        ensures
            r == todo_pane(self.terminal_size, self.one_pane),
    {
        if self.one_pane {
            ((0, 0), self.terminal_size)
        } else {
            let w = self.terminal_size.0;
            ((0, 0), (w - w / 2, self.terminal_size.1))
        }
    }

    pub fn done_region(&self) -> (r: ((u16, u16), (u16, u16)))
        ensures
            r == done_pane(self.terminal_size, self.one_pane),
    {
        if self.one_pane {
            ((0, 0), self.terminal_size)
        } else {
            let w = self.terminal_size.0;
            ((w - w / 2, 0), (w / 2, self.terminal_size.1))
        }
    }

    /// Scrolls the pending list into its pane and gives what the pane shows.
    pub fn draw_todo(&mut self) -> (r: Pane)
        requires
            old(self).wf(),
        ensures
            final(self).wf(),
            pane_drawn(old(self).todo, final(self).todo, todo_pane(old(self).terminal_size, old(self).one_pane), r),
            *final(self) == (TodoApp { todo: final(self).todo, ..*old(self) }),
    {
        let (pos, size) = self.todo_region();
        let rows = if size.0 as usize > CHECKBOX_WIDTH {
            self.todo.draw(size)
        } else {
            Vec::new()
        };
        Pane { list_type: ListType::Todo, pos, size, rows }
    }

    /// Scrolls the done list into its pane and gives what the pane shows.
    pub fn draw_done(&mut self) -> (r: Pane)
        requires
            old(self).wf(),
        ensures
            final(self).wf(),
            pane_drawn(old(self).done, final(self).done, done_pane(old(self).terminal_size, old(self).one_pane), r),
            *final(self) == (TodoApp { done: final(self).done, ..*old(self) }),
    {
        let (pos, size) = self.done_region();
        let rows = if size.0 as usize > CHECKBOX_WIDTH {
            self.done.draw(size)
        } else {
            Vec::new()
        };
        Pane { list_type: ListType::Done, pos, size, rows }
    }

    /// Where the cursor goes: on the focused list's selected item, in its
    /// pane; at row 1 of the pane when that item is scrolled off above; at
    /// the pane's corner when the pane is too narrow for any text.
    pub open spec fn cursor_spec(&self) -> (u16, u16) {
        let region = if self.list_type == ListType::Todo {
            todo_pane(self.terminal_size, self.one_pane)
        } else {
            done_pane(self.terminal_size, self.one_pane)
        };
        let l = if self.list_type == ListType::Todo {
            self.todo
        } else {
            self.done
        };
        let y = l.y_pos_spec(region.1);
        let row = if y >= l.y_offset {
            y - l.y_offset
        } else {
            1
        };
        if region.1.0 > CHECKBOX_WIDTH {
            (region.0.0, coord(region.0.1 + row))
        } else {
            region.0
        }
    }

    /// Where the cursor goes: see `cursor_spec`.
    pub fn go_to_current_index(&self) -> (r: (u16, u16))
        requires
            self.wf(),
        ensures
            r == self.cursor_spec(),
    {
        let (pos, size) = match self.list_type {
            ListType::Todo => self.todo_region(),
            ListType::Done => self.done_region(),
        };
        if size.0 as usize <= CHECKBOX_WIDTH {
            return pos;
        }
        let row = match self.list_type {
            ListType::Todo => self.todo.cursor_row(size),
            ListType::Done => self.done.cursor_row(size),
        };
        let y = if row <= (u16::MAX - pos.1) as usize {
            pos.1 + row as u16
        } else {
            u16::MAX
        };
        (pos.0, y)
    }

    /// What the screen shows now. In normal mode: the focused list's pane (or
    /// both panes, pending first, on a wide terminal), each scrolled to its
    /// selection, and the cursor on the focused selection. In insert mode:
    /// the prompt for the destination, the buffer, and the cursor at the
    /// caret after the prompt.
    pub fn redraw(&mut self) -> (r: Frame)
        requires
            old(self).wf(),
        ensures
            final(self).wf(),
            final(self)@ == (AppModel { todo: final(self)@.todo, done: final(self)@.done, ..old(self)@ }),
            match old(self).input_mode {
                InputMode::Normal => match r {
                    Frame::Lists(panes, cursor) => {
                        let tp = todo_pane(old(self).terminal_size, old(self).one_pane);
                        let dp = done_pane(old(self).terminal_size, old(self).one_pane);
                        let focus_todo = old(self).list_type == ListType::Todo;
                        &&& old(self).one_pane && focus_todo ==> panes@.len() == 1 && pane_drawn(
                            old(self).todo,
                            final(self).todo,
                            tp,
                            panes@[0],
                        ) && final(self).done == old(self).done
                        &&& old(self).one_pane && !focus_todo ==> panes@.len() == 1 && pane_drawn(
                            old(self).done,
                            final(self).done,
                            dp,
                            panes@[0],
                        ) && final(self).todo == old(self).todo
                        &&& !old(self).one_pane ==> panes@.len() == 2 && pane_drawn(
                            old(self).todo,
                            final(self).todo,
                            tp,
                            panes@[0],
                        ) && pane_drawn(old(self).done, final(self).done, dp, panes@[1])
                        &&& cursor == final(self).cursor_spec()
                    },
                    Frame::Prompt(..) => false,
                },
                InputMode::Insert(d) => match r {
                    Frame::Prompt(d2, text, cursor) => {
                        &&& d2 == d
                        &&& text@ == old(self).input@
                        &&& cursor == (coord(leader_spec(d).len() + old(self).input_index), 0u16)
                        &&& final(self)@ == old(self)@
                    },
                    Frame::Lists(..) => false,
                },
            },
    {
        match self.input_mode {
            InputMode::Normal => {
                let mut panes: Vec<Pane> = Vec::new();
                if self.one_pane {
                    match self.list_type {
                        ListType::Todo => panes.push(self.draw_todo()),
                        ListType::Done => panes.push(self.draw_done()),
                    }
                } else {
                    panes.push(self.draw_todo());
                    panes.push(self.draw_done());
                }
                let cursor = self.go_to_current_index();
                Frame::Lists(panes, cursor)
            },
            InputMode::Insert(d) => {
                let text = string_of(&self.input);
                let leader = leader_text(d);
                let col = coord_sum(leader.as_str().unicode_len(), self.input_index);
                Frame::Prompt(d, text, (col, 0))
            },
        }
    }
}

} // verus!
