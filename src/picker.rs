//! The picker's state machine: navigation and filter entry, the keys each
//! mode takes, and what the program does next.

use crate::filter::{filter_by_chars, filter_view};
use crate::selection::{
    clamp_index, clamp_selection, down_index, move_down, move_up, scroll_offset_of, up_index,
    valid_index, visible_range,
};
use crate::text::{alphanumeric, is_alphanumeric, string_of};
use vstd::prelude::*;

verus! {

/// The input mode.
#[derive(Debug, Clone, Copy, PartialEq, Eq, Structural)]
pub enum Mode {
    /// Keys move the highlight, open the filter, run or quit.
    Navigation,
    /// Keys edit the filter text.
    FilterEntry,
}

/// A key read from the terminal.
#[derive(Debug, Clone, Copy, PartialEq, Eq, Structural)]
pub enum Key {
    /// A character key, Enter (`'\n'`) and Escape (`'\x1b'`) included.
    Char(char),
    Backspace,
    Delete,
    /// Any other key.
    Other,
}

/// What the program does after a key.
#[derive(Debug, PartialEq, Eq)]
pub enum Action {
    /// Keep reading keys.
    Stay,
    /// Leave without running anything.
    Quit,
    /// Leave and run this command.
    Run(String),
}

/// `Action` with the command as a character sequence.
pub enum ActionView {
    Stay,
    Quit,
    Run(Seq<char>),
}

impl View for Action {
    type V = ActionView;

    open spec fn view(&self) -> ActionView {
        match self {
            Action::Stay => ActionView::Stay,
            Action::Quit => ActionView::Quit,
            Action::Run(command) => ActionView::Run(command@),
        }
    }
}

/// The state of the picker: the full command list, the filter text, the
/// highlighted row of the filtered view, and the mode.
pub struct PickerView {
    pub commands: Seq<Seq<char>>,
    pub filter: Seq<char>,
    pub highlighted: int,
    pub mode: Mode,
}

impl PickerView {
    /// The filtered view: the commands that contain the filter text.
    pub open spec fn visible(self) -> Seq<Seq<char>> {
        filter_view(self.commands, self.filter)
    }

    /// The highlight is a row of the filtered view, or 0 when it is empty.
    pub open spec fn valid(self) -> bool {
        valid_index(self.highlighted, self.visible().len() as int)
    }

    /// The state with filter text `filter`, the highlight kept inside the
    /// view that it gives.
    pub open spec fn refiltered(self, filter: Seq<char>) -> PickerView {
        PickerView {
            commands: self.commands,
            filter,
            highlighted: clamp_index(self.highlighted, filter_view(self.commands, filter).len() as int),
            mode: self.mode,
        }
    }

    /// The state with the highlight at `highlighted`.
    pub open spec fn highlight(self, highlighted: int) -> PickerView {
        PickerView { highlighted, ..self }
    }

    /// What the confirm key does: run the highlighted command, or nothing
    /// when the view is empty.
    pub open spec fn confirmed(self) -> ActionView {
        if self.visible().len() == 0 {
            ActionView::Stay
        } else {
            ActionView::Run(self.visible()[self.highlighted])
        }
    }

    /// The first row on screen and the row after the last one, in a viewport
    /// of `height` rows.
    pub open spec fn window(self, height: int) -> (int, int) {
        let start = scroll_offset_of(self.highlighted, height);
        let len = self.visible().len() as int;
        (start, if start + height <= len { start + height } else { len })
    }
}

/// The filter text without its last character, if it has one.
pub open spec fn without_last(filter: Seq<char>) -> Seq<char> {
    if filter.len() > 0 {
        filter.drop_last()
    } else {
        filter
    }
}

/// The picker after `key`, and what the program does next. `printable` says
/// whether a character key may join the filter text (the caller decides
/// this: alphanumeric characters and the space).
pub open spec fn step(s: PickerView, key: Key, printable: bool) -> (PickerView, ActionView) {
    match s.mode {
        Mode::Navigation => match key {
            Key::Char('q') => (s, ActionView::Quit),
            Key::Char('w') => (
                s.highlight(up_index(s.highlighted, s.visible().len() as int)),
                ActionView::Stay,
            ),
            Key::Char('s') => (
                s.highlight(down_index(s.highlighted, s.visible().len() as int)),
                ActionView::Stay,
            ),
            Key::Char('\n') => (s, s.confirmed()),
            Key::Char('f') => (
                PickerView { mode: Mode::FilterEntry, highlighted: 0, ..s },
                ActionView::Stay,
            ),
            _ => (s, ActionView::Stay),
        },
        Mode::FilterEntry => match key {
            Key::Char('\x1b') => (
                PickerView { mode: Mode::Navigation, ..s.refiltered(Seq::empty()) },
                ActionView::Stay,
            ),
            Key::Char('\n') => (s, s.confirmed()),
            Key::Backspace | Key::Delete | Key::Char('\x7f') => (
                s.refiltered(without_last(s.filter)),
                ActionView::Stay,
            ),
            Key::Char(c) => if printable {
                (s.refiltered(s.filter.push(c)), ActionView::Stay)
            } else {
                (s, ActionView::Stay)
            },
            Key::Other => (s, ActionView::Stay),
        },
    }
}

/// A character key whose character may join the filter text: an
/// alphanumeric character or the space.
pub open spec fn key_printable(key: Key) -> bool {
    match key {
        Key::Char(c) => alphanumeric(c) || c == ' ',
        _ => false,
    }
}

/// One row of the list as drawn.
#[derive(Debug, PartialEq, Eq)]
pub struct Row {
    pub text: String,
    pub highlighted: bool,
}

/// The picker: the command list, built once, and the state that keys change.
pub struct Picker {
    commands: Vec<String>,
    filter: Vec<char>,
    visible: Vec<String>,
    highlighted: usize,
    mode: Mode,
}

impl View for Picker {
    type V = PickerView;

    closed spec fn view(&self) -> PickerView {
        PickerView {
            commands: self.commands.deep_view(),
            filter: self.filter@,
            highlighted: self.highlighted as int,
            mode: self.mode,
        }
    }
}

impl Picker {
    /// The stored filtered view is the one the filter text gives, and the
    /// highlight is valid for it.
    pub closed spec fn wf(&self) -> bool {
        &&& self.visible.deep_view() == self@.visible()
        &&& self@.valid()
    }

    /// A picker over `commands`, in navigation mode with an empty filter and
    /// the first row highlighted.
    pub fn new(commands: Vec<String>) -> (p: Picker)
        ensures
            p.wf(),
            p@ == (PickerView {
                commands: commands.deep_view(),
                filter: Seq::empty(),
                highlighted: 0,
                mode: Mode::Navigation,
            }),
    {
        let filter: Vec<char> = Vec::new();
        let visible = filter_by_chars(&commands, &filter);
        Picker { commands, filter, visible, highlighted: 0, mode: Mode::Navigation }
    }

    /// The input mode.
    pub fn mode(&self) -> (r: Mode)
        ensures
            r == self@.mode,
    {
        self.mode
    }

    /// The filter text.
    pub fn filter_text(&self) -> (r: String)
        ensures
            r@ == self@.filter,
    {
        string_of(&self.filter)
    }

    /// The filtered view.
    pub fn visible_commands(&self) -> (r: &Vec<String>)
        requires
            self.wf(),
        ensures
            r.deep_view() == self@.visible(),
    {
        &self.visible
    }

    /// The highlighted row of the filtered view; `None` when it is empty.
    pub fn highlighted_index(&self) -> (r: Option<usize>)
        requires
            self.wf(),
        ensures
            self@.visible().len() == 0 ==> r is None,
            self@.visible().len() > 0 ==> r == Some(self@.highlighted as usize),
    {
        if self.visible.len() == 0 {
            None
        } else {
            Some(self.highlighted)
        }
    }

    /// Sets the filter text, recomputes the filtered view from the full list,
    /// and keeps the highlight inside it.
    fn set_filter(&mut self, filter: Vec<char>)
        requires
            old(self).wf(),
        ensures
            final(self).wf(),
            final(self)@ == old(self)@.refiltered(filter@),
    {
        let visible = filter_by_chars(&self.commands, &filter);
        self.highlighted = clamp_selection(self.highlighted, visible.len());
        self.filter = filter;
        self.visible = visible;
    }

    /// Appends `c` to the filter text and refilters.
    pub fn append_filter_char(&mut self, c: char)
        requires
            old(self).wf(),
        ensures
            final(self).wf(),
            final(self)@ == old(self)@.refiltered(old(self)@.filter.push(c)),
    {
        let mut filter = self.filter.clone();
        filter.push(c);
        self.set_filter(filter);
    }

    /// Removes the last character of the filter text, if any, and refilters.
    pub fn remove_filter_char(&mut self)
        requires
            old(self).wf(),
        ensures
            final(self).wf(),
            final(self)@ == old(self)@.refiltered(without_last(old(self)@.filter)),
    {
        let mut filter = self.filter.clone();
        if filter.len() > 0 {
            filter.pop();
        }
        self.set_filter(filter);
    }

    /// What the confirm key does in the current state.
    fn confirm(&self) -> (r: Action)
        requires
            self.wf(),
        ensures
            r@ == self@.confirmed(),
    {
        if self.visible.len() == 0 {
            Action::Stay
        } else {
            Action::Run(self.visible[self.highlighted].clone())
        }
    }

    /// Takes one key in navigation mode.
    fn navigation_key(&mut self, key: Key) -> (r: Action)
        requires
            old(self).wf(),
            old(self)@.mode == Mode::Navigation,
        ensures
            final(self).wf(),
            (final(self)@, r@) == step(old(self)@, key, false),
    {
        match key {
            Key::Char('q') => Action::Quit,
            Key::Char('w') => {
                self.highlighted = move_up(self.highlighted, self.visible.len());
                Action::Stay
            },
            Key::Char('s') => {
                self.highlighted = move_down(self.highlighted, self.visible.len());
                Action::Stay
            },
            Key::Char('\n') => self.confirm(),
            Key::Char('f') => {
                self.mode = Mode::FilterEntry;
                self.highlighted = 0;
                Action::Stay
            },
            _ => Action::Stay,
        }
    }

    /// Takes one key in filter-entry mode; `printable` says whether a
    /// character key may join the filter text.
    fn filter_key(&mut self, key: Key, printable: bool) -> (r: Action)
        requires
            old(self).wf(),
            old(self)@.mode == Mode::FilterEntry,
        ensures
            final(self).wf(),
            (final(self)@, r@) == step(old(self)@, key, printable),
    {
        match key {
            Key::Char('\x1b') => {
                self.set_filter(Vec::new());
                self.mode = Mode::Navigation;
                Action::Stay
            },
            Key::Char('\n') => self.confirm(),
            Key::Backspace | Key::Delete | Key::Char('\x7f') => {
                self.remove_filter_char();
                Action::Stay
            },
            Key::Char(c) => {
                if printable {
                    self.append_filter_char(c);
                }
                Action::Stay
            },
            Key::Other => Action::Stay,
        }
    }

    /// Takes one key, `printable` saying whether a character key may join
    /// the filter text, and says what the program does next.
    pub fn apply_key(&mut self, key: Key, printable: bool) -> (r: Action)
        requires
            old(self).wf(),
        ensures
            final(self).wf(),
            (final(self)@, r@) == step(old(self)@, key, printable),
    {
        match self.mode {
            Mode::Navigation => self.navigation_key(key),
            Mode::FilterEntry => self.filter_key(key, printable),
        }
    }

    /// Takes one key read from the terminal and says what the program does
    /// next. A character joins the filter text when it is alphanumeric or a
    /// space.
    pub fn handle_key(&mut self, key: Key) -> (r: Action)
        requires
            old(self).wf(),
        ensures
            final(self).wf(),
            (final(self)@, r@) == step(old(self)@, key, key_printable(key)),
    {
        let printable = match key {
            Key::Char(c) => is_alphanumeric(c) || c == ' ',
            _ => false,
        };
        self.apply_key(key, printable)
    }

    /// The rows on screen in a viewport of `height` rows, each with whether
    /// it is the highlighted one.
    pub fn rows(&self, height: usize) -> (r: Vec<Row>)
        requires
            self.wf(),
            height >= 1,
        ensures
            r.len() == self@.window(height as int).1 - self@.window(height as int).0,
            forall|k: int|
                0 <= k < r.len() ==> (#[trigger] r@[k]).text@ == self@.visible()[self@.window(
                    height as int,
                ).0 + k] && r@[k].highlighted == (self@.window(height as int).0 + k
                    == self@.highlighted),
    {
        let (start, end) = visible_range(self.highlighted, self.visible.len(), height);
        let mut rows: Vec<Row> = Vec::new();
        let mut i: usize = start;
        while i < end
            invariant
                start <= i <= end,
                end <= self.visible.len(),
                rows.len() == i - start,
                forall|k: int|
                    0 <= k < rows.len() ==> (#[trigger] rows@[k]).text@ == self.visible@[start
                        + k]@ && rows@[k].highlighted == (start + k == self.highlighted),
            decreases end - i,
        {
            rows.push(Row { text: self.visible[i].clone(), highlighted: i == self.highlighted });
            i = i + 1;
        }
        rows
    }
}

/// Every key keeps the highlight valid for the filtered view; and when a key
/// leaves a view of `m` rows with `m` at most the old highlight, the
/// highlight goes to the last row (to 0 when the view is empty).
pub proof fn lemma_step_reclamps(s: PickerView, key: Key, printable: bool)
    requires
        s.valid(),
    ensures
        step(s, key, printable).0.valid(),
        step(s, key, printable).0.visible().len() <= s.highlighted ==> {
            let t = step(s, key, printable).0;
            if t.visible().len() == 0 {
                t.highlighted == 0
            } else {
                t.highlighted == t.visible().len() - 1
            }
        },
{
}

} // verus!
