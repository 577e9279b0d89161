//! The application state: the habit collection, the selection in the grid
//! of cards, the scrolled viewport, and the modal input state machine.

use crate::calendar::{today, valid_day};
use crate::habit::{habit_toggled, AppData, Habit};
use crate::text::{pop_char, push_char, trim_text, trimmed};
use vstd::prelude::*;

verus! {

/// Cards per grid row.
pub const GRID_COLUMNS: usize = 3;

/// What the keyboard is currently doing. The text being typed lives only
/// in the two modes that edit a name.
#[derive(Debug)]
pub enum InputMode {
    Normal,
    Adding(String),
    Renaming(String),
    Deleting,
}

impl InputMode {
    /// The text typed so far; empty outside the two editing modes.
    pub open spec fn buffer(&self) -> Seq<char> {
        match self {
            InputMode::Adding(b) => b@,
            InputMode::Renaming(b) => b@,
            _ => Seq::empty(),
        }
    }
}

/// A key press, as far as the application tells keys apart.
#[derive(Clone, Copy, Debug, PartialEq, Eq, Structural)]
pub enum Key {
    Char(char),
    Enter,
    Esc,
    Backspace,
    Other,
}

/// Everything the run loop keeps between frames.
pub struct App {
    pub data: AppData,
    pub should_quit: bool,
    pub selected_index: usize,
    pub input_mode: InputMode,
    /// The first grid row shown.
    pub scroll_offset: usize,
    /// Whether cards show the statistics row (and day labels).
    pub show_stats: bool,
}

/// Grid row of a linear index.
pub open spec fn row_of(i: int) -> int {
    i / GRID_COLUMNS as int
}

/// Grid column of a linear index.
pub open spec fn col_of(i: int) -> int {
    i % GRID_COLUMNS as int
}

/// One row down, if that cell holds a habit.
pub open spec fn down_index(i: int, len: int) -> int {
    if len > 0 && i + GRID_COLUMNS < len {
        i + GRID_COLUMNS
    } else {
        i
    }
}

/// One row up, unless already on the first row.
pub open spec fn up_index(i: int) -> int {
    if i >= GRID_COLUMNS {
        i - GRID_COLUMNS
    } else {
        i
    }
}

/// One column left, unless already on the first column.
pub open spec fn left_index(i: int) -> int {
    if col_of(i) > 0 {
        i - 1
    } else {
        i
    }
}

/// One column right, unless on the last column or the last habit.
pub open spec fn right_index(i: int, len: int) -> int {
    if len > 0 && col_of(i) < GRID_COLUMNS - 1 && i + 1 < len {
        i + 1
    } else {
        i
    }
}

/// The last habit, if there is one.
pub open spec fn last_index(i: int, len: int) -> int {
    if len > 0 {
        len - 1
    } else {
        i
    }
}

/// Rows of cards that fit in `visible_height`, at least one.
pub open spec fn visible_row_count(visible_height: int, card_height: int) -> int {
    if visible_height / card_height < 1 {
        1
    } else {
        visible_height / card_height
    }
}

/// The scroll offset that brings `row` into a viewport of `visible` rows
/// starting at `offset`, moving it as little as possible.
pub open spec fn scrolled_offset(offset: int, row: int, visible: int) -> int {
    if row < offset {
        row
    } else if row >= offset + visible {
        row - (visible - 1)
    } else {
        offset
    }
}

/// The index to select after the habit at `i` is removed from `len` habits.
pub open spec fn index_after_delete(i: int, len: int) -> int {
    if i < len && i >= len - 1 && len - 1 > 0 {
        len - 2
    } else {
        i
    }
}

impl App {
    /// The selection points at a habit whenever there is one, and no habit
    /// records a day twice.
    pub open spec fn wf(&self) -> bool {
        &&& self.data.habits@.len() > 0 ==> self.selected_index < self.data.habits@.len()
        &&& forall|j: int| 0 <= j < self.data.habits@.len() ==> (#[trigger] self.data.habits@[j]).wf()
    }

    /// The number of habits.
    pub open spec fn habit_count(&self) -> int {
        self.data.habits@.len() as int
    }

    /// Everything but the selection and the input mode is as in `other`.
    pub open spec fn same_view(&self, other: &App) -> bool {
        &&& self.data == other.data
        &&& self.should_quit == other.should_quit
        &&& self.scroll_offset == other.scroll_offset
        &&& self.show_stats == other.show_stats
    }

    /// `self` is `other` with only the selection moved to `i`.
    pub open spec fn moved_from(&self, other: &App, i: int) -> bool {
        &&& self.same_view(other)
        &&& self.input_mode == other.input_mode
        &&& self.selected_index as int == i
    }

    /// `self` is `other` with only the input mode changed.
    pub open spec fn mode_changed_from(&self, other: &App) -> bool {
        &&& self.same_view(other)
        &&& self.selected_index == other.selected_index
    }

    /// A new application state over `data`, in normal mode, with the first
    /// habit selected.
    pub fn new(data: AppData) -> (r: App)
        ensures
            r.data == data,
            !r.should_quit,
            r.selected_index == 0,
            r.input_mode is Normal,
            r.scroll_offset == 0,
            r.show_stats,
    {
        App {
            data,
            should_quit: false,
            selected_index: 0,
            input_mode: InputMode::Normal,
            scroll_offset: 0,
            show_stats: true,
        }
    }

    /// The (row, column) of a linear index.
    pub fn grid_position(&self, index: usize) -> (r: (usize, usize))
        ensures
            r.0 as int == row_of(index as int),
            r.1 as int == col_of(index as int),
    {
        (index / GRID_COLUMNS, index % GRID_COLUMNS)
    }

    /// The grid row of the selection.
    pub fn selected_row(&self) -> (r: usize)
        ensures
            r as int == row_of(self.selected_index as int),
    {
        self.selected_index / GRID_COLUMNS
    }

    /// Rows of the grid: enough for every habit, none when there is none.
    pub fn total_rows(&self) -> (r: usize)
        ensures
            self.habit_count() == 0 ==> r == 0,
            self.habit_count() > 0 ==> r as int == (self.habit_count() + GRID_COLUMNS - 1) / GRID_COLUMNS as int,
    {
        let len = self.data.habits.len();
        if len == 0 {
            0
        } else {
            (len - 1) / GRID_COLUMNS + 1
        }
    }

    /// Moves the viewport so that the selected row is visible.
    pub fn adjust_scroll(&mut self, visible_height: u16, card_height: u16)
        ensures
            card_height == 0 ==> final(self).scroll_offset == old(self).scroll_offset,
            card_height > 0 ==> final(self).scroll_offset as int == scrolled_offset(
                old(self).scroll_offset as int,
                row_of(old(self).selected_index as int),
                visible_row_count(visible_height as int, card_height as int),
            ),
            card_height > 0 ==> final(self).scroll_offset <= row_of(old(self).selected_index as int)
                < final(self).scroll_offset + visible_row_count(visible_height as int, card_height as int),
            final(self).data == old(self).data,
            final(self).should_quit == old(self).should_quit,
            final(self).selected_index == old(self).selected_index,
            final(self).input_mode == old(self).input_mode,
            final(self).show_stats == old(self).show_stats,
    {
        if card_height == 0 {
            return;
        }
        let fit = visible_height / card_height;
        let visible_rows: usize = if fit < 1 {
            1
        } else {
            fit as usize
        };
        let selected_row = self.selected_row();
        if selected_row < self.scroll_offset {
            self.scroll_offset = selected_row;
        } else if selected_row - self.scroll_offset >= visible_rows {
            self.scroll_offset = selected_row - (visible_rows - 1);
        }
    }

    /// The rows to draw: from the scroll offset, one more than fit in the
    /// viewport (the last may be cut), and no further than the grid.
    pub fn visible_row_range(&self, visible_height: u16, card_height: u16) -> (r: (usize, usize))
        requires
            card_height > 0,
        ensures
            r.0 == self.scroll_offset,
            r.1 as int == if self.data.habits@.len() == 0 {
                0
            } else {
                let total = (self.habit_count() + GRID_COLUMNS - 1) / GRID_COLUMNS as int;
                let end = self.scroll_offset + visible_row_count(visible_height as int, card_height as int) + 1;
                if end < total {
                    end
                } else {
                    total
                }
            },
    {
        let total = self.total_rows();
        let fit = visible_height / card_height;
        let visible_rows: usize = if fit < 1 {
            1
        } else {
            fit as usize
        };
        let end: usize = if self.scroll_offset >= total || total - self.scroll_offset <= visible_rows + 1 {
            total
        } else {
            self.scroll_offset + visible_rows + 1
        };
        (self.scroll_offset, end)
    }

    /// Asks the run loop to stop.
    pub fn quit(&mut self)
        ensures
            final(self).should_quit,
            final(self).data == old(self).data,
            final(self).selected_index == old(self).selected_index,
            final(self).input_mode == old(self).input_mode,
            final(self).scroll_offset == old(self).scroll_offset,
            final(self).show_stats == old(self).show_stats,
    {
        self.should_quit = true;
    }

    /// Shows or hides the statistics row of every card.
    pub fn toggle_stats(&mut self)
        ensures
            final(self).show_stats == !old(self).show_stats,
            final(self).data == old(self).data,
            final(self).should_quit == old(self).should_quit,
            final(self).selected_index == old(self).selected_index,
            final(self).input_mode == old(self).input_mode,
            final(self).scroll_offset == old(self).scroll_offset,
    {
        self.show_stats = !self.show_stats;
    }

    /// Moves the selection one row down.
    pub fn select_down(&mut self)
        ensures
            final(self).moved_from(old(self), down_index(old(self).selected_index as int, old(self).habit_count())),
            old(self).wf() ==> final(self).wf(),
    {
        let len = self.data.habits.len();
        if len == 0 {
            return;
        }
        if self.selected_index < len && len - self.selected_index > GRID_COLUMNS {
            self.selected_index = self.selected_index + GRID_COLUMNS;
        }
    }

    /// Moves the selection one row up.
    pub fn select_up(&mut self)
        ensures
            final(self).moved_from(old(self), up_index(old(self).selected_index as int)),
            old(self).wf() ==> final(self).wf(),
    {
        if self.selected_index >= GRID_COLUMNS {
            self.selected_index -= GRID_COLUMNS;
        }
    }

    /// Moves the selection one column left.
    pub fn select_left(&mut self)
        ensures
            final(self).moved_from(old(self), left_index(old(self).selected_index as int)),
            old(self).wf() ==> final(self).wf(),
    {
        let (_, col) = self.grid_position(self.selected_index);
        if col > 0 {
            self.selected_index -= 1;
        }
    }

    /// Moves the selection one column right.
    pub fn select_right(&mut self)
        ensures
            final(self).moved_from(old(self), right_index(old(self).selected_index as int, old(self).habit_count())),
            old(self).wf() ==> final(self).wf(),
    {
        let len = self.data.habits.len();
        if len == 0 {
            return;
        }
        let (_, col) = self.grid_position(self.selected_index);
        if col < GRID_COLUMNS - 1 && self.selected_index < len && len - self.selected_index > 1 {
            self.selected_index += 1;
        }
    }

    /// Selects the first habit.
    pub fn select_first(&mut self)
        ensures
            final(self).moved_from(old(self), 0),
            old(self).wf() ==> final(self).wf(),
    {
        self.selected_index = 0;
    }

    /// Selects the last habit, if there is one.
    pub fn select_last(&mut self)
        ensures
            final(self).moved_from(old(self), last_index(old(self).selected_index as int, old(self).habit_count())),
            old(self).wf() ==> final(self).wf(),
    {
        let len = self.data.habits.len();
        if len > 0 {
            self.selected_index = len - 1;
        }
    }
}

impl App {
    /// `self` is `other` with the completion of `day` toggled on the
    /// selected habit, if one is selected.
    pub open spec fn toggled_from(&self, other: &App, day: int) -> bool {
        &&& self.same_view_but_data(other)
        &&& self.input_mode == other.input_mode
        &&& self.selected_index == other.selected_index
        &&& self.data.habits@.len() == other.data.habits@.len()
        &&& forall|j: int|
            0 <= j < self.data.habits@.len() && j != other.selected_index ==> #[trigger] self.data.habits@[j]
                == other.data.habits@[j]
        &&& other.selected_index < other.data.habits@.len() ==> habit_toggled(
            other.data.habits@[other.selected_index as int],
            self.data.habits@[other.selected_index as int],
            day,
        )
        &&& other.selected_index >= other.data.habits@.len() ==> self.data == other.data
    }

    /// The quit flag, the viewport and the statistics switch are as in `other`.
    pub open spec fn same_view_but_data(&self, other: &App) -> bool {
        &&& self.should_quit == other.should_quit
        &&& self.scroll_offset == other.scroll_offset
        &&& self.show_stats == other.show_stats
    }

    /// `self` is `other` after confirming a new habit named `name`: added
    /// at the end and selected when the name is not empty, and back in
    /// normal mode either way.
    pub open spec fn added_from(&self, other: &App, name: Seq<char>) -> bool {
        &&& self.same_view_but_data(other)
        &&& self.input_mode is Normal
        &&& name.len() == 0 ==> self.data == other.data && self.selected_index == other.selected_index
        &&& name.len() > 0 ==> {
            &&& self.data.habits@.len() == other.data.habits@.len() + 1
            &&& forall|j: int| 0 <= j < other.data.habits@.len() ==> #[trigger] self.data.habits@[j] == other.data.habits@[j]
            &&& self.data.habits@.last().name@ == name
            &&& self.data.habits@.last().completions@.len() == 0
            &&& valid_day(self.data.habits@.last().created_at as int)
            &&& self.selected_index == other.data.habits@.len()
        }
    }

    /// `self` is `other` after confirming the name `name` for the selected
    /// habit: renamed when the name is not empty, and back in normal mode
    /// either way.
    pub open spec fn renamed_from(&self, other: &App, name: Seq<char>) -> bool {
        &&& self.same_view_but_data(other)
        &&& self.input_mode is Normal
        &&& self.selected_index == other.selected_index
        &&& (name.len() == 0 || other.selected_index >= other.data.habits@.len()) ==> self.data == other.data
        &&& (name.len() > 0 && other.selected_index < other.data.habits@.len()) ==> {
            let i = other.selected_index as int;
            &&& self.data.habits@.len() == other.data.habits@.len()
            &&& forall|j: int| 0 <= j < self.data.habits@.len() && j != i ==> #[trigger] self.data.habits@[j] == other.data.habits@[j]
            &&& self.data.habits@[i].name@ == name
            &&& self.data.habits@[i].id == other.data.habits@[i].id
            &&& self.data.habits@[i].created_at == other.data.habits@[i].created_at
            &&& self.data.habits@[i].completions == other.data.habits@[i].completions
        }
    }

    /// `self` is `other` after a confirmed deletion of the selected habit.
    pub open spec fn deleted_from(&self, other: &App) -> bool {
        &&& self.same_view_but_data(other)
        &&& self.input_mode is Normal
        &&& other.selected_index < other.data.habits@.len() ==> self.data.habits@ == other.data.habits@.remove(
            other.selected_index as int,
        )
        &&& other.selected_index >= other.data.habits@.len() ==> self.data == other.data
        &&& self.selected_index as int == index_after_delete(other.selected_index as int, other.habit_count())
    }

    /// `self` is `other` with `c` typed into the name being edited, if any.
    pub open spec fn typed_from(&self, other: &App, c: char) -> bool {
        &&& self.mode_changed_from(other)
        &&& other.input_mode is Adding ==> self.input_mode is Adding && self.input_mode.buffer() == other.input_mode.buffer().push(c)
        &&& other.input_mode is Renaming ==> self.input_mode is Renaming && self.input_mode.buffer() == other.input_mode.buffer().push(c)
        &&& (other.input_mode is Normal || other.input_mode is Deleting) ==> self.input_mode == other.input_mode
    }

    /// `self` is `other` with the last character of the name being edited
    /// erased, if there is one.
    pub open spec fn erased_from(&self, other: &App) -> bool {
        let b = other.input_mode.buffer();
        let e = if b.len() > 0 {
            b.drop_last()
        } else {
            b
        };
        &&& self.mode_changed_from(other)
        &&& other.input_mode is Adding ==> self.input_mode is Adding && self.input_mode.buffer() == e
        &&& other.input_mode is Renaming ==> self.input_mode is Renaming && self.input_mode.buffer() == e
        &&& (other.input_mode is Normal || other.input_mode is Deleting) ==> self.input_mode == other.input_mode
    }

    /// Toggles `day` on the selected habit, if one is selected.
    pub fn toggle_selected(&mut self, day: i32)
        ensures
            final(self).toggled_from(old(self), day as int),
            old(self).wf() ==> final(self).wf(),
    {
        let i = self.selected_index;
        if i < self.data.habits.len() {
            let ghost before = self.data.habits@;
            self.data.habits[i].toggle_day(day);
            proof {
                assert forall|j: int| 0 <= j < self.data.habits@.len() && j != i implies #[trigger] self.data.habits@[j] == before[j] by {}
            }
        }
    }

    /// Toggles today's completion of the selected habit.
    pub fn toggle_today(&mut self)
        ensures
            exists|day: int| valid_day(day) && final(self).toggled_from(old(self), day),
            old(self).wf() ==> final(self).wf(),
    {
        let day = today();
        self.toggle_selected(day);
    }

    /// Starts typing the name of a new habit.
    pub fn start_adding(&mut self)
        ensures
            final(self).mode_changed_from(old(self)),
            final(self).input_mode is Adding,
            final(self).input_mode.buffer() == Seq::<char>::empty(),
            old(self).wf() ==> final(self).wf(),
    {
        self.input_mode = InputMode::Adding(String::new());
    }

    /// Leaves name editing, dropping what was typed.
    pub fn cancel_input(&mut self)
        ensures
            final(self).mode_changed_from(old(self)),
            final(self).input_mode is Normal,
            old(self).wf() ==> final(self).wf(),
    {
        self.input_mode = InputMode::Normal;
    }

    /// Types `c` into the name being edited.
    pub fn push_char(&mut self, c: char)
        ensures
            final(self).typed_from(old(self), c),
            old(self).wf() ==> final(self).wf(),
    {
        match &mut self.input_mode {
            InputMode::Adding(b) => push_char(b, c),
            InputMode::Renaming(b) => push_char(b, c),
            _ => {},
        }
    }

    /// Erases the last character of the name being edited.
    pub fn pop_char(&mut self)
        ensures
            final(self).erased_from(old(self)),
            old(self).wf() ==> final(self).wf(),
    {
        match &mut self.input_mode {
            InputMode::Adding(b) => {
                pop_char(b);
            },
            InputMode::Renaming(b) => {
                pop_char(b);
            },
            _ => {},
        }
    }

    /// The text being edited, or an empty string.
    fn take_buffer(&self) -> (r: String)
        ensures
            r@ == self.input_mode.buffer(),
    {
        match &self.input_mode {
            InputMode::Adding(b) => b.clone(),
            InputMode::Renaming(b) => b.clone(),
            _ => String::new(),
        }
    }

    /// Adds a habit named `name` at the end and selects it, unless the name
    /// is empty; returns to normal mode either way.
    pub fn add_habit(&mut self, name: String)
        ensures
            final(self).added_from(old(self), name@),
            old(self).wf() ==> final(self).wf(),
    {
        if name.as_str().is_empty() {
            self.input_mode = InputMode::Normal;
            return;
        }
        let habit = Habit::new(name);
        self.data.habits.push(habit);
        self.selected_index = self.data.habits.len() - 1;
        self.input_mode = InputMode::Normal;
    }

    /// Confirms the typed name: a new habit is added under it, with
    /// surrounding whitespace removed, unless nothing else is left.
    pub fn confirm_add(&mut self)
        ensures
            final(self).added_from(old(self), trimmed(old(self).input_mode.buffer())),
            old(self).wf() ==> final(self).wf(),
    {
        let buffer = self.take_buffer();
        let name = trim_text(&buffer);
        self.add_habit(name);
    }

    /// Starts editing the name of the selected habit, from its current name.
    pub fn start_renaming(&mut self)
        ensures
            final(self).mode_changed_from(old(self)),
            old(self).selected_index < old(self).data.habits@.len() ==> final(self).input_mode is Renaming
                && final(self).input_mode.buffer() == old(self).data.habits@[old(self).selected_index as int].name@,
            old(self).selected_index >= old(self).data.habits@.len() ==> final(self).input_mode
                == old(self).input_mode,
            old(self).wf() ==> final(self).wf(),
    {
        if self.selected_index < self.data.habits.len() {
            let name = self.data.habits[self.selected_index].name.clone();
            self.input_mode = InputMode::Renaming(name);
        }
    }

    /// Gives the selected habit the name `name`, unless it is empty;
    /// returns to normal mode either way.
    pub fn rename_selected(&mut self, name: String)
        ensures
            final(self).renamed_from(old(self), name@),
            old(self).wf() ==> final(self).wf(),
    {
        let i = self.selected_index;
        if !name.as_str().is_empty() && i < self.data.habits.len() {
            let ghost before = self.data.habits@;
            self.data.habits[i].name = name;
            proof {
                assert forall|j: int| 0 <= j < self.data.habits@.len() && j != i implies #[trigger] self.data.habits@[j] == before[j] by {}
            }
        }
        self.input_mode = InputMode::Normal;
    }

    /// Confirms the typed name for the selected habit, with surrounding
    /// whitespace removed; an empty name leaves the habit as it was.
    pub fn confirm_rename(&mut self)
        ensures
            final(self).renamed_from(old(self), trimmed(old(self).input_mode.buffer())),
            old(self).wf() ==> final(self).wf(),
    {
        let buffer = self.take_buffer();
        let name = trim_text(&buffer);
        self.rename_selected(name);
    }

    /// Asks for confirmation before deleting, if there is a habit.
    pub fn start_deleting(&mut self)
        ensures
            final(self).mode_changed_from(old(self)),
            old(self).data.habits@.len() > 0 ==> final(self).input_mode is Deleting,
            old(self).data.habits@.len() == 0 ==> final(self).input_mode == old(self).input_mode,
            old(self).wf() ==> final(self).wf(),
    {
        if self.data.habits.len() > 0 {
            self.input_mode = InputMode::Deleting;
        }
    }

    /// Deletes the selected habit. When it was the last one, the new last
    /// habit is selected; otherwise the selection stays where it is.
    pub fn confirm_delete(&mut self)
        ensures
            final(self).deleted_from(old(self)),
            old(self).wf() ==> final(self).wf(),
            old(self).selected_index + 1 == old(self).habit_count() && old(self).habit_count() > 1
                ==> final(self).selected_index as int == final(self).habit_count() - 1,
            old(self).selected_index + 1 < old(self).habit_count() ==> final(self).selected_index
                == old(self).selected_index && final(self).selected_index < final(self).habit_count(),
    {
        let i = self.selected_index;
        if i < self.data.habits.len() {
            let ghost before = self.data.habits@;
            self.data.habits.remove(i);
            let len = self.data.habits.len();
            if i >= len && len > 0 {
                self.selected_index = len - 1;
            }
            proof {
                assert forall|j: int| 0 <= j < self.data.habits@.len() implies (#[trigger] self.data.habits@[j]) == before[if j < i { j } else { j + 1 }] by {}
            }
        }
        self.input_mode = InputMode::Normal;
    }

    /// Leaves the deletion prompt without deleting.
    pub fn cancel_delete(&mut self)
        ensures
            final(self).mode_changed_from(old(self)),
            final(self).input_mode is Normal,
            old(self).wf() ==> final(self).wf(),
    {
        self.input_mode = InputMode::Normal;
    }
}

impl App {
    /// `self` is `other` with the quit flag raised.
    pub open spec fn quit_from(&self, other: &App) -> bool {
        &&& self.should_quit
        &&& self.data == other.data
        &&& self.selected_index == other.selected_index
        &&& self.input_mode == other.input_mode
        &&& self.scroll_offset == other.scroll_offset
        &&& self.show_stats == other.show_stats
    }

    /// `self` is `other` with the statistics row switched.
    pub open spec fn stats_toggled_from(&self, other: &App) -> bool {
        &&& self.show_stats == !other.show_stats
        &&& self.data == other.data
        &&& self.should_quit == other.should_quit
        &&& self.selected_index == other.selected_index
        &&& self.input_mode == other.input_mode
        &&& self.scroll_offset == other.scroll_offset
    }

    /// `self` is `other` in the state that a key press `key` leads to in
    /// normal mode; `save` tells whether the collection must be stored.
    pub open spec fn normal_step(&self, other: &App, key: Key, save: bool) -> bool {
        let i = other.selected_index as int;
        let n = other.habit_count();
        if key == Key::Char('q') {
            self.quit_from(other) && !save
        } else if key == Key::Char('j') {
            self.moved_from(other, down_index(i, n)) && !save
        } else if key == Key::Char('k') {
            self.moved_from(other, up_index(i)) && !save
        } else if key == Key::Char('h') {
            self.moved_from(other, left_index(i)) && !save
        } else if key == Key::Char('l') {
            self.moved_from(other, right_index(i, n)) && !save
        } else if key == Key::Char('g') {
            self.moved_from(other, 0) && !save
        } else if key == Key::Char('G') {
            self.moved_from(other, last_index(i, n)) && !save
        } else if key == Key::Char('s') {
            self.stats_toggled_from(other) && !save
        } else if key == Key::Char('a') {
            &&& self.mode_changed_from(other)
            &&& self.input_mode is Adding
            &&& self.input_mode.buffer() == Seq::<char>::empty()
            &&& !save
        } else if key == Key::Char('r') {
            &&& self.mode_changed_from(other)
            &&& i < n ==> self.input_mode is Renaming && self.input_mode.buffer() == other.data.habits@[i].name@
            &&& i >= n ==> self.input_mode == other.input_mode
            &&& !save
        } else if key == Key::Char('D') {
            &&& self.mode_changed_from(other)
            &&& n > 0 ==> self.input_mode is Deleting
            &&& n == 0 ==> self.input_mode == other.input_mode
            &&& !save
        } else if key == Key::Enter {
            &&& exists|day: int| valid_day(day) && self.toggled_from(other, day)
            &&& save
        } else {
            *self == *other && !save
        }
    }

    /// `self` is `other` in the state that a key press `key` leads to while
    /// a name is being typed (adding or renaming).
    pub open spec fn editing_step(&self, other: &App, key: Key, save: bool) -> bool {
        let name = trimmed(other.input_mode.buffer());
        if key == Key::Enter {
            &&& other.input_mode is Adding ==> self.added_from(other, name)
            &&& other.input_mode is Renaming ==> self.renamed_from(other, name)
            &&& save
        } else if key == Key::Esc {
            self.mode_changed_from(other) && self.input_mode is Normal && !save
        } else if key == Key::Backspace {
            self.erased_from(other) && !save
        } else if key is Char {
            self.typed_from(other, key->Char_0) && !save
        } else {
            *self == *other && !save
        }
    }

    /// `self` is `other` in the state that a key press `key` leads to at
    /// the deletion prompt.
    pub open spec fn deleting_step(&self, other: &App, key: Key, save: bool) -> bool {
        if key == Key::Char('y') {
            self.deleted_from(other) && save
        } else if key == Key::Char('n') || key == Key::Esc {
            self.mode_changed_from(other) && self.input_mode is Normal && !save
        } else {
            *self == *other && !save
        }
    }

    /// Handles one key press in the current input mode. Returns whether the
    /// collection changed in a way that must be stored.
    pub fn handle_key(&mut self, key: Key) -> (save: bool)
        ensures
            old(self).input_mode is Normal ==> final(self).normal_step(old(self), key, save),
            (old(self).input_mode is Adding || old(self).input_mode is Renaming) ==> final(self).editing_step(
                old(self),
                key,
                save,
            ),
            old(self).input_mode is Deleting ==> final(self).deleting_step(old(self), key, save),
            old(self).wf() ==> final(self).wf(),
    {
        if matches!(self.input_mode, InputMode::Normal) {
            match key {
                Key::Char('q') => self.quit(),
                Key::Char('j') => self.select_down(),
                Key::Char('k') => self.select_up(),
                Key::Char('h') => self.select_left(),
                Key::Char('l') => self.select_right(),
                Key::Char('g') => self.select_first(),
                Key::Char('G') => self.select_last(),
                Key::Char('s') => self.toggle_stats(),
                Key::Char('a') => self.start_adding(),
                Key::Char('r') => self.start_renaming(),
                Key::Char('D') => self.start_deleting(),
                Key::Enter => {
                    self.toggle_today();
                    return true;
                },
                _ => {},
            }
            false
        } else if matches!(self.input_mode, InputMode::Deleting) {
            match key {
                Key::Char('y') => {
                    self.confirm_delete();
                    return true;
                },
                Key::Char('n') | Key::Esc => self.cancel_delete(),
                _ => {},
            }
            false
        } else {
            match key {
                Key::Enter => {
                    if matches!(self.input_mode, InputMode::Adding(_)) {
                        self.confirm_add();
                    } else {
                        self.confirm_rename();
                    }
                    return true;
                },
                Key::Esc => self.cancel_input(),
                Key::Backspace => self.pop_char(),
                Key::Char(c) => self.push_char(c),
                _ => {},
            }
            false
        }
    }
}

/// Moving down and then up, or up and then down, comes back to the same
/// habit whenever the first move was not blocked by the edge of the grid.
pub proof fn lemma_down_up_inverse(i: int, len: int)
    requires
        0 <= i < len,
    ensures
        down_index(i, len) != i ==> up_index(down_index(i, len)) == i,
        up_index(i) != i ==> down_index(up_index(i), len) == i,
{
}

} // verus!
