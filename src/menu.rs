use crate::grid::{
    lemma_navigation_stays_on_candidates, occupied,
    cell_index, down_row, grid_rows, left_col, next_cell, previous_cell, right_col, up_row,
};
use crate::layout::{byte_len, candidate_width, base_width, fitted_columns, max_candidate_width, possible_columns};
use crate::render::{line_end, no_records, plain_text, spaces};
use crate::style::{ansi_reset, reset_code, style_prefix, MenuTextStyle};
use crate::text::{newlines_as_spaces, replace_newlines, uppercase};
use crate::types::{values_view, BufferEdit, Completer, MenuEvent, Span};
use nu_ansi_term::Style;
use vstd::prelude::*;
use vstd::string::{StrSliceExecFns, StringExecFns};

verus! {

/// Column layout as configured; the reference for the working layout.
struct DefaultColumnDetails {
    /// Number of columns that the menu aims for (at least one)
    columns: u16,
    /// Fixed column width, if any
    col_width: Option<usize>,
    /// Spaces added to each candidate's width
    col_padding: usize,
}

/// Column layout in use, recomputed from the candidates and the screen width.
struct ColumnDetails {
    columns: u16,
    col_width: usize,
    col_padding: usize,
}

/// Completion menu: a grid of candidates with a cursor over it.
pub struct CompletionMenu {
    active: bool,
    color: MenuTextStyle,
    default_details: DefaultColumnDetails,
    /// Rows reserved while the required rows exceed what is available
    min_rows: u16,
    working_details: ColumnDetails,
    /// Candidates, in reading order
    values: Vec<(Span, String)>,
    /// Cursor column, from 0
    col_pos: u16,
    /// Cursor row, from 0
    row_pos: usize,
    /// Indicator shown while the menu is active
    marker: String,
    /// Event not yet applied
    event: Option<MenuEvent>,
}

/// The menu's state, with candidate texts as character sequences.
pub struct MenuView {
    pub active: bool,
    pub default_columns: int,
    pub default_width: Option<int>,
    pub default_padding: int,
    pub min_rows: int,
    pub columns: int,
    pub width: int,
    pub padding: int,
    pub values: Seq<(Span, Seq<char>)>,
    pub row: int,
    pub col: int,
    pub marker: Seq<char>,
    pub event: Option<MenuEvent>,
}

impl MenuView {
    /// Column count in use, floored at one.
    pub open spec fn cols(self) -> int {
        if self.columns >= 1 {
            self.columns
        } else {
            1
        }
    }

    pub open spec fn len(self) -> int {
        self.values.len() as int
    }

    pub open spec fn rows(self) -> int {
        grid_rows(self.len(), self.cols())
    }

    /// Position of the cursor in reading order.
    pub open spec fn index(self) -> int {
        cell_index(self.cols(), self.row, self.col)
    }

    /// Working layout recomputed for a screen of `screen_width` columns.
    pub open spec fn resized(self, screen_width: int) -> MenuView {
        let widest = max_candidate_width(self.values, self.default_padding);
        let base = base_width(self.default_width, self.default_columns, screen_width);
        let width = if widest > base {
            widest
        } else {
            base
        };
        MenuView {
            padding: self.default_padding,
            width,
            columns: fitted_columns(possible_columns(screen_width, width), self.default_columns),
            ..self
        }
    }

    /// State after `event` has been taken from the pending slot and applied,
    /// before any re-query of candidates.
    pub open spec fn stepped(self, event: MenuEvent) -> MenuView {
        let v = MenuView { event: None, ..self };
        let (n, cols, row, col) = (self.len(), self.cols(), self.row, self.col);
        match event {
            MenuEvent::Activate(_) => MenuView { active: true, ..v }.at((0, 0)),
            MenuEvent::Deactivate => MenuView { active: false, ..v },
            MenuEvent::Edit(_) => v.at((0, 0)),
            MenuEvent::NextElement => v.at(next_cell(n, cols, row, col)),
            MenuEvent::PreviousElement => v.at(previous_cell(n, cols, row, col)),
            MenuEvent::MoveUp => v.at((up_row(n, cols, row, col), col)),
            MenuEvent::MoveDown => v.at((down_row(n, cols, row, col), col)),
            MenuEvent::MoveLeft => v.at((row, left_col(n, cols, row, col))),
            MenuEvent::MoveRight => v.at((row, right_col(n, cols, row, col))),
            MenuEvent::NextPage => v,
            MenuEvent::PreviousPage => v,
        }
    }

    /// The same state holding `values` as its candidates.
    pub open spec fn with_values(self, values: Seq<(Span, Seq<char>)>) -> MenuView {
        MenuView { values, ..self }
    }

    /// The candidate under the cursor, if there is one.
    pub open spec fn selected(self) -> Option<(Span, Seq<char>)> {
        if 0 <= self.index() < self.len() {
            Some(self.values[self.index()])
        } else {
            None
        }
    }

    /// The same state with the cursor on `cell`.
    pub open spec fn at(self, cell: (int, int)) -> MenuView {
        MenuView { row: cell.0, col: cell.1, ..self }
    }
}

/// Events that make the menu ask its completer for fresh candidates.
pub open spec fn requeries(event: MenuEvent) -> bool {
    event == MenuEvent::Activate(false) || event == MenuEvent::Edit(false)
}

/// Cursor offset after `span` of the text is replaced by `text` while the
/// cursor stood at `offset`.
pub open spec fn offset_after(offset: int, span: Span, text: Seq<char>) -> int {
    offset + (byte_len(text) - (span.end - span.start))
}

/// Sizing twice for the same screen gives the layout that sizing once gave.
pub proof fn lemma_resize_idempotent(v: MenuView, screen_width: int)
    ensures
        v.resized(screen_width).resized(screen_width) == v.resized(screen_width),
{
}

/// Sizing never yields more columns than configured, and never a negative
/// count; it may yield none (on a zero-width screen it does), and at least
/// one column is in use only through the floor of `cols`.
pub proof fn lemma_resize_bounds(v: MenuView, screen_width: int)
    requires
        v.default_columns >= 1,
        screen_width >= 0,
    ensures
        0 <= v.resized(screen_width).columns <= v.default_columns,
        v.resized(screen_width).cols() >= 1,
        v.resized(screen_width).cols() <= v.default_columns,
        screen_width == 0 ==> v.resized(screen_width).columns == 0,
{
    let r = v.resized(screen_width);
    if r.width >= 1 {
        assert(screen_width / r.width >= 0) by (nonlinear_arith)
            requires
                screen_width >= 0,
                r.width >= 1,
        ;
    }
}

/// State after `events` are applied in turn, with no re-query and no re-sizing.
pub open spec fn navigated(v: MenuView, events: Seq<MenuEvent>) -> MenuView
    decreases events.len(),
{
    if events.len() == 0 {
        v
    } else {
        navigated(v, events.drop_last()).stepped(events.last())
    }
}

/// A step left from the cursor stays on a candidate: the cursor is past the
/// first column, on the last candidate, or in a full row.
pub open spec fn left_step_stays(v: MenuView) -> bool {
    v.col > 0 || v.index() == v.len() - 1 || cell_index(v.cols(), v.row, v.cols() - 1) < v.len()
}

/// Every event keeps the cursor on a candidate, with the one exception of a
/// step left from the first column of a short last row.
pub proof fn lemma_events_keep_cursor_on_candidates(v: MenuView, event: MenuEvent)
    requires
        occupied(v.len(), v.cols(), v.row, v.col),
        event == MenuEvent::MoveLeft ==> left_step_stays(v),
    ensures
        occupied(v.len(), v.cols(), v.stepped(event).row, v.stepped(event).col),
{
    lemma_navigation_stays_on_candidates(v.len(), v.cols(), v.row, v.col);
}

/// From the first cell of a non-empty grid, any sequence of events leaves the
/// cursor on a candidate, provided no step left starts in the first column of
/// a short last row.
pub proof fn lemma_event_sequence_keeps_cursor_on_candidates(v: MenuView, events: Seq<MenuEvent>)
    requires
        v.len() > 0,
        v.row == 0,
        v.col == 0,
        forall|k: int|
            0 <= k < events.len() && events[k] == MenuEvent::MoveLeft ==> left_step_stays(
                #[trigger] navigated(v, events.take(k)),
            ),
    ensures
        navigated(v, events).values == v.values,
        navigated(v, events).columns == v.columns,
        occupied(v.len(), v.cols(), navigated(v, events).row, navigated(v, events).col),
    decreases events.len(),
{
    if events.len() == 0 {
        lemma_navigation_stays_on_candidates(v.len(), v.cols(), 0, 0);
    } else {
        let rest = events.drop_last();
        assert forall|k: int|
            0 <= k < rest.len() && rest[k] == MenuEvent::MoveLeft implies left_step_stays(
                #[trigger] navigated(v, rest.take(k)),
            ) by {
            assert(rest.take(k) == events.take(k));
            assert(events[k] == rest[k]);
        }
        lemma_event_sequence_keeps_cursor_on_candidates(v, rest);
        assert(events.take(rest.len() as int) == rest);
        lemma_events_keep_cursor_on_candidates(navigated(v, rest), events.last());
    }
}

impl View for CompletionMenu {
    type V = MenuView;

    closed spec fn view(&self) -> MenuView {
        MenuView {
            active: self.active,
            default_columns: self.default_details.columns as int,
            default_width: match self.default_details.col_width {
                Some(w) => Some(w as int),
                None => None,
            },
            default_padding: self.default_details.col_padding as int,
            min_rows: self.min_rows as int,
            columns: self.working_details.columns as int,
            width: self.working_details.col_width as int,
            padding: self.working_details.col_padding as int,
            values: values_view(self.values@),
            row: self.row_pos as int,
            col: self.col_pos as int,
            marker: self.marker@,
            event: self.event,
        }
    }
}

impl Default for CompletionMenu {
    fn default() -> (r: CompletionMenu)
        ensures
            !r@.active,
            r@.default_columns == 4,
            r@.default_width == None::<int>,
            r@.default_padding == 2,
            r@.min_rows == 3,
            r@.columns == 0,
            r@.width == 0,
            r@.padding == 0,
            r@.values.len() == 0,
            r@.row == 0,
            r@.col == 0,
            r@.marker == seq!['|', ' '],
            r@.event == None::<MenuEvent>,
    {
        let marker = String::from_str("| ");
        proof {
            reveal_strlit("| ");
        }
        CompletionMenu {
            active: false,
            color: MenuTextStyle::default(),
            default_details: DefaultColumnDetails { columns: 4, col_width: None, col_padding: 2 },
            min_rows: 3,
            working_details: ColumnDetails { columns: 0, col_width: 0, col_padding: 0 },
            values: Vec::new(),
            col_pos: 0,
            row_pos: 0,
            marker,
            event: None,
        }
    }
}

impl CompletionMenu {
    /// The ranges of the machine integers behind the view.
    pub proof fn lemma_view_ranges(&self)
        ensures
            0 <= self@.row <= usize::MAX,
            0 <= self@.col <= u16::MAX,
            0 <= self@.columns <= u16::MAX,
            1 <= self@.cols() <= u16::MAX,
            0 <= self@.width <= usize::MAX,
    {
    }

    /// Column count in use, floored at one.
    pub fn get_cols(&self) -> (r: u16)
        ensures
            r as int == self@.cols(),
    {
        if self.working_details.columns >= 1 {
            self.working_details.columns
        } else {
            1
        }
    }

    /// Number of grid rows the candidates take.
    pub fn get_rows(&self) -> (r: usize)
        ensures
            r as int == self@.rows(),
    {
        let n = self.values.len();
        let cols = self.get_cols() as usize;
        let rows = n / cols;
        if n % cols != 0 {
            assert(n / cols + 1 <= n) by (nonlinear_arith)
                requires
                    cols >= 1,
                    n % cols != 0,
            {
                assert(n == cols * (n / cols) + n % cols);
            }
            rows + 1
        } else {
            rows
        }
    }

    /// Working column width.
    pub fn get_width(&self) -> (r: usize)
        ensures
            r as int == self@.width,
    {
        self.working_details.col_width
    }

    /// Position of the cursor in reading order.
    pub fn index(&self) -> (r: u128)
        ensures
            r as int == self@.index(),
            r as int <= u64::MAX as int * 65536,
    {
        let cols = self.get_cols();
        assert(self.row_pos as int * cols as int <= u64::MAX as int * u16::MAX as int)
            by (nonlinear_arith)
            requires
                self.row_pos as int <= u64::MAX as int,
                cols as int <= u16::MAX as int,
        ;
        self.row_pos as u128 * cols as u128 + self.col_pos as u128
    }

    /// Moves the cursor to the first cell.
    pub fn reset_position(&mut self)
        ensures
            final(self)@ == old(self)@.at((0, 0)),
    {
        self.col_pos = 0;
        self.row_pos = 0;
    }

    /// Moves the cursor to the next candidate in reading order.
    pub fn move_next(&mut self)
        ensures
            final(self)@ == old(self)@.at(
                next_cell(old(self)@.len(), old(self)@.cols(), old(self)@.row, old(self)@.col),
            ),
    {
        let cols = self.get_cols();
        let rows = self.get_rows();
        let mut new_col: u16 = 0;
        let mut new_row: usize = self.row_pos;
        if self.col_pos as u32 + 1 >= cols as u32 {
            new_row = self.row_pos.saturating_add(1);
        } else {
            new_col = self.col_pos + 1;
        }
        if new_row >= rows {
            new_row = 0;
            new_col = 0;
        }
        let position = cell_position(new_row, new_col, cols);
        if position >= self.values.len() as u128 {
            self.reset_position();
        } else {
            self.col_pos = new_col;
            self.row_pos = new_row;
        }
    }

    /// Moves the cursor to the previous candidate in reading order.
    pub fn move_previous(&mut self)
        ensures
            final(self)@ == old(self)@.at(
                previous_cell(old(self)@.len(), old(self)@.cols(), old(self)@.row, old(self)@.col),
            ),
    {
        let cols = self.get_cols();
        let rows = self.get_rows();
        let n = self.values.len();
        let (new_col, new_row): (u16, usize) = if self.col_pos > 0 {
            (self.col_pos - 1, self.row_pos)
        } else if self.row_pos > 0 {
            (cols - 1, self.row_pos - 1)
        } else {
            (cols - 1, rows.saturating_sub(1))
        };
        let position = cell_position(new_row, new_col, cols);
        if position >= n as u128 {
            let rem = (n % (cols as usize)) as u16;
            self.col_pos = rem.saturating_sub(1);
            self.row_pos = rows.saturating_sub(1);
        } else {
            self.col_pos = new_col;
            self.row_pos = new_row;
        }
    }

    /// Moves the cursor one row up, keeping its column.
    pub fn move_up(&mut self)
        ensures
            final(self)@ == old(self)@.at(
                (up_row(old(self)@.len(), old(self)@.cols(), old(self)@.row, old(self)@.col),
                old(self)@.col),
            ),
    {
        if self.row_pos > 0 {
            self.row_pos = self.row_pos - 1;
        } else {
            let cols = self.get_cols();
            let last = self.get_rows().saturating_sub(1);
            let index = cell_position(last, self.col_pos, cols);
            if index >= self.values.len() as u128 {
                self.row_pos = last.saturating_sub(1);
            } else {
                self.row_pos = last;
            }
        }
    }

    /// Moves the cursor one row down, keeping its column.
    pub fn move_down(&mut self)
        ensures
            final(self)@ == old(self)@.at(
                (down_row(old(self)@.len(), old(self)@.cols(), old(self)@.row, old(self)@.col),
                old(self)@.col),
            ),
    {
        let rows = self.get_rows();
        if self.row_pos >= rows || self.row_pos + 1 >= rows {
            self.row_pos = 0;
        } else {
            let new_row = self.row_pos + 1;
            let index = cell_position(new_row, self.col_pos, self.get_cols());
            if index >= self.values.len() as u128 {
                self.row_pos = 0;
            } else {
                self.row_pos = new_row;
            }
        }
    }

    /// Moves the cursor one column left, keeping its row.
    pub fn move_left(&mut self)
        ensures
            final(self)@ == old(self)@.at(
                (old(self)@.row,
                left_col(old(self)@.len(), old(self)@.cols(), old(self)@.row, old(self)@.col)),
            ),
    {
        if self.col_pos > 0 {
            self.col_pos = self.col_pos - 1;
        } else if self.index() == self.values.len().saturating_sub(1) as u128 {
            self.col_pos = 0;
        } else {
            self.col_pos = self.get_cols() - 1;
        }
    }

    /// Moves the cursor one column right, keeping its row.
    pub fn move_right(&mut self)
        ensures
            final(self)@ == old(self)@.at(
                (old(self)@.row,
                right_col(old(self)@.len(), old(self)@.cols(), old(self)@.row, old(self)@.col)),
            ),
    {
        let cols = self.get_cols();
        if self.col_pos as u32 + 1 >= cols as u32 || self.index() + 2 > self.values.len() as u128 {
            self.col_pos = 0;
        } else {
            self.col_pos = self.col_pos + 1;
        }
    }
}

impl CompletionMenu {
    /// Style of the selected cell.
    pub closed spec fn selected_style(&self) -> Style {
        self.color.selected_text_style
    }

    /// Style of the other cells.
    pub closed spec fn plain_style(&self) -> Style {
        self.color.text_style
    }

    /// Menu builder with new value for text style
    pub fn with_text_style(self, text_style: Style) -> (r: Self)
        ensures
            r@ == self@,
            r.plain_style() == text_style,
            r.selected_style() == self.selected_style(),
    {
        let mut menu = self;
        menu.color.text_style = text_style;
        menu
    }

    /// Menu builder with new value for the selected text style
    pub fn with_selected_text_style(self, selected_text_style: Style) -> (r: Self)
        ensures
            r@ == self@,
            r.selected_style() == selected_text_style,
            r.plain_style() == self.plain_style(),
    {
        let mut menu = self;
        menu.color.selected_text_style = selected_text_style;
        menu
    }

    /// Menu builder with new columns value
    pub fn with_columns(self, columns: u16) -> (r: Self)
        requires
            columns >= 1,
        ensures
            r@ == (MenuView { default_columns: columns as int, ..self@ }),
            r.selected_style() == self.selected_style(),
            r.plain_style() == self.plain_style(),
    {
        let mut menu = self;
        menu.default_details.columns = columns;
        menu
    }

    /// Menu builder with new column width value
    pub fn with_column_width(self, col_width: Option<usize>) -> (r: Self)
        ensures
            r@ == (MenuView {
                default_width: match col_width {
                    Some(w) => Some(w as int),
                    None => None,
                },
                ..self@
            }),
            r.selected_style() == self.selected_style(),
            r.plain_style() == self.plain_style(),
    {
        let mut menu = self;
        menu.default_details.col_width = col_width;
        menu
    }

    /// Menu builder with new column padding value
    pub fn with_column_padding(self, col_padding: usize) -> (r: Self)
        ensures
            r@ == (MenuView { default_padding: col_padding as int, ..self@ }),
            r.selected_style() == self.selected_style(),
            r.plain_style() == self.plain_style(),
    {
        let mut menu = self;
        menu.default_details.col_padding = col_padding;
        menu
    }

    /// Menu builder with marker
    pub fn with_marker(self, marker: String) -> (r: Self)
        ensures
            r@ == (MenuView { marker: marker@, ..self@ }),
            r.selected_style() == self.selected_style(),
            r.plain_style() == self.plain_style(),
    {
        let mut menu = self;
        menu.marker = marker;
        menu
    }

    /// Stable name of this menu.
    pub fn name(&self) -> (r: &'static str)
        ensures
            r@ == "completion_menu"@,
    {
        "completion_menu"
    }

    /// Marker shown before the edited line while the menu is active.
    pub fn indicator(&self) -> (r: &str)
        ensures
            r@ == self@.marker,
    {
        self.marker.as_str()
    }

    pub fn is_active(&self) -> (r: bool)
        ensures
            r == self@.active,
    {
        self.active
    }

    /// Stores `event` as the pending one, replacing any unconsumed event;
    /// activation takes effect at once.
    pub fn menu_event(&mut self, event: MenuEvent)
        ensures
            final(self)@ == (MenuView {
                active: if event is Activate {
                    true
                } else {
                    old(self)@.active
                },
                event: Some(event),
                ..old(self)@
            }),
    {
        if let MenuEvent::Activate(_) = event {
            self.active = true;
        }
        self.event = Some(event);
    }

    /// Replaces the candidates and puts the cursor on the first cell.
    pub fn set_values(&mut self, values: Vec<(Span, String)>)
        ensures
            final(self)@ == old(self)@.with_values(values_view(values@)).at((0, 0)),
    {
        self.values = values;
        self.reset_position();
    }

    /// Asks `completer` for candidates for `line` with the cursor at `offset`,
    /// line breaks read as spaces, and keeps them with the cursor on the first
    /// cell.
    pub fn update_values<C: Completer>(&mut self, line: &str, offset: usize, completer: &C)
        ensures
            final(self)@ == old(self)@.with_values(final(self)@.values).at((0, 0)),
            completer.completes(newlines_as_spaces(line@), offset as int, final(self)@.values),
    {
        let trimmed = replace_newlines(line);
        let values = completer.complete(trimmed.as_str(), offset);
        self.set_values(values);
    }

    /// Takes the pending event, if any, applies it (re-querying `completer`
    /// where it asks for that), then recomputes the working layout for a
    /// screen of `screen_width` columns.
    pub fn update_working_details<C: Completer>(
        &mut self,
        line: &str,
        offset: usize,
        completer: &C,
        screen_width: u16,
    )
        requires
            old(self)@.default_columns >= 1,
        ensures
            match old(self)@.event {
                None => final(self)@ == old(self)@,
                Some(event) => final(self)@ == old(self)@.stepped(event).with_values(
                    final(self)@.values,
                ).resized(screen_width as int),
            },
            old(self)@.event matches Some(event) && !requeries(event) ==> final(self)@.values
                == old(self)@.values,
            old(self)@.event matches Some(event) && requeries(event) ==> completer.completes(
                newlines_as_spaces(line@),
                offset as int,
                final(self)@.values,
            ),
    {
        let event = self.event.take();
        if let Some(event) = event {
            match event {
                MenuEvent::Activate(updated) => {
                    self.active = true;
                    self.reset_position();
                    if !updated {
                        self.update_values(line, offset, completer);
                    }
                },
                MenuEvent::Deactivate => self.active = false,
                MenuEvent::Edit(updated) => {
                    self.reset_position();
                    if !updated {
                        self.update_values(line, offset, completer);
                    }
                },
                MenuEvent::NextElement => self.move_next(),
                MenuEvent::PreviousElement => self.move_previous(),
                MenuEvent::MoveUp => self.move_up(),
                MenuEvent::MoveDown => self.move_down(),
                MenuEvent::MoveLeft => self.move_left(),
                MenuEvent::MoveRight => self.move_right(),
                MenuEvent::NextPage | MenuEvent::PreviousPage => {},
            }
            self.resize(screen_width);
        }
    }

    /// The candidate under the cursor, if any.
    pub fn get_value(&self) -> (r: Option<(Span, String)>)
        ensures
            r is Some <==> self@.selected() is Some,
            r matches Some(p) ==> self@.selected() == Some((p.0, p.1@)),
    {
        let index = self.index();
        if index < self.values.len() as u128 {
            let i = index as usize;
            Some((self.values[i].0, self.values[i].1.clone()))
        } else {
            None
        }
    }

    /// The edit that accepting the selected candidate makes to a text whose
    /// cursor stands at `offset`, or `None` when no candidate is selected.
    pub fn replace_in_buffer(&self, offset: usize) -> (r: Option<BufferEdit>)
        requires
            self@.selected() matches Some(p) ==> p.0.start <= p.0.end && 0 <= offset_after(
                offset as int,
                p.0,
                p.1,
            ) <= usize::MAX,
        ensures
            r is Some <==> self@.selected() is Some,
            r matches Some(e) ==> self@.selected() == Some((e.span, e.text@)) && e.new_offset
                == offset_after(offset as int, e.span, e.text@),
    {
        match self.get_value() {
            Some((span, value)) => {
                let len = value.as_str().len();
                let removed = span.end - span.start;
                let new_offset = if len >= removed {
                    offset + (len - removed)
                } else {
                    offset - (removed - len)
                };
                Some(BufferEdit { span, text: value, new_offset })
            },
            None => None,
        }
    }

    /// Rows to reserve for the menu: the grid's rows, at most the configured minimum.
    pub fn min_rows(&self) -> (r: u16)
        ensures
            r as int == if self@.rows() < self@.min_rows {
                self@.rows()
            } else {
                self@.min_rows
            },
    {
        let rows = self.get_rows();
        if rows < self.min_rows as usize {
            rows as u16
        } else {
            self.min_rows
        }
    }

    /// The candidates.
    pub fn get_values(&self) -> (r: &[(Span, String)])
        ensures
            values_view(r@) == self@.values,
    {
        self.values.as_slice()
    }

    /// Rows the whole grid takes, capped at `u16::MAX`.
    pub fn menu_required_lines(&self, _terminal_columns: u16) -> (r: u16)
        ensures
            r as int == if self@.rows() > u16::MAX {
                u16::MAX as int
            } else {
                self@.rows()
            },
    {
        let rows = self.get_rows();
        if rows > u16::MAX as usize {
            u16::MAX
        } else {
            rows as u16
        }
    }

    /// Recomputes the working layout from the candidates, the configured
    /// layout and the screen width.
    pub fn resize(&mut self, screen_width: u16)
        requires
            old(self)@.default_columns >= 1,
        ensures
            final(self)@ == old(self)@.resized(screen_width as int),
    {
        let padding = self.default_details.col_padding;
        let ghost vals = self@.values;
        let mut max_width: usize = 0;
        let mut i: usize = 0;
        while i < self.values.len()
            invariant
                i <= self.values.len(),
                vals == self@.values,
                padding as int == self@.default_padding,
                max_width as int == max_candidate_width(vals.take(i as int), padding as int),
            decreases self.values.len() - i,
        {
            let text = self.values[i].1.as_str();
            let str_len = text.len().saturating_add(padding);
            assert(vals.take(i + 1).drop_last() == vals.take(i as int));
            assert(vals.take(i + 1).last() == vals[i as int]);
            assert(text@ == vals[i as int].1);
            assert(text.len() as int == byte_len(vals[i as int].1));
            assert(str_len as int == candidate_width(vals[i as int].1, padding as int));
            if str_len > max_width {
                max_width = str_len;
            }
            i = i + 1;
        }
        assert(vals.take(i as int) == vals);
        let default_width: usize = match self.default_details.col_width {
            Some(w) => w,
            None => (screen_width / self.default_details.columns) as usize,
        };
        let width = if max_width > default_width {
            max_width
        } else {
            default_width
        };
        let possible: u16 = if width >= 1 {
            if width > screen_width as usize {
                assert(screen_width as int / width as int == 0) by (nonlinear_arith)
                    requires
                        width as int > screen_width as int,
                        screen_width as int >= 0,
                ;
                0
            } else {
                screen_width / (width as u16)
            }
        } else {
            screen_width
        };
        assert(width as int >= 1 ==> possible as int == screen_width as int / width as int);
        self.working_details.col_padding = padding;
        self.working_details.col_width = width;
        self.working_details.columns = if possible > self.default_details.columns {
            self.default_details.columns
        } else {
            possible
        };
        assert(self@.values == vals);
    }
}

impl CompletionMenu {
    /// Row terminator after a cell in `column`.
    pub fn end_of_line(&self, column: u16) -> (r: &'static str)
        ensures
            r@ == line_end(self@.cols(), column as int),
    {
        proof {
            reveal_strlit("\r\n");
            reveal_strlit("");
        }
        if column == self.get_cols() - 1 {
            "\r\n"
        } else {
            ""
        }
    }

    /// Style prefix of candidate `index`: `selected` if it is under the
    /// cursor, else `plain`.
    pub fn text_style(&self, index: usize, selected: &str, plain: &str) -> (r: String)
        ensures
            r@ == if index as int == self@.index() {
                selected@
            } else {
                plain@
            },
    {
        if index as u128 == self.index() {
            String::from_str(selected)
        } else {
            String::from_str(plain)
        }
    }

    /// Message for an empty grid, styled with `selected` when styling is on.
    pub fn no_records_msg(&self, use_ansi_coloring: bool, selected: &str, reset: &str) -> (r:
        String)
        ensures
            r@ == if use_ansi_coloring {
                selected@ + no_records() + reset@
            } else {
                no_records()
            },
    {
        let msg = "NO RECORDS FOUND";
        proof {
            reveal_strlit("NO RECORDS FOUND");
        }
        if use_ansi_coloring {
            let mut out = String::from_str(selected);
            out.append(msg);
            out.append(reset);
            out
        } else {
            String::from_str(msg)
        }
    }

    /// One cell of the menu: candidate `line` at `index`, in `column`,
    /// followed by `empty_space` spaces when styled, or padded to the column
    /// width when not.
    pub fn create_string(
        &self,
        line: &str,
        index: usize,
        column: u16,
        empty_space: usize,
        use_ansi_coloring: bool,
        selected: &str,
        plain: &str,
        reset: &str,
    ) -> (r: String)
        ensures
            r@ == if use_ansi_coloring {
                (if index as int == self@.index() {
                    selected@
                } else {
                    plain@
                }) + line@ + reset@ + spaces(empty_space as int) + line_end(
                    self@.cols(),
                    column as int,
                )
            } else {
                let shown = plain_text(line@, index as int == self@.index());
                shown + spaces(self@.width - shown.len()) + line_end(self@.cols(), column as int)
            },
    {
        if use_ansi_coloring {
            let mut out = self.text_style(index, selected, plain);
            out.append(line);
            out.append(reset);
            push_spaces(&mut out, empty_space);
            out.append(self.end_of_line(column));
            out
        } else {
            let mut out = if index as u128 == self.index() {
                proof {
                    reveal_strlit(">");
                }
                let mut marked = String::from_str(">");
                let upper = uppercase(line);
                marked.append(upper.as_str());
                marked
            } else {
                String::from_str(line)
            };
            let shown_len = out.as_str().unicode_len();
            push_spaces(&mut out, self.get_width().saturating_sub(shown_len));
            out.append(self.end_of_line(column));
            out
        }
    }

    /// The menu as shown in `available_lines` rows, with `selected` and
    /// `plain` as the style prefixes of the selected and the other cells.
    pub fn render(&self, available_lines: u16, use_ansi_coloring: bool, selected: &str, plain: &str)
        -> (r: String)
        ensures
            r@ == self@.rendered(available_lines as int, use_ansi_coloring, selected@, plain@),
    {
        let reset = reset_code();
        let n = self.values.len();
        if n == 0 {
            return self.no_records_msg(use_ansi_coloring, selected, reset.as_str());
        }
        let cols = self.get_cols();
        let ghost v = self@;
        let skip: u128 = if self.row_pos >= available_lines as usize {
            let skip_rows = self.row_pos as u128 - available_lines as u128 + 1;
            assert(skip_rows * cols as int <= (u64::MAX as int + 1) * u16::MAX as int)
                by (nonlinear_arith)
                requires
                    skip_rows <= u64::MAX as int + 1,
                    cols as int <= u16::MAX as int,
            ;
            skip_rows * cols as u128
        } else {
            0
        };
        let start: usize = if skip >= n as u128 {
            n
        } else {
            skip as usize
        };
        assert(available_lines as int * cols as int <= u16::MAX as int * u16::MAX as int)
            by (nonlinear_arith)
            requires
                available_lines as int <= u16::MAX as int,
                cols as int <= u16::MAX as int,
        ;
        let shown: u128 = available_lines as u128 * cols as u128;
        assert(start as int <= u64::MAX as int);
        let end: usize = if start as u128 + shown >= n as u128 {
            n
        } else {
            (start as u128 + shown) as usize
        };
        assert(start == v.window_start(available_lines as int));
        assert(end == v.window_end(available_lines as int));
        let mut out = String::new();
        let mut i: usize = start;
        while i < end
            invariant
                v == self@,
                n == self.values.len(),
                cols as int == v.cols(),
                reset@ == ansi_reset(),
                start <= i <= end <= n,
                out@ == v.cells(start as int, i as int, use_ansi_coloring, selected@, plain@),
            decreases end - i,
        {
            let line = self.values[i].1.as_str();
            let column = (i % cols as usize) as u16;
            let empty_space = self.get_width().saturating_sub(line.len());
            assert(line@ == v.values[i as int].1);
            assert(column as int == i as int % v.cols());
            assert(line.len() as int == byte_len(line@));
            assert(spaces(empty_space as int) == spaces(v.width - byte_len(line@)));
            let cell = self.create_string(
                line,
                i,
                column,
                empty_space,
                use_ansi_coloring,
                selected,
                plain,
                reset.as_str(),
            );
            assert(cell@ == v.cell(i as int, use_ansi_coloring, selected@, plain@));
            out.append(cell.as_str());
            i = i + 1;
        }
        out
    }

    /// The menu as shown in `available_lines` rows, styled with the menu's
    /// styles when `use_ansi_coloring` is set.
    pub fn menu_string(&self, available_lines: u16, use_ansi_coloring: bool) -> (r: String)
        ensures
            exists|selected: Seq<char>, plain: Seq<char>|
                r@ == self@.rendered(available_lines as int, use_ansi_coloring, selected, plain),
    {
        let selected = style_prefix(&self.color.selected_text_style);
        let plain = style_prefix(&self.color.text_style);
        let r = self.render(available_lines, use_ansi_coloring, selected.as_str(), plain.as_str());
        assert(r@ == self@.rendered(available_lines as int, use_ansi_coloring, selected@, plain@));
        r
    }
}

/// Appends `k` spaces to `out`.
fn push_spaces(out: &mut String, k: usize)
    ensures
        final(out)@ == old(out)@ + spaces(k as int),
{
    let mut i: usize = 0;
    while i < k
        invariant
            i <= k,
            out@ == old(out)@ + spaces(i as int),
        decreases k - i,
    {
        proof {
            reveal_strlit(" ");
        }
        out.append(" ");
        assert(spaces(i as int) + seq![' '] == spaces(i + 1));
        i = i + 1;
    }
}

/// Row-major position of `(row, col)` in a grid of `cols` columns.
fn cell_position(row: usize, col: u16, cols: u16) -> (r: u128)
    ensures
        r as int == cell_index(cols as int, row as int, col as int),
{
    assert(row as int * cols as int <= u64::MAX as int * u16::MAX as int) by (nonlinear_arith)
        requires
            row as int <= u64::MAX as int,
            cols as int <= u16::MAX as int,
    ;
    row as u128 * cols as u128 + col as u128
}

} // verus!
