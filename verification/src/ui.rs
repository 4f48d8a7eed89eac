//! The state behind the terminal front end: lists and tables with a
//! selection, rows of wrapped text, and the arithmetic of the layout. Drawing
//! is left to the front end.

use crate::outside::{wrapped, wrapped_text};
use vstd::prelude::*;
use vstd::string::{StrSliceExecFns, StringExecFns};

verus! {

/// A rule for the size of a part of the screen.
#[derive(Debug, Clone, Copy, PartialEq, Eq, Structural)]
pub enum Constraint {
    Percentage(u16),
    Ratio(u32, u32),
    Length(u16),
    Max(u16),
    Min(u16),
}

/// The entry of a list.
#[derive(Debug)]
pub struct Item {
    pub content: String,
}

impl Clone for Item {
    fn clone(&self) -> (copy: Item)
        ensures
            copy == *self,
    {
        Item { content: self.content.clone() }
    }
}

/// Which entry is selected, and from which entry on the list is shown.
#[derive(Debug, Clone, Copy, PartialEq, Eq, Structural)]
pub struct ListState {
    pub offset: usize,
    pub selected: Option<usize>,
}

impl ListState {
    /// Nothing selected, shown from the top.
    pub open spec fn initial() -> ListState {
        ListState { offset: 0, selected: None }
    }

    /// The state after a selection: without a selection the list is shown
    /// from the top again.
    pub open spec fn spec_select(self, index: Option<usize>) -> ListState {
        ListState {
            offset: if index is None {
                0
            } else {
                self.offset
            },
            selected: index,
        }
    }

    /// The selected entry.
    pub fn selected(&self) -> (selected: Option<usize>)
        ensures
            selected == self.selected,
    {
        self.selected
    }

    /// Selects an entry, or none.
    pub fn select(&mut self, index: Option<usize>)
        ensures
            *final(self) == old(self).spec_select(index),
    {
        self.selected = index;
        if index.is_none() {
            self.offset = 0;
        }
    }
}

impl Default for ListState {
    fn default() -> (state: ListState)
        ensures
            state == ListState::initial(),
    {
        ListState { offset: 0, selected: None }
    }
}

/// The state of a table is that of a list.
pub type TableState = ListState;

/// The entry to select after a step down in a list of `len` entries: the
/// next one, the last one at the end, the first one where none was selected
/// or the list is empty.
pub open spec fn step_down(selected: Option<usize>, len: nat) -> usize {
    match selected {
        Some(index) => if len == 0 {
            0
        } else if index >= len - 1 {
            (len - 1) as usize
        } else {
            (index + 1) as usize
        },
        None => 0,
    }
}

/// The entry to select after a step up: the one before, the first one at
/// the top, where none was selected or the list is empty.
pub open spec fn step_up(selected: Option<usize>, len: nat) -> usize {
    match selected {
        Some(index) => if len == 0 || index == 0 {
            0
        } else {
            (index - 1) as usize
        },
        None => 0,
    }
}

/// The entry to select once a list has been given `len` new entries: the
/// one that was selected, but none beyond `len`; the first one where none was
/// selected.
pub open spec fn kept_selection(selected: Option<usize>, len: nat) -> usize {
    match selected {
        Some(index) => if index > len {
            len as usize
        } else {
            index
        },
        None => 0,
    }
}

/// The entry to select after a step down.
fn stepped_down(selected: Option<usize>, len: usize) -> (index: usize)
    ensures
        index == step_down(selected, len as nat),
{
    match selected {
        Some(index) => {
            if len == 0 {
                0
            } else if index >= len - 1 {
                len - 1
            } else {
                index + 1
            }
        },
        None => 0,
    }
}

/// The entry to select after a step up.
fn stepped_up(selected: Option<usize>, len: usize) -> (index: usize)
    ensures
        index == step_up(selected, len as nat),
{
    match selected {
        Some(index) => {
            if len == 0 || index == 0 {
                0
            } else {
                index - 1
            }
        },
        None => 0,
    }
}

/// A list with a selection.
#[derive(Debug)]
pub struct List {
    pub items: Vec<Item>,
    pub state: ListState,
}

impl List {
    /// A list of the given entries, or an empty one, with nothing selected.
    pub fn new(items: Option<Vec<Item>>) -> (list: List)
        ensures
            list.items@ == (match items {
                Some(given) => given@,
                None => Seq::empty(),
            }),
            list.state == ListState::initial(),
    {
        if let Some(given) = items {
            List { items: given, state: ListState::default() }
        } else {
            List { items: Vec::new(), state: ListState::default() }
        }
    }

    /// The text of every entry.
    pub fn list_items(&self) -> (texts: Vec<String>)
        ensures
            texts@.len() == self.items@.len(),
            forall|i: int| 0 <= i < texts@.len() ==> texts@[i] == self.items@[i].content,
    {
        let mut texts: Vec<String> = Vec::new();
        let mut i: usize = 0;
        while i < self.items.len()
            invariant
                i <= self.items@.len(),
                texts@.len() == i,
                forall|j: int| 0 <= j < i ==> texts@[j] == self.items@[j].content,
            decreases self.items@.len() - i,
        {
            texts.push(self.items[i].content.clone());
            i += 1;
        }
        texts
    }

    /// Replaces the entries. The selection stays where it was, but not
    /// beyond the number of new entries; where nothing was selected, the first
    /// entry is.
    pub fn set_items(&mut self, items: Vec<Item>)
        ensures
            final(self).items == items,
            final(self).state == old(self).state.spec_select(
                Some(kept_selection(old(self).state.selected, items@.len())),
            ),
    {
        if let Some(selected) = self.state.selected() {
            if selected > items.len() {
                self.state.select(Some(items.len()));
            } else {
                self.state.select(Some(selected));
            }
        } else {
            self.state.select(Some(0));
        }
        self.items = items;
    }

    /// Moves the selection down by one entry; at the end it stays.
    pub fn next(&mut self)
        ensures
            final(self).items == old(self).items,
            final(self).state == old(self).state.spec_select(
                Some(step_down(old(self).state.selected, old(self).items@.len())),
            ),
    {
        let index = stepped_down(self.state.selected(), self.items.len());
        self.state.select(Some(index));
    }

    /// Moves the selection up by one entry; at the top it stays.
    pub fn previous(&mut self)
        ensures
            final(self).items == old(self).items,
            final(self).state == old(self).state.spec_select(
                Some(step_up(old(self).state.selected, old(self).items@.len())),
            ),
    {
        let index = stepped_up(self.state.selected(), self.items.len());
        self.state.select(Some(index));
    }

    /// The selected entry.
    pub fn selected(&self) -> (selected: Option<usize>)
        ensures
            selected == self.state.selected,
    {
        self.state.selected()
    }

    /// Selects the entry `num`.
    pub fn select(&mut self, num: usize)
        ensures
            final(self).items == old(self).items,
            final(self).state == old(self).state.spec_select(Some(num)),
    {
        self.state.select(Some(num));
    }
}

/// The width of a column of a table.
#[derive(Debug, Clone, Copy, PartialEq, Eq, Structural)]
pub struct ColumnWidth {
    /// Table column size in percent
    pub column_size: u16,
    pub constraint: Constraint,
}

impl ColumnWidth {
    /// Column sizes are in percent.
    pub fn new(column_size: u16) -> (width: ColumnWidth)
        ensures
            width == (ColumnWidth { column_size, constraint: Constraint::Percentage(column_size) }),
    {
        ColumnWidth { column_size, constraint: Constraint::Percentage(column_size) }
    }
}

/// How many line feeds a text holds.
pub open spec fn line_feeds(text: Seq<char>) -> nat {
    text.filter(|c: char| c == '\n').len()
}

/// How many lines a text takes.
pub open spec fn line_count(text: Seq<char>) -> nat {
    line_feeds(text) + 1
}

/// The greatest line count among the first `upto` texts; 1 without a text.
pub open spec fn tallest(texts: Seq<Seq<char>>, upto: nat) -> nat
    decreases upto,
{
    if upto == 0 || upto > texts.len() {
        1
    } else {
        let before = tallest(texts, (upto - 1) as nat);
        if line_count(texts[upto - 1]) > before {
            line_count(texts[upto - 1])
        } else {
            before
        }
    }
}

/// The contents of a list of texts.
pub open spec fn text_views(texts: Seq<String>) -> Seq<Seq<char>> {
    texts.map_values(|text: String| text@)
}

/// How many lines a text takes.
pub fn count_lines(text: &str) -> (lines: u128)
    ensures
        lines == line_count(text@),
{
    broadcast use vstd::string::group_string_axioms;

    let length = text.unicode_len();
    let mut feeds: u128 = 0;
    let ghost is_feed = |c: char| c == '\n';
    proof {
        assert(text@.take(0) =~= Seq::<char>::empty());
        reveal(Seq::filter);
    }
    for c in it: text.chars()
        invariant
            it.seq() == text@,
            text@.len() == length,
            is_feed == (|c: char| c == '\n'),
            feeds == text@.take(it.index()).filter(is_feed).len(),
            feeds <= it.index(),
    {
        proof {
            let i = it.index();
            assert(text@.take(i + 1) =~= text@.take(i).push(text@[i]));
            text@.take(i).lemma_filter_push(text@[i], is_feed);
        }
        if c == '\n' {
            feeds = feeds + 1;
        }
    }
    proof {
        assert(text@.take(text@.len() as int) =~= text@);
    }
    feeds + 1
}

/// A row of a table as it is drawn: the text of each column wrapped to the
/// width of the column, and the height of the tallest column, which wraps at
/// 65536 lines.
#[derive(Debug)]
pub struct TermRow {
    pub cells: Vec<String>,
    pub height: u16,
}

/// A row of a table.
#[derive(Debug)]
pub struct Row {
    pub columns: Vec<String>,
    pub widths: Vec<ColumnWidth>,
}

impl Clone for Row {
    fn clone(&self) -> (copy: Row)
        ensures
            copy@ == self@,
    {
        let mut columns: Vec<String> = Vec::new();
        let mut i: usize = 0;
        while i < self.columns.len()
            invariant
                i <= self.columns@.len(),
                columns@ == self.columns@.take(i as int),
            decreases self.columns@.len() - i,
        {
            columns.push(self.columns[i].clone());
            assert(columns@ =~= self.columns@.take(i + 1));
            i += 1;
        }
        assert(self.columns@.take(i as int) =~= self.columns@);
        let mut widths: Vec<ColumnWidth> = Vec::new();
        let mut j: usize = 0;
        while j < self.widths.len()
            invariant
                j <= self.widths@.len(),
                widths@ == self.widths@.take(j as int),
            decreases self.widths@.len() - j,
        {
            widths.push(self.widths[j]);
            assert(widths@ =~= self.widths@.take(j + 1));
            j += 1;
        }
        assert(self.widths@.take(j as int) =~= self.widths@);
        Row { columns, widths }
    }
}

/// The mathematical content of a row.
pub struct RowView {
    pub columns: Seq<String>,
    pub widths: Seq<ColumnWidth>,
}

impl View for Row {
    type V = RowView;

    open spec fn view(&self) -> RowView {
        RowView { columns: self.columns@, widths: self.widths@ }
    }
}

/// The height of a row whose tallest column takes `lines` lines.
pub open spec fn row_height(lines: nat) -> u16 {
    (lines % 0x1_0000) as u16
}

impl Row {
    /// A row of the given columns and widths.
    pub fn new(columns: Vec<String>, widths: Vec<ColumnWidth>) -> (row: Row)
        ensures
            row.columns == columns,
            row.widths == widths,
    {
        Row { columns, widths }
    }

    /// The text of each column wrapped to the width given for it.
    pub fn wrapped_columns(&self, column_widths: &Vec<u16>) -> (cells: Vec<String>)
        requires
            column_widths@.len() >= self.columns@.len(),
        ensures
            cells@.len() == self.columns@.len(),
            forall|i: int|
                0 <= i < cells@.len() ==> (#[trigger] cells@[i])@ == wrapped_text(
                    self.columns@[i]@,
                    column_widths@[i] as usize,
                ),
    {
        let mut cells: Vec<String> = Vec::new();
        let mut i: usize = 0;
        while i < self.columns.len()
            invariant
                i <= self.columns@.len(),
                column_widths@.len() >= self.columns@.len(),
                cells@.len() == i,
                forall|j: int|
                    0 <= j < i ==> (#[trigger] cells@[j])@ == wrapped_text(
                        self.columns@[j]@,
                        column_widths@[j] as usize,
                    ),
            decreases self.columns@.len() - i,
        {
            cells.push(wrapped(self.columns[i].as_str(), column_widths[i] as usize));
            i += 1;
        }
        cells
    }

    /// The row as it is drawn, given the width of each column in cells of
    /// the screen.
    pub fn term_row(&self, column_widths: &Vec<u16>) -> (drawn: TermRow)
        requires
            column_widths@.len() >= self.columns@.len(),
        ensures
            drawn.cells@.len() == self.columns@.len(),
            forall|i: int|
                0 <= i < drawn.cells@.len() ==> (#[trigger] drawn.cells@[i])@ == wrapped_text(
                    self.columns@[i]@,
                    column_widths@[i] as usize,
                ),
            drawn.height == row_height(
                tallest(text_views(drawn.cells@), drawn.cells@.len()),
            ),
    {
        let cells = self.wrapped_columns(column_widths);
        let height = height_of(&cells);
        TermRow { cells, height }
    }
}

/// The height of a row of wrapped columns: the line count of the tallest
/// one, 1 without a column; it wraps at 65536.
pub fn height_of(cells: &Vec<String>) -> (height: u16)
    ensures
        height == row_height(tallest(text_views(cells@), cells@.len())),
{
    let mut most: u128 = 1;
    let mut i: usize = 0;
    while i < cells.len()
        invariant
            i <= cells@.len(),
            most == tallest(text_views(cells@), i as nat),
        decreases cells@.len() - i,
    {
        let lines = count_lines(cells[i].as_str());
        assert(text_views(cells@)[i as int] == cells@[i as int]@);
        if lines > most {
            most = lines;
        }
        i += 1;
    }
    (most % 0x1_0000) as u16
}

/// A table with a selection.
#[derive(Debug)]
pub struct Table {
    pub rows: Vec<Row>,
    pub header: Vec<String>,
    pub state: TableState,
    pub widths: Vec<ColumnWidth>,
}

/// What can be shown as the rows of a table.
pub trait TableRows {
    fn rows(&self) -> Vec<Row>;
}

/// What can be shown as one row of a table.
pub trait TableRow {
    fn row(&self) -> Row;
}

/// What names the columns of its table.
pub trait TableHeaders {
    fn headers() -> Vec<String>;
}

/// What sets the widths of the columns of its table.
pub trait TableWidths {
    fn widths() -> Vec<ColumnWidth>;
}

impl Table {
    /// A table of the given header, rows and widths; an empty one unless all
    /// three are given. Nothing is selected.
    pub fn new(
        header: Option<Vec<String>>,
        items: Option<Vec<Row>>,
        widths: Option<Vec<ColumnWidth>>,
    ) -> (table: Table)
        ensures
            table.state == ListState::initial(),
            match (items, header, widths) {
                (Some(rows), Some(header), Some(widths)) => table.rows == rows && table.header
                    == header && table.widths == widths,
                _ => table.rows@.len() == 0 && table.header@.len() == 0 && table.widths@.len()
                    == 0,
            },
    {
        if let (Some(rows), Some(header), Some(widths)) = (items, header, widths) {
            Table { rows, state: ListState::default(), header, widths }
        } else {
            Table {
                rows: Vec::new(),
                state: ListState::default(),
                header: Vec::new(),
                widths: Vec::new(),
            }
        }
    }

    /// The rule for the size of each column.
    pub fn constraints(&self) -> (constraints: Vec<Constraint>)
        ensures
            constraints@.len() == self.widths@.len(),
            forall|i: int|
                0 <= i < constraints@.len() ==> constraints@[i] == self.widths@[i].constraint,
    {
        let mut constraints: Vec<Constraint> = Vec::new();
        let mut i: usize = 0;
        while i < self.widths.len()
            invariant
                i <= self.widths@.len(),
                constraints@.len() == i,
                forall|j: int| 0 <= j < i ==> constraints@[j] == self.widths@[j].constraint,
            decreases self.widths@.len() - i,
        {
            constraints.push(self.widths[i].constraint);
            i += 1;
        }
        constraints
    }

    /// Replaces the header.
    pub fn set_header(&mut self, header: Vec<String>)
        ensures
            *final(self) == (Table { header, ..*old(self) }),
    {
        self.header = header;
    }

    /// Replaces the rows. The selection is not touched.
    pub fn set_rows(&mut self, rows: Vec<Row>)
        ensures
            *final(self) == (Table { rows, ..*old(self) }),
    {
        self.rows = rows;
    }

    /// Replaces the widths of the columns.
    pub fn set_widths(&mut self, widths: Vec<ColumnWidth>)
        ensures
            *final(self) == (Table { widths, ..*old(self) }),
    {
        self.widths = widths;
    }

    /// Moves the selection down by one row; at the end it stays.
    pub fn next(&mut self)
        ensures
            *final(self) == (Table {
                state: old(self).state.spec_select(
                    Some(step_down(old(self).state.selected, old(self).rows@.len())),
                ),
                ..*old(self)
            }),
    {
        let index = stepped_down(self.state.selected(), self.rows.len());
        self.state.select(Some(index));
    }

    /// Moves the selection up by one row; at the top it stays.
    pub fn previous(&mut self)
        ensures
            *final(self) == (Table {
                state: old(self).state.spec_select(
                    Some(step_up(old(self).state.selected, old(self).rows@.len())),
                ),
                ..*old(self)
            }),
    {
        let index = stepped_up(self.state.selected(), self.rows.len());
        self.state.select(Some(index));
    }

    /// The selected row.
    pub fn selected(&self) -> (selected: Option<usize>)
        ensures
            selected == self.state.selected,
    {
        self.state.selected()
    }

    /// Selects the row `num`.
    pub fn select(&mut self, num: usize)
        ensures
            *final(self) == (Table { state: old(self).state.spec_select(Some(num)), ..*old(self) }),
    {
        self.state.select(Some(num));
    }
}

/// The titles of the tabs.
pub const TAB_TITLES: [&'static str; 2] = ["Now Playing", "Search Results"];

/// The width that the title of a tab is centred in, on a screen `width`
/// cells wide.
pub fn tab_padding(width: u16) -> (padding: usize)
    requires
        width >= 8,
    ensures
        padding == width / 2 - 4,
{
    (width as usize / 2) - 4
}

/// A run of `count` spaces.
pub open spec fn spaces(count: nat) -> Seq<char> {
    Seq::new(count, |i: int| ' ')
}

/// The text centred in `width` columns: padded with spaces on both sides,
/// the odd space on the right; unchanged where it fills the width already.
pub open spec fn centered_text(text: Seq<char>, width: nat) -> Seq<char> {
    if text.len() >= width {
        text
    } else {
        let padding = (width - text.len()) as nat;
        spaces(padding / 2) + text + spaces((padding - padding / 2) as nat)
    }
}

/// A text with `count` spaces behind it.
fn padded(text: String, count: usize) -> (result: String)
    ensures
        result@ == text@ + spaces(count as nat),
{
    proof {
        reveal_strlit(" ");
    }
    let mut result = text;
    let mut i: usize = 0;
    assert(result@ =~= text@ + spaces(0));
    while i < count
        invariant
            i <= count,
            result@ == text@ + spaces(i as nat),
        decreases count - i,
    {
        proof {
            reveal_strlit(" ");
        }
        result.append(" ");
        i += 1;
        assert(result@ =~= text@ + spaces(i as nat));
    }
    result
}

/// The text centred in `width` columns.
pub fn centered(text: &str, width: usize) -> (result: String)
    ensures
        result@ == centered_text(text@, width as nat),
{
    let length = text.unicode_len();
    if length >= width {
        String::from_str(text)
    } else {
        let padding = width - length;
        let left = padding / 2;
        let right = padding - left;
        let mut result = padded(String::new(), left);
        result.append(text);
        let result = padded(result, right);
        assert(result@ =~= spaces(left as nat) + text@ + spaces(right as nat));
        result
    }
}

/// The parts of a line or a column that has `percent` of it in the middle:
/// the percentages of what lies before, of the middle and of what lies
/// behind.
pub fn centered_constraints(percent: u16) -> (constraints: Vec<Constraint>)
    requires
        percent <= 100,
    ensures
        constraints@ == seq![
            Constraint::Percentage(((100 - percent) / 2) as u16),
            Constraint::Percentage(percent),
            Constraint::Percentage(((100 - percent) / 2) as u16),
        ],
{
    let mut constraints: Vec<Constraint> = Vec::new();
    constraints.push(Constraint::Percentage((100 - percent) / 2));
    constraints.push(Constraint::Percentage(percent));
    constraints.push(Constraint::Percentage((100 - percent) / 2));
    assert(constraints@ =~= seq![
        Constraint::Percentage(((100 - percent) / 2) as u16),
        Constraint::Percentage(percent),
        Constraint::Percentage(((100 - percent) / 2) as u16),
    ]);
    constraints
}

} // verus!
