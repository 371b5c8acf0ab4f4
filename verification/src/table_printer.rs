//! What a printer of tables decides: whether a result is shown whole or in
//! pages, which rows a page holds, what each cell reads, and what an
//! answer of the reader means.

use crate::object::GitQLObject;
use crate::object::Row;
use crate::text::same_text;
use crate::value::literal_of;
use crate::value::ValueView;
use vstd::prelude::*;

verus! {

/// A printer of tables, which may show a result page by page.
#[derive(Clone, Copy, Debug)]
pub struct TablePrinter {
    pub pagination: bool,
    pub page_size: usize,
}

/// How a result is shown.
#[derive(Clone, Copy, Debug, PartialEq, Eq, Structural)]
pub enum Layout {
    /// Not at all: it holds no group, or its first group holds no row.
    Nothing,
    /// All rows of the first group in one table.
    Whole,
    /// The rows of the first group in that many pages.
    Paged { number_of_pages: usize },
}

/// What the reader asks for between two pages.
#[derive(Clone, Copy, Debug, PartialEq, Eq, Structural)]
pub enum PaginationInput {
    NextPage,
    PreviousPage,
    Quit,
}

/// What the reader is offered between two pages.
#[derive(Clone, Copy, Debug, PartialEq, Eq, Structural)]
pub enum Prompt {
    /// On the first page: the next page, or to quit.
    NextOrQuit,
    /// On the last page: the previous page, or to quit.
    PreviousOrQuit,
    /// On any other page: the next page, the previous page, or to quit.
    NextPreviousOrQuit,
}

/// What an answer of the reader comes to.
#[derive(Clone, Copy, Debug, PartialEq, Eq, Structural)]
pub enum Answer {
    /// The answer is taken.
    Accepted(PaginationInput),
    /// `n` on the last page: the reader is asked again.
    AlreadyOnLastPage,
    /// `p` on the first page: the reader is asked again.
    AlreadyOnFirstPage,
    /// Anything else: the reader is asked again.
    Invalid,
}

/// The number of pages of `page_size` rows that `rows` rows take; beyond
/// all bounds where a page holds no row.
pub open spec fn pages(rows: nat, page_size: nat) -> nat {
    if page_size == 0 {
        usize::MAX as nat
    } else if rows % page_size == 0 {
        rows / page_size
    } else {
        rows / page_size + 1
    }
}

/// How a printer with these settings shows a result whose first group
/// holds `rows` rows, if it has one.
pub open spec fn layout_of(pagination: bool, page_size: usize, first_group: Option<nat>) -> Layout {
    match first_group {
        None => Layout::Nothing,
        Some(rows) => if rows == 0 {
            Layout::Nothing
        } else if !pagination || page_size >= rows {
            Layout::Whole
        } else {
            Layout::Paged { number_of_pages: pages(rows, page_size as nat) as usize }
        },
    }
}

/// What is offered on page `current_page` of `number_of_pages`.
pub open spec fn prompt_on(current_page: usize, number_of_pages: usize) -> Prompt {
    if current_page < 2 {
        Prompt::NextOrQuit
    } else if current_page == number_of_pages {
        Prompt::PreviousOrQuit
    } else {
        Prompt::NextPreviousOrQuit
    }
}

/// What the answer `input` comes to on page `current_page` of `number_of_pages`.
pub open spec fn answer_to(input: Seq<char>, current_page: usize, number_of_pages: usize) -> Answer {
    if input == "n"@ {
        if current_page < number_of_pages {
            Answer::Accepted(PaginationInput::NextPage)
        } else {
            Answer::AlreadyOnLastPage
        }
    } else if input == "p"@ {
        if current_page > 1 {
            Answer::Accepted(PaginationInput::PreviousPage)
        } else {
            Answer::AlreadyOnFirstPage
        }
    } else if input == "q"@ {
        Answer::Accepted(PaginationInput::Quit)
    } else {
        Answer::Invalid
    }
}

/// The texts of the first `titles_len` values of each row.
pub open spec fn cells_of(rows: Seq<Seq<ValueView>>, titles_len: int) -> Seq<Seq<Seq<char>>> {
    Seq::new(
        rows.len(),
        |r: int| Seq::new(titles_len as nat, |c: int| literal_of(rows[r][c])),
    )
}

/// The texts of a table of strings.
pub open spec fn cell_views(cells: Seq<Vec<String>>) -> Seq<Seq<Seq<char>>> {
    Seq::new(cells.len(), |r: int| Seq::new(cells[r]@.len(), |c: int| cells[r]@[c]@))
}

impl TablePrinter {
    /// A printer that shows a result in pages of `page_size` rows where
    /// `pagination` is set, and whole where it is not.
    pub fn new(pagination: bool, page_size: usize) -> (printer: TablePrinter)
        ensures
            printer.pagination == pagination,
            printer.page_size == page_size,
    {
        TablePrinter { pagination, page_size }
    }

    /// How `object` is shown: not at all where it has nothing to show;
    /// whole where pages are not asked for or one page holds all rows of
    /// the first group; else in pages.
    pub fn layout(&self, object: &GitQLObject) -> (layout: Layout)
        ensures
            layout == layout_of(
                self.pagination,
                self.page_size,
                if object@.groups.len() == 0 {
                    None
                } else {
                    Some(object@.groups[0].len())
                },
            ),
    {
        if object.is_empty() || object.groups[0].is_empty() {
            return Layout::Nothing;
        }
        let group_len: usize = object.groups[0].len();
        if !self.pagination || self.page_size >= group_len {
            return Layout::Whole;
        }
        let number_of_pages: usize = if self.page_size == 0 {
            usize::MAX
        } else if group_len % self.page_size == 0 {
            group_len / self.page_size
        } else {
            proof {
                let g = group_len as int;
                let q = self.page_size as int;
                assert(q >= 2) by {
                    if q == 1 {
                        assert(g % 1 == 0);
                    }
                }
                assert(g / q <= g / 2) by (nonlinear_arith)
                    requires
                        q >= 2,
                        g >= 0,
                ;
            }
            group_len / self.page_size + 1
        };
        Layout::Paged { number_of_pages }
    }

    /// The rows of page `current_page`, as the positions of its first row
    /// and behind its last row among `group_len` rows.
    pub fn page_bounds(&self, current_page: usize, group_len: usize) -> (bounds: (usize, usize))
        requires
            current_page >= 1,
            (current_page - 1) * self.page_size <= group_len,
        ensures
            bounds.0 == (current_page - 1) * self.page_size,
            bounds.1 == if bounds.0 + self.page_size <= group_len {
                bounds.0 + self.page_size
            } else {
                group_len as int
            },
            bounds.0 <= bounds.1 <= group_len,
    {
        assert((current_page - 1) * self.page_size <= usize::MAX);
        let start_index: usize = (current_page - 1) * self.page_size;
        let end_index: usize = if self.page_size <= group_len - start_index {
            start_index + self.page_size
        } else {
            group_len
        };
        (start_index, end_index)
    }
}

/// What the reader is offered on page `current_page` of `number_of_pages`.
pub fn pagination_prompt(current_page: usize, number_of_pages: usize) -> (prompt: Prompt)
    ensures
        prompt == prompt_on(current_page, number_of_pages),
{
    if current_page < 2 {
        Prompt::NextOrQuit
    } else if current_page == number_of_pages {
        Prompt::PreviousOrQuit
    } else {
        Prompt::NextPreviousOrQuit
    }
}

/// What the answer `input`, without the blank space round it, comes to on
/// page `current_page` of `number_of_pages`: `n` asks for the next page,
/// `p` for the previous one, `q` to quit.
pub fn handle_pagination_input(input: &str, current_page: usize, number_of_pages: usize) -> (answer:
    Answer)
    ensures
        answer == answer_to(input@, current_page, number_of_pages),
{
    if same_text(input, "n") {
        if current_page < number_of_pages {
            Answer::Accepted(PaginationInput::NextPage)
        } else {
            Answer::AlreadyOnLastPage
        }
    } else if same_text(input, "p") {
        if current_page > 1 {
            Answer::Accepted(PaginationInput::PreviousPage)
        } else {
            Answer::AlreadyOnFirstPage
        }
    } else if same_text(input, "q") {
        Answer::Accepted(PaginationInput::Quit)
    } else {
        Answer::Invalid
    }
}

/// The page that follows page `current_page` on the answer `input`, which
/// was accepted there; `None` where the reader quits.
pub fn turn_page(current_page: usize, number_of_pages: usize, input: PaginationInput) -> (next:
    Option<usize>)
    requires
        input == PaginationInput::NextPage ==> current_page < number_of_pages,
        input == PaginationInput::PreviousPage ==> current_page > 1,
    ensures
        next == match input {
            PaginationInput::NextPage => Some((current_page + 1) as usize),
            PaginationInput::PreviousPage => Some((current_page - 1) as usize),
            PaginationInput::Quit => None,
        },
{
    match input {
        PaginationInput::NextPage => Some(current_page + 1),
        PaginationInput::PreviousPage => Some(current_page - 1),
        PaginationInput::Quit => None,
    }
}

/// The cells of a table of `rows` under `titles_len` titles: row by row,
/// the text of each of the first `titles_len` values.
pub fn print_group_as_table(titles_len: usize, rows: &[Row]) -> (cells: Vec<Vec<String>>)
    requires
        forall|r: int| 0 <= r < rows@.len() ==> (#[trigger] rows@[r])@.len() >= titles_len,
    ensures
        cell_views(cells@) == cells_of(crate::object::row_views(rows@), titles_len as int),
{
    let mut cells: Vec<Vec<String>> = Vec::new();
    let mut r: usize = 0;
    while r < rows.len()
        invariant
            r <= rows@.len(),
            cells@.len() == r,
            forall|k: int| 0 <= k < rows@.len() ==> (#[trigger] rows@[k])@.len() >= titles_len,
            forall|k: int|
                0 <= k < r ==> (#[trigger] cells@[k])@.len() == titles_len && forall|c: int|
                    0 <= c < titles_len ==> (#[trigger] cells@[k]@[c])@ == literal_of(
                        rows@[k]@[c],
                    ),
        decreases rows@.len() - r,
    {
        let row = &rows[r];
        let mut line: Vec<String> = Vec::new();
        let mut c: usize = 0;
        while c < titles_len
            invariant
                c <= titles_len,
                row@.len() >= titles_len,
                line@.len() == c,
                forall|k: int| 0 <= k < c ==> (#[trigger] line@[k])@ == literal_of(row@[k]),
            decreases titles_len - c,
        {
            assert(row@[c as int] == row.values@[c as int]@);
            line.push(row.values[c].literal());
            c += 1;
        }
        cells.push(line);
        r += 1;
    }
    assert(cell_views(cells@) =~~= cells_of(crate::object::row_views(rows@), titles_len as int));
    cells
}

} // verus!
