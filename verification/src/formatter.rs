//! Rendering an array as text.

use std::fmt::Display;
use vstd::prelude::*;
use vstd::string::{to_string_from_display_ensures, StringExecFns};
use crate::arith::{
    has_zero, in_bounds, lemma_product_two, lemma_product_zero, lemma_unravel, product,
};
use crate::error::{ArrayError, StorageError};
use crate::utils::IndexIteration;
use crate::views::{element_at, fits_buffer, view_fits, ArrayView};

verus! {

/// The texts of `cells`, as sequences of characters.
pub open spec fn texts(cells: Seq<String>) -> Seq<Seq<char>> {
    Seq::new(cells.len(), |i: int| cells[i]@)
}

/// The texts of `cells`, one after the other, with a comma between each
/// two.
pub open spec fn joined(cells: Seq<Seq<char>>) -> Seq<char>
    decreases cells.len(),
{
    if cells.len() == 0 {
        Seq::empty()
    } else if cells.len() == 1 {
        cells[0]
    } else {
        joined(cells.drop_last()) + seq![','] + cells.last()
    }
}

/// The comma-joined list of `cells` in square brackets.
pub open spec fn bracketed(cells: Seq<Seq<char>>) -> Seq<char> {
    seq!['['] + joined(cells) + seq![']']
}

/// Row `row` of a table of `nrows` rows of `ncols` cells each: the list of
/// its cells, after an opening bracket in the first row and a blank in the
/// others, and before a closing bracket in the last row and a line break
/// in the others.
pub open spec fn row_text(cells: Seq<Seq<char>>, nrows: int, ncols: int, row: int) -> Seq<char> {
    (if row == 0 {
        seq!['[']
    } else {
        seq![' ']
    }) + bracketed(cells.subrange(row * ncols, (row + 1) * ncols)) + (if row == nrows - 1 {
        seq![']']
    } else {
        seq!['\n']
    })
}

/// The first `upto` rows of a table of `nrows` rows of `ncols` cells each.
pub open spec fn rows_text(cells: Seq<Seq<char>>, nrows: int, ncols: int, upto: int) -> Seq<char>
    decreases upto,
{
    if upto <= 0 {
        Seq::empty()
    } else {
        rows_text(cells, nrows, ncols, upto - 1) + row_text(cells, nrows, ncols, upto - 1)
    }
}

/// How an array of shape `shape` renders whose elements, in row-major
/// order, have the texts `cells`: with two axes as a table, one bracketed
/// row on each line; with any other number of axes as one bracketed list.
pub open spec fn rendering(cells: Seq<Seq<char>>, shape: Seq<usize>) -> Seq<char> {
    if shape.len() == 2 {
        rows_text(cells, shape[0] as int, shape[1] as int, shape[0] as int)
    } else {
        bracketed(cells)
    }
}

/// How often the line break occurs in `text`.
pub open spec fn line_breaks(text: Seq<char>) -> nat
    decreases text.len(),
{
    if text.len() == 0 {
        0
    } else {
        line_breaks(text.drop_last()) + if text.last() == '\n' {
            1nat
        } else {
            0nat
        }
    }
}

/// The line breaks of two texts put together are those of the one and
/// those of the other.
pub proof fn lemma_line_breaks_concat(a: Seq<char>, b: Seq<char>)
    ensures
        line_breaks(a + b) == line_breaks(a) + line_breaks(b),
    decreases b.len(),
{
    if b.len() == 0 {
        assert(a + b =~= a);
    } else {
        assert((a + b).drop_last() =~= a + b.drop_last());
        assert((a + b).last() == b.last());
        lemma_line_breaks_concat(a, b.drop_last());
    }
}

/// A text of one character has one line break where the character is the
/// line break, and none where it is another.
pub proof fn lemma_line_breaks_one(c: char)
    ensures
        line_breaks(seq![c]) == if c == '\n' {
            1nat
        } else {
            0nat
        },
{
    reveal_with_fuel(line_breaks, 2);
    assert(seq![c].drop_last() =~= Seq::<char>::empty());
    assert(seq![c].last() == c);
}

/// A bracketed list of cells without line breaks has none.
pub proof fn lemma_bracketed_one_line(cells: Seq<Seq<char>>)
    requires
        forall|i: int| 0 <= i < cells.len() ==> line_breaks(#[trigger] cells[i]) == 0,
    ensures
        line_breaks(joined(cells)) == 0,
        line_breaks(bracketed(cells)) == 0,
    decreases cells.len(),
{
    lemma_line_breaks_one('[');
    lemma_line_breaks_one(']');
    lemma_line_breaks_one(',');
    if cells.len() >= 2 {
        lemma_bracketed_one_line(cells.drop_last());
        lemma_line_breaks_concat(joined(cells.drop_last()), seq![',']);
        lemma_line_breaks_concat(joined(cells.drop_last()) + seq![','], cells.last());
    }
    lemma_line_breaks_concat(seq!['['], joined(cells));
    lemma_line_breaks_concat(seq!['['] + joined(cells), seq![']']);
}

/// The first `upto` rows of a table whose cells hold no line break hold
/// one line break for each row but the last of the table.
pub proof fn lemma_rows_line_breaks(cells: Seq<Seq<char>>, nrows: int, ncols: int, upto: int)
    requires
        0 <= upto <= nrows,
        0 <= ncols,
        cells.len() == nrows * ncols,
        forall|i: int| 0 <= i < cells.len() ==> line_breaks(#[trigger] cells[i]) == 0,
    ensures
        line_breaks(rows_text(cells, nrows, ncols, upto)) == if upto == nrows && nrows > 0 {
            nrows - 1
        } else {
            upto
        },
    decreases upto,
{
    if upto > 0 {
        let row = upto - 1;
        lemma_rows_line_breaks(cells, nrows, ncols, row);
        assert(0 <= row * ncols && row * ncols + ncols == (row + 1) * ncols && (row + 1) * ncols
            <= nrows * ncols) by (nonlinear_arith)
            requires
                0 <= row < nrows,
                0 <= ncols,
        ;
        let list = cells.subrange(row * ncols, (row + 1) * ncols);
        assert forall|i: int| 0 <= i < list.len() implies line_breaks(#[trigger] list[i]) == 0 by {
            assert(list[i] == cells[row * ncols + i]);
        }
        lemma_bracketed_one_line(list);
        lemma_line_breaks_one('[');
        lemma_line_breaks_one(' ');
        lemma_line_breaks_one(']');
        lemma_line_breaks_one('\n');
        let open = if row == 0 {
            seq!['[']
        } else {
            seq![' ']
        };
        let close = if row == nrows - 1 {
            seq![']']
        } else {
            seq!['\n']
        };
        lemma_line_breaks_concat(open, bracketed(list));
        lemma_line_breaks_concat(open + bracketed(list), close);
        lemma_line_breaks_concat(
            rows_text(cells, nrows, ncols, row),
            row_text(cells, nrows, ncols, row),
        );
    }
}

/// An array of two axes, with at least one row, whose cells hold no line
/// break renders on as many lines as it has rows: the line breaks are one
/// fewer.
pub proof fn lemma_table_lines(cells: Seq<Seq<char>>, shape: Seq<usize>)
    requires
        shape.len() == 2,
        shape[0] > 0,
        cells.len() == product(shape),
        forall|i: int| 0 <= i < cells.len() ==> line_breaks(#[trigger] cells[i]) == 0,
    ensures
        line_breaks(rendering(cells, shape)) + 1 == shape[0],
{
    lemma_product_two(shape);
    lemma_rows_line_breaks(cells, shape[0] as int, shape[1] as int, shape[0] as int);
}

/// Whether `cells` are texts of the elements that `view` shows over
/// `buffer`, in row-major order, each as its type displays it.
pub open spec fn shows<T: Display, ViewType: ArrayView>(
    cells: Seq<String>,
    buffer: Seq<T>,
    view: &ViewType,
) -> bool {
    &&& cells.len() == product(view.spec_shape())
    &&& forall|k: int|
        0 <= k < cells.len() ==> to_string_from_display_ensures::<T>(
            &element_at(buffer, view, k),
            #[trigger] cells[k],
        )
}

/// The comma-joined list of the cells from `from` up to, and without,
/// `to`, in square brackets.
pub fn bracketed_list(cells: &[String], from: usize, to: usize) -> (text: String)
    requires
        from <= to <= cells@.len(),
    ensures
        text@ == bracketed(texts(cells@).subrange(from as int, to as int)),
{
    let ghost all = texts(cells@);
    let mut text = "[".to_owned();
    proof {
        reveal_strlit("[");
        reveal_strlit("]");
        reveal_strlit(",");
        assert("["@ =~= seq!['[']);
        assert("]"@ =~= seq![']']);
        assert(","@ =~= seq![',']);
        assert(all.subrange(from as int, from as int) =~= Seq::<Seq<char>>::empty());
        assert(text@ =~= seq!['['] + joined(all.subrange(from as int, from as int)));
    }
    let mut i: usize = from;
    while i < to
        invariant
            from <= i <= to <= cells@.len(),
            all == texts(cells@),
            ","@ == seq![','],
            text@ == seq!['['] + joined(all.subrange(from as int, i as int)),
        decreases to - i,
    {
        proof {
            let next = all.subrange(from as int, i + 1);
            assert(next.drop_last() =~= all.subrange(from as int, i as int));
            assert(next.last() == cells@[i as int]@);
            if i == from {
                assert(joined(all.subrange(from as int, i as int)) =~= Seq::<char>::empty());
                assert(joined(next) == next[0]);
            }
        }
        if i > from {
            text.append(",");
        }
        text.append(cells[i].as_str());
        proof {
            assert(text@ =~= seq!['['] + joined(all.subrange(from as int, i + 1)));
        }
        i += 1;
    }
    text.append("]");
    proof {
        assert(text@ =~= bracketed(all.subrange(from as int, to as int)));
    }
    text
}

/// The rendering of an array of shape `shape` whose elements, in
/// row-major order, have the texts `cells`.
pub fn layout(cells: &[String], shape: &[usize]) -> (text: String)
    requires
        cells@.len() == product(shape@),
    ensures
        text@ == rendering(texts(cells@), shape@),
{
    if shape.len() != 2 {
        proof {
            assert(texts(cells@).subrange(0, cells@.len() as int) =~= texts(cells@));
        }
        return bracketed_list(cells, 0, cells.len());
    }
    let nrows = shape[0];
    let ncols = shape[1];
    let total = cells.len();
    let ghost all = texts(cells@);
    let mut text = String::new();
    proof {
        lemma_product_two(shape@);
        reveal_strlit("[");
        reveal_strlit("]");
        reveal_strlit(" ");
        reveal_strlit("\n");
        assert("["@ =~= seq!['[']);
        assert("]"@ =~= seq![']']);
        assert(" "@ =~= seq![' ']);
        assert("\n"@ =~= seq!['\n']);
    }
    let mut row: usize = 0;
    while row < nrows
        invariant
            0 <= row <= nrows,
            all == texts(cells@),
            total == cells@.len(),
            total == nrows * ncols,
            "["@ == seq!['['],
            "]"@ == seq![']'],
            " "@ == seq![' '],
            "\n"@ == seq!['\n'],
            text@ == rows_text(all, nrows as int, ncols as int, row as int),
        decreases nrows - row,
    {
        proof {
            assert(row * ncols + ncols == (row + 1) * ncols && (row + 1) * ncols <= nrows
                * ncols) by (nonlinear_arith)
                requires
                    0 <= row < nrows,
                    0 <= ncols,
            ;
        }
        let from = row * ncols;
        let to = from + ncols;
        if row == 0 {
            text.append("[");
        } else {
            text.append(" ");
        }
        let list = bracketed_list(cells, from, to);
        text.append(list.as_str());
        if row == nrows - 1 {
            text.append("]");
        } else {
            text.append("\n");
        }
        proof {
            assert(text@ =~= rows_text(all, nrows as int, ncols as int, row as int) + row_text(
                all,
                nrows as int,
                ncols as int,
                row as int,
            ));
        }
        row += 1;
    }
    text
}

/// The texts of the elements that `view` shows over `buffer`, in row-major
/// order, each as its type displays it.
///
/// Fails with `StorageError` where the buffer ends before an element of
/// the view.
pub fn render_cells<T: Display, ViewType: ArrayView>(buffer: &[T], view: &ViewType) -> (r: Result<
    Vec<String>,
    ArrayError,
>)
    requires
        view.wf(),
    ensures
        match r {
            Ok(cells) => view_fits(view, buffer@.len()) && shows(cells@, buffer@, view),
            Err(e) => e == ArrayError::StorageError(StorageError::TooShort) && !view_fits(
                view,
                buffer@.len(),
            ),
        },
{
    if !fits_buffer(view, buffer.len()) {
        return Err(ArrayError::StorageError(StorageError::TooShort));
    }
    let mut cells: Vec<String> = Vec::new();
    let n = view.numel();
    if n == 0 {
        return Ok(cells);
    }
    let shape = view.shape();
    proof {
        if has_zero(shape@) {
            lemma_product_zero(shape@);
        }
    }
    let mut walk = IndexIteration::row_major(shape);
    loop
        invariant
            view.wf(),
            shape@ == view.spec_shape(),
            !has_zero(shape@),
            n == product(shape@),
            view_fits(view, buffer@.len()),
            walk.wf(),
            walk.shape() == shape@,
            cells@.len() <= n,
            walk.upcoming() == if cells@.len() < n {
                Some(cells@.len())
            } else {
                None
            },
            forall|k: int|
                0 <= k < cells@.len() ==> to_string_from_display_ensures::<T>(
                    &element_at(buffer@, view, k),
                    #[trigger] cells@[k],
                ),
        ensures
            cells@.len() == n,
        decreases n - cells@.len(),
    {
        match walk.next() {
            None => {
                break ;
            },
            Some(idx) => {
                proof {
                    lemma_unravel(cells@.len(), shape@);
                    view.lemma_wf();
                    assert(in_bounds(idx@, view.spec_shape()));
                }
                let offset = view.translate(idx);
                cells.push(buffer[offset].to_string());
            },
        }
    }
    Ok(cells)
}

/// What renders itself as text.
pub trait ArrayFormatter {
    /// What holds of every formatter that its constructor hands out.
    spec fn wf(&self) -> bool;

    /// The text, or the reason why there is none.
    fn format(&self) -> (r: Result<String, ArrayError>)
        requires
            self.wf(),
    ;
}

/// Renders the elements that a view shows over a buffer, every one of
/// them.
pub struct VerboseFormatter<'a, T, ViewType> {
    storage: &'a [T],
    view: &'a ViewType,
}

impl<'a, T: Display, ViewType: ArrayView> VerboseFormatter<'a, T, ViewType> {
    /// The buffer that is read.
    pub closed spec fn spec_storage(&self) -> Seq<T> {
        self.storage@
    }

    /// The view that is laid over the buffer.
    pub closed spec fn spec_view(&self) -> &ViewType {
        self.view
    }

    pub fn new(storage: &'a [T], view: &'a ViewType) -> (formatter: Self)
        requires
            view.wf(),
        ensures
            formatter.wf(),
            formatter.spec_storage() == storage@,
            formatter.spec_view() == view,
    {
        VerboseFormatter { storage, view }
    }
}

impl<'a, T: Display, ViewType: ArrayView> ArrayFormatter for VerboseFormatter<'a, T, ViewType> {
    closed spec fn wf(&self) -> bool {
        self.view.wf()
    }

    /// The rendering of the array: a table for two axes, a flat list for
    /// any other number. Fails with `StorageError` where the buffer ends
    /// before an element of the view.
    fn format(&self) -> (r: Result<String, ArrayError>)
        ensures
            match r {
                Ok(text) => {
                    &&& view_fits(self.spec_view(), self.spec_storage().len())
                    &&& exists|cells: Seq<String>|
                        {
                            &&& #[trigger] shows(cells, self.spec_storage(), self.spec_view())
                            &&& text@ == rendering(texts(cells), self.spec_view().spec_shape())
                        }
                },
                Err(e) => e == ArrayError::StorageError(StorageError::TooShort) && !view_fits(
                    self.spec_view(),
                    self.spec_storage().len(),
                ),
            },
    {
        match render_cells(self.storage, self.view) {
            Ok(cells) => {
                let text = layout(cells.as_slice(), self.view.shape());
                proof {
                    assert(shows(cells@, self.spec_storage(), self.spec_view()));
                }
                Ok(text)
            },
            Err(e) => Err(e),
        }
    }
}

} // verus!
