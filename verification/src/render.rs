//! The text of a table.

use std::borrow::Cow;
use std::fmt::Alignment;
use vstd::prelude::*;
use crate::align::aligned_center;
use crate::align::aligned_left;
use crate::align::aligned_right;
use crate::blueprint::blueprint_of;
use crate::blueprint::default_separator;
use crate::blueprint::BlueprintView;
use crate::blueprint::TableError;
use crate::table::Table;
use crate::width::as_nats;

verus! {

/// The character that ends every line.
pub open spec fn newline() -> Seq<char> {
    seq!['\n']
}

/// `cells` one after the other, with `separator` between each two of them.
pub open spec fn joined(cells: Seq<Seq<char>>, separator: Seq<char>) -> Seq<char>
    decreases cells.len(),
{
    if cells.len() == 0 {
        Seq::empty()
    } else if cells.len() == 1 {
        cells[0]
    } else {
        joined(cells.drop_last(), separator) + separator + cells.last()
    }
}

/// `cell` padded to `width` visible characters on the side that `alignment`
/// leaves free.
pub open spec fn aligned(cell: Seq<char>, alignment: Alignment, width: nat) -> Seq<char> {
    match alignment {
        Alignment::Left => aligned_left(cell, width),
        Alignment::Right => aligned_right(cell, width),
        Alignment::Center => aligned_center(cell, width),
    }
}

/// The cells of `row` as they are written: each padded to the width of its
/// column, but for the last, which is written as it is.
pub open spec fn laid_out(row: Seq<Seq<char>>, alignments: Seq<Alignment>, widths: Seq<nat>) -> Seq<
    Seq<char>,
> {
    Seq::new(
        row.len(),
        |c: int|
            if c == row.len() - 1 {
                row[c]
            } else {
                aligned(row[c], alignments[c], widths[c])
            },
    )
}

/// The line of `row`: its cells as they are written, with `separator` between
/// each two of them and a newline at the end.
pub open spec fn row_line(
    row: Seq<Seq<char>>,
    alignments: Seq<Alignment>,
    widths: Seq<nat>,
    separator: Seq<char>,
) -> Seq<char> {
    joined(laid_out(row, alignments, widths), separator) + newline()
}

/// The lines of `rows`, one after the other.
pub open spec fn row_lines(
    rows: Seq<Seq<Seq<char>>>,
    alignments: Seq<Alignment>,
    widths: Seq<nat>,
    separator: Seq<char>,
) -> Seq<char>
    decreases rows.len(),
{
    if rows.len() == 0 {
        Seq::empty()
    } else {
        row_lines(rows.drop_last(), alignments, widths, separator) + row_line(
            rows.last(),
            alignments,
            widths,
            separator,
        )
    }
}

/// Every header is the empty text.
pub open spec fn all_empty(headers: Seq<Seq<char>>) -> bool {
    forall|c: int| 0 <= c < headers.len() ==> (#[trigger] headers[c]).len() == 0
}

/// The text of a table. Without rows it is the headers alone, as they are,
/// two spaces between each two of them. With rows it is the line of the
/// headers, unless all of them are empty, and then the line of each row.
pub open spec fn rendered(table: BlueprintView) -> Seq<char> {
    if table.data.len() == 0 {
        joined(table.headers, default_separator()) + newline()
    } else {
        let header_line = if all_empty(table.headers) {
            Seq::empty()
        } else {
            row_line(table.headers, table.alignments, table.columns_width, table.column_separator)
        };
        header_line + row_lines(
            table.data,
            table.alignments,
            table.columns_width,
            table.column_separator,
        )
    }
}

/// Rendering can be repeated: what it gives is decided by what the table
/// holds. A table rendered twice, or two tables that hold the same texts and
/// settings, give the same text, or fail for the same reason.
pub proof fn lemma_rendering_repeats(first: Table, second: Table)
    requires
        first@ == second@,
    ensures
        match (blueprint_of(first@), blueprint_of(second@)) {
            (Ok(once), Ok(again)) => rendered(once) == rendered(again),
            (Err(once), Err(again)) => once == again,
            _ => false,
        },
{
}

/// Whatever the alignment and the width of the last column, the line of a row
/// ends with the row's last cell as it is and a newline: nothing is put
/// behind the last cell, nor before it but the separator.
pub proof fn lemma_last_column_unpadded(
    row: Seq<Seq<char>>,
    alignments: Seq<Alignment>,
    widths: Seq<nat>,
    separator: Seq<char>,
)
    requires
        row.len() > 0,
    ensures
        laid_out(row, alignments, widths).last() == row.last(),
        row.len() == 1 ==> row_line(row, alignments, widths, separator) == row.last() + newline(),
        row.len() > 1 ==> row_line(row, alignments, widths, separator) == joined(
            laid_out(row, alignments, widths).drop_last(),
            separator,
        ) + separator + row.last() + newline(),
{
}

impl<'a> Table<'a> {
    /// Appends the text of the table to `output`, or says why the table has
    /// none and leaves `output` as it was. The table itself is only read, so
    /// rendering it again gives the same text.
    pub fn render(&self, output: &mut String) -> (result: Result<(), TableError>)
        ensures
            match blueprint_of(self@) {
                Ok(table) => result is Ok && final(output)@ == old(output)@ + rendered(table),
                Err(error) => result == Err::<(), TableError>(error) && final(output)@ == old(
                    output,
                )@,
            },
    {
        let table = match self.make_table_blueprint() {
            Ok(table) => table,
            Err(error) => {
                return Err(error);
            },
        };
        assert(table.columns_width.len() == table@.columns_width.len());

        if table.data.is_empty() {
            proof {
                reveal_strlit("  ");
                assert("  "@ =~= default_separator());
            }
            Self::join_cells(output, table.headers.as_slice(), "  ");
            output.push('\n');
            return Ok(());
        }
        let ghost before = output@;
        if !Self::all_empty(table.headers.as_slice()) {
            Self::render_row(
                output,
                table.headers.as_slice(),
                table.alignments.as_slice(),
                table.columns_width.as_slice(),
                table.column_separator,
            );
        } else {
            assert(output@ == before + Seq::<char>::empty());
        }
        let ghost with_headers = output@;
        let mut r: usize = 0;
        assert(table@.data.take(0) =~= Seq::empty());
        assert(output@ + Seq::<char>::empty() =~= output@);
        while r < table.data.len()
            invariant
                r <= table.data.len(),
                table@.wf(),
                table.columns_width.len() == table.headers.len(),
                output@ == with_headers + row_lines(
                    table@.data.take(r as int),
                    table@.alignments,
                    table@.columns_width,
                    table@.column_separator,
                ),
            decreases table.data.len() - r,
        {
            proof {
                let seen = table@.data.take(r + 1);
                assert(seen.drop_last() =~= table@.data.take(r as int));
                assert(seen.last() == table.data[r as int].deep_view());
                assert(table@.data[r as int].len() == table@.headers.len());
            }
            Self::render_row(
                output,
                table.data[r].as_slice(),
                table.alignments.as_slice(),
                table.columns_width.as_slice(),
                table.column_separator,
            );
            r += 1;
        }
        assert(table@.data.take(r as int) =~= table@.data);
        Ok(())
    }

    /// The text of a table that can be rendered.
    pub fn to_string(&self) -> (text: String)
        requires
            blueprint_of(self@) is Ok,
        ensures
            text@ == rendered(blueprint_of(self@)->Ok_0),
    {
        let mut text = String::new();
        let _ = self.render(&mut text);
        assert(Seq::<char>::empty() + rendered(blueprint_of(self@)->Ok_0) =~= rendered(
            blueprint_of(self@)->Ok_0,
        ));
        text
    }

    /// Whether every one of `headers` is the empty text.
    pub fn all_empty(headers: &[&str]) -> (empty: bool)
        ensures
            empty == all_empty(headers.deep_view()),
    {
        let mut i: usize = 0;
        while i < headers.len()
            invariant
                i <= headers.len(),
                forall|c: int| 0 <= c < i ==> (#[trigger] headers.deep_view()[c]).len() == 0,
            decreases headers.len() - i,
        {
            if !headers[i].is_empty() {
                assert(headers.deep_view()[i as int].len() != 0);
                return false;
            }
            i += 1;
        }
        true
    }

    /// Appends `cells` to `output`, with `separator` between each two of them.
    pub fn join_cells(output: &mut String, cells: &[&str], separator: &str)
        ensures
            final(output)@ == old(output)@ + joined(cells.deep_view(), separator@),
    {
        let mut i: usize = 0;
        assert(cells.deep_view().take(0) =~= Seq::empty());
        assert(output@ + Seq::<char>::empty() =~= output@);
        while i < cells.len()
            invariant
                i <= cells.len(),
                output@ == old(output)@ + joined(cells.deep_view().take(i as int), separator@),
            decreases cells.len() - i,
        {
            proof {
                let seen = cells.deep_view().take(i + 1);
                assert(seen.drop_last() =~= cells.deep_view().take(i as int));
                assert(seen.last() == cells[i as int]@);
            }
            if i > 0 {
                output.append(separator);
            }
            output.append(cells[i]);
            i += 1;
        }
        assert(cells.deep_view().take(i as int) =~= cells.deep_view());
    }

    /// Appends the line of `row` to `output`.
    pub fn render_row(
        output: &mut String,
        row: &[&str],
        alignments: &[Alignment],
        widths: &[usize],
        separator: &str,
    )
        requires
            row.len() <= alignments.len(),
            row.len() <= widths.len(),
        ensures
            final(output)@ == old(output)@ + row_line(
                row.deep_view(),
                alignments@,
                as_nats(widths@),
                separator@,
            ),
    {
        let ghost cells = laid_out(
            row.deep_view(),
            alignments@,
            as_nats(widths@),
        );
        let mut i: usize = 0;
        assert(cells.take(0) =~= Seq::empty());
        assert(output@ + Seq::<char>::empty() =~= output@);
        while i < row.len()
            invariant
                i <= row.len(),
                row.len() <= alignments.len(),
                row.len() <= widths.len(),
                cells == laid_out(
                    row.deep_view(),
                    alignments@,
                    as_nats(widths@),
                ),
                output@ == old(output)@ + joined(cells.take(i as int), separator@),
            decreases row.len() - i,
        {
            proof {
                let seen = cells.take(i + 1);
                assert(seen.drop_last() =~= cells.take(i as int));
                assert(seen.last() == cells[i as int]);
            }
            if i > 0 {
                output.append(separator);
            }
            let cell = row[i];
            let is_last_column = i == row.len() - 1;
            if is_last_column {
                output.append(cell);
            } else {
                let width = widths[i];
                let padded = match alignments[i] {
                    Alignment::Left => Self::align_left(cell, width),
                    Alignment::Right => Self::align_right(cell, width),
                    Alignment::Center => Self::align_center(cell, width),
                };
                match padded {
                    Cow::Borrowed(text) => output.append(text),
                    Cow::Owned(text) => output.append(text.as_str()),
                }
            }
            i += 1;
        }
        assert(cells.take(i as int) =~= cells);
        output.push('\n');
    }
}

} // verus!
