//! From what a builder holds to a table that is ready to be written.

use std::fmt::Alignment;
use vstd::prelude::*;
use crate::ansi::visible_len;
use crate::elide::elided;
use crate::elide::lemma_elided_keeps_columns;
use crate::table::Table;
use crate::table::TableView;
use crate::width::as_nats;
use crate::width::columns_width;
use crate::width::lemma_width_covers_column;

verus! {

/// Why a table cannot be rendered.
#[derive(Clone, Copy, Debug, PartialEq, Eq, Structural)]
pub enum TableError {
    /// Neither headers nor a first row tell how many columns there are.
    HeadersAndDataEmpty,
    /// Headers were given, but no data.
    DataMissing,
    /// There are not as many alignments as headers.
    AlignmentsMismatch,
    /// Some row has not as many cells as there are headers.
    ColumnsMismatch,
}

/// The text of each error.
pub open spec fn message_of(error: TableError) -> Seq<char> {
    match error {
        TableError::HeadersAndDataEmpty => "headers and data cannot both be empty"@,
        TableError::DataMissing => "data is required"@,
        TableError::AlignmentsMismatch => "number of headers must match alignments"@,
        TableError::ColumnsMismatch => "number of headers must match columns in data"@,
    }
}

impl TableError {
    /// What went wrong, in words.
    pub fn message(&self) -> (text: &'static str)
        ensures
            text@ == message_of(*self),
    {
        match self {
            TableError::HeadersAndDataEmpty => "headers and data cannot both be empty",
            TableError::DataMissing => "data is required",
            TableError::AlignmentsMismatch => "number of headers must match alignments",
            TableError::ColumnsMismatch => "number of headers must match columns in data",
        }
    }
}

/// The text between two columns where none was set: two spaces.
pub open spec fn default_separator() -> Seq<char> {
    seq![' ', ' ']
}

/// A table in which every setting has its value: the rows are those that are
/// shown, and each column has its width.
#[verifier::ext_equal]
pub ghost struct BlueprintView {
    pub headers: Seq<Seq<char>>,
    pub alignments: Seq<Alignment>,
    pub data: Seq<Seq<Seq<char>>>,
    pub columns_width: Seq<nat>,
    pub column_separator: Seq<char>,
}

impl BlueprintView {
    /// There is one alignment and one width for each header, every row has a
    /// cell for each header, and each width is that of its column.
    pub open spec fn wf(self) -> bool {
        &&& self.alignments.len() == self.headers.len()
        &&& forall|r: int|
            0 <= r < self.data.len() ==> (#[trigger] self.data[r]).len() == self.headers.len()
        &&& self.columns_width == columns_width(self.headers, self.data)
    }
}

/// Number of columns of a table: the number of its headers or, without
/// headers, of the cells in its first row. `None` where neither is there.
pub open spec fn column_count(table: TableView) -> Option<nat> {
    match table.headers {
        Some(headers) => Some(headers.len()),
        None => match table.data {
            Some(data) => if data.len() > 0 {
                Some(data[0].len())
            } else {
                None
            },
            None => None,
        },
    }
}

/// The headers of a table of `nb_cols` columns: without headers, every column
/// has the empty header.
pub open spec fn headers_or_default(table: TableView, nb_cols: nat) -> Seq<Seq<char>> {
    match table.headers {
        Some(headers) => headers,
        None => Seq::new(nb_cols, |c: int| Seq::empty()),
    }
}

/// The alignments of a table of `nb_cols` columns: without alignments, every
/// column is aligned left.
pub open spec fn alignments_or_default(table: TableView, nb_cols: nat) -> Seq<Alignment> {
    match table.alignments {
        Some(alignments) => alignments,
        None => Seq::new(nb_cols, |c: int| Alignment::Left),
    }
}

/// Whether headers, alignments and rows agree on the number of columns, and
/// the error if they do not. Alignments are looked at before the rows.
pub open spec fn consistency(
    headers: Seq<Seq<char>>,
    alignments: Seq<Alignment>,
    data: Seq<Seq<Seq<char>>>,
) -> Result<(), TableError> {
    if headers.len() != alignments.len() {
        Err(TableError::AlignmentsMismatch)
    } else if exists|r: int| 0 <= r < data.len() && (#[trigger] data[r]).len() != headers.len() {
        Err(TableError::ColumnsMismatch)
    } else {
        Ok(())
    }
}

/// The blueprint of a table, or the reason why it has none. The column count
/// comes first, then the data, then the consistency of the three. Rows are
/// left out before the widths are taken, so that no hidden row widens a column.
pub open spec fn blueprint_of(table: TableView) -> Result<BlueprintView, TableError> {
    match column_count(table) {
        None => Err(TableError::HeadersAndDataEmpty),
        Some(nb_cols) => match table.data {
            None => Err(TableError::DataMissing),
            Some(data) => {
                let headers = headers_or_default(table, nb_cols);
                let alignments = alignments_or_default(table, nb_cols);
                match consistency(headers, alignments, data) {
                    Err(error) => Err(error),
                    Ok(_) => {
                        let shown = match table.max_rows {
                            Some(max_rows) => elided(data, max_rows, nb_cols),
                            None => data,
                        };
                        Ok(
                            BlueprintView {
                                headers,
                                alignments,
                                data: shown,
                                columns_width: columns_width(headers, shown),
                                column_separator: match table.column_separator {
                                    Some(separator) => separator,
                                    None => default_separator(),
                                },
                            },
                        )
                    },
                }
            },
        },
    }
}

/// In the blueprint of a table, the rows are as long as the headers, and no
/// column is narrower than its header shows or than any cell shows that is
/// left in it.
pub proof fn lemma_blueprint_widths_cover(table: TableView)
    requires
        blueprint_of(table) is Ok,
    ensures
        ({
            let made = blueprint_of(table)->Ok_0;
            &&& made.wf()
            &&& forall|c: int|
                0 <= c < made.headers.len() ==> made.columns_width[c] >= visible_len(
                    #[trigger] made.headers[c],
                )
            &&& forall|r: int, c: int|
                0 <= r < made.data.len() && 0 <= c < made.headers.len()
                    ==> made.columns_width[c] >= visible_len(#[trigger] made.data[r][c])
        }),
{
    let made = blueprint_of(table)->Ok_0;
    lemma_elided_keeps_columns(
        table.data->0,
        table.max_rows.unwrap_or(0),
        column_count(table)->0,
    );
    assert forall|c: int| 0 <= c < made.headers.len() implies {
        &&& made.columns_width[c] >= visible_len(#[trigger] made.headers[c])
        &&& forall|r: int|
            0 <= r < made.data.len() ==> made.columns_width[c] >= visible_len(
                #[trigger] made.data[r][c],
            )
    } by {
        lemma_width_covers_column(made.headers, made.data, c);
    }
}

/// A table that is ready to be written, as `Table::make_table_blueprint`
/// makes it.
pub struct TableBlueprint<'a> {
    pub headers: Vec<&'a str>,
    pub alignments: Vec<Alignment>,
    pub data: Vec<Vec<&'a str>>,
    pub columns_width: Vec<usize>,
    pub column_separator: &'a str,
}

impl<'a> View for TableBlueprint<'a> {
    type V = BlueprintView;

    open spec fn view(&self) -> BlueprintView {
        BlueprintView {
            headers: self.headers.deep_view(),
            alignments: self.alignments@,
            data: self.data.deep_view(),
            columns_width: as_nats(self.columns_width@),
            column_separator: self.column_separator@,
        }
    }
}

impl<'a> Table<'a> {
    /// Holds headers, alignments and rows against each other: there must be
    /// as many alignments as headers, and as many cells in every row.
    pub fn ensure_data_consistency(
        headers: &[&str],
        alignments: &[Alignment],
        data: &[Vec<&str>],
    ) -> (checked: Result<(), TableError>)
        ensures
            checked == consistency(headers.deep_view(), alignments@, data.deep_view()),
    {
        if headers.len() != alignments.len() {
            return Err(TableError::AlignmentsMismatch);
        }
        let mut r: usize = 0;
        while r < data.len()
            invariant
                r <= data.len(),
                headers.len() == alignments.len(),
                forall|k: int|
                    0 <= k < r ==> (#[trigger] data.deep_view()[k]).len() == headers.len(),
            decreases data.len() - r,
        {
            if data[r].len() != headers.len() {
                assert(data.deep_view()[r as int].len() != headers.deep_view().len());
                return Err(TableError::ColumnsMismatch);
            }
            r += 1;
        }
        Ok(())
    }
}

} // verus!
