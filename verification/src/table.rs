//! The table builder.

use std::fmt::Alignment;
use vstd::prelude::*;
use vstd::slice::slice_to_vec;
use crate::blueprint::alignments_or_default;
use crate::blueprint::blueprint_of;
use crate::blueprint::column_count;
use crate::blueprint::default_separator;
use crate::blueprint::headers_or_default;
use crate::blueprint::TableBlueprint;
use crate::blueprint::TableError;
use crate::elide::lemma_elided_keeps_columns;

verus! {

/// `std::fmt::Alignment` is a plain enumeration of `Left`, `Right` and
/// `Center`. Verus reads its variants as std declares them.
#[verifier::external_type_specification]
pub struct ExAlignment(Alignment);

/// What a [`Table`] has been told so far: each setting is absent until its
/// setter is called.
#[verifier::ext_equal]
pub ghost struct TableView {
    pub headers: Option<Seq<Seq<char>>>,
    pub alignments: Option<Seq<Alignment>>,
    pub data: Option<Seq<Seq<Seq<char>>>>,
    pub max_rows: Option<nat>,
    pub column_separator: Option<Seq<char>>,
}

/// Builder of a text table. Settings may be given in any order and are only
/// held against each other when the table is rendered.
#[derive(Clone, Debug, PartialEq, Eq)]
pub struct Table<'a> {
    headers: Option<Vec<&'a str>>,
    alignments: Option<&'a [Alignment]>,
    data: Option<Vec<Vec<&'a str>>>,
    max_rows: Option<usize>,
    column_separator: Option<&'a str>,
}

impl<'a> View for Table<'a> {
    type V = TableView;

    closed spec fn view(&self) -> TableView {
        TableView {
            headers: match self.headers {
                Some(headers) => Some(headers.deep_view()),
                None => None,
            },
            alignments: match self.alignments {
                Some(alignments) => Some(alignments@),
                None => None,
            },
            data: match self.data {
                Some(data) => Some(data.deep_view()),
                None => None,
            },
            max_rows: match self.max_rows {
                Some(max_rows) => Some(max_rows as nat),
                None => None,
            },
            column_separator: match self.column_separator {
                Some(separator) => Some(separator@),
                None => None,
            },
        }
    }
}

impl TableView {
    /// The view of a table on which no setter has been called.
    pub open spec fn unset() -> TableView {
        TableView {
            headers: None,
            alignments: None,
            data: None,
            max_rows: None,
            column_separator: None,
        }
    }
}

impl<'a> Default for Table<'a> {
    fn default() -> (table: Self)
        ensures
            table@ == TableView::unset(),
    {
        Self::new()
    }
}

impl<'a> Table<'a> {
    /// A table with nothing set.
    #[must_use]
    pub fn new() -> (table: Self)
        ensures
            table@ == TableView::unset(),
    {
        Self { headers: None, alignments: None, data: None, max_rows: None, column_separator: None }
    }

    /// Sets the header of each column, in place of any given before.
    pub fn headers(&mut self, headers: &[&'a str]) -> (table: &mut Self)
        ensures
            table@ == (TableView { headers: Some(headers.deep_view()), ..old(self)@ }),
            *final(self) == *final(table),
    {
        let headers: Vec<&'a str> = slice_to_vec(headers);
        self.headers = Some(headers);
        self
    }

    /// Sets the alignment of each column, in place of any given before.
    pub fn alignments(&mut self, alignments: &'a [Alignment]) -> (table: &mut Self)
        ensures
            table@ == (TableView { alignments: Some(alignments@), ..old(self)@ }),
            *final(self) == *final(table),
    {
        self.alignments = Some(alignments);
        self
    }

    /// Sets the rows, in place of any given before.
    pub fn data(&mut self, data: &[Vec<&'a str>]) -> (table: &mut Self)
        ensures
            table@ == (TableView { data: Some(data.deep_view()), ..old(self)@ }),
            *final(self) == *final(table),
    {
        self.data = Some(Self::copy_rows(data));
        self
    }

    /// A copy of `data` that refers to the same texts.
    fn copy_rows(data: &[Vec<&'a str>]) -> (rows: Vec<Vec<&'a str>>)
        ensures
            rows.len() == data.len(),
            forall|r: int| 0 <= r < data.len() ==> (#[trigger] rows[r])@ == data[r]@,
            rows.deep_view() == data.deep_view(),
    {
        let mut rows: Vec<Vec<&'a str>> = Vec::new();
        let mut i: usize = 0;
        while i < data.len()
            invariant
                i <= data.len(),
                rows.len() == i,
                forall|r: int| 0 <= r < i ==> (#[trigger] rows[r])@ == data[r]@,
            decreases data.len() - i,
        {
            rows.push(data[i].clone());
            i += 1;
        }
        assert(rows.deep_view() =~= data.deep_view());
        rows
    }

    /// Sets the greatest number of rows to show, in place of any given before.
    pub fn max_rows(&mut self, max_rows: usize) -> (table: &mut Self)
        ensures
            table@ == (TableView { max_rows: Some(max_rows as nat), ..old(self)@ }),
            *final(self) == *final(table),
    {
        self.max_rows = Some(max_rows);
        self
    }

    /// Sets the text between two columns, in place of any given before.
    pub fn column_separator(&mut self, separator: &'a str) -> (table: &mut Self)
        ensures
            table@ == (TableView { column_separator: Some(separator@), ..old(self)@ }),
            *final(self) == *final(table),
    {
        self.column_separator = Some(separator);
        self
    }

    /// Resolves every setting of the table and holds them against each
    /// other.
    pub fn make_table_blueprint(&self) -> (made: Result<TableBlueprint<'a>, TableError>)
        ensures
            match blueprint_of(self@) {
                Ok(table) => made is Ok && made->Ok_0@ == table && table.wf(),
                Err(error) => made == Err::<TableBlueprint<'a>, TableError>(error),
            },
    {
        let nb_cols = match self.determine_nb_columns() {
            Some(nb_cols) => nb_cols,
            None => {
                return Err(TableError::HeadersAndDataEmpty);
            },
        };

        let headers = self.get_headers_or_default(nb_cols);
        let alignments = self.get_alignments_or_default(nb_cols);
        let mut data = match &self.data {
            Some(data) => Self::copy_rows(data.as_slice()),
            None => {
                return Err(TableError::DataMissing);
            },
        };

        match Self::ensure_data_consistency(
            headers.as_slice(),
            alignments.as_slice(),
            data.as_slice(),
        ) {
            Ok(()) => {},
            Err(error) => {
                return Err(error);
            },
        }

        if let Some(max_rows) = self.max_rows {
            proof {
                lemma_elided_keeps_columns(data.deep_view(), max_rows as nat, nb_cols as nat);
            }
            data = Self::apply_max_rows(data, max_rows, nb_cols);
        }
        assert forall|r: int| 0 <= r < data.len() implies (#[trigger] data[r]).len()
            == headers.len() by {
            assert(data.deep_view()[r].len() == headers.deep_view().len());
        }

        let columns_width = Self::determine_columns_width(headers.as_slice(), data.as_slice());
        let column_separator = match self.column_separator {
            Some(separator) => separator,
            None => {
                proof {
                    reveal_strlit("  ");
                    assert("  "@ =~= default_separator());
                }
                "  "
            },
        };

        Ok(TableBlueprint { headers, alignments, data, columns_width, column_separator })
    }

    /// Number of columns: that of the headers or, without headers, of the
    /// cells in the first row. `None` where neither is there.
    pub fn determine_nb_columns(&self) -> (nb_cols: Option<usize>)
        ensures
            match nb_cols {
                Some(nb_cols) => column_count(self@) == Some(nb_cols as nat),
                None => column_count(self@) is None,
            },
    {
        if let Some(headers) = &self.headers {
            return Some(headers.len());
        }
        if let Some(data) = &self.data {
            if !data.is_empty() {
                assert(data.deep_view()[0] == data[0].deep_view());
                return Some(data[0].len());
            }
        }
        None
    }

    /// The headers that were set or, where none were, an empty header for
    /// each of `nb_cols` columns.
    pub fn get_headers_or_default(&self, nb_cols: usize) -> (headers: Vec<&'a str>)
        ensures
            headers.deep_view() == headers_or_default(self@, nb_cols as nat),
    {
        match &self.headers {
            Some(headers) => {
                let headers = headers.clone();
                assert(headers.deep_view() =~= headers_or_default(self@, nb_cols as nat));
                headers
            },
            None => {
                let headers = vec![""; nb_cols];
                proof {
                    reveal_strlit("");
                    assert(""@ =~= Seq::<char>::empty());
                    assert(headers.deep_view() =~= headers_or_default(self@, nb_cols as nat));
                }
                headers
            },
        }
    }

    /// The alignments that were set or, where none were, `Left` for each of
    /// `nb_cols` columns.
    pub fn get_alignments_or_default(&self, nb_cols: usize) -> (alignments: Vec<Alignment>)
        ensures
            alignments@ == alignments_or_default(self@, nb_cols as nat),
    {
        match self.alignments {
            Some(alignments) => slice_to_vec(alignments),
            None => {
                let mut alignments: Vec<Alignment> = Vec::new();
                let mut i: usize = 0;
                while i < nb_cols
                    invariant
                        i <= nb_cols,
                        alignments.len() == i,
                        forall|c: int| 0 <= c < i ==> alignments[c] == Alignment::Left,
                    decreases nb_cols - i,
                {
                    alignments.push(Alignment::Left);
                    i += 1;
                }
                assert(alignments@ =~= alignments_or_default(self@, nb_cols as nat));
                alignments
            },
        }
    }
}

} // verus!
