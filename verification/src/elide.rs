//! Cutting a long table down to its first and last rows.

use vstd::prelude::*;
use crate::table::Table;

verus! {

/// The text that stands in every cell of the row marking left-out rows.
pub open spec fn ellipsis() -> Seq<char> {
    seq!['.', '.', '.']
}

/// The row that marks left-out rows, for a table of `nb_cols` columns.
pub open spec fn placeholder_row(nb_cols: nat) -> Seq<Seq<char>> {
    Seq::new(nb_cols, |c: int| ellipsis())
}

/// The rows shown of `data` under a cap of `max_rows`. Data within the cap is
/// shown whole. Otherwise a placeholder row stands for what is left out: alone
/// under a cap of 0, after the first row under a cap of 1, and else between the
/// first `max_rows / 2` rows and the last `max_rows - max_rows / 2`.
pub open spec fn elided(data: Seq<Seq<Seq<char>>>, max_rows: nat, nb_cols: nat) -> Seq<
    Seq<Seq<char>>,
> {
    if data.len() <= max_rows {
        data
    } else if max_rows == 0 {
        seq![placeholder_row(nb_cols)]
    } else if max_rows == 1 {
        seq![data[0], placeholder_row(nb_cols)]
    } else {
        let nb_head = max_rows / 2;
        let nb_tail = max_rows - nb_head;
        data.take(nb_head as int) + seq![placeholder_row(nb_cols)] + data.skip(
            data.len() - nb_tail,
        )
    }
}

/// Where the placeholder row stands among the rows shown of data over a cap of
/// `max_rows`: behind the rows kept from the head of the data.
pub open spec fn placeholder_index(max_rows: nat) -> int {
    if max_rows == 1 {
        1
    } else {
        max_rows as int / 2
    }
}

/// Data over the cap is shown in one row more than the cap allows, the
/// placeholder row: in `max_rows + 1` rows, which is 1 row under a cap of 0
/// and 2 rows under a cap of 1. All other rows shown are rows of the data, in
/// their order. Data within the cap keeps its rows.
pub proof fn lemma_elided_rows(data: Seq<Seq<Seq<char>>>, max_rows: nat, nb_cols: nat)
    ensures
        data.len() <= max_rows ==> elided(data, max_rows, nb_cols) == data,
        data.len() > max_rows ==> {
            let shown = elided(data, max_rows, nb_cols);
            let gap = placeholder_index(max_rows);
            &&& shown.len() == max_rows + 1
            &&& shown[gap] == placeholder_row(nb_cols)
            &&& forall|r: int| 0 <= r < gap ==> shown[r] == data[r]
            &&& forall|r: int|
                gap < r < shown.len() ==> shown[r] == data[data.len() - shown.len() + r]
        },
{
}

/// Every row of an elided table is a row of the data or the placeholder row,
/// so rows of `nb_cols` cells stay rows of `nb_cols` cells.
pub proof fn lemma_elided_keeps_columns(data: Seq<Seq<Seq<char>>>, max_rows: nat, nb_cols: nat)
    requires
        forall|r: int| 0 <= r < data.len() ==> (#[trigger] data[r]).len() == nb_cols,
    ensures
        forall|r: int|
            0 <= r < elided(data, max_rows, nb_cols).len() ==> (#[trigger] elided(
                data,
                max_rows,
                nb_cols,
            )[r]).len() == nb_cols,
{
}

impl<'a> Table<'a> {
    /// Drops rows from the middle of `data` until it conforms to `max_rows`,
    /// and marks the gap with a placeholder row.
    pub fn apply_max_rows(data: Vec<Vec<&'a str>>, max_rows: usize, nb_cols: usize) -> (rows: Vec<
        Vec<&'a str>,
    >)
        ensures
            rows.deep_view() == elided(data.deep_view(), max_rows as nat, nb_cols as nat),
    {
        let mut data = data;
        let ghost shown = elided(data.deep_view(), max_rows as nat, nb_cols as nat);
        if data.len() <= max_rows {
            return data;
        }
        let placeholder: Vec<&'a str> = vec!["..."; nb_cols];
        proof {
            reveal_strlit("...");
            assert("..."@ =~= ellipsis());
            assert(placeholder.deep_view() =~= placeholder_row(nb_cols as nat));
        }

        if max_rows == 0 {
            let rows = vec![placeholder];
            assert(rows.deep_view() =~= shown);
            return rows;
        }
        if max_rows == 1 {
            data.truncate(1);
            data.push(placeholder);
            assert(data.deep_view() =~= shown);
            return data;
        }
        // An odd cap gives its odd row to the tail.
        let nb_head = max_rows / 2;
        let nb_tail = max_rows - nb_head;

        let mut tail = data.split_off(data.len() - nb_tail);
        data.truncate(nb_head);
        data.push(placeholder);
        data.append(&mut tail);
        assert(data.deep_view() =~= shown);
        data
    }
}

} // verus!
