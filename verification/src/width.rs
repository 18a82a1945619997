//! The width of each column.

use vstd::prelude::*;
use crate::ansi::colored;
use crate::ansi::lemma_color_is_invisible;
use crate::ansi::visible_len;
use crate::table::Table;

verus! {

/// The cells of column `c`, one of each row of `data`.
pub open spec fn column(data: Seq<Seq<Seq<char>>>, c: int) -> Seq<Seq<char>> {
    Seq::new(data.len(), |r: int| data[r][c])
}

/// The greatest visible length among `header` and `column_values`.
pub open spec fn longest(header: Seq<char>, column_values: Seq<Seq<char>>) -> nat
    decreases column_values.len(),
{
    if column_values.len() == 0 {
        visible_len(header)
    } else {
        let before = longest(header, column_values.drop_last());
        let last = visible_len(column_values.last());
        if last > before {
            last
        } else {
            before
        }
    }
}

/// Widths as the numbers they stand for.
pub open spec fn as_nats(widths: Seq<usize>) -> Seq<nat> {
    widths.map_values(|width: usize| width as nat)
}

/// The width of every column of a table: the greatest visible length among
/// the column's header and its cells.
pub open spec fn columns_width(headers: Seq<Seq<char>>, data: Seq<Seq<Seq<char>>>) -> Seq<nat> {
    Seq::new(headers.len(), |c: int| longest(headers[c], column(data, c)))
}

/// The greatest visible length is at least that of the header and of every
/// value, and it is the visible length of one of them.
pub proof fn lemma_longest_is_maximum(header: Seq<char>, column_values: Seq<Seq<char>>)
    ensures
        longest(header, column_values) >= visible_len(header),
        forall|r: int|
            0 <= r < column_values.len() ==> longest(header, column_values) >= visible_len(
                #[trigger] column_values[r],
            ),
        longest(header, column_values) == visible_len(header) || exists|r: int|
            0 <= r < column_values.len() && longest(header, column_values) == visible_len(
                #[trigger] column_values[r],
            ),
    decreases column_values.len(),
{
    if column_values.len() > 0 {
        let before = column_values.drop_last();
        lemma_longest_is_maximum(header, before);
        assert forall|r: int| 0 <= r < column_values.len() implies longest(header, column_values)
            >= visible_len(#[trigger] column_values[r]) by {
            if r < before.len() {
                assert(before[r] == column_values[r]);
            }
        }
        if longest(header, column_values) != visible_len(header) {
            if longest(header, column_values) == visible_len(column_values.last()) {
                assert(column_values[column_values.len() - 1] == column_values.last());
            } else {
                let r = choose|r: int|
                    0 <= r < before.len() && longest(header, before) == visible_len(
                        #[trigger] before[r],
                    );
                assert(before[r] == column_values[r]);
            }
        }
    }
}

/// A column is never narrower than its header shows, nor than any of its
/// cells shows.
pub proof fn lemma_width_covers_column(
    headers: Seq<Seq<char>>,
    data: Seq<Seq<Seq<char>>>,
    c: int,
)
    requires
        0 <= c < headers.len(),
    ensures
        columns_width(headers, data)[c] >= visible_len(headers[c]),
        forall|r: int|
            0 <= r < data.len() ==> columns_width(headers, data)[c] >= visible_len(
                #[trigger] data[r][c],
            ),
{
    lemma_longest_is_maximum(headers[c], column(data, c));
    assert forall|r: int| 0 <= r < data.len() implies columns_width(headers, data)[c]
        >= visible_len(#[trigger] data[r][c]) by {
        assert(column(data, c)[r] == data[r][c]);
    }
}

/// The greatest visible length depends on nothing but the visible lengths.
proof fn lemma_longest_by_visible_len(
    header: Seq<char>,
    column_values: Seq<Seq<char>>,
    other_header: Seq<char>,
    other_values: Seq<Seq<char>>,
)
    requires
        visible_len(header) == visible_len(other_header),
        column_values.len() == other_values.len(),
        forall|r: int|
            0 <= r < column_values.len() ==> visible_len(#[trigger] column_values[r])
                == visible_len(other_values[r]),
    ensures
        longest(header, column_values) == longest(other_header, other_values),
    decreases column_values.len(),
{
    if column_values.len() > 0 {
        let before = column_values.drop_last();
        let other_before = other_values.drop_last();
        assert forall|r: int| 0 <= r < before.len() implies visible_len(#[trigger] before[r])
            == visible_len(other_before[r]) by {
            assert(before[r] == column_values[r]);
        }
        lemma_longest_by_visible_len(header, before, other_header, other_before);
        assert(column_values[column_values.len() - 1] == column_values.last());
    }
}

/// Colour in a cell leaves every column as wide as it is without the colour.
pub proof fn lemma_color_keeps_width(
    headers: Seq<Seq<char>>,
    data: Seq<Seq<Seq<char>>>,
    r: int,
    c: int,
    params: Seq<char>,
)
    requires
        forall|k: int| 0 <= k < data.len() ==> (#[trigger] data[k]).len() >= headers.len(),
        0 <= r < data.len(),
        0 <= c < headers.len(),
        forall|i: int| 0 <= i < params.len() ==> params[i] != 'm',
    ensures
        columns_width(headers, data.update(r, data[r].update(c, colored(params, data[r][c]))))
            == columns_width(headers, data),
{
    let in_color = data.update(r, data[r].update(c, colored(params, data[r][c])));
    lemma_color_is_invisible(params, data[r][c]);
    assert forall|k: int| 0 <= k < headers.len() implies longest(headers[k], column(in_color, k))
        == longest(headers[k], column(data, k)) by {
        assert forall|j: int| 0 <= j < data.len() implies visible_len(
            #[trigger] column(in_color, k)[j],
        ) == visible_len(column(data, k)[j]) by {
            assert(column(data, k)[j] == data[j][k]);
            assert(column(in_color, k)[j] == in_color[j][k]);
        }
        lemma_longest_by_visible_len(headers[k], column(in_color, k), headers[k], column(data, k));
    }
    assert(columns_width(headers, in_color) =~= columns_width(headers, data));
}

/// Colour in a header leaves every column as wide as it is without the
/// colour.
pub proof fn lemma_color_in_header_keeps_width(
    headers: Seq<Seq<char>>,
    data: Seq<Seq<Seq<char>>>,
    c: int,
    params: Seq<char>,
)
    requires
        0 <= c < headers.len(),
        forall|i: int| 0 <= i < params.len() ==> params[i] != 'm',
    ensures
        columns_width(headers.update(c, colored(params, headers[c])), data) == columns_width(
            headers,
            data,
        ),
{
    let in_color = headers.update(c, colored(params, headers[c]));
    lemma_color_is_invisible(params, headers[c]);
    assert forall|k: int| 0 <= k < headers.len() implies longest(in_color[k], column(data, k))
        == longest(headers[k], column(data, k)) by {
        lemma_longest_by_visible_len(in_color[k], column(data, k), headers[k], column(data, k));
    }
    assert(columns_width(in_color, data) =~= columns_width(headers, data));
}

impl<'a> Table<'a> {
    /// Determines the width of each column: the number of visible characters
    /// of the longest value held in the column, header included.
    pub fn determine_columns_width(headers: &[&str], data: &[Vec<&str>]) -> (cols_width: Vec<
        usize,
    >)
        requires
            forall|r: int| 0 <= r < data.len() ==> (#[trigger] data[r]).len() >= headers.len(),
        ensures
            as_nats(cols_width@) == columns_width(headers.deep_view(), data.deep_view()),
    {
        let mut cols_width: Vec<usize> = Vec::new();
        let mut i: usize = 0;
        while i < headers.len()
            invariant
                i <= headers.len(),
                cols_width.len() == i,
                forall|r: int| 0 <= r < data.len() ==> (#[trigger] data[r]).len() >= headers.len(),
                forall|c: int|
                    0 <= c < i ==> #[trigger] cols_width[c] == columns_width(
                        headers.deep_view(),
                        data.deep_view(),
                    )[c],
            decreases headers.len() - i,
        {
            let mut column_values: Vec<&str> = Vec::new();
            let mut r: usize = 0;
            while r < data.len()
                invariant
                    i < headers.len(),
                    r <= data.len(),
                    forall|k: int|
                        0 <= k < data.len() ==> (#[trigger] data[k]).len() >= headers.len(),
                    column_values.len() == r,
                    forall|k: int| 0 <= k < r ==> #[trigger] column_values[k] == data[k][i as int],
                decreases data.len() - r,
            {
                column_values.push(data[r][i]);
                r += 1;
            }
            assert(column_values.deep_view() =~= column(data.deep_view(), i as int));
            let max_width = Self::width_of_longest_value_in_column(
                headers[i],
                column_values.as_slice(),
            );
            cols_width.push(max_width);
            i += 1;
        }
        assert(as_nats(cols_width@) =~= columns_width(headers.deep_view(), data.deep_view()));
        cols_width
    }

    /// The number of visible characters of the longest among `header` and
    /// `column_values`.
    pub fn width_of_longest_value_in_column(header: &str, column_values: &[&str]) -> (width: usize)
        ensures
            width == longest(header@, column_values.deep_view()),
    {
        let mut width = Self::visible_len(header);
        let mut r: usize = 0;
        assert(column_values.deep_view().take(0) =~= Seq::empty());
        while r < column_values.len()
            invariant
                r <= column_values.len(),
                width == longest(header@, column_values.deep_view().take(r as int)),
            decreases column_values.len() - r,
        {
            let len = Self::visible_len(column_values[r]);
            proof {
                let seen = column_values.deep_view().take(r + 1);
                assert(seen.drop_last() =~= column_values.deep_view().take(r as int));
                assert(seen.last() == column_values[r as int]@);
            }
            if len > width {
                width = len;
            }
            r += 1;
        }
        assert(column_values.deep_view().take(r as int) =~= column_values.deep_view());
        width
    }
}

} // verus!
