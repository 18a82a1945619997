//! Padding a cell to the width of its column.

use std::borrow::Cow;
use vstd::prelude::*;
use crate::ansi::colored;
use crate::ansi::lemma_color_is_invisible;
use crate::ansi::visible_len;
use crate::table::Table;
use crate::text::push_spaces;
use crate::text::spaces;

verus! {

/// Number of spaces that bring `cell` to `width` visible characters: none when
/// it is that wide already.
pub open spec fn padding(cell: Seq<char>, width: nat) -> nat {
    if width > visible_len(cell) {
        (width - visible_len(cell)) as nat
    } else {
        0
    }
}

/// `cell` with its padding behind it.
pub open spec fn aligned_left(cell: Seq<char>, width: nat) -> Seq<char> {
    cell + spaces(padding(cell, width))
}

/// `cell` with its padding before it.
pub open spec fn aligned_right(cell: Seq<char>, width: nat) -> Seq<char> {
    spaces(padding(cell, width)) + cell
}

/// `cell` with half of its padding before it and the rest behind it; the odd
/// space goes behind.
pub open spec fn aligned_center(cell: Seq<char>, width: nat) -> Seq<char> {
    let before = padding(cell, width) / 2;
    let behind = (padding(cell, width) - before) as nat;
    spaces(before) + cell + spaces(behind)
}

/// Colour passes through: a text in colour is padded by as many spaces as the
/// text itself, and stands between them untouched.
pub proof fn lemma_color_passes_through(params: Seq<char>, content: Seq<char>, width: nat)
    requires
        forall|i: int| 0 <= i < params.len() ==> params[i] != 'm',
    ensures
        padding(colored(params, content), width) == padding(content, width),
        aligned_left(colored(params, content), width) == colored(params, content) + spaces(
            padding(content, width),
        ),
        aligned_right(colored(params, content), width) == spaces(padding(content, width))
            + colored(params, content),
        aligned_center(colored(params, content), width) == spaces(padding(content, width) / 2)
            + colored(params, content) + spaces(
            (padding(content, width) - padding(content, width) / 2) as nat,
        ),
{
    lemma_color_is_invisible(params, content);
}

impl<'a> Table<'a> {
    /// Left-aligns `string` in `width` visible characters. A string that
    /// needs no padding is handed back as it came.
    pub fn align_left(string: &str, width: usize) -> (aligned: Cow<'_, str>)
        ensures
            aligned@ == aligned_left(string@, width as nat),
            aligned is Borrowed <==> padding(string@, width as nat) == 0,
    {
        let padding_len = width.saturating_sub(Self::visible_len(string));
        if padding_len == 0 {
            assert(string@ + spaces(0) == string@);
            return Cow::Borrowed(string);
        }
        let mut out = string.to_owned();
        push_spaces(&mut out, padding_len);
        Cow::Owned(out)
    }

    /// Right-aligns `string` in `width` visible characters. A string that
    /// needs no padding is handed back as it came.
    pub fn align_right(string: &str, width: usize) -> (aligned: Cow<'_, str>)
        ensures
            aligned@ == aligned_right(string@, width as nat),
            aligned is Borrowed <==> padding(string@, width as nat) == 0,
    {
        let padding_len = width.saturating_sub(Self::visible_len(string));
        if padding_len == 0 {
            assert(spaces(0) + string@ == string@);
            return Cow::Borrowed(string);
        }
        let mut out = String::new();
        push_spaces(&mut out, padding_len);
        out.append(string);
        assert(out@ == spaces(padding_len as nat) + string@) by {
            assert(Seq::<char>::empty() + spaces(padding_len as nat) == spaces(padding_len as nat));
        }
        Cow::Owned(out)
    }

    /// Centers `string` in `width` visible characters. A string that needs no
    /// padding is handed back as it came.
    pub fn align_center(string: &str, width: usize) -> (aligned: Cow<'_, str>)
        ensures
            aligned@ == aligned_center(string@, width as nat),
            aligned is Borrowed <==> padding(string@, width as nat) == 0,
    {
        let padding_len = width.saturating_sub(Self::visible_len(string));
        if padding_len == 0 {
            assert(spaces(0) + string@ + spaces(0) == string@);
            return Cow::Borrowed(string);
        }
        let padding_left = padding_len / 2;
        let padding_right = padding_len - padding_left;
        let mut out = String::new();
        push_spaces(&mut out, padding_left);
        out.append(string);
        push_spaces(&mut out, padding_right);
        assert(out@ == spaces(padding_left as nat) + string@ + spaces(padding_right as nat)) by {
            assert(Seq::<char>::empty() + spaces(padding_left as nat) == spaces(
                padding_left as nat,
            ));
        }
        Cow::Owned(out)
    }
}

} // verus!
