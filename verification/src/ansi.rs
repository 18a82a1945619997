//! Terminal colour sequences and the visible length of a cell.

use std::borrow::Cow;
use vstd::prelude::*;
use vstd::std_specs::iter::IteratorSpec;
use crate::table::Table;
use crate::text::lemma_chars_at_most_bytes;

verus! {

/// The character that opens a colour sequence when `[` follows it.
pub const ESCAPE: char = '\x1b';

/// `s` begins with the two characters that open a colour sequence.
pub open spec fn opens_sequence(s: Seq<char>) -> bool {
    s.len() >= 2 && s[0] == ESCAPE && s[1] == '['
}

/// Some position of `s` opens a colour sequence.
pub open spec fn has_sequence(s: Seq<char>) -> bool {
    exists|i: int| 0 <= i < s.len() && #[trigger] opens_sequence(s.skip(i))
}

/// What is left of `s` once every colour sequence is taken out. A sequence
/// runs from an escape character directly followed by `[` up to and including
/// the next `m`; one that is never closed swallows the rest of the text. An
/// escape character that no `[` follows is an ordinary character.
pub open spec fn strip_ansi(s: Seq<char>) -> Seq<char>
    decreases s.len(),
{
    if s.len() == 0 {
        s
    } else if opens_sequence(s) {
        strip_sequence(s.skip(2))
    } else {
        seq![s[0]] + strip_ansi(s.skip(1))
    }
}

/// What is left of `s` when it starts inside a colour sequence: everything up
/// to and including the first `m` is dropped, the rest is stripped as usual.
pub open spec fn strip_sequence(s: Seq<char>) -> Seq<char>
    decreases s.len(),
{
    if s.len() == 0 {
        s
    } else if s[0] == 'm' {
        strip_ansi(s.skip(1))
    } else {
        strip_sequence(s.skip(1))
    }
}

/// Number of characters of `s` that show on a terminal.
pub open spec fn visible_len(s: Seq<char>) -> nat {
    strip_ansi(s).len()
}

/// The sequence that puts an end to every colour.
pub open spec fn reset() -> Seq<char> {
    seq![ESCAPE, '[', '0', 'm']
}

/// `content` in colour: behind the sequence that `params` make, and before
/// the sequence that resets the colour.
pub open spec fn colored(params: Seq<char>, content: Seq<char>) -> Seq<char> {
    seq![ESCAPE, '['] + params + seq!['m'] + content + reset()
}

/// A reset sequence at the end of a text adds nothing to what is left of it,
/// in whatever state the text begins.
proof fn lemma_reset_is_invisible(s: Seq<char>)
    ensures
        strip_ansi(s + reset()) == strip_ansi(s),
        strip_sequence(s + reset()) == strip_sequence(s),
    decreases s.len(),
{
    let t = s + reset();
    if s.len() == 0 {
        assert(t == reset());
        assert(reset().skip(1) == seq!['[', '0', 'm']);
        assert(reset().skip(2) == seq!['0', 'm']);
        assert(seq!['[', '0', 'm'].skip(1) == seq!['0', 'm']);
        assert(seq!['0', 'm'].skip(1) == seq!['m']);
        assert(seq!['m'].skip(1) == Seq::<char>::empty());
        assert(strip_ansi(Seq::<char>::empty()) == Seq::<char>::empty());
        assert(strip_sequence(seq!['m']) == Seq::<char>::empty());
        assert(strip_sequence(seq!['0', 'm']) == Seq::<char>::empty());
        assert(strip_sequence(seq!['[', '0', 'm']) == Seq::<char>::empty());
    } else {
        assert(t.skip(1) == s.skip(1) + reset());
        lemma_reset_is_invisible(s.skip(1));
        if s.len() >= 2 {
            assert(t.skip(2) == s.skip(2) + reset());
            lemma_reset_is_invisible(s.skip(2));
        }
        assert(opens_sequence(t) == opens_sequence(s));
    }
}

/// Inside a sequence, parameters without an `m` are dropped together with
/// the `m` that follows them.
proof fn lemma_params_are_invisible(params: Seq<char>, rest: Seq<char>)
    requires
        forall|i: int| 0 <= i < params.len() ==> params[i] != 'm',
    ensures
        strip_sequence(params + seq!['m'] + rest) == strip_ansi(rest),
    decreases params.len(),
{
    let t = params + seq!['m'] + rest;
    if params.len() == 0 {
        assert(t.skip(1) == rest);
    } else {
        assert(t.skip(1) == params.skip(1) + seq!['m'] + rest);
        lemma_params_are_invisible(params.skip(1), rest);
    }
}

/// Colour does not show: a text in colour has the visible characters of the
/// text itself, though it is another text. The parameters of the colour may
/// be any characters but `m`, which would end the sequence early.
pub proof fn lemma_color_is_invisible(params: Seq<char>, content: Seq<char>)
    requires
        forall|i: int| 0 <= i < params.len() ==> params[i] != 'm',
    ensures
        strip_ansi(colored(params, content)) == strip_ansi(content),
        visible_len(colored(params, content)) == visible_len(content),
        colored(params, content) != content,
{
    let t = colored(params, content);
    assert(t.skip(2) == params + seq!['m'] + (content + reset()));
    lemma_params_are_invisible(params, content + reset());
    lemma_reset_is_invisible(content);
    assert(t.len() == content.len() + params.len() + 7);
}

/// Where the scanner stands between two characters.
enum Scan {
    /// Outside any colour sequence.
    Text,
    /// Outside any colour sequence, with an escape character read and held
    /// back until the next character tells whether it opens one.
    Escape,
    /// Inside a colour sequence.
    Sequence,
}

/// Where the scanner stands after it has read `c` in `state`.
spec fn next_state(state: Scan, c: char) -> Scan {
    match state {
        Scan::Text => if c == ESCAPE {
            Scan::Escape
        } else {
            Scan::Text
        },
        Scan::Escape => if c == '[' {
            Scan::Sequence
        } else if c == ESCAPE {
            Scan::Escape
        } else {
            Scan::Text
        },
        Scan::Sequence => if c == 'm' {
            Scan::Text
        } else {
            Scan::Sequence
        },
    }
}

/// What the scanner delivers on reading `c` in `state`.
spec fn delivered_on(state: Scan, c: char) -> Seq<char> {
    match state {
        Scan::Text => if c == ESCAPE {
            Seq::empty()
        } else {
            seq![c]
        },
        Scan::Escape => if c == '[' {
            Seq::empty()
        } else if c == ESCAPE {
            seq![ESCAPE]
        } else {
            seq![ESCAPE, c]
        },
        Scan::Sequence => Seq::empty(),
    }
}

/// Number of characters read but not yet delivered.
spec fn held_back(state: Scan) -> int {
    match state {
        Scan::Escape => 1,
        _ => 0,
    }
}

/// What stripping still has to deliver once the scanner stands in `state`
/// with `rest` unread.
spec fn to_come(state: Scan, rest: Seq<char>) -> Seq<char> {
    match state {
        Scan::Text => strip_ansi(rest),
        Scan::Escape => strip_ansi(seq![ESCAPE] + rest),
        Scan::Sequence => strip_sequence(rest),
    }
}

/// Reading one character delivers just what stripping asks for.
proof fn lemma_scan_step(state: Scan, rest: Seq<char>)
    requires
        rest.len() > 0,
    ensures
        to_come(state, rest) == delivered_on(state, rest[0]) + to_come(
            next_state(state, rest[0]),
            rest.skip(1),
        ),
{
    let c = rest[0];
    let next = rest.skip(1);
    match state {
        Scan::Text => {
            if c == ESCAPE {
                assert(seq![ESCAPE] + next == rest);
                assert(Seq::<char>::empty() + strip_ansi(rest) == strip_ansi(rest));
            } else {
                assert(!opens_sequence(rest));
                assert(strip_ansi(rest) == seq![c] + strip_ansi(next));
            }
        },
        Scan::Escape => {
            let held = seq![ESCAPE] + rest;
            assert(held.skip(1) == rest);
            if c == '[' {
                assert(held.skip(2) == next);
                assert(Seq::<char>::empty() + strip_sequence(next) == strip_sequence(next));
            } else if c == ESCAPE {
                assert(seq![ESCAPE] + next == rest);
            } else {
                assert(seq![ESCAPE] + (seq![c] + strip_ansi(next)) == seq![ESCAPE, c] + strip_ansi(
                    next,
                ));
            }
        },
        Scan::Sequence => {
            assert(Seq::<char>::empty() + to_come(next_state(state, c), next) == to_come(
                next_state(state, c),
                next,
            ));
        },
    }
}

/// At the end of the text, an escape character that is held back is still to
/// be delivered, and nothing else.
proof fn lemma_scan_end(state: Scan)
    ensures
        to_come(state, Seq::empty()) == if state is Escape {
            seq![ESCAPE]
        } else {
            Seq::empty()
        },
{
    let lone = seq![ESCAPE];
    assert(lone + Seq::<char>::empty() == lone);
    assert(lone.skip(1) == Seq::<char>::empty());
    assert(strip_ansi(lone.skip(1)) == Seq::<char>::empty());
}

impl<'a> Table<'a> {
    /// Removes the colour sequences from `string`. The text is copied only
    /// from the first sequence on: a string without any is handed back as it
    /// came.
    pub fn strip_ansi_colors(string: &str) -> (stripped: Cow<'_, str>)
        ensures
            stripped@ == strip_ansi(string@),
            stripped is Borrowed <==> !has_sequence(string@),
    {
        broadcast use vstd::string::group_string_axioms;

        let ghost s = string@;
        // A string holds no more characters than bytes, so they can be counted.
        let byte_len = string.as_bytes().len();
        proof {
            lemma_chars_at_most_bytes(s);
        }

        let mut state = Scan::Text;
        let mut chars = string.chars();
        let mut i: usize = 0;

        // The copy is put off until the output parts from the input.
        let mut output_matches_input = true;
        let mut out = String::new();
        let ghost mut delivered = Seq::<char>::empty();

        assert(s.skip(0) == s && s.take(0) == delivered && delivered + strip_ansi(s) == strip_ansi(
            s,
        ));
        loop
            invariant
                s == string@,
                s.len() <= byte_len,
                i <= s.len(),
                chars.remaining() == s.skip(i as int),
                strip_ansi(s) == delivered + to_come(state, s.skip(i as int)),
                state is Escape ==> i > 0 && s[i - 1] == ESCAPE,
                output_matches_input ==> {
                    &&& delivered == s.take(i - held_back(state))
                    &&& !(state is Sequence)
                    &&& state is Text && i > 0 ==> s[i - 1] != ESCAPE
                    &&& forall|j: int| 0 <= j && j + 1 < i ==> !opens_sequence(#[trigger] s.skip(j))
                },
                !output_matches_input ==> delivered == out@ && has_sequence(s),
            ensures
                i == s.len(),
            decreases s.len() - i,
        {
            let ghost rest = s.skip(i as int);
            let c = match chars.next() {
                Some(c) => c,
                None => {
                    break;
                },
            };
            proof {
                lemma_scan_step(state, rest);
                delivered = delivered + delivered_on(state, c);
                assert(rest.skip(1) == s.skip(i + 1));
                assert(s.take(i + 1) == s.take(i as int) + seq![c]);
                if i > 0 {
                    assert(s.take(i as int) == s.take(i - 1) + seq![s[i - 1]]);
                    assert(s.skip(i - 1)[0] == s[i - 1] && s.skip(i - 1)[1] == c);
                }
            }
            match state {
                Scan::Text => {
                    if c == ESCAPE {
                        state = Scan::Escape;
                    } else if !output_matches_input {
                        out.push(c);
                    }
                },
                Scan::Escape => {
                    if c == '[' {
                        // Here the output parts from the input.
                        if output_matches_input {
                            output_matches_input = false;
                            out = string.substring_char(0, i - 1).to_owned();
                            assert(opens_sequence(s.skip(i - 1)));
                        }
                        state = Scan::Sequence;
                    } else {
                        if !output_matches_input {
                            out.push(ESCAPE);
                        }
                        if c != ESCAPE {
                            if !output_matches_input {
                                out.push(c);
                            }
                            state = Scan::Text;
                        }
                    }
                },
                Scan::Sequence => {
                    if c == 'm' {
                        state = Scan::Text;
                    }
                },
            }
            i += 1;
        }
        proof {
            lemma_scan_end(state);
            assert(s.skip(i as int) == Seq::<char>::empty());
            assert(s.take(i as int) == s);
        }

        if output_matches_input {
            Cow::Borrowed(string)
        } else {
            if let Scan::Escape = state {
                out.push(ESCAPE);
            }
            Cow::Owned(out)
        }
    }

    /// Counts the characters of `string` that show on a terminal.
    pub fn visible_len(string: &str) -> (len: usize)
        ensures
            len == visible_len(string@),
    {
        match Self::strip_ansi_colors(string) {
            Cow::Borrowed(shown) => shown.unicode_len(),
            Cow::Owned(shown) => shown.as_str().unicode_len(),
        }
    }
}

} // verus!
