//! ANSI escape sequence filter.
//!
//! A three-state machine that reads shell output one byte at a time and keeps
//! only the plain text: printable ASCII and the layout controls (backspace,
//! tab, line feed, vertical tab, form feed, carriage return). Escape
//! sequences are dropped, not interpreted.

use vstd::prelude::*;

verus! {

/// Where the filter stands in the byte stream.
#[derive(Debug, Clone, Copy, PartialEq, Eq, Structural)]
pub enum FilterState {
    /// Plain text.
    Normal,
    /// An ESC byte was seen; the next byte decides what follows.
    Escape,
    /// Inside a control sequence (`ESC [`), up to its final byte.
    Csi,
}

/// The escape byte, which starts every sequence.
pub const ESC: u8 = 0x1b;

/// The bytes that reach the text: `0x08..=0x0d` and `0x20..=0x7e`.
pub open spec fn is_displayable(byte: u8) -> bool {
    0x08 <= byte <= 0x0d || 0x20 <= byte <= 0x7e
}

/// The bytes that end a control sequence: `0x40..=0x7e`.
pub open spec fn is_csi_final(byte: u8) -> bool {
    0x40 <= byte <= 0x7e
}

/// The state after reading `byte` in state `state`.
///
/// After ESC only `[` opens a sequence that is read to its end. Every other
/// byte ends the escape at once, also `P`, `]`, `^` and `_`, which introduce
/// strings: such a string is not read to its terminator, so what follows the
/// introducer is treated as plain input. Inside a control sequence every
/// byte but a final byte leaves the state as it is.
pub open spec fn next_state(state: FilterState, byte: u8) -> FilterState {
    match state {
        FilterState::Normal => if byte == ESC {
            FilterState::Escape
        } else {
            FilterState::Normal
        },
        FilterState::Escape => if byte == 0x5b {
            FilterState::Csi
        } else {
            FilterState::Normal
        },
        FilterState::Csi => if is_csi_final(byte) {
            FilterState::Normal
        } else {
            FilterState::Csi
        },
    }
}

/// The character that reading `byte` in state `state` yields, if any.
pub open spec fn emitted(state: FilterState, byte: u8) -> Option<char> {
    if state == FilterState::Normal && is_displayable(byte) {
        Some(byte as char)
    } else {
        None
    }
}

/// The state after reading all of `bytes`, starting in `state`.
pub open spec fn state_after(state: FilterState, bytes: Seq<u8>) -> FilterState
    decreases bytes.len(),
{
    if bytes.len() == 0 {
        state
    } else {
        next_state(state_after(state, bytes.drop_last()), bytes.last())
    }
}

/// The text that reading all of `bytes` yields, starting in `state`.
pub open spec fn filtered(state: FilterState, bytes: Seq<u8>) -> Seq<char>
    decreases bytes.len(),
{
    if bytes.len() == 0 {
        Seq::empty()
    } else {
        let before = bytes.drop_last();
        match emitted(state_after(state, before), bytes.last()) {
            Some(c) => filtered(state, before).push(c),
            None => filtered(state, before),
        }
    }
}

/// The characters that the filter lets through, as characters.
pub open spec fn is_text_char(c: char) -> bool {
    '\u{08}' <= c <= '\u{0d}' || '\u{20}' <= c <= '\u{7e}'
}

/// Text made of displayable characters only.
pub open spec fn is_text(text: Seq<char>) -> bool {
    forall|i: int| 0 <= i < text.len() ==> is_text_char(#[trigger] text[i])
}

/// `bytes` holds no ESC byte.
pub open spec fn escape_free(bytes: Seq<u8>) -> bool {
    forall|i: int| 0 <= i < bytes.len() ==> #[trigger] bytes[i] != ESC
}

/// `bytes` with everything but the displayable bytes removed, as text.
pub open spec fn displayable_part(bytes: Seq<u8>) -> Seq<char> {
    bytes.filter(|b: u8| is_displayable(b)).map_values(|b: u8| b as char)
}

/// `picks` names positions below `len`, each one after the one before.
pub open spec fn picks_in_order(picks: Seq<int>, len: nat) -> bool {
    &&& forall|k: int| 0 <= k < picks.len() ==> 0 <= #[trigger] picks[k] < len
    &&& forall|j: int, k: int| 0 <= j < k < picks.len() ==> picks[j] < picks[k]
}

/// The characters that stand in `bytes` at the positions `picks`.
pub open spec fn read_at(bytes: Seq<u8>, picks: Seq<int>) -> Seq<char> {
    Seq::new(picks.len(), |k: int| bytes[picks[k]] as char)
}

/// How the stream is cut into chunks changes nothing: reading `a` and then
/// `b` ends in the same state, and yields the same text, as reading `a + b`.
pub proof fn lemma_chunked_input(state: FilterState, a: Seq<u8>, b: Seq<u8>)
    ensures
        state_after(state, a + b) == state_after(state_after(state, a), b),
        filtered(state, a + b) == filtered(state, a) + filtered(state_after(state, a), b),
    decreases b.len(),
{
    if b.len() == 0 {
        assert(a + b == a);
    } else {
        assert((a + b).drop_last() == a + b.drop_last());
        assert((a + b).last() == b.last());
        lemma_chunked_input(state, a, b.drop_last());
    }
}

/// The filter only ever yields displayable characters, whatever it is fed.
pub proof fn lemma_filtered_is_text(state: FilterState, bytes: Seq<u8>)
    ensures
        is_text(filtered(state, bytes)),
        filtered(state, bytes).len() <= bytes.len(),
    decreases bytes.len(),
{
    if bytes.len() > 0 {
        lemma_filtered_is_text(state, bytes.drop_last());
    }
}

/// The filter keeps the order of its input and only leaves bytes out: its
/// output is the input read at some increasing positions.
pub proof fn lemma_output_in_input_order(state: FilterState, bytes: Seq<u8>)
    ensures
        exists|picks: Seq<int>| #[trigger]
            picks_in_order(picks, bytes.len()) && read_at(bytes, picks) == filtered(state, bytes),
    decreases bytes.len(),
{
    if bytes.len() == 0 {
        let picks = Seq::<int>::empty();
        assert(picks_in_order(picks, bytes.len()));
        assert(read_at(bytes, picks) == filtered(state, bytes));
    } else {
        let before = bytes.drop_last();
        lemma_output_in_input_order(state, before);
        let shorter = choose|picks: Seq<int>| #[trigger]
            picks_in_order(picks, before.len()) && read_at(before, picks) == filtered(
                state,
                before,
            );
        let picks = if emitted(state_after(state, before), bytes.last()) is Some {
            shorter.push(bytes.len() - 1)
        } else {
            shorter
        };
        assert(picks_in_order(picks, bytes.len()));
        assert(read_at(bytes, picks) == filtered(state, bytes));
    }
}

/// On input without ESC bytes a filter in the `Normal` state stays there, and
/// its output is the input with all bytes outside `0x08..=0x0d` and
/// `0x20..=0x7e` removed.
pub proof fn lemma_escape_free_input(bytes: Seq<u8>)
    requires
        escape_free(bytes),
    ensures
        state_after(FilterState::Normal, bytes) == FilterState::Normal,
        filtered(FilterState::Normal, bytes) == displayable_part(bytes),
    decreases bytes.len(),
{
    reveal(Seq::filter);
    if bytes.len() > 0 {
        let before = bytes.drop_last();
        lemma_escape_free_input(before);
        assert(bytes.last() == bytes[bytes.len() - 1]);
    }
}

/// Filtering is idempotent: the bytes of the filter's own output, read by a
/// fresh filter, come out unchanged and leave that filter in the `Normal`
/// state. In particular the output holds no ESC byte.
pub proof fn lemma_refiltering_changes_nothing(state: FilterState, bytes: Seq<u8>)
    ensures
        escape_free(vstd::utf8::encode_utf8(filtered(state, bytes))),
        state_after(FilterState::Normal, vstd::utf8::encode_utf8(filtered(state, bytes)))
            == FilterState::Normal,
        filtered(FilterState::Normal, vstd::utf8::encode_utf8(filtered(state, bytes)))
            == filtered(state, bytes),
{
    let text = filtered(state, bytes);
    lemma_filtered_is_text(state, bytes);
    lemma_text_survives(text);
}

/// Text of displayable characters passes a fresh filter unchanged.
pub proof fn lemma_text_survives(text: Seq<char>)
    requires
        is_text(text),
    ensures
        escape_free(vstd::utf8::encode_utf8(text)),
        state_after(FilterState::Normal, vstd::utf8::encode_utf8(text)) == FilterState::Normal,
        filtered(FilterState::Normal, vstd::utf8::encode_utf8(text)) == text,
{
    let encoded = vstd::utf8::encode_utf8(text);
    assert(vstd::utf8::is_ascii_chars(text));
    vstd::utf8::is_ascii_chars_encode_utf8(text);
    assert forall|i: int| 0 <= i < encoded.len() implies is_displayable(#[trigger] encoded[i])
        && encoded[i] as char == text[i] by {
        assert(is_text_char(text[i]));
        assert(encoded[i] == text[i] as u8);
    }
    lemma_escape_free_input(encoded);
    lemma_all_displayable(encoded);
    assert(displayable_part(encoded) == text);
}

/// Filtering by `is_displayable` keeps a sequence of displayable bytes whole.
proof fn lemma_all_displayable(bytes: Seq<u8>)
    requires
        forall|i: int| 0 <= i < bytes.len() ==> is_displayable(#[trigger] bytes[i]),
    ensures
        bytes.filter(|b: u8| is_displayable(b)) == bytes,
    decreases bytes.len(),
{
    reveal(Seq::filter);
    if bytes.len() > 0 {
        lemma_all_displayable(bytes.drop_last());
    }
}

/// ANSI escape sequence filter.
///
/// Fed the shell's output byte by byte, it yields the plain text and
/// swallows the escape sequences.
pub struct AnsiFilter {
    state: FilterState,
}

impl View for AnsiFilter {
    type V = FilterState;

    closed spec fn view(&self) -> FilterState {
        self.state
    }
}

impl AnsiFilter {
    /// A filter in the `Normal` state.
    pub fn new() -> (filter: Self)
        ensures
            filter@ == FilterState::Normal,
    {
        Self { state: FilterState::Normal }
    }

    /// Reads one byte. Returns the character to display, or `None` when the
    /// byte is part of an escape sequence or is not text.
    pub fn process(&mut self, byte: u8) -> (out: Option<char>)
        ensures
            final(self)@ == next_state(old(self)@, byte),
            out == emitted(old(self)@, byte),
    {
        match self.state {
            FilterState::Normal => {
                match byte {
                    0x1b => {
                        self.state = FilterState::Escape;
                        None
                    },
                    0x08..=0x0d => Some(byte as char),
                    0x20..=0x7e => Some(byte as char),
                    _ => None,
                }
            },
            FilterState::Escape => {
                match byte {
                    0x5b => {
                        self.state = FilterState::Csi;
                        None
                    },
                    _ => {
                        self.state = FilterState::Normal;
                        None
                    },
                }
            },
            FilterState::Csi => {
                match byte {
                    0x40..=0x7e => {
                        self.state = FilterState::Normal;
                        None
                    },
                    _ => None,
                }
            },
        }
    }

    /// Reads a run of bytes and returns the text they yield, in order.
    pub fn process_slice(&mut self, bytes: &[u8]) -> (text: String)
        ensures
            final(self)@ == state_after(old(self)@, bytes@),
            text@ == filtered(old(self)@, bytes@),
            is_text(text@),
    {
        proof {
            lemma_filtered_is_text(old(self)@, bytes@);
        }
        let mut text = String::new();
        let mut i: usize = 0;
        while i < bytes.len()
            invariant
                i <= bytes.len(),
                self@ == state_after(old(self)@, bytes@.take(i as int)),
                text@ == filtered(old(self)@, bytes@.take(i as int)),
            decreases bytes.len() - i,
        {
            proof {
                assert(bytes@.take(i + 1).drop_last() == bytes@.take(i as int));
            }
            if let Some(c) = self.process(bytes[i]) {
                text.push(c);
            }
            i += 1;
        }
        proof {
            assert(bytes@.take(i as int) == bytes@);
        }
        text
    }

    /// Puts the filter back into the `Normal` state.
    pub fn reset(&mut self)
        ensures
            final(self)@ == FilterState::Normal,
    {
        self.state = FilterState::Normal;
    }
}

impl Default for AnsiFilter {
    fn default() -> (filter: Self)
        ensures
            filter@ == FilterState::Normal,
    {
        Self::new()
    }
}

} // verus!
