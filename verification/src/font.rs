//! Text layout for drawing: splitting the buffer's text into lines, and
//! placing lines and characters on a pixel buffer.
//!
//! Nothing here draws. The functions say where each glyph goes; rasterizing
//! and blending happen elsewhere.

use vstd::prelude::*;
use vstd::std_specs::iter::IteratorSpec;

verus! {

/// The two characters that end a line.
pub open spec fn is_line_break(c: char) -> bool {
    c == '\n' || c == '\r'
}

/// No character of `text` ends a line.
pub open spec fn break_free(text: Seq<char>) -> bool {
    forall|i: int| 0 <= i < text.len() ==> !is_line_break(#[trigger] text[i])
}

/// The position of the first line break in `text`, or `text.len()` if it
/// holds none.
pub open spec fn first_break(text: Seq<char>) -> int
    decreases text.len(),
{
    if text.len() == 0 || is_line_break(text[0]) {
        0
    } else {
        1 + first_break(text.skip(1))
    }
}

/// The length of the line break that starts at `at`: 2 for a carriage return
/// with a line feed right behind it, otherwise 1.
pub open spec fn break_len(text: Seq<char>, at: int) -> int {
    if text[at] == '\r' && at + 1 < text.len() && text[at + 1] == '\n' {
        2
    } else {
        1
    }
}

/// The lines of `text`.
///
/// A line ends at a line feed, at a carriage return, or at a carriage return
/// followed by a line feed; the break is not part of the line. A line that a
/// line feed ends is kept even when it is empty. An empty line before a
/// carriage return, and an empty rest after the last break, are left out.
pub open spec fn lines_of(text: Seq<char>) -> Seq<Seq<char>>
    decreases text.len(),
{
    let at = first_break(text);
    if !(0 <= at < text.len()) {
        if text.len() > 0 {
            seq![text]
        } else {
            Seq::empty()
        }
    } else {
        let line = text.take(at);
        let rest = lines_of(text.skip(at + break_len(text, at)));
        if text[at] == '\n' || line.len() > 0 {
            seq![line] + rest
        } else {
            rest
        }
    }
}

/// The contents of a list of strings.
pub open spec fn views(lines: Seq<String>) -> Seq<Seq<char>> {
    lines.map_values(|line: String| line@)
}

/// With a break-free `head` in front, the first break of `tail` is the first
/// break of the whole.
pub proof fn lemma_first_break_after(head: Seq<char>, tail: Seq<char>)
    requires
        break_free(head),
    ensures
        first_break(head + tail) == head.len() + first_break(tail),
    decreases head.len(),
{
    if head.len() == 0 {
        assert(head + tail == tail);
    } else {
        assert((head + tail).skip(1) == head.skip(1) + tail);
        assert((head + tail)[0] == head[0]);
        lemma_first_break_after(head.skip(1), tail);
    }
}

/// The first break is a position in the text or its length; nothing before
/// it ends a line, and a line break stands at it.
pub proof fn lemma_first_break(text: Seq<char>)
    ensures
        0 <= first_break(text) <= text.len(),
        break_free(text.take(first_break(text))),
        first_break(text) < text.len() ==> is_line_break(text[first_break(text)]),
    decreases text.len(),
{
    if text.len() == 0 || is_line_break(text[0]) {
    } else {
        lemma_first_break(text.skip(1));
        let at = first_break(text);
        assert forall|i: int| 0 <= i < at implies !is_line_break(#[trigger] text.take(at)[i]) by {
            if i > 0 {
                assert(text.take(at)[i] == text.skip(1).take(at - 1)[i - 1]);
            }
        }
    }
}

/// No line holds a line break, and only a line that a line feed ended can
/// be empty.
pub proof fn lemma_lines_hold_no_break(text: Seq<char>)
    ensures
        forall|k: int| 0 <= k < lines_of(text).len() ==> break_free(#[trigger] lines_of(text)[k]),
        !text.contains('\n') ==> forall|k: int|
            0 <= k < lines_of(text).len() ==> (#[trigger] lines_of(text)[k]).len() > 0,
    decreases text.len(),
{
    lemma_first_break(text);
    let at = first_break(text);
    if 0 <= at < text.len() {
        let rest = text.skip(at + break_len(text, at));
        lemma_lines_hold_no_break(rest);
        let line = text.take(at);
        let tail = lines_of(rest);
        let kept = text[at] == '\n' || line.len() > 0;
        if !text.contains('\n') {
            assert forall|i: int| 0 <= i < rest.len() implies rest[i] != '\n' by {
                assert(text.contains(text[i + at + break_len(text, at)]));
            }
            assert(!rest.contains('\n'));
            assert(text.contains(text[at]));
        }
        assert forall|k: int| 0 <= k < lines_of(text).len() implies break_free(
            #[trigger] lines_of(text)[k],
        ) && (!text.contains('\n') ==> lines_of(text)[k].len() > 0) by {
            if kept && k > 0 {
                assert(lines_of(text)[k] == tail[k - 1]);
            } else if kept {
                assert(lines_of(text)[k] == line);
            } else {
                assert(lines_of(text)[k] == tail[k]);
            }
        }
    } else {
        assert(text.take(at) == text);
    }
}

/// The lines hold every character of the text but the line breaks, in the
/// order of the text.
pub proof fn lemma_lines_keep_the_text(text: Seq<char>)
    ensures
        lines_of(text).flatten() == text.filter(|c: char| !is_line_break(c)),
    decreases text.len(),
{
    let keep = |c: char| !is_line_break(c);
    lemma_first_break(text);
    let at = first_break(text);
    let line = text.take(at);
    lemma_unbroken_is_kept(line);
    if 0 <= at < text.len() {
        let width = break_len(text, at);
        let rest = text.skip(at + width);
        let gap = text.subrange(at, at + width);
        lemma_lines_keep_the_text(rest);
        assert(text == line + gap + rest);
        Seq::filter_distributes_over_add(line + gap, rest, keep);
        Seq::filter_distributes_over_add(line, gap, keep);
        assert(gap.filter(keep) == Seq::<char>::empty()) by {
            reveal_with_fuel(Seq::filter, 3);
            assert(gap.drop_last().len() == width - 1);
            if width == 2 {
                assert(gap.drop_last().drop_last().len() == 0);
            }
        }
        assert(line + Seq::<char>::empty() == line);
        if text[at] == '\n' || line.len() > 0 {
            assert(lines_of(text) == seq![line] + lines_of(rest));
            vstd::seq_lib::lemma_flatten_concat(seq![line], lines_of(rest));
            assert(seq![line].flatten() == line) by {
                seq![line].lemma_flatten_one_element();
            }
        } else {
            assert(line == Seq::<char>::empty());
            assert(Seq::<char>::empty() + lines_of(rest).flatten() == lines_of(rest).flatten());
        }
    } else {
        assert(line == text);
        if text.len() > 0 {
            seq![text].lemma_flatten_one_element();
        } else {
            assert(lines_of(text).flatten() == Seq::<char>::empty());
        }
    }
}

/// Leaving the line breaks out of text that has none keeps it whole.
proof fn lemma_unbroken_is_kept(text: Seq<char>)
    requires
        break_free(text),
    ensures
        text.filter(|c: char| !is_line_break(c)) == text,
    decreases text.len(),
{
    reveal(Seq::filter);
    if text.len() > 0 {
        lemma_unbroken_is_kept(text.drop_last());
    }
}

/// Split text into lines for display.
///
/// Handles `\n`, `\r` and `\r\n` line endings.
pub fn split_lines(text: &str) -> (lines: Vec<String>)
    ensures
        views(lines@) == lines_of(text@),
{
    let mut lines: Vec<String> = Vec::new();
    let mut current = String::new();
    let mut after_cr = false;
    proof {
        assert(text@.skip(0) == text@);
        assert(current@ + text@ == text@);
        assert(views(lines@) + lines_of(text@) == lines_of(text@));
    }
    for c in it: text.chars()
        invariant
            it.seq() == text@,
            break_free(current@),
            after_cr ==> current@.len() == 0,
            lines_of(text@) == views(lines@) + lines_of(
                current@ + unread(after_cr, text@.skip(it.index())),
            ),
    {
        let ghost rest = text@.skip(it.index());
        let ghost line = current@;
        proof {
            assert(rest.len() > 0 && rest[0] == c);
            if c == '\n' && after_cr {
            } else {
                assert(unread(after_cr, rest) == rest);
                if is_line_break(c) {
                    lemma_first_break_after(line, rest);
                    assert((line + rest).take(line.len() as int) == line);
                    assert((line + rest).skip(line.len() + break_len(line + rest, line.len() as int))
                        == rest.skip(break_len(line + rest, line.len() as int)));
                    if rest.len() > 1 {
                        assert(rest.skip(1).skip(1) == rest.skip(2));
                    }
                    assert(Seq::<char>::empty() + unread(c == '\r', rest.skip(1)) == unread(
                        c == '\r',
                        rest.skip(1),
                    ));
                } else {
                    assert(line.push(c) + rest.skip(1) == line + rest);
                }
            }
            assert(rest.skip(1) == text@.skip(it.index() + 1));
        }
        if c == '\n' {
            if after_cr {
                after_cr = false;
            } else {
                lines.push(current);
                current = String::new();
            }
        } else if c == '\r' {
            after_cr = true;
            if !current.as_str().is_empty() {
                lines.push(current);
                current = String::new();
            }
        } else {
            after_cr = false;
            current.push(c);
        }
    }
    proof {
        assert(text@.skip(text@.len() as int) == Seq::<char>::empty());
        assert(current@ + Seq::<char>::empty() == current@);
        lemma_first_break_after(current@, Seq::empty());
    }
    if !current.as_str().is_empty() {
        lines.push(current);
    }
    lines
}

/// What is left to read at a position: `rest`, or, right behind a carriage
/// return, `rest` without the line feed that belongs to it.
pub open spec fn unread(after_cr: bool, rest: Seq<char>) -> Seq<char> {
    if after_cr && rest.len() > 0 && rest[0] == '\n' {
        rest.skip(1)
    } else {
        rest
    }
}

/// The control characters: `U+0000..=U+001F` and `U+007F..=U+009F`. Line
/// feed, carriage return and tab are among them.
pub open spec fn is_control(c: char) -> bool {
    c <= '\u{1f}' || '\u{7f}' <= c <= '\u{9f}'
}

/// Whether `c` is a control character.
pub fn is_control_char(c: char) -> (control: bool)
    ensures
        control == is_control(c),
{
    c <= '\u{1f}' || ('\u{7f}' <= c && c <= '\u{9f}')
}

/// The column of the pen after the character `c`, when it stood at column
/// `x` before and every glyph is `char_width` pixels wide.
///
/// A line feed or a carriage return takes the pen back to column 0. A tab
/// takes it to the next tab stop; there is one every 8 characters. Any other
/// control character leaves it where it is. Every other character moves it
/// one glyph to the right.
pub open spec fn pen_after(x: int, c: char, char_width: int) -> int {
    if c == '\n' || c == '\r' {
        0
    } else if c == '\t' {
        (x / char_width / 8 + 1) * 8 * char_width
    } else if is_control(c) {
        x
    } else {
        x + char_width
    }
}

/// The glyphs to draw for `text`, each with the column of its left edge,
/// when the pen starts at column `x` on a buffer `buffer_width` pixels wide.
///
/// Control characters move the pen and draw nothing. The rest of the text is
/// dropped as soon as the pen has reached the right edge of the buffer.
pub open spec fn placements(text: Seq<char>, x: int, char_width: int, buffer_width: int) -> Seq<
    (char, int),
>
    decreases text.len(),
{
    if text.len() == 0 {
        Seq::empty()
    } else {
        let c = text[0];
        let here = if is_control(c) {
            Seq::empty()
        } else {
            seq![(c, x)]
        };
        let next = pen_after(x, c, char_width);
        if next >= buffer_width {
            here
        } else {
            here + placements(text.skip(1), next, char_width, buffer_width)
        }
    }
}

/// A list of placed glyphs, with its columns as mathematical integers.
pub open spec fn placed_view(placed: Seq<(char, usize)>) -> Seq<(char, int)> {
    placed.map_values(|p: (char, usize)| (p.0, p.1 as int))
}

/// The column of the pen after a tab, or `None` if that column is beyond any
/// buffer.
fn tab_stop_after(x: usize, char_width: usize) -> (next: Option<usize>)
    requires
        char_width > 0,
    ensures
        match next {
            Some(column) => column == pen_after(x as int, '\t', char_width as int),
            None => pen_after(x as int, '\t', char_width as int) > usize::MAX,
        },
{
    let stops = x / char_width / 8 + 1;
    match stops.checked_mul(8) {
        Some(chars) => {
            let column = chars.checked_mul(char_width);
            proof {
                assert(stops * 8 * char_width == (stops * 8) * char_width);
            }
            column
        },
        None => {
            proof {
                assert(stops * 8 * char_width >= stops * 8) by (nonlinear_arith)
                    requires
                        stops * 8 >= 0,
                        char_width >= 1,
                ;
            }
            None
        },
    }
}

/// Lays out one line of text: which glyphs to draw, and at which column.
///
/// With a character width of 0 a tab has no next stop: such a text is not
/// accepted.
pub fn layout_text(text: &str, x: usize, char_width: usize, buffer_width: usize) -> (placed: Vec<
    (char, usize),
>)
    requires
        char_width > 0 || !text@.contains('\t'),
    ensures
        placed_view(placed@) == placements(
            text@,
            x as int,
            char_width as int,
            buffer_width as int,
        ),
{
    let mut placed: Vec<(char, usize)> = Vec::new();
    let mut pen = x;
    let mut chars = text.chars();
    let ghost mut at: int = 0;
    proof {
        assert(text@.skip(0) == text@);
        assert(placed_view(placed@) + placements(
            text@,
            x as int,
            char_width as int,
            buffer_width as int,
        ) == placements(text@, x as int, char_width as int, buffer_width as int));
    }
    loop
        invariant_except_break
            chars.remaining() == text@.skip(at),
            placements(text@, x as int, char_width as int, buffer_width as int) == placed_view(
                placed@,
            ) + placements(text@.skip(at), pen as int, char_width as int, buffer_width as int),
        invariant
            char_width > 0 || !text@.contains('\t'),
            chars.obeys_prophetic_iter_laws(),
            0 <= at <= text@.len(),
        ensures
            placed_view(placed@) == placements(
                text@,
                x as int,
                char_width as int,
                buffer_width as int,
            ),
        decreases text@.len() - at,
    {
        let ghost rest = text@.skip(at);
        let ghost before = placed_view(placed@);
        let c = match chars.next() {
            Some(c) => c,
            None => {
                proof {
                    assert(rest.len() == 0);
                    assert(before + Seq::<(char, int)>::empty() == before);
                }
                break ;
            },
        };
        proof {
            assert(rest.len() > 0 && rest[0] == c);
            assert(text@[at] == c);
            assert(rest.skip(1) == text@.skip(at + 1));
            at = at + 1;
        }
        let control = is_control_char(c);
        if !control {
            placed.push((c, pen));
            proof {
                assert(placed_view(placed@) == before + seq![(c, pen as int)]);
            }
        } else {
            proof {
                assert(before + Seq::<(char, int)>::empty() == before);
            }
        }
        let next = if c == '\n' || c == '\r' {
            Some(0)
        } else if c == '\t' {
            tab_stop_after(pen, char_width)
        } else if control {
            Some(pen)
        } else {
            pen.checked_add(char_width)
        };
        match next {
            Some(column) => {
                if column >= buffer_width {
                    break ;
                }
                pen = column;
            },
            None => {
                break ;
            },
        }
        proof {
            let here = if control {
                Seq::<(char, int)>::empty()
            } else {
                seq![(c, pen as int)]
            };
            assert(placed_view(placed@) + placements(
                text@.skip(at),
                pen as int,
                char_width as int,
                buffer_width as int,
            ) == placements(text@, x as int, char_width as int, buffer_width as int));
        }
    }
    placed
}

/// The rows at which the lines of a text are drawn: line `k` at row
/// `y + k * char_height`, for as long as there are lines, fewer than
/// `visible_lines` have been drawn, and the line still fits above the lower
/// edge of the buffer.
pub fn line_rows(
    line_count: usize,
    y: usize,
    char_height: usize,
    buffer_height: usize,
    visible_lines: usize,
) -> (rows: Vec<usize>)
    ensures
        rows@.len() <= line_count,
        rows@.len() <= visible_lines,
        forall|k: int|
            0 <= k < rows@.len() ==> #[trigger] rows@[k] == y + k * char_height && rows@[k]
                + char_height <= buffer_height,
        rows@.len() < line_count && rows@.len() < visible_lines ==> y + (rows@.len() + 1)
            * char_height > buffer_height,
{
    let mut rows: Vec<usize> = Vec::new();
    let mut row = y;
    let mut k: usize = 0;
    while k < line_count && k < visible_lines
        invariant
            rows@.len() == k,
            k <= line_count,
            k <= visible_lines,
            row == y + k * char_height,
            forall|j: int|
                0 <= j < rows@.len() ==> #[trigger] rows@[j] == y + j * char_height && rows@[j]
                    + char_height <= buffer_height,
        ensures
            rows@.len() <= line_count,
            rows@.len() <= visible_lines,
            forall|j: int|
                0 <= j < rows@.len() ==> #[trigger] rows@[j] == y + j * char_height && rows@[j]
                    + char_height <= buffer_height,
            rows@.len() < line_count && rows@.len() < visible_lines ==> y + (rows@.len() + 1)
                * char_height > buffer_height,
        decreases line_count - k,
    {
        proof {
            assert((k + 1) * char_height == k * char_height + char_height) by (nonlinear_arith);
        }
        if row > buffer_height || char_height > buffer_height - row {
            break ;
        }
        rows.push(row);
        row = row + char_height;
        k += 1;
    }
    rows
}

} // verus!
