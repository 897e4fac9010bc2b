//! Fitting texts into a given width.

use crate::text;
use vstd::prelude::*;

verus! {

/// The position of the last space character, if there is one.
pub open spec fn last_space(s: Seq<char>) -> Option<int>
    decreases s.len(),
{
    if s.len() == 0 {
        None
    } else if s.last() == ' ' {
        Some(s.len() - 1)
    } else {
        last_space(s.drop_last())
    }
}

/// How much of a text that is too wide goes on the first line: all before the
/// last space that fits, or else as much as fits.
pub open spec fn first_width(s: Seq<char>, width: int) -> int {
    match last_space(s.take(width)) {
        Some(i) => if i > 0 {
            i
        } else {
            width
        },
        None => width,
    }
}

/// The lines that a text is wrapped to. Blanks at a break are dropped.
pub open spec fn wrapped(s: Seq<char>, width: nat) -> Seq<Seq<char>>
    decreases s.len(),
    via wrapped_decreases
{
    if width == 0 {
        seq![s]
    } else if s.len() > width {
        let n = first_width(s, width as int);
        seq![s.take(n)] + wrapped(text::trim_start(s.skip(n)), width)
    } else if s.len() > 0 {
        seq![s]
    } else {
        Seq::empty()
    }
}

#[via_fn]
proof fn wrapped_decreases(s: Seq<char>, width: nat) {
    if 0 < width < s.len() {
        lemma_first_width(s, width as int);
        text::lemma_leading_space(s.skip(first_width(s, width as int)));
    }
}

proof fn lemma_last_space(s: Seq<char>)
    ensures
        last_space(s) matches Some(i) ==> 0 <= i < s.len() && s[i] == ' ',
    decreases s.len(),
{
    if s.len() > 0 && s.last() != ' ' {
        lemma_last_space(s.drop_last());
    }
}

proof fn lemma_first_width(s: Seq<char>, width: int)
    requires
        0 < width < s.len(),
    ensures
        0 < first_width(s, width) <= width,
{
    lemma_last_space(s.take(width));
}

/// Where the line that starts at `from` is broken.
fn line_break(v: &Vec<char>, from: usize, width: usize) -> (r: usize)
    requires
        0 < width,
        from <= v@.len(),
        width < v@.len() - from,
    ensures
        r == from + first_width(v@.skip(from as int), width as int),
        from < r <= from + width,
{
    let ghost s = v@.skip(from as int);
    assert(from + width < v.len());
    let end = from + width;
    let mut i: usize = end;
    assert(v@.subrange(from as int, i as int) =~= s.take(width as int));
    while from < i
        invariant
            from <= i <= from + width,
            0 < width,
            end == from + width,
            end < v@.len(),
            s == v@.skip(from as int),
            last_space(s.take(width as int)) == last_space(s.take(i - from)),
        decreases i,
    {
        assert(s.take(i - from).drop_last() =~= s.take(i - from - 1));
        assert(s.take(i - from).last() == v@[i - 1]);
        if v[i - 1] == ' ' {
            if i - 1 > from {
                return i - 1;
            }
            return end;
        }
        i -= 1;
    }
    end
}

/// The lines that a text is wrapped to at a width in characters.
pub fn wrap_text(text: &str, width: usize) -> (r: Vec<String>)
    ensures
        text::views(r@) == wrapped(text@, width as nat),
{
    let mut out: Vec<String> = Vec::new();
    if width == 0 {
        out.push(text.to_owned());
        assert(text::views(out@) =~= seq![text@]);
        return out;
    }
    let v = text::chars_of(text);
    let mut from: usize = 0;
    assert(v@.skip(0) =~= v@);
    assert(text::views(out@) =~= Seq::empty());
    while v.len() - from > width
        invariant
            0 < width,
            from <= v@.len(),
            v@ == text@,
            text::views(out@) + wrapped(v@.skip(from as int), width as nat) == wrapped(
                text@,
                width as nat,
            ),
        decreases v@.len() - from,
    {
        let ghost rest = v@.skip(from as int);
        let ghost before = text::views(out@);
        let to = line_break(&v, from, width);
        let line = text::string_of(&v, from, to);
        assert(line@ =~= rest.take(to - from));
        out.push(line);
        let next = text::skip_space(&v, to);
        assert(v@.skip(to as int) =~= rest.skip(to - from));
        assert(text::views(out@) =~= before.push(rest.take(to - from)));
        assert(text::views(out@) + wrapped(v@.skip(next as int), width as nat) =~= before + wrapped(
            rest,
            width as nat,
        ));
        from = next;
    }
    let ghost before = text::views(out@);
    if from < v.len() {
        let line = text::string_from(&v, from);
        out.push(line);
        assert(text::views(out@) =~= before + seq![v@.skip(from as int)]);
    } else {
        assert(text::views(out@) =~= before + Seq::<Seq<char>>::empty());
    }
    out
}

/// The lines that a text is wrapped to, for telling where a line lies.
pub fn wrap_for_offsets(text: &str, width: usize) -> (r: Vec<String>)
    ensures
        text::views(r@) == wrapped(text@, width as nat),
{
    wrap_text(text, width)
}

/// How many rows a text takes: at least one, and as many as 16 bits can tell.
pub open spec fn row_count(s: Seq<char>, width: nat) -> int {
    let n = wrapped(s, width).len();
    if n == 0 {
        1
    } else if n > u16::MAX {
        u16::MAX as int
    } else {
        n as int
    }
}

/// How many rows a text takes when it is wrapped.
pub fn wrapped_line_count(text: &str, width: usize) -> (r: u16)
    ensures
        r == row_count(text@, width as nat),
{
    if width == 0 {
        return 1;
    }
    let v = text::chars_of(text);
    let mut from: usize = 0;
    let mut count: u16 = 0;
    let ghost mut n: nat = 0;
    assert(v@.skip(0) =~= v@);
    while v.len() - from > width
        invariant
            0 < width,
            from <= v@.len(),
            v@ == text@,
            n + wrapped(v@.skip(from as int), width as nat).len() == wrapped(
                text@,
                width as nat,
            ).len(),
            count == if n > u16::MAX {
                u16::MAX as int
            } else {
                n as int
            },
        decreases v@.len() - from,
    {
        let ghost rest = v@.skip(from as int);
        let to = line_break(&v, from, width);
        let next = text::skip_space(&v, to);
        assert(v@.skip(to as int) =~= rest.skip(to - from));
        count = count.saturating_add(1);
        proof {
            n = n + 1;
        }
        from = next;
    }
    if from < v.len() {
        count = count.saturating_add(1);
    }
    if count == 0 {
        1
    } else {
        count
    }
}

/// A text cut to `max` characters, with an ellipsis where something is missing.
pub open spec fn truncated(s: Seq<char>, max: nat) -> Seq<char> {
    if max == 0 {
        Seq::empty()
    } else if s.len() <= max {
        s
    } else {
        s.take(max - 1) + "…"@
    }
}

/// A text cut to `max_chars` characters, with an ellipsis where something is
/// missing.
pub fn truncate(s: &str, max_chars: usize) -> (r: String)
    ensures
        r@ == truncated(s@, max_chars as nat),
{
    if max_chars == 0 {
        return String::new();
    }
    let v = text::chars_of(s);
    if v.len() <= max_chars {
        return s.to_owned();
    }
    let mut out = text::string_of(&v, 0, max_chars - 1);
    assert(v@.subrange(0, max_chars - 1) =~= v@.take(max_chars - 1));
    out.append("…");
    out
}

/// A truncated text is never longer than was asked for, and truncating it again
/// changes nothing.
pub proof fn truncated_fits(s: Seq<char>, max: nat)
    ensures
        truncated(s, max).len() <= max,
        truncated(truncated(s, max), max) == truncated(s, max),
        s.len() <= max ==> truncated(s, max) == s,
{
    reveal_strlit("…");
    assert(max == 0 && s.len() == 0 ==> s =~= Seq::<char>::empty());
}

/// The column of a cursor behind `n` characters that start at `start`, within a
/// box that ends at `max_x`.
pub open spec fn cursor_column(start: int, n: int, max_x: int) -> int {
    let end = if max_x > start {
        max_x
    } else {
        start
    };
    if start + n < end {
        start + n
    } else {
        end
    }
}

/// Cursor column after `query`, clamped so a pasted mega-string can neither
/// overflow 16 bits nor push the cursor outside the input box.
pub fn cursor_x(start: u16, query: &str, max_x: u16) -> (r: u16)
    ensures
        r == cursor_column(start as int, query@.len() as int, max_x as int),
{
    let n = text::chars_of(query).len();
    let end = if max_x > start {
        max_x
    } else {
        start
    };
    if n < (end - start) as usize {
        start + n as u16
    } else {
        end
    }
}

/// Every line of a wrapped text fits the width, and none of them is empty.
pub proof fn wrapped_lines_fit(s: Seq<char>, width: nat)
    requires
        width > 0,
    ensures
        forall|i: int|
            0 <= i < wrapped(s, width).len() ==> 0 < (#[trigger] wrapped(s, width)[i]).len() <= width,
    decreases s.len(),
{
    if s.len() > width {
        let n = first_width(s, width as int);
        let rest = text::trim_start(s.skip(n));
        lemma_first_width(s, width as int);
        text::lemma_leading_space(s.skip(n));
        wrapped_lines_fit(rest, width);
        assert forall|i: int| 0 <= i < wrapped(s, width).len() implies 0 < (#[trigger] wrapped(
            s,
            width,
        )[i]).len() <= width by {
            if i > 0 {
                assert(wrapped(s, width)[i] == wrapped(rest, width)[i - 1]);
            }
        }
    }
}

/// A text that is not empty takes at least one line.
pub proof fn some_line_is_shown(s: Seq<char>, width: nat)
    requires
        s.len() > 0,
    ensures
        wrapped(s, width).len() > 0,
{
}

/// The characters of a text that are not blanks.
pub open spec fn ink(s: Seq<char>) -> Seq<char>
    decreases s.len(),
{
    if s.len() == 0 {
        Seq::empty()
    } else if text::is_space(s[0]) {
        ink(s.skip(1))
    } else {
        seq![s[0]] + ink(s.skip(1))
    }
}

/// The characters of lines that are not blanks.
pub open spec fn lines_ink(lines: Seq<Seq<char>>) -> Seq<char>
    decreases lines.len(),
{
    if lines.len() == 0 {
        Seq::empty()
    } else {
        ink(lines[0]) + lines_ink(lines.skip(1))
    }
}

proof fn ink_of_parts(s: Seq<char>, n: int)
    requires
        0 <= n <= s.len(),
    ensures
        ink(s) == ink(s.take(n)) + ink(s.skip(n)),
    decreases n,
{
    if n == 0 {
        assert(s.skip(0) =~= s);
        assert(ink(s.take(0)) + ink(s) =~= ink(s));
    } else {
        ink_of_parts(s.skip(1), n - 1);
        assert(s.take(n).skip(1) =~= s.skip(1).take(n - 1));
        assert(s.skip(1).skip(n - 1) =~= s.skip(n));
        assert(ink(s) =~= ink(s.take(n)) + ink(s.skip(n)));
    }
}

proof fn ink_of_trimmed(s: Seq<char>)
    ensures
        ink(text::trim_start(s)) == ink(s),
    decreases s.len(),
{
    if s.len() > 0 && text::is_space(s[0]) {
        ink_of_trimmed(s.skip(1));
        text::lemma_leading_space(s.skip(1));
        assert(s.skip(1).skip(text::leading_space(s.skip(1)) as int) =~= s.skip(
            text::leading_space(s) as int,
        ));
    } else {
        assert(s.skip(0) =~= s);
    }
}

/// Wrapping loses nothing but blanks: line by line, the other characters are
/// those of the text in their order.
pub proof fn wrapping_keeps_ink(s: Seq<char>, width: nat)
    ensures
        lines_ink(wrapped(s, width)) == ink(s),
    decreases s.len(),
{
    reveal_with_fuel(lines_ink, 2);
    if width == 0 || 0 < s.len() <= width {
        assert(seq![s].skip(1) =~= Seq::empty());
        assert(ink(s) + Seq::<char>::empty() =~= ink(s));
    } else if s.len() > width {
        let n = first_width(s, width as int);
        let rest = text::trim_start(s.skip(n));
        lemma_first_width(s, width as int);
        text::lemma_leading_space(s.skip(n));
        wrapping_keeps_ink(rest, width);
        ink_of_parts(s, n);
        ink_of_trimmed(s.skip(n));
        assert(wrapped(s, width).skip(1) =~= wrapped(rest, width));
        assert(wrapped(s, width)[0] == s.take(n));
    }
}

/// A text that is too wide is broken at the last space that fits, and goes on behind
/// the blanks at the break.
pub proof fn lines_break_at_the_last_space(
    a: Seq<char>,
    b: Seq<char>,
    rest: Seq<char>,
)
    requires
        a.len() > 0,
        forall|i: int| 0 <= i < b.len() ==> #[trigger] b[i] != ' ',
        rest.len() > 0,
    ensures
        ({
            let width = a.len() + 1 + b.len();
            let s = a + seq![' '] + b + rest;
            wrapped(s, width) == seq![a] + wrapped(text::trim_start(seq![' '] + b + rest), width)
        }),
{
    let width = a.len() + 1 + b.len();
    let s = a + seq![' '] + b + rest;
    let fits = s.take(width as int);
    assert(fits =~= a + seq![' '] + b);
    last_space_is_last(a, b);
    assert(s.take(a.len() as int) =~= a);
    assert(s.skip(a.len() as int) =~= seq![' '] + b + rest);
}

/// The last space is the one that none follows.
proof fn last_space_is_last(a: Seq<char>, b: Seq<char>)
    requires
        forall|i: int| 0 <= i < b.len() ==> #[trigger] b[i] != ' ',
    ensures
        last_space(a + seq![' '] + b) == Some(a.len() as int),
        last_space(b) is None,
    decreases b.len(),
{
    let s = a + seq![' '] + b;
    if b.len() == 0 {
        assert(s.last() == ' ');
    } else {
        let t = b.drop_last();
        assert forall|i: int| 0 <= i < t.len() implies #[trigger] t[i] != ' ' by {
            assert(t[i] == b[i]);
        }
        last_space_is_last(a, t);
        assert(b[b.len() - 1] != ' ');
        assert(s.last() == b.last());
        assert(s.drop_last() =~= a + seq![' '] + t);
    }
}

/// A text that is too wide and has no space to break at, but perhaps at its very start,
/// is broken where it has filled the line.
pub proof fn long_words_fill_the_line(b: Seq<char>, rest: Seq<char>)
    requires
        b.len() > 0,
        forall|i: int| 0 < i < b.len() ==> #[trigger] b[i] != ' ',
        rest.len() > 0,
    ensures
        wrapped(b + rest, b.len()) == seq![b] + wrapped(text::trim_start(rest), b.len()),
{
    let s = b + rest;
    assert(s.take(b.len() as int) =~= b);
    assert(s.skip(b.len() as int) =~= rest);
    lemma_last_space(b);
}

/// A text that fits is a line of its own, and no text is no line.
pub proof fn fitting_texts_are_one_line(s: Seq<char>, width: nat)
    requires
        width > 0,
    ensures
        0 < s.len() <= width ==> wrapped(s, width) == seq![s],
        s.len() == 0 ==> wrapped(s, width).len() == 0,
        s.len() <= width ==> row_count(s, width) == 1,
        0 < wrapped(s, width).len() <= u16::MAX ==> row_count(s, width) == wrapped(s, width).len(),
{
}

/// A text that is too long shows its start, with an ellipsis in place of the rest.
pub proof fn cut_texts_show_their_start(a: Seq<char>, b: Seq<char>)
    requires
        b.len() > 1,
    ensures
        truncated(a + b, a.len() + 1) == a + "…"@,
        truncated(a + b, (a + b).len()) == a + b,
        truncated(a + b, 0).len() == 0,
{
    assert((a + b).take(a.len() as int) =~= a);
}

/// The cursor stands behind what was typed, and at the end of the box where that does
/// not fit.
pub proof fn cursors_stand_behind_the_text(start: int, n: int, max_x: int)
    requires
        n >= 0,
    ensures
        start + n <= max_x ==> cursor_column(start, n, max_x) == start + n,
        start <= max_x < start + n ==> cursor_column(start, n, max_x) == max_x,
        max_x < start ==> cursor_column(start, n, max_x) == start,
{
}

} // verus!
