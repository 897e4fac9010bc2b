//! Marking what was searched for within a text.

use crate::text;
use crate::ui::style;
use crate::ui::style::{Line, LineOfSpans, Style};
use vstd::prelude::*;

verus! {

/// The lower-case form of a character, which may take several.
pub uninterp spec fn char_lowercase(c: char) -> Seq<char>;

/// `char::to_lowercase` yields the characters of the lower-case form, which
/// depend on the character alone.
#[verifier::external_body]
fn lowercase_of(c: char) -> (r: Vec<char>)
    ensures
        r@ == char_lowercase(c),
{
    c.to_lowercase().collect()
}

/// Whether a character is a combining diacritical mark (U+0300–U+036F). These
/// can appear as extra code points when lowercasing characters such as Turkish
/// İ (U+0130) → i + U+0307. Skipping them keeps the lowercased text matchable
/// against a plain query like "istanbul".
pub open spec fn is_mark(c: char) -> bool {
    '\u{0300}' <= c <= '\u{036F}'
}

/// Whether a character is a combining diacritical mark.
pub fn is_combining_diacritic(c: char) -> (r: bool)
    ensures
        r == is_mark(c),
{
    '\u{0300}' <= c && c <= '\u{036F}'
}

/// A text without combining marks.
pub open spec fn unmarked(s: Seq<char>) -> Seq<char>
    decreases s.len(),
{
    if s.len() == 0 {
        Seq::empty()
    } else if is_mark(s.last()) {
        unmarked(s.drop_last())
    } else {
        unmarked(s.drop_last()).push(s.last())
    }
}

/// A text in lower case, without the combining marks.
pub open spec fn folded(s: Seq<char>) -> Seq<char>
    decreases s.len(),
{
    if s.len() == 0 {
        Seq::empty()
    } else {
        folded(s.drop_last()) + unmarked(char_lowercase(s.last()))
    }
}

/// For each character of the folded text, the position of the character that it
/// comes from.
pub open spec fn sources(s: Seq<char>) -> Seq<int>
    decreases s.len(),
{
    if s.len() == 0 {
        Seq::empty()
    } else {
        sources(s.drop_last()) + Seq::new(
            unmarked(char_lowercase(s.last())).len(),
            |i: int| s.len() - 1,
        )
    }
}

/// The position that the `i`-th character of the folded text comes from; behind
/// its end, the end of the text.
pub open spec fn source(s: Seq<char>, i: int) -> int {
    if 0 <= i < sources(s).len() {
        sources(s)[i]
    } else {
        s.len() as int
    }
}

/// The rest of a text from `last` on, if there is any.
pub open spec fn tail(s: Seq<char>, last: int, base: Style) -> LineOfSpans {
    if last < s.len() {
        seq![style::spanned(s.skip(last), base)]
    } else {
        Seq::empty()
    }
}

/// What stands between two positions, if there is anything.
pub open spec fn gap(s: Seq<char>, last: int, start: int, base: Style) -> LineOfSpans {
    if start > last {
        seq![style::spanned(s.subrange(last, start), base)]
    } else {
        Seq::empty()
    }
}

/// A text from `last` on, with the matches of a query from `from` on in the
/// folded text marked.
pub open spec fn marked_from(
    s: Seq<char>,
    query: Seq<char>,
    base: Style,
    mark: Style,
    from: int,
    last: int,
) -> LineOfSpans
    decreases folded(s).len() - from,
    when 0 <= from <= folded(s).len() && query.len() > 0
    via marked_from_decreases
{
    match text::find_from(folded(s), query, from) {
        Some(p) => {
            let next = p + query.len();
            let start = source(s, p);
            let end = source(s, next);
            gap(s, last, start, base) + seq![style::spanned(s.subrange(start, end), mark)] + if next
                >= folded(s).len() {
                tail(s, end, base)
            } else {
                marked_from(s, query, base, mark, next, end)
            }
        },
        None => tail(s, last, base),
    }
}

#[via_fn]
proof fn marked_from_decreases(
    s: Seq<char>,
    query: Seq<char>,
    base: Style,
    mark: Style,
    from: int,
    last: int,
) {
    text::lemma_find_from(folded(s), query, from);
}

/// A text with the matches of a query in lower case marked.
pub open spec fn highlighted(s: Seq<char>, query: Seq<char>, base: Style, mark: Style) -> LineOfSpans {
    let spans = marked_from(s, query, base, mark, 0, 0);
    if query.len() == 0 || spans.len() == 0 {
        seq![style::spanned(s, base)]
    } else {
        spans
    }
}

proof fn lemma_sources(s: Seq<char>)
    ensures
        sources(s).len() == folded(s).len(),
        forall|i: int| 0 <= i < sources(s).len() ==> 0 <= #[trigger] sources(s)[i] < s.len(),
        forall|i: int, j: int|
            0 <= i <= j < sources(s).len() ==> #[trigger] sources(s)[i] <= #[trigger] sources(s)[j],
    decreases s.len(),
{
    if s.len() > 0 {
        lemma_sources(s.drop_last());
        let front = sources(s.drop_last());
        assert forall|i: int| 0 <= i < sources(s).len() implies 0 <= #[trigger] sources(s)[i]
            < s.len() by {
            if i < front.len() {
                assert(sources(s)[i] == front[i]);
            }
        }
        assert forall|i: int, j: int| 0 <= i <= j < sources(s).len() implies #[trigger] sources(
            s,
        )[i] <= #[trigger] sources(s)[j] by {
            if i < front.len() {
                assert(sources(s)[i] == front[i]);
            }
            if j < front.len() {
                assert(sources(s)[j] == front[j]);
            }
        }
    }
}

/// The folded text, and the position that each of its characters comes from.
fn fold(v: &Vec<char>) -> (r: (Vec<char>, Vec<usize>))
    ensures
        r.0@ == folded(v@),
        r.1@.len() == sources(v@).len(),
        forall|i: int| 0 <= i < r.1@.len() ==> #[trigger] r.1@[i] == sources(v@)[i],
{
    let mut lower: Vec<char> = Vec::new();
    let mut origin: Vec<usize> = Vec::new();
    let mut i: usize = 0;
    while i < v.len()
        invariant
            i <= v@.len(),
            lower@ == folded(v@.take(i as int)),
            origin@.len() == sources(v@.take(i as int)).len(),
            forall|k: int|
                0 <= k < origin@.len() ==> #[trigger] origin@[k] == sources(v@.take(i as int))[k],
        decreases v@.len() - i,
    {
        let low = lowercase_of(v[i]);
        let ghost before = lower@;
        let ghost so_far = sources(v@.take(i as int));
        assert(v@.take(i + 1).drop_last() =~= v@.take(i as int));
        assert(v@.take(i + 1).last() == v@[i as int]);
        let mut k: usize = 0;
        while k < low.len()
            invariant
                k <= low@.len(),
                lower@ == before + unmarked(low@.take(k as int)),
                origin@.len() == so_far.len() + unmarked(low@.take(k as int)).len(),
                forall|j: int|
                    0 <= j < origin@.len() ==> #[trigger] origin@[j] == if j < so_far.len() {
                        so_far[j]
                    } else {
                        i as int
                    },
            decreases low@.len() - k,
        {
            assert(low@.take(k + 1).drop_last() =~= low@.take(k as int));
            assert(low@.take(k + 1).last() == low@[k as int]);
            let c = low[k];
            if !is_combining_diacritic(c) {
                lower.push(c);
                origin.push(i);
            }
            k += 1;
            assert(lower@ =~= before + unmarked(low@.take(k as int)));
        }
        assert(low@.take(low@.len() as int) =~= low@);
        i += 1;
        assert forall|j: int| 0 <= j < origin@.len() implies #[trigger] origin@[j] == sources(
            v@.take(i as int),
        )[j] by {}
    }
    assert(v@.take(i as int) =~= v@);
    (lower, origin)
}

/// Split text into spans, highlighting occurrences of `query`, which is in lower
/// case, whatever the case of the text.
pub fn highlight_spans(text: &str, query: &str, base_style: Style, match_style: Style) -> (r: Line)
    ensures
        style::spans_view(r@) == highlighted(text@, query@, base_style, match_style),
{
    let mut out: Line = style::blank();
    if query.is_empty() {
        style::push_str(&mut out, text, base_style);
        assert(style::spans_view(out@) =~= seq![style::spanned(text@, base_style)]);
        return out;
    }
    let v = text::chars_of(text);
    let q = text::chars_of(query);
    let (lower, origin) = fold(&v);
    let ghost s = text@;
    let ghost whole = marked_from(s, q@, base_style, match_style, 0, 0);
    let mut last: usize = 0;
    let mut from: usize = 0;
    let mut open = true;
    proof {
        lemma_sources(s);
    }
    assert(style::spans_view(out@) + whole =~= whole);
    while open
        invariant
            s == text@,
            v@ == s,
            q@ == query@,
            q@.len() > 0,
            lower@ == folded(s),
            origin@.len() == sources(s).len(),
            forall|i: int| 0 <= i < origin@.len() ==> #[trigger] origin@[i] == sources(s)[i],
            from <= lower@.len(),
            last <= v@.len(),
            last <= source(s, from as int),
            whole == marked_from(s, q@, base_style, match_style, 0, 0),
            open ==> style::spans_view(out@) + marked_from(
                s,
                q@,
                base_style,
                match_style,
                from as int,
                last as int,
            ) == whole,
            !open ==> style::spans_view(out@) == whole,
        decreases lower@.len() - from, if open { 1int } else { 0 },
    {
        let ghost before = style::spans_view(out@);
        proof {
            lemma_sources(s);
            text::lemma_find_from(lower@, q@, from as int);
        }
        match text::position(&lower, &q, from) {
            Some(p) => {
                assert(p + q@.len() <= lower.len());
                let next = p + q.len();
                let start = if p < origin.len() {
                    origin[p]
                } else {
                    v.len()
                };
                let end = if next < origin.len() {
                    origin[next]
                } else {
                    v.len()
                };
                proof {
                    assert(start == source(s, p as int));
                    assert(end == source(s, next as int));
                    source_grows(s, from as int, p as int);
                    source_grows(s, p as int, next as int);
                }
                if start > last {
                    style::push(&mut out, text::string_of(&v, last, start), base_style);
                }
                assert(style::spans_view(out@) =~= before + gap(
                    s,
                    last as int,
                    start as int,
                    base_style,
                ));
                style::push(&mut out, text::string_of(&v, start, end), match_style);
                assert(style::spans_view(out@) =~= before + (gap(
                    s,
                    last as int,
                    start as int,
                    base_style,
                ) + seq![style::spanned(s.subrange(start as int, end as int), match_style)]));
                last = end;
                from = next;
                if from >= lower.len() {
                    open = false;
                    let ghost so_far = style::spans_view(out@);
                    if last < v.len() {
                        style::push(&mut out, text::string_from(&v, last), base_style);
                    }
                    assert(style::spans_view(out@) =~= so_far + tail(s, last as int, base_style));
                    assert(style::spans_view(out@) =~= whole);
                } else {
                    assert(style::spans_view(out@) + marked_from(
                        s,
                        q@,
                        base_style,
                        match_style,
                        from as int,
                        last as int,
                    ) =~= whole);
                }
            },
            None => {
                open = false;
                if last < v.len() {
                    style::push(&mut out, text::string_from(&v, last), base_style);
                }
                assert(style::spans_view(out@) =~= before + tail(s, last as int, base_style));
            },
        }
    }
    if out.len() == 0 {
        style::push_str(&mut out, text, base_style);
        assert(style::spans_view(out@) =~= seq![style::spanned(text@, base_style)]);
    }
    out
}

/// Later characters of the folded text come from later characters.
proof fn source_grows(s: Seq<char>, i: int, j: int)
    requires
        0 <= i <= j,
    ensures
        0 <= source(s, i) <= source(s, j) <= s.len(),
{
    lemma_sources(s);
    if j < sources(s).len() {
        assert(sources(s)[i] <= sources(s)[j]);
    } else if i < sources(s).len() {
        assert(sources(s)[i] < s.len());
    }
}

proof fn text_of_parts(a: LineOfSpans, b: LineOfSpans)
    ensures
        style::text_of(a + b) == style::text_of(a) + style::text_of(b),
    decreases b.len(),
{
    if b.len() == 0 {
        assert(a + b =~= a);
        assert(style::text_of(a) + Seq::<char>::empty() =~= style::text_of(a));
    } else {
        text_of_parts(a, b.drop_last());
        assert((a + b).drop_last() =~= a + b.drop_last());
        assert(style::text_of(a + b) =~= style::text_of(a) + style::text_of(b));
    }
}

proof fn text_of_one(t: Seq<char>, st: Style)
    ensures
        style::text_of(seq![style::spanned(t, st)]) == t,
{
    reveal_with_fuel(style::text_of, 2);
    let one = seq![style::spanned(t, st)];
    assert(one.drop_last() =~= Seq::empty());
    assert(style::text_of(one) =~= t);
}

proof fn marked_text(
    s: Seq<char>,
    query: Seq<char>,
    base: Style,
    mark: Style,
    from: int,
    last: int,
)
    requires
        0 <= from <= folded(s).len(),
        query.len() > 0,
        0 <= last <= source(s, from),
    ensures
        style::text_of(marked_from(s, query, base, mark, from, last)) == s.skip(last),
    decreases folded(s).len() - from,
{
    lemma_sources(s);
    text::lemma_find_from(folded(s), query, from);
    source_grows(s, from, from);
    match text::find_from(folded(s), query, from) {
        Some(p) => {
            let next = p + query.len();
            let start = source(s, p);
            let end = source(s, next);
            source_grows(s, from, p);
            source_grows(s, p, next);
            let a = gap(s, last, start, base);
            let b = seq![style::spanned(s.subrange(start, end), mark)];
            let c = if next >= folded(s).len() {
                tail(s, end, base)
            } else {
                marked_from(s, query, base, mark, next, end)
            };
            if next >= folded(s).len() {
                tail_text(s, end, base);
            } else {
                marked_text(s, query, base, mark, next, end);
            }
            text_of_parts(a + b, c);
            text_of_parts(a, b);
            text_of_one(s.subrange(start, end), mark);
            if start > last {
                text_of_one(s.subrange(last, start), base);
            }
            assert(style::text_of(a) =~= s.subrange(last, start));
            assert(s.skip(last) =~= s.subrange(last, start) + s.subrange(start, end) + s.skip(end));
        },
        None => {
            tail_text(s, last, base);
        },
    }
}

proof fn tail_text(s: Seq<char>, last: int, base: Style)
    requires
        0 <= last <= s.len(),
    ensures
        style::text_of(tail(s, last, base)) == s.skip(last),
{
    if last < s.len() {
        text_of_one(s.skip(last), base);
    } else {
        assert(s.skip(last) =~= Seq::empty());
    }
}

/// Highlighting changes nothing of a text: the spans, one behind the other, are
/// the text.
pub proof fn highlighting_keeps_the_text(s: Seq<char>, query: Seq<char>, base: Style, mark: Style)
    ensures
        style::text_of(highlighted(s, query, base, mark)) == s,
{
    text_of_one(s, base);
    if query.len() > 0 {
        lemma_sources(s);
        source_grows(s, 0, 0);
        marked_text(s, query, base, mark, 0, 0);
        assert(s.skip(0) =~= s);
    }
}

/// Marks are dropped, and all else is kept in its order.
pub proof fn only_marks_are_dropped(a: Seq<char>, b: Seq<char>, c: char)
    ensures
        unmarked(a + b) == unmarked(a) + unmarked(b),
        0x300 <= c as int <= 0x36F ==> unmarked(seq![c]).len() == 0,
        !(0x300 <= c as int <= 0x36F) ==> unmarked(seq![c]) == seq![c],
    decreases b.len(),
{
    assert(seq![c].drop_last() =~= Seq::<char>::empty());
    assert(unmarked(Seq::empty()) == Seq::<char>::empty());
    if b.len() == 0 {
        assert(a + b =~= a);
        assert(unmarked(a) + unmarked(b) =~= unmarked(a));
    } else {
        only_marks_are_dropped(a, b.drop_last(), c);
        assert((a + b).drop_last() =~= a + b.drop_last());
        assert(unmarked(a + b) =~= unmarked(a) + unmarked(b));
    }
}

/// A text is folded character by character, to its lower-case form without marks.
pub proof fn folding_goes_by_characters(a: Seq<char>, b: Seq<char>, c: char)
    ensures
        folded(a + b) == folded(a) + folded(b),
        folded(seq![c]) == unmarked(char_lowercase(c)),
    decreases b.len(),
{
    assert(seq![c].drop_last() =~= Seq::<char>::empty());
    assert(folded(Seq::empty()) == Seq::<char>::empty());
    assert(folded(seq![c]) =~= unmarked(char_lowercase(c)));
    if b.len() == 0 {
        assert(a + b =~= a);
        assert(folded(a) + folded(b) =~= folded(a));
    } else {
        folding_goes_by_characters(a, b.drop_last(), c);
        assert((a + b).drop_last() =~= a + b.drop_last());
        assert(folded(a + b) =~= folded(a) + folded(b));
    }
}

/// What follows a text in its folded form comes from what follows it.
proof fn sources_join(a: Seq<char>, b: Seq<char>)
    ensures
        sources(a + b) == sources(a) + Seq::new(
            sources(b).len(),
            |i: int| a.len() as int + sources(b)[i],
        ),
    decreases b.len(),
{
    if b.len() == 0 {
        assert(a + b =~= a);
        assert(sources(a + b) =~= sources(a) + Seq::new(
            sources(b).len(),
            |i: int| a.len() as int + sources(b)[i],
        ));
    } else {
        sources_join(a, b.drop_last());
        assert((a + b).drop_last() =~= a + b.drop_last());
        assert(sources(a + b) =~= sources(a) + Seq::new(
            sources(b).len(),
            |i: int| a.len() as int + sources(b)[i],
        ));
    }
}

/// The place behind a text in its folded form is the place behind it, where what follows
/// does not vanish in folding.
proof fn source_behind(a: Seq<char>, b: Seq<char>)
    requires
        b.len() == 0 || unmarked(char_lowercase(b[0])).len() > 0,
    ensures
        source(a + b, folded(a).len() as int) == a.len(),
{
    lemma_sources(a);
    sources_join(a, b);
    if b.len() > 0 {
        let one = seq![b[0]];
        let rest = b.skip(1);
        assert(b =~= one + rest);
        sources_join(one, rest);
        assert(one.drop_last() =~= Seq::<char>::empty());
        assert(sources(Seq::empty()) == Seq::<int>::empty());
        assert(sources(one).len() == unmarked(char_lowercase(b[0])).len());
        assert(sources(b)[0] == 0);
        assert(sources(a + b)[sources(a).len() as int] == a.len());
    } else {
        assert(a + b =~= a);
    }
}

/// The first part of a text whose folded form is the query is marked, and what stands
/// before it is not.
pub proof fn first_match_is_marked(
    a: Seq<char>,
    m: Seq<char>,
    b: Seq<char>,
    query: Seq<char>,
    base: Style,
    mark: Style,
)
    requires
        m.len() > 0,
        query.len() > 0,
        folded(m) == query,
        unmarked(char_lowercase(m[0])).len() > 0,
        b.len() == 0 || unmarked(char_lowercase(b[0])).len() > 0,
        forall|i: int|
            0 <= i < folded(a).len() ==> !#[trigger] text::occurs_at(folded(a + m + b), query, i),
    ensures
        ({
            let spans = highlighted(a + m + b, query, base, mark);
            let k: int = if a.len() > 0 {
                1
            } else {
                0
            };
            &&& spans.len() > k
            &&& a.len() > 0 ==> spans[0] == style::spanned(a, base)
            &&& spans[k] == style::spanned(m, mark)
        }),
{
    let s = a + m + b;
    let at = folded(a).len() as int;
    folding_goes_by_characters(a + m, b, ' ');
    folding_goes_by_characters(a, m, ' ');
    assert(folded(s) == folded(a) + folded(m) + folded(b));
    assert(folded(s).subrange(at, at + query.len()) =~= query);
    assert(text::occurs_at(folded(s), query, at));
    text::lemma_find_from(folded(s), query, 0);
    assert(text::find_from(folded(s), query, 0) == Some(at));
    source_behind(a, m + b);
    assert(a + (m + b) =~= s);
    assert((m + b)[0] == m[0]);
    source_behind(a + m, b);
    assert(folded(a + m).len() == at + query.len());
    assert(s.subrange(0, a.len() as int) =~= a);
    assert(s.subrange(a.len() as int, (a.len() + m.len()) as int) =~= m);
}

/// A text that does not hold the query, whatever the case, is shown as it is.
pub proof fn other_texts_are_not_marked(s: Seq<char>, query: Seq<char>, base: Style, mark: Style)
    requires
        query.len() == 0 || forall|i: int|
            0 <= i < folded(s).len() ==> !#[trigger] text::occurs_at(folded(s), query, i),
    ensures
        highlighted(s, query, base, mark) == seq![style::spanned(s, base)],
{
    if query.len() > 0 {
        text::lemma_find_from(folded(s), query, 0);
        assert(text::find_from(folded(s), query, 0) is None);
        assert(s.skip(0) =~= s);
    }
}

} // verus!
