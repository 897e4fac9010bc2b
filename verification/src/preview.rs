//! The conversation pane: what it shows, how it scrolls, the search within it,
//! and which conversations are kept.

use crate::app;
use crate::app::{
    App, AppAction, CachedPreview, Focus, LineView, PreviewLine, PreviewResult, ViewMode,
};
use crate::conversation;
use crate::parser::Speaker;
use crate::search;
use crate::session::{SessionMeta, SessionView};
use crate::text;
use crate::wrap;
use vstd::prelude::*;

verus! {

/// `a + b`, as far as 16 bits reach.
pub open spec fn plus(a: int, b: int) -> int {
    if a + b > u16::MAX {
        u16::MAX as int
    } else {
        a + b
    }
}

/// `a - b`, not below zero.
pub open spec fn minus(a: int, b: int) -> int {
    if a > b {
        a - b
    } else {
        0
    }
}

/// A line as it is shown: who produced it, and the text.
pub open spec fn shown_line(line: LineView) -> Seq<char> {
    line.2.prefix_text() + line.0
}

/// How many rows the first `n` lines take at a width, with a blank row behind
/// each.
pub open spec fn rows_before(lines: Seq<LineView>, width: nat, n: int) -> int
    decreases n,
{
    if n <= 0 {
        0
    } else {
        plus(
            plus(rows_before(lines, width, n - 1), wrap::row_count(shown_line(lines[n - 1]), width)),
            1,
        )
    }
}

/// Whether a line in lower case holds a search in lower case.
pub open spec fn line_matches(line: LineView, query: Seq<char>) -> bool {
    text::contains(vstd::utf8::encode_utf8(line.1), vstd::utf8::encode_utf8(query))
}

/// The lines that match a search, in order.
pub open spec fn matching_lines(lines: Seq<LineView>, query: Seq<char>) -> Seq<usize>
    decreases lines.len(),
{
    if lines.len() == 0 {
        Seq::empty()
    } else if line_matches(lines.last(), query) {
        matching_lines(lines.drop_last(), query).push((lines.len() - 1) as usize)
    } else {
        matching_lines(lines.drop_last(), query)
    }
}

/// The first of the rows from `from` on that holds a search in lower case.
pub open spec fn first_row(rows: Seq<Seq<char>>, query: Seq<char>, from: int) -> Option<int>
    decreases rows.len() - from,
{
    if from < 0 || from >= rows.len() {
        None
    } else if text::contains(
        vstd::utf8::encode_utf8(text::lowercase(rows[from])),
        vstd::utf8::encode_utf8(query),
    ) {
        Some(from)
    } else {
        first_row(rows, query, from + 1)
    }
}

/// The row of a line at which a search is found, cut to 16 bits; 0 where it is
/// found in none.
pub open spec fn match_row(line: LineView, query: Seq<char>, width: nat) -> int {
    if query.len() == 0 || width == 0 {
        0
    } else {
        match first_row(wrap::wrapped(shown_line(line), width), query, 0) {
            Some(i) => i % 0x1_0000,
            None => 0,
        }
    }
}

impl<'a> App<'a> {
    /// The width that lines are wrapped to.
    pub open spec fn line_width(&self) -> nat {
        minus(self.preview_inner_width as int, 1) as nat
    }

    /// The lines of the conversation.
    pub open spec fn lines(&self) -> Seq<LineView> {
        app::line_views(self.preview_lines@)
    }

    /// Whether it is known at which row each line starts, and how many rows there
    /// are.
    pub open spec fn laid_out(&self) -> bool {
        &&& self.preview_line_offsets@ == Seq::new(
            self.preview_lines@.len(),
            |i: int| rows_before(self.lines(), self.line_width(), i) as u16,
        )
        &&& self.preview_total_rows == rows_before(
            self.lines(),
            self.line_width(),
            self.preview_lines@.len() as int,
        )
    }

    /// Whether nothing is sought within the conversation.
    pub open spec fn seeks_nothing(&self) -> bool {
        &&& self.preview_search_query@.text.len() == 0
        &&& self.preview_search_query@.cursor == 0
        &&& self.preview_search_matches@.len() == 0
        &&& self.preview_search_current == 0
    }

    /// The search within the conversation, in lower case.
    pub open spec fn sought(&self) -> Seq<char> {
        text::lowercase(self.preview_search_query@.text)
    }

    /// Where the conversation is scrolled to for the current match.
    pub open spec fn scroll_of_match(&self) -> int {
        let at = self.preview_search_current as int;
        if 0 <= at < self.preview_search_matches@.len() {
            let i = self.preview_search_matches@[at] as int;
            let base = if i < self.preview_line_offsets@.len() {
                self.preview_line_offsets@[i] as int
            } else {
                0
            };
            let row = if i < self.lines().len() {
                match_row(self.lines()[i], self.sought(), self.line_width())
            } else {
                0
            };
            minus(plus(base, row), 2)
        } else {
            self.preview_scroll as int
        }
    }

    /// Scrolls the conversation up by three rows.
    pub fn scroll_preview_up(&mut self)
        ensures
            *final(self) == (App {
                preview_scroll: minus(old(self).preview_scroll as int, 3) as u16,
                ..*old(self)
            }),
    {
        self.preview_scroll = self.preview_scroll.saturating_sub(3);
    }

    /// The farthest that scrolling down goes.
    pub fn max_preview_scroll(&self) -> (r: u16)
        ensures
            r == minus(self.preview_total_rows as int, self.preview_viewport_height as int),
    {
        self.preview_total_rows.saturating_sub(self.preview_viewport_height)
    }

    /// The row scrolled to by going down `n` rows.
    pub open spec fn scrolled_down(&self, n: int) -> int {
        let max = minus(self.preview_total_rows as int, self.preview_viewport_height as int);
        if self.preview_scroll + n < max {
            self.preview_scroll + n
        } else {
            max
        }
    }

    /// Scrolls the conversation down by three rows, not past its end.
    pub fn scroll_preview_down(&mut self)
        ensures
            *final(self) == (App {
                preview_scroll: old(self).scrolled_down(3) as u16,
                ..*old(self)
            }),
    {
        self.scroll_preview_page_down(3);
    }

    /// Scrolls the conversation up by a page.
    pub fn scroll_preview_page_up(&mut self, page_size: u16)
        ensures
            *final(self) == (App {
                preview_scroll: minus(old(self).preview_scroll as int, page_size as int) as u16,
                ..*old(self)
            }),
    {
        self.preview_scroll = self.preview_scroll.saturating_sub(page_size);
    }

    /// Scrolls the conversation down by a page, not past its end.
    pub fn scroll_preview_page_down(&mut self, page_size: u16)
        ensures
            *final(self) == (App {
                preview_scroll: old(self).scrolled_down(page_size as int) as u16,
                ..*old(self)
            }),
    {
        let max = self.max_preview_scroll();
        let to = self.preview_scroll.saturating_add(page_size);
        self.preview_scroll = if to < max {
            to
        } else {
            max
        };
    }

    /// Leaves the search within the conversation without anything sought.
    pub fn clear_preview_search(&mut self)
        ensures
            final(self).seeks_nothing(),
            *final(self) == (App {
                preview_search_query: final(self).preview_search_query,
                preview_search_matches: final(self).preview_search_matches,
                preview_search_current: 0,
                ..*old(self)
            }),
    {
        self.preview_search_query.clear();
        self.preview_search_matches = Vec::new();
        self.preview_search_current = 0;
    }

    /// Begins a search within the conversation.
    pub fn start_preview_search(&mut self)
        ensures
            final(self).seeks_nothing(),
            *final(self) == (App {
                focus: Focus::PreviewSearch,
                preview_search_query: final(self).preview_search_query,
                preview_search_matches: final(self).preview_search_matches,
                preview_search_current: 0,
                ..*old(self)
            }),
    {
        self.focus = Focus::PreviewSearch;
        self.clear_preview_search();
    }

    /// Gives the search within the conversation up.
    pub fn exit_preview_search(&mut self)
        ensures
            final(self).seeks_nothing(),
            *final(self) == (App {
                focus: Focus::Preview,
                preview_search_query: final(self).preview_search_query,
                preview_search_matches: final(self).preview_search_matches,
                preview_search_current: 0,
                ..*old(self)
            }),
    {
        self.focus = Focus::Preview;
        self.clear_preview_search();
    }

    /// Ends typing the search within the conversation, and keeps its matches.
    pub fn commit_preview_search(&mut self)
        ensures
            *final(self) == (App { focus: Focus::Preview, ..*old(self) }),
    {
        self.focus = Focus::Preview;
    }
}

/// A line as it is shown.
fn shown_line_of(line: &PreviewLine) -> (r: String)
    ensures
        r@ == shown_line((line.0@, line.1@, line.2)),
{
    let mut out = line.2.prefix().to_owned();
    out.append(line.0.as_str());
    out
}

/// The lines that match a search in lower case.
pub fn find_matches(lines: &Vec<PreviewLine>, query: &str) -> (r: Vec<usize>)
    ensures
        r@ == matching_lines(app::line_views(lines@), query@),
{
    let ghost all = app::line_views(lines@);
    let mut out: Vec<usize> = Vec::new();
    let mut i: usize = 0;
    while i < lines.len()
        invariant
            i <= lines@.len(),
            all == app::line_views(lines@),
            out@ == matching_lines(all.take(i as int), query@),
        decreases lines@.len() - i,
    {
        assert(all.take(i + 1).drop_last() =~= all.take(i as int));
        assert(all.take(i + 1).last() == all[i as int]);
        if search::holds_bytes(lines[i].1.as_str().as_bytes(), query.as_bytes()) {
            out.push(i);
        }
        i += 1;
    }
    assert(all.take(i as int) =~= all);
    out
}

/// The first row that holds a search in lower case, cut to 16 bits; 0 where
/// none does.
pub fn find_row(rows: &Vec<String>, query: &str) -> (r: u16)
    ensures
        r == match first_row(text::views(rows@), query@, 0) {
            Some(i) => i % 0x1_0000,
            None => 0,
        },
{
    let ghost all = text::views(rows@);
    let mut i: usize = 0;
    while i < rows.len()
        invariant
            i <= rows@.len(),
            all == text::views(rows@),
            first_row(all, query@, 0) == first_row(all, query@, i as int),
        decreases rows@.len() - i,
    {
        let lower = rows[i].as_str().to_lowercase();
        if search::holds_bytes(lower.as_str().as_bytes(), query.as_bytes()) {
            let n = i as u64;
            let cut = n as u16;
            assert(cut == n % 0x1_0000) by (bit_vector)
                requires
                    cut == n as u16,
            ;
            return cut;
        }
        i += 1;
    }
    0
}

/// Whether `after` is what a change of the search within the conversation makes
/// of `before`.
pub open spec fn sought_anew(before: App, after: App) -> bool {
    &&& after.preview_search_matches@ == if before.sought().len() == 0 {
        Seq::empty()
    } else {
        matching_lines(before.lines(), before.sought())
    }
    &&& after == App {
        preview_search_matches: after.preview_search_matches,
        preview_search_current: 0,
        preview_scroll: after.preview_scroll,
        ..before
    }
    &&& after.preview_scroll == if after.preview_search_matches@.len() == 0 {
        before.preview_scroll as int
    } else {
        after.scroll_of_match()
    }
}

/// Whether `after` is `before` gone to the next match, from the last to the
/// first.
pub open spec fn next_match(before: App, after: App) -> bool {
    let n = before.preview_search_matches@.len() as int;
    if n == 0 {
        after == before
    } else {
        &&& after == App {
            preview_search_current: ((before.preview_search_current + 1) % n) as usize,
            preview_scroll: after.preview_scroll,
            ..before
        }
        &&& after.preview_scroll == after.scroll_of_match()
    }
}

/// Whether `after` is `before` gone to the match before, from the first to the
/// last.
pub open spec fn prev_match(before: App, after: App) -> bool {
    let n = before.preview_search_matches@.len() as int;
    if n == 0 {
        after == before
    } else {
        &&& after == App {
            preview_search_current: if before.preview_search_current == 0 {
                (n - 1) as usize
            } else {
                (before.preview_search_current - 1) as usize
            },
            preview_scroll: after.preview_scroll,
            ..before
        }
        &&& after.preview_scroll == after.scroll_of_match()
    }
}

/// The next match and the one before undo each other, in whichever order.
pub proof fn next_and_prev_undo_each_other(a: App, b: App, c: App)
    requires
        a.preview_search_current < a.preview_search_matches@.len(),
        next_match(a, b) && prev_match(b, c) || prev_match(a, b) && next_match(b, c),
    ensures
        c.preview_search_current == a.preview_search_current,
{
    assert(a.preview_search_matches.len() <= usize::MAX);
    let n = a.preview_search_matches@.len() as int;
    let i = a.preview_search_current as int;
    if i + 1 < n {
        assert((i + 1) % n == i + 1) by (nonlinear_arith)
            requires
                0 <= i + 1 < n,
        ;
    } else {
        assert((i + 1) % n == 0) by (nonlinear_arith)
            requires
                i + 1 == n,
                n > 0,
        ;
    }
    assert(i % n == i) by (nonlinear_arith)
        requires
            0 <= i < n,
    ;
    assert(n % n == 0) by (nonlinear_arith)
        requires
            n > 0,
    ;
}

impl<'a> App<'a> {
    /// Finds the lines that match the search within the conversation, and goes
    /// to the first of them.
    pub fn update_preview_search(&mut self)
        ensures
            sought_anew(*old(self), *final(self)),
    {
        let query = self.preview_search_query.text().to_lowercase();
        self.preview_search_current = 0;
        if query.as_str().is_empty() {
            self.preview_search_matches = Vec::new();
            return ;
        }
        self.preview_search_matches = find_matches(&self.preview_lines, query.as_str());
        self.scroll_to_current_match();
    }

    /// Goes to the next match, from the last to the first.
    pub fn next_preview_match(&mut self)
        ensures
            next_match(*old(self), *final(self)),
    {
        let n = self.preview_search_matches.len();
        if n == 0 {
            return ;
        }
        let at = self.preview_search_current;
        self.preview_search_current = (at % n + 1) % n;
        proof {
            let a = at as int;
            let m = n as int;
            vstd::arithmetic::div_mod::lemma_add_mod_noop(a, 1, m);
            vstd::arithmetic::div_mod::lemma_mod_twice(a, m);
            vstd::arithmetic::div_mod::lemma_add_mod_noop(a % m, 1, m);
        }
        self.scroll_to_current_match();
    }

    /// Goes to the match before, from the first to the last.
    pub fn prev_preview_match(&mut self)
        ensures
            prev_match(*old(self), *final(self)),
    {
        let n = self.preview_search_matches.len();
        if n == 0 {
            return ;
        }
        if self.preview_search_current == 0 {
            self.preview_search_current = n - 1;
        } else {
            self.preview_search_current = self.preview_search_current - 1;
        }
        self.scroll_to_current_match();
    }

    /// Works out at which row each line of the conversation starts, and how many
    /// rows there are.
    pub fn recompute_preview_offsets(&mut self)
        ensures
            final(self).laid_out(),
            *final(self) == (App {
                preview_line_offsets: final(self).preview_line_offsets,
                preview_total_rows: final(self).preview_total_rows,
                ..*old(self)
            }),
    {
        let ghost lines = self.lines();
        let width = self.preview_inner_width.saturating_sub(1) as usize;
        let mut offsets: Vec<u16> = Vec::new();
        let mut cursor: u16 = 0;
        let mut i: usize = 0;
        while i < self.preview_lines.len()
            invariant
                i <= self.preview_lines@.len(),
                lines == app::line_views(self.preview_lines@),
                offsets@ == Seq::new(
                    i as nat,
                    |k: int| rows_before(lines, width as nat, k) as u16,
                ),
                cursor == rows_before(lines, width as nat, i as int),
            decreases self.preview_lines@.len() - i,
        {
            offsets.push(cursor);
            let full = shown_line_of(&self.preview_lines[i]);
            assert(full@ == shown_line(lines[i as int]));
            let rows = wrap::wrapped_line_count(full.as_str(), width);
            cursor = cursor.saturating_add(rows).saturating_add(1);
            i += 1;
            assert(offsets@ =~= Seq::new(
                i as nat,
                |k: int| rows_before(lines, width as nat, k) as u16,
            ));
        }
        self.preview_line_offsets = offsets;
        self.preview_total_rows = cursor;
        assert(self.lines() == lines);
    }

    /// Scrolls the conversation to the current match, if there is one.
    fn scroll_to_current_match(&mut self)
        ensures
            *final(self) == (App {
                preview_scroll: old(self).scroll_of_match() as u16,
                ..*old(self)
            }),
            final(self).preview_scroll == final(self).scroll_of_match(),
            final(self).preview_scroll == old(self).scroll_of_match(),
    {
        if self.preview_search_current >= self.preview_search_matches.len() {
            return ;
        }
        let i = self.preview_search_matches[self.preview_search_current];
        let base = if i < self.preview_line_offsets.len() {
            self.preview_line_offsets[i]
        } else {
            0
        };
        let row = self.intra_match_chunk_offset(i);
        self.preview_scroll = base.saturating_add(row).saturating_sub(2);
    }

    /// The row of a line at which the search is found.
    fn intra_match_chunk_offset(&self, i: usize) -> (r: u16)
        ensures
            r == if i < self.lines().len() {
                match_row(self.lines()[i as int], self.sought(), self.line_width())
            } else {
                0
            },
    {
        if i >= self.preview_lines.len() {
            return 0;
        }
        let query = self.preview_search_query.text().to_lowercase();
        let width = self.preview_inner_width.saturating_sub(1) as usize;
        if query.as_str().is_empty() || width == 0 {
            return 0;
        }
        let full = shown_line_of(&self.preview_lines[i]);
        let rows = wrap::wrap_for_offsets(full.as_str(), width);
        find_row(&rows, query.as_str())
    }
}

/// A conversation that is kept: whose it is, and its lines.
pub type KeptView = (Seq<char>, Seq<LineView>);

/// The conversations kept, over texts.
pub open spec fn kept(cache: Seq<CachedPreview>) -> Seq<KeptView> {
    Seq::new(cache.len(), |i: int| (cache[i].session_id@, app::line_views(cache[i].lines@)))
}

/// Where the conversation of a session is kept, if it is.
pub open spec fn kept_at(cache: Seq<KeptView>, id: Seq<char>) -> Option<int>
    decreases cache.len(),
{
    if cache.len() == 0 {
        None
    } else if cache.last().0 == id {
        Some(cache.len() - 1)
    } else {
        kept_at(cache.drop_last(), id)
    }
}

/// The conversation kept of a session, if one is.
pub open spec fn kept_lines(cache: Seq<KeptView>, id: Seq<char>) -> Option<Seq<LineView>> {
    match kept_at(cache, id) {
        Some(i) => Some(cache[i].1),
        None => None,
    }
}

/// The conversations kept once another is: it takes the place of the one of the
/// same session, or else stands behind the others, of which the oldest goes if
/// there are too many.
pub open spec fn kept_with(cache: Seq<KeptView>, id: Seq<char>, lines: Seq<LineView>) -> Seq<
    KeptView,
> {
    match kept_at(cache, id) {
        Some(i) => cache.update(i, (id, lines)),
        None => if cache.len() >= app::PREVIEW_CACHE_SIZE {
            cache.skip(1).push((id, lines))
        } else {
            cache.push((id, lines))
        },
    }
}

proof fn lemma_kept_at(cache: Seq<KeptView>, id: Seq<char>)
    ensures
        match kept_at(cache, id) {
            Some(i) => 0 <= i < cache.len() && cache[i].0 == id,
            None => forall|i: int| 0 <= i < cache.len() ==> (#[trigger] cache[i]).0 != id,
        },
    decreases cache.len(),
{
    if cache.len() > 0 && cache.last().0 != id {
        lemma_kept_at(cache.drop_last(), id);
        if kept_at(cache.drop_last(), id) is None {
            assert forall|i: int| 0 <= i < cache.len() implies (#[trigger] cache[i]).0 != id by {
                if i < cache.len() - 1 {
                    assert(cache.drop_last()[i] == cache[i]);
                }
            }
        }
    }
}

/// The only conversation kept of a session is the one found.
proof fn lemma_kept_at_is(cache: Seq<KeptView>, i: int)
    requires
        0 <= i < cache.len(),
        forall|a: int, b: int|
            0 <= a < b < cache.len() ==> (#[trigger] cache[a]).0 != (#[trigger] cache[b]).0,
    ensures
        kept_at(cache, cache[i].0) == Some(i),
{
    lemma_kept_at(cache, cache[i].0);
    let j = kept_at(cache, cache[i].0)->0;
    assert(cache[i].0 == cache[i].0);
    if j < i {
        assert(cache[j].0 != cache[i].0);
    } else if i < j {
        assert(cache[i].0 != cache[j].0);
    }
}

/// What is kept of a conversation is what is found of it afterwards.
pub proof fn kept_is_found(cache: Seq<KeptView>, id: Seq<char>, lines: Seq<LineView>)
    ensures
        kept_lines(kept_with(cache, id, lines), id) == Some(lines),
{
    lemma_kept_at(cache, id);
    let new = kept_with(cache, id, lines);
    lemma_kept_at(new, id);
    match kept_at(cache, id) {
        Some(i) => {
            latest_stays(cache, id, lines);
        },
        None => {},
    }
}

/// Putting a conversation in the place of the one found leaves it found there.
proof fn latest_stays(cache: Seq<KeptView>, id: Seq<char>, lines: Seq<LineView>)
    requires
        kept_at(cache, id) is Some,
    ensures
        kept_at(cache.update(kept_at(cache, id)->0, (id, lines)), id) == kept_at(cache, id),
    decreases cache.len(),
{
    lemma_kept_at(cache, id);
    let i = kept_at(cache, id)->0;
    let new = cache.update(i, (id, lines));
    if cache.last().0 != id {
        latest_stays(cache.drop_last(), id, lines);
        lemma_kept_at(cache.drop_last(), id);
        assert(new.drop_last() =~= cache.drop_last().update(i, (id, lines)));
    }
}

/// No more conversations are kept than fit, and only the oldest ever goes: all
/// others are found as before.
pub proof fn only_the_oldest_goes(
    cache: Seq<KeptView>,
    id: Seq<char>,
    lines: Seq<LineView>,
    k: int,
)
    requires
        cache.len() <= app::PREVIEW_CACHE_SIZE,
        forall|a: int, b: int|
            0 <= a < b < cache.len() ==> (#[trigger] cache[a]).0 != (#[trigger] cache[b]).0,
        0 <= k < cache.len(),
        cache[k].0 != id,
        k > 0 || cache.len() < app::PREVIEW_CACHE_SIZE || kept_at(cache, id) is Some,
    ensures
        kept_with(cache, id, lines).len() <= app::PREVIEW_CACHE_SIZE,
        kept_lines(kept_with(cache, id, lines), cache[k].0) == Some(cache[k].1),
{
    lemma_kept_at(cache, id);
    let new = kept_with(cache, id, lines);
    kept_stay_distinct(cache, id, lines);
    let at = if kept_at(cache, id) is None && cache.len() >= app::PREVIEW_CACHE_SIZE {
        k - 1
    } else {
        k
    };
    assert(new[at] == cache[k]);
    lemma_kept_at_is(new, at);
}

/// Keeping another conversation keeps no session's twice.
proof fn kept_stay_distinct(cache: Seq<KeptView>, id: Seq<char>, lines: Seq<LineView>)
    requires
        forall|a: int, b: int|
            0 <= a < b < cache.len() ==> (#[trigger] cache[a]).0 != (#[trigger] cache[b]).0,
    ensures
        forall|a: int, b: int|
            0 <= a < b < kept_with(cache, id, lines).len() ==> (#[trigger] kept_with(
                cache,
                id,
                lines,
            )[a]).0 != (#[trigger] kept_with(cache, id, lines)[b]).0,
{
    lemma_kept_at(cache, id);
    let new = kept_with(cache, id, lines);
    let shift = if kept_at(cache, id) is None && cache.len() >= app::PREVIEW_CACHE_SIZE {
        1int
    } else {
        0
    };
    assert forall|a: int, b: int| 0 <= a < b < new.len() implies (#[trigger] new[a]).0 != (
    #[trigger] new[b]).0 by {
        assert(new[a].0 == cache[a + shift].0);
        if b + shift < cache.len() {
            assert(new[b].0 == cache[b + shift].0);
        }
    }
}

/// The same lines again.
fn copied_lines(lines: &Vec<PreviewLine>) -> (r: Vec<PreviewLine>)
    ensures
        app::line_views(r@) == app::line_views(lines@),
{
    let mut out: Vec<PreviewLine> = Vec::new();
    let mut i: usize = 0;
    while i < lines.len()
        invariant
            i <= lines@.len(),
            app::line_views(out@) == app::line_views(lines@).take(i as int),
        decreases lines@.len() - i,
    {
        let ghost before = app::line_views(out@);
        let ghost v = app::line_views(lines@)[i as int];
        let line = &lines[i];
        out.push((line.0.clone(), line.1.clone(), line.2));
        assert(app::line_views(out@) =~= before.push(v));
        assert(app::line_views(lines@).take(i + 1) =~= app::line_views(lines@).take(
            i as int,
        ).push(v));
        i += 1;
    }
    assert(app::line_views(lines@).take(i as int) =~= app::line_views(lines@));
    out
}

/// Where the conversation of a session is kept, if it is.
fn cache_position(cache: &Vec<CachedPreview>, id: &str) -> (r: Option<usize>)
    ensures
        match r {
            Some(i) => kept_at(kept(cache@), id@) == Some(i as int) && i < cache@.len(),
            None => kept_at(kept(cache@), id@) is None,
        },
{
    let ghost all = kept(cache@);
    let mut i: usize = cache.len();
    assert(all.take(all.len() as int) =~= all);
    while i > 0
        invariant
            i <= cache@.len(),
            all == kept(cache@),
            kept_at(all, id@) == kept_at(all.take(i as int), id@),
        decreases i,
    {
        assert(all.take(i as int).drop_last() =~= all.take(i - 1));
        assert(all.take(i as int).last() == all[i - 1]);
        if text::text_eq(cache[i - 1].session_id.as_str(), id) {
            return Some(i - 1);
        }
        i -= 1;
    }
    None
}

impl<'a> App<'a> {
    /// Keeps a conversation for the next time.
    #[verifier::rlimit(60)]
    pub fn cache_preview(&mut self, session_id: String, lines: Vec<PreviewLine>)
        requires
            old(self).wf(),
        ensures
            final(self).wf(),
            kept(final(self).preview_cache@) == kept_with(
                kept(old(self).preview_cache@),
                session_id@,
                app::line_views(lines@),
            ),
            *final(self) == (App { preview_cache: final(self).preview_cache, ..*old(self) }),
    {
        let ghost before = kept(self.preview_cache@);
        let ghost id = session_id@;
        let ghost added = app::line_views(lines@);
        proof {
            assert forall|a: int, b: int| 0 <= a < b < before.len() implies (
            #[trigger] before[a]).0 != (#[trigger] before[b]).0 by {
                assert(self.preview_cache@[a].session_id@ != self.preview_cache@[b].session_id@);
            }
            kept_stay_distinct(before, id, added);
            lemma_kept_at(before, id);
        }
        let entry = CachedPreview { session_id, lines };
        match cache_position(&self.preview_cache, entry.session_id.as_str()) {
            Some(i) => {
                self.preview_cache.set(i, entry);
                assert(kept(self.preview_cache@) =~= before.update(i as int, (id, added)));
            },
            None => {
                if self.preview_cache.len() >= app::PREVIEW_CACHE_SIZE {
                    self.preview_cache.remove(0);
                    assert(kept(self.preview_cache@) =~= before.skip(1));
                }
                let ghost rest = kept(self.preview_cache@);
                self.preview_cache.push(entry);
                assert(kept(self.preview_cache@) =~= rest.push((id, added)));
            },
        }
        proof {
            let new = kept(self.preview_cache@);
            assert forall|a: int, b: int| 0 <= a < b < self.preview_cache@.len() implies (
            #[trigger] self.preview_cache@[a]).session_id@ != (
            #[trigger] self.preview_cache@[b]).session_id@ by {
                assert(new[a].0 != new[b].0);
            }
        }
    }
}

/// A conversation to be loaded.
pub struct PreviewRequest {
    pub session_id: String,
    pub file_path: String,
    pub include_tools: bool,
}

/// A conversation as lines to show: each text with its lower-case form.
pub open spec fn preview_lines_of(messages: Seq<(Speaker, String)>) -> Seq<LineView> {
    Seq::new(
        messages.len(),
        |i: int| (messages[i].1@, text::lowercase(messages[i].1@), messages[i].0),
    )
}

/// What a conversation that was read yields for the pane. The messages of people are
/// counted in 32 bits.
pub fn load_preview(
    session_id: String,
    messages: Vec<(Speaker, String)>,
    include_tools: bool,
) -> (r: PreviewResult)
    ensures
        r.session_id == session_id,
        r.include_tools == include_tools,
        app::line_views(r.lines@) == preview_lines_of(messages@),
        r.message_count == conversation::spoken_lines(conversation::said(messages@)) % 0x1_0000_0000,
{
    let ghost all = messages@;
    let ghost told = conversation::said(all);
    let ghost shown = preview_lines_of(all);
    let mut lines: Vec<PreviewLine> = Vec::new();
    let mut count: u64 = 0;
    for message in it: messages.into_iter()
        invariant
            it.seq() == all,
            told == conversation::said(all),
            shown == preview_lines_of(all),
            lines@.len() == it.index(),
            app::line_views(lines@) == shown.take(it.index() as int),
            count == conversation::spoken_lines(told.take(it.index() as int)),
            count <= lines@.len(),
    {
        let ghost i = it.index() as int;
        let ghost before = app::line_views(lines@);
        assert(message == all[i]);
        assert(told.take(i + 1).drop_last() =~= told.take(i));
        assert(told.take(i + 1).last() == told[i]);
        let spoken = message.0 == Speaker::User;
        let lower = message.1.as_str().to_lowercase();
        lines.push((message.1, lower, message.0));
        assert(app::line_views(lines@) =~= before.push(shown[i]));
        assert(shown.take(i + 1) =~= shown.take(i).push(shown[i]));
        assert(lines.len() <= usize::MAX);
        if spoken {
            count = count + 1;
        }
    }
    assert(told.take(all.len() as int) =~= told);
    assert(shown.take(all.len() as int) =~= shown);
    let message_count = count as u32;
    assert(message_count == count % 0x1_0000_0000) by (bit_vector)
        requires
            message_count == count as u32,
    ;
    PreviewResult { session_id, lines, message_count, include_tools }
}

impl<'a> App<'a> {
    /// Whether the conversation of a session is shown already.
    pub open spec fn shows_conversation_of(&self, s: SessionView) -> bool {
        self.preview_session_id@ == s.id && self.preview_lines@.len() > 0
    }
}

/// Whether `after` and `r` are what a request for the conversation of the
/// selected session makes of `before`: it is shown if it is at hand, and asked
/// for if not.
pub open spec fn requested(before: App, after: App, r: Option<PreviewRequest>) -> bool {
    &&& after.wf()
    &&& match before.selection() {
        None => {
            &&& r is None
            &&& after.preview_lines@.len() == 0
            &&& after == (App {
                preview_lines: after.preview_lines,
                preview_loading: false,
                ..before
            })
        },
        Some(s) => if before.shows_conversation_of(s@) {
            r is None && after == before
        } else {
            &&& after.seeks_nothing()
            &&& after.preview_session_id@ == s.id@
            &&& after == (App {
                preview_lines: after.preview_lines,
                preview_line_offsets: after.preview_line_offsets,
                preview_total_rows: after.preview_total_rows,
                preview_session_id: after.preview_session_id,
                preview_loading: after.preview_loading,
                preview_search_query: after.preview_search_query,
                preview_search_matches: after.preview_search_matches,
                preview_search_current: 0,
                ..before
            })
            &&& match kept_lines(kept(before.preview_cache@), s.id@) {
                Some(lines) => {
                    &&& r is None
                    &&& after.lines() == lines
                    &&& after.laid_out()
                    &&& !after.preview_loading
                },
                None => {
                    &&& r is Some
                    &&& r->0.session_id@ == s.id@
                    &&& r->0.file_path@ == s.file_path@
                    &&& r->0.include_tools == before.show_tools
                    &&& after.preview_lines@.len() == 0
                    &&& after.preview_line_offsets == before.preview_line_offsets
                    &&& after.preview_total_rows == before.preview_total_rows
                    &&& after.preview_loading
                },
            }
        },
    }
}

/// Request a preview for the currently selected session: shows its conversation
/// if it is at hand, and asks for it to be loaded if not.
#[verifier::rlimit(60)]
pub fn request_preview(app: &mut App) -> (r: Option<PreviewRequest>)
    requires
        old(app).wf(),
    ensures
        requested(*old(app), *final(app), r),
{
    let (session_id, file_path) = match app.selected_session() {
        Some(s) => (s.id.clone(), s.file_path.clone()),
        None => {
            app.preview_lines = Vec::new();
            app.preview_loading = false;
            return None;
        },
    };
    if text::text_eq(app.preview_session_id.as_str(), session_id.as_str())
        && app.preview_lines.len() > 0 {
        return None;
    }
    app.clear_preview_search();
    match cache_position(&app.preview_cache, session_id.as_str()) {
        Some(i) => {
            let lines = copied_lines(&app.preview_cache[i].lines);
            app.preview_lines = lines;
            app.recompute_preview_offsets();
            app.preview_session_id = session_id;
            app.preview_loading = false;
            None
        },
        None => {
            app.preview_loading = true;
            app.preview_session_id = session_id.clone();
            app.preview_lines = Vec::new();
            Some(PreviewRequest { session_id, file_path, include_tools: app.show_tools })
        },
    }
}

/// The first session with an id, if there is one.
pub open spec fn first_with_id(sessions: Seq<SessionMeta>, id: Seq<char>, from: int) -> Option<int>
    decreases sessions.len() - from,
{
    if from < 0 || from >= sessions.len() {
        None
    } else if sessions[from].id@ == id {
        Some(from)
    } else {
        first_with_id(sessions, id, from + 1)
    }
}

/// The sessions with the number of messages of the first that has an id set
/// anew.
pub open spec fn recounted(sessions: Seq<SessionMeta>, id: Seq<char>, n: u32) -> Seq<SessionMeta> {
    match first_with_id(sessions, id, 0) {
        Some(i) => sessions.update(i, SessionMeta { message_count: n, ..sessions[i] }),
        None => sessions,
    }
}

proof fn lemma_first_with_id(sessions: Seq<SessionMeta>, id: Seq<char>, from: int)
    ensures
        first_with_id(sessions, id, from) matches Some(i) ==> from <= i < sessions.len()
            && sessions[i].id@ == id && 0 <= i,
    decreases sessions.len() - from,
{
    if 0 <= from < sessions.len() && sessions[from].id@ != id {
        lemma_first_with_id(sessions, id, from + 1);
    }
}

/// Takes in a conversation that was loaded: keeps it, shows it if it is the one
/// waited for, and corrects the number of messages of its session. One that was
/// read under another setting of tool activity is dropped.
#[verifier::rlimit(60)]
pub fn check_preview_updates(app: &mut App, result: PreviewResult)
    requires
        old(app).wf(),
    ensures
        final(app).wf(),
        result.include_tools != old(app).show_tools ==> *final(app) == *old(app),
        result.include_tools == old(app).show_tools ==> {
            &&& kept(final(app).preview_cache@) == kept_with(
                kept(old(app).preview_cache@),
                result.session_id@,
                app::line_views(result.lines@),
            )
            &&& final(app).sessions@ == recounted(
                old(app).sessions@,
                result.session_id@,
                result.message_count,
            )
            &&& if old(app).preview_session_id@ == result.session_id@ {
                &&& final(app).lines() == app::line_views(result.lines@)
                &&& final(app).laid_out()
                &&& *final(app) == (App {
                    preview_cache: final(app).preview_cache,
                    sessions: final(app).sessions,
                    preview_lines: final(app).preview_lines,
                    preview_line_offsets: final(app).preview_line_offsets,
                    preview_total_rows: final(app).preview_total_rows,
                    preview_loading: false,
                    ..*old(app)
                })
            } else {
                *final(app) == (App {
                    preview_cache: final(app).preview_cache,
                    sessions: final(app).sessions,
                    ..*old(app)
                })
            }
        },
{
    if result.include_tools != app.show_tools {
        return ;
    }
    let ghost id = result.session_id@;
    let n = result.message_count;
    let lines = copied_lines(&result.lines);
    app.cache_preview(result.session_id.clone(), lines);
    if text::text_eq(app.preview_session_id.as_str(), result.session_id.as_str()) {
        app.preview_lines = result.lines;
        app.recompute_preview_offsets();
        app.preview_loading = false;
    }
    let ghost before = *app;
    let mut i: usize = 0;
    while i < app.sessions.len()
        invariant_except_break
            *app == before,
            first_with_id(before.sessions@, id, 0) == first_with_id(
                before.sessions@,
                id,
                i as int,
            ),
        invariant
            i <= before.sessions@.len(),
            id == result.session_id@,
            n == result.message_count,
        ensures
            app.sessions@ == recounted(before.sessions@, id, n),
            *app == (App { sessions: app.sessions, ..before }),
        decreases before.sessions@.len() - i,
    {
        if text::text_eq(app.sessions[i].id.as_str(), result.session_id.as_str()) {
            app.sessions[i].message_count = n;
            break;
        }
        i += 1;
    }
    proof {
        lemma_first_with_id(before.sessions@, id, 0);
    }
}

/// Whether `after` is what Esc makes of `before`.
pub open spec fn escaped(before: App, after: App) -> bool {
    &&& after.wf()
    &&& match before.focus {
        Focus::PreviewSearch => {
            &&& after.seeks_nothing()
            &&& after == (App {
                focus: Focus::Preview,
                preview_search_query: after.preview_search_query,
                preview_search_matches: after.preview_search_matches,
                preview_search_current: 0,
                ..before
            })
        },
        Focus::Search => if before.searching() {
            &&& after.search_query@.text.len() == 0
            &&& after.search_query@.cursor == 0
            &&& after.is_listing(after.filtered_indices@)
            &&& after == (App {
                search_query: after.search_query,
                filtered_indices: after.filtered_indices,
                selected: 0,
                preview_scroll: 0,
                ..before
            })
        } else {
            after == (App { focus: Focus::List, ..before })
        },
        Focus::Preview => if before.preview_search_query@.text.len() > 0 {
            &&& after.seeks_nothing()
            &&& after == (App {
                preview_search_query: after.preview_search_query,
                preview_search_matches: after.preview_search_matches,
                preview_search_current: 0,
                ..before
            })
        } else {
            after == (App { focus: Focus::List, ..before })
        },
        Focus::List => if before.view_mode == ViewMode::Timeline {
            after == (App { view_mode: ViewMode::Normal, ..before })
        } else {
            after == (App { action: AppAction::Quit, ..before })
        },
    }
}

/// Whether `after` is `before` with tool activity shown, or no longer so, and all
/// conversations forgotten.
pub open spec fn tools_toggled(before: App, after: App) -> bool {
    &&& after.wf()
    &&& after.preview_session_id@.len() == 0
    &&& after.preview_lines@.len() == 0
    &&& after.preview_cache@.len() == 0
    &&& after == App {
        show_tools: !before.show_tools,
        preview_session_id: after.preview_session_id,
        preview_lines: after.preview_lines,
        preview_cache: after.preview_cache,
        ..before
    }
}

impl<'a> App<'a> {
    /// Shows tool activity in conversations, or stops doing so. All that was read
    /// under the other setting is forgotten.
    pub fn toggle_tools(&mut self)
        requires
            old(self).wf(),
        ensures
            tools_toggled(*old(self), *final(self)),
    {
        self.show_tools = !self.show_tools;
        self.preview_session_id = String::new();
        self.preview_lines = Vec::new();
        self.preview_cache = Vec::new();
    }

    /// What Esc does: it leaves, in turn, the search within the conversation, a
    /// search, the conversation, the timeline, and at last the browser.
    #[verifier::rlimit(60)]
    pub fn handle_esc(&mut self)
        requires
            old(self).wf(),
        ensures
            escaped(*old(self), *final(self)),
    {
        match self.focus {
            Focus::PreviewSearch => self.exit_preview_search(),
            Focus::Search => {
                if self.search_query.is_empty() {
                    self.focus = Focus::List;
                } else {
                    self.search_query.clear();
                    self.apply_search();
                }
            },
            Focus::Preview => {
                if self.preview_search_query.is_empty() {
                    self.focus = Focus::List;
                } else {
                    self.clear_preview_search();
                }
            },
            Focus::List => {
                if self.view_mode == ViewMode::Timeline {
                    self.view_mode = ViewMode::Normal;
                } else {
                    self.action = AppAction::Quit;
                }
            },
        }
    }
}

/// A search within the conversation finds the lines that hold it, and no others, from
/// the first to the last.
pub proof fn matches_are_the_lines_that_hold_it(
    lines: Seq<LineView>,
    query: Seq<char>,
    i: usize,
    a: int,
    b: int,
)
    requires
        lines.len() <= usize::MAX,
    ensures
        matching_lines(lines, query).contains(i) <==> i < lines.len() && text::contains(
            vstd::utf8::encode_utf8(lines[i as int].1),
            vstd::utf8::encode_utf8(query),
        ),
        0 <= a < b < matching_lines(lines, query).len() ==> matching_lines(lines, query)[a]
            < matching_lines(lines, query)[b],
        0 <= b < matching_lines(lines, query).len() ==> matching_lines(lines, query)[b]
            < lines.len(),
    decreases lines.len(),
{
    if lines.len() > 0 {
        let front = lines.drop_last();
        let found = matching_lines(front, query);
        let all = matching_lines(lines, query);
        matches_are_the_lines_that_hold_it(front, query, i, a, b);
        let last = (lines.len() - 1) as usize;
        if line_matches(lines.last(), query) {
            assert(all == found.push(last));
            assert(all[all.len() - 1] == last);
            if i < last {
                assert(front[i as int] == lines[i as int]);
                if found.contains(i) {
                    let k = choose|k: int| 0 <= k < found.len() && found[k] == i;
                    assert(all[k] == i);
                }
                if all.contains(i) {
                    let k = choose|k: int| 0 <= k < all.len() && all[k] == i;
                    assert(found[k] == i);
                }
            } else if i > last {
                if all.contains(i) {
                    let k = choose|k: int| 0 <= k < all.len() && all[k] == i;
                    assert(found[k] == i);
                }
            } else {
                assert(all.contains(i));
            }
            if 0 <= a < b < all.len() {
                matches_are_the_lines_that_hold_it(front, query, i, a, a);
            }
        } else if i < last {
            assert(front[i as int] == lines[i as int]);
        } else if i == last {
            assert(lines[i as int] == lines.last());
        }
    }
}

/// A line that holds a text anywhere is found by a search for it.
pub proof fn any_part_of_a_line_is_found(
    lines: Seq<LineView>,
    i: usize,
    a: Seq<char>,
    query: Seq<char>,
    b: Seq<char>,
)
    requires
        lines.len() <= usize::MAX,
        i < lines.len(),
        lines[i as int].1 == a + query + b,
    ensures
        matching_lines(lines, query).contains(i),
{
    search::encoding_joins(a + query, b);
    search::encoding_joins(a, query);
    text::infix_is_found(
        vstd::utf8::encode_utf8(a),
        vstd::utf8::encode_utf8(query),
        vstd::utf8::encode_utf8(b),
    );
    matches_are_the_lines_that_hold_it(lines, query, i, 0, 0);
}

/// The row of a match is the first that holds the search.
pub proof fn first_row_is_the_first(rows: Seq<Seq<char>>, query: Seq<char>, from: int, k: int)
    requires
        0 <= from <= rows.len(),
    ensures
        match first_row(rows, query, from) {
            Some(i) => {
                &&& from <= i < rows.len()
                &&& text::contains(
                    vstd::utf8::encode_utf8(text::lowercase(rows[i])),
                    vstd::utf8::encode_utf8(query),
                )
                &&& from <= k < i ==> !text::contains(
                    vstd::utf8::encode_utf8(text::lowercase(rows[k])),
                    vstd::utf8::encode_utf8(query),
                )
            },
            None => from <= k < rows.len() ==> !text::contains(
                vstd::utf8::encode_utf8(text::lowercase(rows[k])),
                vstd::utf8::encode_utf8(query),
            ),
        },
    decreases rows.len() - from,
{
    if from < rows.len() {
        first_row_is_the_first(rows, query, from + 1, k);
    }
}

/// Each line starts one blank row below the end of the line before it, as far as 16
/// bits reach.
pub proof fn lines_start_below_each_other(lines: Seq<LineView>, width: nat, i: int)
    requires
        0 <= i < lines.len(),
    ensures
        rows_before(lines, width, 0) == 0,
        ({
            let start = rows_before(lines, width, i);
            let rows = wrap::wrapped(lines[i].2.prefix_text() + lines[i].0, width).len() as int;
            let next = rows_before(lines, width, i + 1);
            &&& rows > 0 && start + rows + 1 <= u16::MAX ==> next == start + rows + 1
            &&& rows == 0 && start + 2 <= u16::MAX ==> next == start + 2
            &&& start + rows + 1 > u16::MAX ==> next == u16::MAX
        }),
{
    rows_fit(lines, width, i);
}

/// No row is counted past 16 bits.
proof fn rows_fit(lines: Seq<LineView>, width: nat, n: int)
    ensures
        0 <= rows_before(lines, width, n) <= u16::MAX,
    decreases n,
{
    if n > 0 {
        rows_fit(lines, width, n - 1);
    }
}

/// The conversation is scrolled to two rows above the row of the current match.
pub proof fn matches_are_scrolled_to(app: App, i: int)
    requires
        app.preview_search_current < app.preview_search_matches@.len(),
        i == app.preview_search_matches@[app.preview_search_current as int],
        i < app.preview_line_offsets@.len(),
        i < app.preview_lines@.len(),
    ensures
        ({
            let row = app.preview_line_offsets@[i] + match_row(
                app.lines()[i],
                text::lowercase(app.preview_search_query@.text),
                app.line_width(),
            );
            &&& 2 <= row <= u16::MAX ==> app.scroll_of_match() == row - 2
            &&& row < 2 ==> app.scroll_of_match() == 0
        }),
{
}

/// Scrolling down goes as far as was asked, but leaves the last rows in sight.
pub proof fn scrolling_stays_within(app: App, n: int)
    requires
        n >= 0,
    ensures
        ({
            let rows = app.preview_total_rows as int;
            let shown = app.preview_viewport_height as int;
            let to = app.preview_scroll + n;
            &&& rows >= shown && to <= rows - shown ==> app.scrolled_down(n) == to
            &&& rows >= shown && to > rows - shown ==> app.scrolled_down(n) == rows - shown
            &&& rows < shown ==> app.scrolled_down(n) == 0
        }),
{
}

/// Steps from match to match go one on or one back, and round at the ends.
pub proof fn matches_follow_each_other(before: App, after: App)
    requires
        before.preview_search_current < before.preview_search_matches@.len(),
    ensures
        ({
            let n = before.preview_search_matches@.len() as int;
            let at = before.preview_search_current as int;
            &&& next_match(before, after) && at + 1 < n ==> after.preview_search_current == at + 1
            &&& next_match(before, after) && at + 1 == n ==> after.preview_search_current == 0
            &&& prev_match(before, after) && at > 0 ==> after.preview_search_current == at - 1
            &&& prev_match(before, after) && at == 0 ==> after.preview_search_current == n - 1
        }),
{
    assert(before.preview_search_matches.len() <= usize::MAX);
    let n = before.preview_search_matches@.len() as int;
    let at = before.preview_search_current as int;
    if at + 1 < n {
        vstd::arithmetic::div_mod::lemma_small_mod((at + 1) as nat, n as nat);
    } else {
        vstd::arithmetic::div_mod::lemma_mod_self_0(n);
    }
}

/// Ten conversations are kept; where another comes, the one kept longest goes. One of
/// a session that has one kept already takes its place.
pub proof fn ten_conversations_are_kept(
    cache: Seq<KeptView>,
    id: Seq<char>,
    lines: Seq<LineView>,
)
    ensures
        ({
            let new = kept_with(cache, id, lines);
            let known = exists|i: int| 0 <= i < cache.len() && (#[trigger] cache[i]).0 == id;
            &&& known ==> new.len() == cache.len()
            &&& !known && cache.len() < 10 ==> new == cache.push((id, lines))
            &&& !known && cache.len() == 10 ==> new == cache.skip(1).push((id, lines))
        }),
{
    lemma_kept_at(cache, id);
}

/// A conversation is shown message by message, each with its whole text and by whom it
/// was produced.
pub proof fn conversations_are_shown_in_full(messages: Seq<(Speaker, String)>, i: int)
    requires
        0 <= i < messages.len(),
    ensures
        preview_lines_of(messages).len() == messages.len(),
        preview_lines_of(messages)[i].0 == messages[i].1@,
        preview_lines_of(messages)[i].1 == text::lowercase(messages[i].1@),
        preview_lines_of(messages)[i].2 == messages[i].0,
{
}

/// The conversation asked for is that of the selected session, read from its file; one
/// that is kept is shown at once, and what is shown already stays.
pub proof fn selected_conversation_is_asked_for(
    before: App,
    after: App,
    r: Option<PreviewRequest>,
    s: SessionMeta,
)
    requires
        before.selected < before.filtered_indices@.len(),
        s == before.sessions@[before.filtered_indices@[before.selected as int] as int],
        requested(before, after, r),
    ensures
        after.preview_session_id@ == s.id@,
        after.selected == before.selected,
        after.sessions == before.sessions,
        after.filtered_indices == before.filtered_indices,
        r is Some ==> r->0.session_id@ == s.id@ && r->0.file_path@ == s.file_path@
            && r->0.include_tools == before.show_tools && after.preview_loading,
        before.preview_session_id@ == s.id@ && before.preview_lines@.len() > 0 ==> r is None
            && after == before,
        !(before.preview_session_id@ == s.id@ && before.preview_lines@.len() > 0) ==> ((r is None)
            <==> exists|i: int|
            0 <= i < before.preview_cache@.len() && (
            #[trigger] before.preview_cache@[i]).session_id@ == s.id@),
{
    let cache = kept(before.preview_cache@);
    lemma_kept_at(cache, s.id@);
    match kept_at(cache, s.id@) {
        Some(i) => {
            assert(before.preview_cache@[i].session_id@ == s.id@);
        },
        None => {
            assert forall|i: int| 0 <= i < before.preview_cache@.len() implies (
            #[trigger] before.preview_cache@[i]).session_id@ != s.id@ by {
                assert(cache[i].0 != s.id@);
            }
        },
    }
}

/// The number of messages is corrected of the first session with the id, and of no
/// other.
pub proof fn one_session_is_recounted(sessions: Seq<SessionMeta>, id: Seq<char>, n: u32, i: int)
    requires
        0 <= i < sessions.len(),
    ensures
        recounted(sessions, id, n).len() == sessions.len(),
        recounted(sessions, id, n)[i].id == sessions[i].id,
        sessions[i].id@ != id ==> recounted(sessions, id, n)[i] == sessions[i],
        sessions[i].id@ == id && (forall|k: int|
            0 <= k < i ==> (#[trigger] sessions[k]).id@ != id) ==> recounted(
            sessions,
            id,
            n,
        )[i].message_count == n,
{
    lemma_first_with_id(sessions, id, 0);
    if sessions[i].id@ == id && (forall|k: int| 0 <= k < i ==> (#[trigger] sessions[k]).id@ != id) {
        first_is_found(sessions, id, 0, i);
    }
}

proof fn first_is_found(sessions: Seq<SessionMeta>, id: Seq<char>, from: int, i: int)
    requires
        0 <= from <= i < sessions.len(),
        sessions[i].id@ == id,
        forall|k: int| 0 <= k < i ==> (#[trigger] sessions[k]).id@ != id,
    ensures
        first_with_id(sessions, id, from) == Some(i),
    decreases i - from,
{
    if from < i {
        assert(sessions[from].id@ != id);
        first_is_found(sessions, id, from + 1, i);
    }
}

/// Esc leaves, in turn, a search within the conversation, the conversation, a search,
/// the timeline, and the browser.
pub proof fn escape_leaves_one_thing(before: App, after: App)
    requires
        escaped(before, after),
    ensures
        before.focus == Focus::PreviewSearch ==> after.focus == Focus::Preview
            && after.preview_search_query@.text.len() == 0 && after.preview_search_matches@.len()
            == 0,
        before.focus == Focus::Preview && before.preview_search_query@.text.len() > 0
            ==> after.focus == Focus::Preview && after.preview_search_query@.text.len() == 0,
        before.focus == Focus::Preview && before.preview_search_query@.text.len() == 0
            ==> after.focus == Focus::List,
        before.focus == Focus::Search && before.search_query@.text.len() > 0 ==> after.focus
            == Focus::Search && after.search_query@.text.len() == 0 && after.selected == 0
            && after.preview_scroll == 0,
        before.focus == Focus::Search && before.search_query@.text.len() == 0 ==> after.focus
            == Focus::List,
        before.focus == Focus::List && before.view_mode == ViewMode::Timeline ==> after.view_mode
            == ViewMode::Normal && after.action == before.action,
        before.focus == Focus::List && before.view_mode == ViewMode::Normal ==> after.action
            == AppAction::Quit,
        before.focus != Focus::List ==> after.action == before.action,
        after.sessions == before.sessions,
        after.bookmarks == before.bookmarks,
{
}

/// A change of the search within the conversation finds anew the lines that hold it, in
/// whichever case, and goes to the first of them; a search for nothing finds nothing and
/// leaves the conversation where it is.
pub proof fn changed_searches_find_anew(before: App, after: App, i: usize)
    requires
        sought_anew(before, after),
        before.preview_lines@.len() <= usize::MAX,
    ensures
        ({
            let query = text::lowercase(before.preview_search_query@.text);
            let found = after.preview_search_matches@;
            &&& query.len() == 0 ==> found.len() == 0
            &&& query.len() > 0 ==> (found.contains(i) <==> i < before.preview_lines@.len()
                && text::contains(
                vstd::utf8::encode_utf8(before.preview_lines@[i as int].1@),
                vstd::utf8::encode_utf8(query),
            ))
            &&& after.preview_search_current == 0
            &&& found.len() == 0 ==> after.preview_scroll == before.preview_scroll
            &&& after.preview_lines == before.preview_lines
            &&& after.preview_search_query == before.preview_search_query
        }),
{
    matches_are_the_lines_that_hold_it(before.lines(), before.sought(), i, 0, 0);
}

/// With tool activity shown or hidden, every conversation is read anew.
pub proof fn toggling_tools_forgets_conversations(before: App, after: App)
    requires
        tools_toggled(before, after),
    ensures
        after.show_tools == !before.show_tools,
        after.preview_cache@.len() == 0,
        after.preview_lines@.len() == 0,
        after.preview_session_id@.len() == 0,
        after.selected == before.selected,
        after.filtered_indices == before.filtered_indices,
        after.sessions == before.sessions,
{
}

/// Where no session is selected, no conversation is asked for and none is shown.
pub proof fn nothing_is_asked_for_where_nothing_is_selected(
    before: App,
    after: App,
    r: Option<PreviewRequest>,
)
    requires
        before.selected >= before.filtered_indices@.len(),
        requested(before, after, r),
    ensures
        r is None,
        after.preview_lines@.len() == 0,
        !after.preview_loading,
        after.selected == before.selected,
        after.sessions == before.sessions,
        after.filtered_indices == before.filtered_indices,
        after.focus == before.focus,
        after.action == before.action,
        after.preview_cache == before.preview_cache,
{
}

} // verus!
