//! Which sessions are listed, and in which order.

use crate::app;
use crate::app::{App, Scope, SortMode, ViewMode};
use crate::search;
use crate::session;
use crate::session::{SessionMeta, SessionView};
use crate::sorting;
use crate::sorting::Rank;
use crate::text;
use vstd::prelude::*;

verus! {

impl<'a> App<'a> {
    /// Whether a session is of the scope: its file lies below the launch
    /// directory, or every project counts.
    pub open spec fn in_scope(&self, s: SessionView) -> bool {
        match (self.scope, self.cwd_encoded) {
            (Scope::Current, Some(dir)) => text::contains(s.file_path, "/"@ + dir@ + "/"@),
            _ => true,
        }
    }

    /// Whether a session is of the size asked for.
    pub open spec fn of_size(&self, s: SessionView) -> bool {
        match self.size_filter {
            Some(c) => session::category(s.file_size as int) == c@,
            None => true,
        }
    }

    /// Whether a search is typed in.
    pub open spec fn searching(&self) -> bool {
        self.search_query@.text.len() > 0
    }

    /// Whether the search asks for anything but blanks.
    pub open spec fn asking(&self) -> bool {
        self.searching() && search::query_of(self.search_query@.text).tokens.len() > 0
    }

    /// What a session scores in the search; 0 where nothing is asked for.
    pub open spec fn score_of(&self, s: SessionView) -> Option<int> {
        if self.asking() {
            search::match_score(s, self.text_cache@, search::query_of(self.search_query@.text))
        } else {
            Some(0)
        }
    }

    /// Whether a session is listed.
    pub open spec fn shows(&self, s: SessionView) -> bool {
        self.in_scope(s) && self.score_of(s) is Some && self.of_size(s)
    }

    /// Whether a session is bookmarked.
    pub open spec fn pinned(&self, s: SessionView) -> bool {
        self.bookmarks@.contains(s.id)
    }

    /// What the sort mode orders a session by.
    pub open spec fn sort_key(&self, s: SessionView) -> int {
        match self.sort_mode {
            SortMode::Date => s.timestamp as int,
            SortMode::Size => s.file_size as int,
            SortMode::Duration => s.duration_secs as int,
            SortMode::Messages => s.message_count as int,
        }
    }

    /// Whether, in a list made anew, the `i`-th session comes before the `j`-th:
    /// bookmarks come first; then what scores higher, or is newer, in a search,
    /// and else what is larger by the sort mode.
    pub open spec fn precedes(&self, i: int, j: int) -> bool {
        let a = self.sessions@[i]@;
        let b = self.sessions@[j]@;
        if self.pinned(a) != self.pinned(b) {
            self.pinned(a)
        } else if self.asking() {
            let x = self.score_of(a)->0;
            let y = self.score_of(b)->0;
            x > y || (x == y && (a.timestamp > b.timestamp || (a.timestamp == b.timestamp && i
                < j)))
        } else if self.searching() {
            i < j
        } else {
            self.sort_key(a) > self.sort_key(b) || (self.sort_key(a) == self.sort_key(b) && i < j)
        }
    }

    /// Whether `list` is what has to be listed: the sessions to show, each once
    /// and each before all that it precedes.
    pub open spec fn is_listing(&self, list: Seq<usize>) -> bool {
        &&& app::valid_list(list, self.sessions@.len())
        &&& forall|i: int|
            0 <= i < self.sessions@.len() ==> (list.contains(i as usize) <==> self.shows(
                (#[trigger] self.sessions@[i])@,
            ))
        &&& forall|p: int, q: int|
            0 <= p < q < list.len() ==> self.precedes(
                #[trigger] list[p] as int,
                #[trigger] list[q] as int,
            )
    }

    /// Whether, when a list is put in order again, the `i`-th session has to
    /// come before the `j`-th: bookmarks come first, and unless a search is typed
    /// in, then what is larger by the sort mode.
    pub open spec fn sorts_before(&self, i: int, j: int) -> bool {
        let a = self.sessions@[i]@;
        let b = self.sessions@[j]@;
        if self.pinned(a) != self.pinned(b) {
            self.pinned(a)
        } else {
            !self.searching() && self.sort_key(a) > self.sort_key(b)
        }
    }

    /// Whether `new` is `list` put in order again: the same sessions, those that
    /// have to come before others doing so, and all others as they stood.
    pub open spec fn is_reordering(&self, list: Seq<usize>, new: Seq<usize>) -> bool {
        &&& app::valid_list(new, self.sessions@.len())
        &&& new.len() == list.len()
        &&& forall|x: usize| #[trigger] new.contains(x) <==> list.contains(x)
        &&& forall|p: int, q: int|
            0 <= p < q < new.len() ==> {
                let x = #[trigger] new[p];
                let y = #[trigger] new[q];
                ||| self.sorts_before(x as int, y as int)
                ||| !self.sorts_before(y as int, x as int) && list.index_of(x) < list.index_of(y)
            }
    }

    /// Whether a session is bookmarked, as a number: bookmarks come first.
    fn pin_of(&self, s: &SessionMeta) -> (r: i128)
        requires
            self.wf(),
        ensures
            r == if self.pinned(s@) {
                0int
            } else {
                1
            },
    {
        if self.bookmarks.contains(s.id.as_str()) {
            0
        } else {
            1
        }
    }

    /// What the sort mode orders a session by.
    fn sort_key_of(&self, s: &SessionMeta) -> (r: i128)
        ensures
            r == self.sort_key(s@),
            i64::MIN <= r <= u64::MAX,
    {
        match self.sort_mode {
            SortMode::Date => s.timestamp as i128,
            SortMode::Size => s.file_size as i128,
            SortMode::Duration => s.duration_secs as i128,
            SortMode::Messages => s.message_count as i128,
        }
    }

    /// Puts the list in order again: bookmarks to the top, and unless a search
    /// is typed in, by the sort mode. What is alike stays in its order.
    #[verifier::rlimit(60)]
    pub fn apply_sort(&mut self)
        requires
            old(self).wf(),
        ensures
            final(self).wf(),
            *final(self) == (App { filtered_indices: final(self).filtered_indices, ..*old(self) }),
            final(self).is_reordering(old(self).filtered_indices@, final(self).filtered_indices@),
    {
        let searching = !self.search_query.is_empty();
        let ghost list = self.filtered_indices@;
        let mut ranks: Vec<Rank> = Vec::new();
        let mut p: usize = 0;
        while p < self.filtered_indices.len()
            invariant
                p <= list.len(),
                list == self.filtered_indices@,
                self.wf(),
                searching == self.searching(),
                ranks@.len() == p,
                forall|k: int|
                    0 <= k < p ==> {
                        let s = self.sessions@[list[k] as int]@;
                        let r = #[trigger] ranks@[k];
                        &&& r.place == k
                        &&& r.tie == 0
                        &&& r.pin == if self.pinned(s) {
                            0int
                        } else {
                            1
                        }
                        &&& r.main == if searching {
                            0
                        } else {
                            -self.sort_key(s)
                        }
                    },
            decreases list.len() - p,
        {
            let s = &self.sessions[self.filtered_indices[p]];
            let main = if searching {
                0
            } else {
                -self.sort_key_of(s)
            };
            let pin = self.pin_of(s);
            ranks.push(Rank { pin, main, tie: 0, place: p });
            p += 1;
        }
        let sorted = sorting::sorted(&ranks);
        proof {
            sorting::sorted_strictly(ranks@, sorted@);
        }
        let mut out: Vec<usize> = Vec::new();
        let mut k: usize = 0;
        while k < sorted.len()
            invariant
                k <= sorted@.len(),
                list == self.filtered_indices@,
                forall|i: int| 0 <= i < sorted@.len() ==> (#[trigger] sorted@[i]).place < list.len(),
                out@ == Seq::new(k as nat, |i: int| list[sorted@[i].place as int]),
            decreases sorted@.len() - k,
        {
            assert(sorted@[k as int].place < list.len());
            out.push(self.filtered_indices[sorted[k].place]);
            k += 1;
            assert(out@ =~= Seq::new(k as nat, |i: int| list[sorted@[i].place as int]));
        }
        let ghost before = *self;
        self.filtered_indices = out;
        proof {
            let new = self.filtered_indices@;
            let rs = ranks@;
            let ss = sorted@;
            assert forall|i: int| 0 <= i < ss.len() implies #[trigger] ss[i]
                == rs[ss[i].place as int] && ss[i].place < list.len() by {
                let a = choose|a: int| 0 <= a < rs.len() && rs[a] == ss[i];
                assert(rs[a].place == a);
            }
            assert forall|i: int, j: int| 0 <= i < j < list.len() implies list[i] != list[j] by {}
            assert forall|p: int, q: int| 0 <= p < new.len() && 0 <= q < new.len() && p
                != q implies new[p] != new[q] by {
                if p < q {
                    assert(ss[p].place != ss[q].place);
                } else {
                    assert(ss[q].place != ss[p].place);
                }
            }
            assert forall|x: usize| #[trigger] new.contains(x) <==> list.contains(x) by {
                if new.contains(x) {
                    let p = choose|p: int| 0 <= p < new.len() && new[p] == x;
                    assert(list[ss[p].place as int] == x);
                }
                if list.contains(x) {
                    let a = choose|a: int| 0 <= a < list.len() && list[a] == x;
                    assert(ss.contains(rs[a]));
                    let p = choose|p: int| 0 <= p < ss.len() && ss[p] == rs[a];
                    assert(new[p] == x);
                }
            }
            assert forall|p: int, q: int| 0 <= p < q < new.len() implies ({
                let x = #[trigger] new[p];
                let y = #[trigger] new[q];
                ||| self.sorts_before(x as int, y as int)
                ||| !self.sorts_before(y as int, x as int) && list.index_of(x) < list.index_of(y)
            }) by {
                let a = ss[p].place as int;
                let b = ss[q].place as int;
                assert(ss[p].before(ss[q]));
                assert(ss[p] == rs[a] && ss[q] == rs[b]);
                position_in(list, a);
                position_in(list, b);
            }
        }
    }
}

/// Whether `after` is `before` with the list made anew and its top selected.
pub open spec fn relisted(before: App, after: App) -> bool {
    &&& after.wf()
    &&& after == App {
        filtered_indices: after.filtered_indices,
        selected: 0,
        preview_scroll: 0,
        ..before
    }
    &&& after.is_listing(after.filtered_indices@)
    &&& after.selection_within()
}

/// Whether `after` is `before` with the list put in the next order and its top
/// selected.
pub open spec fn resorted(before: App, after: App) -> bool {
    &&& after.wf()
    &&& after == App {
        sort_mode: before.sort_mode.next_mode(),
        filtered_indices: after.filtered_indices,
        selected: 0,
        preview_scroll: 0,
        ..before
    }
    &&& after.is_reordering(before.filtered_indices@, after.filtered_indices@)
    &&& after.selection_within()
}

/// Whether `after` is `before` with the selected session, if there is one,
/// bookmarked or no longer so, and the list put in order again.
pub open spec fn bookmarked(before: App, after: App) -> bool {
    &&& after.wf()
    &&& match before.selection() {
        Some(s) => {
            &&& after == App {
                bookmarks: after.bookmarks,
                filtered_indices: after.filtered_indices,
                ..before
            }
            &&& after.bookmarks@ == toggled(before.bookmarks@, s@.id)
            &&& after.is_reordering(before.filtered_indices@, after.filtered_indices@)
        },
        None => after == before,
    }
}

/// The filter after one size is chosen: none if it was chosen already.
pub open spec fn chosen_size(filter: Option<&'static str>, category: &'static str) -> Option<
    &'static str,
> {
    if filter is Some && filter->0@ == category@ {
        None
    } else {
        Some(category)
    }
}

/// Whether `after` is `before` with a size chosen, or no longer so.
pub open spec fn size_toggled(before: App, category: &'static str, after: App) -> bool {
    relisted(App { size_filter: chosen_size(before.size_filter, category), ..before }, after)
}

impl<'a> App<'a> {
    /// Whether a rank is that of the session at its place, in a list made anew.
    spec fn is_rank(&self, r: Rank) -> bool {
        let s = self.sessions@[r.place as int]@;
        &&& r.place < self.sessions@.len()
        &&& r.pin == if self.pinned(s) {
            0int
        } else {
            1
        }
        &&& r.main == if self.asking() {
            -(self.score_of(s)->0)
        } else if self.searching() {
            0
        } else {
            -self.sort_key(s)
        }
        &&& r.tie == if self.asking() {
            -s.timestamp
        } else {
            0
        }
    }

    /// What the path of a session's file has to hold to be of the scope, if
    /// anything.
    pub open spec fn scope_mark(&self) -> Option<Seq<char>> {
        match (self.scope, self.cwd_encoded) {
            (Scope::Current, Some(dir)) => Some("/"@ + dir@ + "/"@),
            _ => None,
        }
    }

    /// What the path of a session's file has to hold to be of the scope, if
    /// anything.
    pub fn scope_needle(&self) -> (r: Option<String>)
        ensures
            match r {
                Some(n) => self.scope_mark() == Some(n@),
                None => self.scope_mark() is None,
            },
    {
        match (self.scope, &self.cwd_encoded) {
            (Scope::Current, Some(dir)) => {
                let mut n = "/".to_owned();
                n.append(dir.as_str());
                n.append("/");
                Some(n)
            },
            _ => None,
        }
    }

    /// What each session scores in the search typed in; `None` where nothing is
    /// asked for.
    fn apply_search_inner(&self) -> (r: Option<Vec<Option<i128>>>)
        ensures
            self.asking() == r is Some,
            r matches Some(scores) ==> {
                &&& scores@.len() == self.sessions@.len()
                &&& forall|i: int|
                    0 <= i < scores@.len() ==> match #[trigger] scores@[i] {
                        Some(n) => self.score_of(self.sessions@[i]@) == Some(n as int) && 0 <= n
                            <= 1000 + 550 * usize::MAX,
                        None => self.score_of(self.sessions@[i]@) is None,
                    }
            },
    {
        if self.search_query.is_empty() {
            return None;
        }
        let query = search::parse_query(self.search_query.text());
        assert(query@ == search::query_of(self.search_query@.text));
        assert(query@.tokens.len() == query.tokens@.len());
        if query.tokens.len() == 0 {
            return None;
        }
        let scores = search::match_each(&self.sessions, &self.text_cache, &query);
        assert(query.tokens.len() <= usize::MAX);
        Some(scores)
    }

    /// Whether a session is of the size asked for.
    fn apply_size_filter(&self, s: &SessionMeta) -> (r: bool)
        ensures
            r == self.of_size(s@),
    {
        match self.size_filter {
            Some(c) => text::text_eq(session::size_category(s.file_size), c),
            None => true,
        }
    }

    /// The ranks of the sessions to show.
    fn shown_ranks(&self) -> (r: Vec<Rank>)
        requires
            self.wf(),
        ensures
            forall|k: int|
                0 <= k < r@.len() ==> self.is_rank(#[trigger] r@[k]) && self.shows(
                    self.sessions@[r@[k].place as int]@,
                ),
            forall|a: int, b: int|
                0 <= a < b < r@.len() ==> (#[trigger] r@[a]).place < (#[trigger] r@[b]).place,
            forall|i: int|
                0 <= i < self.sessions@.len() && self.shows((#[trigger] self.sessions@[i])@)
                    ==> exists|k: int| 0 <= k < r@.len() && (#[trigger] r@[k]).place == i,
    {
        let searching = !self.search_query.is_empty();
        let scores = self.apply_search_inner();
        let needle = self.scope_needle();
        let mut ranks: Vec<Rank> = Vec::new();
        let mut i: usize = 0;
        while i < self.sessions.len()
            invariant
                i <= self.sessions@.len(),
                self.wf(),
                searching == self.searching(),
                self.asking() == scores is Some,
                scores matches Some(v) ==> {
                    &&& v@.len() == self.sessions@.len()
                    &&& forall|i: int|
                        0 <= i < v@.len() ==> match #[trigger] v@[i] {
                            Some(n) => self.score_of(self.sessions@[i]@) == Some(n as int) && 0
                                <= n <= 1000 + 550 * usize::MAX,
                            None => self.score_of(self.sessions@[i]@) is None,
                        }
                },
                match needle {
                    Some(n) => self.scope_mark() == Some(n@),
                    None => self.scope_mark() is None,
                },
                forall|k: int|
                    0 <= k < ranks@.len() ==> self.is_rank(#[trigger] ranks@[k])
                        && ranks@[k].place < i && self.shows(
                        self.sessions@[ranks@[k].place as int]@,
                    ),
                forall|a: int, b: int|
                    0 <= a < b < ranks@.len() ==> (#[trigger] ranks@[a]).place < (
                    #[trigger] ranks@[b]).place,
                forall|j: int|
                    0 <= j < i && self.shows((#[trigger] self.sessions@[j])@) ==> exists|k: int|
                        0 <= k < ranks@.len() && (#[trigger] ranks@[k]).place == j,
            decreases self.sessions@.len() - i,
        {
            let s = &self.sessions[i];
            let in_scope = match &needle {
                Some(n) => text::has(s.file_path.as_str(), n.as_str()),
                None => true,
            };
            let score: Option<i128> = match &scores {
                Some(v) => v[i],
                None => Some(0),
            };
            let ghost before = ranks@;
            assert(in_scope == self.in_scope(s@));
            if in_scope && self.apply_size_filter(s) {
                match score {
                    Some(n) => {
                        let asking = scores.is_some();
                        let main = if asking {
                            -n
                        } else if searching {
                            0
                        } else {
                            -self.sort_key_of(s)
                        };
                        let tie = if asking {
                            -(s.timestamp as i128)
                        } else {
                            0
                        };
                        let pin = self.pin_of(s);
                        ranks.push(Rank { pin, main, tie, place: i });
                        assert(self.is_rank(ranks@[before.len() as int]));
                        assert(self.shows(s@));
                    },
                    None => {},
                }
            }
            assert forall|j: int| 0 <= j < i + 1 && self.shows(
                (#[trigger] self.sessions@[j])@,
            ) implies exists|k: int| 0 <= k < ranks@.len() && (#[trigger] ranks@[k]).place == j by {
                if j < i {
                    let k = choose|k: int| 0 <= k < before.len() && (#[trigger] before[k]).place == j;
                    assert(ranks@[k].place == j);
                } else {
                    assert(ranks@[before.len() as int].place == j);
                }
            }
            i += 1;
        }
        ranks
    }

    /// Rebuild filtered_indices from scratch: scope → search → size filter →
    /// sort.
    #[verifier::rlimit(60)]
    pub fn rebuild_view(&mut self)
        requires
            old(self).wf(),
        ensures
            relisted(*old(self), *final(self)),
    {
        let ranks = self.shown_ranks();
        let sorted = sorting::sorted(&ranks);
        proof {
            sorting::sorted_strictly(ranks@, sorted@);
        }
        let mut list: Vec<usize> = Vec::new();
        let mut k: usize = 0;
        while k < sorted.len()
            invariant
                k <= sorted@.len(),
                list@ == Seq::new(k as nat, |i: int| sorted@[i].place),
            decreases sorted@.len() - k,
        {
            list.push(sorted[k].place);
            k += 1;
            assert(list@ =~= Seq::new(k as nat, |i: int| sorted@[i].place));
        }
        let ghost before = *self;
        self.filtered_indices = list;
        self.selected = 0;
        self.preview_scroll = 0;
        proof {
            let new = self.filtered_indices@;
            let rs = ranks@;
            let ss = sorted@;
            assert forall|p: int| 0 <= p < ss.len() implies self.is_rank(#[trigger] ss[p])
                && self.shows(self.sessions@[ss[p].place as int]@) by {
                let a = choose|a: int| 0 <= a < rs.len() && rs[a] == ss[p];
                assert(before.is_rank(rs[a]));
            }
            assert forall|i: int| 0 <= i < self.sessions@.len() implies (new.contains(i as usize)
                <==> self.shows((#[trigger] self.sessions@[i])@)) by {
                assert(i < self.sessions.len());
                if new.contains(i as usize) {
                    let p = choose|p: int| 0 <= p < new.len() && new[p] == i as usize;
                    assert(ss[p].place == i);
                }
                if self.shows(self.sessions@[i]@) {
                    assert(before.shows(before.sessions@[i]@));
                    let a = choose|a: int| 0 <= a < rs.len() && (#[trigger] rs[a]).place == i;
                    assert(ss.contains(rs[a]));
                    let p = choose|p: int| 0 <= p < ss.len() && ss[p] == rs[a];
                    assert(new[p] == i);
                }
            }
            assert forall|p: int, q: int| 0 <= p < q < new.len() implies self.precedes(
                #[trigger] new[p] as int,
                #[trigger] new[q] as int,
            ) by {
                assert(ss[p].before(ss[q]));
                assert(self.is_rank(ss[p]) && self.is_rank(ss[q]));
            }
            assert forall|p: int, q: int| 0 <= p < new.len() && 0 <= q < new.len() && p
                != q implies new[p] != new[q] by {
                if p < q {
                    assert(ss[p].place != ss[q].place);
                } else {
                    assert(ss[q].place != ss[p].place);
                }
            }
        }
    }

    /// Called when search query changes.
    pub fn apply_search(&mut self)
        requires
            old(self).wf(),
        ensures
            relisted(*old(self), *final(self)),
    {
        self.rebuild_view();
    }
}

impl<'a> App<'a> {
    /// Sorts by the next sort mode.
    pub fn cycle_sort(&mut self)
        requires
            old(self).wf(),
        ensures
            resorted(*old(self), *final(self)),
    {
        self.sort_mode = match self.sort_mode {
            SortMode::Date => SortMode::Size,
            SortMode::Size => SortMode::Duration,
            SortMode::Duration => SortMode::Messages,
            SortMode::Messages => SortMode::Date,
        };
        self.apply_sort();
        self.selected = 0;
        self.preview_scroll = 0;
    }

    /// Shows only sessions of a size, or all sizes if that was done already.
    pub fn toggle_size_filter(&mut self, category: &'static str)
        requires
            old(self).wf(),
        ensures
            size_toggled(*old(self), category, *final(self)),
    {
        let same = match self.size_filter {
            Some(c) => text::text_eq(c, category),
            None => false,
        };
        if same {
            self.size_filter = None;
        } else {
            self.size_filter = Some(category);
        }
        self.rebuild_view();
    }

    /// Shows sessions of all sizes.
    pub fn clear_size_filter(&mut self)
        requires
            old(self).wf(),
        ensures
            relisted(
                App { size_filter: None, ..*old(self) },
                *final(self),
            ),
    {
        self.size_filter = None;
        self.rebuild_view();
    }

    /// Shows the sessions of the other scope.
    pub fn toggle_scope(&mut self)
        requires
            old(self).wf(),
        ensures
            relisted(
                App { scope: old(self).scope.other(), ..*old(self) },
                *final(self),
            ),
    {
        self.scope = match self.scope {
            Scope::Current => Scope::All,
            Scope::All => Scope::Current,
        };
        self.rebuild_view();
    }

    /// Bookmarks the selected session, or takes its bookmark away, and floats
    /// bookmarks to the top. Tells whether there was one to do this with, so
    /// that the bookmarks have to be saved.
    #[verifier::rlimit(60)]
    pub fn toggle_bookmark(&mut self) -> (r: bool)
        requires
            old(self).wf(),
        ensures
            r == old(self).selection() is Some,
            bookmarked(*old(self), *final(self)),
    {
        let id = match self.selected_session() {
            Some(s) => s.id.clone(),
            None => {
                return false;
            },
        };
        if self.bookmarks.contains(id.as_str()) {
            self.bookmarks.remove(id.as_str());
        } else {
            self.bookmarks.insert(id);
        }
        self.apply_sort();
        true
    }

    /// Takes away the bookmark of a session that is gone. Tells whether it had
    /// one, so that the bookmarks have to be saved.
    pub fn cleanup_bookmark_for_deleted(&mut self, id: &str) -> (r: bool)
        requires
            old(self).wf(),
        ensures
            final(self).wf(),
            r == old(self).bookmarks@.contains(id@),
            *final(self) == (App { bookmarks: final(self).bookmarks, ..*old(self) }),
            final(self).bookmarks@ == old(self).bookmarks@.remove(id@),
    {
        let held = self.bookmarks.contains(id);
        self.bookmarks.remove(id);
        held
    }

    /// Switches between the list and the timeline.
    pub fn toggle_timeline(&mut self)
        ensures
            *final(self) == (App { view_mode: old(self).view_mode.other(), ..*old(self) }),
    {
        self.view_mode = match self.view_mode {
            ViewMode::Normal => ViewMode::Timeline,
            ViewMode::Timeline => ViewMode::Normal,
        };
    }
}

/// In a list without repetition, a position is that of what stands there.
proof fn position_in(list: Seq<usize>, a: int)
    requires
        list.no_duplicates(),
        0 <= a < list.len(),
    ensures
        list.index_of(list[a]) == a,
{
    let b = list.index_of(list[a]);
    assert(list[b] == list[a]);
}

/// There is one list of what has to be listed, and no other.
pub proof fn listing_is_unique(app: App, a: Seq<usize>, b: Seq<usize>)
    requires
        app.is_listing(a),
        app.is_listing(b),
        app.sessions@.len() <= usize::MAX,
    ensures
        a == b,
{
    assert forall|x: usize| #[trigger] a.contains(x) implies b.contains(x) by {
        let p = choose|p: int| 0 <= p < a.len() && a[p] == x;
        assert(app.shows(app.sessions@[x as int]@));
    }
    assert forall|x: usize| #[trigger] b.contains(x) implies a.contains(x) by {
        let p = choose|p: int| 0 <= p < b.len() && b[p] == x;
        assert(app.shows(app.sessions@[x as int]@));
    }
    same_start(app, a, b, a.len() as int);
    same_start(app, b, a, b.len() as int);
    assert(a.len() == b.len());
    assert(a =~= b);
}

/// Two lists of the same sessions in order have the same start.
proof fn same_start(app: App, a: Seq<usize>, b: Seq<usize>, n: int)
    requires
        app.is_listing(a),
        app.is_listing(b),
        forall|x: usize| #[trigger] a.contains(x) <==> b.contains(x),
        0 <= n <= a.len(),
    ensures
        n <= b.len(),
        forall|i: int| 0 <= i < n ==> a[i] == #[trigger] b[i],
    decreases n,
{
    if n > 0 {
        same_start(app, a, b, n - 1);
        let x = a[n - 1];
        assert(a.contains(x));
        assert(b.contains(x));
        let q = choose|q: int| 0 <= q < b.len() && b[q] == x;
        if q < n - 1 {
            assert(a[q] == b[q]);
        }
        assert(n - 1 < b.len());
        let y = b[n - 1];
        assert(b.contains(y));
        assert(a.contains(y));
        let p = choose|p: int| 0 <= p < a.len() && a[p] == y;
        if p < n - 1 {
            assert(a[p] == b[p]);
        }
        if x != y {
            assert(app.precedes(a[n - 1] as int, a[p] as int));
            assert(app.precedes(b[n - 1] as int, b[q] as int));
        }
    }
}

/// Bookmarked sessions stand before all others, in a list made anew and in one
/// put in order again.
pub proof fn bookmarks_come_first(app: App, list: Seq<usize>, before: Seq<usize>, p: int, q: int)
    requires
        app.is_listing(list) || app.is_reordering(before, list),
        0 <= p < q < list.len(),
        app.pinned(app.sessions@[list[q] as int]@),
    ensures
        app.pinned(app.sessions@[list[p] as int]@),
{
    if app.is_listing(list) {
        assert(app.precedes(list[p] as int, list[q] as int));
    } else {
        assert(app.sorts_before(list[p] as int, list[q] as int) || !app.sorts_before(
            list[q] as int,
            list[p] as int,
        ));
    }
}

/// A list that has just been made is in order already: putting it in order
/// again leaves it as it is.
pub proof fn listing_is_in_order(app: App, list: Seq<usize>)
    requires
        app.is_listing(list),
    ensures
        app.is_reordering(list, list),
{
    assert forall|p: int, q: int| 0 <= p < q < list.len() implies ({
        let x = #[trigger] list[p];
        let y = #[trigger] list[q];
        ||| app.sorts_before(x as int, y as int)
        ||| !app.sorts_before(y as int, x as int) && list.index_of(x) < list.index_of(y)
    }) by {
        assert(app.precedes(list[p] as int, list[q] as int));
        position_in(list, p);
        position_in(list, q);
    }
}

/// Two ways of putting a list in order again do not differ.
pub proof fn reordering_is_unique(app: App, list: Seq<usize>, a: Seq<usize>, b: Seq<usize>)
    requires
        app.is_reordering(list, a),
        app.is_reordering(list, b),
    ensures
        a == b,
{
    reordered_alike(app, list, a, b, a.len() as int);
    assert(a =~= b);
}

proof fn reordered_alike(app: App, list: Seq<usize>, a: Seq<usize>, b: Seq<usize>, n: int)
    requires
        app.is_reordering(list, a),
        app.is_reordering(list, b),
        0 <= n <= a.len(),
    ensures
        forall|i: int| 0 <= i < n ==> a[i] == #[trigger] b[i],
    decreases n,
{
    if n > 0 {
        reordered_alike(app, list, a, b, n - 1);
        let x = a[n - 1];
        let y = b[n - 1];
        assert(a.contains(x));
        assert(list.contains(x));
        assert(b.contains(x));
        assert(b.contains(y));
        assert(list.contains(y));
        assert(a.contains(y));
        let q = choose|q: int| 0 <= q < b.len() && b[q] == x;
        let p = choose|p: int| 0 <= p < a.len() && a[p] == y;
        if q < n - 1 {
            assert(a[q] == b[q]);
        }
        if p < n - 1 {
            assert(a[p] == b[p]);
        }
        if x != y {
            assert(a[n - 1] == x && a[p] == y);
            assert(b[n - 1] == y && b[q] == x);
        }
    }
}

/// A set with `x` put in, or taken out if it was there.
pub open spec fn toggled(b: Set<Seq<char>>, x: Seq<char>) -> Set<Seq<char>> {
    if b.contains(x) {
        b.remove(x)
    } else {
        b.insert(x)
    }
}

/// Bookmarking a session and taking the bookmark away again changes nothing,
/// and neither does the reverse.
pub proof fn bookmark_toggles_undo_themselves(b: Set<Seq<char>>, x: Seq<char>)
    ensures
        toggled(toggled(b, x), x) == b,
        toggled(b, x).contains(x) != b.contains(x),
{
    assert(toggled(toggled(b, x), x) =~= b);
}

/// Switching the scope or the view twice changes nothing.
pub proof fn toggles_undo_themselves(scope: Scope, view: ViewMode)
    ensures
        scope.other().other() == scope,
        view.other().other() == view,
{
}

/// In a list without a search, of two sessions that are both bookmarked or both not,
/// the one that stands first is not older when sorted by date, not smaller when
/// sorted by size, not shorter when sorted by duration, and has not fewer messages
/// when sorted by them.
pub proof fn lists_are_sorted_by_their_fields(
    app: App,
    list: Seq<usize>,
    before: Seq<usize>,
    p: int,
    q: int,
)
    requires
        app.is_listing(list) || app.is_reordering(before, list),
        0 <= p < q < list.len(),
        app.search_query@.text.len() == 0,
        app.bookmarks@.contains(app.sessions@[list[p] as int].id@) == app.bookmarks@.contains(
            app.sessions@[list[q] as int].id@,
        ),
    ensures
        ({
            let a = app.sessions@[list[p] as int];
            let b = app.sessions@[list[q] as int];
            &&& app.sort_mode == SortMode::Date ==> a.timestamp >= b.timestamp
            &&& app.sort_mode == SortMode::Size ==> a.file_size >= b.file_size
            &&& app.sort_mode == SortMode::Duration ==> a.duration_secs >= b.duration_secs
            &&& app.sort_mode == SortMode::Messages ==> a.message_count >= b.message_count
        }),
{
    if app.is_listing(list) {
        assert(app.precedes(list[p] as int, list[q] as int));
    } else {
        assert(app.sorts_before(list[p] as int, list[q] as int) || !app.sorts_before(
            list[q] as int,
            list[p] as int,
        ));
    }
}

/// Of two listed sessions the one that is larger by the sort mode stands first: its
/// place in the list is the smaller one.
pub proof fn larger_stands_first(app: App, list: Seq<usize>, p: int, q: int)
    requires
        app.is_listing(list),
        0 <= p < list.len(),
        0 <= q < list.len(),
        app.search_query@.text.len() == 0,
        app.bookmarks@.contains(app.sessions@[list[p] as int].id@) == app.bookmarks@.contains(
            app.sessions@[list[q] as int].id@,
        ),
        ({
            let a = app.sessions@[list[p] as int];
            let b = app.sessions@[list[q] as int];
            ||| app.sort_mode == SortMode::Date && a.timestamp > b.timestamp
            ||| app.sort_mode == SortMode::Size && a.file_size > b.file_size
            ||| app.sort_mode == SortMode::Duration && a.duration_secs > b.duration_secs
            ||| app.sort_mode == SortMode::Messages && a.message_count > b.message_count
        }),
    ensures
        p < q,
{
    if q < p {
        lists_are_sorted_by_their_fields(app, list, list, q, p);
    }
}

/// Bookmarked sessions stand before all others, told by their ids.
pub proof fn bookmarked_ids_come_first(
    app: App,
    list: Seq<usize>,
    before: Seq<usize>,
    p: int,
    q: int,
)
    requires
        app.is_listing(list) || app.is_reordering(before, list),
        0 <= p < list.len(),
        0 <= q < list.len(),
        app.bookmarks@.contains(app.sessions@[list[p] as int].id@),
        !app.bookmarks@.contains(app.sessions@[list[q] as int].id@),
    ensures
        p < q,
{
    if q < p {
        bookmarks_come_first(app, list, before, q, p);
    }
}

/// Sessions alike in all that orders them stay in the order in which they are
/// known.
pub proof fn alike_sessions_stay_in_order(app: App, list: Seq<usize>, p: int, q: int)
    requires
        app.is_listing(list),
        0 <= p < q < list.len(),
        app.bookmarks@.contains(app.sessions@[list[p] as int].id@) == app.bookmarks@.contains(
            app.sessions@[list[q] as int].id@,
        ),
        app.sessions@[list[p] as int].timestamp == app.sessions@[list[q] as int].timestamp,
        app.sessions@[list[p] as int].file_size == app.sessions@[list[q] as int].file_size,
        app.sessions@[list[p] as int].duration_secs == app.sessions@[list[q] as int].duration_secs,
        app.sessions@[list[p] as int].message_count == app.sessions@[list[q] as int].message_count,
        app.search_query@.text.len() == 0,
    ensures
        list[p] < list[q],
{
    assert(app.precedes(list[p] as int, list[q] as int));
}

/// Whether a session is of the scope: every project counts, or the directory is
/// unknown, or the path of its file goes through the folder of the directory.
pub open spec fn lies_in_scope(app: App, s: SessionMeta) -> bool {
    ||| app.scope == Scope::All
    ||| app.cwd_encoded is None
    ||| exists|a: Seq<char>, b: Seq<char>|
        s.file_path@ == #[trigger] (a + ("/"@ + app.cwd_encoded->0@ + "/"@) + b)
}

/// Whether a session is of the size asked for: quick below 1 MB, medium below 10 MB,
/// deep up to 30 MB, massive beyond.
pub open spec fn fits_size(app: App, s: SessionMeta) -> bool {
    match app.size_filter {
        None => true,
        Some(c) => {
            &&& s.file_size < 1048576 ==> c@ == "quick"@
            &&& 1048576 <= s.file_size < 10485760 ==> c@ == "medium"@
            &&& 10485760 <= s.file_size <= 31457280 ==> c@ == "deep"@
            &&& 31457280 < s.file_size ==> c@ == "massive"@
        },
    }
}

/// Without a search, exactly the sessions of the scope and of the size asked for are
/// listed.
pub proof fn listed_are_those_in_scope_and_size(app: App, list: Seq<usize>, i: int)
    requires
        app.is_listing(list),
        0 <= i < app.sessions@.len(),
        app.search_query@.text.len() == 0,
    ensures
        list.contains(i as usize) <==> lies_in_scope(app, app.sessions@[i]) && fits_size(
            app,
            app.sessions@[i],
        ),
{
    let s = app.sessions@[i];
    scope_is_told_by_the_path(app, s);
    assert(app.of_size(s@) == fits_size(app, s));
    assert(app.shows(s@) == (app.in_scope(s@) && app.of_size(s@)));
}

/// The scope is told by the path of a session's file.
pub proof fn scope_is_told_by_the_path(app: App, s: SessionMeta)
    ensures
        app.in_scope(s@) == lies_in_scope(app, s),
{
    if app.scope == Scope::Current && app.cwd_encoded is Some {
        let m = "/"@ + app.cwd_encoded->0@ + "/"@;
        if app.in_scope(s@) {
            text::found_is_infix(s.file_path@, m);
        }
        if lies_in_scope(app, s) {
            let (a, b) = choose|a: Seq<char>, b: Seq<char>| s.file_path@ == #[trigger] (a + m + b);
            text::infix_is_found(a, m, b);
        }
    }
}

/// What a session scores in the search that is typed in.
pub open spec fn typed_score(app: App, s: SessionMeta) -> Option<int> {
    search::match_score(s@, app.text_cache@, search::query_of(app.search_query@.text))
}

/// With a search that asks for any word, exactly the sessions of the scope and size
/// are listed in which it is found; of two that are both bookmarked or both not, the
/// first scores higher, or as high and is not older.
pub proof fn searches_list_by_relevance(app: App, list: Seq<usize>, i: int, p: int, q: int)
    requires
        app.is_listing(list),
        text::words(text::lowercase(app.search_query@.text)).len() > 0,
        app.search_query@.text.len() > 0,
        0 <= i < app.sessions@.len(),
    ensures
        list.contains(i as usize) <==> lies_in_scope(app, app.sessions@[i]) && fits_size(
            app,
            app.sessions@[i],
        ) && typed_score(app, app.sessions@[i]) is Some,
        0 <= p < q < list.len() && app.bookmarks@.contains(app.sessions@[list[p] as int].id@)
            == app.bookmarks@.contains(app.sessions@[list[q] as int].id@) ==> ({
            let a = app.sessions@[list[p] as int];
            let b = app.sessions@[list[q] as int];
            let x = typed_score(app, a)->0;
            let y = typed_score(app, b)->0;
            x > y || x == y && a.timestamp >= b.timestamp
        }),
{
    let s = app.sessions@[i];
    scope_is_told_by_the_path(app, s);
    assert(app.of_size(s@) == fits_size(app, s));
    if 0 <= p < q < list.len() {
        assert(app.precedes(list[p] as int, list[q] as int));
    }
}

/// A search of blanks lists what no search would.
pub proof fn blank_searches_list_all(app: App, list: Seq<usize>, i: int)
    requires
        app.is_listing(list),
        text::words(text::lowercase(app.search_query@.text)).len() == 0,
        0 <= i < app.sessions@.len(),
    ensures
        list.contains(i as usize) <==> lies_in_scope(app, app.sessions@[i]) && fits_size(
            app,
            app.sessions@[i],
        ),
{
    let s = app.sessions@[i];
    scope_is_told_by_the_path(app, s);
    assert(app.of_size(s@) == fits_size(app, s));
    assert(app.shows(s@) == (app.in_scope(s@) && app.of_size(s@)));
}

/// Putting a list in order again keeps what is listed.
pub proof fn reordering_keeps_the_sessions(app: App, list: Seq<usize>, new: Seq<usize>, x: usize)
    requires
        app.is_reordering(list, new),
    ensures
        new.contains(x) <==> list.contains(x),
        new.len() == list.len(),
{
}

/// While a search is typed in, putting the list in order again moves bookmarks to the
/// top and leaves all else as it stands.
pub proof fn reordering_keeps_relevance(
    app: App,
    list: Seq<usize>,
    new: Seq<usize>,
    p: int,
    q: int,
)
    requires
        app.is_reordering(list, new),
        app.search_query@.text.len() > 0,
        0 <= p < q < new.len(),
        app.bookmarks@.contains(app.sessions@[new[p] as int].id@) == app.bookmarks@.contains(
            app.sessions@[new[q] as int].id@,
        ),
    ensures
        list.index_of(new[p]) < list.index_of(new[q]),
{
    assert(app.sorts_before(new[p] as int, new[q] as int) || !app.sorts_before(
        new[q] as int,
        new[p] as int,
    ) && list.index_of(new[p]) < list.index_of(new[q]));
}

/// Bookmarking one session leaves the bookmarks of all others alone.
pub proof fn other_bookmarks_stay(b: Set<Seq<char>>, x: Seq<char>, y: Seq<char>)
    requires
        x != y,
    ensures
        toggled(b, x).contains(y) <==> b.contains(y),
{
}

/// Choosing a size shows it, and choosing it again shows all sizes.
pub proof fn choosing_a_size_twice_shows_all(
    filter: Option<&'static str>,
    category: &'static str,
)
    requires
        filter is None || filter->0@ != category@,
    ensures
        chosen_size(filter, category) == Some(category),
        chosen_size(chosen_size(filter, category), category) is None,
{
}

} // verus!
