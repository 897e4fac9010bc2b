//! The state of the browser and the moves within it.

use crate::input::TextInput;
use crate::parser::Speaker;
use crate::session::SessionMeta;
use crate::string_set::StringSet;
use crate::text;
use crate::text_cache::TextCache;
use vstd::prelude::*;

verus! {

/// What the keys go to.
#[derive(Debug, Clone, Copy, PartialEq, Eq, Structural)]
pub enum Focus {
    List,
    Search,
    Preview,
    PreviewSearch,
}

/// What the list is ordered by.
#[derive(Debug, Clone, Copy, PartialEq, Eq, Structural)]
pub enum SortMode {
    Date,
    Size,
    Duration,
    Messages,
}

impl SortMode {
    /// The label of the order.
    pub open spec fn label_text(self) -> Seq<char> {
        match self {
            SortMode::Date => "date"@,
            SortMode::Size => "size"@,
            SortMode::Duration => "duration"@,
            SortMode::Messages => "messages"@,
        }
    }

    /// The label of the order.
    pub fn label(self) -> (r: &'static str)
        ensures
            r@ == self.label_text(),
    {
        match self {
            SortMode::Date => "date",
            SortMode::Size => "size",
            SortMode::Duration => "duration",
            SortMode::Messages => "messages",
        }
    }

    /// The order that comes next in the cycle.
    pub open spec fn next_mode(self) -> SortMode {
        match self {
            SortMode::Date => SortMode::Size,
            SortMode::Size => SortMode::Duration,
            SortMode::Duration => SortMode::Messages,
            SortMode::Messages => SortMode::Date,
        }
    }
}

/// The cycle of orders comes back to where it started, having passed through
/// all of them.
pub proof fn sort_cycle_closes(m: SortMode, o: SortMode)
    ensures
        m.next_mode().next_mode().next_mode().next_mode() == m,
        o == m || o == m.next_mode() || o == m.next_mode().next_mode() || o
            == m.next_mode().next_mode().next_mode(),
{
}

/// Whose sessions are listed.
#[derive(Debug, Clone, Copy, PartialEq, Eq, Structural)]
pub enum Scope {
    /// Those of the launch directory.
    Current,
    /// Those of every project.
    All,
}

impl Scope {
    /// The label of the scope.
    pub open spec fn label_text(self) -> Seq<char> {
        match self {
            Scope::Current => "cwd"@,
            Scope::All => "all"@,
        }
    }

    /// The label of the scope.
    pub fn label(self) -> (r: &'static str)
        ensures
            r@ == self.label_text(),
    {
        match self {
            Scope::Current => "cwd",
            Scope::All => "all",
        }
    }

    /// The other scope.
    pub open spec fn other(self) -> Scope {
        match self {
            Scope::Current => Scope::All,
            Scope::All => Scope::Current,
        }
    }
}

/// What the left pane shows.
#[derive(Debug, Clone, Copy, PartialEq, Eq, Structural)]
pub enum ViewMode {
    Normal,
    Timeline,
}

impl ViewMode {
    /// The other view.
    pub open spec fn other(self) -> ViewMode {
        match self {
            ViewMode::Normal => ViewMode::Timeline,
            ViewMode::Timeline => ViewMode::Normal,
        }
    }
}

/// What to do when the browser closes. The number is a position in the list.
#[derive(Debug, Clone, Copy, PartialEq, Eq, Structural)]
pub enum AppAction {
    /// Nothing yet: the browser stays open.
    Stay,
    Launch(usize),
    LaunchDangerously(usize),
    Yank(usize),
    Print(usize),
    Quit,
}

/// A line of a conversation: the text, the text in lower case, and who
/// produced it.
pub type PreviewLine = (String, String, Speaker);

/// A line of a conversation, over texts.
pub type LineView = (Seq<char>, Seq<char>, Speaker);

/// The lines of a conversation, over texts.
pub open spec fn line_views(lines: Seq<PreviewLine>) -> Seq<LineView> {
    Seq::new(lines.len(), |i: int| (lines[i].0@, lines[i].1@, lines[i].2))
}

/// A conversation that was loaded.
pub struct PreviewResult {
    pub session_id: String,
    pub lines: Vec<PreviewLine>,
    pub message_count: u32,
    /// Whether tool activity was asked for.
    pub include_tools: bool,
}

/// A conversation that is kept for the next time.
pub struct CachedPreview {
    pub session_id: String,
    pub lines: Vec<PreviewLine>,
}

/// The state of the browser.
pub struct App<'a> {
    pub sessions: Vec<SessionMeta>,
    /// The sessions listed, by their position in `sessions`.
    pub filtered_indices: Vec<usize>,
    /// The position in the list that is selected.
    pub selected: usize,
    pub preview_scroll: u16,
    pub search_query: TextInput,
    pub focus: Focus,
    pub action: AppAction,
    pub print_mode: bool,
    pub preview_lines: Vec<PreviewLine>,
    pub preview_loading: bool,
    pub preview_session_id: String,
    /// The conversations kept, oldest first.
    pub preview_cache: Vec<CachedPreview>,
    pub confirm_delete: bool,
    pub sort_mode: SortMode,
    pub size_filter: Option<&'static str>,
    pub bookmarks: StringSet,
    pub text_cache: TextCache<'a>,
    pub preview_search_query: TextInput,
    /// The lines of the conversation that match the search within it.
    pub preview_search_matches: Vec<usize>,
    pub preview_search_current: usize,
    pub view_mode: ViewMode,
    pub status_message: Option<String>,
    pub terminal_height: u16,
    pub preview_inner_width: u16,
    /// The row at which each line of the conversation starts.
    pub preview_line_offsets: Vec<u16>,
    /// How many rows the conversation takes.
    pub preview_total_rows: u16,
    /// How many rows of it are shown at a time.
    pub preview_viewport_height: u16,
    pub scope: Scope,
    /// The launch directory as it stands in the paths of session files.
    pub cwd_encoded: Option<String>,
    pub show_help: bool,
    pub show_files: bool,
    pub show_tools: bool,
}

/// The number of conversations kept.
pub const PREVIEW_CACHE_SIZE: usize = 10;

/// Whether a list names sessions, each at most once.
pub open spec fn valid_list(list: Seq<usize>, n: nat) -> bool {
    &&& list.no_duplicates()
    &&& forall|i: int| 0 <= i < list.len() ==> (#[trigger] list[i]) < n
}

/// Whether no more conversations are kept than fit, and none twice.
pub open spec fn valid_cache(cache: Seq<CachedPreview>) -> bool {
    &&& cache.len() <= PREVIEW_CACHE_SIZE
    &&& forall|i: int, j: int|
        0 <= i < j < cache.len() ==> (#[trigger] cache[i]).session_id@ != (
        #[trigger] cache[j]).session_id@
}

impl<'a> App<'a> {
    /// What every operation keeps: the list names sessions, each at most once,
    /// and the conversations kept are few and distinct.
    pub open spec fn wf(&self) -> bool {
        &&& self.bookmarks.wf()
        &&& valid_list(self.filtered_indices@, self.sessions@.len())
        &&& valid_cache(self.preview_cache@)
    }

    /// Whether the selection lies within the list.
    pub open spec fn selection_within(&self) -> bool {
        self.selected < self.filtered_indices@.len() || (self.selected == 0
            && self.filtered_indices@.len() == 0)
    }

    /// The position among the sessions of the one at a position of the list.
    pub open spec fn listed(&self, i: int) -> Option<int> {
        if 0 <= i < self.filtered_indices@.len() {
            Some(self.filtered_indices@[i] as int)
        } else {
            None
        }
    }

    /// The selected session, if one is.
    pub open spec fn selection(&self) -> Option<SessionMeta> {
        match self.listed(self.selected as int) {
            Some(i) => Some(self.sessions@[i]),
            None => None,
        }
    }

    /// The browser with the selection moved up; from the top to the bottom.
    pub open spec fn up(self) -> App<'a> {
        if self.filtered_indices@.len() == 0 {
            self
        } else {
            App {
                selected: if self.selected > 0 {
                    (self.selected - 1) as usize
                } else {
                    (self.filtered_indices@.len() - 1) as usize
                },
                preview_scroll: 0,
                ..self
            }
        }
    }

    /// The browser with the selection moved down; from the bottom to the top.
    pub open spec fn down(self) -> App<'a> {
        if self.filtered_indices@.len() == 0 {
            self
        } else {
            App {
                selected: if self.selected + 1 < self.filtered_indices@.len() {
                    (self.selected + 1) as usize
                } else {
                    0
                },
                preview_scroll: 0,
                ..self
            }
        }
    }

    /// The browser with the selection moved up by a page, at most to the top.
    pub open spec fn paged_up(self, page_size: usize) -> App<'a> {
        if self.filtered_indices@.len() == 0 {
            self
        } else {
            App {
                selected: if self.selected > page_size {
                    (self.selected - page_size) as usize
                } else {
                    0
                },
                preview_scroll: 0,
                ..self
            }
        }
    }

    /// The browser with the selection moved down by a page, at most to the
    /// bottom.
    pub open spec fn paged_down(self, page_size: usize) -> App<'a> {
        if self.filtered_indices@.len() == 0 {
            self
        } else {
            App {
                selected: if self.selected + page_size
                    < self.filtered_indices@.len() {
                    (self.selected + page_size) as usize
                } else {
                    (self.filtered_indices@.len() - 1) as usize
                },
                preview_scroll: 0,
                ..self
            }
        }
    }

    /// The browser with the selection moved to the bottom.
    pub open spec fn at_bottom(self) -> App<'a> {
        if self.filtered_indices@.len() == 0 {
            self
        } else {
            App {
                selected: (self.filtered_indices@.len() - 1) as usize,
                preview_scroll: 0,
                ..self
            }
        }
    }

    /// The browser with the selection moved to the top.
    pub open spec fn at_top(self) -> App<'a> {
        App { selected: 0, preview_scroll: 0, ..self }
    }

    /// A browser of the given sessions that lists all of them.
    pub fn new(
        sessions: Vec<SessionMeta>,
        print_mode: bool,
        bookmarks: StringSet,
        text_cache: TextCache<'a>,
    ) -> (r: App<'a>)
        requires
            bookmarks.wf(),
        ensures
            r.wf(),
            r.selection_within(),
            r.sessions == sessions,
            r.filtered_indices@ == Seq::new(sessions@.len(), |i: int| i as usize),
            r.selected == 0,
            r.print_mode == print_mode,
            r.bookmarks == bookmarks,
            r.text_cache == text_cache,
            r.is_fresh(),
    {
        let n = sessions.len();
        let mut filtered_indices: Vec<usize> = Vec::new();
        let mut i: usize = 0;
        while i < n
            invariant
                i <= n,
                filtered_indices@ == Seq::new(i as nat, |k: int| k as usize),
            decreases n - i,
        {
            filtered_indices.push(i);
            i += 1;
            assert(filtered_indices@ =~= Seq::new(i as nat, |k: int| k as usize));
        }
        App {
            sessions,
            filtered_indices,
            selected: 0,
            preview_scroll: 0,
            search_query: TextInput::new(),
            focus: Focus::List,
            action: AppAction::Stay,
            print_mode,
            preview_lines: Vec::new(),
            preview_loading: false,
            preview_session_id: String::new(),
            preview_cache: Vec::new(),
            confirm_delete: false,
            sort_mode: SortMode::Date,
            size_filter: None,
            bookmarks,
            text_cache,
            preview_search_query: TextInput::new(),
            preview_search_matches: Vec::new(),
            preview_search_current: 0,
            view_mode: ViewMode::Normal,
            status_message: None,
            terminal_height: 40,
            preview_inner_width: 0,
            preview_line_offsets: Vec::new(),
            preview_total_rows: 0,
            preview_viewport_height: 0,
            scope: Scope::All,
            cwd_encoded: None,
            show_help: false,
            show_files: false,
            show_tools: false,
        }
    }

    /// Whether nothing has been typed, asked for or loaded yet, and the browser is
    /// set as it is by default.
    pub open spec fn is_fresh(&self) -> bool {
        &&& self.is_untouched()
        &&& self.sort_mode == SortMode::Date
        &&& self.scope == Scope::All
        &&& self.cwd_encoded is None
        &&& !self.show_tools
    }

    /// Whether nothing has been typed, asked for or loaded yet.
    pub open spec fn is_untouched(&self) -> bool {
        &&& self.preview_scroll == 0
        &&& self.search_query@.text.len() == 0
        &&& self.focus == Focus::List
        &&& self.action == AppAction::Stay
        &&& self.preview_lines@.len() == 0
        &&& !self.preview_loading
        &&& self.preview_session_id@.len() == 0
        &&& self.preview_cache@.len() == 0
        &&& !self.confirm_delete
        &&& self.size_filter is None
        &&& self.preview_search_query@.text.len() == 0
        &&& self.preview_search_matches@.len() == 0
        &&& self.preview_search_current == 0
        &&& self.view_mode == ViewMode::Normal
        &&& self.status_message is None
        &&& self.terminal_height == 40
        &&& self.preview_inner_width == 0
        &&& self.preview_line_offsets@.len() == 0
        &&& self.preview_total_rows == 0
        &&& self.preview_viewport_height == 0
        &&& !self.show_help
        &&& !self.show_files
    }

    /// The session at a position of the list.
    pub fn listed_session(&self, i: usize) -> (r: Option<&SessionMeta>)
        requires
            self.wf(),
        ensures
            match r {
                Some(s) => i < self.filtered_indices@.len() && *s
                    == self.sessions@[self.filtered_indices@[i as int] as int],
                None => i >= self.filtered_indices@.len(),
            },
    {
        if i < self.filtered_indices.len() {
            Some(&self.sessions[self.filtered_indices[i]])
        } else {
            None
        }
    }

    /// The selected session, if one is.
    pub fn selected_session(&self) -> (r: Option<&SessionMeta>)
        requires
            self.wf(),
        ensures
            match r {
                Some(s) => self.selection() == Some(*s),
                None => self.selection() is None,
            },
    {
        self.listed_session(self.selected)
    }

    /// Moves the selection up; from the top to the bottom.
    pub fn move_up(&mut self)
        ensures
            *final(self) == old(self).up(),
            old(self).selection_within() ==> final(self).selection_within(),
    {
        if self.filtered_indices.len() == 0 {
            return ;
        }
        if self.selected > 0 {
            self.selected = self.selected - 1;
        } else {
            self.selected = self.filtered_indices.len() - 1;
        }
        self.preview_scroll = 0;
    }

    /// Moves the selection down; from the bottom to the top.
    pub fn move_down(&mut self)
        ensures
            *final(self) == old(self).down(),
            old(self).selection_within() ==> final(self).selection_within(),
    {
        let n = self.filtered_indices.len();
        if n == 0 {
            return ;
        }
        if self.selected < n - 1 {
            self.selected = self.selected + 1;
        } else {
            self.selected = 0;
        }
        self.preview_scroll = 0;
    }

    /// Moves the selection up by a page, at most to the top.
    pub fn page_up(&mut self, page_size: usize)
        ensures
            *final(self) == old(self).paged_up(page_size),
            old(self).selection_within() ==> final(self).selection_within(),
    {
        if self.filtered_indices.len() == 0 {
            return ;
        }
        self.selected = self.selected.saturating_sub(page_size);
        self.preview_scroll = 0;
    }

    /// Moves the selection down by a page, at most to the bottom.
    pub fn page_down(&mut self, page_size: usize)
        ensures
            *final(self) == old(self).paged_down(page_size),
            old(self).selection_within() ==> final(self).selection_within(),
    {
        let n = self.filtered_indices.len();
        if n == 0 {
            return ;
        }
        let to = self.selected.saturating_add(page_size);
        self.selected = if to < n {
            to
        } else {
            n - 1
        };
        self.preview_scroll = 0;
    }

    /// Moves the selection to the top.
    pub fn move_to_top(&mut self)
        ensures
            *final(self) == old(self).at_top(),
            final(self).selection_within(),
    {
        self.selected = 0;
        self.preview_scroll = 0;
    }

    /// Moves the selection to the bottom.
    pub fn move_to_bottom(&mut self)
        ensures
            *final(self) == old(self).at_bottom(),
            old(self).selection_within() ==> final(self).selection_within(),
    {
        let n = self.filtered_indices.len();
        if n == 0 {
            return ;
        }
        self.selected = n - 1;
        self.preview_scroll = 0;
    }
}

/// A step up and a step down undo each other, in whichever order, also where
/// they go round.
pub proof fn up_and_down_undo_each_other(app: App)
    requires
        app.selection_within(),
    ensures
        app.up().down().selected == app.selected,
        app.down().up().selected == app.selected,
{
    assert(app.filtered_indices.len() <= usize::MAX);
}

/// A list after the session at position `at` of it, the `gone`-th session, is
/// taken away: the sessions behind that one move up by one.
pub open spec fn list_without(list: Seq<usize>, at: int, gone: int) -> Seq<usize> {
    Seq::new(
        (list.len() - 1) as nat,
        |p: int|
            {
                let x = if p < at {
                    list[p]
                } else {
                    list[p + 1]
                };
                if x > gone {
                    (x - 1) as usize
                } else {
                    x
                }
            },
    )
}

/// The list after the session at position `at` of it is taken away.
fn shifted(list: &Vec<usize>, at: usize) -> (r: Vec<usize>)
    requires
        at < list@.len(),
        list@.no_duplicates(),
    ensures
        r@ == list_without(list@, at as int, list@[at as int] as int),
{
    let gone = list[at];
    let ghost new = list_without(list@, at as int, gone as int);
    let mut left: Vec<usize> = Vec::new();
    let mut p: usize = 0;
    while p < list.len()
        invariant
            p <= list@.len(),
            at < list@.len(),
            gone == list@[at as int],
            list@.no_duplicates(),
            new == list_without(list@, at as int, gone as int),
            left@ == new.take(
                if p <= at {
                    p as int
                } else {
                    p - 1
                },
            ),
        decreases list@.len() - p,
    {
        let x = list[p];
        let ghost before = left@;
        if x != gone {
            if x > gone {
                left.push(x - 1);
            } else {
                left.push(x);
            }
            assert(left@ =~= before.push(new[before.len() as int]));
        }
        p += 1;
        assert(left@ =~= new.take(
            if p <= at {
                p as int
            } else {
                p - 1
            },
        ));
    }
    assert(new.take(new.len() as int) =~= new);
    left
}

/// Whether `after` is `before` after an attempt to delete the file of the
/// selected session: if it was removed, the session goes, from the list too,
/// with its bookmark, of which `unpinned` tells, and with the preview.
pub open spec fn deleted(before: App, after: App, removed: bool, unpinned: bool) -> bool {
    &&& after.wf()
    &&& match before.listed(before.selected as int) {
        Some(i) if removed => {
            &&& unpinned == before.bookmarks@.contains(before.sessions@[i].id@)
            &&& after.sessions@ == before.sessions@.remove(i)
            &&& after.filtered_indices@ == list_without(
                before.filtered_indices@,
                before.selected as int,
                i,
            )
            &&& after.bookmarks@ == before.bookmarks@.remove(
                before.sessions@[i].id@,
            )
            &&& after.preview_lines@.len() == 0
            &&& after.preview_session_id@.len() == 0
            &&& after == (App {
                sessions: after.sessions,
                filtered_indices: after.filtered_indices,
                bookmarks: after.bookmarks,
                preview_lines: after.preview_lines,
                preview_session_id: after.preview_session_id,
                preview_loading: false,
                selected: if before.selected > 0 && before.selected + 1
                    >= before.filtered_indices@.len() {
                    (before.selected - 1) as usize
                } else {
                    before.selected
                },
                confirm_delete: false,
                ..before
            })
        },
        _ => !unpinned && after == (App { confirm_delete: false, ..before }),
    }
}

impl<'a> App<'a> {
    /// What follows an attempt to delete the file of the selected session: if it
    /// was removed, the session goes, from the list too, with its bookmark and
    /// the preview. Tells whether it had a bookmark, so that the bookmarks have to be
    /// saved.
    #[verifier::rlimit(60)]
    pub fn delete_selected(&mut self, removed: bool) -> (r: bool)
        requires
            old(self).wf(),
        ensures
            deleted(*old(self), *final(self), removed, r),
            old(self).selection_within() ==> final(self).selection_within(),
    {
        let at = self.selected;
        let n = self.filtered_indices.len();
        self.confirm_delete = false;
        if !removed || at >= n {
            return false;
        }
        let gone = self.filtered_indices[at];
        let ghost list = self.filtered_indices@;
        let id = self.sessions[gone].id.clone();
        let held = self.cleanup_bookmark_for_deleted(id.as_str());
        self.sessions.remove(gone);
        let left = shifted(&self.filtered_indices, at);
        proof {
            list_without_is_valid(list, at as int, self.sessions@.len() + 1);
        }
        self.filtered_indices = left;
        if self.selected >= self.filtered_indices.len() && self.selected > 0 {
            self.selected = self.selected - 1;
        }
        self.preview_lines = Vec::new();
        self.preview_session_id = String::new();
        self.preview_loading = false;
        held
    }

    /// Notes a message for the status line.
    pub fn set_status(&mut self, msg: String)
        ensures
            *final(self) == (App { status_message: Some(msg), ..*old(self) }),
    {
        self.status_message = Some(msg);
    }

    /// The message for the status line, for less than three seconds after it
    /// was noted.
    pub fn active_status(&self, elapsed_secs: u64) -> (r: Option<&str>)
        ensures
            match r {
                Some(s) => elapsed_secs < 3 && self.status_message is Some
                    && self.status_message->0@ == s@,
                None => elapsed_secs >= 3 || self.status_message is None,
            },
    {
        match &self.status_message {
            Some(s) => if elapsed_secs < 3 {
                Some(s.as_str())
            } else {
                None
            },
            None => None,
        }
    }

    /// Notes how the export of the selected session ended: the path written, or
    /// what went wrong.
    pub fn export_selected(&mut self, outcome: Result<String, String>)
        ensures
            *final(self) == (App { status_message: final(self).status_message, ..*old(self) }),
            final(self).status_message is Some,
            final(self).status_message->0@ == match outcome {
                Ok(path) => "Exported → "@ + path@,
                Err(e) => "Export failed: "@ + e@,
            },
    {
        let msg = match outcome {
            Ok(path) => {
                let mut m = "Exported → ".to_owned();
                m.append(path.as_str());
                m
            },
            Err(e) => {
                let mut m = "Export failed: ".to_owned();
                m.append(e.as_str());
                m
            },
        };
        self.set_status(msg);
    }

    /// Shows the changed files in place of the conversation, or that again.
    pub fn toggle_files(&mut self)
        ensures
            *final(self) == (App { show_files: !old(self).show_files, ..*old(self) }),
    {
        self.show_files = !self.show_files;
    }
}

/// Taking a session away leaves a list that names each of the others at most
/// once.
proof fn list_without_is_valid(list: Seq<usize>, at: int, n: nat)
    requires
        valid_list(list, n),
        0 <= at < list.len(),
    ensures
        valid_list(list_without(list, at, list[at] as int), (n - 1) as nat),
{
    let gone = list[at] as int;
    let new = list_without(list, at, gone);
    let from = |p: int|
        if p < at {
            p
        } else {
            p + 1
        };
    assert forall|p: int| 0 <= p < new.len() implies (#[trigger] new[p]) < n - 1 by {
        assert(list[from(p)] < n);
        assert(list[from(p)] != list[at]);
    }
    assert forall|p: int, q: int| 0 <= p < new.len() && 0 <= q < new.len() && p != q implies new[p]
        != new[q] by {
        assert(list[from(p)] != list[from(q)]);
        assert(list[from(p)] != list[at]);
        assert(list[from(q)] != list[at]);
    }
}

/// Every session but the one taken away is listed exactly if it was before, and
/// the list names the same sessions in the same order.
pub proof fn deletion_keeps_the_others(
    sessions: Seq<SessionMeta>,
    list: Seq<usize>,
    at: int,
    p: int,
)
    requires
        valid_list(list, sessions.len()),
        0 <= at < list.len(),
        0 <= p < list.len() - 1,
    ensures
        sessions.remove(list[at] as int)[list_without(list, at, list[at] as int)[p] as int]
            == sessions[list[if p < at {
            p
        } else {
            p + 1
        }] as int],
{
    let from = if p < at {
        p
    } else {
        p + 1
    };
    assert(list[from] != list[at]);
}

/// The orders follow each other as date, size, duration, messages, and date again.
pub proof fn orders_follow_each_other()
    ensures
        SortMode::Date.next_mode() == SortMode::Size,
        SortMode::Size.next_mode() == SortMode::Duration,
        SortMode::Duration.next_mode() == SortMode::Messages,
        SortMode::Messages.next_mode() == SortMode::Date,
{
}

/// The moves go one up or down, round at the ends; a page up or down, at most to the
/// ends; or to an end. The conversation is shown from its start.
pub proof fn moves_go_where_they_say(app: App, page: usize)
    requires
        app.selected < app.filtered_indices@.len(),
    ensures
        ({
            let n = app.filtered_indices@.len() as int;
            let at = app.selected as int;
            &&& at > 0 ==> app.up().selected == at - 1
            &&& at == 0 ==> app.up().selected == n - 1
            &&& at < n - 1 ==> app.down().selected == at + 1
            &&& at == n - 1 ==> app.down().selected == 0
            &&& at >= page ==> app.paged_up(page).selected == at - page
            &&& at < page ==> app.paged_up(page).selected == 0
            &&& at + page < n ==> app.paged_down(page).selected == at + page
            &&& at + page >= n ==> app.paged_down(page).selected == n - 1
            &&& app.at_top().selected == 0
            &&& app.at_bottom().selected == n - 1
            &&& app.up().preview_scroll == 0 && app.down().preview_scroll == 0
            &&& app.paged_up(page).preview_scroll == 0 && app.paged_down(page).preview_scroll == 0
            &&& app.at_top().preview_scroll == 0 && app.at_bottom().preview_scroll == 0
        }),
{
    assert(app.filtered_indices.len() <= usize::MAX);
}

/// The selected session is the one that stands at the selected position of the list.
pub proof fn selection_is_the_session_listed(app: App)
    ensures
        app.selected < app.filtered_indices@.len() ==> app.selection() == Some(
            app.sessions@[app.filtered_indices@[app.selected as int] as int],
        ),
        app.selected >= app.filtered_indices@.len() ==> app.selection() is None,
{
}

/// A deletion takes the selected session out, with its bookmark and its place in the
/// list, and selects the session that follows, or the last one where none does; one
/// that failed leaves all as it was.
pub proof fn deletion_takes_the_selected_session(
    before: App,
    after: App,
    removed: bool,
    unpinned: bool,
)
    requires
        before.wf(),
        before.selected < before.filtered_indices@.len(),
        deleted(before, after, removed, unpinned),
    ensures
        !after.confirm_delete,
        ({
            let i = before.filtered_indices@[before.selected as int] as int;
            let n = before.filtered_indices@.len();
            let id = before.sessions@[i].id@;
            &&& removed ==> after.sessions@ == before.sessions@.remove(i)
            &&& removed ==> after.filtered_indices@.len() == n - 1
            &&& removed ==> !after.bookmarks@.contains(id)
            &&& removed ==> forall|x: Seq<char>|
                x != id ==> #[trigger] after.bookmarks@.contains(x) == before.bookmarks@.contains(x)
            &&& removed ==> after.preview_lines@.len() == 0 && !after.preview_loading
            &&& removed && before.selected + 1 < n ==> after.selected == before.selected
            &&& removed && before.selected + 1 == n && n > 1 ==> after.selected == n - 2
            &&& removed ==> unpinned == before.bookmarks@.contains(id)
            &&& !removed ==> after.sessions == before.sessions && after.filtered_indices
                == before.filtered_indices && after.bookmarks == before.bookmarks
                && after.selected == before.selected && !unpinned
        }),
{
}

/// The labels of the orders and scopes.
pub proof fn labels_are_these()
    ensures
        SortMode::Date.label_text() == "date"@,
        SortMode::Size.label_text() == "size"@,
        SortMode::Duration.label_text() == "duration"@,
        SortMode::Messages.label_text() == "messages"@,
        Scope::Current.label_text() == "cwd"@,
        Scope::All.label_text() == "all"@,
{
}

/// A message is shown for less than three seconds after it was noted.
pub proof fn messages_last_three_seconds(app: App, elapsed: u64, r: Option<&str>)
    requires
        call_ensures(App::active_status, (&app, elapsed), r),
    ensures
        elapsed < 3 && app.status_message is Some ==> r is Some && r->0@
            == app.status_message->0@,
        elapsed >= 3 || app.status_message is None ==> r is None,
{
}

/// A new browser lists all sessions in the order they come in, sorted by date and of
/// every project, with nothing typed, asked for or shown.
pub proof fn new_browsers_list_all(
    sessions: Vec<SessionMeta>,
    print_mode: bool,
    bookmarks: StringSet,
    text_cache: TextCache,
    r: App,
    i: int,
)
    requires
        call_ensures(App::new, (sessions, print_mode, bookmarks, text_cache), r),
        0 <= i < sessions@.len(),
    ensures
        r.sessions == sessions,
        r.filtered_indices@.len() == sessions@.len(),
        r.filtered_indices@[i] == i as usize,
        r.sort_mode == SortMode::Date,
        r.scope == Scope::All,
        r.size_filter is None,
        r.focus == Focus::List,
        r.action == AppAction::Stay,
        r.view_mode == ViewMode::Normal,
        r.search_query@.text.len() == 0,
        !r.show_help && !r.show_files && !r.show_tools && !r.confirm_delete && !r.preview_loading,
        r.print_mode == print_mode,
        r.bookmarks == bookmarks,
{
}

} // verus!
