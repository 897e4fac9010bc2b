//! What happens before the browser opens and after it closes.

use crate::app;
use crate::app::{App, AppAction, Scope};
use crate::config;
use crate::config::Config;
use crate::index;
use crate::session;
use crate::session::{SessionMeta, SessionView};
use crate::sorting;
use crate::sorting::Rank;
use crate::string_set::StringSet;
use crate::text;
use crate::text_cache::TextCache;
use vstd::prelude::*;

verus! {

/// Whether `order` names each of `n` positions once.
pub open spec fn is_permutation(order: Seq<usize>, n: nat) -> bool {
    &&& app::valid_list(order, n)
    &&& order.len() == n
}

/// Whether an order puts newer sessions first, and leaves those of the same time
/// as they stand.
pub open spec fn newest_first(sessions: Seq<SessionView>, order: Seq<usize>) -> bool {
    forall|p: int, q: int|
        0 <= p < q < order.len() ==> {
            let a = #[trigger] order[p];
            let b = #[trigger] order[q];
            ||| sessions[a as int].timestamp > sessions[b as int].timestamp
            ||| sessions[a as int].timestamp == sessions[b as int].timestamp && a < b
        }
}

/// The positions of sessions, newest first.
pub fn recency_order(sessions: &Vec<SessionMeta>) -> (r: Vec<usize>)
    ensures
        is_permutation(r@, sessions@.len()),
        newest_first(session::sessions_view(sessions@), r@),
{
    let mut ranks: Vec<Rank> = Vec::new();
    let mut i: usize = 0;
    while i < sessions.len()
        invariant
            i <= sessions@.len(),
            ranks@.len() == i,
            forall|k: int|
                0 <= k < i ==> (#[trigger] ranks@[k]).pin == 0 && ranks@[k].tie == 0
                    && ranks@[k].place == k && ranks@[k].main == -sessions@[k].timestamp,
        decreases sessions@.len() - i,
    {
        ranks.push(Rank { pin: 0, main: -(sessions[i].timestamp as i128), tie: 0, place: i });
        i += 1;
    }
    let sorted = sorting::sorted(&ranks);
    proof {
        sorting::sorted_strictly(ranks@, sorted@);
    }
    let mut out: Vec<usize> = Vec::new();
    let mut k: usize = 0;
    while k < sorted.len()
        invariant
            k <= sorted@.len(),
            out@ == Seq::new(k as nat, |p: int| sorted@[p].place),
        decreases sorted@.len() - k,
    {
        out.push(sorted[k].place);
        k += 1;
        assert(out@ =~= Seq::new(k as nat, |p: int| sorted@[p].place));
    }
    proof {
        let rs = ranks@;
        let ss = sorted@;
        let v = session::sessions_view(sessions@);
        assert forall|p: int| 0 <= p < ss.len() implies (#[trigger] ss[p]).place < rs.len() && ss[p]
            == rs[ss[p].place as int] by {
            let a = choose|a: int| 0 <= a < rs.len() && rs[a] == ss[p];
            assert(rs[a].place == a);
        }
        assert forall|p: int, q: int| 0 <= p < out@.len() && 0 <= q < out@.len() && p
            != q implies out@[p] != out@[q] by {
            if p < q {
                assert(ss[p].place != ss[q].place);
            } else {
                assert(ss[q].place != ss[p].place);
            }
        }
        assert forall|p: int, q: int| 0 <= p < q < out@.len() implies ({
            let a = #[trigger] out@[p];
            let b = #[trigger] out@[q];
            ||| v[a as int].timestamp > v[b as int].timestamp
            ||| v[a as int].timestamp == v[b as int].timestamp && a < b
        }) by {
            assert(ss[p].before(ss[q]));
            assert(ss[p] == rs[ss[p].place as int]);
            assert(ss[q] == rs[ss[q].place as int]);
        }
    }
    out
}

/// The sessions in a given order.
pub open spec fn ordered(sessions: Seq<SessionView>, order: Seq<usize>) -> Seq<SessionView> {
    Seq::new(order.len(), |i: int| sessions[order[i] as int])
}

/// The sessions, newest first.
pub fn by_recency(sessions: &Vec<SessionMeta>) -> (r: Vec<SessionMeta>)
    ensures
        exists|order: Seq<usize>|
            {
                &&& is_permutation(order, sessions@.len())
                &&& newest_first(session::sessions_view(sessions@), order)
                &&& session::sessions_view(r@) == #[trigger] ordered(
                    session::sessions_view(sessions@),
                    order,
                )
            },
{
    let order = recency_order(sessions);
    let ghost v = session::sessions_view(sessions@);
    let mut out: Vec<SessionMeta> = Vec::new();
    let mut i: usize = 0;
    while i < order.len()
        invariant
            i <= order@.len(),
            v == session::sessions_view(sessions@),
            is_permutation(order@, sessions@.len()),
            session::sessions_view(out@) == ordered(v, order@).take(i as int),
        decreases order@.len() - i,
    {
        let ghost before = session::sessions_view(out@);
        assert(order@[i as int] < sessions@.len());
        let s = sessions[order[i]].clone();
        let ghost sv = s@;
        out.push(s);
        assert(session::sessions_view(out@) =~= before.push(sv));
        assert(ordered(v, order@).take(i + 1) =~= ordered(v, order@).take(i as int).push(sv));
        i += 1;
    }
    assert(ordered(v, order@).take(i as int) =~= ordered(v, order@));
    assert(session::sessions_view(out@) == ordered(v, order@));
    out
}

/// The sessions of which `keep` holds.
pub open spec fn kept(sessions: Seq<SessionView>, keep: spec_fn(SessionView) -> bool) -> Seq<
    SessionView,
>
    decreases sessions.len(),
{
    if sessions.len() == 0 {
        Seq::empty()
    } else if keep(sessions.last()) {
        kept(sessions.drop_last(), keep).push(sessions.last())
    } else {
        kept(sessions.drop_last(), keep)
    }
}

/// Whether the name of a session's project holds a text, in whichever case.
pub open spec fn of_project(filter: Seq<char>) -> spec_fn(SessionView) -> bool {
    |s: SessionView| text::contains(text::lowercase(s.project), text::lowercase(filter))
}

/// Whether a session is not older than some seconds before now.
pub open spec fn of_last(now: i64, secs: u64) -> spec_fn(SessionView) -> bool {
    |s: SessionView| s.timestamp >= now - secs
}

/// The sessions of projects whose name holds `filter`.
pub fn keep_project(sessions: Vec<SessionMeta>, filter: &str) -> (r: Vec<SessionMeta>)
    ensures
        session::sessions_view(r@) == kept(session::sessions_view(sessions@), of_project(filter@)),
{
    let lower = filter.to_lowercase();
    let ghost all = session::sessions_view(sessions@);
    let ghost first = sessions@;
    let mut out: Vec<SessionMeta> = Vec::new();
    assert(session::sessions_view(out@) =~= Seq::empty());
    for s in it: sessions.into_iter()
        invariant
            it.seq() == first,
            all == session::sessions_view(first),
            lower@ == text::lowercase(filter@),
            session::sessions_view(out@) == kept(
                all.take(it.index() as int),
                of_project(filter@),
            ),
    {
        let ghost i = it.index() as int;
        let ghost before = session::sessions_view(out@);
        let ghost v = s@;
        assert(all.take(i + 1).drop_last() =~= all.take(i));
        assert(all.take(i + 1).last() == v);
        let project = s.project.as_str().to_lowercase();
        if text::has(project.as_str(), lower.as_str()) {
            out.push(s);
            assert(session::sessions_view(out@) =~= before.push(v));
        }
    }
    assert(all.take(all.len() as int) =~= all);
    out
}

/// The sessions of the last `secs` seconds.
pub fn keep_recent(sessions: Vec<SessionMeta>, now: i64, secs: u64) -> (r: Vec<SessionMeta>)
    ensures
        session::sessions_view(r@) == kept(session::sessions_view(sessions@), of_last(now, secs)),
{
    let ghost all = session::sessions_view(sessions@);
    let ghost first = sessions@;
    let cutoff = now as i128 - secs as i128;
    let mut out: Vec<SessionMeta> = Vec::new();
    assert(session::sessions_view(out@) =~= Seq::empty());
    for s in it: sessions.into_iter()
        invariant
            it.seq() == first,
            all == session::sessions_view(first),
            cutoff == now - secs,
            session::sessions_view(out@) == kept(all.take(it.index() as int), of_last(now, secs)),
    {
        let ghost i = it.index() as int;
        let ghost before = session::sessions_view(out@);
        let ghost v = s@;
        assert(all.take(i + 1).drop_last() =~= all.take(i));
        assert(all.take(i + 1).last() == v);
        if s.timestamp as i128 >= cutoff {
            out.push(s);
            assert(session::sessions_view(out@) =~= before.push(v));
        }
    }
    assert(all.take(all.len() as int) =~= all);
    out
}

/// A size below which sessions are purged, in bytes.
pub const PURGE_SIZE: u64 = 15 * 1024;

/// An age above which sessions are purged, in seconds.
pub const PURGE_AGE: i64 = 2 * 86400;

/// Whether a session is purged: it is small and old.
pub open spec fn is_purged(s: SessionView, now: i64) -> bool {
    s.file_size < PURGE_SIZE && s.timestamp < now - PURGE_AGE
}

/// The positions of the sessions to purge.
pub open spec fn purged(sessions: Seq<SessionView>, now: i64) -> Seq<usize>
    decreases sessions.len(),
{
    if sessions.len() == 0 {
        Seq::empty()
    } else if is_purged(sessions.last(), now) {
        purged(sessions.drop_last(), now).push((sessions.len() - 1) as usize)
    } else {
        purged(sessions.drop_last(), now)
    }
}

/// The positions of the sessions to purge, in order.
pub fn purge_candidates(sessions: &Vec<SessionMeta>, now: i64) -> (r: Vec<usize>)
    ensures
        r@ == purged(session::sessions_view(sessions@), now),
{
    let ghost all = session::sessions_view(sessions@);
    let cutoff = now as i128 - PURGE_AGE as i128;
    let mut out: Vec<usize> = Vec::new();
    let mut i: usize = 0;
    while i < sessions.len()
        invariant
            i <= sessions@.len(),
            all == session::sessions_view(sessions@),
            cutoff == now - PURGE_AGE,
            out@ == purged(all.take(i as int), now),
        decreases sessions@.len() - i,
    {
        let s = &sessions[i];
        assert(all.take(i + 1).drop_last() =~= all.take(i as int));
        assert(all.take(i + 1).last() == s@);
        if s.file_size < PURGE_SIZE && (s.timestamp as i128) < cutoff {
            out.push(i);
        }
        i += 1;
    }
    assert(all.take(i as int) =~= all);
    out
}

/// Whether an answer confirms a purge.
pub fn confirms(answer: &str) -> (r: bool)
    ensures
        r == (text::ascii_uppercase(text::trim(answer@)) == text::ascii_uppercase("y"@)),
{
    let t = text::trimmed(answer);
    text::eq_ignoring_case(t.as_str(), "y")
}

/// What is asked before a purge.
pub fn purge_question(n: usize) -> (r: String)
    ensures
        r@ == "Found "@ + text::decimal(n as nat)
            + " sessions < 15 KB and older than 2 days. Delete all? [y/N]"@,
{
    let mut out = "Found ".to_owned();
    let number = text::decimal_of(n as u128);
    out.append(number.as_str());
    out.append(" sessions < 15 KB and older than 2 days. Delete all? [y/N]");
    out
}

/// The browser to open: sessions of the launch directory unless all are asked
/// for, sorted and shown as configured. Where the directory is unknown, its
/// scope holds all.
pub fn open_browser<'a>(
    sessions: Vec<SessionMeta>,
    print_mode: bool,
    bookmarks: StringSet,
    text_cache: TextCache<'a>,
    cwd: &str,
    all: bool,
    config: &Config,
) -> (r: App<'a>)
    requires
        bookmarks.wf(),
    ensures
        r.wf(),
        r.selection_within(),
        r.sessions == sessions,
        r.print_mode == print_mode,
        r.bookmarks == bookmarks,
        r.text_cache == text_cache,
        r.selected == 0,
        r.is_untouched(),
        cwd@.len() == 0 ==> r.cwd_encoded is None,
        cwd@.len() > 0 ==> r.cwd_encoded is Some && r.cwd_encoded->0@ == index::encoded_path(cwd@),
        r.scope == if all || text::ascii_uppercase(config.scope@) == text::ascii_uppercase(
            "all"@,
        ) {
            Scope::All
        } else {
            Scope::Current
        },
        r.sort_mode == config::named_mode(text::lowercase(config.sort@)),
        r.show_tools == config.show_tool_activity,
        r.is_listing(r.filtered_indices@),
{
    let mut app = App::new(sessions, print_mode, bookmarks, text_cache);
    let encoded = index::encode_project_path(cwd);
    app.cwd_encoded = if encoded.as_str().is_empty() {
        None
    } else {
        Some(encoded)
    };
    app.scope = if all || config.scope_is_all() {
        Scope::All
    } else {
        Scope::Current
    };
    app.sort_mode = config.sort_mode();
    app.show_tools = config.show_tool_activity;
    app.rebuild_view();
    app
}

/// What is left to do after the browser has closed.
pub enum Outcome {
    Nothing,
    /// Resume the session with the id in a directory (none where it is empty),
    /// with or without asking for permissions.
    Resume { id: String, cwd: String, skip_permissions: bool },
    /// Copy a text to the clipboard.
    Copy(String),
    /// Print a text.
    Print(String),
}

/// The session that an action is about, by its position among the sessions.
pub open spec fn target(app: App, action: AppAction) -> Option<int> {
    match action {
        AppAction::Launch(i) | AppAction::LaunchDangerously(i) | AppAction::Yank(i)
        | AppAction::Print(i) => app.listed(i as int),
        _ => None,
    }
}

/// What is left to do after the browser has closed, where `program` is the
/// command of the assistant whose sessions they are.
pub fn outcome(app: &App, program: &str) -> (r: Outcome)
    requires
        app.wf(),
    ensures
        match target(*app, app.action) {
            Some(i) => {
                let s = app.sessions@[i]@;
                match app.action {
                    AppAction::Launch(_) => {
                        &&& r matches Outcome::Resume { id, cwd, skip_permissions }
                        &&& id@ == s.id
                        &&& cwd@ == s.cwd
                        &&& !skip_permissions
                    },
                    AppAction::LaunchDangerously(_) => {
                        &&& r matches Outcome::Resume { id, cwd, skip_permissions }
                        &&& id@ == s.id
                        &&& cwd@ == s.cwd
                        &&& skip_permissions
                    },
                    AppAction::Yank(_) => r matches Outcome::Copy(t) && t@ == program@
                        + " --resume "@ + s.id,
                    _ => r matches Outcome::Print(t) && t@ == s.id,
                }
            },
            None => r is Nothing,
        },
{
    match app.action {
        AppAction::Launch(i) => match app.listed_session(i) {
            Some(s) => Outcome::Resume {
                id: s.id.clone(),
                cwd: s.cwd.clone(),
                skip_permissions: false,
            },
            None => Outcome::Nothing,
        },
        AppAction::LaunchDangerously(i) => match app.listed_session(i) {
            Some(s) => Outcome::Resume {
                id: s.id.clone(),
                cwd: s.cwd.clone(),
                skip_permissions: true,
            },
            None => Outcome::Nothing,
        },
        AppAction::Yank(i) => match app.listed_session(i) {
            Some(s) => {
                let mut command = program.to_owned();
                command.append(" --resume ");
                command.append(s.id.as_str());
                Outcome::Copy(command)
            },
            None => Outcome::Nothing,
        },
        AppAction::Print(i) => match app.listed_session(i) {
            Some(s) => Outcome::Print(s.id.clone()),
            None => Outcome::Nothing,
        },
        _ => Outcome::Nothing,
    }
}

/// A purge never touches a session that is large or not older than two days.
pub proof fn purge_spares_the_rest(sessions: Seq<SessionView>, now: i64, i: int)
    requires
        0 <= i < sessions.len() <= usize::MAX,
    ensures
        purged(sessions, now).contains(i as usize) <==> is_purged(sessions[i], now),
    decreases sessions.len(),
{
    let front = sessions.drop_last();
    let rest = purged(front, now);
    let all = purged(sessions, now);
    purged_within(front, now);
    if i < front.len() {
        purge_spares_the_rest(front, now, i);
        assert(front[i] == sessions[i]);
        if rest.contains(i as usize) {
            let k = choose|k: int| 0 <= k < rest.len() && rest[k] == i as usize;
            assert(all[k] == i as usize);
        }
        if all.contains(i as usize) {
            let k = choose|k: int| 0 <= k < all.len() && all[k] == i as usize;
            assert(k < rest.len());
            assert(rest[k] == i as usize);
        }
    } else {
        if is_purged(sessions[i], now) {
            assert(all[rest.len() as int] == i as usize);
        } else if all.contains(i as usize) {
            let k = choose|k: int| 0 <= k < all.len() && all[k] == i as usize;
            assert(rest[k] == i as usize);
        }
    }
}

/// The positions of the sessions to purge are positions of sessions.
proof fn purged_within(sessions: Seq<SessionView>, now: i64)
    requires
        sessions.len() <= usize::MAX,
    ensures
        forall|k: int|
            0 <= k < purged(sessions, now).len() ==> (#[trigger] purged(sessions, now)[k])
                < sessions.len(),
    decreases sessions.len(),
{
    if sessions.len() > 0 {
        let rest = purged(sessions.drop_last(), now);
        purged_within(sessions.drop_last(), now);
        assert forall|k: int| 0 <= k < purged(sessions, now).len() implies (#[trigger] purged(
            sessions,
            now,
        )[k]) < sessions.len() by {
            if k < rest.len() {
                assert(purged(sessions, now)[k] == rest[k]);
            }
        }
    }
}

/// Filtering sessions is done session by session, and keeps their order.
pub proof fn filters_go_session_by_session(
    x: Seq<SessionView>,
    y: Seq<SessionView>,
    keep: spec_fn(SessionView) -> bool,
)
    ensures
        kept(x + y, keep) == kept(x, keep) + kept(y, keep),
    decreases y.len(),
{
    if y.len() == 0 {
        assert(x + y =~= x);
        assert(kept(x, keep) + kept(y, keep) =~= kept(x, keep));
    } else {
        filters_go_session_by_session(x, y.drop_last(), keep);
        assert((x + y).drop_last() =~= x + y.drop_last());
        assert(kept(x + y, keep) =~= kept(x, keep) + kept(y, keep));
    }
}

proof fn one_is_kept_or_not(s: SessionView, keep: spec_fn(SessionView) -> bool)
    ensures
        keep(s) ==> kept(seq![s], keep) == seq![s],
        !keep(s) ==> kept(seq![s], keep) == Seq::<SessionView>::empty(),
{
    assert(seq![s].drop_last() =~= Seq::<SessionView>::empty());
    assert(kept(Seq::empty(), keep) == Seq::<SessionView>::empty());
    if keep(s) {
        assert(kept(seq![s], keep) =~= seq![s]);
    }
}

/// `--project` keeps a session wherever the filter stands in the name of its
/// project, at its start, in its middle or at its end, and in whichever case.
pub proof fn project_filter_finds_any_part(
    x: Seq<SessionView>,
    s: SessionView,
    y: Seq<SessionView>,
    filter: Seq<char>,
    a: Seq<char>,
    b: Seq<char>,
)
    requires
        text::lowercase(s.project) == a + text::lowercase(filter) + b,
    ensures
        kept(x.push(s) + y, of_project(filter)) == kept(x, of_project(filter)).push(s) + kept(
            y,
            of_project(filter),
        ),
{
    let keep = of_project(filter);
    text::infix_is_found(a, text::lowercase(filter), b);
    assert(keep(s));
    one_is_kept_or_not(s, keep);
    filters_go_session_by_session(x, seq![s], keep);
    filters_go_session_by_session(x + seq![s], y, keep);
    assert(x.push(s) =~= x + seq![s]);
    assert(kept(x, keep) + seq![s] =~= kept(x, keep).push(s));
}

/// `--project` drops a session where the filter stands nowhere in the name of its
/// project.
pub proof fn project_filter_drops_the_rest(
    x: Seq<SessionView>,
    s: SessionView,
    y: Seq<SessionView>,
    filter: Seq<char>,
)
    requires
        forall|a: Seq<char>, b: Seq<char>|
            text::lowercase(s.project) != #[trigger] (a + text::lowercase(filter) + b),
    ensures
        kept(x.push(s) + y, of_project(filter)) == kept(x + y, of_project(filter)),
{
    let keep = of_project(filter);
    if keep(s) {
        text::found_is_infix(text::lowercase(s.project), text::lowercase(filter));
    }
    one_is_kept_or_not(s, keep);
    filters_go_session_by_session(x, seq![s], keep);
    filters_go_session_by_session(x + seq![s], y, keep);
    filters_go_session_by_session(x, y, keep);
    assert(x.push(s) =~= x + seq![s]);
    assert(kept(x, keep) + Seq::<SessionView>::empty() =~= kept(x, keep));
}

/// `--recent` keeps exactly the sessions that are at most so many seconds old.
pub proof fn recent_filter_keeps_the_young(
    x: Seq<SessionView>,
    s: SessionView,
    y: Seq<SessionView>,
    now: i64,
    secs: u64,
)
    ensures
        now - s.timestamp <= secs ==> kept(x.push(s) + y, of_last(now, secs)) == kept(
            x,
            of_last(now, secs),
        ).push(s) + kept(y, of_last(now, secs)),
        now - s.timestamp > secs ==> kept(x.push(s) + y, of_last(now, secs)) == kept(
            x + y,
            of_last(now, secs),
        ),
{
    let keep = of_last(now, secs);
    one_is_kept_or_not(s, keep);
    filters_go_session_by_session(x, seq![s], keep);
    filters_go_session_by_session(x + seq![s], y, keep);
    filters_go_session_by_session(x, y, keep);
    assert(x.push(s) =~= x + seq![s]);
    assert(kept(x, keep) + seq![s] =~= kept(x, keep).push(s));
    assert(kept(x, keep) + Seq::<SessionView>::empty() =~= kept(x, keep));
}

/// `--purge` takes exactly the sessions of less than 15 KB that are more than two
/// days old.
pub proof fn purge_takes_small_old_sessions(sessions: Seq<SessionView>, now: i64, i: int)
    requires
        0 <= i < sessions.len() <= usize::MAX,
    ensures
        purged(sessions, now).contains(i as usize) <==> sessions[i].file_size < 15360 && now
            - sessions[i].timestamp > 172800,
{
    purge_spares_the_rest(sessions, now, i);
}

/// Sessions in order of recency are the same sessions, none of them twice, and no
/// older one stands before a newer one.
pub proof fn recency_keeps_every_session(sessions: Seq<SessionView>, order: Seq<usize>, i: int)
    requires
        is_permutation(order, sessions.len()),
        newest_first(sessions, order),
        0 <= i < sessions.len() <= usize::MAX,
    ensures
        order.contains(i as usize),
        ordered(sessions, order).len() == sessions.len(),
        forall|p: int, q: int|
            0 <= p < q < order.len() ==> (#[trigger] ordered(sessions, order)[p]).timestamp >= (
            #[trigger] ordered(sessions, order)[q]).timestamp,
        forall|p: int, q: int|
            0 <= p < q < order.len() && sessions[order[p] as int].timestamp
                == sessions[order[q] as int].timestamp ==> (#[trigger] order[p]) < (
            #[trigger] order[q]),
{
    let n = sessions.len() as int;
    assert(order.contains(i as usize)) by {
        if !order.contains(i as usize) {
            let numbers = order.map_values(|x: usize| x as int);
            assert(numbers.no_duplicates()) by {
                assert forall|p: int, q: int|
                    0 <= p < numbers.len() && 0 <= q < numbers.len() && p != q implies numbers[p]
                    != numbers[q] by {
                    assert(order[p] != order[q]);
                }
            }
            let range = vstd::set_lib::set_int_range(0, n);
            vstd::set_lib::lemma_int_range(0, n);
            numbers.unique_seq_to_set();
            assert(numbers.to_set().subset_of(range.remove(i))) by {
                assert forall|x: int| numbers.to_set().contains(x) implies range.remove(
                    i,
                ).contains(x) by {
                    let p = choose|p: int| 0 <= p < numbers.len() && numbers[p] == x;
                    assert(order[p] < n);
                    assert(order[p] != i as usize);
                }
            }
            vstd::set_lib::lemma_len_subset(numbers.to_set(), range.remove(i));
        }
    }
    assert forall|p: int, q: int| 0 <= p < q < order.len() implies (#[trigger] ordered(
        sessions,
        order,
    )[p]).timestamp >= (#[trigger] ordered(sessions, order)[q]).timestamp by {
        assert(order[p] < n && order[q] < n);
    }
}

/// What is done after the browser has closed is done with the session that stood at the
/// chosen position of the list.
pub proof fn outcomes_are_about_the_chosen_session(
    app: App,
    program: &str,
    r: Outcome,
    at: usize,
    s: SessionMeta,
)
    requires
        call_ensures(outcome, (&app, program), r),
        at < app.filtered_indices@.len(),
        s == app.sessions@[app.filtered_indices@[at as int] as int],
    ensures
        app.action == AppAction::Launch(at) ==> r is Resume && r->id@ == s.id@ && r->cwd@ == s.cwd@
            && !r->skip_permissions,
        app.action == AppAction::LaunchDangerously(at) ==> r is Resume && r->id@ == s.id@
            && r->cwd@ == s.cwd@ && r->skip_permissions,
        app.action == AppAction::Yank(at) ==> r is Copy && r->Copy_0@ == program@ + " --resume "@
            + s.id@,
        app.action == AppAction::Print(at) ==> r is Print && r->Print_0@ == s.id@,
        app.action == AppAction::Quit || app.action == AppAction::Stay ==> r is Nothing,
{
}

/// A browser opens on all sessions if that is asked for or configured, and else on those
/// of the directory it was launched in.
pub proof fn browsers_open_as_asked(
    sessions: Vec<SessionMeta>,
    print_mode: bool,
    bookmarks: StringSet,
    text_cache: TextCache,
    cwd: &str,
    all: bool,
    config: &Config,
    r: App,
)
    requires
        call_ensures(
            open_browser,
            (sessions, print_mode, bookmarks, text_cache, cwd, all, config),
            r,
        ),
    ensures
        r.sessions == sessions,
        r.selected == 0,
        all ==> r.scope == Scope::All,
        config.scope@ == "all"@ ==> r.scope == Scope::All,
        !all && config.scope@ == "current"@ ==> r.scope == Scope::Current,
        text::lowercase(config.sort@) == "date"@ ==> r.sort_mode == app::SortMode::Date,
        text::lowercase(config.sort@) == "size"@ ==> r.sort_mode == app::SortMode::Size,
        text::lowercase(config.sort@) == "duration"@ ==> r.sort_mode == app::SortMode::Duration,
        text::lowercase(config.sort@) == "messages"@ ==> r.sort_mode == app::SortMode::Messages,
        r.show_tools == config.show_tool_activity,
        r.print_mode == print_mode,
{
    reveal_strlit("all");
    reveal_strlit("current");
    reveal_strlit("date");
    reveal_strlit("size");
    reveal_strlit("duration");
    reveal_strlit("messages");
    assert(text::ascii_uppercase("all"@).len() == 3);
    assert(text::ascii_uppercase("current"@).len() == 7);
    assert("date"@.len() == 4 && "date"@[0] == 'd' && "size"@[0] == 's');
    config::orders_are_named("date"@);
}

} // verus!
