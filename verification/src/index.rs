//! The index of all sessions: what is kept of each, what is reused from the
//! index before, and how the index is stored.

use crate::scan;
use crate::scan::ScanResult;
use crate::session;
use crate::session::{extract_project_name, SessionMeta, SessionView};
use crate::string_set;
use crate::text;
use crate::text_cache;
use crate::text_cache::TextCache;
use crate::ticket;
use vstd::prelude::*;

verus! {

/// The version of the stored form of an index.
pub const INDEX_VERSION: u32 = 4;

/// An index of sessions.
#[derive(Debug)]
pub struct SessionIndex {
    pub version: u32,
    pub sessions: Vec<SessionMeta>,
}

/// An index, over texts.
#[verifier::ext_equal]
pub struct IndexView {
    pub version: u32,
    pub sessions: Seq<SessionView>,
}

impl View for SessionIndex {
    type V = IndexView;

    open spec fn view(&self) -> IndexView {
        IndexView { version: self.version, sessions: session::sessions_view(self.sessions@) }
    }
}

impl SessionIndex {
    /// The index of no session at all.
    pub fn empty() -> (r: SessionIndex)
        ensures
            r@ == (IndexView { version: INDEX_VERSION, sessions: Seq::empty() }),
    {
        let r = SessionIndex { version: INDEX_VERSION, sessions: Vec::new() };
        assert(r@.sessions =~= Seq::empty());
        r
    }
}

/// The seconds since the epoch of the instant that an RFC 3339 text tells.
pub uninterp spec fn rfc3339_seconds(s: Seq<char>) -> Option<i64>;

/// `chrono::DateTime::parse_from_rfc3339` reads an instant, if the text is one;
/// `timestamp` of it counts its seconds since the epoch. Both depend on the
/// text alone.
#[verifier::external_body]
fn seconds_of(s: &str) -> (r: Option<i64>)
    ensures
        r == rfc3339_seconds(s@),
{
    chrono::DateTime::parse_from_rfc3339(s).ok().map(|t| t.timestamp())
}

/// The seconds from one instant to a later one; 0 where there are none.
pub open spec fn seconds_between(first: Option<i64>, last: Option<i64>) -> int {
    match (first, last) {
        (Some(a), Some(b)) => if b >= a {
            b - a
        } else {
            0
        },
        _ => 0,
    }
}

/// The seconds from one instant to a later one; 0 where there are none.
pub fn elapsed(first: Option<i64>, last: Option<i64>) -> (r: u64)
    ensures
        r == seconds_between(first, last),
{
    match (first, last) {
        (Some(a), Some(b)) => if b >= a {
            (b as i128 - a as i128) as u64
        } else {
            0
        },
        _ => 0,
    }
}

/// The seconds between two RFC 3339 times; 0 where one cannot be read, or the
/// second comes first.
pub fn compute_duration(first: &str, last: &str) -> (r: u64)
    ensures
        r == seconds_between(rfc3339_seconds(first@), rfc3339_seconds(last@)),
{
    elapsed(seconds_of(first), seconds_of(last))
}

/// What the file system tells of a session's file.
#[derive(Debug)]
pub struct SessionFile {
    /// The file name without its extension.
    pub id: String,
    pub path: String,
    pub size: u64,
    /// When the file was last modified, in seconds since the epoch.
    pub mtime: i64,
}

/// The name of a session: the generated title, or else what it was renamed to,
/// or else its slug.
pub open spec fn session_name(
    ai_title: Seq<char>,
    rename: Seq<char>,
    slug: Seq<char>,
) -> Seq<char> {
    if ai_title.len() > 0 {
        ai_title
    } else if rename.len() > 0 {
        rename
    } else {
        slug
    }
}

/// The branch to show: none for a detached head.
pub open spec fn shown_branch(branch: Seq<char>) -> Seq<char> {
    if branch == "HEAD"@ {
        Seq::empty()
    } else {
        branch
    }
}

/// The time that a session took, as its entries tell.
pub open spec fn session_duration(first: Seq<char>, tail: Option<Seq<char>>) -> int {
    match tail {
        Some(last) => seconds_between(rfc3339_seconds(first), rfc3339_seconds(last)),
        None => 0,
    }
}

/// The metadata of the session in `file`, from a scan of it.
pub open spec fn described(file: SessionFile, scan: ScanResult, home: Seq<char>) -> SessionView {
    let rename = match scan.tail {
        Some(t) => t.rename@,
        None => Seq::empty(),
    };
    let name = session_name(scan.ai_title@, rename, scan.head.slug@);
    let project = session::project_name(scan.head.cwd@, home);
    let branch = shown_branch(scan.head.branch@);
    SessionView {
        id: file.id@,
        project,
        branch,
        name,
        title: scan.head.title@,
        last_message: match scan.tail {
            Some(t) => t.last_human_message@,
            None => Seq::empty(),
        },
        duration_secs: session_duration(
            scan.head.first_timestamp@,
            match scan.tail {
                Some(t) => Some(t.last_timestamp@),
                None => None,
            },
        ) as u64,
        timestamp: file.mtime,
        file_size: file.size,
        file_mtime: file.mtime,
        file_path: file.path@,
        cwd: scan.head.cwd@,
        message_count: scan.message_count,
        tickets: text::views(scan.tickets@),
        text_offset: 0,
        text_len: (vstd::utf8::encode_utf8(scan.search_text_lc@).len() % 0x1_0000_0000) as u32,
        name_lc: text::lowercase(name),
        title_lc: text::lowercase(scan.head.title@),
        project_lc: text::lowercase(project),
        branch_lc: text::lowercase(branch),
        permission_mode: scan.permission_mode@,
        cc_version: scan.cc_version@,
        skills: text::views(scan.skills@),
        changed_files: text::views(scan.changed_files@),
        changed_files_lc: text::lowercase(text::lines(text::views(scan.changed_files@))),
    }
}

/// The metadata of the session in `file` from a scan of it, and its searchable
/// text. Where that lies in the text cache is settled later.
pub fn describe(file: SessionFile, scan: ScanResult, home_dir: &str) -> (r: (SessionMeta, Vec<u8>))
    ensures
        r.0@ == described(file, scan, home_dir@),
        r.1@ == vstd::utf8::encode_utf8(scan.search_text_lc@),
{
    let project = extract_project_name(scan.head.cwd.as_str(), home_dir);
    let (last_message, duration_secs, rename) = match scan.tail {
        Some(tail) => {
            let duration = compute_duration(
                scan.head.first_timestamp.as_str(),
                tail.last_timestamp.as_str(),
            );
            (tail.last_human_message, duration, tail.rename)
        },
        None => (String::new(), 0u64, String::new()),
    };
    let name = if !scan.ai_title.as_str().is_empty() {
        scan.ai_title
    } else if !rename.as_str().is_empty() {
        rename
    } else {
        scan.head.slug
    };
    let branch = if text::text_eq(scan.head.branch.as_str(), "HEAD") {
        String::new()
    } else {
        scan.head.branch
    };
    let bytes = scan.search_text_lc.as_str().as_bytes_vec();
    let n: u64 = bytes.len() as u64;
    let cut = n as u32;
    assert(cut == n % 0x1_0000_0000) by (bit_vector)
        requires
            cut == n as u32,
    ;
    let changed_files_lc = text::lines_joined(&scan.changed_files).as_str().to_lowercase();
    let meta = SessionMeta {
        id: file.id,
        name_lc: name.as_str().to_lowercase(),
        title_lc: scan.head.title.as_str().to_lowercase(),
        project_lc: project.as_str().to_lowercase(),
        branch_lc: branch.as_str().to_lowercase(),
        project,
        branch,
        name,
        title: scan.head.title,
        last_message,
        duration_secs,
        timestamp: file.mtime,
        file_size: file.size,
        file_mtime: file.mtime,
        file_path: file.path,
        cwd: scan.head.cwd,
        message_count: scan.message_count,
        tickets: scan.tickets,
        text_offset: 0,
        text_len: cut,
        permission_mode: scan.permission_mode,
        cc_version: scan.cc_version,
        skills: scan.skills,
        changed_files: scan.changed_files,
        changed_files_lc,
    };
    (meta, bytes)
}

/// Whether `m` and `bytes` are the metadata and the searchable text of the
/// session in `file` with the given lines.
pub open spec fn is_session_of(
    m: SessionView,
    bytes: Seq<u8>,
    file: SessionFile,
    lines: Seq<Seq<char>>,
    home: Seq<char>,
) -> bool {
    exists|s: ScanResult|
        {
            &&& s.tells(scan::entries(lines))
            &&& string_set::ascending(text::views(s.tickets@))
            &&& text::views(s.tickets@).to_set() == ticket::tickets_in_lines(lines)
            &&& m == #[trigger] described(file, s, home)
            &&& bytes == vstd::utf8::encode_utf8(s.search_text_lc@)
        }
}

/// The metadata and the searchable text of the session in `file`, unless
/// nobody wrote anything in it and no command ran.
pub fn scan_session_file(file: SessionFile, contents: &[u8], home_dir: &str) -> (r: Option<
    (SessionMeta, Vec<u8>),
>)
    ensures
        match r {
            Some((m, bytes)) => is_session_of(
                m@,
                bytes@,
                file,
                scan::file_lines(contents@),
                home_dir@,
            ),
            None => scan::head(scan::entries(scan::file_lines(contents@))) is None,
        },
{
    let lines = scan::lines_of(contents);
    match scan::scan_session(&lines) {
        Some(result) => {
            let ghost s = result;
            let ghost f = file;
            let r = describe(file, result, home_dir);
            assert(r.0@ == described(f, s, home_dir@));
            Some(r)
        },
        None => None,
    }
}

/// The last session of a list that lies at `path`.
pub open spec fn at_path(sessions: Seq<SessionView>, path: Seq<char>) -> Option<SessionView>
    decreases sessions.len(),
{
    if sessions.len() == 0 {
        None
    } else if sessions.last().file_path == path {
        Some(sessions.last())
    } else {
        at_path(sessions.drop_last(), path)
    }
}

/// The session to reuse for a file from the sessions indexed before: the one at
/// its path, if neither its time nor its size has changed. Its text is taken
/// from the text cache, and its place there is settled anew.
pub open spec fn unchanged(
    before: Seq<SessionView>,
    path: Seq<char>,
    mtime: i64,
    size: u64,
) -> Option<SessionView> {
    match at_path(before, path) {
        Some(s) => if s.file_mtime == mtime && s.file_size == size {
            Some(s)
        } else {
            None
        },
        None => None,
    }
}

/// The sessions of an index that may be reused.
pub open spec fn reusable(cached: Option<SessionIndex>, force_rebuild: bool) -> Seq<SessionView> {
    match cached {
        Some(index) => if force_rebuild {
            Seq::empty()
        } else {
            index@.sessions
        },
        None => Seq::empty(),
    }
}

/// What is reused for the file at `path` from the index and the text cache of
/// before; `None` where the file has to be scanned.
pub fn reuse_session(
    cached: &Option<SessionIndex>,
    force_rebuild: bool,
    prev_text: &TextCache,
    path: &str,
    mtime: i64,
    size: u64,
) -> (r: Option<(SessionMeta, Vec<u8>)>)
    ensures
        match unchanged(reusable(*cached, force_rebuild), path@, mtime, size) {
            Some(s) => {
                &&& r matches Some((m, bytes))
                &&& m@ == (SessionView { text_offset: 0, ..s })
                &&& bytes@ == text_cache::piece(prev_text@, s.text_offset, s.text_len)
            },
            None => r is None,
        },
{
    if force_rebuild {
        return None;
    }
    let index = match cached {
        Some(index) => index,
        None => {
            return None;
        },
    };
    let ghost all = index@.sessions;
    assert(all.take(all.len() as int) =~= all);
    let mut i: usize = index.sessions.len();
    while i > 0
        invariant
            i <= index.sessions@.len(),
            all == index@.sessions,
            all == reusable(*cached, force_rebuild),
            at_path(all, path@) == at_path(all.take(i as int), path@),
        decreases i,
    {
        i -= 1;
        let s = &index.sessions[i];
        assert(all.take(i + 1).drop_last() =~= all.take(i as int));
        if text::text_eq(s.file_path.as_str(), path) {
            if s.file_mtime == mtime && s.file_size == size {
                let mut m = s.clone();
                m.text_offset = 0;
                let bytes = vstd::slice::slice_to_vec(
                    prev_text.slice(s.text_offset, s.text_len),
                );
                assert(m@ =~= (SessionView { text_offset: 0, ..s@ }));
                return Some((m, bytes));
            }
            return None;
        }
    }
    None
}

/// The texts of scanned sessions.
pub open spec fn texts(scanned: Seq<(SessionMeta, Vec<u8>)>) -> Seq<Seq<u8>> {
    Seq::new(scanned.len(), |i: int| scanned[i].1@)
}

/// Scanned sessions, each with the place of its text in the text cache.
pub open spec fn placed(scanned: Seq<(SessionMeta, Vec<u8>)>) -> Seq<SessionView> {
    Seq::new(
        scanned.len(),
        |i: int|
            SessionView {
                text_offset: text_cache::place(texts(scanned), i).0,
                text_len: text_cache::place(texts(scanned), i).1,
                ..scanned[i].0@
            },
    )
}

/// The contents of the text cache for the scanned sessions, and the index of
/// them. Where the contents cannot be written, the index is not of use and the
/// empty one takes its place, so that the next launch retries.
pub fn build_index(scanned: Vec<(SessionMeta, Vec<u8>)>) -> (r: (Vec<u8>, SessionIndex))
    ensures
        r.0@ == text_cache::joined(texts(scanned@)),
        r.1@ == (IndexView { version: INDEX_VERSION, sessions: placed(scanned@) }),
{
    let ghost all = scanned@;
    let mut chunks: Vec<Vec<u8>> = Vec::new();
    let mut metas: Vec<SessionMeta> = Vec::new();
    for pair in it: scanned.into_iter()
        invariant
            it.seq() == all,
            metas@ == Seq::new(it.index() as nat, |i: int| all[i].0),
            chunks@ == Seq::new(it.index() as nat, |i: int| all[i].1),
    {
        let ghost k = it.index();
        metas.push(pair.0);
        chunks.push(pair.1);
        assert(metas@ =~= Seq::new((k + 1) as nat, |i: int| all[i].0));
        assert(chunks@ =~= Seq::new((k + 1) as nat, |i: int| all[i].1));
    }
    assert(text_cache::chunk_views(chunks@) =~= texts(all));
    let (contents, places) = text_cache::write_text_cache(&chunks);
    let mut sessions: Vec<SessionMeta> = Vec::new();
    let ghost first = metas@;
    for m in it: metas.into_iter()
        invariant
            it.seq() == first,
            first == Seq::new(all.len(), |i: int| all[i].0),
            places@ == Seq::new(all.len(), |i: int| text_cache::place(texts(all), i)),
            sessions@.len() == it.index(),
            session::sessions_view(sessions@) == placed(all).take(it.index() as int),
    {
        let ghost before = session::sessions_view(sessions@);
        let ghost i = it.index() as int;
        let mut m = m;
        let (offset, len) = places[sessions.len()];
        m.text_offset = offset;
        m.text_len = len;
        assert(m@ =~= placed(all)[i]);
        sessions.push(m);
        assert(session::sessions_view(sessions@) =~= before.push(m@));
        assert(placed(all).take(i + 1) =~= placed(all).take(i).push(placed(all)[i]));
    }
    assert(placed(all).take(all.len() as int) =~= placed(all));
    (contents, SessionIndex { version: INDEX_VERSION, sessions })
}

/// A freshly built index finds the text of every session in the text cache
/// that was built with it, unless the text is longer than 32 bits can tell.
pub proof fn indexed_text_is_found(scanned: Seq<(SessionMeta, Vec<u8>)>, i: int)
    requires
        0 <= i < scanned.len(),
        scanned[i].1@.len() <= u32::MAX,
        text_cache::joined(texts(scanned)).len() <= usize::MAX,
    ensures
        text_cache::piece(
            text_cache::joined(texts(scanned)),
            placed(scanned)[i].text_offset,
            placed(scanned)[i].text_len,
        ) == scanned[i].1@,
{
    text_cache::piece_at_place_is_chunk(texts(scanned), i);
}

/// A session whose file has not changed is reused with its old metadata and
/// text when the index is built again: what is read back is what was scanned.
pub proof fn unchanged_session_is_kept(scanned: Seq<(SessionMeta, Vec<u8>)>, i: int)
    requires
        0 <= i < scanned.len(),
        scanned[i].1@.len() <= u32::MAX,
        text_cache::joined(texts(scanned)).len() <= usize::MAX,
        forall|k: int|
            0 <= k < scanned.len() && k != i ==> (#[trigger] scanned[k]).0.file_path@
                != scanned[i].0.file_path@,
    ensures
        ({
            let s = scanned[i].0@;
            let kept = unchanged(placed(scanned), s.file_path, s.file_mtime, s.file_size);
            &&& kept is Some
            &&& (SessionView {
                text_offset: s.text_offset,
                text_len: s.text_len,
                ..kept->0
            }) == s
            &&& text_cache::piece(
                text_cache::joined(texts(scanned)),
                kept->0.text_offset,
                kept->0.text_len,
            ) == scanned[i].1@
        }),
{
    indexed_text_is_found(scanned, i);
    at_path_is(placed(scanned), scanned.len() as int, i);
    assert(placed(scanned).take(scanned.len() as int) =~= placed(scanned));
}

/// The only session at a path is the one found there.
proof fn at_path_is(sessions: Seq<SessionView>, n: int, i: int)
    requires
        0 <= i < n <= sessions.len(),
        forall|k: int|
            0 <= k < sessions.len() && k != i ==> (#[trigger] sessions[k]).file_path
                != sessions[i].file_path,
    ensures
        at_path(sessions.take(n), sessions[i].file_path) == Some(sessions[i]),
    decreases n,
{
    assert(sessions.take(n).last() == sessions[n - 1]);
    if n - 1 != i {
        at_path_is(sessions, n - 1, i);
        assert(sessions.take(n).drop_last() =~= sessions.take(n - 1));
    }
}

/// The fields of a session in the order in which they are stored.
pub type Row = (
    (String, String, String, String, String, String),
    (u64, i64, u64, i64),
    (String, String, u32, Vec<String>, u64, u32),
    (String, String, String, String),
    (String, String, Vec<String>, Vec<String>, String),
);

/// The session that a row holds.
pub open spec fn row_view(row: Row) -> SessionView {
    let (g0, g1, g2, g3, g4) = row;
    let (id, project, branch, name, title, last_message) = g0;
    let (duration_secs, timestamp, file_size, file_mtime) = g1;
    let (file_path, cwd, message_count, tickets, text_offset, text_len) = g2;
    let (name_lc, title_lc, project_lc, branch_lc) = g3;
    let (permission_mode, cc_version, skills, changed_files, changed_files_lc) = g4;
    SessionView {
        id: id@,
        project: project@,
        branch: branch@,
        name: name@,
        title: title@,
        last_message: last_message@,
        duration_secs,
        timestamp,
        file_size,
        file_mtime,
        file_path: file_path@,
        cwd: cwd@,
        message_count,
        tickets: text::views(tickets@),
        text_offset,
        text_len,
        name_lc: name_lc@,
        title_lc: title_lc@,
        project_lc: project_lc@,
        branch_lc: branch_lc@,
        permission_mode: permission_mode@,
        cc_version: cc_version@,
        skills: text::views(skills@),
        changed_files: text::views(changed_files@),
        changed_files_lc: changed_files_lc@,
    }
}

/// The sessions that rows hold.
pub open spec fn row_views(rows: Seq<Row>) -> Seq<SessionView> {
    Seq::new(rows.len(), |i: int| row_view(rows[i]))
}

/// The row of a session.
fn row_of(m: &SessionMeta) -> (r: Row)
    ensures
        row_view(r) == m@,
{
    (
        (
            m.id.clone(),
            m.project.clone(),
            m.branch.clone(),
            m.name.clone(),
            m.title.clone(),
            m.last_message.clone(),
        ),
        (
            m.duration_secs,
            m.timestamp,
            m.file_size,
            m.file_mtime,
        ),
        (
            m.file_path.clone(),
            m.cwd.clone(),
            m.message_count,
            text::copied(&m.tickets),
            m.text_offset,
            m.text_len,
        ),
        (
            m.name_lc.clone(),
            m.title_lc.clone(),
            m.project_lc.clone(),
            m.branch_lc.clone(),
        ),
        (
            m.permission_mode.clone(),
            m.cc_version.clone(),
            text::copied(&m.skills),
            text::copied(&m.changed_files),
            m.changed_files_lc.clone(),
        ),
    )
}

/// The session of a row.
fn meta_of(row: Row) -> (r: SessionMeta)
    ensures
        r@ == row_view(row),
{
    let (g0, g1, g2, g3, g4) = row;
    let (id, project, branch, name, title, last_message) = g0;
    let (duration_secs, timestamp, file_size, file_mtime) = g1;
    let (file_path, cwd, message_count, tickets, text_offset, text_len) = g2;
    let (name_lc, title_lc, project_lc, branch_lc) = g3;
    let (permission_mode, cc_version, skills, changed_files, changed_files_lc) = g4;
    SessionMeta {
        id,
        project,
        branch,
        name,
        title,
        last_message,
        duration_secs,
        timestamp,
        file_size,
        file_mtime,
        file_path,
        cwd,
        message_count,
        tickets,
        text_offset,
        text_len,
        name_lc,
        title_lc,
        project_lc,
        branch_lc,
        permission_mode,
        cc_version,
        skills,
        changed_files,
        changed_files_lc,
    }
}

/// The bytes that `bincode::serialize` writes for an index.
pub uninterp spec fn index_bytes(version: u32, sessions: Seq<SessionView>) -> Seq<u8>;

/// The version and the sessions that `bincode::deserialize` reads, if any.
pub uninterp spec fn index_content(bytes: Seq<u8>) -> Option<(u32, Seq<SessionView>)>;

/// `bincode::serialize` in its default configuration writes numbers, texts and
/// lists of them without a limit and without failing; what it writes depends
/// on the values alone, and `bincode::deserialize` reads the same values back.
#[verifier::external_body]
fn encode_rows(version: u32, rows: &Vec<Row>) -> (r: Vec<u8>)
    ensures
        r@ == index_bytes(version, row_views(rows@)),
        index_content(r@) == Some((version, row_views(rows@))),
{
    bincode::serialize(&(version, rows)).unwrap_or_default()
}

/// `bincode::deserialize` in its default configuration reads values back; what
/// it reads, and whether it fails, depends on the bytes alone.
#[verifier::external_body]
fn decode_rows(bytes: &[u8]) -> (r: Option<(u32, Vec<Row>)>)
    ensures
        match r {
            Some((version, rows)) => index_content(bytes@) == Some((version, row_views(rows@))),
            None => index_content(bytes@) is None,
        },
{
    bincode::deserialize(bytes).ok()
}

/// The index to take from what was stored: none of another version.
pub open spec fn current(content: Option<(u32, Seq<SessionView>)>) -> Option<IndexView> {
    match content {
        Some((version, sessions)) => if version == INDEX_VERSION {
            Some(IndexView { version, sessions })
        } else {
            None
        },
        None => None,
    }
}

/// The stored form of an index. Reading it gives the index back, if it is of
/// the current version.
pub fn serialize_index(index: &SessionIndex) -> (r: Vec<u8>)
    ensures
        r@ == index_bytes(index.version, index@.sessions),
        current(index_content(r@)) == if index.version == INDEX_VERSION {
            Some(index@)
        } else {
            None
        },
{
    let mut rows: Vec<Row> = Vec::new();
    let mut i: usize = 0;
    while i < index.sessions.len()
        invariant
            i <= index.sessions@.len(),
            row_views(rows@) == index@.sessions.take(i as int),
        decreases index.sessions@.len() - i,
    {
        let ghost before = row_views(rows@);
        let row = row_of(&index.sessions[i]);
        let ghost v = row_view(row);
        rows.push(row);
        assert(row_views(rows@) =~= before.push(v));
        assert(index@.sessions.take(i + 1) =~= index@.sessions.take(i as int).push(v));
        i += 1;
    }
    assert(index@.sessions.take(i as int) =~= index@.sessions);
    encode_rows(index.version, &rows)
}

/// The index of stored rows, if it is of the current version.
pub fn current_index(stored: Option<(u32, Vec<Row>)>) -> (r: Option<SessionIndex>)
    ensures
        match r {
            Some(index) => stored matches Some((version, rows)) && current(
                Some((version, row_views(rows@))),
            ) == Some(index@),
            None => stored matches Some((version, rows)) ==> version != INDEX_VERSION,
        },
{
    match stored {
        Some((version, rows)) => {
            if version != INDEX_VERSION {
                return None;
            }
            let ghost all = rows@;
            let mut sessions: Vec<SessionMeta> = Vec::new();
            for row in it: rows.into_iter()
                invariant
                    it.seq() == all,
                    session::sessions_view(sessions@) == row_views(all).take(it.index() as int),
            {
                let ghost before = session::sessions_view(sessions@);
                let ghost i = it.index() as int;
                let m = meta_of(row);
                sessions.push(m);
                assert(session::sessions_view(sessions@) =~= before.push(m@));
                assert(row_views(all).take(i + 1) =~= row_views(all).take(i).push(m@));
            }
            assert(row_views(all).take(all.len() as int) =~= row_views(all));
            Some(SessionIndex { version, sessions })
        },
        None => None,
    }
}

/// The index that `bytes` store, if they do and it is of the current version.
pub fn deserialize_index(bytes: &[u8]) -> (r: Option<SessionIndex>)
    ensures
        match r {
            Some(index) => current(index_content(bytes@)) == Some(index@),
            None => current(index_content(bytes@)) is None,
        },
{
    current_index(decode_rows(bytes))
}

/// Whether the texts of all sessions lie within the first `len` bytes.
pub open spec fn texts_within(sessions: Seq<SessionView>, len: int) -> bool {
    forall|i: int|
        0 <= i < sessions.len() ==> (#[trigger] sessions[i]).text_offset + sessions[i].text_len
            <= len
}

/// Whether the texts of all sessions lie within the text cache.
pub fn fits_text_cache(index: &SessionIndex, len: usize) -> (r: bool)
    ensures
        r == texts_within(index@.sessions, len as int),
{
    let mut i: usize = 0;
    while i < index.sessions.len()
        invariant
            i <= index.sessions@.len(),
            texts_within(index@.sessions.take(i as int), len as int),
        decreases index.sessions@.len() - i,
    {
        let s = &index.sessions[i];
        assert(index@.sessions[i as int] == s@);
        if s.text_offset as u128 + s.text_len as u128 > len as u128 {
            return false;
        }
        assert forall|k: int| 0 <= k < i + 1 implies (#[trigger] index@.sessions.take(
            i + 1,
        )[k]).text_offset + index@.sessions.take(i + 1)[k].text_len <= len by {
            if k < i {
                assert(index@.sessions.take(i as int)[k] == index@.sessions[k]);
            }
        }
        i += 1;
    }
    assert(index@.sessions.take(i as int) =~= index@.sessions);
    true
}

/// The index that a file stores, unless it cannot be read, is not of the
/// current version, or goes past the end of a text cache of `text_len` bytes.
pub fn load_cached_index(contents: Option<&[u8]>, text_len: usize) -> (r: Option<SessionIndex>)
    ensures
        match r {
            Some(index) => {
                &&& contents is Some
                &&& current(index_content(contents->0@)) == Some(index@)
                &&& texts_within(index@.sessions, text_len as int)
            },
            None => {
                ||| contents is None
                ||| current(index_content(contents->0@)) is None
                ||| !texts_within(current(index_content(contents->0@))->0.sessions, text_len as int)
            },
        },
{
    match contents {
        Some(bytes) => match deserialize_index(bytes) {
            Some(index) => if fits_text_cache(&index, text_len) {
                Some(index)
            } else {
                None
            },
            None => None,
        },
        None => None,
    }
}

/// An index that was just built fits the text cache that was built with it.
pub proof fn built_index_fits(scanned: Seq<(SessionMeta, Vec<u8>)>)
    requires
        text_cache::joined(texts(scanned)).len() <= usize::MAX,
    ensures
        texts_within(placed(scanned), text_cache::joined(texts(scanned)).len() as int),
{
    assert forall|i: int| 0 <= i < scanned.len() implies (#[trigger] placed(scanned)[i]).text_offset
        + placed(scanned)[i].text_len <= text_cache::joined(texts(scanned)).len() by {
        text_cache::place_is_within(texts(scanned), i);
    }
}

/// The number that decimal digits tell, if they are nothing else.
pub open spec fn digits_value(s: Seq<char>) -> Option<nat>
    decreases s.len(),
{
    if s.len() == 0 || !('0' <= s.last() <= '9') {
        None
    } else if s.len() == 1 {
        Some((s.last() as int - '0' as int) as nat)
    } else {
        match digits_value(s.drop_last()) {
            Some(n) => Some((n * 10 + (s.last() as int - '0' as int)) as nat),
            None => None,
        }
    }
}

/// The number that a text tells: digits, with or without a plus sign before
/// them.
pub open spec fn number(s: Seq<char>) -> Option<nat> {
    if s.len() > 0 && s[0] == '+' {
        digits_value(s.skip(1))
    } else {
        digits_value(s)
    }
}

/// The seconds of a unit of time.
pub open spec fn unit_seconds(c: char) -> Option<nat> {
    match c {
        'h' => Some(3600),
        'd' => Some(86400),
        'w' => Some(7 * 86400),
        'm' => Some(30 * 86400),
        _ => None,
    }
}

/// The seconds that a text such as "7d" tells: a number that fits in 64 bits
/// and a unit, which together fit in 64 bits.
pub open spec fn recent_seconds(s: Seq<char>) -> Option<nat> {
    let t = text::trim(s);
    if t.len() == 0 {
        None
    } else {
        match (number(t.drop_last()), unit_seconds(t.last())) {
            (Some(n), Some(u)) => if n * u <= u64::MAX {
                Some(n * u)
            } else {
                None
            },
            _ => None,
        }
    }
}

/// The number that the characters `v[from..to]` tell, if they are digits and it
/// fits in 64 bits.
fn digits_of(v: &Vec<char>, from: usize, to: usize) -> (r: Option<u64>)
    requires
        from <= to <= v@.len(),
    ensures
        match r {
            Some(n) => digits_value(v@.subrange(from as int, to as int)) == Some(n as nat),
            None => digits_value(v@.subrange(from as int, to as int)) matches Some(n)
                ==> n > u64::MAX,
        },
{
    if from == to {
        return None;
    }
    let ghost s = v@.subrange(from as int, to as int);
    let mut large = false;
    let mut n: u64 = 0;
    let mut i: usize = from;
    while i < to
        invariant
            from <= i <= to <= v@.len(),
            s == v@.subrange(from as int, to as int),
            i == from ==> n == 0 && !large,
            i > from ==> match digits_value(s.take(i - from)) {
                Some(m) => if large {
                    m > u64::MAX
                } else {
                    m == n
                },
                None => false,
            },
        decreases to - i,
    {
        let c = v[i];
        assert(s.take(i + 1 - from).drop_last() =~= s.take(i - from));
        assert(s.take(i + 1 - from).last() == c);
        if c < '0' || c > '9' {
            proof {
                digits_end(s, i + 1 - from);
            }
            return None;
        }
        let d: u64 = c as u64 - '0' as u64;
        if !large {
            let m: u128 = n as u128 * 10 + d as u128;
            if m > u64::MAX as u128 {
                large = true;
            } else {
                n = m as u64;
            }
        }
        i += 1;
    }
    assert(s.take(s.len() as int) =~= s);
    if large {
        None
    } else {
        Some(n)
    }
}

/// A text of which a start tells no number tells none itself.
proof fn digits_end(s: Seq<char>, n: int)
    requires
        0 < n <= s.len(),
        digits_value(s.take(n)) is None,
    ensures
        digits_value(s) is None,
    decreases s.len() - n,
{
    if n < s.len() {
        assert(s.take(n + 1).drop_last() =~= s.take(n));
        digits_end(s, n + 1);
    } else {
        assert(s.take(n) =~= s);
    }
}

/// The seconds that a text such as "7d" tells: hours, days, weeks or months of
/// thirty days. There are none where the text is of another form, or where
/// they do not fit in 64 bits.
pub fn parse_recent_filter(s: &str) -> (r: Option<u64>)
    ensures
        match r {
            Some(n) => recent_seconds(s@) == Some(n as nat),
            None => recent_seconds(s@) is None,
        },
{
    let t = text::trimmed(s);
    let v = text::chars_of(t.as_str());
    if v.len() == 0 {
        return None;
    }
    let last = v.len() - 1;
    let unit: u64 = match v[last] {
        'h' => 3600,
        'd' => 86400,
        'w' => 7 * 86400,
        'm' => 30 * 86400,
        _ => {
            return None;
        },
    };
    let from: usize = if last > 0 && v[0] == '+' {
        1
    } else {
        0
    };
    assert(v@.subrange(0, last as int) =~= v@.drop_last());
    assert(from == 1 ==> v@.subrange(1, last as int) =~= v@.drop_last().skip(1));
    match digits_of(&v, from, last) {
        Some(n) => n.checked_mul(unit),
        None => {
            proof {
                match number(v@.drop_last()) {
                    Some(n) => {
                        assert(n * unit > u64::MAX) by (nonlinear_arith)
                            requires
                                n > u64::MAX,
                                unit >= 3600,
                        ;
                    },
                    None => {},
                }
            }
            None
        },
    }
}

/// A directory as the name of the folder that holds its sessions: a dash for
/// every character that is no ASCII letter or digit.
pub open spec fn encoded_path(cwd: Seq<char>) -> Seq<char> {
    Seq::new(
        cwd.len(),
        |i: int|
            if is_ascii_letter_or_digit(cwd[i]) {
                cwd[i]
            } else {
                '-'
            },
    )
}

/// Whether a character is an ASCII letter or digit.
pub open spec fn is_ascii_letter_or_digit(c: char) -> bool {
    '0' <= c <= '9' || 'A' <= c <= 'Z' || 'a' <= c <= 'z'
}

/// A directory as the name of the folder that holds its sessions.
pub fn encode_project_path(cwd: &str) -> (r: String)
    ensures
        r@ == encoded_path(cwd@),
{
    let v = text::chars_of(cwd);
    let mut out = String::new();
    let mut i: usize = 0;
    while i < v.len()
        invariant
            i <= v@.len(),
            v@ == cwd@,
            out@ == encoded_path(cwd@).take(i as int),
        decreases v@.len() - i,
    {
        let c = v[i];
        if ('0' <= c && c <= '9') || ('A' <= c && c <= 'Z') || ('a' <= c && c <= 'z') {
            out.push(c);
        } else {
            out.push('-');
        }
        i += 1;
        assert(out@ =~= encoded_path(cwd@).take(i as int));
    }
    assert(out@ =~= encoded_path(cwd@));
    out
}

/// The digits of a number tell that number.
pub proof fn digits_tell_their_number(n: nat)
    ensures
        digits_value(text::decimal(n)) == Some(n),
        text::decimal(n).len() > 0,
        n > 0 ==> text::decimal(n)[0] != '0',
    decreases n,
{
    let s = text::decimal(n);
    if n >= 10 {
        digits_tell_their_number(n / 10);
        assert(s.drop_last() =~= text::decimal(n / 10));
        assert(s[0] == text::decimal(n / 10)[0]);
        assert(s.last() as int == 48 + n % 10);
    } else {
        assert(s.last() as int == 48 + n);
    }
}

/// A time window is a number and a unit, with blanks around them: so many hours, days,
/// weeks, or months of thirty days. There is none where it does not fit in 64 bits,
/// and none for any other unit.
pub proof fn time_windows_are_numbers_of_units(a: Seq<char>, n: nat, unit: char, b: Seq<char>)
    requires
        text::all_blank(a),
        !text::is_space(unit),
        text::all_blank(b),
    ensures
        ({
            let told = recent_seconds(a + text::decimal(n).push(unit) + b);
            &&& unit == 'h' && n * 3600 <= u64::MAX ==> told == Some(n * 3600)
            &&& unit == 'd' && n * 86400 <= u64::MAX ==> told == Some(n * 86400)
            &&& unit == 'w' && n * 604800 <= u64::MAX ==> told == Some(n * 604800)
            &&& unit == 'm' && n * 2592000 <= u64::MAX ==> told == Some(n * 2592000)
            &&& unit == 'h' && n * 3600 > u64::MAX ==> told is None
            &&& unit == 'd' && n * 86400 > u64::MAX ==> told is None
            &&& unit == 'w' && n * 604800 > u64::MAX ==> told is None
            &&& unit == 'm' && n * 2592000 > u64::MAX ==> told is None
            &&& unit != 'h' && unit != 'd' && unit != 'w' && unit != 'm' ==> told is None
        }),
{
    let digits = text::decimal(n);
    let core = digits.push(unit);
    digits_tell_their_number(n);
    digits_are_digits(n);
    assert('0' <= digits[0] <= '9');
    assert(core[0] == digits[0]);
    text::trimming_leaves_the_core(a, core, b);
    assert(core.drop_last() =~= digits);
}

/// The digits of a number are digits.
proof fn digits_are_digits(n: nat)
    ensures
        forall|i: int|
            0 <= i < text::decimal(n).len() ==> '0' <= #[trigger] text::decimal(n)[i] <= '9',
    decreases n,
{
    let s = text::decimal(n);
    assert forall|i: int| 0 <= i < s.len() implies '0' <= #[trigger] s[i] <= '9' by {
        if n < 10 {
            assert(s[i] as int == 48 + n);
        } else if i < s.len() - 1 {
            digits_are_digits(n / 10);
            assert(s[i] == text::decimal(n / 10)[i]);
        } else {
            assert(s[i] as int == 48 + n % 10);
        }
    }
}

/// A window that holds anything but digits before its unit is none.
pub proof fn other_windows_are_none(s: Seq<char>)
    ensures
        text::all_blank(s) ==> recent_seconds(s) is None,
        text::is_core(s) && s.len() == 1 ==> recent_seconds(s) is None,
        text::is_core(s) && s.len() > 1 && s[0] != '+' && !('0' <= s[0] <= '9') ==> recent_seconds(
            s,
        ) is None,
{
    if text::all_blank(s) {
        text::trimming_leaves_nothing_of_blanks(s);
    } else if text::is_core(s) {
        let none = Seq::<char>::empty();
        text::trimming_leaves_the_core(none, s, none);
        assert(none + s + none =~= s);
        if s.len() > 1 && !('0' <= s[0] <= '9') {
            assert(s.drop_last().take(1).drop_last() =~= none);
            assert(s.drop_last().take(1).last() == s[0]);
            digits_end(s.drop_last(), 1);
        }
    }
}

/// The time between two instants is their distance, and none where the second comes
/// first or one of them is unknown.
pub proof fn elapsed_time_is_the_distance(a: i64, b: i64, c: i64)
    ensures
        a <= b ==> seconds_between(Some(a), Some(b)) == b - a,
        a > b ==> seconds_between(Some(a), Some(b)) == 0,
        a <= b <= c ==> seconds_between(Some(a), Some(c)) == seconds_between(Some(a), Some(b))
            + seconds_between(Some(b), Some(c)),
        seconds_between(None, Some(b)) == 0,
        seconds_between(Some(a), None) == 0,
{
}

/// A directory becomes a folder name character by character: ASCII letters and digits
/// stay, and all else becomes a dash.
pub proof fn folders_are_named_character_by_character(cwd: Seq<char>, i: int)
    requires
        0 <= i < cwd.len(),
    ensures
        encoded_path(cwd).len() == cwd.len(),
        48 <= cwd[i] as int <= 57 || 65 <= cwd[i] as int <= 90 || 97 <= cwd[i] as int <= 122
            ==> encoded_path(cwd)[i] == cwd[i],
        !(48 <= cwd[i] as int <= 57 || 65 <= cwd[i] as int <= 90 || 97 <= cwd[i] as int <= 122)
            ==> encoded_path(cwd)[i] == '-',
{
}

/// What the record of a session tells of its file and of its texts: identity, path, size
/// and time are those of the file, the searchable fields are the others in lower case,
/// and the text is all that can be searched for in its entries.
pub proof fn records_tell_file_and_texts(
    m: SessionView,
    bytes: Seq<u8>,
    file: SessionFile,
    lines: Seq<Seq<char>>,
    home: Seq<char>,
)
    requires
        is_session_of(m, bytes, file, lines, home),
    ensures
        m.id == file.id@,
        m.file_path == file.path@,
        m.file_size == file.size,
        m.timestamp == file.mtime,
        m.file_mtime == file.mtime,
        m.name_lc == text::lowercase(m.name),
        m.title_lc == text::lowercase(m.title),
        m.project_lc == text::lowercase(m.project),
        m.branch_lc == text::lowercase(m.branch),
        m.project == session::project_name(m.cwd, home),
        m.changed_files_lc == text::lowercase(text::lines(m.changed_files)),
        m.message_count == scan::message_count(scan::entries(lines)) % 0x1_0000_0000,
        bytes == vstd::utf8::encode_utf8(scan::search_text(scan::entries(lines))),
        m.text_len == bytes.len() % 0x1_0000_0000,
        scan::head(scan::entries(lines)) is Some,
        m.title == scan::head(scan::entries(lines))->0.title,
        m.cwd == scan::head(scan::entries(lines))->0.cwd,
        m.last_message == scan::last_message(scan::entries(lines)),
        m.permission_mode == scan::last_text_of(
            scan::entries(lines),
            "permission-mode"@,
            "permissionMode"@,
        ),
        m.cc_version == scan::first_text(scan::entries(lines), "version"@),
        m.skills.to_set() == scan::skills(scan::entries(lines)),
        m.changed_files.to_set() == scan::changed_files(scan::entries(lines)),
        m.tickets.to_set() == ticket::tickets_in_lines(lines),
        string_set::ascending(m.skills),
        string_set::ascending(m.changed_files),
        string_set::ascending(m.tickets),
{
    let s = choose|s: ScanResult|
        {
            &&& s.tells(scan::entries(lines))
            &&& string_set::ascending(text::views(s.tickets@))
            &&& text::views(s.tickets@).to_set() == ticket::tickets_in_lines(lines)
            &&& m == #[trigger] described(file, s, home)
            &&& bytes == vstd::utf8::encode_utf8(s.search_text_lc@)
        };
    let es = scan::entries(lines);
    assert(s.head@ == scan::head(es)->0);
    if s.tail is None {
        assert(scan::last_message(es) =~= Seq::<char>::empty());
    }
}

/// The name of a session is its generated title, or else what it was renamed to last,
/// or else its slug; its branch is the one noted, unless the head was detached; and its
/// duration goes from its first time to its last.
pub proof fn records_tell_name_branch_and_duration(
    m: SessionView,
    bytes: Seq<u8>,
    file: SessionFile,
    lines: Seq<Seq<char>>,
    home: Seq<char>,
)
    requires
        is_session_of(m, bytes, file, lines, home),
    ensures
        ({
            let es = scan::entries(lines);
            let head = scan::head(es)->0;
            let title = scan::last_text_of(es, "ai-title"@, "aiTitle"@);
            let first = rfc3339_seconds(head.first_timestamp);
            let last = rfc3339_seconds(scan::last_text(es, "timestamp"@));
            &&& title.len() > 0 ==> m.name == title
            &&& title.len() == 0 && scan::rename(es).len() > 0 ==> m.name == scan::rename(es)
            &&& title.len() == 0 && scan::rename(es).len() == 0 ==> m.name == head.slug
            &&& head.branch == "HEAD"@ ==> m.branch.len() == 0
            &&& head.branch != "HEAD"@ ==> m.branch == head.branch
            &&& first is Some && last is Some && first->0 <= last->0 && scan::last_text(
                es,
                "timestamp"@,
            ).len() > 0 ==> m.duration_secs == last->0 - first->0
            &&& first is Some && last is Some && first->0 > last->0 ==> m.duration_secs == 0
            &&& first is None || last is None ==> m.duration_secs == 0
        }),
{
    let s = choose|s: ScanResult|
        {
            &&& s.tells(scan::entries(lines))
            &&& string_set::ascending(text::views(s.tickets@))
            &&& text::views(s.tickets@).to_set() == ticket::tickets_in_lines(lines)
            &&& m == #[trigger] described(file, s, home)
            &&& bytes == vstd::utf8::encode_utf8(s.search_text_lc@)
        };
    assert(s.head@ == scan::head(scan::entries(lines))->0);
}

/// A session is scanned again as soon as the size or the time of its file has changed,
/// or its path was not indexed, or the index is to be rebuilt.
pub proof fn changed_sessions_are_scanned_again(
    before: Seq<SessionView>,
    path: Seq<char>,
    mtime: i64,
    size: u64,
    cached: Option<SessionIndex>,
)
    ensures
        unchanged(before, path, mtime, size) matches Some(s) ==> before.contains(s) && s.file_path
            == path && s.file_mtime == mtime && s.file_size == size,
        (forall|i: int| 0 <= i < before.len() ==> (#[trigger] before[i]).file_path != path)
            ==> unchanged(before, path, mtime, size) is None,
        reusable(cached, true).len() == 0,
        cached is Some ==> reusable(cached, false) == cached->0@.sessions,
    decreases before.len(),
{
    if before.len() > 0 {
        let front = before.drop_last();
        changed_sessions_are_scanned_again(front, path, mtime, size, cached);
        assert(before[before.len() - 1] == before.last());
        match unchanged(front, path, mtime, size) {
            Some(s) => {
                let i = choose|i: int| 0 <= i < front.len() && front[i] == s;
                assert(before[i] == s);
            },
            None => {},
        }
        if forall|i: int| 0 <= i < before.len() ==> (#[trigger] before[i]).file_path != path {
            assert forall|i: int| 0 <= i < front.len() implies (#[trigger] front[i]).file_path
                != path by {
                assert(front[i] == before[i]);
            }
        }
    }
}

/// Only an index of version four is taken from what was stored.
pub proof fn other_versions_are_refused(version: u32, sessions: Seq<SessionView>)
    ensures
        version == 4 ==> current(Some((version, sessions))) == Some(
            IndexView { version: 4, sessions },
        ),
        version != 4 ==> current(Some((version, sessions))) is None,
{
}

/// An index of which the text of any session goes past the end of the text cache does
/// not fit it.
pub proof fn texts_past_the_end_do_not_fit(sessions: Seq<SessionView>, len: int, i: int)
    requires
        0 <= i < sessions.len(),
        sessions[i].text_offset + sessions[i].text_len > len,
    ensures
        !texts_within(sessions, len),
{
}

/// What an index keeps of a session that was scanned is all of it, with the place of its
/// text.
pub proof fn indexes_keep_the_sessions(scanned: Seq<(SessionMeta, Vec<u8>)>, i: int)
    requires
        0 <= i < scanned.len(),
    ensures
        placed(scanned).len() == scanned.len(),
        (SessionView {
            text_offset: scanned[i].0@.text_offset,
            text_len: scanned[i].0@.text_len,
            ..placed(scanned)[i]
        }) == scanned[i].0@,
{
}

} // verus!
