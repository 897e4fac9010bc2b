//! One pass over the records of a session, gathering its metadata and its
//! searchable text.

use crate::json;
use crate::json::Json;
use crate::json::JsonView;
use crate::parser;
use crate::string_set;
use crate::string_set::StringSet;
use crate::text;
use crate::ticket;
use vstd::prelude::*;

verus! {

/// What the start of a session tells.
#[derive(Debug)]
pub struct HeadMeta {
    pub title: String,
    pub branch: String,
    pub slug: String,
    pub first_timestamp: String,
    pub cwd: String,
}

/// What the end of a session tells.
#[derive(Debug)]
pub struct TailMeta {
    pub last_human_message: String,
    pub last_timestamp: String,
    pub rename: String,
}

/// What a scan of a session yields.
#[derive(Debug)]
pub struct ScanResult {
    pub head: HeadMeta,
    pub tail: Option<TailMeta>,
    /// Lowercased searchable text: user messages, assistant text and thinking,
    /// tool-use text inputs, and tool-result text.
    pub search_text_lc: String,
    pub tickets: Vec<String>,
    /// Generated session title (`type: "ai-title"`), if present.
    pub ai_title: String,
    /// Last `permissionMode` seen.
    pub permission_mode: String,
    /// The first non-empty `version` seen.
    pub cc_version: String,
    /// Distinct `attributionSkill` values, sorted.
    pub skills: Vec<String>,
    /// Sorted union of `trackedFileBackups` paths across file-history snapshots.
    pub changed_files: Vec<String>,
    /// Count of non-empty human messages outside side chains, in 32 bits.
    pub message_count: u32,
}

/// The entry on a line: the document it holds, unless the line is blank.
pub open spec fn line_entry(line: Seq<char>) -> Option<JsonView> {
    if text::trim(line).len() == 0 {
        None
    } else {
        json::json_document(line)
    }
}

/// The entries of a session, in the order of their lines.
pub open spec fn entries(lines: Seq<Seq<char>>) -> Seq<JsonView>
    decreases lines.len(),
{
    if lines.len() == 0 {
        Seq::empty()
    } else {
        match line_entry(lines.last()) {
            Some(e) => entries(lines.drop_last()).push(e),
            None => entries(lines.drop_last()),
        }
    }
}

/// The first non-empty text that an entry has under `key`; else the empty text.
pub open spec fn first_text(es: Seq<JsonView>, key: Seq<char>) -> Seq<char>
    decreases es.len(),
{
    if es.len() == 0 {
        Seq::empty()
    } else if first_text(es.drop_last(), key).len() > 0 {
        first_text(es.drop_last(), key)
    } else {
        match es.last().text_at(key) {
            Some(t) => t,
            None => Seq::empty(),
        }
    }
}

/// The last text that an entry has under `key`; else the empty text.
pub open spec fn last_text(es: Seq<JsonView>, key: Seq<char>) -> Seq<char>
    decreases es.len(),
{
    if es.len() == 0 {
        Seq::empty()
    } else {
        match es.last().text_at(key) {
            Some(t) => t,
            None => last_text(es.drop_last(), key),
        }
    }
}

/// The last text that an entry of the given type has under `key`; else the
/// empty text.
pub open spec fn last_text_of(es: Seq<JsonView>, kind: Seq<char>, key: Seq<char>) -> Seq<char>
    decreases es.len(),
{
    if es.len() == 0 {
        Seq::empty()
    } else if es.last().text_at("type"@) == Some(kind) && es.last().text_at(key) is Some {
        es.last().text_at(key)->0
    } else {
        last_text_of(es.drop_last(), kind, key)
    }
}

/// The non-empty `attributionSkill` texts.
pub open spec fn skills(es: Seq<JsonView>) -> Set<Seq<char>>
    decreases es.len(),
{
    if es.len() == 0 {
        Set::empty()
    } else {
        match es.last().text_at("attributionSkill"@) {
            Some(t) if t.len() > 0 => skills(es.drop_last()).insert(t),
            _ => skills(es.drop_last()),
        }
    }
}

/// The keys of an object.
pub open spec fn keys(members: Seq<json::MemberView>) -> Set<Seq<char>>
    decreases members.len(),
{
    if members.len() == 0 {
        Set::empty()
    } else {
        keys(members.drop_last()).insert(members.last().key)
    }
}

/// The paths that a file-history snapshot tracks.
pub open spec fn tracked_files(entry: JsonView) -> Set<Seq<char>> {
    if entry.text_at("type"@) == Some("file-history-snapshot"@) {
        match entry.field("snapshot"@) {
            Some(s) => match s.field("trackedFileBackups"@) {
                Some(JsonView::Object(members)) => keys(members),
                _ => Set::empty(),
            },
            None => Set::empty(),
        }
    } else {
        Set::empty()
    }
}

/// The paths that any file-history snapshot tracks.
pub open spec fn changed_files(es: Seq<JsonView>) -> Set<Seq<char>>
    decreases es.len(),
{
    if es.len() == 0 {
        Set::empty()
    } else {
        changed_files(es.drop_last()).union(tracked_files(es.last()))
    }
}

/// Whether an entry is a message that a person wrote, and not a blank one.
pub open spec fn is_spoken(entry: JsonView) -> bool {
    parser::is_human(entry) && text::trim(parser::content_text(entry)->0).len() > 0
}

/// The number of messages that a person wrote outside side chains.
pub open spec fn message_count(es: Seq<JsonView>) -> nat
    decreases es.len(),
{
    if es.len() == 0 {
        0
    } else if is_spoken(es.last()) && !es.last().is_flag("isSidechain"@, true) {
        message_count(es.drop_last()) + 1
    } else {
        message_count(es.drop_last())
    }
}

/// The headline of the last message that a person wrote; else the empty text.
pub open spec fn last_message(es: Seq<JsonView>) -> Seq<char>
    decreases es.len(),
{
    if es.len() == 0 {
        Seq::empty()
    } else if is_spoken(es.last()) {
        parser::headline(parser::content_text(es.last())->0)
    } else {
        last_message(es.drop_last())
    }
}

/// The title that the first command-noise turn gives; else the empty text.
pub open spec fn noise_title(es: Seq<JsonView>) -> Seq<char>
    decreases es.len(),
{
    if es.len() == 0 {
        Seq::empty()
    } else if noise_title(es.drop_last()).len() > 0 {
        noise_title(es.drop_last())
    } else if is_noise_turn(es.last()) {
        parser::noise_title(parser::content_text(es.last())->0)
    } else {
        Seq::empty()
    }
}

/// Whether an entry is a user turn of command noise.
pub open spec fn is_noise_turn(entry: JsonView) -> bool {
    &&& entry.text_at("type"@) == Some("user"@)
    &&& match parser::content_text(entry) {
        Some(c) => parser::is_noise(c),
        None => false,
    }
}

/// The name that an entry gives the session, where it records a `/rename`
/// with arguments.
pub open spec fn renaming(entry: JsonView) -> Option<Seq<char>> {
    if entry.text_at("subtype"@) == Some("local_command"@) {
        match entry.text_at("content"@) {
            Some(c) if text::contains(c, "<command-name>/rename</command-name>"@) => {
                parser::command_args(c)
            },
            _ => None,
        }
    } else {
        None
    }
}

/// The name that the last `/rename` gave; else the empty text.
pub open spec fn rename(es: Seq<JsonView>) -> Seq<char>
    decreases es.len(),
{
    if es.len() == 0 {
        Seq::empty()
    } else {
        match renaming(es.last()) {
            Some(t) => t,
            None => rename(es.drop_last()),
        }
    }
}

/// The searchable text of all entries.
pub open spec fn search_text(es: Seq<JsonView>) -> Seq<char>
    decreases es.len(),
{
    if es.len() == 0 {
        Seq::empty()
    } else {
        search_text(es.drop_last()) + parser::entry_text(es.last())
    }
}

/// `HeadMeta` as texts.
#[verifier::ext_equal]
pub struct HeadView {
    pub title: Seq<char>,
    pub branch: Seq<char>,
    pub slug: Seq<char>,
    pub first_timestamp: Seq<char>,
    pub cwd: Seq<char>,
}

impl View for HeadMeta {
    type V = HeadView;

    open spec fn view(&self) -> HeadView {
        HeadView {
            title: self.title@,
            branch: self.branch@,
            slug: self.slug@,
            first_timestamp: self.first_timestamp@,
            cwd: self.cwd@,
        }
    }
}

/// What the entries so far tell of the start of the session, under a title.
pub open spec fn head_of(es: Seq<JsonView>, title: Seq<char>) -> HeadView {
    HeadView {
        title,
        branch: first_text(es, "gitBranch"@),
        slug: first_text(es, "slug"@),
        first_timestamp: first_text(es, "timestamp"@),
        cwd: first_text(es, "cwd"@),
    }
}

/// The head of a session in which a person wrote something: it is taken when
/// the first such message is reached, which gives the title.
pub open spec fn spoken_head(es: Seq<JsonView>) -> Option<HeadView>
    decreases es.len(),
{
    if es.len() == 0 {
        None
    } else {
        match spoken_head(es.drop_last()) {
            Some(h) => Some(h),
            None => if is_spoken(es.last()) {
                Some(head_of(es, parser::headline(parser::content_text(es.last())->0)))
            } else {
                None
            },
        }
    }
}

/// The head of a session: from the first message that a person wrote, else
/// from the first command-noise turn.
pub open spec fn head(es: Seq<JsonView>) -> Option<HeadView> {
    match spoken_head(es) {
        Some(h) => Some(h),
        None => if noise_title(es).len() > 0 {
            Some(head_of(es, noise_title(es)))
        } else {
            None
        },
    }
}

impl TailMeta {
    /// Whether this is what the entries tell of the end of the session.
    pub open spec fn tells(&self, es: Seq<JsonView>) -> bool {
        &&& self.last_human_message@ == last_message(es)
        &&& self.last_timestamp@ == last_text(es, "timestamp"@)
        &&& self.rename@ == rename(es)
    }
}

/// Whether the entries tell nothing of the end of the session.
pub open spec fn no_tail(es: Seq<JsonView>) -> bool {
    &&& last_message(es).len() == 0
    &&& last_text(es, "timestamp"@).len() == 0
    &&& rename(es).len() == 0
}

impl ScanResult {
    /// Whether this is what the entries of a session tell.
    pub open spec fn tells(&self, es: Seq<JsonView>) -> bool {
        &&& head(es) == Some(self.head@)
        &&& match self.tail {
            Some(t) => !no_tail(es) && t.tells(es),
            None => no_tail(es),
        }
        &&& self.search_text_lc@ == search_text(es)
        &&& self.ai_title@ == last_text_of(es, "ai-title"@, "aiTitle"@)
        &&& self.permission_mode@ == last_text_of(es, "permission-mode"@, "permissionMode"@)
        &&& self.cc_version@ == first_text(es, "version"@)
        &&& string_set::ascending(text::views(self.skills@))
        &&& text::views(self.skills@).to_set() == skills(es)
        &&& string_set::ascending(text::views(self.changed_files@))
        &&& text::views(self.changed_files@).to_set() == changed_files(es)
        &&& self.message_count == message_count(es) % 0x1_0000_0000
    }
}

/// The state of a scan.
struct Scan {
    head: Option<HeadMeta>,
    working: HeadMeta,
    last_human_message: String,
    last_timestamp: String,
    rename: String,
    fallback_title: String,
    search_text: String,
    ai_title: String,
    permission_mode: String,
    cc_version: String,
    skills: StringSet,
    changed_files: StringSet,
    message_count: u32,
}

/// Puts the keys of an object into `out`.
fn collect_keys(list: &Vec<json::Member>, out: &mut StringSet)
    requires
        old(out).wf(),
    ensures
        final(out).wf(),
        final(out)@ == old(out)@.union(keys(json::members(list@))),
{
    let ghost all = json::members(list@);
    let ghost start = out@;
    let mut i: usize = 0;
    assert(start.union(Set::empty()) =~= start);
    while i < list.len()
        invariant
            i <= list@.len(),
            all == json::members(list@),
            out.wf(),
            out@ == start.union(keys(all.take(i as int))),
        decreases list@.len() - i,
    {
        out.insert(list[i].key.clone());
        proof {
            let part = all.take(i + 1);
            assert(part.drop_last() =~= all.take(i as int));
            assert(start.union(keys(all.take(i as int))).insert(all[i as int].key)
                =~= start.union(keys(part)));
        }
        i += 1;
    }
    assert(all.take(all.len() as int) =~= all);
}

/// Keeps `current` unless it is empty; then takes the text under `key`.
fn keep_first(current: &mut String, entry: &Json, key: &str)
    ensures
        final(current)@ == if old(current)@.len() > 0 {
            old(current)@
        } else {
            match entry@.text_at(key@) {
                Some(t) => t,
                None => Seq::empty(),
            }
        },
{
    if current.as_str().is_empty() {
        match entry.text_at(key) {
            Some(t) => {
                *current = t.to_owned();
            },
            None => {
                assert(current@ =~= Seq::empty());
            },
        }
    }
}

impl Scan {
    /// Whether the state is what the entries so far tell.
    spec fn tells(&self, es: Seq<JsonView>) -> bool {
        &&& match self.head {
            Some(h) => spoken_head(es) == Some(h@),
            None => spoken_head(es) is None,
        }
        &&& self.working@ == head_of(es, Seq::empty())
        &&& self.last_human_message@ == last_message(es)
        &&& self.last_timestamp@ == last_text(es, "timestamp"@)
        &&& self.rename@ == rename(es)
        &&& self.fallback_title@ == noise_title(es)
        &&& self.search_text@ == search_text(es)
        &&& self.ai_title@ == last_text_of(es, "ai-title"@, "aiTitle"@)
        &&& self.permission_mode@ == last_text_of(es, "permission-mode"@, "permissionMode"@)
        &&& self.cc_version@ == first_text(es, "version"@)
        &&& self.skills.wf()
        &&& self.skills@ == skills(es)
        &&& self.changed_files.wf()
        &&& self.changed_files@ == changed_files(es)
        &&& self.message_count == message_count(es) % 0x1_0000_0000
    }

    /// The state before any entry.
    fn new() -> (r: Scan)
        ensures
            r.tells(Seq::empty()),
    {
        Scan {
            head: None,
            working: HeadMeta {
                title: String::new(),
                branch: String::new(),
                slug: String::new(),
                first_timestamp: String::new(),
                cwd: String::new(),
            },
            last_human_message: String::new(),
            last_timestamp: String::new(),
            rename: String::new(),
            fallback_title: String::new(),
            search_text: String::new(),
            ai_title: String::new(),
            permission_mode: String::new(),
            cc_version: String::new(),
            skills: StringSet::new(),
            changed_files: StringSet::new(),
            message_count: 0,
        }
    }

    /// Takes in what an entry says by its type, and its version and skill.
    fn note_metadata(&mut self, entry: &Json)
        requires
            old(self).skills.wf(),
            old(self).changed_files.wf(),
        ensures
            *final(self) == (Scan {
                ai_title: final(self).ai_title,
                permission_mode: final(self).permission_mode,
                cc_version: final(self).cc_version,
                skills: final(self).skills,
                changed_files: final(self).changed_files,
                ..*old(self)
            }),
            final(self).ai_title@ == if entry@.text_at("type"@) == Some("ai-title"@)
                && entry@.text_at("aiTitle"@) is Some {
                entry@.text_at("aiTitle"@)->0
            } else {
                old(self).ai_title@
            },
            final(self).permission_mode@ == if entry@.text_at("type"@) == Some("permission-mode"@)
                && entry@.text_at("permissionMode"@) is Some {
                entry@.text_at("permissionMode"@)->0
            } else {
                old(self).permission_mode@
            },
            final(self).cc_version@ == if old(self).cc_version@.len() > 0 {
                old(self).cc_version@
            } else {
                match entry@.text_at("version"@) {
                    Some(t) => t,
                    None => Seq::empty(),
                }
            },
            final(self).skills.wf(),
            final(self).skills@ == match entry@.text_at("attributionSkill"@) {
                Some(t) if t.len() > 0 => old(self).skills@.insert(t),
                _ => old(self).skills@,
            },
            final(self).changed_files.wf(),
            final(self).changed_files@ == old(self).changed_files@.union(tracked_files(entry@)),
    {
        assert(self.changed_files@.union(Set::empty()) =~= self.changed_files@);
        if entry.text_is("type", "ai-title") {
            match entry.text_at("aiTitle") {
                Some(t) => {
                    self.ai_title = t.to_owned();
                },
                None => {},
            }
        }
        if entry.text_is("type", "permission-mode") {
            match entry.text_at("permissionMode") {
                Some(t) => {
                    self.permission_mode = t.to_owned();
                },
                None => {},
            }
        }
        if entry.text_is("type", "file-history-snapshot") {
            match entry.field("snapshot") {
                Some(s) => match s.field("trackedFileBackups") {
                    Some(Json::Object(list)) => {
                        proof {
                            json::lemma_object_view(*list);
                        }
                        collect_keys(list, &mut self.changed_files);
                    },
                    _ => {},
                },
                None => {},
            }
        }
        keep_first(&mut self.cc_version, entry, "version");
        match entry.text_at("attributionSkill") {
            Some(t) => {
                if !t.is_empty() {
                    self.skills.insert(t.to_owned());
                }
            },
            None => {},
        }
    }

    /// Takes in the fields that the head is made of, and the timestamp.
    fn note_head(&mut self, entry: &Json, es: Ghost<Seq<JsonView>>)
        requires
            old(self).working@ == head_of(es@, Seq::empty()),
            old(self).last_timestamp@ == last_text(es@, "timestamp"@),
        ensures
            *final(self) == (Scan {
                working: final(self).working,
                last_timestamp: final(self).last_timestamp,
                ..*old(self)
            }),
            final(self).working@ == head_of(es@.push(entry@), Seq::empty()),
            final(self).last_timestamp@ == last_text(es@.push(entry@), "timestamp"@),
    {
        assert(es@.push(entry@).drop_last() =~= es@);
        keep_first(&mut self.working.branch, entry, "gitBranch");
        keep_first(&mut self.working.slug, entry, "slug");
        keep_first(&mut self.working.first_timestamp, entry, "timestamp");
        keep_first(&mut self.working.cwd, entry, "cwd");
        match entry.text_at("timestamp") {
            Some(t) => {
                self.last_timestamp = t.to_owned();
            },
            None => {},
        }
    }

    /// The head as gathered so far, under a title.
    fn titled(&self, title: String) -> (r: HeadMeta)
        ensures
            r@ == (HeadView { title: title@, ..self.working@ }),
    {
        HeadMeta {
            title,
            branch: self.working.branch.clone(),
            slug: self.working.slug.clone(),
            first_timestamp: self.working.first_timestamp.clone(),
            cwd: self.working.cwd.clone(),
        }
    }

    /// Takes in an entry as a command-noise turn or as a message.
    fn note_message(&mut self, entry: &Json, es: Ghost<Seq<JsonView>>)
        requires
            old(self).working@ == head_of(es@.push(entry@), Seq::empty()),
            match old(self).head {
                Some(h) => spoken_head(es@) == Some(h@),
                None => spoken_head(es@) is None,
            },
            old(self).fallback_title@ == noise_title(es@),
            old(self).last_human_message@ == last_message(es@),
            old(self).message_count == message_count(es@) % 0x1_0000_0000,
        ensures
            *final(self) == (Scan {
                head: final(self).head,
                fallback_title: final(self).fallback_title,
                last_human_message: final(self).last_human_message,
                message_count: final(self).message_count,
                ..*old(self)
            }),
            match final(self).head {
                Some(h) => spoken_head(es@.push(entry@)) == Some(h@),
                None => spoken_head(es@.push(entry@)) is None,
            },
            final(self).fallback_title@ == noise_title(es@.push(entry@)),
            final(self).last_human_message@ == last_message(es@.push(entry@)),
            final(self).message_count == message_count(es@.push(entry@)) % 0x1_0000_0000,
    {
        let ghost all = es@.push(entry@);
        assert(all.drop_last() =~= es@);
        assert(self.fallback_title@.len() == 0 ==> self.fallback_title@ =~= Seq::empty());
        let content = match parser::message_text(entry) {
            Some(c) => c,
            None => {
                return ;
            },
        };
        if self.fallback_title.as_str().is_empty() && entry.text_is("type", "user")
            && parser::is_command_noise(content) {
            self.fallback_title = parser::command_noise_title(content);
        }
        if parser::is_human_message(entry) && !text::is_blank(content) {
            if !entry.is_true("isSidechain") {
                self.message_count = self.message_count.wrapping_add(1);
            }
            if self.head.is_none() {
                let h = self.titled(parser::headline_of(content));
                self.head = Some(h);
            }
            self.last_human_message = parser::headline_of(content);
        }
    }

    /// Takes in a recorded `/rename`.
    fn note_rename(&mut self, entry: &Json)
        ensures
            *final(self) == (Scan { rename: final(self).rename, ..*old(self) }),
            final(self).rename@ == match renaming(entry@) {
                Some(t) => t,
                None => old(self).rename@,
            },
    {
        if entry.text_is("subtype", "local_command") {
            match entry.text_at("content") {
                Some(c) => {
                    if text::has(c, "<command-name>/rename</command-name>") {
                        match parser::extract_command_args(c) {
                            Some(args) => {
                                self.rename = args;
                            },
                            None => {},
                        }
                    }
                },
                None => {},
            }
        }
    }

    /// Takes in the next entry.
    fn note(&mut self, entry: &Json, es: Ghost<Seq<JsonView>>)
        requires
            old(self).tells(es@),
        ensures
            final(self).tells(es@.push(entry@)),
    {
        assert(es@.push(entry@).drop_last() =~= es@);
        parser::append_searchable_text(entry, &mut self.search_text);
        self.note_metadata(entry);
        self.note_head(entry, es);
        self.note_message(entry, es);
        self.note_rename(entry);
    }

    /// The result of the scan.
    fn finish(self, tickets: Vec<String>, es: Ghost<Seq<JsonView>>) -> (r: Option<ScanResult>)
        requires
            self.tells(es@),
        ensures
            match r {
                Some(result) => result.tells(es@) && result.tickets@ == tickets@,
                None => head(es@) is None,
            },
    {
        let fallback = self.titled(self.fallback_title.clone());
        assert(fallback@ == head_of(es@, noise_title(es@)));
        let no_fallback = self.fallback_title.as_str().is_empty();
        let head = match self.head {
            Some(h) => h,
            None => {
                if no_fallback {
                    return None;
                }
                fallback
            },
        };
        let tail = if self.last_human_message.as_str().is_empty()
            && self.last_timestamp.as_str().is_empty() && self.rename.as_str().is_empty() {
            None
        } else {
            Some(
                TailMeta {
                    last_human_message: self.last_human_message,
                    last_timestamp: self.last_timestamp,
                    rename: self.rename,
                },
            )
        };
        Some(
            ScanResult {
                head,
                tail,
                search_text_lc: self.search_text,
                tickets,
                ai_title: self.ai_title,
                permission_mode: self.permission_mode,
                cc_version: self.cc_version,
                skills: self.skills.into_vec(),
                changed_files: self.changed_files.into_vec(),
                message_count: self.message_count,
            },
        )
    }
}

/// Scans the entries of a session. `tickets` are the ticket references in its
/// lines. There is a result unless nobody wrote anything and no command ran.
pub fn scan_entries(list: &Vec<Json>, tickets: Vec<String>) -> (r: Option<ScanResult>)
    ensures
        match r {
            Some(result) => result.tells(json::elements(list@)) && result.tickets@ == tickets@,
            None => head(json::elements(list@)) is None,
        },
{
    let ghost all = json::elements(list@);
    let mut scan = Scan::new();
    let mut i: usize = 0;
    assert(all.take(0) =~= Seq::empty());
    while i < list.len()
        invariant
            i <= list@.len(),
            all == json::elements(list@),
            scan.tells(all.take(i as int)),
        decreases list@.len() - i,
    {
        proof {
            assert(all.take(i as int).push(all[i as int]) =~= all.take(i + 1));
        }
        scan.note(&list[i], Ghost(all.take(i as int)));
        i += 1;
    }
    assert(all.take(all.len() as int) =~= all);
    scan.finish(tickets, Ghost(all))
}

/// Scans the lines of a session. Blank lines and lines that hold no document
/// are passed over, though ticket references count on any line that is not
/// blank. There is a result unless nobody wrote anything and no command ran.
pub fn scan_session(lines: &Vec<String>) -> (r: Option<ScanResult>)
    ensures
        match r {
            Some(result) => {
                &&& result.tells(entries(text::views(lines@)))
                &&& string_set::ascending(text::views(result.tickets@))
                &&& text::views(result.tickets@).to_set() == ticket::tickets_in_lines(
                    text::views(lines@),
                )
            },
            None => head(entries(text::views(lines@))) is None,
        },
{
    let ghost vs = text::views(lines@);
    let mut scan = Scan::new();
    let mut i: usize = 0;
    while i < lines.len()
        invariant
            i <= lines@.len(),
            vs == text::views(lines@),
            scan.tells(entries(vs.take(i as int))),
        decreases lines@.len() - i,
    {
        proof {
            assert(vs.take(i + 1).drop_last() =~= vs.take(i as int));
        }
        let line = lines[i].as_str();
        if !text::is_blank(line) {
            match json::parse_json(line) {
                Some(entry) => scan.note(&entry, Ghost(entries(vs.take(i as int)))),
                None => {},
            }
        }
        i += 1;
    }
    assert(vs.take(vs.len() as int) =~= vs);
    scan.finish(ticket::tickets_of(lines), Ghost(entries(vs)))
}

/// The length of the first line of `b`, without its newline.
pub open spec fn line_len(b: Seq<u8>) -> nat
    decreases b.len(),
{
    if b.len() == 0 || b[0] == 10 {
        0
    } else {
        1 + line_len(b.skip(1))
    }
}

/// The first line of `b`: without its newline, and without the carriage return
/// before that.
pub open spec fn first_line(b: Seq<u8>) -> Seq<u8> {
    let n = line_len(b) as int;
    if n < b.len() && n > 0 && b[n - 1] == 13 {
        b.take(n - 1)
    } else {
        b.take(n)
    }
}

/// What follows the first line of `b` and its newline.
pub open spec fn after_line(b: Seq<u8>) -> Seq<u8> {
    let n = line_len(b) as int;
    if n < b.len() {
        b.skip(n + 1)
    } else {
        Seq::empty()
    }
}

/// The lines of a file that are valid UTF-8.
pub open spec fn file_lines(b: Seq<u8>) -> Seq<Seq<char>>
    decreases b.len(),
{
    if b.len() == 0 {
        Seq::empty()
    } else {
        let line = first_line(b);
        let rest = file_lines(after_line(b));
        if vstd::utf8::valid_utf8(line) {
            seq![vstd::utf8::decode_utf8(line)] + rest
        } else {
            rest
        }
    }
}

/// `std::str::from_utf8` yields the text that the bytes encode, and fails
/// exactly where they are not valid UTF-8.
#[verifier::external_body]
fn decode(bytes: &[u8]) -> (r: Option<String>)
    ensures
        match r {
            Some(s) => vstd::utf8::valid_utf8(bytes@) && s@ == vstd::utf8::decode_utf8(bytes@),
            None => !vstd::utf8::valid_utf8(bytes@),
        },
{
    match std::str::from_utf8(bytes) {
        Ok(s) => Some(s.to_string()),
        Err(_) => None,
    }
}

/// The lines of a file that are valid UTF-8, in order.
pub fn lines_of(contents: &[u8]) -> (r: Vec<String>)
    ensures
        text::views(r@) == file_lines(contents@),
{
    let ghost all = contents@;
    let mut out: Vec<String> = Vec::new();
    let mut i: usize = 0;
    assert(all.skip(0) =~= all);
    while i < contents.len()
        invariant
            i <= contents@.len(),
            all == contents@,
            text::views(out@) + file_lines(all.skip(i as int)) == file_lines(all),
        decreases contents@.len() - i,
    {
        let ghost rest = all.skip(i as int);
        let ghost before = text::views(out@);
        let mut j: usize = i;
        while j < contents.len() && contents[j] != 10
            invariant
                i <= j <= contents@.len(),
                all == contents@,
                j - i + line_len(all.skip(j as int)) == line_len(all.skip(i as int)),
            decreases contents@.len() - j,
        {
            assert(all.skip(j as int).skip(1) =~= all.skip(j + 1));
            j += 1;
        }
        let cut = j < contents.len() && i < j && contents[j - 1] == 13;
        let end = if cut {
            j - 1
        } else {
            j
        };
        assert(line_len(rest) == j - i);
        assert(rest.take(end - i) =~= all.subrange(i as int, end as int));
        let line = vstd::slice::slice_subrange(contents, i, end);
        assert(line@ =~= first_line(rest));
        let next = if j < contents.len() {
            j + 1
        } else {
            j
        };
        assert(all.skip(next as int) =~= after_line(rest));
        match decode(line) {
            Some(s) => {
                out.push(s);
                assert(text::views(out@) =~= before.push(s@));
                assert(text::views(out@) + file_lines(all.skip(next as int)) =~= before
                    + file_lines(rest));
            },
            None => {},
        }
        i = next;
    }
    assert(text::views(out@) + file_lines(all.skip(i as int)) =~= text::views(out@));
    out
}

/// Whether an entry is a user turn with the text `t`, and neither a meta turn nor
/// the result of a tool.
pub open spec fn is_turn(e: JsonView, t: Seq<char>) -> bool {
    &&& e.text_at("type"@) == Some("user"@)
    &&& e.field("isMeta"@) != Some(JsonView::Bool(true))
    &&& e.field("toolUseResult"@) is None
    &&& e.field("message"@) is Some
    &&& e.field("message"@)->0.field("content"@) == Some(JsonView::Text(t))
}

/// A user turn that is not blank, and opens with none of the six tags that a
/// machine writes, is a message that a person wrote.
pub proof fn turns_are_messages(e: JsonView, a: Seq<char>, core: Seq<char>, b: Seq<char>)
    requires
        text::all_blank(a),
        text::is_core(core),
        text::all_blank(b),
        !text::begins(core, "<command-name>"@),
        !text::begins(core, "<command-message>"@),
        !text::begins(core, "<local-command-stdout>"@),
        !text::begins(core, "<local-command-caveat>"@),
        !text::begins(core, "<task-notification>"@),
        !text::begins(core, "<system-reminder>"@),
        is_turn(e, a + core + b),
    ensures
        is_spoken(e),
{
    parser::core_is_no_noise(a, core, b);
    text::trimming_leaves_the_core(a, core, b);
}

/// An entry of any other type, a meta turn, the result of a tool, a blank turn and
/// one that opens with a tag that a machine writes is no message of a person.
pub proof fn other_entries_are_no_messages(
    e: JsonView,
    blank: Seq<char>,
    tag: Seq<char>,
    rest: Seq<char>,
)
    requires
        text::all_blank(blank),
    ensures
        e.text_at("type"@) != Some("user"@) ==> !is_spoken(e),
        e.field("isMeta"@) == Some(JsonView::Bool(true)) ==> !is_spoken(e),
        e.field("toolUseResult"@) is Some ==> !is_spoken(e),
        e.field("message"@) is None ==> !is_spoken(e),
        is_turn(e, blank) ==> !is_spoken(e),
        is_turn(e, blank + (tag + rest)) && (tag == "<command-name>"@ || tag
            == "<command-message>"@ || tag == "<local-command-stdout>"@ || tag
            == "<local-command-caveat>"@ || tag == "<task-notification>"@ || tag
            == "<system-reminder>"@) ==> !is_spoken(e),
{
    text::trimming_leaves_nothing_of_blanks(blank);
    if is_turn(e, blank + (tag + rest)) && (tag == "<command-name>"@ || tag
        == "<command-message>"@ || tag == "<local-command-stdout>"@ || tag
        == "<local-command-caveat>"@ || tag == "<task-notification>"@ || tag
        == "<system-reminder>"@) {
        parser::machine_tags_are_noise(blank, tag, rest);
    }
}

/// The entries of a session are those of its lines, part by part.
pub proof fn entries_join(x: Seq<Seq<char>>, y: Seq<Seq<char>>)
    ensures
        entries(x + y) == entries(x) + entries(y),
    decreases y.len(),
{
    if y.len() == 0 {
        assert(x + y =~= x);
        assert(entries(x) + entries(y) =~= entries(x));
    } else {
        entries_join(x, y.drop_last());
        assert((x + y).drop_last() =~= x + y.drop_last());
        assert(entries(x + y) =~= entries(x) + entries(y));
    }
}

/// A line is the document that it holds; a blank one, or one that holds none, is
/// passed over.
pub proof fn a_line_is_its_document(line: Seq<char>)
    ensures
        json::json_document(line) is None ==> entries(seq![line]).len() == 0,
        text::all_blank(line) ==> entries(seq![line]).len() == 0,
        !text::all_blank(line) && json::json_document(line) is Some ==> entries(seq![line])
            == seq![json::json_document(line)->0],
{
    text::text_has_a_core(line);
    assert(seq![line].drop_last() =~= Seq::<Seq<char>>::empty());
    assert(entries(Seq::empty()) == Seq::<JsonView>::empty());
    if text::all_blank(line) {
        text::trimming_leaves_nothing_of_blanks(line);
    } else {
        let (a, core, b) = choose|a: Seq<char>, core: Seq<char>, b: Seq<char>|
            #![trigger a + core + b]
            line == a + core + b && text::all_blank(a) && text::is_core(core)
                && text::all_blank(b);
        text::trimming_leaves_the_core(a, core, b);
        if json::json_document(line) is Some {
            assert(entries(seq![line]) =~= seq![json::json_document(line)->0]);
        }
    }
}

/// The search text of a session is that of its parts, one behind the other.
pub proof fn search_text_joins(x: Seq<JsonView>, y: Seq<JsonView>)
    ensures
        search_text(x + y) == search_text(x) + search_text(y),
    decreases y.len(),
{
    if y.len() == 0 {
        assert(x + y =~= x);
        assert(search_text(x) + search_text(y) =~= search_text(x));
    } else {
        search_text_joins(x, y.drop_last());
        assert((x + y).drop_last() =~= x + y.drop_last());
        assert(search_text(x + y) =~= search_text(x) + search_text(y));
    }
}

/// One entry adds to the search text what is written in it.
pub proof fn search_text_of_one(e: JsonView)
    ensures
        search_text(seq![e]) == parser::entry_text(e),
{
    assert(seq![e].drop_last() =~= Seq::<JsonView>::empty());
    assert(search_text(Seq::empty()) == Seq::<char>::empty());
    assert(search_text(seq![e]) =~= parser::entry_text(e));
}

/// What stands in the search text of an entry stands in that of its session.
proof fn entry_is_in_search_text(es: Seq<JsonView>, i: int, m: Seq<char>)
    requires
        0 <= i < es.len(),
        text::contains(parser::entry_text(es[i]), m),
    ensures
        text::contains(search_text(es), m),
{
    let x = es.take(i);
    let y = es.skip(i + 1);
    search_text_joins(x, seq![es[i]]);
    search_text_joins(x + seq![es[i]], y);
    search_text_of_one(es[i]);
    assert(es =~= x + seq![es[i]] + y);
    text::found_in_part_is_found(search_text(x), parser::entry_text(es[i]), search_text(y), m);
}

/// Whatever was said, thought, asked of a tool or answered by one can be searched
/// for in full: the lower-case form of each such piece, from its first character
/// that is no blank to its last, stands in the search text of the session. Text
/// that opens with a tag that a machine writes is left out.
pub proof fn all_pieces_are_searchable(
    es: Seq<JsonView>,
    i: int,
    blocks: Seq<JsonView>,
    j: int,
    a: Seq<char>,
    core: Seq<char>,
    b: Seq<char>,
)
    requires
        0 <= i < es.len(),
        es[i].field("message"@) is Some,
        es[i].field("message"@)->0.field("content"@) == Some(JsonView::List(blocks)),
        0 <= j < blocks.len(),
        text::all_blank(a),
        text::is_core(core),
        text::all_blank(b),
        parser::holds_piece(blocks[j], a + core + b),
        blocks[j].text_at("type"@) == Some("text"@) ==> {
            &&& !text::begins(core, "<command-name>"@)
            &&& !text::begins(core, "<command-message>"@)
            &&& !text::begins(core, "<local-command-stdout>"@)
            &&& !text::begins(core, "<local-command-caveat>"@)
            &&& !text::begins(core, "<task-notification>"@)
            &&& !text::begins(core, "<system-reminder>"@)
        },
    ensures
        text::contains(search_text(es), text::lowercase(core)),
        text::contains(search_text(es), text::lowercase(core) + "\n"@),
{
    parser::block_pieces_are_held(es[i], blocks, j, a, core, b);
    entry_is_in_search_text(es, i, text::lowercase(core) + "\n"@);
    line_holds_its_text(search_text(es), text::lowercase(core));
}

/// What holds a line holds its text.
proof fn line_holds_its_text(s: Seq<char>, t: Seq<char>)
    requires
        text::contains(s, t + "\n"@),
    ensures
        text::contains(s, t),
{
    let i = choose|i: int| text::occurs_at(s, t + "\n"@, i);
    assert(s.subrange(i, i + t.len()) =~= (t + "\n"@).take(t.len() as int));
    assert((t + "\n"@).take(t.len() as int) =~= t);
    assert(text::occurs_at(s, t, i));
}

/// A message that is a text, whoever wrote it, enters the search text in full,
/// unless it opens with a tag that a machine writes.
pub proof fn messages_enter_in_full(
    es: Seq<JsonView>,
    i: int,
    a: Seq<char>,
    core: Seq<char>,
    b: Seq<char>,
)
    requires
        0 <= i < es.len(),
        es[i].field("message"@) is Some,
        es[i].field("message"@)->0.field("content"@) == Some(JsonView::Text(a + core + b)),
        text::all_blank(a),
        text::is_core(core),
        text::all_blank(b),
        !text::begins(core, "<command-name>"@),
        !text::begins(core, "<command-message>"@),
        !text::begins(core, "<local-command-stdout>"@),
        !text::begins(core, "<local-command-caveat>"@),
        !text::begins(core, "<task-notification>"@),
        !text::begins(core, "<system-reminder>"@),
    ensures
        text::contains(search_text(es), text::lowercase(core)),
        parser::entry_text(es[i]) == text::lowercase(core) + "\n"@,
{
    let none = Seq::<char>::empty();
    let line = text::lowercase(core) + "\n"@;
    parser::core_is_no_noise(a, core, b);
    parser::pieces_enter_the_search_text_whole(a, core, b);
    text::infix_is_found(none, line, none);
    assert(none + line + none =~= line);
    entry_is_in_search_text(es, i, line);
    line_holds_its_text(search_text(es), text::lowercase(core));
}

/// The messages of a session are those of its parts together.
pub proof fn message_count_joins(x: Seq<JsonView>, y: Seq<JsonView>)
    ensures
        message_count(x + y) == message_count(x) + message_count(y),
    decreases y.len(),
{
    if y.len() == 0 {
        assert(x + y =~= x);
    } else {
        message_count_joins(x, y.drop_last());
        assert((x + y).drop_last() =~= x + y.drop_last());
    }
}

/// A message of a person counts once, unless it is in a side chain; what is no
/// message does not count.
pub proof fn a_message_counts_once(e: JsonView)
    ensures
        is_spoken(e) && e.field("isSidechain"@) != Some(JsonView::Bool(true)) ==> message_count(
            seq![e],
        ) == 1,
        is_spoken(e) && e.field("isSidechain"@) == Some(JsonView::Bool(true)) ==> message_count(
            seq![e],
        ) == 0,
        !is_spoken(e) ==> message_count(seq![e]) == 0,
{
    assert(seq![e].drop_last() =~= Seq::<JsonView>::empty());
    assert(message_count(Seq::empty()) == 0);
}

/// Of the texts under a key, the first that is not empty is kept.
pub proof fn first_text_is_kept(es: Seq<JsonView>, key: Seq<char>, i: int, t: Seq<char>)
    requires
        0 <= i < es.len(),
        es[i].text_at(key) == Some(t),
        t.len() > 0,
        forall|j: int|
            0 <= j < i ==> (#[trigger] es[j]).text_at(key) is None || es[j].text_at(key)->0.len()
                == 0,
    ensures
        first_text(es, key) == t,
    decreases es.len(),
{
    let front = es.drop_last();
    if i < front.len() {
        first_text_is_kept(front, key, i, t);
    } else {
        no_text_is_none(front, key);
    }
}

/// Where no entry has a text under a key, none is kept.
pub proof fn no_text_is_none(es: Seq<JsonView>, key: Seq<char>)
    requires
        forall|j: int|
            0 <= j < es.len() ==> (#[trigger] es[j]).text_at(key) is None || es[j].text_at(
                key,
            )->0.len() == 0,
    ensures
        first_text(es, key).len() == 0,
    decreases es.len(),
{
    if es.len() > 0 {
        let front = es.drop_last();
        assert forall|j: int| 0 <= j < front.len() implies (#[trigger] front[j]).text_at(key)
            is None || front[j].text_at(key)->0.len() == 0 by {
            assert(front[j] == es[j]);
        }
        no_text_is_none(front, key);
        assert(es[es.len() - 1] == es.last());
    }
}

/// Of the texts under a key, the last is kept.
pub proof fn last_text_is_kept(es: Seq<JsonView>, key: Seq<char>, i: int, t: Seq<char>)
    requires
        0 <= i < es.len(),
        es[i].text_at(key) == Some(t),
        forall|j: int| i < j < es.len() ==> (#[trigger] es[j]).text_at(key) is None,
    ensures
        last_text(es, key) == t,
    decreases es.len(),
{
    let front = es.drop_last();
    if i < front.len() {
        assert(es[es.len() - 1].text_at(key) is None);
        last_text_is_kept(front, key, i, t);
    }
}

/// Of the texts that entries of one type have under a key, the last is kept.
pub proof fn last_text_of_type_is_kept(
    es: Seq<JsonView>,
    kind: Seq<char>,
    key: Seq<char>,
    i: int,
    t: Seq<char>,
)
    requires
        0 <= i < es.len(),
        es[i].text_at("type"@) == Some(kind),
        es[i].text_at(key) == Some(t),
        forall|j: int|
            i < j < es.len() ==> (#[trigger] es[j]).text_at("type"@) != Some(kind)
                || es[j].text_at(key) is None,
    ensures
        last_text_of(es, kind, key) == t,
    decreases es.len(),
{
    let front = es.drop_last();
    if i < front.len() {
        assert(es[es.len() - 1] == es.last());
        last_text_of_type_is_kept(front, kind, key, i, t);
    }
}

/// Where no entry of a type has a text under a key, none is kept.
pub proof fn no_text_of_type_is_none(es: Seq<JsonView>, kind: Seq<char>, key: Seq<char>)
    requires
        forall|j: int|
            0 <= j < es.len() ==> (#[trigger] es[j]).text_at("type"@) != Some(kind)
                || es[j].text_at(key) is None,
    ensures
        last_text_of(es, kind, key).len() == 0,
    decreases es.len(),
{
    if es.len() > 0 {
        let front = es.drop_last();
        assert(es[es.len() - 1] == es.last());
        assert forall|j: int| 0 <= j < front.len() implies (#[trigger] front[j]).text_at("type"@)
            != Some(kind) || front[j].text_at(key) is None by {
            assert(front[j] == es[j]);
        }
        no_text_of_type_is_none(front, kind, key);
    }
}

/// The skills of a session are the texts that its entries attribute themselves to.
pub proof fn skills_are_those_attributed(es: Seq<JsonView>, t: Seq<char>)
    ensures
        skills(es).contains(t) <==> t.len() > 0 && exists|i: int|
            0 <= i < es.len() && (#[trigger] es[i]).text_at("attributionSkill"@) == Some(t),
    decreases es.len(),
{
    if es.len() > 0 {
        let front = es.drop_last();
        skills_are_those_attributed(front, t);
        if skills(front).contains(t) {
            let i = choose|i: int|
                0 <= i < front.len() && (#[trigger] front[i]).text_at("attributionSkill"@) == Some(
                    t,
                );
            assert(es[i].text_at("attributionSkill"@) == Some(t));
        }
        assert(es[es.len() - 1] == es.last());
        if t.len() > 0 && exists|i: int|
            0 <= i < es.len() && (#[trigger] es[i]).text_at("attributionSkill"@) == Some(t) {
            let i = choose|i: int|
                0 <= i < es.len() && (#[trigger] es[i]).text_at("attributionSkill"@) == Some(t);
            if i < front.len() {
                assert(front[i].text_at("attributionSkill"@) == Some(t));
            }
        }
    }
}

/// Whether an entry is a file-history snapshot that tracks a path.
pub open spec fn tracks(e: JsonView, path: Seq<char>) -> bool {
    &&& e.text_at("type"@) == Some("file-history-snapshot"@)
    &&& e.field("snapshot"@) is Some
    &&& e.field("snapshot"@)->0.field("trackedFileBackups"@) is Some
    &&& e.field("snapshot"@)->0.field("trackedFileBackups"@)->0 is Object
    &&& exists|k: int|
        0 <= k < e.field("snapshot"@)->0.field("trackedFileBackups"@)->0->Object_0.len() && (
        #[trigger] e.field("snapshot"@)->0.field("trackedFileBackups"@)->0->Object_0[k]).key
            == path
}

/// The keys of an object are those of its members.
pub proof fn keys_are_those_of_members(members: Seq<json::MemberView>, key: Seq<char>)
    ensures
        keys(members).contains(key) <==> exists|k: int|
            0 <= k < members.len() && (#[trigger] members[k]).key == key,
    decreases members.len(),
{
    if members.len() > 0 {
        let front = members.drop_last();
        keys_are_those_of_members(front, key);
        if keys(front).contains(key) {
            let k = choose|k: int| 0 <= k < front.len() && (#[trigger] front[k]).key == key;
            assert(members[k].key == key);
        }
        assert(members[members.len() - 1] == members.last());
        if exists|k: int| 0 <= k < members.len() && (#[trigger] members[k]).key == key {
            let k = choose|k: int| 0 <= k < members.len() && (#[trigger] members[k]).key == key;
            if k < front.len() {
                assert(front[k].key == key);
            }
        }
    }
}

/// The changed files of a session are the paths that any of its file-history
/// snapshots tracks.
pub proof fn changed_files_are_those_tracked(es: Seq<JsonView>, path: Seq<char>)
    ensures
        changed_files(es).contains(path) <==> exists|i: int|
            0 <= i < es.len() && tracks(#[trigger] es[i], path),
    decreases es.len(),
{
    if es.len() > 0 {
        let front = es.drop_last();
        let e = es.last();
        changed_files_are_those_tracked(front, path);
        assert(tracked_files(e).contains(path) <==> tracks(e, path)) by {
            if e.field("snapshot"@) is Some && e.field("snapshot"@)->0.field("trackedFileBackups"@)
                is Some && e.field("snapshot"@)->0.field("trackedFileBackups"@)->0 is Object {
                keys_are_those_of_members(
                    e.field("snapshot"@)->0.field("trackedFileBackups"@)->0->Object_0,
                    path,
                );
            }
        }
        if changed_files(front).contains(path) {
            let i = choose|i: int| 0 <= i < front.len() && tracks(#[trigger] front[i], path);
            assert(tracks(es[i], path));
        }
        assert(es[es.len() - 1] == e);
        if exists|i: int| 0 <= i < es.len() && tracks(#[trigger] es[i], path) {
            let i = choose|i: int| 0 <= i < es.len() && tracks(#[trigger] es[i], path);
            if i < front.len() {
                assert(tracks(front[i], path));
            }
        }
    }
}

/// The last message of a person is the one to be told where the session was left,
/// by its first two hundred characters.
pub proof fn last_message_is_told(
    x: Seq<JsonView>,
    e: JsonView,
    y: Seq<JsonView>,
    a: Seq<char>,
    core: Seq<char>,
    b: Seq<char>,
)
    requires
        text::all_blank(a),
        text::is_core(core),
        text::all_blank(b),
        !text::begins(core, "<command-name>"@),
        !text::begins(core, "<command-message>"@),
        !text::begins(core, "<local-command-stdout>"@),
        !text::begins(core, "<local-command-caveat>"@),
        !text::begins(core, "<task-notification>"@),
        !text::begins(core, "<system-reminder>"@),
        is_turn(e, a + core + b),
        forall|j: int| 0 <= j < y.len() ==> !is_spoken(#[trigger] y[j]),
    ensures
        last_message(x.push(e) + y) == if core.len() > 200 {
            core.take(200) + "…"@
        } else {
            core
        },
    decreases y.len(),
{
    let es = x.push(e) + y;
    if y.len() == 0 {
        assert(es =~= x.push(e));
        turns_are_messages(e, a, core, b);
        parser::headline_is_the_start(a, core, b);
    } else {
        let front = y.drop_last();
        assert forall|j: int| 0 <= j < front.len() implies !is_spoken(#[trigger] front[j]) by {
            assert(front[j] == y[j]);
        }
        last_message_is_told(x, e, front, a, core, b);
        assert(es.drop_last() =~= x.push(e) + front);
        assert(!is_spoken(y[y.len() - 1]));
    }
}

/// The first message of a person gives a session its title, by its first two
/// hundred characters, and what was noted up to it gives its branch, slug,
/// directory and start.
pub proof fn first_message_is_the_title(
    x: Seq<JsonView>,
    e: JsonView,
    y: Seq<JsonView>,
    a: Seq<char>,
    core: Seq<char>,
    b: Seq<char>,
)
    requires
        text::all_blank(a),
        text::is_core(core),
        text::all_blank(b),
        !text::begins(core, "<command-name>"@),
        !text::begins(core, "<command-message>"@),
        !text::begins(core, "<local-command-stdout>"@),
        !text::begins(core, "<local-command-caveat>"@),
        !text::begins(core, "<task-notification>"@),
        !text::begins(core, "<system-reminder>"@),
        is_turn(e, a + core + b),
        forall|j: int| 0 <= j < x.len() ==> !is_spoken(#[trigger] x[j]),
    ensures
        head(x.push(e) + y) == Some(
            HeadView {
                title: if core.len() > 200 {
                    core.take(200) + "…"@
                } else {
                    core
                },
                branch: first_text(x.push(e), "gitBranch"@),
                slug: first_text(x.push(e), "slug"@),
                first_timestamp: first_text(x.push(e), "timestamp"@),
                cwd: first_text(x.push(e), "cwd"@),
            },
        ),
    decreases y.len(),
{
    let es = x.push(e) + y;
    if y.len() == 0 {
        assert(es =~= x.push(e));
        turns_are_messages(e, a, core, b);
        parser::headline_is_the_start(a, core, b);
        no_head_without_message(x);
        assert(x.push(e).drop_last() =~= x);
    } else {
        first_message_is_the_title(x, e, y.drop_last(), a, core, b);
        assert(es.drop_last() =~= x.push(e) + y.drop_last());
        some_message_stays(x.push(e) + y.drop_last(), x.len() as int);
        turns_are_messages(e, a, core, b);
    }
}

proof fn no_head_without_message(es: Seq<JsonView>)
    requires
        forall|j: int| 0 <= j < es.len() ==> !is_spoken(#[trigger] es[j]),
    ensures
        spoken_head(es) is None,
    decreases es.len(),
{
    if es.len() > 0 {
        let front = es.drop_last();
        assert forall|j: int| 0 <= j < front.len() implies !is_spoken(#[trigger] front[j]) by {
            assert(front[j] == es[j]);
        }
        assert(!is_spoken(es[es.len() - 1]));
        no_head_without_message(front);
    }
}

proof fn some_message_stays(es: Seq<JsonView>, i: int)
    requires
        0 <= i < es.len(),
    ensures
        is_spoken(es[i]) ==> spoken_head(es) is Some,
    decreases es.len(),
{
    if i < es.len() - 1 {
        some_message_stays(es.drop_last(), i);
    }
}

/// A session in which nobody wrote anything has a title only from the commands
/// that ran in it, and is none without them.
pub proof fn silent_sessions_are_told_by_commands(es: Seq<JsonView>)
    requires
        forall|j: int| 0 <= j < es.len() ==> !is_spoken(#[trigger] es[j]),
    ensures
        (forall|j: int| 0 <= j < es.len() ==> !is_noise_turn(#[trigger] es[j])) ==> head(es)
            is None,
        (exists|j: int| 0 <= j < es.len() && is_noise_turn(#[trigger] es[j])) ==> head(es) is Some
            && exists|j: int|
            0 <= j < es.len() && is_noise_turn(#[trigger] es[j]) && head(es)->0.title
                == parser::noise_title(parser::content_text(es[j])->0),
{
    no_head_without_message(es);
    noise_title_is_of_a_turn(es);
}

proof fn noise_title_is_of_a_turn(es: Seq<JsonView>)
    ensures
        (forall|j: int| 0 <= j < es.len() ==> !is_noise_turn(#[trigger] es[j])) ==> noise_title(
            es,
        ).len() == 0,
        (exists|j: int| 0 <= j < es.len() && is_noise_turn(#[trigger] es[j])) ==> noise_title(
            es,
        ).len() > 0 && exists|j: int|
            0 <= j < es.len() && is_noise_turn(#[trigger] es[j]) && noise_title(es)
                == parser::noise_title(parser::content_text(es[j])->0),
    decreases es.len(),
{
    if es.len() > 0 {
        let front = es.drop_last();
        noise_title_is_of_a_turn(front);
        assert forall|j: int| 0 <= j < front.len() implies (#[trigger] front[j]) == es[j] by {}
        if noise_title(front).len() > 0 {
            let j = choose|j: int|
                0 <= j < front.len() && is_noise_turn(#[trigger] front[j]) && noise_title(front)
                    == parser::noise_title(parser::content_text(front[j])->0);
            assert(is_noise_turn(es[j]));
        } else {
            assert forall|j: int| 0 <= j < front.len() implies !is_noise_turn(
                #[trigger] front[j],
            ) by {}
            assert(es[es.len() - 1] == es.last());
            if is_noise_turn(es.last()) {
                let c = parser::content_text(es.last())->0;
                reveal_strlit("(command output)");
                assert(parser::noise_title(c).len() > 0);
            } else if exists|j: int| 0 <= j < es.len() && is_noise_turn(#[trigger] es[j]) {
                let j = choose|j: int| 0 <= j < es.len() && is_noise_turn(#[trigger] es[j]);
                assert(is_noise_turn(front[j]));
            }
        }
    }
}

/// A session has the name that its last `/rename` gave.
pub proof fn last_rename_is_kept(x: Seq<JsonView>, e: JsonView, y: Seq<JsonView>, args: Seq<char>)
    requires
        e.text_at("subtype"@) == Some("local_command"@),
        e.text_at("content"@) is Some,
        text::contains(e.text_at("content"@)->0, "<command-name>/rename</command-name>"@),
        parser::command_args(e.text_at("content"@)->0) == Some(args),
        forall|j: int|
            0 <= j < y.len() ==> (#[trigger] y[j]).text_at("subtype"@) != Some("local_command"@)
                || y[j].text_at("content"@) is None || !text::contains(
                y[j].text_at("content"@)->0,
                "<command-name>/rename</command-name>"@,
            ),
    ensures
        rename(x.push(e) + y) == args,
    decreases y.len(),
{
    let es = x.push(e) + y;
    if y.len() == 0 {
        assert(es =~= x.push(e));
    } else {
        let front = y.drop_last();
        assert forall|j: int| 0 <= j < front.len() implies (#[trigger] front[j]).text_at(
            "subtype"@,
        ) != Some("local_command"@) || front[j].text_at("content"@) is None || !text::contains(
            front[j].text_at("content"@)->0,
            "<command-name>/rename</command-name>"@,
        ) by {
            assert(front[j] == y[j]);
        }
        last_rename_is_kept(x, e, front, args);
        assert(es.drop_last() =~= x.push(e) + front);
        assert(es.last() == y[y.len() - 1]);
    }
}

/// The result of a scan tells the latest generated title and permission mode, the
/// first version, and the latest time.
pub proof fn results_tell_what_was_noted(r: ScanResult, es: Seq<JsonView>, i: int, t: Seq<char>)
    requires
        r.tells(es),
        0 <= i < es.len(),
        t.len() > 0,
    ensures
        es[i].text_at("type"@) == Some("ai-title"@) && es[i].text_at("aiTitle"@) == Some(t) && (
        forall|j: int|
            i < j < es.len() ==> (#[trigger] es[j]).text_at("type"@) != Some("ai-title"@))
            ==> r.ai_title@ == t,
        es[i].text_at("type"@) == Some("permission-mode"@) && es[i].text_at("permissionMode"@)
            == Some(t) && (forall|j: int|
            i < j < es.len() ==> (#[trigger] es[j]).text_at("type"@) != Some("permission-mode"@))
            ==> r.permission_mode@ == t,
        es[i].text_at("version"@) == Some(t) && (forall|j: int|
            0 <= j < i ==> (#[trigger] es[j]).text_at("version"@) is None) ==> r.cc_version@ == t,
        es[i].text_at("timestamp"@) == Some(t) && (forall|j: int|
            i < j < es.len() ==> (#[trigger] es[j]).text_at("timestamp"@) is None) ==> r.tail
            is Some && r.tail->0.last_timestamp@ == t,
{
    if es[i].text_at("type"@) == Some("ai-title"@) && es[i].text_at("aiTitle"@) == Some(t) && (
    forall|j: int|
        i < j < es.len() ==> (#[trigger] es[j]).text_at("type"@) != Some("ai-title"@)) {
        last_text_of_type_is_kept(es, "ai-title"@, "aiTitle"@, i, t);
    }
    if es[i].text_at("type"@) == Some("permission-mode"@) && es[i].text_at("permissionMode"@)
        == Some(t) && (forall|j: int|
        i < j < es.len() ==> (#[trigger] es[j]).text_at("type"@) != Some("permission-mode"@)) {
        last_text_of_type_is_kept(es, "permission-mode"@, "permissionMode"@, i, t);
    }
    if es[i].text_at("version"@) == Some(t) && (forall|j: int|
        0 <= j < i ==> (#[trigger] es[j]).text_at("version"@) is None) {
        first_text_is_kept(es, "version"@, i, t);
    }
    if es[i].text_at("timestamp"@) == Some(t) && (forall|j: int|
        i < j < es.len() ==> (#[trigger] es[j]).text_at("timestamp"@) is None) {
        last_text_is_kept(es, "timestamp"@, i, t);
    }
}

proof fn lemma_line_len(line: Seq<u8>, rest: Seq<u8>)
    requires
        forall|i: int| 0 <= i < line.len() ==> (#[trigger] line[i]) != 10,
        rest.len() == 0 || rest[0] == 10,
    ensures
        line_len(line + rest) == line.len(),
    decreases line.len(),
{
    let s = line + rest;
    if line.len() == 0 {
        assert(s =~= rest);
    } else {
        let tail = line.skip(1);
        assert forall|i: int| 0 <= i < tail.len() implies (#[trigger] tail[i]) != 10 by {
            assert(tail[i] == line[i + 1]);
        }
        assert(s[0] == line[0]);
        assert(s.skip(1) =~= tail + rest);
        lemma_line_len(tail, rest);
    }
}

/// A file is its lines: what stands before a line break, without a carriage return
/// at its end, is the first if it is valid UTF-8, and the lines behind the break
/// follow; the last line needs no break.
pub proof fn files_are_split_at_line_breaks(line: Seq<u8>, rest: Seq<u8>)
    requires
        forall|i: int| 0 <= i < line.len() ==> (#[trigger] line[i]) != 10,
        line.len() == 0 || line.last() != 13,
    ensures
        vstd::utf8::valid_utf8(line) ==> file_lines(line + seq![10u8] + rest) == seq![
            vstd::utf8::decode_utf8(line),
        ] + file_lines(rest),
        vstd::utf8::valid_utf8(line) ==> file_lines(line + seq![13u8, 10u8] + rest) == seq![
            vstd::utf8::decode_utf8(line),
        ] + file_lines(rest),
        !vstd::utf8::valid_utf8(line) ==> file_lines(line + seq![10u8] + rest) == file_lines(rest),
        vstd::utf8::valid_utf8(line) && line.len() > 0 ==> file_lines(line) == seq![
            vstd::utf8::decode_utf8(line),
        ],
{
    let n = line.len() as int;
    let s = line + seq![10u8] + rest;
    let tail = seq![10u8] + rest;
    lemma_line_len(line, tail);
    assert(line + tail =~= s);
    assert(s.take(n) =~= line);
    assert(n > 0 ==> s[n - 1] == line[n - 1]);
    assert(after_line(s) =~= rest);
    let l = line.push(13);
    let r = seq![10u8] + rest;
    let u = line + seq![13u8, 10u8] + rest;
    assert forall|i: int| 0 <= i < l.len() implies (#[trigger] l[i]) != 10 by {
        if i < n {
            assert(l[i] == line[i]);
        }
    }
    lemma_line_len(l, r);
    assert(l + r =~= u);
    assert(u[n] == 13);
    assert(u.take(n) =~= line);
    assert(after_line(u) =~= rest);
    lemma_line_len(line, Seq::empty());
    assert(line + Seq::<u8>::empty() =~= line);
    assert(line.take(n) =~= line);
    assert(file_lines(Seq::empty()) == Seq::<Seq<char>>::empty());
    if line.len() > 0 && vstd::utf8::valid_utf8(line) {
        assert(file_lines(line) =~= seq![vstd::utf8::decode_utf8(line)]);
    }
}

} // verus!
