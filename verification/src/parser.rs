//! Session records: one JSON document per line, read into session metadata,
//! searchable text and conversations.

use crate::json;
use crate::json::Json;
use crate::json::JsonView;
use crate::text;
use vstd::prelude::*;

pub use crate::conversation::{extract_conversation, extract_conversation_ext, summarize_tool_use};
pub use crate::scan::{lines_of, scan_session, HeadMeta, ScanResult, TailMeta};
pub use crate::ticket::extract_tickets_into;

verus! {

/// Who wrote a message of a conversation.
#[derive(Debug, Clone, Copy, PartialEq, Eq, Structural)]
pub enum Role {
    User,
    Assistant,
}

/// Who produced a preview line. `Tool` lines are only emitted when tool
/// activity is requested.
#[derive(Debug, Clone, Copy, PartialEq, Eq, Structural)]
pub enum Speaker {
    User,
    Assistant,
    Tool,
}

impl Speaker {
    /// Render prefix shown before the message text.
    pub open spec fn prefix_text(self) -> Seq<char> {
        match self {
            Speaker::User => "USER: "@,
            Speaker::Assistant => "ASST: "@,
            Speaker::Tool => "TOOL: "@,
        }
    }

    /// Lowercased prefix.
    pub open spec fn prefix_lc_text(self) -> Seq<char> {
        match self {
            Speaker::User => "user: "@,
            Speaker::Assistant => "asst: "@,
            Speaker::Tool => "tool: "@,
        }
    }

    /// Render prefix shown before the message text.
    pub fn prefix(self) -> (r: &'static str)
        ensures
            r@ == self.prefix_text(),
    {
        match self {
            Speaker::User => "USER: ",
            Speaker::Assistant => "ASST: ",
            Speaker::Tool => "TOOL: ",
        }
    }

    /// Lowercased prefix, used when wrapping pre-lowercased text for search.
    pub fn prefix_lc(self) -> (r: &'static str)
        ensures
            r@ == self.prefix_lc_text(),
    {
        match self {
            Speaker::User => "user: ",
            Speaker::Assistant => "asst: ",
            Speaker::Tool => "tool: ",
        }
    }
}

/// A message of a conversation.
#[derive(Debug)]
pub struct ConversationMessage {
    pub role: Role,
    pub text: String,
}

/// Whether `content` is machine-generated: slash-command invocations, local
/// command output, background-task notifications.
pub open spec fn is_noise(content: Seq<char>) -> bool {
    let t = text::trim_start(content);
    ||| text::has_prefix(t, "<command-name>"@)
    ||| text::has_prefix(t, "<command-message>"@)
    ||| text::has_prefix(t, "<local-command-stdout>"@)
    ||| text::has_prefix(t, "<local-command-caveat>"@)
    ||| text::has_prefix(t, "<task-notification>"@)
    ||| text::has_prefix(t, "<system-reminder>"@)
}

/// Whether `p` stands at the start of the characters of `v` from `at` on.
fn stands_at(v: &Vec<char>, at: usize, p: &str) -> (r: bool)
    requires
        at <= v@.len(),
    ensures
        r == text::has_prefix(v@.skip(at as int), p@),
{
    let w = text::chars_of(p);
    let r = text::occurs(v, &w, at);
    assert(at + w@.len() <= v@.len() ==> v@.subrange(at as int, at + w@.len()) =~= v@.skip(
        at as int,
    ).subrange(0, w@.len() as int));
    r
}

/// Machine-generated content stored as `type:"user"` turns. These must not
/// drive titles, "left off", message counts, search text, or preview lines.
pub fn is_command_noise(content: &str) -> (r: bool)
    ensures
        r == is_noise(content@),
{
    let v = text::chars_of(content);
    let at = text::skip_space(&v, 0);
    assert(v@.skip(0) =~= v@);
    stands_at(&v, at, "<command-name>") || stands_at(&v, at, "<command-message>") || stands_at(
        &v,
        at,
        "<local-command-stdout>",
    ) || stands_at(&v, at, "<local-command-caveat>") || stands_at(&v, at, "<task-notification>")
        || stands_at(&v, at, "<system-reminder>")
}

/// The text between the first `open` and the first `close` after it.
pub open spec fn between(content: Seq<char>, open: Seq<char>, close: Seq<char>) -> Option<
    Seq<char>,
> {
    match text::find_from(content, open, 0) {
        Some(i) => match text::find_from(content, close, i + open.len()) {
            Some(j) => Some(content.subrange(i + open.len(), j)),
            None => None,
        },
        None => None,
    }
}

/// The text between the first `open` and the first `close` after it.
fn text_between(content: &str, open: &str, close: &str) -> (r: Option<String>)
    ensures
        match r {
            Some(s) => between(content@, open@, close@) == Some(s@),
            None => between(content@, open@, close@) is None,
        },
{
    let v = text::chars_of(content);
    let a = text::chars_of(open);
    let b = text::chars_of(close);
    proof {
        text::lemma_find_from(v@, a@, 0);
    }
    match text::position(&v, &a, 0) {
        Some(i) => {
            assert(i + a@.len() <= v.len());
            let start = i + a.len();
            proof {
                text::lemma_find_from(v@, b@, start as int);
            }
            match text::position(&v, &b, start) {
                Some(j) => Some(text::string_of(&v, start, j)),
                None => None,
            }
        },
        None => None,
    }
}

/// The headline of a session of command noise alone: the slash command that
/// was run, or a generic label.
pub open spec fn noise_title(content: Seq<char>) -> Seq<char> {
    match between(content, "<command-name>"@, "</command-name>"@) {
        Some(name) if text::trim(name).len() > 0 => text::trim(name),
        _ => "(command output)"@,
    }
}

/// Fallback headline for sessions containing only command noise: the slash
/// command that was run, or a generic label.
pub fn command_noise_title(content: &str) -> (r: String)
    ensures
        r@ == noise_title(content@),
{
    match text_between(content, "<command-name>", "</command-name>") {
        Some(name) => {
            let t = text::trimmed(name.as_str());
            if t.as_str().is_empty() {
                "(command output)".to_owned()
            } else {
                t
            }
        },
        None => "(command output)".to_owned(),
    }
}

/// The arguments of a recorded command.
pub open spec fn command_args(content: Seq<char>) -> Option<Seq<char>> {
    between(content, "<command-args>"@, "</command-args>"@)
}

/// The text between `<command-args>` and the *following* `</command-args>`;
/// nothing when either tag is missing or the closing tag only appears before
/// the opening one.
pub fn extract_command_args(content: &str) -> (r: Option<String>)
    ensures
        match r {
            Some(s) => command_args(content@) == Some(s@),
            None => command_args(content@) is None,
        },
{
    text_between(content, "<command-args>", "</command-args>")
}

/// The longest headline, in characters.
pub const HEADLINE_CHARS: usize = 200;

/// A message as a headline: trimmed, and cut after two hundred characters.
pub open spec fn headline(content: Seq<char>) -> Seq<char> {
    let t = text::trim(content);
    if t.len() > HEADLINE_CHARS {
        t.take(HEADLINE_CHARS as int) + "…"@
    } else {
        t
    }
}

/// A message as a headline: trimmed, and cut after two hundred characters.
pub fn headline_of(content: &str) -> (r: String)
    ensures
        r@ == headline(content@),
{
    let t = text::trimmed(content);
    let v = text::chars_of(t.as_str());
    if v.len() > HEADLINE_CHARS {
        let mut out = text::string_of(&v, 0, HEADLINE_CHARS);
        out.append("…");
        assert(v@.subrange(0, HEADLINE_CHARS as int) =~= v@.take(HEADLINE_CHARS as int));
        out
    } else {
        t
    }
}

/// The content of an entry's message.
pub open spec fn content_of(entry: JsonView) -> Option<JsonView> {
    match entry.field("message"@) {
        Some(m) => m.field("content"@),
        None => None,
    }
}

/// The content of an entry's message, where it is a text.
pub open spec fn content_text(entry: JsonView) -> Option<Seq<char>> {
    match content_of(entry) {
        Some(c) => c.text(),
        None => None,
    }
}

/// Whether an entry is a message that a person wrote.
pub open spec fn is_human(entry: JsonView) -> bool {
    &&& entry.text_at("type"@) == Some("user"@)
    &&& !entry.is_flag("isMeta"@, true)
    &&& entry.field("toolUseResult"@) is None
    &&& match content_text(entry) {
        Some(c) => !is_noise(c),
        None => false,
    }
}

/// The content of an entry's message.
fn message_content(entry: &Json) -> (r: Option<&Json>)
    ensures
        match r {
            Some(j) => content_of(entry@) == Some(j@),
            None => content_of(entry@) is None,
        },
{
    match entry.field("message") {
        Some(m) => m.field("content"),
        None => None,
    }
}

/// The content of an entry's message, where it is a text.
pub fn message_text(entry: &Json) -> (r: Option<&str>)
    ensures
        match r {
            Some(s) => content_text(entry@) == Some(s@),
            None => content_text(entry@) is None,
        },
{
    match message_content(entry) {
        Some(c) => c.text(),
        None => None,
    }
}

/// Whether an entry is a message that a person wrote.
pub fn is_human_message(entry: &Json) -> (r: bool)
    ensures
        r == is_human(entry@),
{
    entry.text_is("type", "user") && !entry.is_true("isMeta") && entry.field(
        "toolUseResult",
    ).is_none() && match message_text(entry) {
        Some(c) => !is_command_noise(c),
        None => false,
    }
}

/// The headline of an entry's message, where it is a text.
pub fn human_message_text(entry: &Json) -> (r: Option<String>)
    ensures
        match r {
            Some(s) => content_text(entry@) is Some && s@ == headline(content_text(entry@)->0),
            None => content_text(entry@) is None,
        },
{
    match message_text(entry) {
        Some(c) => Some(headline_of(c)),
        None => None,
    }
}

/// What a piece of text adds to the search text: its lower-case form on a line
/// of its own, or nothing where it is blank.
pub open spec fn search_line(t: Seq<char>) -> Seq<char> {
    if text::trim(t).len() == 0 {
        Seq::empty()
    } else {
        text::lowercase(text::trim(t)).push('\n')
    }
}

/// Adds a piece of text to the search text.
pub fn push_search_text(out: &mut String, t: &str)
    ensures
        final(out)@ == old(out)@ + search_line(t@),
{
    let trimmed = text::trimmed(t);
    if trimmed.as_str().is_empty() {
        assert(out@ =~= out@ + search_line(t@));
        return ;
    }
    let lower = trimmed.as_str().to_lowercase();
    out.append(lower.as_str());
    out.push('\n');
    assert(out@ =~= old(out)@ + search_line(t@));
}

/// What the text members of a tool's input add to the search text.
pub open spec fn input_text(members: Seq<json::MemberView>) -> Seq<char>
    decreases members.len(),
{
    if members.len() == 0 {
        Seq::empty()
    } else {
        input_text(members.drop_last()) + match members.last().value.text() {
            Some(t) => search_line(t),
            None => Seq::empty(),
        }
    }
}

/// What the parts of a tool's result add to the search text.
pub open spec fn result_text(parts: Seq<JsonView>) -> Seq<char>
    decreases parts.len(),
{
    if parts.len() == 0 {
        Seq::empty()
    } else {
        result_text(parts.drop_last()) + match parts.last().text_at("text"@) {
            Some(t) => search_line(t),
            None => Seq::empty(),
        }
    }
}

/// What a content block adds to the search text: text unless it is command
/// noise, thinking, the text inputs of a tool call, the text of its result.
pub open spec fn block_text(block: JsonView) -> Seq<char> {
    match block.text_at("type"@) {
        None => Seq::empty(),
        Some(kind) => if kind == "text"@ {
            match block.text_at("text"@) {
                Some(t) if !is_noise(t) => search_line(t),
                _ => Seq::empty(),
            }
        } else if kind == "thinking"@ {
            match block.text_at("thinking"@) {
                Some(t) => search_line(t),
                None => Seq::empty(),
            }
        } else if kind == "tool_use"@ {
            match block.field("input"@) {
                Some(JsonView::Object(members)) => input_text(members),
                _ => Seq::empty(),
            }
        } else if kind == "tool_result"@ {
            match block.field("content"@) {
                Some(JsonView::Text(t)) => search_line(t),
                Some(JsonView::List(parts)) => result_text(parts),
                _ => Seq::empty(),
            }
        } else {
            Seq::empty()
        },
    }
}

/// What the content blocks of a message add to the search text.
pub open spec fn blocks_text(blocks: Seq<JsonView>) -> Seq<char>
    decreases blocks.len(),
{
    if blocks.len() == 0 {
        Seq::empty()
    } else {
        blocks_text(blocks.drop_last()) + block_text(blocks.last())
    }
}

/// What an entry adds to the search text.
pub open spec fn entry_text(entry: JsonView) -> Seq<char> {
    match content_of(entry) {
        Some(JsonView::Text(t)) => if is_noise(t) {
            Seq::empty()
        } else {
            search_line(t)
        },
        Some(JsonView::List(blocks)) => blocks_text(blocks),
        _ => Seq::empty(),
    }
}

fn append_input_text(list: &Vec<json::Member>, out: &mut String)
    ensures
        final(out)@ == old(out)@ + input_text(json::members(list@)),
{
    let ghost all = json::members(list@);
    let ghost start = out@;
    let mut i: usize = 0;
    assert(start + input_text(all.take(0)) =~= start);
    while i < list.len()
        invariant
            i <= list@.len(),
            all == json::members(list@),
            out@ == start + input_text(all.take(i as int)),
        decreases list@.len() - i,
    {
        assert(all.take(i + 1).drop_last() =~= all.take(i as int));
        assert(all.take(i + 1).last() == all[i as int]);
        match list[i].value.text() {
            Some(t) => {
                push_search_text(out, t);
                assert(out@ =~= start + input_text(all.take(i + 1)));
            },
            None => {
                assert(out@ =~= start + input_text(all.take(i + 1)));
            },
        }
        i += 1;
    }
    assert(all.take(all.len() as int) =~= all);
}

fn append_result_text(list: &Vec<Json>, out: &mut String)
    ensures
        final(out)@ == old(out)@ + result_text(json::elements(list@)),
{
    let ghost all = json::elements(list@);
    let ghost start = out@;
    let mut i: usize = 0;
    assert(start + result_text(all.take(0)) =~= start);
    while i < list.len()
        invariant
            i <= list@.len(),
            all == json::elements(list@),
            out@ == start + result_text(all.take(i as int)),
        decreases list@.len() - i,
    {
        assert(all.take(i + 1).drop_last() =~= all.take(i as int));
        assert(all.take(i + 1).last() == all[i as int]);
        match list[i].text_at("text") {
            Some(t) => {
                push_search_text(out, t);
                assert(out@ =~= start + result_text(all.take(i + 1)));
            },
            None => {
                assert(out@ =~= start + result_text(all.take(i + 1)));
            },
        }
        i += 1;
    }
    assert(all.take(all.len() as int) =~= all);
}

/// Adds the text of a content block to the search text.
fn append_block_text(block: &Json, out: &mut String)
    ensures
        final(out)@ == old(out)@ + block_text(block@),
{
    assert(out@ + Seq::<char>::empty() =~= out@);
    let kind = match block.text_at("type") {
        Some(kind) => kind,
        None => {
            return ;
        },
    };
    if text::text_eq(kind, "text") {
        match block.text_at("text") {
            Some(t) => {
                if !is_command_noise(t) {
                    push_search_text(out, t);
                }
            },
            None => {},
        }
    } else if text::text_eq(kind, "thinking") {
        match block.text_at("thinking") {
            Some(t) => push_search_text(out, t),
            None => {},
        }
    } else if text::text_eq(kind, "tool_use") {
        match block.field("input") {
            Some(Json::Object(list)) => {
                proof {
                    json::lemma_object_view(*list);
                }
                append_input_text(list, out);
            },
            _ => {},
        }
    } else if text::text_eq(kind, "tool_result") {
        match block.field("content") {
            Some(Json::Text(t)) => push_search_text(out, t.as_str()),
            Some(Json::List(list)) => {
                proof {
                    json::lemma_list_view(*list);
                }
                append_result_text(list, out);
            },
            _ => {},
        }
    }
}

fn append_blocks_text(list: &Vec<Json>, out: &mut String)
    ensures
        final(out)@ == old(out)@ + blocks_text(json::elements(list@)),
{
    let ghost all = json::elements(list@);
    let ghost start = out@;
    let mut i: usize = 0;
    assert(start + blocks_text(all.take(0)) =~= start);
    while i < list.len()
        invariant
            i <= list@.len(),
            all == json::elements(list@),
            out@ == start + blocks_text(all.take(i as int)),
        decreases list@.len() - i,
    {
        assert(all.take(i + 1).drop_last() =~= all.take(i as int));
        append_block_text(&list[i], out);
        assert(out@ =~= start + blocks_text(all.take(i + 1)));
        i += 1;
    }
    assert(all.take(all.len() as int) =~= all);
}

/// Adds every piece of human-readable text in an entry to the search text:
/// user messages (text or block form), assistant text and thinking, tool-use
/// text inputs, and tool-result output. Command noise is left out.
pub fn append_searchable_text(entry: &Json, out: &mut String)
    ensures
        final(out)@ == old(out)@ + entry_text(entry@),
{
    assert(out@ + Seq::<char>::empty() =~= out@);
    match message_content(entry) {
        Some(Json::Text(t)) => {
            if !is_command_noise(t.as_str()) {
                push_search_text(out, t.as_str());
            }
        },
        Some(Json::List(list)) => {
            proof {
                json::lemma_list_view(*list);
            }
            append_blocks_text(list, out);
        },
        _ => {},
    }
}

/// A text that, behind any blanks, opens with one of the six tags that a machine
/// writes is command noise, whatever follows the tag.
pub proof fn machine_tags_are_noise(blank: Seq<char>, tag: Seq<char>, rest: Seq<char>)
    requires
        text::all_blank(blank),
        tag == "<command-name>"@ || tag == "<command-message>"@ || tag == "<local-command-stdout>"@
            || tag == "<local-command-caveat>"@ || tag == "<task-notification>"@ || tag
            == "<system-reminder>"@,
    ensures
        is_noise(blank + (tag + rest)),
{
    reveal_strlit("<command-name>");
    reveal_strlit("<command-message>");
    reveal_strlit("<local-command-stdout>");
    reveal_strlit("<local-command-caveat>");
    reveal_strlit("<task-notification>");
    reveal_strlit("<system-reminder>");
    let t = tag + rest;
    assert(t[0] == '<');
    text::trimming_the_start_drops_blanks(blank, t);
    assert(t.subrange(0, tag.len() as int) =~= tag);
    assert(text::occurs_at(t, tag, 0));
}

/// A text that, behind any blanks, opens with none of the six tags is no command
/// noise, whatever stands further on.
pub proof fn other_texts_are_no_noise(blank: Seq<char>, t: Seq<char>)
    requires
        text::all_blank(blank),
        t.len() == 0 || !text::is_space(t[0]),
        !text::begins(t, "<command-name>"@),
        !text::begins(t, "<command-message>"@),
        !text::begins(t, "<local-command-stdout>"@),
        !text::begins(t, "<local-command-caveat>"@),
        !text::begins(t, "<task-notification>"@),
        !text::begins(t, "<system-reminder>"@),
    ensures
        !is_noise(blank + t),
{
    text::trimming_the_start_drops_blanks(blank, t);
    assert forall|p: Seq<char>| #[trigger] text::has_prefix(t, p) implies text::begins(t, p) by {
        assert(t.subrange(0, p.len() as int) =~= t.take(p.len() as int));
    }
}

/// A headline is the text between the blanks at its ends: all of it up to two
/// hundred characters, and else the first two hundred and an ellipsis.
pub proof fn headline_is_the_start(a: Seq<char>, core: Seq<char>, b: Seq<char>)
    requires
        text::all_blank(a),
        text::is_core(core),
        text::all_blank(b),
    ensures
        core.len() <= 200 ==> headline(a + core + b) == core,
        core.len() > 200 ==> headline(a + core + b) == core.take(200) + "…"@,
{
    text::trimming_leaves_the_core(a, core, b);
}

/// The first place of a text that stands behind `a` and does not begin any earlier.
proof fn first_place(a: Seq<char>, m: Seq<char>, b: Seq<char>, from: int)
    requires
        m.len() > 0,
        0 <= from <= a.len(),
        !text::contains((a + m.drop_last()).skip(from), m),
    ensures
        text::find_from(a + m + b, m, from) == Some(a.len() as int),
{
    let s = a + m + b;
    let front = (a + m.drop_last()).skip(from);
    text::lemma_find_from(s, m, from);
    let at = a.len() as int;
    assert(s.subrange(at, at + m.len()) =~= m);
    assert(text::occurs_at(s, m, at));
    assert forall|j: int| from <= j < at implies !text::occurs_at(s, m, j) by {
        if text::occurs_at(s, m, j) {
            assert(front.subrange(j - from, j - from + m.len()) =~= s.subrange(j, j + m.len()));
            assert(text::occurs_at(front, m, j - from));
        }
    }
}

/// What two tags enclose is the text from the first opening tag to the first
/// closing tag behind it.
pub proof fn tags_enclose_their_text(
    a: Seq<char>,
    open: Seq<char>,
    m: Seq<char>,
    close: Seq<char>,
    b: Seq<char>,
)
    requires
        open.len() > 0,
        close.len() > 0,
        !text::contains(a + open.drop_last(), open),
        !text::contains(m + close.drop_last(), close),
    ensures
        between(a + open + m + close + b, open, close) == Some(m),
{
    let s = a + open + m + close + b;
    assert((a + open.drop_last()).skip(0) =~= a + open.drop_last());
    first_place(a, open, m + close + b, 0);
    assert(a + open + (m + close + b) =~= s);
    let front = a + open + m;
    let from = (a.len() + open.len()) as int;
    assert((front + close.drop_last()).skip(from) =~= m + close.drop_last());
    first_place(front, close, b, from);
    assert(front + close + b =~= s);
    assert(s.subrange(from, from + m.len()) =~= m);
}

/// Where one of two tags is missing, they enclose nothing.
pub proof fn missing_tags_enclose_nothing(s: Seq<char>, open: Seq<char>, close: Seq<char>)
    ensures
        !text::contains(s, open) ==> between(s, open, close) is None,
        !text::contains(s, close) ==> between(s, open, close) is None,
{
    text::lemma_find_from(s, open, 0);
    match text::find_from(s, open, 0) {
        Some(i) => {
            text::lemma_find_from(s, close, i + open.len());
        },
        None => {},
    }
}

/// The arguments of a recorded command, and the title of a session in which
/// nothing but commands ran, are what their tags enclose.
pub proof fn commands_are_told_by_their_tags(a: Seq<char>, m: Seq<char>, b: Seq<char>)
    ensures
        !text::contains(a + "<command-args>"@.drop_last(), "<command-args>"@) && !text::contains(
            m + "</command-args>"@.drop_last(),
            "</command-args>"@,
        ) ==> command_args(a + "<command-args>"@ + m + "</command-args>"@ + b) == Some(m),
        !text::contains(a + "<command-name>"@.drop_last(), "<command-name>"@) && !text::contains(
            m + "</command-name>"@.drop_last(),
            "</command-name>"@,
        ) && text::is_core(m) ==> noise_title(
            a + "<command-name>"@ + m + "</command-name>"@ + b,
        ) == m,
        !text::contains(a, "<command-name>"@) ==> noise_title(a) == "(command output)"@,
{
    reveal_strlit("<command-args>");
    reveal_strlit("</command-args>");
    reveal_strlit("<command-name>");
    reveal_strlit("</command-name>");
    if !text::contains(a + "<command-args>"@.drop_last(), "<command-args>"@) && !text::contains(
        m + "</command-args>"@.drop_last(),
        "</command-args>"@,
    ) {
        tags_enclose_their_text(a, "<command-args>"@, m, "</command-args>"@, b);
    }
    if !text::contains(a + "<command-name>"@.drop_last(), "<command-name>"@) && !text::contains(
        m + "</command-name>"@.drop_last(),
        "</command-name>"@,
    ) {
        tags_enclose_their_text(a, "<command-name>"@, m, "</command-name>"@, b);
        if text::is_core(m) {
            let none = Seq::<char>::empty();
            text::trimming_leaves_the_core(none, m, none);
            assert(none + m + none =~= m);
        }
    }
    missing_tags_enclose_nothing(a, "<command-name>"@, "</command-name>"@);
}

/// A piece of text enters the search text whole: the lower-case form of all that
/// stands between the blanks at its ends, on a line of its own. A blank one adds
/// nothing.
pub proof fn pieces_enter_the_search_text_whole(a: Seq<char>, core: Seq<char>, b: Seq<char>)
    requires
        text::all_blank(a),
        text::is_core(core),
        text::all_blank(b),
    ensures
        search_line(a + core + b) == text::lowercase(core) + "\n"@,
        search_line(a) == Seq::<char>::empty(),
{
    reveal_strlit("\n");
    text::trimming_leaves_the_core(a, core, b);
    text::trimming_leaves_nothing_of_blanks(a);
    assert(text::lowercase(core).push('\n') =~= text::lowercase(core) + "\n"@);
}

/// The blocks of a message add to the search text one behind the other.
pub proof fn blocks_text_joins(x: Seq<JsonView>, y: Seq<JsonView>)
    ensures
        blocks_text(x + y) == blocks_text(x) + blocks_text(y),
    decreases y.len(),
{
    if y.len() == 0 {
        assert(x + y =~= x);
        assert(blocks_text(x) + blocks_text(y) =~= blocks_text(x));
    } else {
        blocks_text_joins(x, y.drop_last());
        assert((x + y).drop_last() =~= x + y.drop_last());
        assert(blocks_text(x + y) =~= blocks_text(x) + blocks_text(y));
    }
}

/// The inputs of a tool call add to the search text one behind the other.
pub proof fn input_text_joins(x: Seq<json::MemberView>, y: Seq<json::MemberView>)
    ensures
        input_text(x + y) == input_text(x) + input_text(y),
    decreases y.len(),
{
    if y.len() == 0 {
        assert(x + y =~= x);
        assert(input_text(x) + input_text(y) =~= input_text(x));
    } else {
        input_text_joins(x, y.drop_last());
        assert((x + y).drop_last() =~= x + y.drop_last());
        assert(input_text(x + y) =~= input_text(x) + input_text(y));
    }
}

/// The parts of a tool's result add to the search text one behind the other.
pub proof fn result_text_joins(x: Seq<JsonView>, y: Seq<JsonView>)
    ensures
        result_text(x + y) == result_text(x) + result_text(y),
    decreases y.len(),
{
    if y.len() == 0 {
        assert(x + y =~= x);
        assert(result_text(x) + result_text(y) =~= result_text(x));
    } else {
        result_text_joins(x, y.drop_last());
        assert((x + y).drop_last() =~= x + y.drop_last());
        assert(result_text(x + y) =~= result_text(x) + result_text(y));
    }
}

/// Whether a content block holds a piece of text that may be searched for: text,
/// thinking, a text input of a tool call, or text of its result.
pub open spec fn holds_piece(block: JsonView, t: Seq<char>) -> bool {
    ||| block.text_at("type"@) == Some("text"@) && block.text_at("text"@) == Some(t)
    ||| block.text_at("type"@) == Some("thinking"@) && block.text_at("thinking"@) == Some(t)
    ||| block.text_at("type"@) == Some("tool_use"@) && block.field("input"@) is Some
        && block.field("input"@)->0 is Object && exists|k: int|
        0 <= k < block.field("input"@)->0->Object_0.len() && (
        #[trigger] block.field("input"@)->0->Object_0[k]).value == JsonView::Text(t)
    ||| block.text_at("type"@) == Some("tool_result"@) && block.field("content"@) == Some(
        JsonView::Text(t),
    )
    ||| block.text_at("type"@) == Some("tool_result"@) && block.field("content"@) is Some
        && block.field("content"@)->0 is List && exists|k: int|
        0 <= k < block.field("content"@)->0->List_0.len() && (
        #[trigger] block.field("content"@)->0->List_0[k]).text_at("text"@) == Some(t)
}

/// The kinds of content blocks that add to the search text are told apart.
proof fn kinds_differ()
    ensures
        "text"@ != "thinking"@,
        "text"@ != "tool_use"@,
        "text"@ != "tool_result"@,
        "thinking"@ != "tool_use"@,
        "thinking"@ != "tool_result"@,
        "tool_use"@ != "tool_result"@,
{
    reveal_strlit("text");
    reveal_strlit("thinking");
    reveal_strlit("tool_use");
    reveal_strlit("tool_result");
    assert("thinking"@[0] == 't' && "thinking"@[1] == 'h');
    assert("tool_use"@[0] == 't' && "tool_use"@[1] == 'o');
    assert("text"@.len() == 4 && "thinking"@.len() == 8 && "tool_use"@.len() == 8
        && "tool_result"@.len() == 11);
}

/// What an entry adds to the search text holds, in lower case and in full, every
/// piece of text in its content blocks, save text that is command noise.
pub proof fn block_pieces_are_held(
    entry: JsonView,
    blocks: Seq<JsonView>,
    j: int,
    a: Seq<char>,
    core: Seq<char>,
    b: Seq<char>,
)
    requires
        entry.field("message"@) is Some,
        entry.field("message"@)->0.field("content"@) == Some(JsonView::List(blocks)),
        0 <= j < blocks.len(),
        text::all_blank(a),
        text::is_core(core),
        text::all_blank(b),
        holds_piece(blocks[j], a + core + b),
        blocks[j].text_at("type"@) == Some("text"@) ==> {
            &&& !text::begins(core, "<command-name>"@)
            &&& !text::begins(core, "<command-message>"@)
            &&& !text::begins(core, "<local-command-stdout>"@)
            &&& !text::begins(core, "<local-command-caveat>"@)
            &&& !text::begins(core, "<task-notification>"@)
            &&& !text::begins(core, "<system-reminder>"@)
        },
    ensures
        text::contains(entry_text(entry), text::lowercase(core) + "\n"@),
{
    let t = a + core + b;
    let block = blocks[j];
    let line = text::lowercase(core) + "\n"@;
    let none = Seq::<char>::empty();
    kinds_differ();
    pieces_enter_the_search_text_whole(a, core, b);
    if block.text_at("type"@) == Some("text"@) {
        core_is_no_noise(a, core, b);
    }
    assert(text::contains(block_text(block), line)) by {
        if block.text_at("type"@) == Some("tool_use"@) {
            let ms = block.field("input"@)->0->Object_0;
            let k = choose|k: int|
                0 <= k < ms.len() && (#[trigger] ms[k]).value == JsonView::Text(t);
            let x = ms.take(k);
            let y = ms.skip(k + 1);
            input_text_joins(x, seq![ms[k]]);
            input_text_joins(x + seq![ms[k]], y);
            assert(ms =~= x + seq![ms[k]] + y);
            assert(seq![ms[k]].drop_last() =~= Seq::<json::MemberView>::empty());
            assert(input_text(Seq::empty()) == none);
            assert(input_text(seq![ms[k]]) =~= line);
            text::infix_is_found(input_text(x), line, input_text(y));
        } else if block.text_at("type"@) == Some("tool_result"@) && block.field("content"@)->0
            is List {
            let ps = block.field("content"@)->0->List_0;
            let k = choose|k: int|
                0 <= k < ps.len() && (#[trigger] ps[k]).text_at("text"@) == Some(t);
            let x = ps.take(k);
            let y = ps.skip(k + 1);
            result_text_joins(x, seq![ps[k]]);
            result_text_joins(x + seq![ps[k]], y);
            assert(ps =~= x + seq![ps[k]] + y);
            assert(seq![ps[k]].drop_last() =~= Seq::<JsonView>::empty());
            assert(result_text(Seq::empty()) == none);
            assert(result_text(seq![ps[k]]) =~= line);
            text::infix_is_found(result_text(x), line, result_text(y));
        } else {
            assert(block_text(block) == line);
            text::infix_is_found(none, line, none);
            assert(none + line + none =~= line);
        }
    }
    let x = blocks.take(j);
    let y = blocks.skip(j + 1);
    blocks_text_joins(x, seq![block]);
    blocks_text_joins(x + seq![block], y);
    assert(blocks =~= x + seq![block] + y);
    assert(seq![block].drop_last() =~= Seq::<JsonView>::empty());
    assert(blocks_text(Seq::empty()) == none);
    assert(blocks_text(seq![block]) =~= block_text(block));
    text::found_in_part_is_found(blocks_text(x), block_text(block), blocks_text(y), line);
}

/// A text whose core opens with none of the six tags is no command noise.
pub proof fn core_is_no_noise(a: Seq<char>, core: Seq<char>, b: Seq<char>)
    requires
        text::all_blank(a),
        text::is_core(core),
        text::all_blank(b),
        !text::begins(core, "<command-name>"@),
        !text::begins(core, "<command-message>"@),
        !text::begins(core, "<local-command-stdout>"@),
        !text::begins(core, "<local-command-caveat>"@),
        !text::begins(core, "<task-notification>"@),
        !text::begins(core, "<system-reminder>"@),
    ensures
        !is_noise(a + core + b),
{
    reveal_strlit("<command-name>");
    reveal_strlit("<command-message>");
    reveal_strlit("<local-command-stdout>");
    reveal_strlit("<local-command-caveat>");
    reveal_strlit("<task-notification>");
    reveal_strlit("<system-reminder>");
    no_tag_appears(core, "<command-name>"@, b);
    no_tag_appears(core, "<command-message>"@, b);
    no_tag_appears(core, "<local-command-stdout>"@, b);
    no_tag_appears(core, "<local-command-caveat>"@, b);
    no_tag_appears(core, "<task-notification>"@, b);
    no_tag_appears(core, "<system-reminder>"@, b);
    assert(a + core + b =~= a + (core + b));
    assert((core + b)[0] == core[0]);
    other_texts_are_no_noise(a, core + b);
}

/// Blanks behind a text do not make it begin with what ends in no blank.
proof fn no_tag_appears(core: Seq<char>, tag: Seq<char>, b: Seq<char>)
    requires
        tag.len() > 0,
        tag.last() == '>',
        text::all_blank(b),
        !text::begins(core, tag),
    ensures
        !text::begins(core + b, tag),
{
    let s = core + b;
    if text::begins(s, tag) {
        let n = tag.len() as int;
        assert(s.take(n)[n - 1] == tag.last());
        if n > core.len() {
            assert(s[n - 1] == b[n - 1 - core.len()]);
        } else {
            assert(s.take(n) =~= core.take(n));
        }
    }
}

/// Nothing but its text enters the search text from an entry: where the content of
/// its message is neither a text nor a list it adds nothing, and a content block
/// without one of the four kinds, or without its text, adds nothing either.
pub proof fn what_is_no_text_is_not_searched(entry: JsonView, block: JsonView)
    ensures
        entry.field("message"@) is None ==> entry_text(entry) == Seq::<char>::empty(),
        entry.field("message"@) matches Some(m) ==> {
            let c = m.field("content"@);
            (c is None || !(c->0 is Text || c->0 is List)) ==> entry_text(entry) == Seq::<
                char,
            >::empty()
        },
        !(exists|t: Seq<char>| holds_piece(block, t)) ==> block_text(block) == Seq::<char>::empty(),
{
    kinds_differ();
    if !(exists|t: Seq<char>| holds_piece(block, t)) {
        if block.text_at("type"@) == Some("text"@) && block.text_at("text"@) is Some {
            assert(holds_piece(block, block.text_at("text"@)->0));
        }
        if block.text_at("type"@) == Some("thinking"@) && block.text_at("thinking"@) is Some {
            assert(holds_piece(block, block.text_at("thinking"@)->0));
        }
        if block.text_at("type"@) == Some("tool_use"@) && block.field("input"@) is Some
            && block.field("input"@)->0 is Object {
            let ms = block.field("input"@)->0->Object_0;
            assert forall|k: int| 0 <= k < ms.len() implies !((#[trigger] ms[k]).value is Text) by {
                if ms[k].value is Text {
                    assert(holds_piece(block, ms[k].value->Text_0));
                }
            }
            no_input_text(ms);
        }
        if block.text_at("type"@) == Some("tool_result"@) && block.field("content"@) is Some {
            if block.field("content"@)->0 is Text {
                assert(holds_piece(block, block.field("content"@)->0->Text_0));
            }
            if block.field("content"@)->0 is List {
                let ps = block.field("content"@)->0->List_0;
                assert forall|k: int| 0 <= k < ps.len() implies (#[trigger] ps[k]).text_at("text"@)
                    is None by {
                    if ps[k].text_at("text"@) is Some {
                        assert(holds_piece(block, ps[k].text_at("text"@)->0));
                    }
                }
                no_result_text(ps);
            }
        }
    }
}

proof fn no_input_text(ms: Seq<json::MemberView>)
    requires
        forall|k: int| 0 <= k < ms.len() ==> !((#[trigger] ms[k]).value is Text),
    ensures
        input_text(ms) == Seq::<char>::empty(),
    decreases ms.len(),
{
    if ms.len() > 0 {
        let rest = ms.drop_last();
        assert forall|k: int| 0 <= k < rest.len() implies !((#[trigger] rest[k]).value is Text) by {
            assert(rest[k] == ms[k]);
        }
        assert(!(ms[ms.len() - 1].value is Text));
        no_input_text(rest);
        assert(input_text(ms) =~= Seq::<char>::empty());
    }
}

proof fn no_result_text(ps: Seq<JsonView>)
    requires
        forall|k: int| 0 <= k < ps.len() ==> (#[trigger] ps[k]).text_at("text"@) is None,
    ensures
        result_text(ps) == Seq::<char>::empty(),
    decreases ps.len(),
{
    if ps.len() > 0 {
        let rest = ps.drop_last();
        assert forall|k: int| 0 <= k < rest.len() implies (#[trigger] rest[k]).text_at("text"@)
            is None by {
            assert(rest[k] == ps[k]);
        }
        assert(ps[ps.len() - 1].text_at("text"@) is None);
        no_result_text(rest);
        assert(result_text(ps) =~= Seq::<char>::empty());
    }
}

/// What stands before the lines of a conversation.
pub proof fn prefixes_tell_the_speaker()
    ensures
        Speaker::User.prefix_text() == "USER: "@ && Speaker::User.prefix_lc_text() == "user: "@,
        Speaker::Assistant.prefix_text() == "ASST: "@ && Speaker::Assistant.prefix_lc_text()
            == "asst: "@,
        Speaker::Tool.prefix_text() == "TOOL: "@ && Speaker::Tool.prefix_lc_text() == "tool: "@,
{
}

} // verus!
