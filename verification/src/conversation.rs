//! The conversation that a session records: what a person and the assistant
//! said, and on request the tools that were used.

use crate::json;
use crate::json::Json;
use crate::json::JsonView;
use crate::parser;
use crate::parser::{ConversationMessage, Role, Speaker};
use crate::scan;
use crate::text;
use vstd::prelude::*;

verus! {

/// A line of a conversation: who produced it, and the text.
pub type SaidView = (Speaker, Seq<char>);

/// The lines of a conversation.
pub open spec fn said(v: Seq<(Speaker, String)>) -> Seq<SaidView> {
    Seq::new(v.len(), |i: int| (v[i].0, v[i].1@))
}

/// The arguments that tell most of a tool call, most telling first.
pub open spec fn telling_keys() -> Seq<Seq<char>> {
    seq![
        "file_path"@,
        "path"@,
        "command"@,
        "pattern"@,
        "query"@,
        "url"@,
        "description"@,
    ]
}

/// The text under the first of `keys` that has one; else the empty text.
pub open spec fn detail(input: JsonView, keys: Seq<Seq<char>>) -> Seq<char>
    decreases keys.len(),
{
    if keys.len() == 0 {
        Seq::empty()
    } else {
        match input.text_at(keys[0]) {
            Some(t) => t,
            None => detail(input, keys.skip(1)),
        }
    }
}

/// `s` on one line.
pub open spec fn on_one_line(s: Seq<char>) -> Seq<char> {
    Seq::new(
        s.len(),
        |i: int|
            if s[i] == '\n' {
                ' '
            } else {
                s[i]
            },
    )
}

/// The longest detail of a tool call that is shown, in characters.
pub const DETAIL_CHARS: usize = 120;

/// A tool call in one line: the tool's name and its most telling argument.
pub open spec fn tool_summary(name: Seq<char>, input: Option<JsonView>) -> Seq<char> {
    let raw = match input {
        Some(v) => detail(v, telling_keys()),
        None => Seq::empty(),
    };
    let line = on_one_line(text::trim(raw));
    if line.len() == 0 {
        name
    } else if line.len() > DETAIL_CHARS {
        name + " "@ + line.take(DETAIL_CHARS as int)
    } else {
        name + " "@ + line
    }
}

/// What a content block of the assistant adds to the conversation.
pub open spec fn block_said(block: JsonView, tools: bool) -> Seq<SaidView> {
    if block.text_at("type"@) == Some("text"@) {
        match block.text_at("text"@) {
            Some(t) if text::trim(t).len() > 0 => seq![(Speaker::Assistant, text::trim(t))],
            _ => Seq::empty(),
        }
    } else if block.text_at("type"@) == Some("tool_use"@) && tools {
        let name = match block.text_at("name"@) {
            Some(n) => n,
            None => "tool"@,
        };
        seq![(Speaker::Tool, tool_summary(name, block.field("input"@)))]
    } else {
        Seq::empty()
    }
}

/// What the content blocks of the assistant add to the conversation.
pub open spec fn blocks_said(blocks: Seq<JsonView>, tools: bool) -> Seq<SaidView>
    decreases blocks.len(),
{
    if blocks.len() == 0 {
        Seq::empty()
    } else {
        blocks_said(blocks.drop_last(), tools) + block_said(blocks.last(), tools)
    }
}

/// What an entry adds to the conversation. Side chains, meta turns, tool
/// results and command noise add nothing.
pub open spec fn entry_said(entry: JsonView, tools: bool) -> Seq<SaidView> {
    if entry.is_flag("isSidechain"@, true) {
        Seq::empty()
    } else if scan::is_spoken(entry) {
        seq![(Speaker::User, text::trim(parser::content_text(entry)->0))]
    } else if entry.text_at("type"@) == Some("assistant"@) {
        match parser::content_of(entry) {
            Some(JsonView::List(blocks)) => blocks_said(blocks, tools),
            _ => Seq::empty(),
        }
    } else {
        Seq::empty()
    }
}

/// The conversation that entries record.
pub open spec fn conversation(es: Seq<JsonView>, tools: bool) -> Seq<SaidView>
    decreases es.len(),
{
    if es.len() == 0 {
        Seq::empty()
    } else {
        conversation(es.drop_last(), tools) + entry_said(es.last(), tools)
    }
}

/// How many of the lines a person wrote.
pub open spec fn spoken_lines(lines: Seq<SaidView>) -> nat
    decreases lines.len(),
{
    if lines.len() == 0 {
        0
    } else {
        spoken_lines(lines.drop_last()) + if lines.last().0 == Speaker::User {
            1nat
        } else {
            0
        }
    }
}

/// The lines that are no tool activity.
pub open spec fn without_tools(lines: Seq<SaidView>) -> Seq<SaidView>
    decreases lines.len(),
{
    if lines.len() == 0 {
        Seq::empty()
    } else if lines.last().0 == Speaker::Tool {
        without_tools(lines.drop_last())
    } else {
        without_tools(lines.drop_last()).push(lines.last())
    }
}

/// The text under the most telling argument that has one.
fn telling_detail(input: &Json) -> (r: String)
    ensures
        r@ == detail(input@, telling_keys()),
{
    let names: [&str; 7] = [
        "file_path",
        "path",
        "command",
        "pattern",
        "query",
        "url",
        "description",
    ];
    let ghost keys = telling_keys();
    assert(keys.skip(0) =~= keys);
    assert forall|k: int| 0 <= k < 7 implies #[trigger] names@[k]@ == keys[k] by {}
    let mut i: usize = 0;
    while i < 7
        invariant
            i <= 7,
            keys == telling_keys(),
            forall|k: int| 0 <= k < 7 ==> #[trigger] names@[k]@ == keys[k],
            detail(input@, keys) == detail(input@, keys.skip(i as int)),
        decreases 7 - i,
    {
        assert(keys.skip(i as int)[0] == names@[i as int]@);
        assert(keys.skip(i as int).skip(1) =~= keys.skip(i + 1));
        match input.text_at(names[i]) {
            Some(t) => {
                return t.to_owned();
            },
            None => {},
        }
        i += 1;
    }
    String::new()
}

/// A one-line summary of a tool call: the tool name plus its most telling
/// argument (file path, command, pattern, …), truncated.
pub fn summarize_tool_use(name: &str, input: Option<&Json>) -> (r: String)
    ensures
        r@ == tool_summary(
            name@,
            match input {
                Some(j) => Some(j@),
                None => None,
            },
        ),
{
    let raw = match input {
        Some(j) => telling_detail(j),
        None => String::new(),
    };
    let t = text::trimmed(raw.as_str());
    let v = text::chars_of(t.as_str());
    if v.len() == 0 {
        return name.to_owned();
    }
    let ghost line = on_one_line(v@);
    let mut out = name.to_owned();
    out.append(" ");
    let ghost start = out@;
    let mut i: usize = 0;
    while i < v.len() && i < DETAIL_CHARS
        invariant
            i <= v@.len(),
            i <= DETAIL_CHARS,
            line == on_one_line(v@),
            out@ == start + line.take(i as int),
        decreases v@.len() - i,
    {
        if v[i] == '\n' {
            out.push(' ');
        } else {
            out.push(v[i]);
        }
        i += 1;
        assert(out@ =~= start + line.take(i as int));
    }
    assert(line.take(line.len() as int) =~= line);
    out
}

/// Adds what the content blocks of the assistant say.
fn push_blocks(list: &Vec<Json>, tools: bool, out: &mut Vec<(Speaker, String)>)
    ensures
        said(final(out)@) == said(old(out)@) + blocks_said(json::elements(list@), tools),
{
    let ghost all = json::elements(list@);
    let ghost start = said(out@);
    let mut i: usize = 0;
    assert(start + blocks_said(all.take(0), tools) =~= start);
    while i < list.len()
        invariant
            i <= list@.len(),
            all == json::elements(list@),
            said(out@) == start + blocks_said(all.take(i as int), tools),
        decreases list@.len() - i,
    {
        let ghost before = said(out@);
        let block = &list[i];
        assert(all.take(i + 1).drop_last() =~= all.take(i as int));
        if block.text_is("type", "text") {
            match block.text_at("text") {
                Some(t) => {
                    let t = text::trimmed(t);
                    if !t.as_str().is_empty() {
                        out.push((Speaker::Assistant, t));
                    }
                },
                None => {},
            }
        } else if tools && block.text_is("type", "tool_use") {
            let name = match block.text_at("name") {
                Some(n) => n,
                None => "tool",
            };
            out.push((Speaker::Tool, summarize_tool_use(name, block.field("input"))));
        }
        assert(said(out@) =~= before + block_said(block@, tools));
        assert(said(out@) =~= start + blocks_said(all.take(i + 1), tools));
        i += 1;
    }
    assert(all.take(all.len() as int) =~= all);
}

/// Adds what an entry says.
pub fn push_entry(entry: &Json, tools: bool, out: &mut Vec<(Speaker, String)>)
    ensures
        said(final(out)@) == said(old(out)@) + entry_said(entry@, tools),
{
    let ghost before = said(out@);
    assert(before + Seq::<SaidView>::empty() =~= before);
    if entry.is_true("isSidechain") {
        return ;
    }
    if parser::is_human_message(entry) {
        match parser::message_text(entry) {
            Some(c) => {
                let t = text::trimmed(c);
                if !t.as_str().is_empty() {
                    out.push((Speaker::User, t));
                }
            },
            None => {},
        }
        proof {
            reveal_strlit("user");
            reveal_strlit("assistant");
        }
        assert(said(out@) =~= before + entry_said(entry@, tools));
    } else if entry.text_is("type", "assistant") {
        match entry.field("message") {
            Some(m) => match m.field("content") {
                Some(Json::List(list)) => {
                    proof {
                        json::lemma_list_view(*list);
                    }
                    push_blocks(list, tools, out);
                },
                _ => {},
            },
            None => {},
        }
    }
}

/// The conversation as `(speaker, text)` pairs. When `tools` is true, the tool
/// calls of the assistant are surfaced as `Speaker::Tool` lines with a compact
/// summary.
pub fn extract_conversation_ext(lines: &Vec<String>, tools: bool) -> (r: Vec<(Speaker, String)>)
    ensures
        said(r@) == conversation(scan::entries(text::views(lines@)), tools),
{
    let ghost vs = text::views(lines@);
    let mut out: Vec<(Speaker, String)> = Vec::new();
    let mut i: usize = 0;
    assert(said(out@) =~= Seq::empty());
    while i < lines.len()
        invariant
            i <= lines@.len(),
            vs == text::views(lines@),
            said(out@) == conversation(scan::entries(vs.take(i as int)), tools),
        decreases lines@.len() - i,
    {
        let ghost es = scan::entries(vs.take(i as int));
        assert(vs.take(i + 1).drop_last() =~= vs.take(i as int));
        let line = lines[i].as_str();
        if !text::is_blank(line) {
            match json::parse_json(line) {
                Some(entry) => {
                    assert(es.push(entry@).drop_last() =~= es);
                    push_entry(&entry, tools, &mut out);
                },
                None => {},
            }
        }
        i += 1;
    }
    assert(vs.take(vs.len() as int) =~= vs);
    out
}

/// Who wrote a line: a person, or else the assistant.
pub open spec fn role_of(speaker: Speaker) -> Role {
    match speaker {
        Speaker::User => Role::User,
        _ => Role::Assistant,
    }
}

/// User and assistant text messages, with tool use left out.
pub fn extract_conversation(lines: &Vec<String>) -> (r: Vec<ConversationMessage>)
    ensures
        ({
            let all = conversation(scan::entries(text::views(lines@)), false);
            &&& r@.len() == all.len()
            &&& forall|i: int|
                0 <= i < r@.len() ==> (#[trigger] r@[i]).role == role_of(all[i].0)
                    && r@[i].text@ == all[i].1
        }),
{
    let pairs = extract_conversation_ext(lines, false);
    let ghost all = conversation(scan::entries(text::views(lines@)), false);
    let ghost first = pairs@;
    let mut out: Vec<ConversationMessage> = Vec::new();
    for pair in it: pairs.into_iter()
        invariant
            it.seq() == first,
            said(first) == all,
            out@.len() == it.index(),
            forall|k: int|
                0 <= k < out@.len() ==> (#[trigger] out@[k]).role == role_of(all[k].0)
                    && out@[k].text@ == all[k].1,
    {
        let ghost k = out@.len() as int;
        assert(pair == first[k]);
        assert(all[k] == (first[k].0, first[k].1@));
        let role = match pair.0 {
            Speaker::User => Role::User,
            _ => Role::Assistant,
        };
        out.push(ConversationMessage { role, text: pair.1 });
    }
    out
}

proof fn lemma_spoken_lines_join(a: Seq<SaidView>, b: Seq<SaidView>)
    ensures
        spoken_lines(a + b) == spoken_lines(a) + spoken_lines(b),
    decreases b.len(),
{
    if b.len() == 0 {
        assert(a + b =~= a);
    } else {
        lemma_spoken_lines_join(a, b.drop_last());
        assert((a + b).drop_last() =~= a + b.drop_last());
    }
}

proof fn lemma_without_tools_joins(a: Seq<SaidView>, b: Seq<SaidView>)
    ensures
        without_tools(a + b) == without_tools(a) + without_tools(b),
    decreases b.len(),
{
    if b.len() == 0 {
        assert(a + b =~= a);
        assert(without_tools(a) + without_tools(b) =~= without_tools(a));
    } else {
        lemma_without_tools_joins(a, b.drop_last());
        assert((a + b).drop_last() =~= a + b.drop_last());
        assert(without_tools(a + b) =~= without_tools(a) + without_tools(b));
    }
}

/// A content block of the assistant adds no line of a person, and with tools
/// only tool lines beyond what it adds without.
proof fn lemma_blocks_said(blocks: Seq<JsonView>, tools: bool)
    ensures
        spoken_lines(blocks_said(blocks, tools)) == 0,
        without_tools(blocks_said(blocks, tools)) == blocks_said(blocks, false),
    decreases blocks.len(),
{
    if blocks.len() > 0 {
        let rest = blocks_said(blocks.drop_last(), tools);
        let one = block_said(blocks.last(), tools);
        lemma_blocks_said(blocks.drop_last(), tools);
        lemma_spoken_lines_join(rest, one);
        lemma_without_tools_joins(rest, one);
        assert(one.len() > 0 ==> one.drop_last() =~= Seq::empty());
        assert(spoken_lines(Seq::empty()) == 0);
        assert(without_tools(Seq::empty()) == Seq::<SaidView>::empty());
        assert(without_tools(one) =~= block_said(blocks.last(), false));
    }
}

proof fn lemma_entry_said(entry: JsonView, tools: bool)
    ensures
        spoken_lines(entry_said(entry, tools)) == if scan::is_spoken(entry) && !entry.is_flag(
            "isSidechain"@,
            true,
        ) {
            1nat
        } else {
            0
        },
        without_tools(entry_said(entry, tools)) == entry_said(entry, false),
{
    let one = entry_said(entry, tools);
    assert(spoken_lines(Seq::empty()) == 0);
    assert(without_tools(Seq::empty()) == Seq::<SaidView>::empty());
    if scan::is_spoken(entry) {
        assert(one.len() > 0 ==> one.drop_last() =~= Seq::empty());
        assert(without_tools(one) =~= one);
    } else {
        match parser::content_of(entry) {
            Some(JsonView::List(blocks)) => {
                lemma_blocks_said(blocks, tools);
            },
            _ => {},
        }
    }
}

/// The scan of a session and the conversation that it records count the same
/// messages of people, whether tools are shown or not.
pub proof fn messages_are_counted_alike(es: Seq<JsonView>, tools: bool)
    ensures
        spoken_lines(conversation(es, tools)) == scan::message_count(es),
    decreases es.len(),
{
    if es.len() > 0 {
        messages_are_counted_alike(es.drop_last(), tools);
        lemma_spoken_lines_join(
            conversation(es.drop_last(), tools),
            entry_said(es.last(), tools),
        );
        lemma_entry_said(es.last(), tools);
    }
}

/// Showing tools adds tool lines and nothing else: without them, the
/// conversation is the one that is told when tools are not shown.
pub proof fn tools_only_add_tool_lines(es: Seq<JsonView>)
    ensures
        without_tools(conversation(es, true)) == conversation(es, false),
        without_tools(conversation(es, false)) == conversation(es, false),
    decreases es.len(),
{
    if es.len() > 0 {
        let before = es.drop_last();
        tools_only_add_tool_lines(before);
        lemma_without_tools_joins(conversation(before, true), entry_said(es.last(), true));
        lemma_without_tools_joins(conversation(before, false), entry_said(es.last(), false));
        lemma_entry_said(es.last(), true);
        lemma_entry_said(es.last(), false);
    }
}

/// Side chains, meta turns, tool results and command noise leave no trace: the
/// conversation is the same without the entry.
pub proof fn asides_leave_no_trace(es: Seq<JsonView>, i: int, tools: bool)
    requires
        0 <= i < es.len(),
        es[i].is_flag("isSidechain"@, true) || (es[i].text_at("type"@) == Some("user"@)
            && !parser::is_human(es[i])),
    ensures
        conversation(es.remove(i), tools) == conversation(es, tools),
    decreases es.len(),
{
    reveal_strlit("user");
    reveal_strlit("assistant");
    let last = es.len() - 1;
    if i == last {
        assert("user"@.len() != "assistant"@.len());
        assert(es.remove(i) =~= es.drop_last());
        assert(conversation(es, tools) =~= conversation(es.drop_last(), tools));
    } else {
        asides_leave_no_trace(es.drop_last(), i, tools);
        assert(es.remove(i).drop_last() =~= es.drop_last().remove(i));
        assert(es.remove(i).last() == es.last());
    }
}

/// What a person wrote can be searched for: the lower-case form of every
/// message stands in the search text of the session.
pub proof fn messages_are_searchable(es: Seq<JsonView>, i: int)
    requires
        0 <= i < es.len(),
        scan::is_spoken(es[i]),
    ensures
        text::contains(
            scan::search_text(es),
            text::lowercase(text::trim(parser::content_text(es[i])->0)),
        ),
    decreases es.len(),
{
    let t = text::lowercase(text::trim(parser::content_text(es[i])->0));
    let before = scan::search_text(es.drop_last());
    let added = parser::entry_text(es.last());
    if i == es.len() - 1 {
        assert(added == t.push('\n'));
        let at = before.len() as int;
        assert((before + added).subrange(at, at + t.len()) =~= t);
        assert(text::occurs_at(before + added, t, at));
    } else {
        messages_are_searchable(es.drop_last(), i);
        let at = choose|at: int| text::occurs_at(before, t, at);
        assert((before + added).subrange(at, at + t.len()) =~= before.subrange(at, at + t.len()));
        assert(text::occurs_at(before + added, t, at));
    }
}

/// A conversation is that of its parts, one behind the other.
pub proof fn conversation_joins(x: Seq<JsonView>, y: Seq<JsonView>, tools: bool)
    ensures
        conversation(x + y, tools) == conversation(x, tools) + conversation(y, tools),
    decreases y.len(),
{
    if y.len() == 0 {
        assert(x + y =~= x);
        assert(conversation(x, tools) + conversation(y, tools) =~= conversation(x, tools));
    } else {
        conversation_joins(x, y.drop_last(), tools);
        assert((x + y).drop_last() =~= x + y.drop_last());
        assert(conversation(x + y, tools) =~= conversation(x, tools) + conversation(y, tools));
    }
}

/// What the content blocks of a reply say is what its parts say, one behind the
/// other.
pub proof fn blocks_said_join(x: Seq<JsonView>, y: Seq<JsonView>, tools: bool)
    ensures
        blocks_said(x + y, tools) == blocks_said(x, tools) + blocks_said(y, tools),
    decreases y.len(),
{
    if y.len() == 0 {
        assert(x + y =~= x);
        assert(blocks_said(x, tools) + blocks_said(y, tools) =~= blocks_said(x, tools));
    } else {
        blocks_said_join(x, y.drop_last(), tools);
        assert((x + y).drop_last() =~= x + y.drop_last());
        assert(blocks_said(x + y, tools) =~= blocks_said(x, tools) + blocks_said(y, tools));
    }
}

/// Whether an entry is a reply of the assistant, outside side chains, with the
/// given content blocks.
pub open spec fn is_reply(e: JsonView, blocks: Seq<JsonView>) -> bool {
    &&& e.text_at("type"@) == Some("assistant"@)
    &&& e.field("isSidechain"@) != Some(JsonView::Bool(true))
    &&& e.field("message"@) is Some
    &&& e.field("message"@)->0.field("content"@) == Some(JsonView::List(blocks))
}

/// What one entry adds to a conversation.
proof fn conversation_of_one(e: JsonView, tools: bool)
    ensures
        conversation(seq![e], tools) == entry_said(e, tools),
{
    assert(seq![e].drop_last() =~= Seq::<JsonView>::empty());
    assert(conversation(Seq::empty(), tools) == Seq::<SaidView>::empty());
    assert(conversation(seq![e], tools) =~= entry_said(e, tools));
}

proof fn said_by_one_block(block: JsonView, tools: bool)
    ensures
        blocks_said(seq![block], tools) == block_said(block, tools),
{
    assert(seq![block].drop_last() =~= Seq::<JsonView>::empty());
    assert(blocks_said(Seq::empty(), tools) == Seq::<SaidView>::empty());
    assert(blocks_said(seq![block], tools) =~= block_said(block, tools));
}

proof fn a_reply_is_no_turn(e: JsonView, blocks: Seq<JsonView>)
    requires
        is_reply(e, blocks),
    ensures
        !scan::is_spoken(e),
{
    reveal_strlit("user");
    reveal_strlit("assistant");
    assert("user"@.len() != "assistant"@.len());
}

/// A reply of which the content blocks are put together from two parts says what
/// replies with these parts say, one behind the other.
pub proof fn replies_are_told_block_by_block(
    e: JsonView,
    first: JsonView,
    second: JsonView,
    x: Seq<JsonView>,
    y: Seq<JsonView>,
    tools: bool,
)
    requires
        is_reply(e, x + y),
        is_reply(first, x),
        is_reply(second, y),
    ensures
        conversation(seq![e], tools) == conversation(seq![first], tools) + conversation(
            seq![second],
            tools,
        ),
{
    conversation_of_one(e, tools);
    conversation_of_one(first, tools);
    conversation_of_one(second, tools);
    a_reply_is_no_turn(e, x + y);
    a_reply_is_no_turn(first, x);
    a_reply_is_no_turn(second, y);
    blocks_said_join(x, y, tools);
}

/// Whatever the assistant said is shown in full: each text of a reply is a line of
/// its own, from its first character that is no blank to its last, behind all that
/// was said before it and before all that was said behind it.
pub proof fn replies_are_shown_in_full(
    es: Seq<JsonView>,
    i: int,
    blocks: Seq<JsonView>,
    j: int,
    a: Seq<char>,
    core: Seq<char>,
    b: Seq<char>,
    tools: bool,
)
    requires
        0 <= i < es.len(),
        is_reply(es[i], blocks),
        0 <= j < blocks.len(),
        blocks[j].text_at("type"@) == Some("text"@),
        blocks[j].text_at("text"@) == Some(a + core + b),
        text::all_blank(a),
        text::is_core(core),
        text::all_blank(b),
    ensures
        conversation(es, tools) == conversation(es.take(i), tools) + blocks_said(
            blocks.take(j),
            tools,
        ) + seq![(Speaker::Assistant, core)] + blocks_said(blocks.skip(j + 1), tools)
            + conversation(es.skip(i + 1), tools),
        exists|p: int|
            0 <= p < conversation(es, tools).len() && #[trigger] conversation(es, tools)[p] == (
                Speaker::Assistant,
                core,
            ),
{
    let block = blocks[j];
    let x = es.take(i);
    let y = es.skip(i + 1);
    let bx = blocks.take(j);
    let by = blocks.skip(j + 1);
    text::trimming_leaves_the_core(a, core, b);
    a_reply_is_no_turn(es[i], blocks);
    conversation_joins(x, seq![es[i]], tools);
    conversation_joins(x + seq![es[i]], y, tools);
    assert(es =~= x + seq![es[i]] + y);
    conversation_of_one(es[i], tools);
    blocks_said_join(bx, seq![block], tools);
    blocks_said_join(bx + seq![block], by, tools);
    assert(blocks =~= bx + seq![block] + by);
    said_by_one_block(block, tools);
    let line = seq![(Speaker::Assistant, core)];
    assert(block_said(block, tools) =~= line);
    assert(conversation(es, tools) =~= conversation(x, tools) + blocks_said(bx, tools) + line
        + blocks_said(by, tools) + conversation(y, tools));
    let p = (conversation(x, tools).len() + blocks_said(bx, tools).len()) as int;
    assert(conversation(es, tools)[p] == (Speaker::Assistant, core));
}

/// Whatever a person wrote is shown in full, at its place.
pub proof fn messages_are_shown_in_full(
    es: Seq<JsonView>,
    i: int,
    a: Seq<char>,
    core: Seq<char>,
    b: Seq<char>,
    tools: bool,
)
    requires
        0 <= i < es.len(),
        scan::is_turn(es[i], a + core + b),
        es[i].field("isSidechain"@) != Some(JsonView::Bool(true)),
        text::all_blank(a),
        text::is_core(core),
        text::all_blank(b),
        !text::begins(core, "<command-name>"@),
        !text::begins(core, "<command-message>"@),
        !text::begins(core, "<local-command-stdout>"@),
        !text::begins(core, "<local-command-caveat>"@),
        !text::begins(core, "<task-notification>"@),
        !text::begins(core, "<system-reminder>"@),
    ensures
        conversation(es, tools) == conversation(es.take(i), tools) + seq![(Speaker::User, core)]
            + conversation(es.skip(i + 1), tools),
{
    let x = es.take(i);
    let y = es.skip(i + 1);
    scan::turns_are_messages(es[i], a, core, b);
    text::trimming_leaves_the_core(a, core, b);
    conversation_joins(x, seq![es[i]], tools);
    conversation_joins(x + seq![es[i]], y, tools);
    assert(es =~= x + seq![es[i]] + y);
    conversation_of_one(es[i], tools);
    assert(entry_said(es[i], tools) =~= seq![(Speaker::User, core)]);
    assert(conversation(es, tools) =~= conversation(x, tools) + seq![(Speaker::User, core)]
        + conversation(y, tools));
}

/// A tool call is a line of its own where tools are shown, told by its name, and
/// none where they are not. Blank texts and blocks of other kinds say nothing.
pub proof fn tool_calls_are_lines_on_request(e: JsonView, block: JsonView, tools: bool)
    requires
        is_reply(e, seq![block]),
    ensures
        block.text_at("type"@) == Some("tool_use"@) && !tools ==> conversation(
            seq![e],
            tools,
        ).len() == 0,
        block.text_at("type"@) == Some("tool_use"@) && tools ==> conversation(seq![e], tools).len()
            == 1 && conversation(seq![e], tools)[0].0 == Speaker::Tool,
        block.text_at("type"@) == Some("tool_use"@) && tools ==> conversation(seq![e], tools)[0].1
            == tool_summary(
            match block.text_at("name"@) {
                Some(n) => n,
                None => "tool"@,
            },
            block.field("input"@),
        ),
        block.text_at("type"@) != Some("tool_use"@) && block.text_at("type"@) != Some("text"@)
            ==> conversation(seq![e], tools).len() == 0,
        block.text_at("type"@) == Some("text"@) && (block.text_at("text"@) is None
            || text::all_blank(block.text_at("text"@)->0)) ==> conversation(seq![e], tools).len()
            == 0,
{
    reveal_strlit("text");
    reveal_strlit("tool_use");
    assert("text"@.len() != "tool_use"@.len());
    conversation_of_one(e, tools);
    a_reply_is_no_turn(e, seq![block]);
    said_by_one_block(block, tools);
    if block.text_at("text"@) is Some && text::all_blank(block.text_at("text"@)->0) {
        text::trimming_leaves_nothing_of_blanks(block.text_at("text"@)->0);
    }
}

/// Entries that are neither messages of a person nor replies say nothing.
pub proof fn other_entries_say_nothing(e: JsonView, tools: bool)
    ensures
        e.field("isSidechain"@) == Some(JsonView::Bool(true)) ==> conversation(seq![e], tools).len()
            == 0,
        e.text_at("type"@) != Some("user"@) && e.text_at("type"@) != Some("assistant"@)
            ==> conversation(seq![e], tools).len() == 0,
        e.text_at("type"@) == Some("user"@) && !scan::is_spoken(e) ==> conversation(
            seq![e],
            tools,
        ).len() == 0,
{
    reveal_strlit("user");
    reveal_strlit("assistant");
    assert("user"@.len() != "assistant"@.len());
    conversation_of_one(e, tools);
}

/// A tool call is told by its name and by the first of the arguments `file_path`,
/// `path`, `command`, `pattern`, `query`, `url` and `description` that is a text:
/// all of it on one line, or its first 120 characters.
pub proof fn tool_calls_tell_their_first_argument(
    name: Seq<char>,
    input: JsonView,
    n: int,
    a: Seq<char>,
    core: Seq<char>,
    b: Seq<char>,
)
    requires
        0 <= n < 7,
        ({
            let keys = seq![
                "file_path"@,
                "path"@,
                "command"@,
                "pattern"@,
                "query"@,
                "url"@,
                "description"@,
            ];
            &&& input.text_at(keys[n]) == Some(a + core + b)
            &&& forall|k: int| 0 <= k < n ==> input.text_at(#[trigger] keys[k]) is None
        }),
        text::all_blank(a),
        text::is_core(core),
        text::all_blank(b),
        forall|i: int| 0 <= i < core.len() ==> #[trigger] core[i] != '\n',
    ensures
        core.len() <= 120 ==> tool_summary(name, Some(input)) == name + " "@ + core,
        core.len() > 120 ==> tool_summary(name, Some(input)) == name + " "@ + core.take(120),
{
    let keys = telling_keys();
    first_detail(input, keys, n, a + core + b);
    text::trimming_leaves_the_core(a, core, b);
    assert(on_one_line(core) =~= core);
}

/// The first text under one of some keys is the detail.
proof fn first_detail(input: JsonView, keys: Seq<Seq<char>>, n: int, t: Seq<char>)
    requires
        0 <= n < keys.len(),
        input.text_at(keys[n]) == Some(t),
        forall|k: int| 0 <= k < n ==> input.text_at(#[trigger] keys[k]) is None,
    ensures
        detail(input, keys) == t,
    decreases n,
{
    if n > 0 {
        let rest = keys.skip(1);
        assert(input.text_at(keys[0]) is None);
        assert forall|k: int| 0 <= k < n - 1 implies input.text_at(#[trigger] rest[k]) is None by {
            assert(rest[k] == keys[k + 1]);
        }
        first_detail(input, rest, n - 1, t);
    }
}

/// Without any of these arguments a tool call is told by its name alone, and line
/// breaks in an argument are told as spaces.
pub proof fn tool_calls_are_told_on_one_line(name: Seq<char>, input: JsonView, s: Seq<char>, i: int)
    requires
        0 <= i < s.len(),
    ensures
        tool_summary(name, None) == name,
        input.text_at("file_path"@) is None && input.text_at("path"@) is None && input.text_at(
            "command"@,
        ) is None && input.text_at("pattern"@) is None && input.text_at("query"@) is None
            && input.text_at("url"@) is None && input.text_at("description"@) is None
            ==> tool_summary(name, Some(input)) == name,
        on_one_line(s).len() == s.len(),
        s[i] == '\n' ==> on_one_line(s)[i] == ' ',
        s[i] != '\n' ==> on_one_line(s)[i] == s[i],
{
    text::trimming_leaves_nothing_of_blanks(Seq::empty());
    let keys = telling_keys();
    if forall|k: int| 0 <= k < keys.len() ==> input.text_at(#[trigger] keys[k]) is None {
        no_detail(input, keys);
    } else {
        let k = choose|k: int| 0 <= k < keys.len() && input.text_at(#[trigger] keys[k]) is Some;
        assert(k == 0 || k == 1 || k == 2 || k == 3 || k == 4 || k == 5 || k == 6);
    }
}

proof fn no_detail(input: JsonView, keys: Seq<Seq<char>>)
    requires
        forall|k: int| 0 <= k < keys.len() ==> input.text_at(#[trigger] keys[k]) is None,
    ensures
        detail(input, keys) == Seq::<char>::empty(),
    decreases keys.len(),
{
    if keys.len() > 0 {
        let rest = keys.skip(1);
        assert(input.text_at(keys[0]) is None);
        assert forall|k: int| 0 <= k < rest.len() implies input.text_at(#[trigger] rest[k])
            is None by {
            assert(rest[k] == keys[k + 1]);
        }
        no_detail(input, rest);
    }
}

/// What a person wrote is exported as theirs, and what the assistant said as its
/// own.
pub proof fn roles_follow_speakers()
    ensures
        role_of(Speaker::User) == Role::User,
        role_of(Speaker::Assistant) == Role::Assistant,
{
}

/// A user turn that, behind any blanks, opens with one of the six tags that a
/// machine writes leaves no trace in a session: without it the search text, the
/// number of messages, the last message, the title and the conversation are the
/// same.
pub proof fn machine_turns_leave_no_trace(
    es: Seq<JsonView>,
    i: int,
    blank: Seq<char>,
    tag: Seq<char>,
    rest: Seq<char>,
    tools: bool,
)
    requires
        0 <= i < es.len(),
        es[i].text_at("type"@) == Some("user"@),
        es[i].field("message"@) is Some,
        es[i].field("message"@)->0.field("content"@) == Some(
            JsonView::Text(blank + (tag + rest)),
        ),
        text::all_blank(blank),
        tag == "<command-name>"@ || tag == "<command-message>"@ || tag == "<local-command-stdout>"@
            || tag == "<local-command-caveat>"@ || tag == "<task-notification>"@ || tag
            == "<system-reminder>"@,
    ensures
        !scan::is_spoken(es[i]),
        scan::search_text(es.remove(i)) == scan::search_text(es),
        scan::message_count(es.remove(i)) == scan::message_count(es),
        scan::last_message(es.remove(i)) == scan::last_message(es),
        scan::spoken_head(es.remove(i)) is Some <==> scan::spoken_head(es) is Some,
        scan::spoken_head(es) is Some ==> scan::spoken_head(es.remove(i))->0.title
            == scan::spoken_head(es)->0.title,
        conversation(es.remove(i), tools) == conversation(es, tools),
{
    parser::machine_tags_are_noise(blank, tag, rest);
    asides_leave_no_trace(es, i, tools);
    unspoken_leaves_no_trace(es, i);
    let x = es.take(i);
    let y = es.skip(i + 1);
    assert(es =~= x + seq![es[i]] + y);
    assert(es.remove(i) =~= x + y);
    scan::search_text_joins(x, seq![es[i]]);
    scan::search_text_joins(x + seq![es[i]], y);
    scan::search_text_joins(x, y);
    scan::search_text_of_one(es[i]);
    assert(scan::search_text(x) + Seq::<char>::empty() =~= scan::search_text(x));
}

/// What is no message of a person changes neither the messages nor the title.
proof fn unspoken_leaves_no_trace(es: Seq<JsonView>, i: int)
    requires
        0 <= i < es.len(),
        !scan::is_spoken(es[i]),
    ensures
        scan::message_count(es.remove(i)) == scan::message_count(es),
        scan::last_message(es.remove(i)) == scan::last_message(es),
        scan::spoken_head(es.remove(i)) is Some <==> scan::spoken_head(es) is Some,
        scan::spoken_head(es) is Some ==> scan::spoken_head(es.remove(i))->0.title
            == scan::spoken_head(es)->0.title,
    decreases es.len(),
{
    if i == es.len() - 1 {
        assert(es.remove(i) =~= es.drop_last());
    } else {
        unspoken_leaves_no_trace(es.drop_last(), i);
        assert(es.remove(i).drop_last() =~= es.drop_last().remove(i));
        assert(es.remove(i).last() == es.last());
    }
}

} // verus!
