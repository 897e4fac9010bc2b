//! A session as a markdown document.

use crate::parser::{ConversationMessage, Role};
use crate::session;
use crate::session::{format_duration, format_file_size, SessionMeta, SessionView};
use crate::text;
use vstd::prelude::*;

verus! {

/// Whether a character may stand in a file name.
pub open spec fn keeps(c: char) -> bool {
    text::is_letter_or_digit(c) || c == '-' || c == '_'
}

/// `name` with a dash for every character that may not stand in a file name.
pub open spec fn safe_name(name: Seq<char>) -> Seq<char> {
    Seq::new(
        name.len(),
        |i: int|
            if keeps(name[i]) {
                name[i]
            } else {
                '-'
            },
    )
}

/// `name` with a dash for every character that may not stand in a file name.
pub fn sanitize_filename(name: &str) -> (r: String)
    ensures
        r@ == safe_name(name@),
{
    let v = text::chars_of(name);
    let mut out = String::new();
    let mut i: usize = 0;
    while i < v.len()
        invariant
            i <= v@.len(),
            v@ == name@,
            out@ == safe_name(name@).take(i as int),
        decreases v@.len() - i,
    {
        let c = v[i];
        if c.is_alphanumeric() || c == '-' || c == '_' {
            out.push(c);
        } else {
            out.push('-');
        }
        i += 1;
        assert(out@ =~= safe_name(name@).take(i as int));
    }
    assert(out@ =~= safe_name(name@));
    out
}

/// A sanitized file name stays as it is.
pub proof fn safe_name_is_kept(name: Seq<char>)
    ensures
        safe_name(safe_name(name)) == safe_name(name),
{
    assert(safe_name(safe_name(name)) =~= safe_name(name));
}

/// The heading of a message.
pub open spec fn heading(role: Role) -> Seq<char> {
    match role {
        Role::User => "**User**"@,
        Role::Assistant => "**Assistant**"@,
    }
}

/// Messages, each under its heading.
pub open spec fn messages_text(messages: Seq<ConversationMessage>) -> Seq<char>
    decreases messages.len(),
{
    if messages.len() == 0 {
        Seq::empty()
    } else {
        messages_text(messages.drop_last()) + heading(messages.last().role) + "\n\n"@
            + messages.last().text@ + "\n\n"@
    }
}

/// What is told of the session before its messages.
pub open spec fn header_text(s: SessionView) -> Seq<char> {
    let shown = if s.name.len() > 0 {
        s.name
    } else {
        s.title
    };
    let branch = if s.branch.len() > 0 {
        "- **Branch**: "@ + s.branch + "\n"@
    } else {
        Seq::empty()
    };
    "# "@ + shown + "\n\n"@ + ("- **Project**: "@ + s.project + "\n"@) + branch + (
    "- **Duration**: "@ + session::duration_text(s.duration_secs as nat) + "\n"@) + (
    "- **Size**: "@ + session::file_size_text(s.file_size as nat) + "\n\n"@) + "---\n\n"@
}

/// The name of the file that a session is exported to.
pub open spec fn export_name(s: SessionView) -> Seq<char> {
    let name = if s.name.len() > 0 {
        s.name
    } else {
        s.id
    };
    safe_name(name) + ".md"@
}

/// Adds a line of the header: a label, a value and what ends it.
fn push_field(out: &mut String, label: &str, value: &str, end: &str)
    ensures
        final(out)@ == old(out)@ + (label@ + value@ + end@),
{
    out.append(label);
    out.append(value);
    out.append(end);
    assert(out@ =~= old(out)@ + (label@ + value@ + end@));
}

/// The name and the contents of the markdown file for a session with the given
/// messages.
pub fn export_session(session: &SessionMeta, messages: &Vec<ConversationMessage>) -> (r: (
    String,
    String,
))
    ensures
        r.0@ == export_name(session@),
        r.1@ == header_text(session@) + messages_text(messages@),
{
    let mut md = String::new();
    let named = !session.name.as_str().is_empty();
    if named {
        push_field(&mut md, "# ", session.name.as_str(), "\n\n");
    } else {
        push_field(&mut md, "# ", session.title.as_str(), "\n\n");
    }
    push_field(&mut md, "- **Project**: ", session.project.as_str(), "\n");
    if !session.branch.as_str().is_empty() {
        push_field(&mut md, "- **Branch**: ", session.branch.as_str(), "\n");
    }
    let duration = format_duration(session.duration_secs);
    push_field(&mut md, "- **Duration**: ", duration.as_str(), "\n");
    let size = format_file_size(session.file_size);
    push_field(&mut md, "- **Size**: ", size.as_str(), "\n\n");
    md.append("---\n\n");
    assert(md@ =~= header_text(session@));
    let mut i: usize = 0;
    assert(md@ =~= header_text(session@) + messages_text(messages@.take(0)));
    while i < messages.len()
        invariant
            i <= messages@.len(),
            md@ == header_text(session@) + messages_text(messages@.take(i as int)),
        decreases messages@.len() - i,
    {
        let message = &messages[i];
        assert(messages@.take(i + 1).drop_last() =~= messages@.take(i as int));
        match message.role {
            Role::User => md.append("**User**"),
            Role::Assistant => md.append("**Assistant**"),
        }
        md.append("\n\n");
        md.append(message.text.as_str());
        md.append("\n\n");
        assert(md@ =~= header_text(session@) + messages_text(messages@.take(i + 1)));
        i += 1;
    }
    assert(messages@.take(i as int) =~= messages@);
    let mut name = if named {
        sanitize_filename(session.name.as_str())
    } else {
        sanitize_filename(session.id.as_str())
    };
    name.append(".md");
    (name, md)
}

/// An export holds the messages one behind the other.
pub proof fn messages_are_exported_in_order(
    x: Seq<ConversationMessage>,
    y: Seq<ConversationMessage>,
)
    ensures
        messages_text(x + y) == messages_text(x) + messages_text(y),
    decreases y.len(),
{
    if y.len() == 0 {
        assert(x + y =~= x);
        assert(messages_text(x) + messages_text(y) =~= messages_text(x));
    } else {
        messages_are_exported_in_order(x, y.drop_last());
        assert((x + y).drop_last() =~= x + y.drop_last());
        assert(messages_text(x + y) =~= messages_text(x) + messages_text(y));
    }
}

/// Each message is exported in full, under a heading that tells who wrote it.
pub proof fn messages_are_exported_in_full(m: ConversationMessage)
    ensures
        m.role == Role::User ==> messages_text(seq![m]) == "**User**"@ + "\n\n"@ + m.text@
            + "\n\n"@,
        m.role == Role::Assistant ==> messages_text(seq![m]) == "**Assistant**"@ + "\n\n"@
            + m.text@ + "\n\n"@,
{
    assert(seq![m].drop_last() =~= Seq::<ConversationMessage>::empty());
    assert(messages_text(Seq::empty()) == Seq::<char>::empty());
    let none = Seq::<char>::empty();
    assert(none + heading(m.role) =~= heading(m.role));
}

/// The header of an export tells the name of the session, or else its title, and its
/// project, branch, duration and size.
pub proof fn headers_tell_the_session(s: SessionView)
    ensures
        s.name.len() > 0 ==> text::begins(header_text(s), "# "@ + s.name + "\n\n"@),
        s.name.len() == 0 ==> text::begins(header_text(s), "# "@ + s.title + "\n\n"@),
        text::contains(header_text(s), "- **Project**: "@ + s.project + "\n"@),
        s.branch.len() > 0 ==> text::contains(
            header_text(s),
            "- **Branch**: "@ + s.branch + "\n"@,
        ),
        text::contains(
            header_text(s),
            "- **Duration**: "@ + session::duration_text(s.duration_secs as nat) + "\n"@,
        ),
        text::contains(
            header_text(s),
            "- **Size**: "@ + session::file_size_text(s.file_size as nat) + "\n\n"@,
        ),
{
    let shown = if s.name.len() > 0 {
        s.name
    } else {
        s.title
    };
    let top = "# "@ + shown + "\n\n"@;
    let project = "- **Project**: "@ + s.project + "\n"@;
    let branch = if s.branch.len() > 0 {
        "- **Branch**: "@ + s.branch + "\n"@
    } else {
        Seq::empty()
    };
    let duration = "- **Duration**: "@ + session::duration_text(s.duration_secs as nat) + "\n"@;
    let size = "- **Size**: "@ + session::file_size_text(s.file_size as nat) + "\n\n"@;
    let end = "---\n\n"@;
    let all = header_text(s);
    assert(all.take(top.len() as int) =~= top);
    text::infix_is_found(top, project, branch + duration + size + end);
    assert(top + project + (branch + duration + size + end) =~= all);
    text::infix_is_found(top + project, branch, duration + size + end);
    assert(top + project + branch + (duration + size + end) =~= all);
    text::infix_is_found(top + project + branch, duration, size + end);
    assert(top + project + branch + duration + (size + end) =~= all);
    text::infix_is_found(top + project + branch + duration, size, end);
    assert(top + project + branch + duration + size + end =~= all);
}

/// A file name keeps letters and digits of any script, dashes and underscores, and has a
/// dash for all else; exports are named by the name of the session, or else by its id.
pub proof fn file_names_keep_letters_and_digits(name: Seq<char>, i: int, s: SessionView)
    requires
        0 <= i < name.len(),
    ensures
        safe_name(name).len() == name.len(),
        text::is_letter_or_digit(name[i]) || name[i] == '-' || name[i] == '_' ==> safe_name(name)[i]
            == name[i],
        !(text::is_letter_or_digit(name[i]) || name[i] == '-' || name[i] == '_') ==> safe_name(
            name,
        )[i] == '-',
        s.name.len() > 0 ==> export_name(s) == safe_name(s.name) + ".md"@,
        s.name.len() == 0 ==> export_name(s) == safe_name(s.id) + ".md"@,
{
}

} // verus!
