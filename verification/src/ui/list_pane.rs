//! The list of sessions.

use crate::app::{App, Scope};
use crate::session;
use crate::session::{format_duration, format_file_size, size_category, SessionMeta, SessionView};
use crate::text;
use crate::ui::style;
use crate::ui::style::{Color, Line, LineOfSpans, SpanView, Style};
use crate::wrap;
use crate::wrap::truncate;
use vstd::prelude::*;

verus! {

/// The style of a pane's border, which tells whether the keys go to it.
#[verifier::allow_in_spec]
pub fn border_style(focused: bool) -> Style
    returns
        (if focused {
            Style { fg: Color::Cyan, bg: Color::Unset, bold: false }
        } else {
            Style { fg: Color::DarkGray, bg: Color::Unset, bold: false }
        }),
{
    if focused {
        Style { fg: Color::Cyan, bg: Color::Unset, bold: false }
    } else {
        Style { fg: Color::DarkGray, bg: Color::Unset, bold: false }
    }
}

/// The title of the list: how many sessions are listed, of how many, and by
/// which filters.
pub open spec fn list_title_text(app: App) -> Seq<char> {
    " Sessions ("@ + text::decimal(app.filtered_indices@.len()) + "/"@ + text::decimal(
        app.sessions@.len(),
    ) + ") ["@ + app.scope.label_text() + match app.size_filter {
        Some(f) => "|"@ + f@,
        None => Seq::empty(),
    } + "] "@
}

/// The title of the list.
pub fn list_title(app: &App) -> (r: String)
    ensures
        r@ == list_title_text(*app),
{
    let mut out = " Sessions (".to_owned();
    let listed = text::decimal_of(app.filtered_indices.len() as u128);
    out.append(listed.as_str());
    out.append("/");
    let all = text::decimal_of(app.sessions.len() as u128);
    out.append(all.as_str());
    out.append(") [");
    out.append(app.scope.label());
    match app.size_filter {
        Some(f) => {
            out.append("|");
            out.append(f);
        },
        None => {},
    }
    out.append("] ");
    assert(out@ =~= list_title_text(*app));
    out
}

/// What is shown where no session is listed.
pub fn empty_message(app: &App) -> (r: &'static str)
    ensures
        r@ == if app.scope == Scope::Current && app.cwd_encoded is Some {
            "No sessions in this directory.\n\nPress  a  to show all projects, or  /  to search."@
        } else {
            "No sessions found."@
        },
{
    if app.scope == Scope::Current && app.cwd_encoded.is_some() {
        "No sessions in this directory.\n\nPress  a  to show all projects, or  /  to search."
    } else {
        "No sessions found."
    }
}

/// The first entry of the list that is shown: such that the selected one is the
/// last on the page, unless it is on the first.
pub open spec fn first_entry(selected: int, height: int) -> int {
    let page = if height / 4 > 1 {
        height / 4
    } else {
        1
    };
    if selected >= page {
        selected - page + 1
    } else {
        0
    }
}

/// How many entries are shown: as many as begin on the pane.
pub open spec fn entry_count(listed: int, first: int, height: int) -> int {
    let fit = (height + 3) / 4;
    if first >= listed {
        0
    } else if listed - first < fit {
        listed - first
    } else {
        fit
    }
}

/// The first entry of the list that is shown, and how many are.
pub fn list_window(app: &App, height: u16) -> (r: (usize, usize))
    ensures
        r.0 == first_entry(app.selected as int, height as int),
        r.1 == entry_count(app.filtered_indices@.len() as int, r.0 as int, height as int),
{
    let page: usize = if height / 4 > 1 {
        (height / 4) as usize
    } else {
        1
    };
    let first = if app.selected >= page {
        app.selected - page + 1
    } else {
        0
    };
    let fit: usize = (height as usize + 3) / 4;
    let n = app.filtered_indices.len();
    let count = if first >= n {
        0
    } else if n - first < fit {
        n - first
    } else {
        fit
    };
    (first, count)
}

/// The selected session is always shown, if there is room for one.
pub proof fn selected_is_shown(listed: int, selected: int, height: int)
    requires
        0 <= selected < listed,
        height > 0,
    ensures
        ({
            let first = first_entry(selected, height);
            first <= selected < first + entry_count(listed, first, height)
        }),
{
}

/// The mark before a session: whether it is selected, and whether bookmarked.
pub open spec fn mark_text(selected: bool, pinned: bool) -> Seq<char> {
    if selected && pinned {
        "▸★ "@
    } else if selected {
        "▸  "@
    } else if pinned {
        " ★ "@
    } else {
        "   "@
    }
}

/// The style of what stands out in a session's entry.
#[verifier::allow_in_spec]
pub fn strong_style(selected: bool) -> Style
    returns
        (if selected {
            Style { fg: Color::Cyan, bg: Color::Unset, bold: true }
        } else {
            Style { fg: Color::White, bg: Color::Unset, bold: false }
        }),
{
    if selected {
        Style { fg: Color::Cyan, bg: Color::Unset, bold: true }
    } else {
        Style { fg: Color::White, bg: Color::Unset, bold: false }
    }
}

/// The style of the branch in a session's entry.
#[verifier::allow_in_spec]
pub fn branch_style(selected: bool) -> Style
    returns
        (if selected {
            Style { fg: Color::Cyan, bg: Color::Unset, bold: false }
        } else {
            Style { fg: Color::Yellow, bg: Color::Unset, bold: false }
        }),
{
    if selected {
        Style { fg: Color::Cyan, bg: Color::Unset, bold: false }
    } else {
        Style { fg: Color::Yellow, bg: Color::Unset, bold: false }
    }
}

/// The first line of an entry: the mark, the time, the project, the branch and
/// the name.
pub open spec fn first_line(s: SessionView, stamp: Seq<char>, selected: bool, pinned: bool) -> LineOfSpans {
    seq![
        style::spanned(mark_text(selected, pinned), strong_style(selected)),
        style::spanned(stamp + "  "@, border_style(selected)),
        style::spanned(s.project, strong_style(selected)),
    ] + (if s.branch.len() > 0 {
        seq![style::spanned("  "@ + s.branch, branch_style(selected))]
    } else {
        Seq::empty()
    }) + (if s.name.len() > 0 {
        seq![style::spanned("  "@ + s.name, Style::bold(Color::Cyan))]
    } else {
        Seq::empty()
    })
}

/// The color of a size category.
pub open spec fn category_color(category: Seq<char>) -> Color {
    if category == "quick"@ {
        Color::Green
    } else if category == "medium"@ {
        Color::Yellow
    } else if category == "deep"@ {
        Color::Magenta
    } else {
        Color::Red
    }
}

/// The color of a size category.
fn color_of(category: &str) -> (r: Color)
    ensures
        r == category_color(category@),
{
    if text::text_eq(category, "quick") {
        Color::Green
    } else if text::text_eq(category, "medium") {
        Color::Yellow
    } else if text::text_eq(category, "deep") {
        Color::Magenta
    } else {
        Color::Red
    }
}

/// The number of messages, if there are any.
pub open spec fn messages_text(n: nat) -> Seq<char> {
    if n > 0 {
        " · "@ + text::decimal(n) + " msgs"@
    } else {
        Seq::empty()
    }
}

/// The title, in quotes and cut to what room there is, if there is enough.
pub open spec fn title_text(title: Seq<char>, room: int) -> Seq<char> {
    if room > 3 {
        "  \""@ + wrap::truncated(title, (room - 3) as nat) + "\""@
    } else {
        Seq::empty()
    }
}

/// The second line of an entry: how long, how large, how many messages, and the
/// title as far as it fits.
pub open spec fn second_line(s: SessionView, selected: bool, width: int) -> LineOfSpans {
    let duration = "   "@ + session::duration_text(s.duration_secs as nat) + "  "@;
    let size = session::file_size_text(s.file_size as nat) + " "@;
    let label = session::category(s.file_size as int);
    let category = "["@ + label + "]"@;
    let messages = messages_text(s.message_count as nat);
    let room = width - duration.len() - size.len() - category.len() - messages.len() - 2;
    let dim = border_style(selected);
    seq![
        style::spanned(duration, dim),
        style::spanned(size, dim),
        style::spanned(category, Style::bold(category_color(label))),
        style::spanned(messages, dim),
        style::spanned(title_text(s.title, room), dim),
    ]
}

/// The third line of an entry: the last message, as far as it fits.
pub open spec fn third_line(s: SessionView, width: int) -> LineOfSpans {
    if s.last_message.len() > 0 {
        seq![
            style::spanned(
                wrap::truncated("   └ left off: \""@ + s.last_message + "\""@, width as nat),
                Style::color(Color::DarkGray),
            ),
        ]
    } else {
        Seq::empty()
    }
}

/// The first line of an entry.
fn first_line_of(s: &SessionMeta, stamp: &str, selected: bool, pinned: bool) -> (r: Line)
    ensures
        style::spans_view(r@) == first_line(s@, stamp@, selected, pinned),
{
    let mark = if selected && pinned {
        "▸★ "
    } else if selected {
        "▸  "
    } else if pinned {
        " ★ "
    } else {
        "   "
    };
    let mut line = style::blank();
    style::push_str(&mut line, mark, strong_style(selected));
    style::push(&mut line, style::joined(stamp, "  ", ""), border_style(selected));
    style::push_str(&mut line, s.project.as_str(), strong_style(selected));
    proof {
        reveal_strlit("");
        assert(stamp@ + "  "@ + ""@ =~= stamp@ + "  "@);
    }
    if !s.branch.as_str().is_empty() {
        let t = style::joined("  ", s.branch.as_str(), "");
        assert(t@ =~= "  "@ + s.branch@);
        style::push(&mut line, t, branch_style(selected));
    }
    if !s.name.as_str().is_empty() {
        let t = style::joined("  ", s.name.as_str(), "");
        assert(t@ =~= "  "@ + s.name@);
        style::push(&mut line, t, Style::bold(Color::Cyan));
    }
    assert(style::spans_view(line@) =~= first_line(s@, stamp@, selected, pinned));
    line
}

/// The second line of an entry.
fn second_line_of(s: &SessionMeta, selected: bool, width: usize) -> (r: Line)
    ensures
        style::spans_view(r@) == second_line(s@, selected, width as int),
{
    let dim = border_style(selected);
    let time = format_duration(s.duration_secs);
    let duration = style::joined("   ", time.as_str(), "  ");
    let bytes = format_file_size(s.file_size);
    let size = style::joined(bytes.as_str(), " ", "");
    proof {
        reveal_strlit("");
        assert(size@ =~= bytes@ + " "@);
    }
    let label = size_category(s.file_size);
    let category = style::joined("[", label, "]");
    let color = color_of(label);
    let messages = if s.message_count > 0 {
        let n = text::decimal_of(s.message_count as u128);
        style::joined(" · ", n.as_str(), " msgs")
    } else {
        String::new()
    };
    let mut room = width.saturating_sub(text::chars_of(duration.as_str()).len());
    room = room.saturating_sub(text::chars_of(size.as_str()).len());
    room = room.saturating_sub(text::chars_of(category.as_str()).len());
    room = room.saturating_sub(text::chars_of(messages.as_str()).len());
    room = room.saturating_sub(2);
    let title = if room > 3 {
        let t = truncate(s.title.as_str(), room - 3);
        style::joined("  \"", t.as_str(), "\"")
    } else {
        String::new()
    };
    let mut line = style::blank();
    style::push(&mut line, duration, dim);
    style::push(&mut line, size, dim);
    style::push(&mut line, category, Style::bold(color));
    style::push(&mut line, messages, dim);
    style::push(&mut line, title, dim);
    assert(style::spans_view(line@) =~= second_line(s@, selected, width as int));
    line
}

/// The third line of an entry.
fn third_line_of(s: &SessionMeta, width: usize) -> (r: Line)
    ensures
        style::spans_view(r@) == third_line(s@, width as int),
{
    let mut line = style::blank();
    if !s.last_message.as_str().is_empty() {
        let left_off = style::joined("   └ left off: \"", s.last_message.as_str(), "\"");
        style::push(&mut line, truncate(left_off.as_str(), width), Style::color(Color::DarkGray));
    }
    assert(style::spans_view(line@) =~= third_line(s@, width as int));
    line
}

/// The rows of an entry that begins at row `row`: its three lines, and a blank
/// one if the pane goes on below.
pub open spec fn entry_rows(
    s: SessionView,
    stamp: Seq<char>,
    selected: bool,
    pinned: bool,
    width: int,
    row: int,
    height: int,
) -> Seq<LineOfSpans> {
    seq![first_line(s, stamp, selected, pinned), second_line(s, selected, width), third_line(s, width)]
        + (if row + 3 < height {
        seq![Seq::<SpanView>::empty()]
    } else {
        Seq::empty()
    })
}

/// The rows of the list: `n` entries from the `first` on, the time of each being
/// given as a text.
pub open spec fn list_rows(
    app: App,
    stamps: Seq<Seq<char>>,
    first: int,
    n: int,
    width: int,
    height: int,
) -> Seq<LineOfSpans>
    decreases n,
{
    if n <= 0 {
        Seq::empty()
    } else {
        let at = first + n - 1;
        let s = app.sessions@[app.filtered_indices@[at] as int]@;
        list_rows(app, stamps, first, n - 1, width, height) + entry_rows(
            s,
            stamps[n - 1],
            at == app.selected,
            app.bookmarks@.contains(s.id),
            width,
            4 * (n - 1),
            height,
        )
    }
}

/// The rows of the list on a pane of the given size, where `stamps` tells the
/// times of the sessions shown.
pub fn list_lines(app: &App, stamps: &Vec<String>, width: u16, height: u16) -> (r: Vec<Line>)
    requires
        app.wf(),
        stamps@.len() == entry_count(
            app.filtered_indices@.len() as int,
            first_entry(app.selected as int, height as int),
            height as int,
        ),
    ensures
        style::lines_view(r@) == list_rows(
            *app,
            text::views(stamps@),
            first_entry(app.selected as int, height as int),
            stamps@.len() as int,
            width as int,
            height as int,
        ),
{
    let (first, count) = list_window(app, height);
    let ghost times = text::views(stamps@);
    let mut out: Vec<Line> = Vec::new();
    let mut k: usize = 0;
    assert(style::lines_view(out@) =~= Seq::empty());
    while k < count
        invariant
            k <= count,
            app.wf(),
            count == stamps@.len(),
            count <= (height + 3) / 4,
            times == text::views(stamps@),
            first + count <= app.filtered_indices@.len() || count == 0,
            style::lines_view(out@) == list_rows(
                *app,
                times,
                first as int,
                k as int,
                width as int,
                height as int,
            ),
        decreases count - k,
    {
        let ghost before = style::lines_view(out@);
        assert(first + k < app.filtered_indices.len());
        let at = first + k;
        let s = &app.sessions[app.filtered_indices[at]];
        let selected = at == app.selected;
        let pinned = app.bookmarks.contains(s.id.as_str());
        let a = first_line_of(s, stamps[k].as_str(), selected, pinned);
        let b = second_line_of(s, selected, width as usize);
        let c = third_line_of(s, width as usize);
        style::push_line(&mut out, a);
        style::push_line(&mut out, b);
        style::push_line(&mut out, c);
        if 4 * k + 3 < height as usize {
            style::push_line(&mut out, style::blank());
        }
        assert(style::lines_view(out@) =~= before + entry_rows(
            s@,
            times[k as int],
            selected,
            pinned,
            width as int,
            4 * k as int,
            height as int,
        ));
        k += 1;
    }
    out
}

/// The list shows the sessions in the order of the list, four rows apart, from the first
/// one shown.
pub proof fn entries_stand_in_order(
    app: App,
    stamps: Seq<Seq<char>>,
    first: int,
    n: int,
    width: int,
    height: int,
    k: int,
)
    requires
        0 <= k < n,
        4 * (n - 1) < height,
    ensures
        ({
            let rows = list_rows(app, stamps, first, n, width, height);
            let s = app.sessions@[app.filtered_indices@[first + k] as int]@;
            let selected = first + k == app.selected;
            let pinned = app.bookmarks@.contains(s.id);
            &&& rows.len() >= 4 * (n - 1) + 3
            &&& rows[4 * k] == first_line(s, stamps[k], selected, pinned)
            &&& rows[4 * k + 1] == second_line(s, selected, width)
            &&& rows[4 * k + 2] == third_line(s, width)
            &&& 4 * n - 1 < height ==> rows.len() == 4 * n
            &&& 4 * n - 1 >= height ==> rows.len() == 4 * n - 1
        }),
    decreases n,
{
    if n > 1 {
        entries_stand_in_order(
            app,
            stamps,
            first,
            n - 1,
            width,
            height,
            if k < n - 1 {
                k
            } else {
                0
            },
        );
        let before = list_rows(app, stamps, first, n - 1, width, height);
        assert(before.len() == 4 * (n - 1));
        let rows = list_rows(app, stamps, first, n, width, height);
        if k < n - 1 {
            assert(rows[4 * k] == before[4 * k]);
            assert(rows[4 * k + 1] == before[4 * k + 1]);
            assert(rows[4 * k + 2] == before[4 * k + 2]);
        }
    } else {
        assert(list_rows(app, stamps, first, 0, width, height).len() == 0);
    }
}

/// The first line of an entry begins with a mark for the selected session and a star for
/// a bookmarked one, and tells the time, the project, and the branch and the name where
/// there are any.
pub proof fn first_lines_tell_the_session(
    s: SessionView,
    stamp: Seq<char>,
    selected: bool,
    pinned: bool,
)
    ensures
        ({
            let line = first_line(s, stamp, selected, pinned);
            let k: int = if s.branch.len() > 0 {
                4
            } else {
                3
            };
            &&& selected && pinned ==> line[0].text == "▸★ "@
            &&& selected && !pinned ==> line[0].text == "▸  "@
            &&& !selected && pinned ==> line[0].text == " ★ "@
            &&& !selected && !pinned ==> line[0].text == "   "@
            &&& line[1].text == stamp + "  "@
            &&& line[2].text == s.project
            &&& s.branch.len() > 0 ==> line[3].text == "  "@ + s.branch
            &&& s.name.len() > 0 ==> line.len() == k + 1 && line[k].text == "  "@ + s.name
            &&& s.name.len() == 0 ==> line.len() == k
        }),
{
}

/// The second line of an entry tells the duration, the size and its category, the number
/// of messages, and the whole title where there is room for it.
pub proof fn second_lines_tell_the_session(s: SessionView, selected: bool, width: int)
    ensures
        ({
            let line = second_line(s, selected, width);
            let used = line[0].text.len() + line[1].text.len() + line[2].text.len()
                + line[3].text.len();
            &&& line.len() == 5
            &&& line[0].text == "   "@ + session::duration_text(s.duration_secs as nat) + "  "@
            &&& line[1].text == session::file_size_text(s.file_size as nat) + " "@
            &&& line[2].text == "["@ + session::category(s.file_size as int) + "]"@
            &&& s.message_count > 0 ==> line[3].text == " · "@ + text::decimal(
                s.message_count as nat,
            ) + " msgs"@
            &&& s.message_count == 0 ==> line[3].text.len() == 0
            &&& s.title.len() > 0 && used + s.title.len() + 5 <= width ==> line[4].text == "  \""@
                + s.title + "\""@
            &&& width - used <= 5 ==> line[4].text.len() == 0
        }),
{
}

/// The third line of an entry tells the last message, whole where there is room for it,
/// and is blank where there is none.
pub proof fn third_lines_tell_the_last_message(s: SessionView, width: nat)
    ensures
        ({
            let whole = "   └ left off: \""@ + s.last_message + "\""@;
            let line = third_line(s, width as int);
            &&& s.last_message.len() == 0 ==> line.len() == 0
            &&& s.last_message.len() > 0 ==> line.len() == 1
            &&& s.last_message.len() > 0 && whole.len() <= width ==> line[0].text == whole
            &&& s.last_message.len() > 0 && 0 < width < whole.len() ==> line[0].text == whole.take(
                width - 1,
            ) + "…"@
        }),
{
    reveal_strlit("   └ left off: \"");
}

/// The page begins with the first session, and else such that the selected one is its
/// last; the entries shown are those that begin on it.
pub proof fn pages_end_with_the_selected_session(selected: int, listed: int, height: int)
    requires
        0 <= selected < listed,
        height > 0,
    ensures
        ({
            let page = if height < 8 {
                1
            } else {
                height / 4
            };
            let first = first_entry(selected, height);
            let shown = entry_count(listed, first, height);
            &&& selected < page ==> first == 0
            &&& selected >= page ==> first == selected - page + 1
            &&& first + shown <= listed
            &&& 4 * (shown - 1) < height
            &&& first + shown < listed ==> 4 * shown >= height
        }),
{
}

/// The title of the list tells how many sessions are listed, of how many, in which scope
/// and of which size.
pub proof fn list_titles_tell_the_filters(app: App)
    ensures
        ({
            let counts = " Sessions ("@ + text::decimal(app.filtered_indices@.len()) + "/"@
                + text::decimal(app.sessions@.len()) + ") ["@;
            let scope = if app.scope == Scope::Current {
                "cwd"@
            } else {
                "all"@
            };
            &&& app.size_filter is None ==> list_title_text(app) == counts + scope + "] "@
            &&& app.size_filter is Some ==> list_title_text(app) == counts + scope + "|"@
                + app.size_filter->0@ + "] "@
        }),
{
    let counts = " Sessions ("@ + text::decimal(app.filtered_indices@.len()) + "/"@
        + text::decimal(app.sessions@.len()) + ") ["@;
    let none = Seq::<char>::empty();
    assert(counts + app.scope.label_text() + none =~= counts + app.scope.label_text());
    if app.size_filter is Some {
        let f = app.size_filter->0@;
        assert(counts + app.scope.label_text() + ("|"@ + f) =~= counts + app.scope.label_text()
            + "|"@ + f);
    }
}

/// The colors of the size categories.
pub proof fn categories_have_these_colors()
    ensures
        category_color("quick"@) == Color::Green,
        category_color("medium"@) == Color::Yellow,
        category_color("deep"@) == Color::Magenta,
        category_color("massive"@) == Color::Red,
{
    reveal_strlit("quick");
    reveal_strlit("medium");
    reveal_strlit("deep");
    reveal_strlit("massive");
    assert("quick"@[0] == 'q');
    assert("medium"@[1] == 'e');
    assert("medium"@[0] == 'm');
    assert("deep"@[0] == 'd');
    assert("massive"@[0] == 'm');
    assert("massive"@[1] == 'a');
}

} // verus!
