//! The search bars, the status bar and the help overlay.

use crate::app::{App, Focus};
use crate::input::TextInput;
use crate::text;
use crate::ui::style;
use crate::ui::style::{Color, Line, LineOfSpans, Style};
use crate::wrap;
use crate::wrap::cursor_x;
use vstd::prelude::*;

verus! {

/// What the search bar shows.
pub struct SearchBar {
    pub text: String,
    pub title: String,
    /// The style of the border and the title.
    pub style: Style,
}

/// The text of the search bar: the search, or a hint where none is typed.
pub open spec fn search_text(app: App) -> Seq<char> {
    if app.searching() {
        app.search_query@.text
    } else if app.focus == Focus::Search {
        Seq::empty()
    } else {
        "Type / to search..."@
    }
}

/// The title of the search bar: how many sessions a search leaves.
pub open spec fn search_title(app: App) -> Seq<char> {
    if app.searching() {
        " Search ("@ + text::decimal(app.filtered_indices@.len()) + "/"@ + text::decimal(
            app.sessions@.len(),
        ) + ") "@
    } else {
        " Search "@
    }
}

/// What the search bar shows.
pub fn search_bar(app: &App) -> (r: SearchBar)
    ensures
        r.text@ == search_text(*app),
        r.title@ == search_title(*app),
        r.style == Style::color(
            if app.focus == Focus::Search {
                Color::Yellow
            } else {
                Color::DarkGray
            },
        ),
{
    let style = if app.focus == Focus::Search {
        Style::color(Color::Yellow)
    } else {
        Style::color(Color::DarkGray)
    };
    if app.search_query.is_empty() {
        let text = if app.focus == Focus::Search {
            String::new()
        } else {
            "Type / to search...".to_owned()
        };
        return SearchBar { text, title: " Search ".to_owned(), style };
    }
    let mut title = " Search (".to_owned();
    let listed = text::decimal_of(app.filtered_indices.len() as u128);
    title.append(listed.as_str());
    title.append("/");
    let all = text::decimal_of(app.sessions.len() as u128);
    title.append(all.as_str());
    title.append(") ");
    SearchBar { text: app.search_query.text().to_owned(), title, style }
}

/// The column of the cursor of an input that starts at `start` in a box that
/// ends at `max_x`.
pub fn input_cursor(input: &TextInput, start: u16, max_x: u16) -> (r: u16)
    ensures
        r == wrap::cursor_column(start as int, input@.cursor, max_x as int),
{
    let n = input.cursor_chars();
    let v = text::chars_of(input.text());
    let before = text::string_of(&v, 0, n);
    cursor_x(start, before.as_str(), max_x)
}

/// The line where a search within the conversation is typed.
pub fn preview_search_line(app: &App) -> (r: Line)
    ensures
        style::spans_view(r@) == seq![
            style::spanned("/"@, Style::bold(Color::Yellow)),
            style::spanned(app.preview_search_query@.text, Style::color(Color::Yellow)),
        ],
{
    let mut line = style::blank();
    style::push_str(&mut line, "/", Style::bold(Color::Yellow));
    style::push_str(&mut line, app.preview_search_query.text(), Style::color(Color::Yellow));
    assert(style::spans_view(line@) =~= seq![
        style::spanned("/"@, Style::bold(Color::Yellow)),
        style::spanned(app.preview_search_query@.text, Style::color(Color::Yellow)),
    ]);
    line
}

/// The style of a key on the status bar.
#[verifier::allow_in_spec]
pub fn key_style() -> Style
    returns
        (Style { fg: Color::Cyan, bg: Color::Rgb(40, 40, 40), bold: true }),
{
    Style { fg: Color::Cyan, bg: Color::Rgb(40, 40, 40), bold: true }
}

/// The style of what a key on the status bar does.
#[verifier::allow_in_spec]
pub fn text_style() -> Style
    returns
        (Style { fg: Color::Rgb(180, 180, 180), bg: Color::Rgb(40, 40, 40), bold: false }),
{
    Style { fg: Color::Rgb(180, 180, 180), bg: Color::Rgb(40, 40, 40), bold: false }
}

/// A key and what it does.
pub open spec fn hint(key: Seq<char>, does: Seq<char>) -> LineOfSpans {
    seq![style::spanned(key, key_style()), style::spanned(does, text_style())]
}

/// A key and what it does.
fn push_hint(line: &mut Line, key: &str, does: &str)
    ensures
        style::spans_view(final(line)@) == style::spans_view(old(line)@) + hint(key@, does@),
{
    let ghost before = style::spans_view(line@);
    style::push_str(line, key, key_style());
    style::push_str(line, does, text_style());
    assert(style::spans_view(line@) =~= before + hint(key@, does@));
}

/// The order of the list, as the status bar tells it.
pub open spec fn sort_text(app: App) -> Seq<char> {
    if app.searching() {
        "sort:relevance  "@
    } else {
        "sort:"@ + app.sort_mode.label_text() + "  "@
    }
}

/// The size filter, as the status bar tells it.
pub open spec fn filter_text(app: App) -> Seq<char> {
    match app.size_filter {
        Some(f) => "["@ + f@ + "]  "@,
        None => "filter  "@,
    }
}

/// The keys on the status bar that tell of the list.
pub open spec fn list_hints(app: App) -> LineOfSpans {
    hint(" ↑↓ "@, "nav  "@) + hint("/ "@, "search  "@) + hint("s "@, sort_text(app)) + hint(
        "a "@,
        app.scope.label_text() + "  "@,
    ) + hint("1-4 "@, filter_text(app))
}

/// The keys on the status bar that open something.
pub open spec fn view_hints() -> LineOfSpans {
    hint("b "@, "pin  "@) + hint("e "@, "export  "@) + hint("t "@, "timeline  "@) + hint(
        "f "@,
        "files  "@,
    ) + hint("T "@, "tools  "@)
}

/// The keys on the status bar that do something with a session, or leave.
pub open spec fn action_hints(print_mode: bool) -> LineOfSpans {
    hint(
        "Enter "@,
        if print_mode {
            "print  "@
        } else {
            "yolo  "@
        },
    ) + hint("l "@, "launch  "@) + hint("c "@, "copy  "@) + hint("d "@, "delete  "@) + hint(
        "? "@,
        "help  "@,
    ) + hint("q "@, "quit "@)
}

/// The question before a deletion.
pub open spec fn delete_question(app: App) -> LineOfSpans {
    let warn = Style::bold_on(Color::White, Color::Red);
    let soft = Style::on(Color::Rgb(200, 200, 200), Color::Red);
    let name = match app.selection() {
        Some(s) => if s.title@.len() > 40 {
            s.title@.take(40)
        } else {
            s.title@
        },
        None => Seq::empty(),
    };
    seq![
        style::spanned(" DELETE "@, warn),
        style::spanned("\""@ + name + "\"? "@, soft),
        style::spanned("d/y "@, warn),
        style::spanned("confirm  "@, soft),
        style::spanned("any key "@, warn),
        style::spanned("cancel "@, soft),
    ]
}

/// What the status bar shows: a message for as long as it lasts, else the
/// question before a deletion, else the keys.
pub open spec fn status_spans(app: App, elapsed_secs: u64) -> LineOfSpans {
    if elapsed_secs < 3 && app.status_message is Some {
        seq![
            style::spanned(
                " "@ + app.status_message->0@,
                Style::on(Color::White, Color::Rgb(0, 80, 40)),
            ),
        ]
    } else if app.confirm_delete {
        delete_question(app)
    } else {
        list_hints(app) + view_hints() + action_hints(app.print_mode)
    }
}

/// The background of the status bar.
pub open spec fn status_color(app: App, elapsed_secs: u64) -> Color {
    if elapsed_secs < 3 && app.status_message is Some {
        Color::Rgb(0, 80, 40)
    } else if app.confirm_delete {
        Color::Red
    } else {
        Color::Rgb(40, 40, 40)
    }
}

/// The question before a deletion.
fn delete_line(app: &App) -> (r: Line)
    requires
        app.wf(),
    ensures
        style::spans_view(r@) == delete_question(*app),
{
    let warn = Style::bold_on(Color::White, Color::Red);
    let soft = Style::on(Color::Rgb(200, 200, 200), Color::Red);
    let name = match app.selected_session() {
        Some(s) => {
            let v = text::chars_of(s.title.as_str());
            if v.len() > 40 {
                assert(v@.subrange(0, 40) =~= v@.take(40));
                text::string_of(&v, 0, 40)
            } else {
                s.title.clone()
            }
        },
        None => String::new(),
    };
    let mut line = style::blank();
    style::push_str(&mut line, " DELETE ", warn);
    style::push(&mut line, style::joined("\"", name.as_str(), "\"? "), soft);
    style::push_str(&mut line, "d/y ", warn);
    style::push_str(&mut line, "confirm  ", soft);
    style::push_str(&mut line, "any key ", warn);
    style::push_str(&mut line, "cancel ", soft);
    assert(style::spans_view(line@) =~= delete_question(*app));
    line
}

/// The keys on the status bar.
fn hint_line(app: &App) -> (r: Line)
    ensures
        style::spans_view(r@) == list_hints(*app) + view_hints() + action_hints(app.print_mode),
{
    let sort = if app.search_query.is_empty() {
        style::joined("sort:", app.sort_mode.label(), "  ")
    } else {
        "sort:relevance  ".to_owned()
    };
    let mut scope = app.scope.label().to_owned();
    scope.append("  ");
    let filter = match app.size_filter {
        Some(f) => style::joined("[", f, "]  "),
        None => "filter  ".to_owned(),
    };
    let mut line = style::blank();
    push_hint(&mut line, " ↑↓ ", "nav  ");
    push_hint(&mut line, "/ ", "search  ");
    push_hint(&mut line, "s ", sort.as_str());
    push_hint(&mut line, "a ", scope.as_str());
    push_hint(&mut line, "1-4 ", filter.as_str());
    assert(style::spans_view(line@) =~= list_hints(*app));
    let ghost first = style::spans_view(line@);
    push_hint(&mut line, "b ", "pin  ");
    push_hint(&mut line, "e ", "export  ");
    push_hint(&mut line, "t ", "timeline  ");
    push_hint(&mut line, "f ", "files  ");
    push_hint(&mut line, "T ", "tools  ");
    assert(style::spans_view(line@) =~= first + view_hints());
    let ghost second = style::spans_view(line@);
    push_hint(
        &mut line,
        "Enter ",
        if app.print_mode {
            "print  "
        } else {
            "yolo  "
        },
    );
    push_hint(&mut line, "l ", "launch  ");
    push_hint(&mut line, "c ", "copy  ");
    push_hint(&mut line, "d ", "delete  ");
    push_hint(&mut line, "? ", "help  ");
    push_hint(&mut line, "q ", "quit ");
    assert(style::spans_view(line@) =~= second + action_hints(app.print_mode));
    line
}

/// What the status bar shows, and its background, some seconds after the last
/// message was noted.
pub fn status_bar(app: &App, elapsed_secs: u64) -> (r: (Line, Color))
    requires
        app.wf(),
    ensures
        style::spans_view(r.0@) == status_spans(*app, elapsed_secs),
        r.1 == status_color(*app, elapsed_secs),
{
    match app.active_status(elapsed_secs) {
        Some(msg) => {
            let mut out = " ".to_owned();
            out.append(msg);
            let mut line = style::blank();
            style::push(&mut line, out, Style::on(Color::White, Color::Rgb(0, 80, 40)));
            assert(style::spans_view(line@) =~= status_spans(*app, elapsed_secs));
            (line, Color::Rgb(0, 80, 40))
        },
        None => if app.confirm_delete {
            (delete_line(app), Color::Red)
        } else {
            (hint_line(app), Color::Rgb(40, 40, 40))
        },
    }
}

/// The command that resumes a session, as the help overlay tells it.
pub open spec fn resume_text(program: Seq<char>) -> Seq<char> {
    "copy `"@ + program + " --resume <id>`"@
}

/// The keys and what they do, as the help overlay lists them. `program` is the
/// command of the assistant.
pub open spec fn help_table(program: Seq<char>) -> Seq<(Seq<char>, Seq<char>)> {
    seq![
        ("j / k  ↑ / ↓"@, "move selection (wraps)"@),
        ("g / G  Home / End"@, "jump to top / bottom"@),
        ("PgUp / PgDn"@, "page up / down"@),
        ("/"@, "search (project, title, branch, file, text)"@),
        ("s"@, "cycle sort: date → size → duration → messages"@),
        ("1-4 / 0"@, "filter by size / clear filter"@),
        ("a"@, "toggle scope: current dir ↔ all projects"@),
        ("b"@, "bookmark / pin to top"@),
        ("e"@, "export session as markdown"@),
        ("t"@, "timeline heatmap"@),
        ("Tab"@, "focus preview pane"@),
        ("f"@, "show files changed in this session"@),
        ("T"@, "toggle tool activity in preview"@),
        ("Enter"@, "resume (yolo: --dangerously-skip-permissions)"@),
        ("l"@, "resume (safe mode)"@),
        ("c"@, resume_text(program)),
        ("p"@, "print session id and exit"@),
        ("d"@, "delete session (confirm)"@),
        ("? / Esc"@, "close help / quit"@),
    ]
}

/// `n` space characters.
pub open spec fn spaces(n: nat) -> Seq<char> {
    Seq::new(n, |i: int| ' ')
}

/// A text with space behind it, up to `n` characters in all.
pub open spec fn padded(s: Seq<char>, n: int) -> Seq<char> {
    if s.len() < n {
        s + spaces((n - s.len()) as nat)
    } else {
        s
    }
}

/// A row of the help overlay.
pub open spec fn help_row(key: Seq<char>, does: Seq<char>) -> LineOfSpans {
    seq![
        style::spanned(" "@ + padded(key, 18), Style::bold(Color::Cyan)),
        style::spanned(does, Style::color(Color::Rgb(200, 200, 200))),
    ]
}

/// A text with space behind it, up to `n` characters in all.
fn pad(s: &str, n: usize) -> (r: String)
    ensures
        r@ == padded(s@, n as int),
{
    let len = text::chars_of(s).len();
    let mut out = s.to_owned();
    let mut i: usize = len;
    assert(out@ =~= s@ + spaces(0));
    while i < n
        invariant
            len == s@.len(),
            len <= i,
            i <= n || i == len,
            out@ == s@ + spaces((i - len) as nat),
        decreases n - i,
    {
        out.push(' ');
        i += 1;
        assert(out@ =~= s@ + spaces((i - len) as nat));
    }
    assert(out@ =~= padded(s@, n as int));
    out
}

/// The number of rows of the help overlay.
pub const HELP_ROWS: u16 = 19;

/// The rows of the help overlay.
pub fn help_lines(program: &str) -> (r: Vec<Line>)
    ensures
        style::lines_view(r@) == Seq::new(
            help_table(program@).len(),
            |i: int| help_row(help_table(program@)[i].0, help_table(program@)[i].1),
        ),
        r@.len() == HELP_ROWS,
{
    let resume = style::joined("copy `", program, " --resume <id>`");
    let table: [(&str, &str); 19] = [
        ("j / k  ↑ / ↓", "move selection (wraps)"),
        ("g / G  Home / End", "jump to top / bottom"),
        ("PgUp / PgDn", "page up / down"),
        ("/", "search (project, title, branch, file, text)"),
        ("s", "cycle sort: date → size → duration → messages"),
        ("1-4 / 0", "filter by size / clear filter"),
        ("a", "toggle scope: current dir ↔ all projects"),
        ("b", "bookmark / pin to top"),
        ("e", "export session as markdown"),
        ("t", "timeline heatmap"),
        ("Tab", "focus preview pane"),
        ("f", "show files changed in this session"),
        ("T", "toggle tool activity in preview"),
        ("Enter", "resume (yolo: --dangerously-skip-permissions)"),
        ("l", "resume (safe mode)"),
        ("c", resume.as_str()),
        ("p", "print session id and exit"),
        ("d", "delete session (confirm)"),
        ("? / Esc", "close help / quit"),
    ];
    let ghost told = help_table(program@);
    assert forall|k: int| 0 <= k < 19 implies (#[trigger] table@[k]).0@ == told[k].0
        && table@[k].1@ == told[k].1 by {}
    let ghost all = Seq::new(told.len(), |i: int| help_row(told[i].0, told[i].1));
    let mut out: Vec<Line> = Vec::new();
    let mut i: usize = 0;
    assert(style::lines_view(out@) =~= Seq::empty());
    while i < 19
        invariant
            i <= 19,
            told.len() == 19,
            all == Seq::new(told.len(), |i: int| help_row(told[i].0, told[i].1)),
            forall|k: int|
                0 <= k < 19 ==> (#[trigger] table@[k]).0@ == told[k].0 && table@[k].1@ == told[k].1,
            style::lines_view(out@) == all.take(i as int),
        decreases 19 - i,
    {
        let (key, does) = table[i];
        assert(table@[i as int].0@ == told[i as int].0);
        let padded_key = pad(key, 18);
        let mut name = " ".to_owned();
        name.append(padded_key.as_str());
        let mut line = style::blank();
        style::push(&mut line, name, Style::bold(Color::Cyan));
        style::push_str(&mut line, does, Style::color(Color::Rgb(200, 200, 200)));
        assert(style::spans_view(line@) =~= all[i as int]);
        style::push_line(&mut out, line);
        assert(all.take(i + 1) =~= all.take(i as int).push(all[i as int]));
        i += 1;
    }
    assert(all.take(i as int) =~= all);
    out
}

/// A part of the screen.
#[derive(Debug, Clone, Copy, PartialEq, Eq, Structural)]
pub struct Area {
    pub x: u16,
    pub y: u16,
    pub width: u16,
    pub height: u16,
}

/// The smaller of two numbers.
pub open spec fn least(a: int, b: int) -> int {
    if a < b {
        a
    } else {
        b
    }
}

/// Where the help overlay lies: in the middle of the screen, with at least one
/// row and column around it as far as there is room.
pub open spec fn help_place(screen: Area) -> (int, int, int, int) {
    let room_x = if screen.width > 2 {
        screen.width - 2
    } else {
        0
    };
    let room_y = if screen.height > 2 {
        screen.height - 2
    } else {
        0
    };
    let w = least(56, room_x);
    let h = least(HELP_ROWS as int + 2, room_y);
    (screen.x + (screen.width - w) / 2, screen.y + (screen.height - h) / 2, w, h)
}

/// Where the help overlay lies on the screen.
pub fn help_area(screen: Area) -> (r: Area)
    requires
        screen.x + screen.width <= u16::MAX,
        screen.y + screen.height <= u16::MAX,
    ensures
        (r.x as int, r.y as int, r.width as int, r.height as int) == help_place(screen),
        screen.x <= r.x,
        screen.y <= r.y,
        r.x + r.width <= screen.x + screen.width,
        r.y + r.height <= screen.y + screen.height,
{
    let room_x = screen.width.saturating_sub(2);
    let room_y = screen.height.saturating_sub(2);
    let width: u16 = if 56 < room_x {
        56
    } else {
        room_x
    };
    let height: u16 = if HELP_ROWS + 2 < room_y {
        HELP_ROWS + 2
    } else {
        room_y
    };
    Area {
        x: screen.x + (screen.width - width) / 2,
        y: screen.y + (screen.height - height) / 2,
        width,
        height,
    }
}

/// The search bar shows what is typed, and a hint where nothing is and the keys go
/// elsewhere; its title tells how many sessions the search leaves.
pub proof fn search_bars_show_what_is_typed(app: App)
    ensures
        app.search_query@.text.len() > 0 ==> search_text(app) == app.search_query@.text,
        app.search_query@.text.len() == 0 && app.focus == Focus::Search ==> search_text(app).len()
            == 0,
        app.search_query@.text.len() == 0 && app.focus != Focus::Search ==> search_text(app)
            == "Type / to search..."@,
        app.search_query@.text.len() > 0 ==> search_title(app) == " Search ("@ + text::decimal(
            app.filtered_indices@.len(),
        ) + "/"@ + text::decimal(app.sessions@.len()) + ") "@,
        app.search_query@.text.len() == 0 ==> search_title(app) == " Search "@,
{
}

/// The status bar shows a message for three seconds; else the question before a deletion,
/// which names the session by the first forty characters of its title; else the keys.
pub proof fn messages_are_shown_for_three_seconds(app: App, elapsed: u64)
    ensures
        ({
            let told = status_spans(app, elapsed);
            let asks = app.confirm_delete && (elapsed >= 3 || app.status_message is None);
            let some = app.selected < app.filtered_indices@.len();
            let title =
                app.sessions@[app.filtered_indices@[app.selected as int] as int].title@;
            &&& elapsed < 3 && app.status_message is Some ==> told.len() == 1 && told[0].text
                == " "@ + app.status_message->0@
            &&& asks ==> told.len() == 6 && told[0].text == " DELETE "@ && told[2].text == "d/y "@
                && told[3].text == "confirm  "@ && told[4].text == "any key "@ && told[5].text
                == "cancel "@
            &&& asks && some && title.len() <= 40 ==> told[1].text == "\""@ + title + "\"? "@
            &&& asks && some && title.len() > 40 ==> told[1].text == "\""@ + title.take(40)
                + "\"? "@
            &&& !app.confirm_delete && (elapsed >= 3 || app.status_message is None) ==> told.len()
                == 32
        }),
{
}

/// The status bar tells the order of the list, which is that of relevance while a search
/// is on, the scope and the size.
pub proof fn hints_tell_order_scope_and_size(app: App)
    ensures
        list_hints(app).len() == 10,
        app.search_query@.text.len() > 0 ==> list_hints(app)[5].text == "sort:relevance  "@,
        app.search_query@.text.len() == 0 ==> list_hints(app)[5].text == "sort:"@
            + app.sort_mode.label_text() + "  "@,
        list_hints(app)[7].text == app.scope.label_text() + "  "@,
        app.size_filter is Some ==> list_hints(app)[9].text == "["@ + app.size_filter->0@ + "]  "@,
        app.size_filter is None ==> list_hints(app)[9].text == "filter  "@,
        action_hints(app.print_mode)[0].text == "Enter "@,
        app.print_mode ==> action_hints(app.print_mode)[1].text == "print  "@,
        !app.print_mode ==> action_hints(app.print_mode)[1].text == "yolo  "@,
{
}

/// A padded text keeps its characters, and is filled up with spaces to its width.
pub proof fn padding_fills_with_spaces(s: Seq<char>, n: nat, i: int)
    ensures
        padded(s, n as int).len() >= s.len(),
        padded(s, n as int).take(s.len() as int) == s,
        s.len() <= n ==> padded(s, n as int).len() == n,
        s.len() > n ==> padded(s, n as int) == s,
        s.len() <= i < n ==> padded(s, n as int)[i] == ' ',
{
    assert(padded(s, n as int).take(s.len() as int) =~= s);
}

/// The help overlay lies in the middle of the screen, and takes 56 columns and as many
/// rows as it has beside its border, or less where the screen has less room.
pub proof fn help_lies_in_the_middle(screen: Area)
    requires
        screen.width >= 2,
        screen.height >= 2,
    ensures
        ({
            let (x, y, w, h) = help_place(screen);
            let left = x - screen.x;
            let right = screen.x + screen.width - x - w;
            let above = y - screen.y;
            let below = screen.y + screen.height - y - h;
            &&& screen.width >= 58 ==> w == 56
            &&& screen.width < 58 ==> w == screen.width - 2
            &&& screen.height >= 23 ==> h == 21
            &&& screen.height < 23 ==> h == screen.height - 2
            &&& left <= right <= left + 1
            &&& above <= below <= above + 1
        }),
{
}

/// A row of the help overlay names a key, filled up with spaces to eighteen characters,
/// and tells what it does.
pub proof fn help_rows_name_keys(key: Seq<char>, does: Seq<char>)
    requires
        key.len() <= 18,
    ensures
        help_row(key, does).len() == 2,
        help_row(key, does)[0].text == " "@ + key + Seq::new((18 - key.len()) as nat, |i: int| ' '),
        help_row(key, does)[1].text == does,
{
    let fill = Seq::new((18 - key.len()) as nat, |i: int| ' ');
    assert(padded(key, 18) =~= key + fill);
    assert(" "@ + (key + fill) =~= " "@ + key + fill);
}

/// The keys on the status bar, and what they are said to do.
pub proof fn hints_name_these_keys(app: App)
    ensures
        list_hints(app)[0].text == " ↑↓ "@ && list_hints(app)[1].text == "nav  "@,
        list_hints(app)[2].text == "/ "@ && list_hints(app)[3].text == "search  "@,
        list_hints(app)[4].text == "s "@ && list_hints(app)[6].text == "a "@,
        list_hints(app)[8].text == "1-4 "@,
        view_hints()[0].text == "b "@ && view_hints()[1].text == "pin  "@,
        view_hints()[2].text == "e "@ && view_hints()[3].text == "export  "@,
        view_hints()[4].text == "t "@ && view_hints()[5].text == "timeline  "@,
        view_hints()[6].text == "f "@ && view_hints()[7].text == "files  "@,
        view_hints()[8].text == "T "@ && view_hints()[9].text == "tools  "@,
        action_hints(app.print_mode)[2].text == "l "@,
        action_hints(app.print_mode)[3].text == "launch  "@,
        action_hints(app.print_mode)[4].text == "c "@,
        action_hints(app.print_mode)[5].text == "copy  "@,
        action_hints(app.print_mode)[6].text == "d "@,
        action_hints(app.print_mode)[7].text == "delete  "@,
        action_hints(app.print_mode)[8].text == "? "@,
        action_hints(app.print_mode)[9].text == "help  "@,
        action_hints(app.print_mode)[10].text == "q "@,
        action_hints(app.print_mode)[11].text == "quit "@,
{
}

/// The status bar is green under a message, red under the question before a deletion, and
/// gray else.
pub proof fn status_bars_have_these_colors(app: App, elapsed: u64)
    ensures
        ({
            let noted = elapsed < 3 && app.status_message is Some;
            &&& noted ==> status_color(app, elapsed) == Color::Rgb(0, 80, 40)
            &&& noted ==> status_spans(app, elapsed)[0].style == (Style {
                fg: Color::White,
                bg: Color::Rgb(0, 80, 40),
                bold: false,
            })
            &&& !noted && app.confirm_delete ==> status_color(app, elapsed) == Color::Red
            &&& !noted && !app.confirm_delete ==> status_color(app, elapsed) == Color::Rgb(
                40,
                40,
                40,
            )
        }),
{
}

} // verus!
