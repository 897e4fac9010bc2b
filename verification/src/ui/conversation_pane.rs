//! The conversation of the selected session, or the files it changed.

use crate::app;
use crate::app::{App, Focus};
use crate::parser::Speaker;
use crate::preview;
use crate::session::{SessionMeta, SessionView};
use crate::text;
use crate::ui::highlight;
use crate::ui::highlight::highlight_spans;
use crate::ui::style;
use crate::ui::style::{Color, Line, LineOfSpans, SpanView, Style};
use crate::wrap;
use crate::wrap::wrap_text;
use vstd::prelude::*;

verus! {

/// How many rows of the conversation a pane of some height shows: less its
/// borders, and less the row where a search within it is typed.
pub open spec fn viewport_of(height: int, typing: bool) -> int {
    preview::minus(
        preview::minus(height, 2),
        if typing {
            1
        } else {
            0
        },
    )
}

/// Takes note of the height of the pane.
pub fn set_viewport(app: &mut App, height: u16)
    ensures
        *final(app) == (App {
            preview_viewport_height: viewport_of(
                height as int,
                old(app).focus == Focus::PreviewSearch,
            ) as u16,
            ..*old(app)
        }),
{
    let inner = height.saturating_sub(2);
    app.preview_viewport_height = if app.focus == Focus::PreviewSearch {
        inner.saturating_sub(1)
    } else {
        inner
    };
}

/// Takes note of the width of the pane; where it has changed, works out anew at
/// which row each line starts.
pub fn set_width(app: &mut App, width: u16)
    ensures
        old(app).preview_inner_width == width ==> *final(app) == *old(app),
        old(app).preview_inner_width != width ==> {
            &&& final(app).laid_out()
            &&& *final(app) == (App {
                preview_inner_width: width,
                preview_line_offsets: final(app).preview_line_offsets,
                preview_total_rows: final(app).preview_total_rows,
                ..*old(app)
            })
        },
{
    if app.preview_inner_width != width {
        app.preview_inner_width = width;
        app.recompute_preview_offsets();
    }
}

/// How far the conversation is scrolled, and how far it can be; nothing where all
/// of it is shown.
pub fn scroll_position(app: &App) -> (r: Option<(u16, u16)>)
    ensures
        ({
            let max = preview::minus(
                app.preview_total_rows as int,
                app.preview_viewport_height as int,
            );
            match r {
                Some((at, end)) => max > 0 && end == max && at == if app.preview_scroll < max {
                    app.preview_scroll as int
                } else {
                    max
                },
                None => max == 0,
            }
        }),
{
    let max = app.max_preview_scroll();
    if max == 0 {
        None
    } else if app.preview_scroll < max {
        Some((app.preview_scroll, max))
    } else {
        Some((max, max))
    }
}

/// The badge of a permission mode; none for the default.
pub open spec fn mode_badge(mode: Seq<char>) -> Seq<char> {
    if mode == "bypassPermissions"@ {
        " · yolo"@
    } else if mode == "acceptEdits"@ {
        " · accept"@
    } else if mode == "plan"@ {
        " · plan"@
    } else {
        Seq::empty()
    }
}

/// The first `n` skills, with commas between them.
pub open spec fn skill_names(skills: Seq<Seq<char>>, n: int) -> Seq<char>
    decreases n,
{
    if n <= 0 {
        Seq::empty()
    } else if n == 1 {
        skills[0]
    } else {
        skill_names(skills, n - 1) + ","@ + skills[n - 1]
    }
}

/// The badge of skills: the first three, and how many more there are.
pub open spec fn skills_badge(skills: Seq<Seq<char>>) -> Seq<char> {
    if skills.len() == 0 {
        Seq::empty()
    } else if skills.len() <= 3 {
        " · "@ + skill_names(skills, skills.len() as int)
    } else {
        " · "@ + skill_names(skills, 3) + "+"@ + text::decimal((skills.len() - 3) as nat)
    }
}

/// Compact metadata suffix for the preview title: permission mode and skills.
pub open spec fn badges(s: SessionView) -> Seq<char> {
    mode_badge(s.permission_mode) + skills_badge(s.skills)
}

/// Compact metadata suffix for the preview title: permission mode and skills.
/// Returns "" when there's nothing to show, otherwise a " · plan · tdd" string.
pub fn session_badges(s: &SessionMeta) -> (r: String)
    ensures
        r@ == badges(s@),
{
    let mode = s.permission_mode.as_str();
    let mut out = if text::text_eq(mode, "bypassPermissions") {
        " · yolo".to_owned()
    } else if text::text_eq(mode, "acceptEdits") {
        " · accept".to_owned()
    } else if text::text_eq(mode, "plan") {
        " · plan".to_owned()
    } else {
        String::new()
    };
    let ghost skills = text::views(s.skills@);
    let ghost start = out@;
    let n = s.skills.len();
    if n > 0 {
        out.append(" · ");
        let shown: usize = if n < 3 {
            n
        } else {
            3
        };
        let ghost before = out@;
        let mut i: usize = 0;
        assert(out@ =~= before + skill_names(skills, 0));
        while i < shown
            invariant
                i <= shown <= s.skills@.len(),
                skills == text::views(s.skills@),
                out@ == before + skill_names(skills, i as int),
            decreases shown - i,
        {
            if i > 0 {
                out.append(",");
            }
            out.append(s.skills[i].as_str());
            i += 1;
            assert(out@ =~= before + skill_names(skills, i as int));
        }
        if n > 3 {
            let more = text::decimal_of((n - 3) as u128);
            out.append("+");
            out.append(more.as_str());
        }
        assert(out@ =~= start + skills_badge(skills));
    } else {
        assert(out@ =~= start + skills_badge(skills));
    }
    out
}

/// The name of the selected session; nothing where it has none.
pub open spec fn label_of(app: App) -> Seq<char> {
    match app.selection() {
        Some(s) => s.name@,
        None => Seq::empty(),
    }
}

/// The title of the pane, `percent` telling how far the conversation is scrolled.
pub open spec fn title_of(app: App, percent: Option<u16>) -> Seq<char> {
    let label = label_of(app);
    let marks = match app.selection() {
        Some(s) => badges(s@),
        None => Seq::empty(),
    };
    if app.show_files {
        " Files changed — "@ + label + " ("@ + text::decimal(
            match app.selection() {
                Some(s) => s.changed_files@.len(),
                None => 0,
            },
        ) + ") "@
    } else if app.preview_loading {
        " Preview — "@ + label + " (loading...) "@
    } else if app.preview_search_matches@.len() > 0 {
        " Preview — "@ + label + " ("@ + text::decimal((app.preview_search_current + 1) as nat)
            + "/"@ + text::decimal(app.preview_search_matches@.len()) + " matches) "@
    } else if percent is Some {
        " Preview — "@ + label + marks + " ("@ + text::decimal(percent->0 as nat) + "%) "@
    } else if label.len() > 0 {
        " Preview — "@ + label + marks + " "@
    } else {
        " Preview "@
    }
}

/// The title of the pane.
pub fn preview_title(app: &App, percent: Option<u16>) -> (r: String)
    requires
        app.wf(),
    ensures
        r@ == title_of(*app, percent),
{
    let (label, marks, files) = match app.selected_session() {
        Some(s) => (s.name.clone(), session_badges(s), s.changed_files.len()),
        None => (String::new(), String::new(), 0),
    };
    let mut out = String::new();
    if app.show_files {
        out.append(" Files changed — ");
        out.append(label.as_str());
        out.append(" (");
        let n = text::decimal_of(files as u128);
        out.append(n.as_str());
        out.append(") ");
    } else if app.preview_loading {
        out.append(" Preview — ");
        out.append(label.as_str());
        out.append(" (loading...) ");
    } else if app.preview_search_matches.len() > 0 {
        out.append(" Preview — ");
        out.append(label.as_str());
        out.append(" (");
        let at = text::decimal_of(app.preview_search_current as u128 + 1);
        out.append(at.as_str());
        out.append("/");
        let n = text::decimal_of(app.preview_search_matches.len() as u128);
        out.append(n.as_str());
        out.append(" matches) ");
    } else {
        match percent {
            Some(p) => {
                out.append(" Preview — ");
                out.append(label.as_str());
                out.append(marks.as_str());
                out.append(" (");
                let n = text::decimal_of(p as u128);
                out.append(n.as_str());
                out.append("%) ");
            },
            None => {
                if label.as_str().is_empty() {
                    out.append(" Preview ");
                } else {
                    out.append(" Preview — ");
                    out.append(label.as_str());
                    out.append(marks.as_str());
                    out.append(" ");
                }
            },
        }
    }
    assert(out@ =~= title_of(*app, percent));
    out
}

/// The style of what a speaker said.
pub open spec fn speaker_style(speaker: Speaker) -> Style {
    match speaker {
        Speaker::User => Style::bold(Color::Green),
        Speaker::Assistant => Style::color(Color::White),
        Speaker::Tool => Style::color(Color::Rgb(110, 160, 190)),
    }
}

/// Whether a line matches the search within the conversation.
pub open spec fn is_match(app: App, i: int) -> bool {
    app.sought().len() > 0 && app.preview_search_matches@.contains(i as usize)
}

/// Whether a line is the current match.
pub open spec fn is_current(app: App, i: int) -> bool {
    let at = app.preview_search_current as int;
    at < app.preview_search_matches@.len() && app.preview_search_matches@[at] == i
}

/// The mark before the rows of a line: whether it is the current match, another,
/// or none.
pub open spec fn row_mark(current: bool, matching: bool) -> SpanView {
    if current {
        style::spanned("▸"@, Style::bold(Color::Yellow))
    } else if matching {
        style::spanned("│"@, Style::color(Color::Yellow))
    } else {
        style::spanned(" "@, Style::plain())
    }
}

/// The style of what was searched for.
pub open spec fn match_style(current: bool) -> Style {
    if current {
        Style::bold_on(Color::Black, Color::Yellow)
    } else {
        Style::bold(Color::Yellow)
    }
}

/// Rows of a text, each with a mark before it and what was searched for
/// highlighted.
pub open spec fn marked_rows(
    rows: Seq<Seq<char>>,
    mark: SpanView,
    query: Seq<char>,
    base: Style,
    found: Style,
) -> Seq<LineOfSpans> {
    Seq::new(
        rows.len(),
        |k: int| seq![mark] + highlight::highlighted(rows[k], query, base, found),
    )
}

/// The rows of the `i`-th line of the conversation: its wrapped text, and a blank
/// row.
pub open spec fn line_rows(app: App, i: int, width: nat) -> Seq<LineOfSpans> {
    let line = app.lines()[i];
    let current = is_current(app, i);
    let matching = is_match(app, i);
    marked_rows(
        wrap::wrapped(preview::shown_line(line), width),
        row_mark(current, matching),
        if matching {
            app.sought()
        } else {
            Seq::empty()
        },
        speaker_style(line.2),
        match_style(current),
    ).push(Seq::<SpanView>::empty())
}

/// The rows of the first `n` lines of the conversation.
pub open spec fn conversation_rows(app: App, n: int, width: nat) -> Seq<LineOfSpans>
    decreases n,
{
    if n <= 0 {
        Seq::empty()
    } else {
        conversation_rows(app, n - 1, width) + line_rows(app, n - 1, width)
    }
}

/// What is left of `rows` behind the first `n`.
pub open spec fn rows_from<T>(rows: Seq<T>, n: int) -> Seq<T> {
    if n < rows.len() {
        rows.skip(n)
    } else {
        Seq::empty()
    }
}

/// Whether `i` is among the positions.
fn is_among(v: &Vec<usize>, i: usize) -> (r: bool)
    ensures
        r == v@.contains(i),
{
    let mut k: usize = 0;
    while k < v.len()
        invariant
            k <= v@.len(),
            forall|j: int| 0 <= j < k ==> v@[j] != i,
        decreases v@.len() - k,
    {
        if v[k] == i {
            return true;
        }
        k += 1;
    }
    false
}

/// Adds the rows of the `i`-th line of the conversation.
fn push_line_rows(app: &App, i: usize, query: &str, width: usize, out: &mut Vec<Line>)
    requires
        i < app.preview_lines@.len(),
        query@ == app.sought(),
    ensures
        style::lines_view(final(out)@) == style::lines_view(old(out)@) + line_rows(
            *app,
            i as int,
            width as nat,
        ),
{
    let ghost start = style::lines_view(out@);
    let line = &app.preview_lines[i];
    assert(app.lines()[i as int] == (line.0@, line.1@, line.2));
    let at = app.preview_search_current;
    let current = at < app.preview_search_matches.len() && app.preview_search_matches[at] == i;
    let matching = !query.is_empty() && is_among(&app.preview_search_matches, i);
    let base = match line.2 {
        Speaker::User => Style::bold(Color::Green),
        Speaker::Assistant => Style::color(Color::White),
        Speaker::Tool => Style::color(Color::Rgb(110, 160, 190)),
    };
    let found = if current {
        Style::bold_on(Color::Black, Color::Yellow)
    } else {
        Style::bold(Color::Yellow)
    };
    let sought = if matching {
        query
    } else {
        ""
    };
    proof {
        reveal_strlit("");
        assert(""@ =~= Seq::<char>::empty());
    }
    let mut full = line.2.prefix().to_owned();
    full.append(line.0.as_str());
    let rows = wrap_text(full.as_str(), width);
    let ghost texts = text::views(rows@);
    let ghost mark = row_mark(current, matching);
    let ghost all = marked_rows(texts, mark, sought@, base, found);
    let mut k: usize = 0;
    assert(start + all.take(0) =~= start);
    while k < rows.len()
        invariant
            k <= rows@.len(),
            texts == text::views(rows@),
            mark == row_mark(current, matching),
            all == marked_rows(texts, mark, sought@, base, found),
            style::lines_view(out@) == start + all.take(k as int),
        decreases rows@.len() - k,
    {
        let mut row = style::blank();
        if current {
            style::push_str(&mut row, "▸", Style::bold(Color::Yellow));
        } else if matching {
            style::push_str(&mut row, "│", Style::color(Color::Yellow));
        } else {
            style::push_str(&mut row, " ", Style::plain());
        }
        let ghost marked = style::spans_view(row@);
        assert(marked =~= seq![mark]);
        let mut spans = highlight_spans(rows[k].as_str(), sought, base, found);
        let ghost lit = style::spans_view(spans@);
        row.append(&mut spans);
        assert(style::spans_view(row@) =~= marked + lit);
        assert(style::spans_view(row@) == all[k as int]);
        style::push_line(out, row);
        assert(all.take(k + 1) =~= all.take(k as int).push(all[k as int]));
        assert(style::lines_view(out@) =~= start + all.take(k + 1));
        k += 1;
    }
    style::push_line(out, style::blank());
    assert(all.take(k as int) =~= all);
    assert(style::lines_view(out@) =~= start + all.push(Seq::<SpanView>::empty()));
}

/// The rows of the conversation from the one scrolled to, at the width of the
/// pane.
pub fn conversation_lines(app: &App, width: u16) -> (r: Vec<Line>)
    ensures
        style::lines_view(r@) == rows_from(
            conversation_rows(
                *app,
                app.preview_lines@.len() as int,
                preview::minus(width as int, 1) as nat,
            ),
            app.preview_scroll as int,
        ),
{
    let query = app.preview_search_query.text().to_lowercase();
    let wrap_width = width.saturating_sub(1) as usize;
    let mut all: Vec<Line> = Vec::new();
    let mut i: usize = 0;
    assert(style::lines_view(all@) =~= Seq::empty());
    while i < app.preview_lines.len()
        invariant
            i <= app.preview_lines@.len(),
            query@ == app.sought(),
            style::lines_view(all@) == conversation_rows(*app, i as int, wrap_width as nat),
        decreases app.preview_lines@.len() - i,
    {
        push_line_rows(app, i, query.as_str(), wrap_width, &mut all);
        i += 1;
    }
    from_row(all, app.preview_scroll as usize)
}

/// What is left of lines behind the first `n`.
fn from_row(lines: Vec<Line>, n: usize) -> (r: Vec<Line>)
    ensures
        style::lines_view(r@) == rows_from(style::lines_view(lines@), n as int),
{
    let ghost first = lines@;
    let ghost all = style::lines_view(lines@);
    let mut out: Vec<Line> = Vec::new();
    let mut at: usize = 0;
    let total = lines.len();
    assert(style::lines_view(out@) =~= Seq::empty());
    for line in it: lines.into_iter()
        invariant
            it.seq() == first,
            total == first.len(),
            all == style::lines_view(first),
            at == it.index(),
            style::lines_view(out@) == rows_from(all.take(at as int), n as int),
    {
        let ghost l = style::spans_view(line@);
        assert(all.take(at + 1) =~= all.take(at as int).push(l));
        if at >= n {
            style::push_line(&mut out, line);
            assert(all.take(at + 1).skip(n as int) =~= rows_from(
                all.take(at as int),
                n as int,
            ).push(l));
        }
        at = at + 1;
    }
    assert(all.take(at as int) =~= all);
    out
}

/// What the pane shows.
pub enum Pane {
    Lines(Vec<Line>),
    /// A note in place of a conversation.
    Note(&'static str),
}

/// The files that a session changed, from the one scrolled to.
pub open spec fn file_rows(files: Seq<Seq<char>>, from: int) -> Seq<LineOfSpans> {
    rows_from(
        Seq::new(
            files.len(),
            |i: int| seq![style::spanned("  "@ + files[i], Style::color(Color::White))],
        ),
        from,
    )
}

/// One line with a note on it.
pub open spec fn note_row(s: Seq<char>) -> Seq<LineOfSpans> {
    seq![seq![style::spanned(s, Style::color(Color::DarkGray))]]
}

/// One line with a note on it.
fn note_line(s: &str) -> (r: Vec<Line>)
    ensures
        style::lines_view(r@) == note_row(s@),
{
    let mut line = style::blank();
    style::push_str(&mut line, s, Style::color(Color::DarkGray));
    assert(style::spans_view(line@) =~= seq![style::spanned(s@, Style::color(Color::DarkGray))]);
    let mut out: Vec<Line> = Vec::new();
    assert(style::lines_view(out@) =~= Seq::empty());
    style::push_line(&mut out, line);
    assert(style::lines_view(out@) =~= note_row(s@));
    out
}

/// The files that the selected session changed.
pub fn files_lines(app: &App) -> (r: Vec<Line>)
    requires
        app.wf(),
    ensures
        style::lines_view(r@) == match app.selection() {
            None => note_row("No session selected."@),
            Some(s) => if s.changed_files@.len() == 0 {
                note_row("No tracked file changes."@)
            } else {
                file_rows(text::views(s.changed_files@), app.preview_scroll as int)
            },
        },
{
    let s = match app.selected_session() {
        Some(s) => s,
        None => {
            return note_line("No session selected.");
        },
    };
    if s.changed_files.len() == 0 {
        return note_line("No tracked file changes.");
    }
    let ghost files = text::views(s.changed_files@);
    let ghost rows = Seq::new(
        files.len(),
        |i: int| seq![style::spanned("  "@ + files[i], Style::color(Color::White))],
    );
    let mut out: Vec<Line> = Vec::new();
    let mut i: usize = 0;
    assert(style::lines_view(out@) =~= Seq::empty());
    while i < s.changed_files.len()
        invariant
            i <= s.changed_files@.len(),
            files == text::views(s.changed_files@),
            rows == Seq::new(
                files.len(),
                |i: int| seq![style::spanned("  "@ + files[i], Style::color(Color::White))],
            ),
            style::lines_view(out@) == rows.take(i as int),
        decreases s.changed_files@.len() - i,
    {
        let mut line = style::blank();
        let mut name = "  ".to_owned();
        name.append(s.changed_files[i].as_str());
        style::push(&mut line, name, Style::color(Color::White));
        assert(style::spans_view(line@) =~= rows[i as int]);
        style::push_line(&mut out, line);
        assert(rows.take(i + 1) =~= rows.take(i as int).push(rows[i as int]));
        i += 1;
    }
    assert(rows.take(i as int) =~= rows);
    from_row(out, app.preview_scroll as usize)
}

/// What the pane shows: the changed files if they are asked for, else the
/// conversation, or a note where there is none.
pub fn preview_pane(app: &App, width: u16) -> (r: Pane)
    requires
        app.wf(),
    ensures
        if app.show_files {
            r is Lines && style::lines_view(r->Lines_0@) == match app.selection() {
                None => note_row("No session selected."@),
                Some(s) => if s.changed_files@.len() == 0 {
                    note_row("No tracked file changes."@)
                } else {
                    file_rows(text::views(s.changed_files@), app.preview_scroll as int)
                },
            }
        } else if app.preview_lines@.len() == 0 {
            r is Note && r->Note_0@ == if app.filtered_indices@.len() == 0 {
                "No session selected."@
            } else if app.preview_loading {
                "Loading conversation..."@
            } else {
                "No conversation content in this session."@
            }
        } else {
            r is Lines && style::lines_view(r->Lines_0@) == rows_from(
                conversation_rows(
                    *app,
                    app.preview_lines@.len() as int,
                    preview::minus(width as int, 1) as nat,
                ),
                app.preview_scroll as int,
            )
        },
{
    if app.show_files {
        Pane::Lines(files_lines(app))
    } else if app.preview_lines.len() == 0 {
        if app.filtered_indices.len() == 0 {
            Pane::Note("No session selected.")
        } else if app.preview_loading {
            Pane::Note("Loading conversation...")
        } else {
            Pane::Note("No conversation content in this session.")
        }
    } else {
        Pane::Lines(conversation_lines(app, width))
    }
}

/// The rows noted for scrolling are those shown: the `i`-th line starts as many
/// rows down as the lines before it take, as far as 16 bits can tell.
pub proof fn noted_rows_are_shown(app: App, i: int, width: nat)
    requires
        0 <= i <= app.lines().len(),
        conversation_rows(app, i, width).len() <= u16::MAX,
    ensures
        preview::rows_before(app.lines(), width, i) == conversation_rows(app, i, width).len(),
    decreases i,
{
    if i > 0 {
        let line = app.lines()[i - 1];
        noted_rows_are_shown(app, i - 1, width);
        reveal_strlit("USER: ");
        reveal_strlit("ASST: ");
        reveal_strlit("TOOL: ");
        wrap::some_line_is_shown(preview::shown_line(line), width);
        assert(line_rows(app, i - 1, width).len() == wrap::wrapped(
            preview::shown_line(line),
            width,
        ).len() + 1);
    }
}

/// The conversation is shown line by line: the rows of each line follow those of the line
/// before it.
pub proof fn lines_are_shown_in_order(app: App, n: int, width: nat, i: int, k: int)
    requires
        0 <= i < n,
        0 <= k < line_rows(app, i, width).len(),
    ensures
        ({
            let start = conversation_rows(app, i, width).len() as int;
            &&& start + k < conversation_rows(app, n, width).len()
            &&& conversation_rows(app, n, width)[start + k] == line_rows(app, i, width)[k]
        }),
    decreases n,
{
    if i < n - 1 {
        lines_are_shown_in_order(app, n - 1, width, i, k);
    }
}

/// A line is shown in full: its rows, without the mark before each, are who produced it
/// and the text, wrapped to the width; a blank row follows.
pub proof fn lines_are_shown_in_full(app: App, i: int, width: nat, k: int)
    requires
        0 <= i < app.preview_lines@.len(),
    ensures
        ({
            let line = app.preview_lines@[i];
            let who = match line.2 {
                Speaker::User => "USER: "@,
                Speaker::Assistant => "ASST: "@,
                Speaker::Tool => "TOOL: "@,
            };
            let texts = wrap::wrapped(who + line.0@, width);
            let rows = line_rows(app, i, width);
            &&& rows.len() == texts.len() + 1
            &&& rows[texts.len() as int].len() == 0
            &&& 0 <= k < texts.len() ==> style::text_of(rows[k].skip(1)) == texts[k]
        }),
{
    let line = app.lines()[i];
    let texts = wrap::wrapped(preview::shown_line(line), width);
    if 0 <= k < texts.len() {
        let query = if is_match(app, i) {
            app.sought()
        } else {
            Seq::empty()
        };
        let base = speaker_style(line.2);
        let found = match_style(is_current(app, i));
        let lit = highlight::highlighted(texts[k], query, base, found);
        assert(line_rows(app, i, width)[k].skip(1) =~= lit);
        highlight::highlighting_keeps_the_text(texts[k], query, base, found);
    }
}

/// The rows of the current match have an arrow before them, those of the other matches a
/// bar, and all others a space.
pub proof fn matches_are_marked(app: App, i: int, width: nat, k: int)
    requires
        0 <= i < app.preview_lines@.len(),
        app.preview_lines@.len() <= usize::MAX,
        0 <= k < line_rows(app, i, width).len() - 1,
    ensures
        ({
            let at = app.preview_search_current as int;
            let found = app.preview_search_matches@;
            let current = at < found.len() && found[at] == i;
            let sought = text::lowercase(app.preview_search_query@.text).len() > 0;
            let matching = sought && exists|j: int| 0 <= j < found.len() && #[trigger] found[j] == i;
            let mark = line_rows(app, i, width)[k][0].text;
            &&& current ==> mark == "▸"@
            &&& !current && matching ==> mark == "│"@
            &&& !current && !matching ==> mark == " "@
        }),
{
    let found = app.preview_search_matches@;
    if found.contains(i as usize) {
        let j = choose|j: int| 0 <= j < found.len() && found[j] == i as usize;
        assert(found[j] == i);
    }
}

/// Scrolling leaves out the first rows, and nothing else.
pub proof fn scrolling_leaves_out_the_first_rows(a: Seq<LineOfSpans>, b: Seq<LineOfSpans>)
    ensures
        rows_from(a + b, a.len() as int) == b,
        rows_from(a, 0) == a,
{
    assert((a + b).skip(a.len() as int) =~= b);
    assert(a.skip(0) =~= a);
    if b.len() == 0 {
        assert(b =~= Seq::<LineOfSpans>::empty());
    }
    if a.len() == 0 {
        assert(a =~= Seq::<LineOfSpans>::empty());
    }
}

/// The changed files are shown one by one, each by its name, from the one scrolled to.
pub proof fn changed_files_are_shown(files: Seq<Seq<char>>, from: int, i: int)
    requires
        0 <= from <= i < files.len(),
    ensures
        file_rows(files, from).len() == files.len() - from,
        file_rows(files, from)[i - from].len() == 1,
        file_rows(files, from)[i - from][0].text == "  "@ + files[i],
{
}

/// The badges of the permission modes; any other mode has none.
pub proof fn modes_have_these_badges(mode: Seq<char>)
    ensures
        mode_badge("bypassPermissions"@) == " · yolo"@,
        mode_badge("acceptEdits"@) == " · accept"@,
        mode_badge("plan"@) == " · plan"@,
        mode != "bypassPermissions"@ && mode != "acceptEdits"@ && mode != "plan"@ ==> mode_badge(
            mode,
        ).len() == 0,
{
    reveal_strlit("bypassPermissions");
    reveal_strlit("acceptEdits");
    reveal_strlit("plan");
    assert("bypassPermissions"@[0] == 'b');
    assert("acceptEdits"@[0] == 'a');
    assert("plan"@[0] == 'p');
}

/// Up to three skills are named; of more, the first three are, and the number of the
/// others.
pub proof fn three_skills_are_named(
    a: Seq<char>,
    b: Seq<char>,
    c: Seq<char>,
    more: Seq<Seq<char>>,
)
    ensures
        skills_badge(Seq::empty()).len() == 0,
        skills_badge(seq![a]) == " · "@ + a,
        skills_badge(seq![a, b]) == " · "@ + (a + ","@ + b),
        skills_badge(seq![a, b, c]) == " · "@ + (a + ","@ + b + ","@ + c),
        more.len() > 0 ==> skills_badge(seq![a, b, c] + more) == " · "@ + (a + ","@ + b + ","@ + c)
            + "+"@ + text::decimal(more.len()),
{
    reveal_with_fuel(skill_names, 4);
    let all = seq![a, b, c] + more;
    assert(skill_names(seq![a], 1) == a);
    assert(skill_names(seq![a, b], 2) == a + ","@ + b);
    assert(skill_names(seq![a, b, c], 3) == a + ","@ + b + ","@ + c);
    assert(all[0] == a && all[1] == b && all[2] == c);
    assert(skill_names(all, 3) == a + ","@ + b + ","@ + c);
}

/// The title of the pane: the number of changed files where these are shown, else that
/// the conversation is being loaded, else which match of how many, else how far it is
/// scrolled.
pub proof fn pane_titles_tell_what_is_shown(app: App, s: SessionMeta, percent: Option<u16>)
    requires
        app.selected < app.filtered_indices@.len(),
        s == app.sessions@[app.filtered_indices@[app.selected as int] as int],
    ensures
        ({
            let t = title_of(app, percent);
            let found = app.preview_search_matches@.len();
            let marks = badges(s@);
            let busy = app.show_files || app.preview_loading;
            &&& app.show_files ==> t == " Files changed — "@ + s.name@ + " ("@ + text::decimal(
                s.changed_files@.len(),
            ) + ") "@
            &&& !app.show_files && app.preview_loading ==> t == " Preview — "@ + s.name@
                + " (loading...) "@
            &&& !busy && found > 0 ==> t == " Preview — "@ + s.name@ + " ("@ + text::decimal(
                (app.preview_search_current + 1) as nat,
            ) + "/"@ + text::decimal(found) + " matches) "@
            &&& !busy && found == 0 && percent is Some ==> t == " Preview — "@ + s.name@ + marks
                + " ("@ + text::decimal(percent->0 as nat) + "%) "@
            &&& !busy && found == 0 && percent is None && s.name@.len() > 0 ==> t == " Preview — "@
                + s.name@ + marks + " "@
        }),
{
}

/// The rows shown are those within the borders, but for the one where a search is typed.
pub proof fn borders_take_two_rows(height: int)
    ensures
        height >= 2 ==> viewport_of(height, false) == height - 2,
        height >= 3 ==> viewport_of(height, true) == height - 3,
        height < 3 ==> viewport_of(height, true) == 0,
        height < 2 ==> viewport_of(height, false) == 0,
{
}

/// What people said is green and bold, what the assistant said is white, and tool activity
/// is blue.
pub proof fn speakers_have_these_colors()
    ensures
        speaker_style(Speaker::User) == (Style {
            fg: Color::Green,
            bg: Color::Unset,
            bold: true,
        }),
        speaker_style(Speaker::Assistant) == (Style {
            fg: Color::White,
            bg: Color::Unset,
            bold: false,
        }),
        speaker_style(Speaker::Tool) == (Style {
            fg: Color::Rgb(110, 160, 190),
            bg: Color::Unset,
            bold: false,
        }),
{
}

} // verus!
