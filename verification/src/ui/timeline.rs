//! The heatmap of the days on which sessions took place. Days are counted from
//! the first day of the common era, which is day 1.

use crate::app::App;
use crate::text;
use crate::ui::style;
use crate::ui::style::{Color, Line, LineOfSpans, SpanView, Style};
use chrono::Datelike;
use vstd::prelude::*;

verus! {

/// The month of a day; nothing where the calendar does not reach.
pub uninterp spec fn calendar_month(day: i32) -> Option<u32>;

/// The day of the month of a day; nothing where the calendar does not reach.
pub uninterp spec fn calendar_day(day: i32) -> Option<u32>;

/// `chrono::NaiveDate::from_num_days_from_ce_opt` finds the date of a day, if the
/// calendar reaches that far, and `month` tells its month, from 1 to 12. Both
/// depend on the day alone.
#[verifier::external_body]
fn month_of(day: i32) -> (r: Option<u32>)
    ensures
        r == calendar_month(day),
        r matches Some(m) ==> 1 <= m <= 12,
{
    chrono::NaiveDate::from_num_days_from_ce_opt(day).map(|d| d.month())
}

/// `chrono::NaiveDate::weekday` tells the day of the week of a date: day 1 was a
/// Monday. The date is there exactly where its month is.
#[verifier::external_body]
fn weekday_of(day: i32) -> (r: Option<u32>)
    ensures
        r is Some <==> calendar_month(day) is Some,
        r matches Some(w) ==> w == (day - 1) % 7,
{
    chrono::NaiveDate::from_num_days_from_ce_opt(day).map(|d| d.weekday().num_days_from_monday())
}

/// `chrono::NaiveDate::day` tells the day of the month of a date, from 1 to 31,
/// which depends on the date alone. The date is there exactly where its month is.
#[verifier::external_body]
fn day_of(day: i32) -> (r: Option<u32>)
    ensures
        r == calendar_day(day),
        r is Some <==> calendar_month(day) is Some,
        r matches Some(d) ==> 1 <= d <= 31,
{
    chrono::NaiveDate::from_num_days_from_ce_opt(day).map(|d| d.day())
}

/// A month in three letters.
pub open spec fn short_month(month: u32) -> Seq<char> {
    match month {
        1 => "Jan"@,
        2 => "Feb"@,
        3 => "Mar"@,
        4 => "Apr"@,
        5 => "May"@,
        6 => "Jun"@,
        7 => "Jul"@,
        8 => "Aug"@,
        9 => "Sep"@,
        10 => "Oct"@,
        11 => "Nov"@,
        _ => "Dec"@,
    }
}

/// A month in three letters and a day of it, padded to two places.
pub open spec fn date_text(month: u32, day: u32) -> Seq<char> {
    short_month(month) + (if day < 10 {
        "  "@
    } else {
        " "@
    }) + text::decimal(day as nat)
}

/// A month in three letters and a day of it, padded to two places.
pub fn date_label(month: u32, day: u32) -> (r: String)
    requires
        1 <= month <= 12,
    ensures
        r@ == date_text(month, day),
{
    let name = match month {
        1 => "Jan",
        2 => "Feb",
        3 => "Mar",
        4 => "Apr",
        5 => "May",
        6 => "Jun",
        7 => "Jul",
        8 => "Aug",
        9 => "Sep",
        10 => "Oct",
        11 => "Nov",
        _ => "Dec",
    };
    let gap = if day < 10 {
        "  "
    } else {
        " "
    };
    let n = text::decimal_of(day as u128);
    style::joined(name, gap, n.as_str())
}

/// The date of a day; the empty text where the calendar does not reach.
pub open spec fn day_label(day: i32) -> Seq<char> {
    match (calendar_month(day), calendar_day(day)) {
        (Some(m), Some(d)) => date_text(m, d),
        _ => Seq::empty(),
    }
}

/// A month in two letters.
pub open spec fn month_name(month: u32) -> Seq<char> {
    match month {
        1 => "Ja"@,
        2 => "Fe"@,
        3 => "Mr"@,
        4 => "Ap"@,
        5 => "My"@,
        6 => "Jn"@,
        7 => "Jl"@,
        8 => "Au"@,
        9 => "Se"@,
        10 => "Oc"@,
        11 => "Nv"@,
        12 => "Dc"@,
        _ => "??"@,
    }
}

/// A month in two letters.
pub fn month_abbrev(month: u32) -> (r: &'static str)
    ensures
        r@ == month_name(month),
{
    match month {
        1 => "Ja",
        2 => "Fe",
        3 => "Mr",
        4 => "Ap",
        5 => "My",
        6 => "Jn",
        7 => "Jl",
        8 => "Au",
        9 => "Se",
        10 => "Oc",
        11 => "Nv",
        12 => "Dc",
        _ => "??",
    }
}

/// The cell of a day: the more sessions, the fuller.
pub open spec fn cell(count: int) -> SpanView {
    if count == 0 {
        style::spanned("░ "@, Style::color(Color::Rgb(30, 30, 30)))
    } else if count == 1 {
        style::spanned("░ "@, Style::color(Color::Rgb(14, 68, 41)))
    } else if count <= 3 {
        style::spanned("▒ "@, Style::color(Color::Rgb(0, 109, 50)))
    } else if count <= 5 {
        style::spanned("▓ "@, Style::color(Color::Rgb(38, 166, 65)))
    } else {
        style::spanned("█ "@, Style::color(Color::Rgb(57, 211, 83)))
    }
}

/// The cell of a day with some sessions: what it shows, and its color.
pub fn heatmap_cell(count: usize) -> (r: (&'static str, Color))
    ensures
        style::spanned(r.0@, Style::color(r.1)) == cell(count as int),
{
    if count == 0 {
        ("░ ", Color::Rgb(30, 30, 30))
    } else if count == 1 {
        ("░ ", Color::Rgb(14, 68, 41))
    } else if count <= 3 {
        ("▒ ", Color::Rgb(0, 109, 50))
    } else if count <= 5 {
        ("▓ ", Color::Rgb(38, 166, 65))
    } else {
        ("█ ", Color::Rgb(57, 211, 83))
    }
}

/// How many weeks fit on a pane: at least four, and at most half a year.
pub open spec fn weeks_of(width: int) -> int {
    let fit = if width > 5 {
        (width - 5) / 2
    } else {
        0
    };
    if fit < 4 {
        4
    } else if fit > 26 {
        26
    } else {
        fit
    }
}

/// The Monday of the first week shown.
pub open spec fn first_day(today: i32, weeks: int) -> int {
    let since_monday = if calendar_month(today) is Some {
        (today - 1) % 7
    } else {
        0
    };
    today - since_monday - 7 * (weeks - 1)
}

/// How many of the first `n` sessions took place on a day, of those that are of
/// the scope.
pub open spec fn sessions_on(app: App, days: Seq<Option<i32>>, day: int, n: int) -> nat
    decreases n,
{
    if n <= 0 {
        0
    } else if days[n - 1] is Some && days[n - 1]->0 == day && app.in_scope(
        app.sessions@[n - 1]@,
    ) {
        sessions_on(app, days, day, n - 1) + 1
    } else {
        sessions_on(app, days, day, n - 1)
    }
}

/// The number of sessions on each day shown.
pub open spec fn day_counts(app: App, days: Seq<Option<i32>>, first: int, today: int) -> Seq<nat> {
    Seq::new(
        (today - first + 1) as nat,
        |k: int| sessions_on(app, days, first + k, app.sessions@.len() as int),
    )
}

/// The sum of numbers.
pub open spec fn sum(counts: Seq<nat>) -> nat
    decreases counts.len(),
{
    if counts.len() == 0 {
        0
    } else {
        sum(counts.drop_last()) + counts.last()
    }
}

/// How many of the numbers are not zero.
pub open spec fn nonzero(counts: Seq<nat>) -> nat
    decreases counts.len(),
{
    if counts.len() == 0 {
        0
    } else {
        nonzero(counts.drop_last()) + if counts.last() > 0 {
            1nat
        } else {
            0
        }
    }
}

/// The last of the positions with the largest number.
pub open spec fn peak(counts: Seq<nat>) -> int
    decreases counts.len(),
{
    if counts.len() <= 1 {
        0
    } else if counts.last() >= counts[peak(counts.drop_last())] {
        counts.len() - 1
    } else {
        peak(counts.drop_last())
    }
}

/// The month of the `w`-th week shown; 0 where the calendar does not reach.
pub open spec fn week_month(first: int, w: int) -> u32 {
    match calendar_month((first + 7 * w) as i32) {
        Some(m) => m,
        None => 0,
    }
}

/// The row of months: each stands over the first week that starts in it.
pub open spec fn month_row(first: int, weeks: int) -> LineOfSpans
    decreases weeks,
{
    if weeks <= 0 {
        seq![style::spanned("     "@, Style::plain())]
    } else {
        let w = weeks - 1;
        let before = if w == 0 {
            0
        } else {
            week_month(first, w - 1)
        };
        month_row(first, w).push(
            if week_month(first, w) != before {
                style::spanned(month_name(week_month(first, w)), Style::color(Color::DarkGray))
            } else {
                style::spanned("  "@, Style::plain())
            },
        )
    }
}

/// The name of a day of the week.
pub open spec fn weekday_name(d: int) -> Seq<char> {
    if d == 0 {
        "Mon "@
    } else if d == 1 {
        "Tue "@
    } else if d == 2 {
        "Wed "@
    } else if d == 3 {
        "Thu "@
    } else if d == 4 {
        "Fri "@
    } else if d == 5 {
        "Sat "@
    } else {
        "Sun "@
    }
}

/// The row of a day of the week: a cell for each week, up to today.
pub open spec fn day_row(counts: Seq<nat>, d: int, weeks: int) -> LineOfSpans
    decreases weeks,
{
    if weeks <= 0 {
        seq![style::spanned(weekday_name(d), Style::color(Color::DarkGray))]
    } else {
        let k = 7 * (weeks - 1) + d;
        day_row(counts, d, weeks - 1).push(
            if k < counts.len() {
                cell(counts[k] as int)
            } else {
                style::spanned("  "@, Style::plain())
            },
        )
    }
}

/// The rows of the days of the week.
pub open spec fn day_rows(counts: Seq<nat>, weeks: int) -> Seq<LineOfSpans> {
    Seq::new(7, |d: int| day_row(counts, d, weeks))
}

/// The day with most sessions, and their number.
pub open spec fn peak_text(counts: Seq<nat>, first: int) -> Seq<char> {
    if sum(counts) == 0 {
        "—"@
    } else {
        let k = peak(counts);
        day_label((first + k) as i32) + " ("@ + text::decimal(counts[k]) + ")"@
    }
}

/// The rows below the heatmap: the number of sessions, of days with any, and the
/// day with most.
pub open spec fn summary_rows(counts: Seq<nat>, first: int) -> Seq<LineOfSpans> {
    let dim = Style::color(Color::DarkGray);
    let white = Style::color(Color::White);
    seq![
        Seq::<SpanView>::empty(),
        seq![
            style::spanned("  Total: "@, dim),
            style::spanned(text::decimal(sum(counts)) + " sessions"@, white),
            style::spanned("  Active days: "@, dim),
            style::spanned(text::decimal(nonzero(counts)), white),
        ],
        seq![
            style::spanned("  Peak: "@, dim),
            style::spanned(peak_text(counts, first), Style::color(Color::Yellow)),
        ],
        Seq::<SpanView>::empty(),
    ]
}

/// The legend: what the cells mean.
pub open spec fn legend_row() -> LineOfSpans {
    let dim = Style::color(Color::DarkGray);
    seq![
        style::spanned("  "@, Style::plain()),
        cell(0),
        style::spanned("0  "@, dim),
        cell(1),
        style::spanned("1  "@, dim),
        cell(2),
        style::spanned("2-3  "@, dim),
        cell(4),
        style::spanned("4-5  "@, dim),
        cell(6),
        style::spanned("6+"@, dim),
    ]
}

/// The rows of the timeline.
pub open spec fn timeline_rows(app: App, days: Seq<Option<i32>>, today: i32, width: int) -> Seq<
    LineOfSpans,
> {
    let weeks = weeks_of(width);
    let first = first_day(today, weeks);
    let counts = day_counts(app, days, first, today as int);
    seq![month_row(first, weeks)] + day_rows(counts, weeks) + summary_rows(counts, first) + seq![
        legend_row(),
    ]
}

/// The Monday of the first week shown.
fn first_day_of(today: i32, weeks: i32) -> (r: i32)
    requires
        4 <= weeks <= 26,
        today >= i32::MIN + 200,
    ensures
        r == first_day(today, weeks as int),
        r <= today <= r + 7 * weeks - 1,
{
    let since: i32 = match weekday_of(today) {
        Some(w) => w as i32,
        None => 0,
    };
    today - since - 7 * (weeks - 1)
}

/// The number of sessions on each day shown.
fn count_days(app: &App, days: &Vec<Option<i32>>, first: i32, today: i32) -> (r: Vec<usize>)
    requires
        days@.len() == app.sessions@.len(),
        first <= today <= first + 200,
    ensures
        r@.len() == today - first + 1,
        forall|k: int|
            0 <= k < r@.len() ==> #[trigger] r@[k] == day_counts(
                *app,
                days@,
                first as int,
                today as int,
            )[k],
        forall|k: int| 0 <= k < r@.len() ==> #[trigger] r@[k] <= app.sessions@.len(),
{
    let n: usize = (today as i64 - first as i64 + 1) as usize;
    let mut counts: Vec<usize> = Vec::new();
    let mut k: usize = 0;
    while k < n
        invariant
            k <= n,
            counts@.len() == k,
            forall|j: int| 0 <= j < k ==> counts@[j] == 0,
        decreases n - k,
    {
        counts.push(0);
        k += 1;
    }
    let needle = app.scope_needle();
    let mut i: usize = 0;
    while i < app.sessions.len()
        invariant
            i <= app.sessions@.len(),
            days@.len() == app.sessions@.len(),
            first <= today <= first + 200,
            n == today - first + 1,
            counts@.len() == n,
            match needle {
                Some(m) => app.scope_mark() == Some(m@),
                None => app.scope_mark() is None,
            },
            forall|j: int|
                0 <= j < n ==> #[trigger] counts@[j] == sessions_on(
                    *app,
                    days@,
                    first + j,
                    i as int,
                ) && counts@[j] <= i,
        decreases app.sessions@.len() - i,
    {
        let s = &app.sessions[i];
        let in_scope = match &needle {
            Some(m) => text::has(s.file_path.as_str(), m.as_str()),
            None => true,
        };
        assert(in_scope == app.in_scope(s@));
        let ghost before = counts@;
        match days[i] {
            Some(d) => {
                if in_scope && d >= first && d <= today {
                    let at: usize = (d as i64 - first as i64) as usize;
                    assert(counts@[at as int] <= i);
                    let c = counts[at];
                    counts.set(at, c + 1);
                }
            },
            None => {},
        }
        assert forall|j: int| 0 <= j < n implies #[trigger] counts@[j] == sessions_on(
            *app,
            days@,
            first + j,
            i + 1,
        ) && counts@[j] <= i + 1 by {
            assert(before[j] == sessions_on(*app, days@, first + j, i as int));
        }
        i += 1;
    }
    counts
}

/// The sum of numbers, how many are not zero, and the last position of the
/// largest.
fn tally(counts: &Vec<usize>, Ghost(told): Ghost<Seq<nat>>) -> (r: (u128, usize, usize))
    requires
        counts@.len() == told.len(),
        0 < counts@.len() <= 1000,
        forall|k: int| 0 <= k < told.len() ==> #[trigger] counts@[k] == told[k],
    ensures
        r.0 == sum(told),
        r.1 == nonzero(told),
        r.2 == peak(told),
        r.2 < told.len(),
{
    let mut total: u128 = 0;
    let mut active: usize = 0;
    let mut best: usize = 0;
    let mut i: usize = 0;
    while i < counts.len()
        invariant
            i <= counts@.len() <= 1000,
            counts@.len() == told.len(),
            forall|k: int| 0 <= k < told.len() ==> #[trigger] counts@[k] == told[k],
            total == sum(told.take(i as int)),
            total <= i * usize::MAX,
            active == nonzero(told.take(i as int)),
            active <= i,
            best == peak(told.take(i as int)),
            best < i || (i == 0 && best == 0),
        decreases counts@.len() - i,
    {
        let ghost front = told.take(i as int);
        assert(told.take(i + 1).drop_last() =~= front);
        assert(told.take(i + 1).last() == told[i as int]);
        let c = counts[i];
        assert(c == told[i as int]);
        total = total + c as u128;
        if c > 0 {
            active = active + 1;
        }
        if i > 0 {
            assert(counts@[best as int] == told[best as int]);
            assert(told.take(i + 1)[best as int] == told[best as int]);
            if c >= counts[best] {
                best = i;
            }
        }
        i += 1;
    }
    assert(told.take(i as int) =~= told);
    (total, active, best)
}

/// The row of months.
fn month_line(first: i32, weeks: i32) -> (r: Line)
    requires
        4 <= weeks <= 26,
        first <= i32::MAX - 200,
    ensures
        style::spans_view(r@) == month_row(first as int, weeks as int),
{
    let mut line = style::blank();
    style::push_str(&mut line, "     ", Style::plain());
    assert(style::spans_view(line@) =~= month_row(first as int, 0));
    let mut before: u32 = 0;
    let mut w: i32 = 0;
    while w < weeks
        invariant
            0 <= w <= weeks <= 26,
            first <= i32::MAX - 200,
            before == if w == 0 {
                0
            } else {
                week_month(first as int, w - 1)
            },
            style::spans_view(line@) == month_row(first as int, w as int),
        decreases weeks - w,
    {
        let month = match month_of(first + 7 * w) {
            Some(m) => m,
            None => 0,
        };
        assert(month == week_month(first as int, w as int));
        if month != before {
            style::push_str(&mut line, month_abbrev(month), Style::color(Color::DarkGray));
        } else {
            style::push_str(&mut line, "  ", Style::plain());
        }
        before = month;
        w += 1;
    }
    line
}

/// The row of a day of the week.
fn day_line(counts: &Vec<usize>, d: usize, weeks: usize, Ghost(told): Ghost<Seq<nat>>) -> (r: Line)
    requires
        d < 7,
        weeks <= 26,
        counts@.len() == told.len(),
        forall|k: int| 0 <= k < told.len() ==> #[trigger] counts@[k] == told[k],
    ensures
        style::spans_view(r@) == day_row(told, d as int, weeks as int),
{
    let name = if d == 0 {
        "Mon "
    } else if d == 1 {
        "Tue "
    } else if d == 2 {
        "Wed "
    } else if d == 3 {
        "Thu "
    } else if d == 4 {
        "Fri "
    } else if d == 5 {
        "Sat "
    } else {
        "Sun "
    };
    let mut line = style::blank();
    style::push_str(&mut line, name, Style::color(Color::DarkGray));
    assert(style::spans_view(line@) =~= day_row(told, d as int, 0));
    let mut w: usize = 0;
    while w < weeks
        invariant
            w <= weeks <= 26,
            d < 7,
            counts@.len() == told.len(),
            forall|k: int| 0 <= k < told.len() ==> #[trigger] counts@[k] == told[k],
            style::spans_view(line@) == day_row(told, d as int, w as int),
        decreases weeks - w,
    {
        let k = 7 * w + d;
        if k < counts.len() {
            assert(counts@[k as int] == told[k as int]);
            let (mark, color) = heatmap_cell(counts[k]);
            style::push_str(&mut line, mark, Style::color(color));
        } else {
            style::push_str(&mut line, "  ", Style::plain());
        }
        w += 1;
    }
    line
}

/// The rows below the heatmap.
fn push_summary(
    out: &mut Vec<Line>,
    counts: &Vec<usize>,
    first: i32,
    Ghost(told): Ghost<Seq<nat>>,
)
    requires
        counts@.len() == told.len(),
        0 < counts@.len() <= 200,
        first <= i32::MAX - 200,
        forall|k: int| 0 <= k < told.len() ==> #[trigger] counts@[k] == told[k],
    ensures
        style::lines_view(final(out)@) == style::lines_view(old(out)@) + summary_rows(
            told,
            first as int,
        ),
{
    let ghost before = style::lines_view(out@);
    let dim = Style::color(Color::DarkGray);
    let white = Style::color(Color::White);
    let (total, active, best) = tally(counts, Ghost(told));
    let top = if total == 0 {
        "—".to_owned()
    } else {
        let day = first + best as i32;
        let mut label = match (month_of(day), day_of(day)) {
            (Some(m), Some(d)) => date_label(m, d),
            _ => String::new(),
        };
        assert(counts@[best as int] == told[best as int]);
        let n = text::decimal_of(counts[best] as u128);
        label.append(" (");
        label.append(n.as_str());
        label.append(")");
        label
    };
    assert(top@ == peak_text(told, first as int));
    let mut totals = style::blank();
    style::push_str(&mut totals, "  Total: ", dim);
    let mut n = text::decimal_of(total);
    n.append(" sessions");
    style::push(&mut totals, n, white);
    style::push_str(&mut totals, "  Active days: ", dim);
    style::push(&mut totals, text::decimal_of(active as u128), white);
    let mut peaks = style::blank();
    style::push_str(&mut peaks, "  Peak: ", dim);
    style::push(&mut peaks, top, Style::color(Color::Yellow));
    proof {
        let rows = summary_rows(told, first as int);
        assert(style::spans_view(totals@) =~= rows[1]);
        assert(style::spans_view(peaks@) =~= rows[2]);
    }
    style::push_line(out, style::blank());
    style::push_line(out, totals);
    style::push_line(out, peaks);
    style::push_line(out, style::blank());
    assert(style::lines_view(out@) =~= before + summary_rows(told, first as int));
}

/// The legend.
fn legend_line() -> (r: Line)
    ensures
        style::spans_view(r@) == legend_row(),
{
    let dim = Style::color(Color::DarkGray);
    let mut line = style::blank();
    style::push_str(&mut line, "  ", Style::plain());
    style::push_str(&mut line, "░ ", Style::color(Color::Rgb(30, 30, 30)));
    style::push_str(&mut line, "0  ", dim);
    style::push_str(&mut line, "░ ", Style::color(Color::Rgb(14, 68, 41)));
    style::push_str(&mut line, "1  ", dim);
    style::push_str(&mut line, "▒ ", Style::color(Color::Rgb(0, 109, 50)));
    style::push_str(&mut line, "2-3  ", dim);
    style::push_str(&mut line, "▓ ", Style::color(Color::Rgb(38, 166, 65)));
    style::push_str(&mut line, "4-5  ", dim);
    style::push_str(&mut line, "█ ", Style::color(Color::Rgb(57, 211, 83)));
    style::push_str(&mut line, "6+", dim);
    assert(style::spans_view(line@) =~= legend_row());
    line
}

/// The rows of the timeline on a pane of some width: today and the day of each
/// session, if it has one, are given.
pub fn timeline_lines(app: &App, days: &Vec<Option<i32>>, today: i32, width: u16) -> (r: Vec<Line>)
    requires
        days@.len() == app.sessions@.len(),
        i32::MIN + 200 <= today <= i32::MAX - 200,
    ensures
        style::lines_view(r@) == timeline_rows(*app, days@, today, width as int),
{
    let fit = width.saturating_sub(5) / 2;
    let weeks: i32 = if fit < 4 {
        4
    } else if fit > 26 {
        26
    } else {
        fit as i32
    };
    let first = first_day_of(today, weeks);
    let counts = count_days(app, days, first, today);
    let ghost told = day_counts(*app, days@, first as int, today as int);
    let mut out: Vec<Line> = Vec::new();
    assert(style::lines_view(out@) =~= Seq::empty());
    style::push_line(&mut out, month_line(first, weeks));
    let ghost start = style::lines_view(out@);
    assert(start =~= seq![month_row(first as int, weeks as int)]);
    let mut d: usize = 0;
    assert(start + day_rows(told, weeks as int).take(0) =~= start);
    while d < 7
        invariant
            d <= 7,
            4 <= weeks <= 26,
            counts@.len() == told.len(),
            forall|k: int| 0 <= k < told.len() ==> #[trigger] counts@[k] == told[k],
            style::lines_view(out@) == start + day_rows(told, weeks as int).take(d as int),
        decreases 7 - d,
    {
        let line = day_line(&counts, d, weeks as usize, Ghost(told));
        let ghost rows = day_rows(told, weeks as int);
        style::push_line(&mut out, line);
        assert(rows.take(d + 1) =~= rows.take(d as int).push(rows[d as int]));
        assert(style::lines_view(out@) =~= start + rows.take(d + 1));
        d += 1;
    }
    assert(day_rows(told, weeks as int).take(7) =~= day_rows(told, weeks as int));
    push_summary(&mut out, &counts, first, Ghost(told));
    style::push_line(&mut out, legend_line());
    assert(style::lines_view(out@) =~= timeline_rows(*app, days@, today, width as int));
    out
}

/// No day has more sessions than the peak.
pub proof fn peak_is_largest(counts: Seq<nat>, k: int)
    requires
        0 <= k < counts.len(),
    ensures
        0 <= peak(counts) < counts.len(),
        counts[k] <= counts[peak(counts)],
    decreases counts.len(),
{
    if counts.len() > 1 {
        let front = counts.drop_last();
        peak_is_largest(front, 0);
        if k < front.len() {
            peak_is_largest(front, k);
            assert(front[k] == counts[k]);
        }
    }
}

/// The heatmap ends with today, whatever the day of the week, and begins with a
/// Monday.
pub proof fn heatmap_ends_today(today: i32, weeks: int)
    requires
        weeks >= 1,
        calendar_month(today) is Some,
    ensures
        (first_day(today, weeks) - 1) % 7 == 0,
        first_day(today, weeks) + 7 * (weeks - 1) <= today < first_day(today, weeks) + 7 * weeks,
{
}

/// How many of the first `n` sessions took place on a day of a range, of those
/// that are of the scope.
pub open spec fn sessions_within(
    app: App,
    days: Seq<Option<i32>>,
    first: int,
    last: int,
    n: int,
) -> nat
    decreases n,
{
    if n <= 0 {
        0
    } else if days[n - 1] is Some && first <= days[n - 1]->0 <= last && app.in_scope(
        app.sessions@[n - 1]@,
    ) {
        sessions_within(app, days, first, last, n - 1) + 1
    } else {
        sessions_within(app, days, first, last, n - 1)
    }
}

/// A range of days is the days before its last one, and that day.
proof fn last_day_parts(app: App, days: Seq<Option<i32>>, first: int, last: int, n: int)
    requires
        first <= last,
    ensures
        sessions_within(app, days, first, last, n) == sessions_within(
            app,
            days,
            first,
            last - 1,
            n,
        ) + sessions_on(app, days, last, n),
    decreases n,
{
    if n > 0 {
        last_day_parts(app, days, first, last, n - 1);
    }
}

/// No session is on a day of an empty range.
proof fn empty_range_has_none(app: App, days: Seq<Option<i32>>, first: int, n: int)
    ensures
        sessions_within(app, days, first, first - 1, n) == 0,
    decreases n,
{
    if n > 0 {
        empty_range_has_none(app, days, first, n - 1);
    }
}

/// The total below the heatmap is the number of sessions of the scope on the
/// days shown: each is counted once.
pub proof fn total_counts_each_once(app: App, days: Seq<Option<i32>>, first: int, today: int)
    requires
        first <= today + 1,
    ensures
        sum(day_counts(app, days, first, today)) == sessions_within(
            app,
            days,
            first,
            today,
            app.sessions@.len() as int,
        ),
    decreases today - first + 1,
{
    let counts = day_counts(app, days, first, today);
    if today < first {
        empty_range_has_none(app, days, first, app.sessions@.len() as int);
    } else {
        total_counts_each_once(app, days, first, today - 1);
        assert(counts.drop_last() =~= day_counts(app, days, first, today - 1));
        last_day_parts(app, days, first, today, app.sessions@.len() as int);
    }
}

/// The cells: empty or light for no session or one, then fuller from two, four and six
/// sessions on, each degree in a color of its own.
pub proof fn cells_tell_how_many(count: int)
    requires
        count >= 0,
    ensures
        count <= 1 ==> cell(count).text == "░ "@,
        2 <= count <= 3 ==> cell(count).text == "▒ "@,
        4 <= count <= 5 ==> cell(count).text == "▓ "@,
        count >= 6 ==> cell(count).text == "█ "@,
        count == 0 ==> cell(count).style.fg == Color::Rgb(30, 30, 30),
        count == 1 ==> cell(count).style.fg == Color::Rgb(14, 68, 41),
        2 <= count <= 3 ==> cell(count).style.fg == Color::Rgb(0, 109, 50),
        4 <= count <= 5 ==> cell(count).style.fg == Color::Rgb(38, 166, 65),
        count >= 6 ==> cell(count).style.fg == Color::Rgb(57, 211, 83),
{
}

/// Two columns are taken by each week beside five for the names of the days; no less than
/// four weeks are shown, and no more than half a year.
pub proof fn weeks_take_two_columns(width: int)
    ensures
        width < 13 ==> weeks_of(width) == 4,
        13 <= width <= 58 ==> 5 + 2 * weeks_of(width) <= width < 5 + 2 * (weeks_of(width) + 1),
        width > 58 ==> weeks_of(width) == 26,
{
}

/// In the row of a day of the week, the cell of each week tells the number of sessions on
/// that day, and is blank past today.
pub proof fn days_stand_under_their_weeks(counts: Seq<nat>, d: int, weeks: int, w: int)
    requires
        0 <= w < weeks,
        0 <= d < 7,
    ensures
        day_row(counts, d, weeks).len() == weeks + 1,
        day_row(counts, d, weeks)[0].text == weekday_name(d),
        7 * w + d < counts.len() ==> day_row(counts, d, weeks)[w + 1] == cell(
            counts[7 * w + d] as int,
        ),
        7 * w + d >= counts.len() ==> day_row(counts, d, weeks)[w + 1].text == "  "@,
    decreases weeks,
{
    if weeks > 1 {
        days_stand_under_their_weeks(
            counts,
            d,
            weeks - 1,
            if w < weeks - 1 {
                w
            } else {
                0
            },
        );
    } else {
        assert(day_row(counts, d, 0).len() == 1);
    }
}

/// A session counts for its day, once, if it is of the scope, and for no other day.
pub proof fn sessions_count_for_their_day(app: App, days: Seq<Option<i32>>, day: int, i: int)
    requires
        0 <= i < app.sessions@.len(),
    ensures
        sessions_on(app, days, day, 0) == 0,
        ({
            let counted = days[i] == Some(day as i32) && i32::MIN <= day <= i32::MAX
                && crate::listing::lies_in_scope(app, app.sessions@[i]);
            &&& counted ==> sessions_on(app, days, day, i + 1) == sessions_on(app, days, day, i) + 1
            &&& !counted ==> sessions_on(app, days, day, i + 1) == sessions_on(app, days, day, i)
        }),
{
    crate::listing::scope_is_told_by_the_path(app, app.sessions@[i]);
}

/// The peak is the last of the days with most sessions.
pub proof fn peak_is_the_latest(counts: Seq<nat>, k: int)
    requires
        0 <= k < counts.len(),
        counts[k] == counts[peak(counts)],
    ensures
        k <= peak(counts),
    decreases counts.len(),
{
    peak_is_largest(counts, k);
    if counts.len() > 1 {
        let front = counts.drop_last();
        if k < front.len() {
            peak_is_largest(front, k);
            assert(front[k] == counts[k]);
            if peak(counts) != counts.len() - 1 {
                peak_is_the_latest(front, k);
            }
        }
    }
}

/// The sum adds up all days, and every day with a session counts once among the active
/// ones.
pub proof fn totals_add_up(a: Seq<nat>, b: Seq<nat>, c: nat)
    ensures
        sum(a + b) == sum(a) + sum(b),
        nonzero(a + b) == nonzero(a) + nonzero(b),
        sum(seq![c]) == c,
        c > 0 ==> nonzero(seq![c]) == 1,
        c == 0 ==> nonzero(seq![c]) == 0,
    decreases b.len(),
{
    assert(seq![c].drop_last() =~= Seq::<nat>::empty());
    assert(sum(Seq::empty()) == 0 && nonzero(Seq::empty()) == 0);
    if b.len() == 0 {
        assert(a + b =~= a);
    } else {
        totals_add_up(a, b.drop_last(), c);
        assert((a + b).drop_last() =~= a + b.drop_last());
    }
}

/// A month stands over the first week that starts in it, and nothing over the others.
pub proof fn months_stand_over_their_weeks(first: int, weeks: int, w: int)
    requires
        0 <= w < weeks,
    ensures
        month_row(first, weeks).len() == weeks + 1,
        month_row(first, weeks)[0].text == "     "@,
        ({
            let this = week_month(first, w);
            let changed = if w == 0 {
                this != 0
            } else {
                this != week_month(first, w - 1)
            };
            &&& changed ==> month_row(first, weeks)[w + 1].text == month_name(this)
            &&& !changed ==> month_row(first, weeks)[w + 1].text == "  "@
        }),
    decreases weeks,
{
    if weeks > 1 {
        months_stand_over_their_weeks(
            first,
            weeks - 1,
            if w < weeks - 1 {
                w
            } else {
                0
            },
        );
    } else {
        assert(month_row(first, 0).len() == 1);
    }
}

/// The days of the week, from Monday on, and the names of the months.
pub proof fn days_and_months_are_named()
    ensures
        weekday_name(0) == "Mon "@ && weekday_name(1) == "Tue "@ && weekday_name(2) == "Wed "@
            && weekday_name(3) == "Thu "@ && weekday_name(4) == "Fri "@ && weekday_name(5)
            == "Sat "@ && weekday_name(6) == "Sun "@,
        month_name(1) == "Ja"@ && month_name(2) == "Fe"@ && month_name(3) == "Mr"@ && month_name(4)
            == "Ap"@ && month_name(5) == "My"@ && month_name(6) == "Jn"@,
        month_name(7) == "Jl"@ && month_name(8) == "Au"@ && month_name(9) == "Se"@ && month_name(10)
            == "Oc"@ && month_name(11) == "Nv"@ && month_name(12) == "Dc"@,
        short_month(1) == "Jan"@ && short_month(2) == "Feb"@ && short_month(3) == "Mar"@
            && short_month(4) == "Apr"@ && short_month(5) == "May"@ && short_month(6) == "Jun"@,
        short_month(7) == "Jul"@ && short_month(8) == "Aug"@ && short_month(9) == "Sep"@
            && short_month(10) == "Oct"@ && short_month(11) == "Nov"@ && short_month(12) == "Dec"@,
{
}

/// Below the heatmap stand the number of sessions, the number of days with any, and the
/// day with most, by its date and its number of sessions.
pub proof fn summaries_tell_the_totals(counts: Seq<nat>, first: int)
    requires
        counts.len() > 0,
    ensures
        ({
            let rows = summary_rows(counts, first);
            let k = peak(counts);
            let day = (first + k) as i32;
            &&& rows.len() == 4
            &&& rows[1][0].text == "  Total: "@
            &&& rows[1][1].text == text::decimal(sum(counts)) + " sessions"@
            &&& rows[1][2].text == "  Active days: "@
            &&& rows[1][3].text == text::decimal(nonzero(counts))
            &&& rows[2][0].text == "  Peak: "@
            &&& sum(counts) == 0 ==> rows[2][1].text == "—"@
            &&& sum(counts) > 0 && calendar_month(day) is Some && calendar_day(day) is Some
                && calendar_day(day)->0 >= 10 ==> rows[2][1].text == short_month(
                calendar_month(day)->0,
            ) + " "@ + text::decimal(calendar_day(day)->0 as nat) + " ("@ + text::decimal(counts[k])
                + ")"@
            &&& sum(counts) > 0 && calendar_month(day) is Some && calendar_day(day) is Some
                && calendar_day(day)->0 < 10 ==> rows[2][1].text == short_month(
                calendar_month(day)->0,
            ) + "  "@ + text::decimal(calendar_day(day)->0 as nat) + " ("@ + text::decimal(
                counts[k],
            ) + ")"@
        }),
{
}

/// The timeline is a row of months, seven rows of days from Monday to Sunday, the totals,
/// and the legend.
pub proof fn timelines_have_these_rows(app: App, days: Seq<Option<i32>>, today: i32, width: int, d: int)
    requires
        0 <= d < 7,
    ensures
        ({
            let weeks = weeks_of(width);
            let first = first_day(today, weeks);
            let counts = Seq::new(
                (today - first + 1) as nat,
                |k: int| sessions_on(app, days, first + k, app.sessions@.len() as int),
            );
            let rows = timeline_rows(app, days, today, width);
            &&& rows.len() == 13
            &&& rows[0] == month_row(first, weeks)
            &&& rows[1 + d] == day_row(counts, d, weeks)
            &&& rows[9] == summary_rows(counts, first)[1]
            &&& rows[10] == summary_rows(counts, first)[2]
        }),
{
    let weeks = weeks_of(width);
    let first = first_day(today, weeks);
    let counts = Seq::new(
        (today - first + 1) as nat,
        |k: int| sessions_on(app, days, first + k, app.sessions@.len() as int),
    );
    assert(counts =~= day_counts(app, days, first, today as int));
}

/// The legend shows the cell of each degree with the numbers it stands for.
pub proof fn legends_explain_the_cells()
    ensures
        legend_row().len() == 11,
        legend_row()[0].text == "  "@,
        legend_row()[1] == cell(0) && legend_row()[2].text == "0  "@,
        legend_row()[3] == cell(1) && legend_row()[4].text == "1  "@,
        legend_row()[5] == cell(2) && legend_row()[5] == cell(3) && legend_row()[6].text == "2-3  "@,
        legend_row()[7] == cell(4) && legend_row()[7] == cell(5) && legend_row()[8].text == "4-5  "@,
        legend_row()[9] == cell(6) && legend_row()[10].text == "6+"@,
{
}

/// The month of a week is that of its Monday.
pub proof fn weeks_begin_in_their_month(first: int, w: int)
    ensures
        ({
            let monday = calendar_month((first + 7 * w) as i32);
            &&& monday is Some ==> week_month(first, w) == monday->0
            &&& monday is None ==> week_month(first, w) == 0
        }),
{
}

} // verus!
