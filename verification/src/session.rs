//! What is known of a session, and how its figures are put into words.

use crate::text;
use vstd::prelude::*;

verus! {

/// The metadata of one session.
#[derive(Debug)]
pub struct SessionMeta {
    pub id: String,
    pub project: String,
    pub branch: String,
    pub name: String,
    pub title: String,
    pub last_message: String,
    pub duration_secs: u64,
    /// Seconds since the epoch.
    pub timestamp: i64,
    pub file_size: u64,
    pub file_mtime: i64,
    /// The path of the file, as text.
    pub file_path: String,
    pub cwd: String,
    /// How many messages a person sent.
    pub message_count: u32,
    /// The tickets mentioned, sorted.
    pub tickets: Vec<String>,
    /// Where the searchable text starts in the text cache.
    pub text_offset: u64,
    /// How many bytes of searchable text there are.
    pub text_len: u32,
    pub name_lc: String,
    pub title_lc: String,
    pub project_lc: String,
    pub branch_lc: String,
    pub permission_mode: String,
    pub cc_version: String,
    pub skills: Vec<String>,
    pub changed_files: Vec<String>,
    /// The changed files, one per line, in lower case.
    pub changed_files_lc: String,
}

/// The metadata of one session, over texts.
#[verifier::ext_equal]
pub struct SessionView {
    pub id: Seq<char>,
    pub project: Seq<char>,
    pub branch: Seq<char>,
    pub name: Seq<char>,
    pub title: Seq<char>,
    pub last_message: Seq<char>,
    pub duration_secs: u64,
    pub timestamp: i64,
    pub file_size: u64,
    pub file_mtime: i64,
    pub file_path: Seq<char>,
    pub cwd: Seq<char>,
    pub message_count: u32,
    pub tickets: Seq<Seq<char>>,
    pub text_offset: u64,
    pub text_len: u32,
    pub name_lc: Seq<char>,
    pub title_lc: Seq<char>,
    pub project_lc: Seq<char>,
    pub branch_lc: Seq<char>,
    pub permission_mode: Seq<char>,
    pub cc_version: Seq<char>,
    pub skills: Seq<Seq<char>>,
    pub changed_files: Seq<Seq<char>>,
    pub changed_files_lc: Seq<char>,
}

impl View for SessionMeta {
    type V = SessionView;

    open spec fn view(&self) -> SessionView {
        SessionView {
            id: self.id@,
            project: self.project@,
            branch: self.branch@,
            name: self.name@,
            title: self.title@,
            last_message: self.last_message@,
            duration_secs: self.duration_secs,
            timestamp: self.timestamp,
            file_size: self.file_size,
            file_mtime: self.file_mtime,
            file_path: self.file_path@,
            cwd: self.cwd@,
            message_count: self.message_count,
            tickets: text::views(self.tickets@),
            text_offset: self.text_offset,
            text_len: self.text_len,
            name_lc: self.name_lc@,
            title_lc: self.title_lc@,
            project_lc: self.project_lc@,
            branch_lc: self.branch_lc@,
            permission_mode: self.permission_mode@,
            cc_version: self.cc_version@,
            skills: text::views(self.skills@),
            changed_files: text::views(self.changed_files@),
            changed_files_lc: self.changed_files_lc@,
        }
    }
}

impl Clone for SessionMeta {
    fn clone(&self) -> (r: SessionMeta)
        ensures
            r@ == self@,
    {
        SessionMeta {
            id: self.id.clone(),
            project: self.project.clone(),
            branch: self.branch.clone(),
            name: self.name.clone(),
            title: self.title.clone(),
            last_message: self.last_message.clone(),
            duration_secs: self.duration_secs,
            timestamp: self.timestamp,
            file_size: self.file_size,
            file_mtime: self.file_mtime,
            file_path: self.file_path.clone(),
            cwd: self.cwd.clone(),
            message_count: self.message_count,
            tickets: text::copied(&self.tickets),
            text_offset: self.text_offset,
            text_len: self.text_len,
            name_lc: self.name_lc.clone(),
            title_lc: self.title_lc.clone(),
            project_lc: self.project_lc.clone(),
            branch_lc: self.branch_lc.clone(),
            permission_mode: self.permission_mode.clone(),
            cc_version: self.cc_version.clone(),
            skills: text::copied(&self.skills),
            changed_files: text::copied(&self.changed_files),
            changed_files_lc: self.changed_files_lc.clone(),
        }
    }
}

/// The sessions of a list, over texts.
pub open spec fn sessions_view(v: Seq<SessionMeta>) -> Seq<SessionView> {
    Seq::new(v.len(), |i: int| v[i]@)
}

/// `s` without the prefix `p`, where it has it.
pub open spec fn without_prefix(s: Seq<char>, p: Seq<char>) -> Option<Seq<char>> {
    if text::has_prefix(s, p) {
        Some(s.skip(p.len() as int))
    } else {
        None
    }
}

/// The name of a project: its directory below `home/code/`, or else below
/// `home/`, or else as it is.
pub open spec fn project_name(cwd: Seq<char>, home: Seq<char>) -> Seq<char> {
    match without_prefix(cwd, home + "/code/"@) {
        Some(rest) => rest,
        None => match without_prefix(cwd, home + "/"@) {
            Some(rest) => rest,
            None => cwd,
        },
    }
}

/// Extract a human-readable project name from a `cwd` path.
pub fn extract_project_name(cwd: &str, home_dir: &str) -> (r: String)
    ensures
        r@ == project_name(cwd@, home_dir@),
{
    let path = text::chars_of(cwd);
    let mut code = home_dir.to_owned();
    code.append("/code/");
    let code = text::chars_of(code.as_str());
    if text::occurs(&path, &code, 0) {
        return text::string_from(&path, code.len());
    }
    let mut home = home_dir.to_owned();
    home.append("/");
    let home = text::chars_of(home.as_str());
    if text::occurs(&path, &home, 0) {
        return text::string_from(&path, home.len());
    }
    cwd.to_owned()
}

/// `n / d` to the nearest integer; a half goes to the even one.
pub open spec fn nearest(n: nat, d: nat) -> nat {
    let q = n / d;
    let r = n % d;
    if 2 * r < d || (2 * r == d && q % 2 == 0) {
        q
    } else {
        q + 1
    }
}

/// The distance between neighbouring double-precision numbers around `n`, for
/// an integer `n`; 1 where every integer is one.
pub open spec fn spacing(n: nat) -> nat
    decreases n,
{
    if n < 0x20_0000_0000_0000 {
        1
    } else {
        2 * spacing(n / 2)
    }
}

/// The double-precision number nearest to `n`.
pub open spec fn as_double(n: nat) -> nat {
    nearest(n, spacing(n)) * spacing(n)
}

/// How many tenths of `unit` bytes `n` is, taken as a double-precision number.
pub open spec fn tenths(n: nat, unit: nat) -> nat {
    nearest(as_double(n) * 10, unit)
}

/// A number of tenths with one decimal, or with none where it is a whole number.
pub open spec fn one_decimal(t: nat) -> Seq<char> {
    if t % 10 == 0 {
        text::decimal(t / 10)
    } else {
        text::decimal(t / 10) + "."@ + text::decimal(t % 10)
    }
}

/// A file size for people: bytes, kilobytes or megabytes.
pub open spec fn file_size_text(bytes: nat) -> Seq<char> {
    if bytes < 1024 {
        text::decimal(bytes) + " B"@
    } else if bytes < 1024 * 1024 {
        one_decimal(tenths(bytes, 1024)) + " KB"@
    } else {
        one_decimal(tenths(bytes, 1024 * 1024)) + " MB"@
    }
}

/// `n / d` to the nearest integer; a half goes to the even one.
fn nearest_of(n: u128, d: u128) -> (r: u128)
    requires
        0 < d <= 0x1_0000_0000,
        n < 0x1_0000_0000_0000_0000_0000,
    ensures
        r == nearest(n as nat, d as nat),
        r <= n / d + 1,
{
    let q = n / d;
    let r = n % d;
    if 2 * r < d || (2 * r == d && q % 2 == 0) {
        q
    } else {
        assert(q <= n) by (nonlinear_arith)
            requires
                q == n / d,
                d > 0,
        ;
        q + 1
    }
}

/// The distance between neighbouring double-precision numbers around `n`.
fn spacing_of(n: u64) -> (r: u128)
    ensures
        r == spacing(n as nat),
        1 <= r <= 4096,
        r > 1 ==> 0x20_0000_0000_0000 * (r / 2) <= n,
        n < 0x20_0000_0000_0000 * r,
    decreases n,
{
    if n < 0x20_0000_0000_0000 {
        1
    } else {
        2 * spacing_of(n / 2)
    }
}

/// How many tenths of `unit` bytes `n` is.
fn tenths_of(n: u64, unit: u128) -> (r: u128)
    requires
        unit == 1024 || unit == 1024 * 1024,
    ensures
        r == tenths(n as nat, unit as nat),
{
    let d = spacing_of(n);
    let k = nearest_of(n as u128, d);
    assert(k * d <= n + d) by (nonlinear_arith)
        requires
            k <= n as u128 / d + 1,
            d > 0,
    ;
    nearest_of(k * d * 10, unit)
}

/// A number of tenths with one decimal, or with none where it is a whole number,
/// and a unit behind it.
fn one_decimal_of(t: u128, unit: &str) -> (r: String)
    ensures
        r@ == one_decimal(t as nat) + unit@,
{
    let mut out = text::decimal_of(t / 10);
    if t % 10 != 0 {
        out.append(".");
        let last = text::decimal_of(t % 10);
        out.append(last.as_str());
    }
    out.append(unit);
    out
}

/// Format file size into human-readable string: "1.2 KB", "34 MB".
pub fn format_file_size(bytes: u64) -> (r: String)
    ensures
        r@ == file_size_text(bytes as nat),
{
    if bytes < 1024 {
        let mut out = text::decimal_of(bytes as u128);
        out.append(" B");
        out
    } else if bytes < 1024 * 1024 {
        one_decimal_of(tenths_of(bytes, 1024), " KB")
    } else {
        one_decimal_of(tenths_of(bytes, 1024 * 1024), " MB")
    }
}

/// The label of a file size: below 1 MB, below 10 MB, up to 30 MB, and beyond.
pub open spec fn category(bytes: int) -> Seq<char> {
    if bytes < 1024 * 1024 {
        "quick"@
    } else if bytes < 10 * 1024 * 1024 {
        "medium"@
    } else if bytes <= 30 * 1024 * 1024 {
        "deep"@
    } else {
        "massive"@
    }
}

/// Categorize a session by file size into a label.
pub fn size_category(bytes: u64) -> (r: &'static str)
    ensures
        r@ == category(bytes as int),
{
    if bytes < 1024 * 1024 {
        "quick"
    } else if bytes < 10 * 1024 * 1024 {
        "medium"
    } else if bytes <= 30 * 1024 * 1024 {
        "deep"
    } else {
        "massive"
    }
}

/// A duration in hours and minutes.
pub open spec fn duration_text(secs: nat) -> Seq<char> {
    let hours = secs / 3600;
    let minutes = (secs % 3600) / 60;
    if secs < 60 {
        "< 1m"@
    } else if hours > 0 {
        text::decimal(hours) + "h"@ + text::decimal(minutes) + "m"@
    } else {
        text::decimal(minutes) + "m"@
    }
}

/// Format seconds into human-readable duration: "2h12m", "5m", "< 1m".
pub fn format_duration(secs: u64) -> (r: String)
    ensures
        r@ == duration_text(secs as nat),
{
    if secs < 60 {
        return "< 1m".to_owned();
    }
    let hours = secs / 3600;
    let minutes = text::decimal_of(((secs % 3600) / 60) as u128);
    let mut out = String::new();
    if hours > 0 {
        out = text::decimal_of(hours as u128);
        out.append("h");
    }
    out.append(minutes.as_str());
    out.append("m");
    proof {
        let m = text::decimal(((secs % 3600) / 60) as nat);
        assert(Seq::<char>::empty() + m =~= m);
    }
    out
}

/// The sizes of the categories: below 1 MB quick, below 10 MB medium, up to 30 MB
/// deep, and beyond that massive.
pub proof fn categories_have_these_limits(bytes: int)
    ensures
        bytes < 1048576 ==> category(bytes) == "quick"@,
        1048576 <= bytes < 10485760 ==> category(bytes) == "medium"@,
        10485760 <= bytes <= 31457280 ==> category(bytes) == "deep"@,
        bytes > 31457280 ==> category(bytes) == "massive"@,
{
}

/// A project below the directory for code is named by its path from there, and any
/// other below the home directory by its path from that; all others by their whole
/// path.
pub proof fn projects_are_named_from_home(home: Seq<char>, rest: Seq<char>, cwd: Seq<char>)
    ensures
        project_name(home + "/code/"@ + rest, home) == rest,
        !text::begins(rest, "code/"@) ==> project_name(home + "/"@ + rest, home) == rest,
        !text::begins(cwd, home + "/"@) ==> project_name(cwd, home) == cwd,
{
    reveal_strlit("/code/");
    reveal_strlit("code/");
    reveal_strlit("/");
    let code = home + "/code/"@;
    let top = home + "/"@;
    let s = code + rest;
    assert(s.subrange(0, code.len() as int) =~= code);
    assert(s.skip(code.len() as int) =~= rest);
    let t = top + rest;
    assert(t.subrange(0, top.len() as int) =~= top);
    assert(t.skip(top.len() as int) =~= rest);
    if text::has_prefix(t, code) {
        let n = top.len() as int;
        assert(t.subrange(0, code.len() as int) =~= code);
        assert forall|i: int| 0 <= i < 5 implies rest[i] == "code/"@[i] by {
            assert(t[n + i] == t.subrange(0, code.len() as int)[n + i]);
            assert(code[n + i] == "/code/"@[i + 1]);
        }
        assert(rest.take(5) =~= "code/"@);
    }
    if text::has_prefix(cwd, top) {
        assert(cwd.take(top.len() as int) =~= cwd.subrange(0, top.len() as int));
    }
    if text::has_prefix(cwd, code) {
        assert(cwd.subrange(0, code.len() as int) =~= code);
        assert(cwd.take(top.len() as int) =~= top) by {
            assert forall|i: int| 0 <= i < top.len() implies cwd[i] == top[i] by {
                assert(cwd[i] == cwd.subrange(0, code.len() as int)[i]);
                assert(code[i] == top[i]);
            }
        }
    }
}

/// A duration is told in hours and minutes, or in minutes alone below an hour;
/// seconds are left out.
pub proof fn durations_are_told_in_hours_and_minutes(hours: nat, minutes: nat, seconds: nat)
    requires
        minutes < 60,
        seconds < 60,
    ensures
        hours > 0 ==> duration_text(3600 * hours + 60 * minutes + seconds) == text::decimal(hours)
            + "h"@ + text::decimal(minutes) + "m"@,
        hours == 0 && minutes > 0 ==> duration_text(60 * minutes + seconds) == text::decimal(
            minutes,
        ) + "m"@,
        hours == 0 && minutes == 0 ==> duration_text(seconds) == "< 1m"@,
{
    let secs = 3600 * hours + 60 * minutes + seconds;
    assert(secs / 3600 == hours && (secs % 3600) / 60 == minutes);
}

proof fn lemma_nearest(n: nat, d: nat)
    requires
        d > 0,
    ensures
        2 * (nearest(n, d) * d) <= 2 * n + d,
        2 * n <= 2 * (nearest(n, d) * d) + d,
{
    let q = n / d;
    let r = n % d;
    vstd::arithmetic::div_mod::lemma_fundamental_div_mod(n as int, d as int);
    assert(n == d * q + r);
    assert(r < d) by {
        vstd::arithmetic::div_mod::lemma_mod_bound(n as int, d as int);
    }
    assert(q * d == d * q) by (nonlinear_arith);
    assert((q + 1) * d == d * q + d) by (nonlinear_arith);
}

/// The size of a file below nine petabytes is told in bytes, kilobytes or megabytes,
/// to the nearest tenth, without a decimal where that is a whole number.
pub proof fn sizes_are_told_to_a_tenth(bytes: nat)
    requires
        bytes < 0x20_0000_0000_0000,
    ensures
        bytes < 1024 ==> file_size_text(bytes) == text::decimal(bytes) + " B"@,
        bytes >= 1024 ==> exists|tenths: nat|
            {
                let unit: nat = if bytes < 1048576 {
                    1024
                } else {
                    1048576
                };
                &&& 2 * (tenths * unit) <= 2 * (10 * bytes) + unit
                &&& 2 * (10 * bytes) <= 2 * (tenths * unit) + unit
                &&& file_size_text(bytes) == text::decimal(tenths / 10) + (if tenths % 10 == 0 {
                    Seq::empty()
                } else {
                    "."@ + #[trigger] text::decimal(tenths % 10)
                }) + (if bytes < 1048576 {
                    " KB"@
                } else {
                    " MB"@
                })
            },
{
    if bytes >= 1024 {
        let unit: nat = if bytes < 1048576 {
            1024
        } else {
            1048576
        };
        assert(as_double(bytes) == bytes) by {
            assert(spacing(bytes) == 1);
            assert(bytes / 1 == bytes && bytes % 1 == 0);
            assert(nearest(bytes, 1) == bytes);
        }
        let t = tenths(bytes, unit);
        lemma_nearest(bytes * 10, unit);
        let d = text::decimal(t % 10);
        if t % 10 == 0 {
            assert(text::decimal(t / 10) + Seq::<char>::empty() =~= text::decimal(t / 10));
        } else {
            assert(text::decimal(t / 10) + "."@ + d =~= text::decimal(t / 10) + ("."@ + d));
        }
    }
}

} // verus!
