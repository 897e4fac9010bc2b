//! Ticket references such as `PROJ-123` and `#456`.

use crate::string_set::StringSet;
use crate::text;
use vstd::prelude::*;

verus! {

/// The pattern of a ticket reference inside a text.
pub const TICKET_PATTERN: &'static str =
    "\\b[A-Z][A-Z0-9]{1,9}-\\d{1,7}\\b|(?:^|[^A-Za-z0-9_])#\\d{1,7}\\b";

/// The pattern of a query that is a ticket reference as a whole.
pub const TICKET_QUERY_PATTERN: &'static str = "^[A-Z][A-Z0-9]{1,9}-\\d{1,7}$|^#\\d{1,7}$";

/// The texts that `regex::Regex::find_iter` yields for a pattern, from left to
/// right.
pub uninterp spec fn regex_matches(pattern: Seq<char>, text: Seq<char>) -> Seq<Seq<char>>;

/// What `regex::Regex::is_match` answers for a pattern.
pub uninterp spec fn regex_accepts(pattern: Seq<char>, text: Seq<char>) -> bool;

/// Whether `pattern` is one of the two patterns of this module, both of which
/// `regex::Regex::new` accepts.
pub open spec fn is_known_pattern(pattern: Seq<char>) -> bool {
    pattern == TICKET_PATTERN@ || pattern == TICKET_QUERY_PATTERN@
}

/// `regex::Regex::find_iter` on each of `texts`, with `pattern` compiled once:
/// what it yields for a text depends on the pattern and that text alone.
#[verifier::external_body]
fn find_in_each(pattern: &str, texts: &Vec<String>) -> (r: Vec<Vec<String>>)
    requires
        is_known_pattern(pattern@),
    ensures
        r@.len() == texts@.len(),
        forall|i: int|
            0 <= i < r@.len() ==> text::views(#[trigger] r@[i]@) == regex_matches(
                pattern@,
                texts@[i]@,
            ),
{
    let re = regex::Regex::new(pattern).unwrap();
    texts.iter().map(|t| re.find_iter(t).map(|m| m.as_str().to_string()).collect()).collect()
}

/// `regex::Regex::is_match` depends on the pattern and the text alone.
#[verifier::external_body]
fn matches_pattern(pattern: &str, text: &str) -> (r: bool)
    requires
        is_known_pattern(pattern@),
    ensures
        r == regex_accepts(pattern@, text@),
{
    regex::Regex::new(pattern).unwrap().is_match(text)
}

/// A match without what precedes its first `#`.
pub open spec fn bare(m: Seq<char>) -> Seq<char> {
    match text::find_from(m, seq!['#'], 0) {
        Some(i) => m.skip(i),
        None => m,
    }
}

/// The ticket references in a text.
pub open spec fn tickets_in(line: Seq<char>) -> Set<Seq<char>> {
    bare_set(regex_matches(TICKET_PATTERN@, line))
}

/// The ticket references among the matches `ms`.
pub open spec fn bare_set(ms: Seq<Seq<char>>) -> Set<Seq<char>>
    decreases ms.len(),
{
    if ms.len() == 0 {
        Set::empty()
    } else {
        bare_set(ms.drop_last()).insert(bare(ms.last()))
    }
}

/// The ticket references in those of `lines` that are not blank.
pub open spec fn tickets_in_lines(lines: Seq<Seq<char>>) -> Set<Seq<char>>
    decreases lines.len(),
{
    if lines.len() == 0 {
        Set::empty()
    } else if text::trim(lines.last()).len() == 0 {
        tickets_in_lines(lines.drop_last())
    } else {
        tickets_in_lines(lines.drop_last()).union(tickets_in(lines.last()))
    }
}

/// A match without what precedes its first `#`.
fn bare_of(m: &str) -> (r: String)
    ensures
        r@ == bare(m@),
{
    let v = text::chars_of(m);
    let mut mark: Vec<char> = Vec::new();
    mark.push('#');
    assert(mark@ =~= seq!['#']);
    let from = match text::position(&v, &mark, 0) {
        Some(i) => i,
        None => 0,
    };
    proof {
        text::lemma_find_from(v@, mark@, 0);
        assert(v@.subrange(from as int, v@.len() as int) =~= v@.skip(from as int));
        assert(v@.skip(0) =~= v@);
    }
    text::string_from(&v, from)
}

/// Puts the ticket references among `found` into `out`.
pub fn collect_bare(found: &Vec<String>, out: &mut StringSet)
    requires
        old(out).wf(),
    ensures
        final(out).wf(),
        final(out)@ == old(out)@.union(bare_set(text::views(found@))),
{
    let ghost ms = text::views(found@);
    let ghost start = out@;
    let mut i: usize = 0;
    assert(start.union(Set::empty()) =~= start);
    while i < found.len()
        invariant
            i <= found@.len(),
            ms == text::views(found@),
            out.wf(),
            out@ == start.union(bare_set(ms.take(i as int))),
        decreases found@.len() - i,
    {
        out.insert(bare_of(found[i].as_str()));
        proof {
            let part = ms.take(i + 1);
            assert(part.drop_last() =~= ms.take(i as int));
            assert(start.union(bare_set(ms.take(i as int))).insert(bare(ms[i as int]))
                =~= start.union(bare_set(part)));
        }
        i += 1;
    }
    assert(ms.take(ms.len() as int) =~= ms);
}

/// Puts the ticket references in `line` into `out`.
pub fn extract_tickets_into(line: &str, out: &mut StringSet)
    requires
        old(out).wf(),
    ensures
        final(out).wf(),
        final(out)@ == old(out)@.union(tickets_in(line@)),
{
    let mut texts: Vec<String> = Vec::new();
    texts.push(line.to_owned());
    let found = find_in_each(TICKET_PATTERN, &texts);
    collect_bare(&found[0], out);
}

/// The ticket references in those of `lines` that are not blank, in ascending
/// order.
pub fn tickets_of(lines: &Vec<String>) -> (r: Vec<String>)
    ensures
        crate::string_set::ascending(text::views(r@)),
        text::views(r@).to_set() == tickets_in_lines(text::views(lines@)),
{
    let found = find_in_each(TICKET_PATTERN, lines);
    let ghost vs = text::views(lines@);
    let mut out = StringSet::new();
    let mut i: usize = 0;
    while i < lines.len()
        invariant
            i <= lines@.len(),
            vs == text::views(lines@),
            found@.len() == lines@.len(),
            forall|k: int|
                0 <= k < found@.len() ==> text::views(#[trigger] found@[k]@) == regex_matches(
                    TICKET_PATTERN@,
                    lines@[k]@,
                ),
            out.wf(),
            out@ == tickets_in_lines(vs.take(i as int)),
        decreases lines@.len() - i,
    {
        assert(vs.take(i + 1).drop_last() =~= vs.take(i as int));
        if !text::is_blank(lines[i].as_str()) {
            collect_bare(&found[i], &mut out);
        }
        i += 1;
    }
    assert(vs.take(vs.len() as int) =~= vs);
    out.into_vec()
}

/// Whether a query in upper case is a ticket reference as a whole.
pub fn is_ticket_query(query: &str) -> (r: bool)
    ensures
        r == regex_accepts(TICKET_QUERY_PATTERN@, query@),
{
    matches_pattern(TICKET_QUERY_PATTERN, query)
}

/// The reference in a match begins with its first hash, and is the whole match where it
/// has none.
pub proof fn references_begin_with_their_hash(a: Seq<char>, b: Seq<char>)
    requires
        forall|i: int| 0 <= i < a.len() ==> #[trigger] a[i] != '#',
    ensures
        bare(a + seq!['#'] + b) == seq!['#'] + b,
        bare(a) == a,
{
    let hash = seq!['#'];
    let m = a + hash + b;
    assert(text::find_from(m, hash, 0) == Some(a.len() as int)) by {
        text::lemma_find_from(m, hash, 0);
        assert(m.subrange(a.len() as int, a.len() as int + 1) =~= hash);
        assert(text::occurs_at(m, hash, a.len() as int));
        if let Some(i) = text::find_from(m, hash, 0) {
            assert(m.subrange(i, i + 1)[0] == m[i]);
            if i < a.len() {
                assert(m[i] == a[i]);
            }
        }
    }
    assert(m.skip(a.len() as int) =~= hash + b);
    assert(text::find_from(a, hash, 0) is None) by {
        text::lemma_find_from(a, hash, 0);
        if let Some(i) = text::find_from(a, hash, 0) {
            assert(a.subrange(i, i + 1)[0] == a[i]);
        }
    }
}

/// The tickets of a session are those that the pattern finds in any of its lines that are
/// not blank.
pub proof fn tickets_are_those_of_any_line(
    x: Seq<Seq<char>>,
    line: Seq<char>,
    y: Seq<Seq<char>>,
    k: int,
    t: Seq<char>,
)
    ensures
        tickets_in_lines(x + y).contains(t) <==> tickets_in_lines(x).contains(t)
            || tickets_in_lines(y).contains(t),
        ({
            let found = regex_matches(TICKET_PATTERN@, line);
            0 <= k < found.len() && !text::all_blank(line) ==> tickets_in_lines(
                seq![line],
            ).contains(bare(found[k]))
        }),
        text::all_blank(line) ==> !tickets_in_lines(seq![line]).contains(t),
    decreases y.len(),
{
    let found = regex_matches(TICKET_PATTERN@, line);
    assert(seq![line].drop_last() =~= Seq::<Seq<char>>::empty());
    assert(tickets_in_lines(Seq::empty()) == Set::<Seq<char>>::empty());
    if text::all_blank(line) {
        text::trimming_leaves_nothing_of_blanks(line);
    } else {
        text::text_has_a_core(line);
        let (a, core, b) = choose|a: Seq<char>, core: Seq<char>, b: Seq<char>|
            #![trigger a + core + b]
            line == a + core + b && text::all_blank(a) && text::is_core(core) && text::all_blank(b);
        text::trimming_leaves_the_core(a, core, b);
        if 0 <= k < found.len() {
            each_match_is_kept(found, k);
        }
    }
    if y.len() == 0 {
        assert(x + y =~= x);
    } else {
        tickets_are_those_of_any_line(x, line, y.drop_last(), k, t);
        assert((x + y).drop_last() =~= x + y.drop_last());
    }
}

proof fn each_match_is_kept(ms: Seq<Seq<char>>, k: int)
    requires
        0 <= k < ms.len(),
    ensures
        bare_set(ms).contains(bare(ms[k])),
    decreases ms.len(),
{
    if k < ms.len() - 1 {
        each_match_is_kept(ms.drop_last(), k);
    }
}

/// The patterns of ticket references.
pub proof fn patterns_are_these()
    ensures
        TICKET_PATTERN@
            == "\\b[A-Z][A-Z0-9]{1,9}-\\d{1,7}\\b|(?:^|[^A-Za-z0-9_])#\\d{1,7}\\b"@,
        TICKET_QUERY_PATTERN@ == "^[A-Z][A-Z0-9]{1,9}-\\d{1,7}$|^#\\d{1,7}$"@,
{
}

} // verus!
