//! How well a session answers a search.

use crate::conversation;
use crate::json::JsonView;
use crate::parser;
use crate::scan;
use crate::session::{SessionMeta, SessionView};
use crate::text;
use crate::text_cache;
use crate::text_cache::TextCache;
use crate::ticket;
use rayon::iter::{IntoParallelRefIterator, ParallelIterator};
use vstd::prelude::*;

verus! {

/// `memchr::memmem::find` yields the first place where the needle stands in
/// the haystack, and nothing where it stands nowhere.
pub assume_specification[ memchr::memmem::find ](haystack: &[u8], needle: &[u8]) -> (r: Option<
    usize,
>)
    ensures
        match r {
            Some(i) => text::find_from(haystack@, needle@, 0) == Some(i as int),
            None => text::find_from(haystack@, needle@, 0) is None,
        },
;

/// Whether the bytes of `token` stand in those of `field`.
pub open spec fn holds(field: Seq<char>, token: Seq<char>) -> bool {
    text::contains(vstd::utf8::encode_utf8(field), vstd::utf8::encode_utf8(token))
}

/// Whether a byte is an ASCII letter or digit.
pub open spec fn ascii_alphanumeric(b: u8) -> bool {
    48 <= b <= 57 || 65 <= b <= 90 || 97 <= b <= 122
}

/// Whether one of the occurrences of the needle from `from` on, taken from left
/// to right without overlap, starts the text or follows a byte that is no ASCII
/// letter or digit.
pub open spec fn begins_word(hay: Seq<u8>, needle: Seq<u8>, from: int) -> bool
    decreases hay.len() - from,
    when 0 <= from <= hay.len() && needle.len() > 0
    via begins_word_decreases
{
    match text::find_from(hay, needle, from) {
        Some(i) => i == 0 || !ascii_alphanumeric(hay[i - 1]) || begins_word(
            hay,
            needle,
            i + needle.len(),
        ),
        None => false,
    }
}

#[via_fn]
proof fn begins_word_decreases(hay: Seq<u8>, needle: Seq<u8>, from: int) {
    text::lemma_find_from(hay, needle, from);
}

/// Whether `token` starts a word of `field`.
pub open spec fn starts_word(field: Seq<char>, token: Seq<char>) -> bool {
    vstd::utf8::encode_utf8(token).len() > 0 && begins_word(vstd::utf8::encode_utf8(field), vstd::utf8::encode_utf8(token), 0)
}

/// What a token scores in the name or title, the project, or the branch of a
/// session: the first of these that holds it counts.
pub open spec fn field_score(s: SessionView, token: Seq<char>) -> int {
    if holds(s.name_lc, token) || holds(s.title_lc, token) {
        if starts_word(s.name_lc, token) || starts_word(s.title_lc, token) {
            550
        } else {
            500
        }
    } else if holds(s.project_lc, token) {
        400
    } else if holds(s.branch_lc, token) {
        300
    } else {
        0
    }
}

/// What a token scores in a session with the searchable text `body`, if it
/// stands anywhere in it.
pub open spec fn token_score(s: SessionView, body: Seq<u8>, token: Seq<char>) -> Option<int> {
    if field_score(s, token) > 0 {
        Some(field_score(s, token))
    } else if holds(s.changed_files_lc, token) {
        Some(200)
    } else if text::contains(body, vstd::utf8::encode_utf8(token)) {
        Some(100)
    } else {
        None
    }
}

/// What a session scores: each token has to stand somewhere in it. A session
/// about the very ticket asked for scores in any case, and higher.
pub open spec fn score(s: SessionView, body: Seq<u8>, tokens: Seq<Seq<char>>, ticket: bool) -> Option<
    int,
>
    decreases tokens.len(),
{
    if tokens.len() == 0 {
        Some(
            if ticket {
                1000
            } else {
                0
            },
        )
    } else {
        match score(s, body, tokens.drop_last(), ticket) {
            Some(n) => if ticket {
                Some(n + field_score(s, tokens.last()))
            } else {
                match token_score(s, body, tokens.last()) {
                    Some(m) => Some(n + m),
                    None => None,
                }
            },
            None => None,
        }
    }
}

/// Whether the bytes `needle` stand in `hay`.
pub(crate) fn holds_bytes(hay: &[u8], needle: &[u8]) -> (r: bool)
    ensures
        r == text::contains(hay@, needle@),
{
    proof {
        text::lemma_find_from(hay@, needle@, 0);
    }
    memchr::memmem::find(hay, needle).is_some()
}

/// Whether `token` stands in `field`.
fn is_held(field: &String, token: &str) -> (r: bool)
    ensures
        r == holds(field@, token@),
{
    holds_bytes(field.as_str().as_bytes(), token.as_bytes())
}

/// Whether the needle starts a word of the haystack at one of its occurrences.
pub fn starts_at_word_boundary(haystack: &[u8], needle: &[u8]) -> (r: bool)
    ensures
        r == (needle@.len() > 0 && begins_word(haystack@, needle@, 0)),
{
    if needle.len() == 0 {
        return false;
    }
    let mut from: usize = 0;
    while from <= haystack.len()
        invariant
            needle@.len() > 0,
            from <= haystack@.len(),
            begins_word(haystack@, needle@, 0) == begins_word(haystack@, needle@, from as int),
        decreases haystack@.len() - from,
    {
        let rest = vstd::slice::slice_subrange(haystack, from, haystack.len());
        proof {
            assert(rest@ =~= haystack@.skip(from as int));
            find_from_shifts(haystack@, needle@, from as int, 0);
            text::lemma_find_from(rest@, needle@, 0);
        }
        match memchr::memmem::find(rest, needle) {
            Some(i) => {
                let at = from + i;
                if at == 0 {
                    return true;
                }
                let b = haystack[at - 1];
                let inside = (48 <= b && b <= 57) || (65 <= b && b <= 90) || (97 <= b && b <= 122);
                if !inside {
                    return true;
                }
                from = at + needle.len();
            },
            None => {
                return false;
            },
        }
    }
    false
}

/// Searching the rest of a text finds what searching the text from there does.
proof fn find_from_shifts(hay: Seq<u8>, needle: Seq<u8>, from: int, i: int)
    requires
        0 <= from <= hay.len(),
        0 <= i <= hay.len() - from + 1,
    ensures
        text::find_from(hay, needle, from + i) == match text::find_from(hay.skip(from), needle, i) {
            Some(k) => Some(from + k),
            None => None,
        },
    decreases hay.len() - from - i + 1,
{
    let rest = hay.skip(from);
    if i + needle.len() <= rest.len() {
        assert(hay.subrange(from + i, from + i + needle.len()) =~= rest.subrange(
            i,
            i + needle.len(),
        ));
        find_from_shifts(hay, needle, from, i + 1);
    }
}

/// What a token scores in the fields of a session.
fn field_score_of(s: &SessionMeta, token: &str) -> (r: i128)
    ensures
        r == field_score(s@, token@),
        0 <= r <= 550,
{
    let t = token.as_bytes();
    let name = s.name_lc.as_str().as_bytes();
    let title = s.title_lc.as_str().as_bytes();
    if is_held(&s.name_lc, token) || is_held(&s.title_lc, token) {
        if starts_at_word_boundary(name, t) || starts_at_word_boundary(title, t) {
            550
        } else {
            500
        }
    } else if is_held(&s.project_lc, token) {
        400
    } else if is_held(&s.branch_lc, token) {
        300
    } else {
        0
    }
}

/// What a session with the searchable text `body` scores.
pub fn score_session(s: &SessionMeta, body: &[u8], tokens: &Vec<String>, ticket: bool) -> (r: Option<
    i128,
>)
    ensures
        match r {
            Some(n) => score(s@, body@, text::views(tokens@), ticket) == Some(n as int),
            None => score(s@, body@, text::views(tokens@), ticket) is None,
        },
        r matches Some(n) ==> 0 <= n <= 1000 + 550 * tokens@.len(),
{
    let ghost all = text::views(tokens@);
    let mut n: i128 = if ticket {
        1000
    } else {
        0
    };
    let mut i: usize = 0;
    while i < tokens.len()
        invariant
            i <= tokens@.len(),
            all == text::views(tokens@),
            score(s@, body@, all.take(i as int), ticket) == Some(n as int),
            0 <= n <= 1000 + 550 * i,
        decreases tokens@.len() - i,
    {
        let token = tokens[i].as_str();
        assert(all.take(i + 1).drop_last() =~= all.take(i as int));
        let in_fields = field_score_of(s, token);
        if ticket || in_fields > 0 {
            n = n + in_fields;
        } else if is_held(&s.changed_files_lc, token) {
            n = n + 200;
        } else if holds_bytes(body, token.as_bytes()) {
            n = n + 100;
        } else {
            proof {
                score_ends(s@, body@, all, ticket, i + 1);
            }
            return None;
        }
        i += 1;
    }
    assert(all.take(i as int) =~= all);
    Some(n)
}

/// A session that does not answer the first tokens does not answer all.
proof fn score_ends(s: SessionView, body: Seq<u8>, tokens: Seq<Seq<char>>, ticket: bool, n: int)
    requires
        0 <= n <= tokens.len(),
        score(s, body, tokens.take(n), ticket) is None,
    ensures
        score(s, body, tokens, ticket) is None,
    decreases tokens.len() - n,
{
    if n < tokens.len() {
        assert(tokens.take(n + 1).drop_last() =~= tokens.take(n));
        score_ends(s, body, tokens, ticket, n + 1);
    } else {
        assert(tokens.take(n) =~= tokens);
    }
}

/// A search: its words in lower case, and the ticket in upper case if the whole
/// of it is one.
pub struct Query {
    pub tokens: Vec<String>,
    pub ticket: Option<String>,
}

/// A search, over texts.
#[verifier::ext_equal]
pub struct QueryView {
    pub tokens: Seq<Seq<char>>,
    pub ticket: Option<Seq<char>>,
}

impl View for Query {
    type V = QueryView;

    open spec fn view(&self) -> QueryView {
        QueryView {
            tokens: text::views(self.tokens@),
            ticket: match self.ticket {
                Some(t) => Some(t@),
                None => None,
            },
        }
    }
}

/// The search that a text asks for.
pub open spec fn query_of(q: Seq<char>) -> QueryView {
    let upper = text::ascii_uppercase(q);
    QueryView {
        tokens: text::words(text::lowercase(q)),
        ticket: if ticket::regex_accepts(ticket::TICKET_QUERY_PATTERN@, upper) {
            Some(upper)
        } else {
            None
        },
    }
}

/// The search that a text asks for.
pub fn parse_query(q: &str) -> (r: Query)
    ensures
        r@ == query_of(q@),
{
    let lower = q.to_lowercase();
    let upper = text::uppercased(q);
    let tokens = text::words_of(lower.as_str());
    let ticket = if ticket::is_ticket_query(upper.as_str()) {
        Some(upper)
    } else {
        None
    };
    Query { tokens, ticket }
}

/// Whether a session is about the ticket that a search asks for.
pub open spec fn ticket_hit(s: SessionView, query: QueryView) -> bool {
    query.ticket is Some && s.tickets.contains(query.ticket->0)
}

/// What a session scores for a search, its text being in the text cache.
pub open spec fn match_score(s: SessionView, cache: Seq<u8>, query: QueryView) -> Option<int> {
    score(
        s,
        text_cache::piece(cache, s.text_offset, s.text_len),
        query.tokens,
        ticket_hit(s, query),
    )
}

/// Whether `t` is one of the texts.
fn is_among(v: &Vec<String>, t: &str) -> (r: bool)
    ensures
        r == text::views(v@).contains(t@),
{
    let mut i: usize = 0;
    while i < v.len()
        invariant
            i <= v@.len(),
            forall|k: int| 0 <= k < i ==> #[trigger] text::views(v@)[k] != t@,
        decreases v@.len() - i,
    {
        if text::text_eq(v[i].as_str(), t) {
            assert(text::views(v@)[i as int] == t@);
            return true;
        }
        assert(text::views(v@)[i as int] != t@);
        i += 1;
    }
    false
}

/// What a session scores for a search.
pub fn match_session(s: &SessionMeta, cache: &TextCache, query: &Query) -> (r: Option<i128>)
    ensures
        match r {
            Some(n) => match_score(s@, cache@, query@) == Some(n as int),
            None => match_score(s@, cache@, query@) is None,
        },
        r matches Some(n) ==> 0 <= n <= 1000 + 550 * query.tokens@.len(),
{
    let ticket = match &query.ticket {
        Some(t) => is_among(&s.tickets, t.as_str()),
        None => false,
    };
    let body = cache.slice(s.text_offset, s.text_len);
    score_session(s, body, &query.tokens, ticket)
}

/// `rayon`'s parallel iterator over a list maps each session by
/// `match_session`, and collects the results in the order of the list.
#[verifier::external_body]
pub(crate) fn match_each(sessions: &Vec<SessionMeta>, cache: &TextCache, query: &Query) -> (r: Vec<Option<i128>>)
    ensures
        r@.len() == sessions@.len(),
        forall|i: int|
            0 <= i < r@.len() ==> match #[trigger] r@[i] {
                Some(n) => match_score(sessions@[i]@, cache@, query@) == Some(n as int) && 0 <= n
                    <= 1000 + 550 * query.tokens@.len(),
                None => match_score(sessions@[i]@, cache@, query@) is None,
            },
{
    sessions.par_iter().map(|s| match_session(s, cache, query)).collect()
}

/// Without a ticket, a session answers a search exactly where every token
/// stands somewhere in it; with the very ticket asked for it always does.
pub proof fn every_token_counts(
    s: SessionView,
    body: Seq<u8>,
    tokens: Seq<Seq<char>>,
    ticket: bool,
)
    ensures
        score(s, body, tokens, ticket) is Some <==> (ticket || forall|i: int|
            0 <= i < tokens.len() ==> token_score(s, body, #[trigger] tokens[i]) is Some),
    decreases tokens.len(),
{
    if tokens.len() > 0 {
        let front = tokens.drop_last();
        every_token_counts(s, body, front, ticket);
        if !ticket && score(s, body, tokens, ticket) is Some {
            assert forall|i: int| 0 <= i < tokens.len() implies token_score(
                s,
                body,
                #[trigger] tokens[i],
            ) is Some by {
                if i < front.len() {
                    assert(front[i] == tokens[i]);
                }
            }
        }
        if !ticket && score(s, body, tokens, ticket) is None {
            if token_score(s, body, tokens.last()) is Some {
                let i = choose|i: int|
                    0 <= i < front.len() && token_score(s, body, #[trigger] front[i]) is None;
                assert(tokens[i] == front[i]);
            } else {
                assert(tokens[tokens.len() - 1] == tokens.last());
            }
        }
    }
}

/// The bounds of a score: a token that stands in a session scores between 100
/// and 550, and a ticket adds 1000.
pub proof fn score_bounds(s: SessionView, body: Seq<u8>, tokens: Seq<Seq<char>>, ticket: bool)
    ensures
        score(s, body, tokens, ticket) matches Some(n) ==> {
            &&& ticket ==> 1000 <= n <= 1000 + 550 * tokens.len()
            &&& !ticket ==> 100 * tokens.len() <= n <= 550 * tokens.len()
        },
    decreases tokens.len(),
{
    if tokens.len() > 0 {
        score_bounds(s, body, tokens.drop_last(), ticket);
    }
}

/// A session about the ticket asked for outranks every session that is not, in
/// a search of one word.
pub proof fn ticket_outranks(
    a: SessionView,
    b: SessionView,
    body_a: Seq<u8>,
    body_b: Seq<u8>,
    tokens: Seq<Seq<char>>,
)
    requires
        tokens.len() <= 1,
    ensures
        score(a, body_a, tokens, true) is Some,
        score(b, body_b, tokens, false) matches Some(n) ==> score(a, body_a, tokens, true)->0 > n,
{
    every_token_counts(a, body_a, tokens, true);
    score_bounds(a, body_a, tokens, true);
    score_bounds(b, body_b, tokens, false);
}

/// In a search of one word, a session that has it in a more telling place
/// outranks one that has it only in a less telling one: the name or title come
/// first, then the project, the branch, the changed files and the text.
pub proof fn places_outrank(
    a: SessionView,
    b: SessionView,
    body_a: Seq<u8>,
    body_b: Seq<u8>,
    token: Seq<char>,
)
    ensures
        ({
            let named_a = holds(a.name_lc, token) || holds(a.title_lc, token);
            let named_b = holds(b.name_lc, token) || holds(b.title_lc, token);
            let x = token_score(a, body_a, token);
            let y = token_score(b, body_b, token);
            &&& named_a && !named_b && y is Some ==> x->0 > y->0
            &&& holds(a.project_lc, token) && !named_b && !holds(b.project_lc, token) && y is Some
                ==> x->0 > y->0
            &&& holds(a.branch_lc, token) && !named_b && !holds(b.project_lc, token) && !holds(
                b.branch_lc,
                token,
            ) && y is Some ==> x->0 > y->0
            &&& holds(a.changed_files_lc, token) && field_score(b, token) == 0 && !holds(
                b.changed_files_lc,
                token,
            ) && y is Some ==> x->0 > y->0
        }),
{
}

/// The encoding of two texts one after the other.
pub proof fn encoding_joins(a: Seq<char>, b: Seq<char>)
    ensures
        vstd::utf8::encode_utf8(a + b) == vstd::utf8::encode_utf8(a) + vstd::utf8::encode_utf8(b),
    decreases a.len(),
{
    if a.len() == 0 {
        assert(a + b =~= b);
        assert(vstd::utf8::encode_utf8(a) + vstd::utf8::encode_utf8(b)
            =~= vstd::utf8::encode_utf8(b));
    } else {
        encoding_joins(a.drop_first(), b);
        assert((a + b).drop_first() =~= a.drop_first() + b);
        assert((a + b)[0] == a[0]);
        let first = vstd::utf8::encode_scalar(a[0] as u32);
        let rest = vstd::utf8::encode_utf8(a.drop_first());
        assert(first + (rest + vstd::utf8::encode_utf8(b))
            =~= (first + rest) + vstd::utf8::encode_utf8(b));
    }
}

/// What stands in a text stands in its encoding.
proof fn encoding_keeps_contents(hay: Seq<char>, needle: Seq<char>)
    requires
        text::contains(hay, needle),
    ensures
        holds(hay, needle),
{
    let i = choose|i: int| text::occurs_at(hay, needle, i);
    let front = hay.take(i);
    let back = hay.skip(i + needle.len());
    assert(hay =~= front + (needle + back));
    encoding_joins(front, needle + back);
    encoding_joins(needle, back);
    let at = vstd::utf8::encode_utf8(front).len() as int;
    let found = vstd::utf8::encode_utf8(needle);
    assert(vstd::utf8::encode_utf8(hay).subrange(at, at + found.len()) =~= found);
    assert(text::occurs_at(vstd::utf8::encode_utf8(hay), found, at));
}

/// Whether a person wrote `word` in one of their messages, but for its case.
pub open spec fn is_written(es: Seq<JsonView>, word: Seq<char>) -> bool {
    exists|i: int|
        0 <= i < es.len() && scan::is_spoken(#[trigger] es[i]) && text::contains(
            text::lowercase(text::trim(parser::content_text(es[i])->0)),
            word,
        )
}

/// A session is found by any words that a person wrote in it: where each token
/// stands in one of the messages, the session answers the search.
pub proof fn written_words_are_found(
    es: Seq<JsonView>,
    s: SessionView,
    tokens: Seq<Seq<char>>,
    ticket: bool,
)
    requires
        forall|k: int| 0 <= k < tokens.len() ==> is_written(es, #[trigger] tokens[k]),
    ensures
        score(s, vstd::utf8::encode_utf8(scan::search_text(es)), tokens, ticket) is Some,
{
    let body = scan::search_text(es);
    assert forall|k: int| 0 <= k < tokens.len() implies token_score(
        s,
        vstd::utf8::encode_utf8(body),
        #[trigger] tokens[k],
    ) is Some by {
        let word = tokens[k];
        assert(is_written(es, word));
        let i = choose|i: int|
            0 <= i < es.len() && scan::is_spoken(#[trigger] es[i]) && text::contains(
                text::lowercase(text::trim(parser::content_text(es[i])->0)),
                word,
            );
        let message = text::lowercase(text::trim(parser::content_text(es[i])->0));
        conversation::messages_are_searchable(es, i);
        let outer = choose|at: int| text::occurs_at(body, message, at);
        let inner = choose|at: int| text::occurs_at(message, word, at);
        let at = outer + inner;
        assert(body.subrange(outer, outer + message.len()) == message);
        assert(body.subrange(at, at + word.len()) =~= message.subrange(inner, inner + word.len()));
        assert(text::occurs_at(body, word, at));
        encoding_keeps_contents(body, word);
    }
    every_token_counts(s, vstd::utf8::encode_utf8(body), tokens, ticket);
}

/// Without a ticket the scores of words add up, and each of them has to be found;
/// with one, what they score in name, title, project and branch adds to 1000.
pub proof fn scores_add_up(s: SessionView, body: Seq<u8>, x: Seq<Seq<char>>, y: Seq<Seq<char>>)
    ensures
        score(s, body, x + y, false) is Some <==> score(s, body, x, false) is Some && score(
            s,
            body,
            y,
            false,
        ) is Some,
        score(s, body, x + y, false) is Some ==> score(s, body, x + y, false)->0 == score(
            s,
            body,
            x,
            false,
        )->0 + score(s, body, y, false)->0,
        score(s, body, x + y, true) is Some,
        score(s, body, x + y, true)->0 == score(s, body, x, true)->0 + score(s, body, y, true)->0
            - 1000,
    decreases y.len(),
{
    every_token_counts(s, body, x, true);
    every_token_counts(s, body, y, true);
    every_token_counts(s, body, x + y, true);
    if y.len() == 0 {
        assert(x + y =~= x);
    } else {
        scores_add_up(s, body, x, y.drop_last());
        every_token_counts(s, body, y.drop_last(), true);
        assert((x + y).drop_last() =~= x + y.drop_last());
        assert((x + y).last() == y.last());
    }
}

/// What one word scores: without a ticket as its place tells, and nothing where it
/// stands nowhere.
pub proof fn one_word_scores_by_its_place(s: SessionView, body: Seq<u8>, word: Seq<char>)
    ensures
        score(s, body, seq![word], false) == token_score(s, body, word),
        score(s, body, Seq::empty(), false) == Some(0int),
        score(s, body, Seq::empty(), true) == Some(1000int),
        score(s, body, seq![word], true) == Some(1000 + field_score(s, word)),
{
    assert(seq![word].drop_last() =~= Seq::<Seq<char>>::empty());
    assert(score(s, body, Seq::empty(), false) == Some(0int));
    assert(score(s, body, Seq::empty(), true) == Some(1000int));
}

/// A word that stands in a field is found there, wherever in the field that is.
pub proof fn any_part_of_a_field_is_found(a: Seq<char>, word: Seq<char>, b: Seq<char>)
    ensures
        holds(a + word + b, word),
{
    text::infix_is_found(a, word, b);
    encoding_keeps_contents(a + word + b, word);
}

/// The places where a word may stand, from the most telling on: name and title,
/// project, branch, changed files, and at last the text. The first of them counts,
/// wherever in it the word stands, and a word that stands in none is not found.
pub proof fn places_are_ranked(
    s: SessionView,
    body: Seq<u8>,
    a: Seq<char>,
    word: Seq<char>,
    b: Seq<char>,
)
    ensures
        ({
            let w = vstd::utf8::encode_utf8(word);
            let named = text::contains(vstd::utf8::encode_utf8(s.name_lc), w) || text::contains(
                vstd::utf8::encode_utf8(s.title_lc),
                w,
            );
            let in_project = text::contains(vstd::utf8::encode_utf8(s.project_lc), w);
            let in_branch = text::contains(vstd::utf8::encode_utf8(s.branch_lc), w);
            let in_files = text::contains(vstd::utf8::encode_utf8(s.changed_files_lc), w);
            let in_text = text::contains(body, w);
            let found = token_score(s, body, word);
            &&& s.name_lc == a + word + b || s.title_lc == a + word + b ==> found == Some(500int)
                || found == Some(550int)
            &&& named ==> found == Some(500int) || found == Some(550int)
            &&& s.project_lc == a + word + b && !named ==> found == Some(400int)
            &&& in_project && !named ==> found == Some(400int)
            &&& s.branch_lc == a + word + b && !named && !in_project ==> found == Some(300int)
            &&& in_branch && !named && !in_project ==> found == Some(300int)
            &&& s.changed_files_lc == a + word + b && !named && !in_project && !in_branch ==> found
                == Some(200int)
            &&& in_files && !named && !in_project && !in_branch ==> found == Some(200int)
            &&& in_text && !named && !in_project && !in_branch && !in_files ==> found == Some(
                100int,
            )
            &&& !in_text && !named && !in_project && !in_branch && !in_files ==> found is None
        }),
{
    any_part_of_a_field_is_found(a, word, b);
}

/// A word that starts a name or title counts for more, and so does one whose first
/// occurrence there follows what is no ASCII letter or digit.
pub proof fn word_starts_count_for_more(
    s: SessionView,
    body: Seq<u8>,
    field: Seq<char>,
    a: Seq<u8>,
    word: Seq<char>,
    b: Seq<u8>,
)
    requires
        field == s.name_lc || field == s.title_lc,
        vstd::utf8::encode_utf8(word).len() > 0,
        vstd::utf8::encode_utf8(field) == a + vstd::utf8::encode_utf8(word) + b,
        !text::contains(a + vstd::utf8::encode_utf8(word).drop_last(), vstd::utf8::encode_utf8(word)),
        a.len() == 0 || !(48 <= a.last() <= 57 || 65 <= a.last() <= 90 || 97 <= a.last() <= 122),
    ensures
        token_score(s, body, word) == Some(550int),
{
    let w = vstd::utf8::encode_utf8(word);
    let f = vstd::utf8::encode_utf8(field);
    text::infix_is_found(a, w, b);
    text::lemma_find_from(f, w, 0);
    let i = text::find_from(f, w, 0)->0;
    let at = a.len() as int;
    assert(f.subrange(at, at + w.len()) =~= w);
    assert(text::occurs_at(f, w, at));
    if i < a.len() {
        let front = a + w.drop_last();
        assert(front.subrange(i, i + w.len()) =~= f.subrange(i, i + w.len()));
        assert(text::occurs_at(front, w, i));
    }
    assert(i == a.len());
    assert(a.len() > 0 ==> f[i - 1] == a.last());
    assert(begins_word(f, w, 0));
}

/// A word that stands in name and title only behind ASCII letters or digits does not
/// count for more.
pub proof fn parts_of_words_count_for_less(s: SessionView, body: Seq<u8>, word: Seq<char>)
    requires
        holds(s.name_lc, word) || holds(s.title_lc, word),
        forall|i: int|
            #[trigger] text::occurs_at(
                vstd::utf8::encode_utf8(s.name_lc),
                vstd::utf8::encode_utf8(word),
                i,
            ) ==> i > 0 && ascii_alphanumeric(vstd::utf8::encode_utf8(s.name_lc)[i - 1]),
        forall|i: int|
            #[trigger] text::occurs_at(
                vstd::utf8::encode_utf8(s.title_lc),
                vstd::utf8::encode_utf8(word),
                i,
            ) ==> i > 0 && ascii_alphanumeric(vstd::utf8::encode_utf8(s.title_lc)[i - 1]),
    ensures
        token_score(s, body, word) == Some(500int),
{
    let w = vstd::utf8::encode_utf8(word);
    if w.len() > 0 {
        no_word_begins(vstd::utf8::encode_utf8(s.name_lc), w, 0);
        no_word_begins(vstd::utf8::encode_utf8(s.title_lc), w, 0);
    }
}

proof fn no_word_begins(hay: Seq<u8>, needle: Seq<u8>, from: int)
    requires
        0 <= from <= hay.len(),
        needle.len() > 0,
        forall|i: int|
            #[trigger] text::occurs_at(hay, needle, i) ==> i > 0 && ascii_alphanumeric(hay[i - 1]),
    ensures
        !begins_word(hay, needle, from),
    decreases hay.len() - from,
{
    text::lemma_find_from(hay, needle, from);
    match text::find_from(hay, needle, from) {
        Some(i) => {
            assert(text::occurs_at(hay, needle, i));
            no_word_begins(hay, needle, i + needle.len());
        },
        None => {},
    }
}

/// The ASCII letters and digits are the bytes from 0 to 9, from A to Z and from a to
/// z.
pub proof fn letters_and_digits_are_these(b: u8)
    ensures
        ascii_alphanumeric(b) <==> 48 <= b <= 57 || 65 <= b <= 90 || 97 <= b <= 122,
{
}

/// A search asks for the words of its text in lower case, and for a ticket where the
/// whole text in upper case is one; a session about that ticket is found whatever
/// its text holds.
pub proof fn searches_ask_for_words_and_tickets(
    s: SessionView,
    cache: Seq<u8>,
    q: Seq<char>,
)
    ensures
        query_of(q).tokens == text::words(text::lowercase(q)),
        ticket::regex_accepts(
            "^[A-Z][A-Z0-9]{1,9}-\\d{1,7}$|^#\\d{1,7}$"@,
            text::ascii_uppercase(q),
        ) && s.tickets.contains(text::ascii_uppercase(q)) ==> match_score(s, cache, query_of(q))
            is Some && match_score(s, cache, query_of(q))->0 >= 1000,
        !s.tickets.contains(text::ascii_uppercase(q)) ==> match_score(s, cache, query_of(q))
            == score(
            s,
            text_cache::piece(cache, s.text_offset, s.text_len),
            text::words(text::lowercase(q)),
            false,
        ),
{
    let body = text_cache::piece(cache, s.text_offset, s.text_len);
    every_token_counts(s, body, query_of(q).tokens, true);
    score_bounds(s, body, query_of(q).tokens, true);
}

/// A session is found by any word of what was said, thought, asked of a tool or
/// answered by one in it, however long that was.
pub proof fn said_words_are_found(
    es: Seq<JsonView>,
    i: int,
    blocks: Seq<JsonView>,
    j: int,
    a: Seq<char>,
    core: Seq<char>,
    b: Seq<char>,
    word: Seq<char>,
    s: SessionView,
    ticket: bool,
)
    requires
        0 <= i < es.len(),
        es[i].field("message"@) is Some,
        es[i].field("message"@)->0.field("content"@) == Some(JsonView::List(blocks)),
        0 <= j < blocks.len(),
        text::all_blank(a),
        text::is_core(core),
        text::all_blank(b),
        parser::holds_piece(blocks[j], a + core + b),
        blocks[j].text_at("type"@) == Some("text"@) ==> {
            &&& !text::begins(core, "<command-name>"@)
            &&& !text::begins(core, "<command-message>"@)
            &&& !text::begins(core, "<local-command-stdout>"@)
            &&& !text::begins(core, "<local-command-caveat>"@)
            &&& !text::begins(core, "<task-notification>"@)
            &&& !text::begins(core, "<system-reminder>"@)
        },
        text::contains(text::lowercase(core), word),
    ensures
        score(s, vstd::utf8::encode_utf8(scan::search_text(es)), seq![word], ticket) is Some,
{
    let all = scan::search_text(es);
    scan::all_pieces_are_searchable(es, i, blocks, j, a, core, b);
    text::found_is_infix(all, text::lowercase(core));
    let (x, y) = choose|x: Seq<char>, y: Seq<char>|
        all == #[trigger] (x + text::lowercase(core) + y);
    text::found_in_part_is_found(x, text::lowercase(core), y, word);
    encoding_keeps_contents(all, word);
    let body = vstd::utf8::encode_utf8(all);
    every_token_counts(s, body, seq![word], ticket);
    assert forall|k: int| 0 <= k < seq![word].len() implies token_score(
        s,
        body,
        #[trigger] seq![word][k],
    ) is Some by {
        assert(seq![word][k] == word);
    }
}

/// A session about the ticket that is searched for is found whatever it holds, and
/// scores at least a thousand; all others are searched for the words in their fields and
/// in their text, as it lies in the text cache.
pub proof fn tickets_are_found(s: SessionView, cache: Seq<u8>, q: Seq<char>)
    ensures
        ({
            let told = match_score(s, cache, query_of(q));
            let ticket = text::ascii_uppercase(q);
            let asked = ticket::regex_accepts(ticket::TICKET_QUERY_PATTERN@, ticket);
            let start = s.text_offset as int;
            let end = s.text_offset + s.text_len;
            let words = text::words(text::lowercase(q));
            &&& asked && s.tickets.contains(ticket) ==> told is Some && told->0 >= 1000
            &&& !(asked && s.tickets.contains(ticket)) && end <= cache.len() && end <= usize::MAX
                ==> told == score(s, cache.subrange(start, end), words, false)
        }),
{
    let body = text_cache::piece(cache, s.text_offset, s.text_len);
    let query = query_of(q);
    ticket_scores(s, body, query.tokens);
}

/// Words in the fields only add to the score of a ticket.
proof fn ticket_scores(s: SessionView, body: Seq<u8>, tokens: Seq<Seq<char>>)
    ensures
        score(s, body, tokens, true) is Some,
        score(s, body, tokens, true)->0 >= 1000,
    decreases tokens.len(),
{
    if tokens.len() > 0 {
        ticket_scores(s, body, tokens.drop_last());
    }
}

} // verus!
