//! Text as sequences of characters: trimming, splitting, searching and
//! decimal rendering, together with the few character properties that the
//! standard library decides.

use vstd::prelude::*;

verus! {

/// Whether a character is a blank: the Unicode `White_Space` property.
pub open spec fn is_space(c: char) -> bool {
    ||| '\u{9}' <= c <= '\u{d}'
    ||| c == ' '
    ||| c == '\u{85}'
    ||| c == '\u{a0}'
    ||| c == '\u{1680}'
    ||| '\u{2000}' <= c <= '\u{200a}'
    ||| c == '\u{2028}'
    ||| c == '\u{2029}'
    ||| c == '\u{202f}'
    ||| c == '\u{205f}'
    ||| c == '\u{3000}'
}

/// `char::is_whitespace` answers whether a character has the Unicode
/// `White_Space` property.
pub assume_specification[ char::is_whitespace ](c: char) -> (r: bool)
    ensures
        r == is_space(c),
;

/// What `char::is_alphanumeric` answers: a Unicode letter or number.
pub uninterp spec fn is_letter_or_digit(c: char) -> bool;

/// `char::is_alphanumeric` depends on the character alone.
pub assume_specification[ char::is_alphanumeric ](c: char) -> (r: bool)
    ensures
        r == is_letter_or_digit(c),
;

/// What `str::to_lowercase` makes of a text.
pub uninterp spec fn lowercase(s: Seq<char>) -> Seq<char>;

/// `str::to_lowercase` depends on the text alone.
pub assume_specification[ str::to_lowercase ](s: &str) -> (r: String)
    ensures
        r@ == lowercase(s@),
;

/// `String::push` appends one character.
pub assume_specification[ String::push ](s: &mut String, c: char)
    ensures
        final(s)@ == old(s)@.push(c),
;

/// The characters of `s`.
pub fn chars_of(s: &str) -> (r: Vec<char>)
    ensures
        r@ == s@,
{
    let mut out: Vec<char> = Vec::new();
    for c in it: s.chars()
        invariant
            it.seq() == s@,
            out@ == s@.take(it.index() as int),
    {
        out.push(c);
    }
    out
}

/// The text made of the characters `v[from..to]`.
pub fn string_of(v: &Vec<char>, from: usize, to: usize) -> (r: String)
    requires
        from <= to <= v@.len(),
    ensures
        r@ == v@.subrange(from as int, to as int),
{
    let mut out = String::new();
    let mut i: usize = from;
    while i < to
        invariant
            from <= i <= to <= v@.len(),
            out@ == v@.subrange(from as int, i as int),
        decreases to - i,
    {
        out.push(v[i]);
        i += 1;
    }
    out
}


/// The text made of the characters of `v` from `from` on.
pub fn string_from(v: &Vec<char>, from: usize) -> (r: String)
    requires
        from <= v@.len(),
    ensures
        r@ == v@.skip(from as int),
{
    assert(v@.subrange(from as int, v@.len() as int) =~= v@.skip(from as int));
    string_of(v, from, v.len())
}

/// Whether `needle` stands in `hay` at position `i`.
pub open spec fn occurs_at<T>(hay: Seq<T>, needle: Seq<T>, i: int) -> bool {
    0 <= i && i + needle.len() <= hay.len() && hay.subrange(i, i + needle.len()) == needle
}

/// Whether `needle` stands anywhere in `hay`.
pub open spec fn contains<T>(hay: Seq<T>, needle: Seq<T>) -> bool {
    exists|i: int| occurs_at(hay, needle, i)
}

/// The first position at or after `from` where `needle` stands in `hay`.
pub open spec fn find_from<T>(hay: Seq<T>, needle: Seq<T>, from: int) -> Option<int>
    decreases hay.len() - from + 1,
{
    if from + needle.len() > hay.len() {
        None
    } else if occurs_at(hay, needle, from) {
        Some(from)
    } else {
        find_from(hay, needle, from + 1)
    }
}

/// `find_from` yields the least position, and none only where there is none.
pub proof fn lemma_find_from<T>(hay: Seq<T>, needle: Seq<T>, from: int)
    requires
        0 <= from,
    ensures
        match find_from(hay, needle, from) {
            Some(i) => {
                &&& from <= i
                &&& occurs_at(hay, needle, i)
                &&& forall|j: int| from <= j < i ==> !occurs_at(hay, needle, j)
            },
            None => forall|j: int| from <= j ==> !occurs_at(hay, needle, j),
        },
    decreases hay.len() - from + 1,
{
    if from + needle.len() <= hay.len() && !occurs_at(hay, needle, from) {
        lemma_find_from(hay, needle, from + 1);
    }
}

/// The number of blanks that `s` starts with.
pub open spec fn leading_space(s: Seq<char>) -> nat
    decreases s.len(),
{
    if s.len() > 0 && is_space(s[0]) {
        1 + leading_space(s.skip(1))
    } else {
        0
    }
}

/// The number of blanks that `s` ends with.
pub open spec fn trailing_space(s: Seq<char>) -> nat
    decreases s.len(),
{
    if s.len() > 0 && is_space(s.last()) {
        1 + trailing_space(s.drop_last())
    } else {
        0
    }
}

/// The number of characters before the first blank.
pub open spec fn leading_word(s: Seq<char>) -> nat
    decreases s.len(),
{
    if s.len() > 0 && !is_space(s[0]) {
        1 + leading_word(s.skip(1))
    } else {
        0
    }
}

/// The number of characters after the last blank.
pub open spec fn trailing_word(s: Seq<char>) -> nat
    decreases s.len(),
{
    if s.len() > 0 && !is_space(s.last()) {
        1 + trailing_word(s.drop_last())
    } else {
        0
    }
}

pub proof fn lemma_leading_space(s: Seq<char>)
    ensures
        leading_space(s) <= s.len(),
        forall|i: int| 0 <= i < leading_space(s) ==> is_space(#[trigger] s[i]),
        leading_space(s) < s.len() ==> !is_space(s[leading_space(s) as int]),
    decreases s.len(),
{
    if s.len() > 0 && is_space(s[0]) {
        lemma_leading_space(s.skip(1));
        assert forall|i: int| 0 <= i < leading_space(s) implies is_space(#[trigger] s[i]) by {
            if i > 0 {
                assert(s[i] == s.skip(1)[i - 1]);
            }
        }
    }
}

pub proof fn lemma_leading_word(s: Seq<char>)
    ensures
        leading_word(s) <= s.len(),
        forall|i: int| 0 <= i < leading_word(s) ==> !is_space(#[trigger] s[i]),
        leading_word(s) < s.len() ==> is_space(s[leading_word(s) as int]),
    decreases s.len(),
{
    if s.len() > 0 && !is_space(s[0]) {
        lemma_leading_word(s.skip(1));
        assert forall|i: int| 0 <= i < leading_word(s) implies !is_space(#[trigger] s[i]) by {
            if i > 0 {
                assert(s[i] == s.skip(1)[i - 1]);
            }
        }
    }
}

pub proof fn lemma_trailing_space(s: Seq<char>)
    ensures
        trailing_space(s) <= s.len(),
        forall|i: int| s.len() - trailing_space(s) <= i < s.len() ==> is_space(#[trigger] s[i]),
        trailing_space(s) < s.len() ==> !is_space(s[s.len() - trailing_space(s) - 1]),
    decreases s.len(),
{
    if s.len() > 0 && is_space(s.last()) {
        let t = s.drop_last();
        lemma_trailing_space(t);
        assert forall|i: int| s.len() - trailing_space(s) <= i < s.len() implies is_space(
            #[trigger] s[i],
        ) by {
            if i < t.len() {
                assert(s[i] == t[i]);
            }
        }
    }
}

pub proof fn lemma_trailing_word(s: Seq<char>)
    ensures
        trailing_word(s) <= s.len(),
        forall|i: int| s.len() - trailing_word(s) <= i < s.len() ==> !is_space(#[trigger] s[i]),
        trailing_word(s) < s.len() ==> is_space(s[s.len() - trailing_word(s) - 1]),
    decreases s.len(),
{
    if s.len() > 0 && !is_space(s.last()) {
        let t = s.drop_last();
        lemma_trailing_word(t);
        assert forall|i: int| s.len() - trailing_word(s) <= i < s.len() implies !is_space(
            #[trigger] s[i],
        ) by {
            if i < t.len() {
                assert(s[i] == t[i]);
            }
        }
    }
}

/// `s` without the blanks it starts with.
pub open spec fn trim_start(s: Seq<char>) -> Seq<char> {
    s.skip(leading_space(s) as int)
}

/// `s` without the blanks it ends with.
pub open spec fn trim_end(s: Seq<char>) -> Seq<char> {
    s.take(s.len() - trailing_space(s))
}

/// `s` without the blanks at either end.
pub open spec fn trim(s: Seq<char>) -> Seq<char> {
    trim_end(trim_start(s))
}

/// The words of `s`: the maximal runs of characters that are not blanks.
pub open spec fn words(s: Seq<char>) -> Seq<Seq<char>>
    decreases s.len(),
    via words_decreases
{
    let t = trim_start(s);
    if t.len() == 0 {
        Seq::empty()
    } else {
        let n = leading_word(t);
        seq![t.take(n as int)] + words(t.skip(n as int))
    }
}

#[via_fn]
proof fn words_decreases(s: Seq<char>) {
    lemma_leading_space(s);
    lemma_leading_word(trim_start(s));
}

/// The end of the run of blanks that starts at `from`.
pub fn skip_space(v: &Vec<char>, from: usize) -> (r: usize)
    requires
        from <= v@.len(),
    ensures
        from <= r <= v@.len(),
        r == from + leading_space(v@.skip(from as int)),
        v@.skip(r as int) == trim_start(v@.skip(from as int)),
{
    let mut i: usize = from;
    while i < v.len() && v[i].is_whitespace()
        invariant
            from <= i <= v@.len(),
            i + leading_space(v@.skip(i as int)) == from + leading_space(v@.skip(from as int)),
        decreases v@.len() - i,
    {
        assert(v@.skip(i as int).skip(1) == v@.skip(i + 1));
        i += 1;
    }
    assert(v@.skip(from as int).skip(i - from) == v@.skip(i as int));
    i
}

/// The end of the run of other characters that starts at `from`.
pub fn skip_word(v: &Vec<char>, from: usize) -> (r: usize)
    requires
        from <= v@.len(),
    ensures
        from <= r <= v@.len(),
        r == from + leading_word(v@.skip(from as int)),
{
    let mut i: usize = from;
    while i < v.len() && !v[i].is_whitespace()
        invariant
            from <= i <= v@.len(),
            i + leading_word(v@.skip(i as int)) == from + leading_word(v@.skip(from as int)),
        decreases v@.len() - i,
    {
        assert(v@.skip(i as int).skip(1) == v@.skip(i + 1));
        i += 1;
    }
    i
}

/// The start of the run of blanks that ends at `to`, not before `from`.
pub fn skip_space_back(v: &Vec<char>, from: usize, to: usize) -> (r: usize)
    requires
        from <= to <= v@.len(),
    ensures
        from <= r <= to,
        r == to - trailing_space(v@.subrange(from as int, to as int)),
{
    let mut i: usize = to;
    while from < i && v[i - 1].is_whitespace()
        invariant
            from <= i <= to <= v@.len(),
            i - trailing_space(v@.subrange(from as int, i as int)) == to - trailing_space(
                v@.subrange(from as int, to as int),
            ),
        decreases i,
    {
        assert(v@.subrange(from as int, i as int).drop_last() == v@.subrange(
            from as int,
            i - 1,
        ));
        i -= 1;
    }
    i
}

/// The start of the run of other characters that ends at `to`, not before
/// `from`.
pub fn skip_word_back(v: &Vec<char>, from: usize, to: usize) -> (r: usize)
    requires
        from <= to <= v@.len(),
    ensures
        from <= r <= to,
        r == to - trailing_word(v@.subrange(from as int, to as int)),
{
    let mut i: usize = to;
    while from < i && !v[i - 1].is_whitespace()
        invariant
            from <= i <= to <= v@.len(),
            i - trailing_word(v@.subrange(from as int, i as int)) == to - trailing_word(
                v@.subrange(from as int, to as int),
            ),
        decreases i,
    {
        assert(v@.subrange(from as int, i as int).drop_last() == v@.subrange(
            from as int,
            i - 1,
        ));
        i -= 1;
    }
    i
}

/// `s` without the blanks at either end.
pub fn trimmed(s: &str) -> (r: String)
    ensures
        r@ == trim(s@),
{
    let v = chars_of(s);
    let from = skip_space(&v, 0);
    assert(v@.skip(0) == v@);
    let to = skip_space_back(&v, from, v.len());
    assert(v@.subrange(from as int, v@.len() as int) == trim_start(s@));
    assert(v@.subrange(from as int, to as int) == trim(s@));
    string_of(&v, from, to)
}

/// Whether `s` holds nothing but blanks.
pub fn is_blank(s: &str) -> (r: bool)
    ensures
        r == (trim(s@).len() == 0),
{
    let t = trimmed(s);
    t.as_str().is_empty()
}

/// The words of `s`.
pub fn words_of(s: &str) -> (r: Vec<String>)
    ensures
        views(r@) == words(s@),
{
    let v = chars_of(s);
    let mut out: Vec<String> = Vec::new();
    let mut i: usize = 0;
    assert(v@.skip(0) == v@);
    loop
        invariant
            i <= v@.len(),
            views(out@) + words(v@.skip(i as int)) == words(s@),
        ensures
            views(out@) == words(s@),
        decreases v@.len() - i,
    {
        let ghost before = views(out@);
        let start = skip_space(&v, i);
        if start == v.len() {
            assert(words(v@.skip(i as int)) =~= Seq::empty());
            break;
        }
        let end = skip_word(&v, start);
        proof {
            lemma_leading_space(v@.skip(i as int));
            lemma_leading_word(v@.skip(start as int));
            assert(v@.skip(start as int).skip(end - start) == v@.skip(end as int));
            assert(v@.skip(start as int).take(end - start) == v@.subrange(
                start as int,
                end as int,
            ));
        }
        out.push(string_of(&v, start, end));
        assert(views(out@) == before.push(v@.subrange(start as int, end as int)));
        assert(words(v@.skip(i as int)) == seq![v@.subrange(start as int, end as int)] + words(
            v@.skip(end as int),
        ));
        assert(views(out@) + words(v@.skip(end as int)) =~= before + words(v@.skip(i as int)));
        i = end;
    }
    out
}

/// The texts that a sequence of strings holds.
pub open spec fn views(v: Seq<String>) -> Seq<Seq<char>> {
    Seq::new(v.len(), |i: int| v[i]@)
}

/// The texts, with a line break between each two.
pub open spec fn lines(parts: Seq<Seq<char>>) -> Seq<char>
    decreases parts.len(),
{
    if parts.len() == 0 {
        Seq::empty()
    } else if parts.len() == 1 {
        parts[0]
    } else {
        lines(parts.drop_last()) + "\n"@ + parts.last()
    }
}

/// The texts, with a line break between each two.
pub fn lines_joined(v: &Vec<String>) -> (r: String)
    ensures
        r@ == lines(views(v@)),
{
    let ghost all = views(v@);
    let mut out = String::new();
    let mut i: usize = 0;
    while i < v.len()
        invariant
            i <= v@.len(),
            all == views(v@),
            out@ == lines(all.take(i as int)),
        decreases v@.len() - i,
    {
        assert(all.take(i + 1).drop_last() =~= all.take(i as int));
        if i > 0 {
            out.append("\n");
            out.append(v[i].as_str());
        } else {
            out = v[i].clone();
        }
        i += 1;
    }
    assert(all.take(all.len() as int) =~= all);
    out
}

/// The same texts again.
pub fn copied(v: &Vec<String>) -> (r: Vec<String>)
    ensures
        views(r@) == views(v@),
{
    let mut out: Vec<String> = Vec::new();
    let mut i: usize = 0;
    while i < v.len()
        invariant
            i <= v@.len(),
            views(out@) == views(v@).take(i as int),
        decreases v@.len() - i,
    {
        let ghost before = views(out@);
        out.push(v[i].clone());
        assert(views(out@) =~= before.push(v@[i as int]@));
        assert(views(v@).take(i + 1) =~= views(v@).take(i as int).push(v@[i as int]@));
        i += 1;
    }
    assert(views(v@).take(v@.len() as int) =~= views(v@));
    out
}

/// Whether two texts are the same.
pub fn text_eq(a: &str, b: &str) -> (r: bool)
    ensures
        r == (a@ == b@),
{
    a.to_owned() == b.to_owned()
}

/// Whether the characters `p` stand in `v` at position `at`.
pub fn occurs(v: &Vec<char>, p: &Vec<char>, at: usize) -> (r: bool)
    ensures
        r == occurs_at(v@, p@, at as int),
{
    if p.len() > v.len() || at > v.len() - p.len() {
        return false;
    }
    let mut i: usize = 0;
    while i < p.len()
        invariant
            i <= p@.len(),
            at + p@.len() <= v@.len(),
            v@.len() == v.len(),
            forall|j: int| 0 <= j < i ==> v@[at + j] == p@[j],
        decreases p@.len() - i,
    {
        if v[at + i] != p[i] {
            assert(v@.subrange(at as int, at + p@.len())[i as int] != p@[i as int]);
            return false;
        }
        i += 1;
    }
    assert(v@.subrange(at as int, at + p@.len()) =~= p@);
    true
}

/// The first position at or after `from` where `p` stands in `v`.
pub fn position(v: &Vec<char>, p: &Vec<char>, from: usize) -> (r: Option<usize>)
    requires
        from <= v@.len(),
    ensures
        match r {
            Some(i) => find_from(v@, p@, from as int) == Some(i as int),
            None => find_from(v@, p@, from as int) is None,
        },
{
    let mut i: usize = from;
    while i <= v.len() && p.len() <= v.len() - i
        invariant
            from <= i <= v@.len() + 1,
            find_from(v@, p@, from as int) == find_from(v@, p@, i as int),
        decreases v@.len() + 1 - i,
    {
        if occurs(v, p, i) {
            return Some(i);
        }
        if i == v.len() {
            assert(v@.subrange(i as int, i as int) =~= p@);
            return None;
        }
        i += 1;
    }
    None
}

/// Whether `p` stands anywhere in `s`.
pub fn has(s: &str, p: &str) -> (r: bool)
    ensures
        r == contains(s@, p@),
{
    let v = chars_of(s);
    let w = chars_of(p);
    proof {
        lemma_find_from(v@, w@, 0);
    }
    position(&v, &w, 0).is_some()
}

/// Whether `s` starts with `p`.
pub open spec fn has_prefix(s: Seq<char>, p: Seq<char>) -> bool {
    occurs_at(s, p, 0)
}

/// The upper-case form of an ASCII letter; any other character as it is.
pub open spec fn ascii_upper(c: char) -> char {
    if 'a' <= c <= 'z' {
        ((c as u32) - 32) as char
    } else {
        c
    }
}

/// `s` with its ASCII letters in upper case.
pub open spec fn ascii_uppercase(s: Seq<char>) -> Seq<char> {
    Seq::new(s.len(), |i: int| ascii_upper(s[i]))
}

pub fn upper(c: char) -> (r: char)
    ensures
        r == ascii_upper(c),
{
    if 'a' <= c && c <= 'z' {
        ((c as u8) - 32) as char
    } else {
        c
    }
}

/// `s` with its ASCII letters in upper case.
pub fn uppercased(s: &str) -> (r: String)
    ensures
        r@ == ascii_uppercase(s@),
{
    let v = chars_of(s);
    let mut out = String::new();
    let mut i: usize = 0;
    while i < v.len()
        invariant
            i <= v@.len(),
            v@ == s@,
            out@ == ascii_uppercase(s@).take(i as int),
        decreases v@.len() - i,
    {
        out.push(upper(v[i]));
        i += 1;
        assert(out@ =~= ascii_uppercase(s@).take(i as int));
    }
    assert(out@ =~= ascii_uppercase(s@));
    out
}

/// Whether two texts differ at most in the case of ASCII letters.
pub fn eq_ignoring_case(a: &str, b: &str) -> (r: bool)
    ensures
        r == (ascii_uppercase(a@) == ascii_uppercase(b@)),
{
    let x = uppercased(a);
    let y = uppercased(b);
    x == y
}

/// The decimal digits of `n`.
pub open spec fn decimal(n: nat) -> Seq<char>
    decreases n,
{
    if n < 10 {
        seq![digit(n)]
    } else {
        decimal(n / 10).push(digit(n % 10))
    }
}

/// The character for a number below ten.
pub open spec fn digit(n: nat) -> char {
    (48 + n) as char
}

/// The decimal digits of `n`.
pub fn decimal_of(n: u128) -> (r: String)
    ensures
        r@ == decimal(n as nat),
    decreases n,
{
    let mut out = if n < 10 {
        String::new()
    } else {
        decimal_of(n / 10)
    };
    let c = (48 + (n % 10) as u8) as char;
    out.push(c);
    assert(n < 10 ==> out@ =~= seq![digit(n as nat)]);
    out
}

/// Whether a text is made of blanks alone.
pub open spec fn all_blank(s: Seq<char>) -> bool {
    forall|i: int| 0 <= i < s.len() ==> is_space(#[trigger] s[i])
}

/// Whether a text has something in it, and no blank at either end.
pub open spec fn is_core(s: Seq<char>) -> bool {
    s.len() > 0 && !is_space(s[0]) && !is_space(s.last())
}

/// What stands within a text is found there, wherever that is.
pub proof fn infix_is_found<T>(a: Seq<T>, m: Seq<T>, b: Seq<T>)
    ensures
        contains(a + m + b, m),
{
    let i = a.len() as int;
    assert((a + m + b).subrange(i, i + m.len()) =~= m);
    assert(occurs_at(a + m + b, m, i));
}

/// What is found in a text stands within it.
pub proof fn found_is_infix<T>(s: Seq<T>, m: Seq<T>)
    requires
        contains(s, m),
    ensures
        exists|a: Seq<T>, b: Seq<T>| s == #[trigger] (a + m + b),
{
    let i = choose|i: int| occurs_at(s, m, i);
    let a = s.take(i);
    let b = s.skip(i + m.len());
    assert(s =~= a + m + b);
}

/// A text found in a part of another is found in the whole.
pub proof fn found_in_part_is_found<T>(a: Seq<T>, part: Seq<T>, b: Seq<T>, m: Seq<T>)
    requires
        contains(part, m),
    ensures
        contains(a + part + b, m),
{
    let i = choose|i: int| occurs_at(part, m, i);
    let at = a.len() + i;
    assert((a + part + b).subrange(at, at + m.len()) =~= part.subrange(i, i + m.len()));
    assert(occurs_at(a + part + b, m, at));
}

/// Trimming takes the blanks at both ends away, and nothing else: whatever stands
/// between them is kept whole.
pub proof fn trimming_leaves_the_core(a: Seq<char>, core: Seq<char>, b: Seq<char>)
    requires
        all_blank(a),
        is_core(core),
        all_blank(b),
    ensures
        trim(a + core + b) == core,
        trim_start(a + core + b) == core + b,
{
    let s = a + core + b;
    lemma_leading_space(s);
    let n = leading_space(s) as int;
    if n < a.len() {
        assert(s[n] == a[n]);
    } else if n > a.len() {
        assert(s[a.len() as int] == core[0]);
    }
    let t = trim_start(s);
    assert(t =~= core + b);
    lemma_trailing_space(t);
    let k = trailing_space(t) as int;
    let e = t.len() - k;
    if k < b.len() {
        assert(t[e - 1] == b[e - 1 - core.len()]);
    } else if k > b.len() {
        assert(t[core.len() - 1] == core.last());
    }
    assert(trim(s) =~= core);
}

/// Of a text that is blank, trimming leaves nothing.
pub proof fn trimming_leaves_nothing_of_blanks(s: Seq<char>)
    requires
        all_blank(s),
    ensures
        trim(s) == Seq::<char>::empty(),
        trim_start(s) == Seq::<char>::empty(),
{
    lemma_leading_space(s);
    let n = leading_space(s) as int;
    if n < s.len() {
        assert(is_space(s[n]));
    }
    assert(trim_start(s) =~= Seq::<char>::empty());
    assert(trim(s) =~= Seq::<char>::empty());
}

/// Any text is blank, or blanks around a core.
pub proof fn text_has_a_core(s: Seq<char>)
    ensures
        all_blank(s) || exists|a: Seq<char>, core: Seq<char>, b: Seq<char>|
            #![trigger a + core + b]
            s == a + core + b && all_blank(a) && is_core(core) && all_blank(b),
{
    lemma_leading_space(s);
    let n = leading_space(s) as int;
    if n < s.len() {
        let t = s.skip(n);
        lemma_trailing_space(t);
        let e = t.len() - trailing_space(t);
        let a = s.take(n);
        let core = t.take(e);
        let b = t.skip(e);
        assert(t[0] == s[n]);
        if e <= 0 {
            assert(is_space(t[0]));
        }
        assert forall|i: int| 0 <= i < b.len() implies is_space(#[trigger] b[i]) by {
            assert(b[i] == t[e + i]);
        }
        assert(core.last() == t[e - 1]);
        assert(s =~= a + core + b);
    } else {
        assert(all_blank(s));
    }
}

/// A word that is followed by a blank or by nothing is the first of the words of
/// a text, and those of the rest follow.
pub proof fn first_word_is_split_off(word: Seq<char>, rest: Seq<char>)
    requires
        word.len() > 0,
        forall|i: int| 0 <= i < word.len() ==> !is_space(#[trigger] word[i]),
        rest.len() == 0 || is_space(rest[0]),
    ensures
        words(word + rest) == seq![word] + words(rest),
{
    let s = word + rest;
    lemma_leading_space(s);
    assert(s[0] == word[0]);
    assert(trim_start(s) =~= s);
    lemma_leading_word(s);
    let n = leading_word(s) as int;
    if n < word.len() {
        assert(s[n] == word[n]);
    } else if n > word.len() {
        assert(s[word.len() as int] == rest[0]);
    }
    assert(s.take(n) =~= word);
    assert(s.skip(n) =~= rest);
}

/// Blanks before a text do not change its words, and nothing has none.
pub proof fn blanks_are_no_words(blank: Seq<char>, s: Seq<char>)
    requires
        all_blank(blank),
    ensures
        words(blank + s) == words(s),
        words(blank) == Seq::<Seq<char>>::empty(),
{
    trimming_leaves_nothing_of_blanks(blank);
    let t = blank + s;
    lemma_leading_space(t);
    lemma_leading_space(s);
    let n = leading_space(t) as int;
    let k = leading_space(s) as int;
    if n < blank.len() {
        assert(t[n] == blank[n]);
    } else if n < blank.len() + k {
        assert(t[n] == s[n - blank.len()]);
    } else if n > blank.len() + k {
        assert(t[blank.len() + k] == s[k]);
    }
    assert(trim_start(t) =~= trim_start(s));
    if trim_start(s).len() == 0 {
        assert(words(t) == words(s));
    }
}

/// Each of the texts that are joined line by line stands in the whole.
pub proof fn joined_lines_hold_each(parts: Seq<Seq<char>>, i: int)
    requires
        0 <= i < parts.len(),
    ensures
        contains(lines(parts), parts[i]),
    decreases parts.len(),
{
    let none = Seq::<char>::empty();
    if parts.len() == 1 {
        infix_is_found(none, parts[0], none);
        assert(none + parts[0] + none =~= parts[0]);
    } else if i == parts.len() - 1 {
        infix_is_found(lines(parts.drop_last()) + "\n"@, parts.last(), none);
        assert(lines(parts.drop_last()) + "\n"@ + parts.last() + none =~= lines(parts));
    } else {
        joined_lines_hold_each(parts.drop_last(), i);
        found_in_part_is_found(none, lines(parts.drop_last()), "\n"@ + parts.last(), parts[i]);
        assert(none + lines(parts.drop_last()) + ("\n"@ + parts.last()) =~= lines(parts));
    }
}

/// In upper case, the ASCII letters `a` to `z` are those 32 places before them, and
/// every other character is as it was.
pub proof fn upper_case_moves_letters_alone(s: Seq<char>, i: int)
    requires
        0 <= i < s.len(),
    ensures
        ascii_uppercase(s).len() == s.len(),
        97 <= s[i] as int <= 122 ==> ascii_uppercase(s)[i] as int == s[i] as int - 32,
        !(97 <= s[i] as int <= 122) ==> ascii_uppercase(s)[i] == s[i],
{
}

/// Whether a text begins with another.
pub open spec fn begins(s: Seq<char>, p: Seq<char>) -> bool {
    p.len() <= s.len() && s.take(p.len() as int) == p
}

/// Trimming the start takes the blanks there away, and nothing else.
pub proof fn trimming_the_start_drops_blanks(a: Seq<char>, t: Seq<char>)
    requires
        all_blank(a),
        t.len() == 0 || !is_space(t[0]),
    ensures
        trim_start(a + t) == t,
{
    let s = a + t;
    lemma_leading_space(s);
    let n = leading_space(s) as int;
    if n < a.len() {
        assert(s[n] == a[n]);
    } else if n > a.len() {
        assert(s[a.len() as int] == t[0]);
    }
    assert(trim_start(s) =~= t);
}

/// A prefix is what a text begins with.
pub proof fn prefixes_begin_the_text(s: Seq<char>, p: Seq<char>, rest: Seq<char>)
    ensures
        has_prefix(p + rest, p),
        has_prefix(s, p) <==> begins(s, p),
{
    assert((p + rest).subrange(0, p.len() as int) =~= p);
    if p.len() <= s.len() {
        assert(s.subrange(0, p.len() as int) =~= s.take(p.len() as int));
    }
}

} // verus!
