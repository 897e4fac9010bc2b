//! Single-line text input with a movable cursor, used by the search bars.
//! The cursor counts the characters before it.

use crate::text;
use vstd::prelude::*;

verus! {

/// A text being typed, and the place where typing goes on.
#[derive(Debug)]
pub struct TextInput {
    text: String,
    cursor: usize,
}

/// What a text input holds.
#[verifier::ext_equal]
pub struct InputView {
    pub text: Seq<char>,
    /// How many characters lie before the cursor.
    pub cursor: int,
}

impl View for TextInput {
    type V = InputView;

    closed spec fn view(&self) -> InputView {
        InputView { text: self.text@, cursor: self.cursor as int }
    }
}

impl InputView {
    /// Whether the cursor lies within the text.
    pub open spec fn wf(self) -> bool {
        0 <= self.cursor <= self.text.len()
    }

    /// The start of the word before the cursor.
    pub open spec fn word_left(self) -> int {
        let n = self.cursor - text::trailing_space(self.text.take(self.cursor));
        n - text::trailing_word(self.text.take(n))
    }

    /// The end of the word after the cursor.
    pub open spec fn word_right(self) -> int {
        let n = self.cursor + text::leading_space(self.text.skip(self.cursor));
        n + text::leading_word(self.text.skip(n))
    }

    /// With the cursor elsewhere.
    pub open spec fn at(self, cursor: int) -> InputView {
        InputView { cursor, ..self }
    }

    /// With `c` typed at the cursor.
    pub open spec fn inserted(self, c: char) -> InputView {
        InputView { text: self.text.insert(self.cursor, c), cursor: self.cursor + 1 }
    }

    /// Without the characters from `from` on up to `to`, the cursor where they
    /// were.
    pub open spec fn without(self, from: int, to: int) -> InputView {
        InputView { text: self.text.take(from) + self.text.skip(to), cursor: from }
    }

    /// With the cursor one to the left, if it can go there.
    pub open spec fn left(self) -> InputView {
        self.at(
            if self.cursor > 0 {
                self.cursor - 1
            } else {
                0
            },
        )
    }

    /// With the cursor one to the right, if it can go there.
    pub open spec fn right(self) -> InputView {
        self.at(
            if self.cursor < self.text.len() {
                self.cursor + 1
            } else {
                self.cursor
            },
        )
    }

    /// Without the character before the cursor, if there is one.
    pub open spec fn backspaced(self) -> InputView {
        if self.cursor > 0 {
            self.without(self.cursor - 1, self.cursor)
        } else {
            self
        }
    }

    /// Without the character after the cursor, if there is one.
    pub open spec fn deleted_forward(self) -> InputView {
        if self.cursor < self.text.len() {
            self.without(self.cursor, self.cursor + 1)
        } else {
            self
        }
    }
}

/// The characters `v` without those from `from` on up to `to`.
fn cut(v: &Vec<char>, from: usize, to: usize) -> (r: String)
    requires
        from <= to <= v@.len(),
    ensures
        r@ == v@.take(from as int) + v@.skip(to as int),
{
    let mut out = text::string_of(v, 0, from);
    let rest = text::string_from(v, to);
    assert(v@.subrange(0, from as int) =~= v@.take(from as int));
    out.append(rest.as_str());
    out
}

impl TextInput {
    #[verifier::type_invariant]
    spec fn cursor_within(self) -> bool {
        self.cursor <= self.text@.len()
    }

    /// An empty input.
    pub fn new() -> (r: TextInput)
        ensures
            r@.text == Seq::<char>::empty(),
            r@.cursor == 0,
    {
        TextInput { text: String::new(), cursor: 0 }
    }

    /// The text.
    pub fn text(&self) -> (r: &str)
        ensures
            r@ == self@.text,
            self@.wf(),
    {
        proof {
            use_type_invariant(self);
        }
        self.text.as_str()
    }

    /// Whether there is no text.
    pub fn is_empty(&self) -> (r: bool)
        ensures
            r == (self@.text.len() == 0),
    {
        self.text.as_str().is_empty()
    }

    /// Number of chars before the cursor — the cursor's column for rendering.
    pub fn cursor_chars(&self) -> (r: usize)
        ensures
            r == self@.cursor,
            self@.wf(),
    {
        proof {
            use_type_invariant(self);
        }
        self.cursor
    }

    /// Leaves no text.
    pub fn clear(&mut self)
        ensures
            final(self)@ == (InputView { text: Seq::empty(), cursor: 0 }),
    {
        *self = TextInput { text: String::new(), cursor: 0 };
    }

    /// Types `c` at the cursor.
    pub fn insert(&mut self, c: char)
        ensures
            final(self)@ == old(self)@.inserted(c),
            final(self)@.wf(),
    {
        proof {
            use_type_invariant(&*self);
        }
        let mut v = text::chars_of(self.text.as_str());
        v.insert(self.cursor, c);
        let n = v.len();
        assert(self.cursor < n);
        let text = text::string_of(&v, 0, n);
        assert(text@ =~= self.text@.insert(self.cursor as int, c));
        *self = TextInput { text, cursor: self.cursor + 1 };
    }

    /// The place before the character before the cursor.
    fn prev_boundary(&self) -> (r: Option<usize>)
        ensures
            r == if self.cursor > 0 {
                Some((self.cursor - 1) as usize)
            } else {
                None
            },
    {
        if self.cursor > 0 {
            Some(self.cursor - 1)
        } else {
            None
        }
    }

    /// The place behind the character after the cursor.
    fn next_boundary(&self) -> (r: Option<usize>)
        ensures
            match r {
                Some(i) => self.cursor < self.text@.len() && i == self.cursor + 1,
                None => self.cursor >= self.text@.len(),
            },
    {
        let n = text::chars_of(self.text.as_str()).len();
        if self.cursor < n {
            Some(self.cursor + 1)
        } else {
            None
        }
    }

    /// Start of the word before the cursor: skip whitespace, then the word.
    fn word_left_boundary(&self) -> (r: usize)
        ensures
            r == self@.word_left(),
            r <= self.cursor,
    {
        proof {
            use_type_invariant(self);
        }
        let v = text::chars_of(self.text.as_str());
        let n = text::skip_space_back(&v, 0, self.cursor);
        let m = text::skip_word_back(&v, 0, n);
        assert(v@.subrange(0, self.cursor as int) =~= v@.take(self.cursor as int));
        assert(v@.subrange(0, n as int) =~= v@.take(n as int));
        m
    }

    /// End of the word after the cursor: skip whitespace, then the word.
    fn word_right_boundary(&self) -> (r: usize)
        ensures
            r == self@.word_right(),
            self.cursor <= r <= self.text@.len(),
    {
        proof {
            use_type_invariant(self);
        }
        let v = text::chars_of(self.text.as_str());
        let n = text::skip_space(&v, self.cursor);
        text::skip_word(&v, n)
    }

    /// Moves the cursor, and nothing else.
    fn go(&mut self, cursor: usize)
        requires
            cursor <= old(self).text@.len(),
        ensures
            final(self)@ == old(self)@.at(cursor as int),
            final(self)@.wf(),
    {
        let text = self.text.clone();
        *self = TextInput { text, cursor };
    }

    /// Takes characters out, and leaves the cursor where they were.
    fn take_out(&mut self, from: usize, to: usize)
        requires
            from <= to <= old(self).text@.len(),
        ensures
            final(self)@ == old(self)@.without(from as int, to as int),
            final(self)@.wf(),
    {
        let v = text::chars_of(self.text.as_str());
        let text = cut(&v, from, to);
        *self = TextInput { text, cursor: from };
    }

    /// Moves the cursor one to the left, if it can go there.
    pub fn move_left(&mut self)
        ensures
            final(self)@ == old(self)@.left(),
            final(self)@.wf(),
    {
        proof {
            use_type_invariant(&*self);
        }
        match self.prev_boundary() {
            Some(i) => self.go(i),
            None => {},
        }
    }

    /// Moves the cursor one to the right, if it can go there.
    pub fn move_right(&mut self)
        ensures
            final(self)@ == old(self)@.right(),
            final(self)@.wf(),
    {
        proof {
            use_type_invariant(&*self);
        }
        match self.next_boundary() {
            Some(i) => self.go(i),
            None => {},
        }
    }

    /// Moves the cursor to the start of the word before it.
    pub fn move_word_left(&mut self)
        ensures
            final(self)@ == old(self)@.at(old(self)@.word_left()),
            final(self)@.wf(),
    {
        proof {
            use_type_invariant(&*self);
        }
        let i = self.word_left_boundary();
        self.go(i);
    }

    /// Moves the cursor to the end of the word after it.
    pub fn move_word_right(&mut self)
        ensures
            final(self)@ == old(self)@.at(old(self)@.word_right()),
            final(self)@.wf(),
    {
        let i = self.word_right_boundary();
        self.go(i);
    }

    /// Moves the cursor to the start.
    pub fn move_home(&mut self)
        ensures
            final(self)@ == old(self)@.at(0),
            final(self)@.wf(),
    {
        self.go(0);
    }

    /// Moves the cursor to the end.
    pub fn move_end(&mut self)
        ensures
            final(self)@ == old(self)@.at(old(self)@.text.len() as int),
            final(self)@.wf(),
    {
        let n = text::chars_of(self.text.as_str()).len();
        self.go(n);
    }

    /// Takes out the character before the cursor, if there is one.
    pub fn backspace(&mut self)
        ensures
            final(self)@ == old(self)@.backspaced(),
            final(self)@.wf(),
    {
        proof {
            use_type_invariant(&*self);
        }
        match self.prev_boundary() {
            Some(i) => {
                let to = self.cursor;
                self.take_out(i, to);
            },
            None => {},
        }
    }

    /// Takes out the character after the cursor, if there is one.
    pub fn delete_forward(&mut self)
        ensures
            final(self)@ == old(self)@.deleted_forward(),
            final(self)@.wf(),
    {
        proof {
            use_type_invariant(&*self);
        }
        match self.next_boundary() {
            Some(i) => {
                let from = self.cursor;
                self.take_out(from, i);
            },
            None => {},
        }
    }

    /// Takes out the word before the cursor and the blanks behind it.
    pub fn delete_word_backwards(&mut self)
        ensures
            final(self)@ == old(self)@.without(old(self)@.word_left(), old(self)@.cursor),
            final(self)@.wf(),
    {
        proof {
            use_type_invariant(&*self);
        }
        let from = self.word_left_boundary();
        let to = self.cursor;
        self.take_out(from, to);
    }

    /// Takes out all before the cursor.
    pub fn delete_to_start(&mut self)
        ensures
            final(self)@ == old(self)@.without(0, old(self)@.cursor),
            final(self)@.wf(),
    {
        proof {
            use_type_invariant(&*self);
        }
        let to = self.cursor;
        self.take_out(0, to);
    }

    /// Takes out all after the cursor.
    pub fn delete_to_end(&mut self)
        ensures
            final(self)@ == old(self)@.without(
                old(self)@.cursor,
                old(self)@.text.len() as int,
            ),
            final(self)@.wf(),
    {
        proof {
            use_type_invariant(&*self);
        }
        let from = self.cursor;
        let n = text::chars_of(self.text.as_str()).len();
        self.take_out(from, n);
    }
}

impl Default for TextInput {
    fn default() -> (r: TextInput)
        ensures
            r@.text == Seq::<char>::empty(),
            r@.cursor == 0,
    {
        TextInput::new()
    }
}

impl Clone for TextInput {
    fn clone(&self) -> (r: TextInput)
        ensures
            r@ == self@,
    {
        proof {
            use_type_invariant(self);
        }
        TextInput { text: self.text.clone(), cursor: self.cursor }
    }
}

impl vstd::std_specs::convert::FromSpecImpl<&str> for TextInput {
    open spec fn obeys_from_spec() -> bool {
        false
    }

    open spec fn from_spec(s: &str) -> TextInput {
        arbitrary()
    }
}

impl From<&str> for TextInput {
    fn from(s: &str) -> (r: TextInput)
        ensures
            r@.text == s@,
            r@.cursor == s@.len(),
    {
        let n = text::chars_of(s).len();
        TextInput { text: s.to_owned(), cursor: n }
    }
}

/// What was typed is taken back by a backspace, text and cursor alike; at the
/// start of the text a backspace does nothing.
pub proof fn backspace_undoes_insert(v: InputView, c: char)
    requires
        v.wf(),
    ensures
        v.inserted(c).backspaced() == v,
        v.inserted(c).wf(),
        v.cursor == 0 ==> v.backspaced() == v,
{
    assert(v.inserted(c).backspaced().text =~= v.text);
}

/// What was typed is taken out by going back over it and deleting forward.
pub proof fn delete_forward_undoes_insert(v: InputView, c: char)
    requires
        v.wf(),
    ensures
        v.inserted(c).left().deleted_forward() == v,
{
    assert(v.inserted(c).left().deleted_forward().text =~= v.text);
}

/// A step to one side and back leaves the cursor where it was, unless it was
/// at that side's end.
pub proof fn left_and_right_undo_each_other(v: InputView)
    requires
        v.wf(),
    ensures
        v.cursor > 0 ==> v.left().right() == v,
        v.cursor < v.text.len() ==> v.right().left() == v,
{
}

/// Moves leave the text alone and the cursor within it; a move over a word goes
/// at least to the end of the blanks before it.
pub proof fn word_moves_stay_within(v: InputView)
    requires
        v.wf(),
    ensures
        0 <= v.word_left() <= v.cursor <= v.word_right() <= v.text.len(),
        v.cursor > 0 ==> v.word_left() < v.cursor,
        v.cursor < v.text.len() ==> v.word_right() > v.cursor,
{
    let before = v.text.take(v.cursor);
    text::lemma_trailing_space(before);
    let n = v.cursor - text::trailing_space(before);
    text::lemma_trailing_word(v.text.take(n));
    if v.cursor > 0 && n == v.cursor {
        assert(v.text.take(n) =~= before);
    }
    let after = v.text.skip(v.cursor);
    text::lemma_leading_space(after);
    let m = v.cursor + text::leading_space(after);
    text::lemma_leading_word(v.text.skip(m));
    if v.cursor < v.text.len() && m == v.cursor {
        assert(v.text.skip(m) =~= after);
    }
}

/// Deleting to the start and deleting to the end part the text at the cursor:
/// each leaves what the other takes out.
pub proof fn deletions_part_the_text(v: InputView)
    requires
        v.wf(),
    ensures
        v.without(v.cursor, v.text.len() as int).text + v.without(0, v.cursor).text == v.text,
{
    assert(v.without(v.cursor, v.text.len() as int).text + v.without(0, v.cursor).text =~= v.text);
}

/// What is typed goes in at the cursor, which stays behind it; a backspace takes out
/// what stands before the cursor, and a deletion what stands behind it.
pub proof fn edits_are_made_at_the_cursor(a: Seq<char>, c: char, b: Seq<char>)
    ensures
        (InputView { text: a + b, cursor: a.len() as int }).inserted(c) == (InputView {
            text: a + seq![c] + b,
            cursor: a.len() as int + 1,
        }),
        (InputView { text: a + seq![c] + b, cursor: a.len() as int + 1 }).backspaced() == (InputView {
            text: a + b,
            cursor: a.len() as int,
        }),
        (InputView { text: a + seq![c] + b, cursor: a.len() as int }).deleted_forward() == (
        InputView { text: a + b, cursor: a.len() as int }),
        (InputView { text: a, cursor: a.len() as int }).deleted_forward() == (InputView {
            text: a,
            cursor: a.len() as int,
        }),
        (InputView { text: a, cursor: 0 }).backspaced() == (InputView { text: a, cursor: 0 }),
{
    let v = InputView { text: a + b, cursor: a.len() as int };
    assert(v.inserted(c).text =~= a + seq![c] + b);
    let w = InputView { text: a + seq![c] + b, cursor: a.len() as int + 1 };
    assert(w.backspaced().text =~= a + b);
    let x = InputView { text: a + seq![c] + b, cursor: a.len() as int };
    assert(x.deleted_forward().text =~= a + b);
}

/// A step goes over one character.
pub proof fn steps_go_over_one_character(a: Seq<char>, c: char, b: Seq<char>)
    ensures
        (InputView { text: a + seq![c] + b, cursor: a.len() as int }).right() == (InputView {
            text: a + seq![c] + b,
            cursor: a.len() as int + 1,
        }),
        (InputView { text: a + seq![c] + b, cursor: a.len() as int + 1 }).left() == (InputView {
            text: a + seq![c] + b,
            cursor: a.len() as int,
        }),
        (InputView { text: a, cursor: a.len() as int }).right() == (InputView {
            text: a,
            cursor: a.len() as int,
        }),
        (InputView { text: a, cursor: 0 }).left() == (InputView { text: a, cursor: 0 }),
{
}

/// A jump to the left goes to the start of the word before the cursor, over the blanks
/// behind that word.
pub proof fn jumps_left_go_to_the_start_of_the_word(
    a: Seq<char>,
    word: Seq<char>,
    blanks: Seq<char>,
    b: Seq<char>,
)
    requires
        a.len() == 0 || text::is_space(a.last()),
        word.len() > 0,
        forall|i: int| 0 <= i < word.len() ==> !text::is_space(#[trigger] word[i]),
        text::all_blank(blanks),
    ensures
        (InputView {
            text: a + word + blanks + b,
            cursor: a.len() as int + word.len() + blanks.len(),
        }).word_left() == a.len(),
{
    let t = a + word + blanks + b;
    let cursor = (a.len() + word.len() + blanks.len()) as int;
    let before = t.take(cursor);
    let m = (a.len() + word.len()) as int;
    text::lemma_trailing_space(before);
    let n = cursor - text::trailing_space(before);
    if n > m {
        assert(before[n - 1] == blanks[n - 1 - m]);
    } else if n < m {
        assert(before[m - 1] == word[m - 1 - a.len()]);
    }
    assert(n == m);
    let rest = t.take(n);
    text::lemma_trailing_word(rest);
    let k = n - text::trailing_word(rest);
    if k > a.len() {
        assert(rest[k - 1] == word[k - 1 - a.len()]);
    } else if k < a.len() {
        assert(rest[a.len() - 1] == a.last());
    }
}

/// A jump to the right goes to the end of the word after the cursor, over the blanks
/// before that word.
pub proof fn jumps_right_go_to_the_end_of_the_word(
    a: Seq<char>,
    blanks: Seq<char>,
    word: Seq<char>,
    b: Seq<char>,
)
    requires
        text::all_blank(blanks),
        word.len() > 0,
        forall|i: int| 0 <= i < word.len() ==> !text::is_space(#[trigger] word[i]),
        b.len() == 0 || text::is_space(b[0]),
    ensures
        (InputView { text: a + blanks + word + b, cursor: a.len() as int }).word_right() == a.len()
            + blanks.len() + word.len(),
{
    let t = a + blanks + word + b;
    let after = t.skip(a.len() as int);
    let m = blanks.len() as int;
    text::lemma_leading_space(after);
    let n = text::leading_space(after) as int;
    if n < m {
        assert(after[n] == blanks[n]);
    } else if n > m {
        assert(after[m] == word[0]);
    }
    assert(n == m);
    let rest = t.skip(a.len() + n);
    text::lemma_leading_word(rest);
    let k = text::leading_word(rest) as int;
    if k < word.len() {
        assert(rest[k] == word[k]);
    } else if k > word.len() {
        assert(rest[word.len() as int] == b[0]);
    }
}

/// Deleting to the start leaves what stands behind the cursor, and deleting to the end
/// what stands before it.
pub proof fn deletions_leave_the_other_side(a: Seq<char>, b: Seq<char>)
    ensures
        (InputView { text: a + b, cursor: a.len() as int }).without(0, a.len() as int) == (
        InputView { text: b, cursor: 0 }),
        (InputView { text: a + b, cursor: a.len() as int }).without(
            a.len() as int,
            (a + b).len() as int,
        ) == (InputView { text: a, cursor: a.len() as int }),
{
    let v = InputView { text: a + b, cursor: a.len() as int };
    assert(v.without(0, a.len() as int).text =~= b);
    assert(v.without(a.len() as int, (a + b).len() as int).text =~= a);
}

} // verus!
