//! JSON documents as plain values, and the queries that session records
//! need.

use crate::text;
use vstd::prelude::*;

verus! {

/// A JSON value. Numbers are kept without their value: nothing here reads it.
pub enum Json {
    Null,
    Bool(bool),
    Number,
    Text(String),
    List(Vec<Json>),
    Object(Vec<Member>),
}

/// A member of a JSON object.
pub struct Member {
    pub key: String,
    pub value: Json,
}

/// A JSON value as a mathematical tree.
#[verifier::ext_equal]
pub enum JsonView {
    Null,
    Bool(bool),
    Number,
    Text(Seq<char>),
    List(Seq<JsonView>),
    Object(Seq<MemberView>),
}

/// A member of a JSON object.
#[verifier::ext_equal]
pub struct MemberView {
    pub key: Seq<char>,
    pub value: JsonView,
}

impl View for Json {
    type V = JsonView;

    open spec fn view(&self) -> JsonView
        decreases self,
    {
        match self {
            Json::Null => JsonView::Null,
            Json::Bool(b) => JsonView::Bool(*b),
            Json::Number => JsonView::Number,
            Json::Text(s) => JsonView::Text(s@),
            Json::List(v) => JsonView::List(
                Seq::new(
                    v@.len(),
                    |i: int|
                        if 0 <= i < v@.len() {
                            v@[i].view()
                        } else {
                            JsonView::Null
                        },
                ),
            ),
            Json::Object(v) => JsonView::Object(
                Seq::new(
                    v@.len(),
                    |i: int|
                        if 0 <= i < v@.len() {
                            MemberView { key: v@[i].key@, value: v@[i].value.view() }
                        } else {
                            MemberView { key: Seq::empty(), value: JsonView::Null }
                        },
                ),
            ),
        }
    }
}

/// A parsed document of the `serde_json` crate.
#[verifier::external_type_specification]
#[verifier::external_body]
pub struct ExValue(serde_json::Value);

/// What the `serde_json` crate reports of a text that is no document.
#[verifier::external_type_specification]
#[verifier::external_body]
pub struct ExJsonError(serde_json::Error);

/// The tree that a parsed document holds: its members in the order in which
/// the document keeps them.
pub uninterp spec fn value_tree(value: serde_json::Value) -> JsonView;

/// What `serde_json::from_str` makes of a text: the tree of the document, or
/// nothing where the text is no JSON document.
pub uninterp spec fn json_document(text: Seq<char>) -> Option<JsonView>;

/// `serde_json::from_str` depends on the text alone.
#[verifier::external_body]
fn read_value(text: &str) -> (r: Result<serde_json::Value, serde_json::Error>)
    ensures
        match r {
            Ok(v) => json_document(text@) == Some(value_tree(v)),
            Err(_) => json_document(text@) is None,
        },
{
    serde_json::from_str(text)
}

/// Takes a `serde_json::Value` apart, one variant for one variant and every
/// element in its place.
#[verifier::external_body]
fn take_apart(value: serde_json::Value) -> (r: Json)
    ensures
        r@ == value_tree(value),
{
    match value {
        serde_json::Value::Null => Json::Null,
        serde_json::Value::Bool(b) => Json::Bool(b),
        serde_json::Value::Number(_) => Json::Number,
        serde_json::Value::String(s) => Json::Text(s),
        serde_json::Value::Array(v) => Json::List(v.into_iter().map(take_apart).collect()),
        serde_json::Value::Object(m) => {
            Json::Object(m.into_iter().map(|e| Member { key: e.0, value: take_apart(e.1) }).collect())
        },
    }
}

/// The document that `text` holds, if it holds one.
pub fn parse_json(text: &str) -> (r: Option<Json>)
    ensures
        match r {
            Some(j) => json_document(text@) == Some(j@),
            None => json_document(text@) is None,
        },
{
    match read_value(text) {
        Ok(value) => Some(take_apart(value)),
        Err(_) => None,
    }
}

/// The first member of an object under `key`.
pub open spec fn member(members: Seq<MemberView>, key: Seq<char>) -> Option<JsonView>
    decreases members.len(),
{
    if members.len() == 0 {
        None
    } else if members[0].key == key {
        Some(members[0].value)
    } else {
        member(members.skip(1), key)
    }
}

/// The trees of the elements of a list.
pub open spec fn elements(v: Seq<Json>) -> Seq<JsonView> {
    Seq::new(v.len(), |i: int| v[i]@)
}

/// The keys and trees of the members of an object.
pub open spec fn members(v: Seq<Member>) -> Seq<MemberView> {
    Seq::new(v.len(), |i: int| MemberView { key: v[i].key@, value: v[i].value@ })
}

pub proof fn lemma_list_view(v: Vec<Json>)
    ensures
        Json::List(v)@ == JsonView::List(elements(v@)),
{
    assert(Json::List(v)@->List_0 =~= elements(v@));
}

pub proof fn lemma_object_view(v: Vec<Member>)
    ensures
        Json::Object(v)@ == JsonView::Object(members(v@)),
{
    assert(Json::Object(v)@->Object_0 =~= members(v@));
}

/// The first of `list` under `key`.
fn find_member<'a>(list: &'a Vec<Member>, key: &str) -> (r: Option<&'a Json>)
    ensures
        match r {
            Some(j) => member(members(list@), key@) == Some(j@),
            None => member(members(list@), key@) is None,
        },
{
    let ghost all = members(list@);
    let mut i: usize = 0;
    assert(all.skip(0) == all);
    while i < list.len()
        invariant
            i <= list@.len(),
            all == members(list@),
            member(all, key@) == member(all.skip(i as int), key@),
        decreases list@.len() - i,
    {
        assert(all.skip(i as int)[0] == all[i as int]);
        if text::text_eq(list[i].key.as_str(), key) {
            return Some(&list[i].value);
        }
        assert(all.skip(i as int).skip(1) == all.skip(i + 1));
        i += 1;
    }
    None
}

impl JsonView {
    /// The member under `key`, where the value is an object that has one.
    pub open spec fn field(self, key: Seq<char>) -> Option<JsonView> {
        match self {
            JsonView::Object(members) => member(members, key),
            _ => None,
        }
    }

    /// The text, where the value is one.
    pub open spec fn text(self) -> Option<Seq<char>> {
        match self {
            JsonView::Text(s) => Some(s),
            _ => None,
        }
    }

    /// The text under `key`, where there is one.
    pub open spec fn text_at(self, key: Seq<char>) -> Option<Seq<char>> {
        match self.field(key) {
            Some(v) => v.text(),
            None => None,
        }
    }

    /// Whether the member under `key` is the given truth value.
    pub open spec fn is_flag(self, key: Seq<char>, flag: bool) -> bool {
        self.field(key) == Some(JsonView::Bool(flag))
    }
}

impl Json {
    /// The member under `key`, where the value is an object that has one.
    pub fn field(&self, key: &str) -> (r: Option<&Json>)
        ensures
            match r {
                Some(j) => self@.field(key@) == Some(j@),
                None => self@.field(key@) is None,
            },
    {
        match self {
            Json::Object(members) => {
                proof {
                    lemma_object_view(*members);
                }
                find_member(members, key)
            },
            _ => None,
        }
    }

    /// The text, where the value is one.
    pub fn text(&self) -> (r: Option<&str>)
        ensures
            match r {
                Some(s) => self@.text() == Some(s@),
                None => self@.text() is None,
            },
    {
        match self {
            Json::Text(s) => Some(s.as_str()),
            _ => None,
        }
    }

    /// The text under `key`, where there is one.
    pub fn text_at(&self, key: &str) -> (r: Option<&str>)
        ensures
            match r {
                Some(s) => self@.text_at(key@) == Some(s@),
                None => self@.text_at(key@) is None,
            },
    {
        match self.field(key) {
            Some(j) => j.text(),
            None => None,
        }
    }

    /// Whether the text under `key` is `value`.
    pub fn text_is(&self, key: &str, value: &str) -> (r: bool)
        ensures
            r == (self@.text_at(key@) == Some(value@)),
    {
        match self.text_at(key) {
            Some(s) => text::text_eq(s, value),
            None => false,
        }
    }

    /// Whether the member under `key` is `true`.
    pub fn is_true(&self, key: &str) -> (r: bool)
        ensures
            r == self@.is_flag(key@, true),
    {
        match self.field(key) {
            Some(Json::Bool(b)) => *b,
            _ => false,
        }
    }
}

/// The member under a key is the first that has it, and there is none where none
/// has it.
pub proof fn first_member_is_found(
    a: Seq<MemberView>,
    key: Seq<char>,
    value: JsonView,
    b: Seq<MemberView>,
)
    requires
        forall|i: int| 0 <= i < a.len() ==> (#[trigger] a[i]).key != key,
    ensures
        JsonView::Object(a.push(MemberView { key, value }) + b).field(key) == Some(value),
        JsonView::Object(a).field(key) is None,
    decreases a.len(),
{
    let all = a.push(MemberView { key, value }) + b;
    if a.len() == 0 {
        assert(all[0] == MemberView { key, value });
    } else {
        let rest = a.skip(1);
        assert forall|i: int| 0 <= i < rest.len() implies (#[trigger] rest[i]).key != key by {
            assert(rest[i] == a[i + 1]);
        }
        first_member_is_found(rest, key, value, b);
        assert(all[0] == a[0]);
        assert(all.skip(1) =~= rest.push(MemberView { key, value }) + b);
    }
}

/// Only an object has members, and only a text is one.
pub proof fn other_values_have_no_members(v: JsonView, key: Seq<char>)
    ensures
        !(v is Object) ==> v.field(key) is None && v.text_at(key) is None,
        v.text() is Some <==> v is Text,
        v matches JsonView::Text(t) ==> v.text() == Some(t),
        v.text_at(key) is Some <==> v.field(key) is Some && v.field(key)->0 is Text,
        v.text_at(key) matches Some(t) ==> v.field(key) == Some(JsonView::Text(t)),
{
}

/// A flag is told by the first member with its key, if that is true or false.
pub proof fn flags_are_told_by_their_member(
    a: Seq<MemberView>,
    key: Seq<char>,
    flag: bool,
    b: Seq<MemberView>,
)
    requires
        forall|i: int| 0 <= i < a.len() ==> (#[trigger] a[i]).key != key,
    ensures
        JsonView::Object(a.push(MemberView { key, value: JsonView::Bool(flag) }) + b).is_flag(
            key,
            flag,
        ),
        !JsonView::Object(a.push(MemberView { key, value: JsonView::Bool(flag) }) + b).is_flag(
            key,
            !flag,
        ),
        !JsonView::Object(a).is_flag(key, flag),
{
    first_member_is_found(a, key, JsonView::Bool(flag), b);
}

} // verus!
