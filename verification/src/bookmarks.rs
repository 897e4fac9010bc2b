//! Bookmarked sessions, kept as a JSON list of their ids.

use crate::json;
use crate::json::Json;
use crate::json::JsonView;
use crate::string_set;
use crate::string_set::StringSet;
use crate::text;
use vstd::prelude::*;

verus! {

/// The texts that the elements of a list are, if each of them is one.
pub open spec fn list_texts(list: Seq<JsonView>) -> Option<Seq<Seq<char>>> {
    if forall|i: int| 0 <= i < list.len() ==> #[trigger] list[i] is Text {
        Some(Seq::new(list.len(), |i: int| list[i]->Text_0))
    } else {
        None
    }
}

/// The bookmarks that a document tells: the texts of a list of texts, and none
/// where it is anything else.
pub open spec fn bookmarks_of(document: Option<JsonView>) -> Set<Seq<char>> {
    match document {
        Some(JsonView::List(list)) => match list_texts(list) {
            Some(texts) => texts.to_set(),
            None => Set::empty(),
        },
        _ => Set::empty(),
    }
}

/// The tree of a document that may be missing.
pub open spec fn document_view(document: Option<Json>) -> Option<JsonView> {
    match document {
        Some(j) => Some(j@),
        None => None,
    }
}

/// A list of texts as a document.
pub open spec fn text_list(texts: Seq<Seq<char>>) -> JsonView {
    JsonView::List(Seq::new(texts.len(), |i: int| JsonView::Text(texts[i])))
}

/// The bookmarks that a document tells.
pub fn bookmarks_in(document: Option<Json>) -> (r: StringSet)
    ensures
        r.wf(),
        r@ == bookmarks_of(document_view(document)),
{
    let mut out = StringSet::new();
    match document {
        Some(Json::List(list)) => {
            proof {
                json::lemma_list_view(list);
            }
            let ghost all = json::elements(list@);
            let ghost texts = Seq::new(all.len(), |i: int| all[i]->Text_0);
            let mut plain = true;
            let mut i: usize = 0;
            assert(texts.take(0).to_set() =~= Set::empty());
            while plain && i < list.len()
                invariant
                    i <= list@.len(),
                    all == json::elements(list@),
                    texts == Seq::new(all.len(), |i: int| all[i]->Text_0),
                    plain ==> forall|k: int| 0 <= k < i ==> #[trigger] all[k] is Text,
                    !plain ==> list_texts(all) is None,
                    out.wf(),
                    plain ==> out@ == texts.take(i as int).to_set(),
                decreases list@.len() - i,
            {
                assert(all[i as int] == list@[i as int]@);
                match list[i].text() {
                    Some(t) => {
                        out.insert(t.to_owned());
                        proof {
                            let n = texts.take(i as int);
                            assert(texts.take(i + 1) =~= n.push(texts[i as int]));
                            n.lemma_push_to_set_commute(texts[i as int]);
                        }
                    },
                    None => {
                        assert(!(all[i as int] is Text));
                        plain = false;
                    },
                }
                i += 1;
            }
            assert(texts.take(texts.len() as int) =~= texts);
            if plain {
                out
            } else {
                StringSet::new()
            }
        },
        _ => out,
    }
}

/// The bookmarks that a file holds: none where it cannot be read, or is not a
/// list of texts.
pub fn load_bookmarks(contents: Option<&str>) -> (r: StringSet)
    ensures
        r.wf(),
        r@ == match contents {
            Some(s) => bookmarks_of(json::json_document(s@)),
            None => Set::empty(),
        },
{
    match contents {
        Some(s) => bookmarks_in(json::parse_json(s)),
        None => StringSet::new(),
    }
}

/// The JSON text that `serde_json::to_string` makes of a list of texts.
pub uninterp spec fn texts_json(texts: Seq<Seq<char>>) -> Seq<char>;

/// `serde_json::to_string` does not fail on a list of texts; what it writes
/// depends on them alone, and is a document that tells the same list.
#[verifier::external_body]
fn write_texts(texts: &Vec<String>) -> (r: Option<String>)
    ensures
        r is Some,
        r->0@ == texts_json(text::views(texts@)),
        json::json_document(r->0@) == Some(text_list(text::views(texts@))),
{
    serde_json::to_string(texts).ok()
}

/// What to keep of the bookmarks in their file: the list of them in ascending
/// order. Loading it gives the same bookmarks back.
pub fn save_bookmarks(bookmarks: &StringSet) -> (r: Option<String>)
    requires
        bookmarks.wf(),
    ensures
        r is Some,
        exists|texts: Seq<Seq<char>>|
            string_set::ascending(texts) && texts.to_set() == bookmarks@ && r->0@
                == #[trigger] texts_json(texts),
        bookmarks_of(json::json_document(r->0@)) == bookmarks@,
{
    let v = bookmarks.to_vec();
    let ghost texts = text::views(v@);
    proof {
        let list = text_list(texts)->List_0;
        assert(list_texts(list) is Some);
        assert(list_texts(list)->0 =~= texts);
    }
    write_texts(&v)
}

/// The bookmarks of a list of texts are these texts, and no other document has any.
pub proof fn bookmarks_are_the_texts_of_a_list(texts: Seq<Seq<char>>, other: JsonView, x: Seq<char>)
    ensures
        bookmarks_of(
            Some(JsonView::List(Seq::new(texts.len(), |i: int| JsonView::Text(texts[i])))),
        ).contains(x) <==> exists|i: int| 0 <= i < texts.len() && #[trigger] texts[i] == x,
        !(other is List) ==> !bookmarks_of(Some(other)).contains(x),
        other matches JsonView::List(list) ==> (exists|i: int|
            0 <= i < list.len() && !(#[trigger] list[i] is Text)) ==> !bookmarks_of(
            Some(other),
        ).contains(x),
        !bookmarks_of(None).contains(x),
{
    let list = Seq::new(texts.len(), |i: int| JsonView::Text(texts[i]));
    assert(list_texts(list) is Some);
    assert(list_texts(list)->0 =~= texts);
}

} // verus!
