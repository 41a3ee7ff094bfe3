//! Parsing of the Chromium-family JSON bookmark tree.
//!
//! The bookmark file is one JSON document. Its `roots` object holds up to
//! three known roots — `bookmark_bar`, `other`, `synced` — each a tree of
//! nodes. A node typed `"url"` contributes one record when both `name` and
//! `url` are strings; a node typed `"folder"` is walked depth-first through
//! its `children` array; anything else contributes nothing.
//!
//! The text is parsed by an outside JSON parser into a generic value, which
//! is rebuilt as the crate's own `JsonValue` tree; everything after that
//! point is verified against the tree's model.

use vstd::prelude::*;
use vstd::string::StringExecFns;
use crate::Bookmark;
use crate::BookmarkModel;
use crate::extract::ErrorModel;
use crate::extract::ExtractError;

verus! {

/// A generic JSON value, as far as the bookmark walk needs it. Numbers
/// carry no payload: the walk never reads one.
pub enum JsonValue {
    Null,
    Bool(bool),
    Number,
    Text(String),
    Array(Vec<JsonValue>),
    Object(Vec<(String, JsonValue)>),
}

/// The model of a JSON value.
pub enum JsonModel {
    Null,
    Bool(bool),
    Number,
    Text(Seq<char>),
    Array(Seq<JsonModel>),
    Object(Seq<(Seq<char>, JsonModel)>),
}

/// The model of a JSON value: each text becomes its character sequence.
pub open spec fn json_view(v: JsonValue) -> JsonModel
    decreases v, 0int,
{
    match v {
        JsonValue::Null => JsonModel::Null,
        JsonValue::Bool(b) => JsonModel::Bool(b),
        JsonValue::Number => JsonModel::Number,
        JsonValue::Text(s) => JsonModel::Text(s@),
        JsonValue::Array(a) => {
            proof {
                assert(decreases_to!(v => v->Array_0));
                assert(decreases_to!(a => a@));
            }
            JsonModel::Array(view_list_from(a@, 0))
        },
        JsonValue::Object(f) => {
            proof {
                assert(decreases_to!(v => v->Object_0));
                assert(decreases_to!(f => f@));
            }
            JsonModel::Object(view_fields_from(f@, 0))
        },
    }
}

/// The models of the elements of an array, from position `i` on.
pub open spec fn view_list_from(s: Seq<JsonValue>, i: int) -> Seq<JsonModel>
    decreases s, s.len() - i + 1,
{
    if i < 0 || i >= s.len() {
        Seq::empty()
    } else {
        {
            proof {
                assert(decreases_to!(s => s[i]));
            }
            seq![json_view(s[i])] + view_list_from(s, i + 1)
        }
    }
}

/// The models of the members of an object, from position `i` on.
pub open spec fn view_fields_from(s: Seq<(String, JsonValue)>, i: int) -> Seq<
    (Seq<char>, JsonModel),
>
    decreases s, s.len() - i + 1,
{
    if i < 0 || i >= s.len() {
        Seq::empty()
    } else {
        {
            proof {
                assert(decreases_to!(s => s[i]));
                assert(decreases_to!(s[i] => s[i].1));
            }
            seq![(s[i].0@, json_view(s[i].1))] + view_fields_from(s, i + 1)
        }
    }
}

impl View for JsonValue {
    type V = JsonModel;

    open spec fn view(&self) -> JsonModel {
        json_view(*self)
    }
}

pub proof fn lemma_view_list(s: Seq<JsonValue>, i: int)
    requires
        0 <= i <= s.len(),
    ensures
        view_list_from(s, i).len() == s.len() - i,
        forall|k: int|
            0 <= k < s.len() - i ==> #[trigger] view_list_from(s, i)[k] == json_view(s[i + k]),
    decreases s.len() - i,
{
    if i < s.len() {
        lemma_view_list(s, i + 1);
    }
}

pub proof fn lemma_view_fields(s: Seq<(String, JsonValue)>, i: int)
    requires
        0 <= i <= s.len(),
    ensures
        view_fields_from(s, i).len() == s.len() - i,
        forall|k: int|
            0 <= k < s.len() - i ==> #[trigger] view_fields_from(s, i)[k] == (
                s[i + k].0@,
                json_view(s[i + k].1),
            ),
    decreases s.len() - i,
{
    if i < s.len() {
        lemma_view_fields(s, i + 1);
    }
}

/// Each model variant matches its value's variant, and a text keeps its
/// characters.
pub proof fn lemma_view_variants(v: JsonValue)
    ensures
        (json_view(v) is Text) <==> (v is Text),
        (json_view(v) is Array) <==> (v is Array),
        (json_view(v) is Object) <==> (v is Object),
        v matches JsonValue::Text(s) ==> json_view(v) == JsonModel::Text(s@),
{
    match v {
        JsonValue::Null => {},
        JsonValue::Bool(_) => {},
        JsonValue::Number => {},
        JsonValue::Text(_) => {},
        JsonValue::Array(_) => {},
        JsonValue::Object(_) => {},
    }
}

/// The first member named `key`, from position `i` on.
pub open spec fn obj_lookup_from(
    fields: Seq<(Seq<char>, JsonModel)>,
    key: Seq<char>,
    i: int,
) -> Option<JsonModel>
    decreases fields.len() - i + 1,
{
    if i < 0 || i >= fields.len() {
        None
    } else if fields[i].0 == key {
        Some(fields[i].1)
    } else {
        obj_lookup_from(fields, key, i + 1)
    }
}

/// The value of the member named `key` of an object's member list.
pub open spec fn obj_lookup(fields: Seq<(Seq<char>, JsonModel)>, key: Seq<char>) -> Option<
    JsonModel,
> {
    obj_lookup_from(fields, key, 0)
}

pub proof fn lemma_obj_lookup_height(fields: Seq<(Seq<char>, JsonModel)>, key: Seq<char>, i: int)
    ensures
        obj_lookup_from(fields, key, i) matches Some(v) ==> decreases_to!(fields => v),
    decreases fields.len() - i + 1,
{
    if 0 <= i < fields.len() {
        if fields[i].0 == key {
            assert(decreases_to!(fields => fields[i]));
            assert(decreases_to!(fields[i] => fields[i].1));
        } else {
            lemma_obj_lookup_height(fields, key, i + 1);
        }
    }
}

/// The characters of a looked-up member that is a text, if it is one.
pub open spec fn text_model(o: Option<JsonModel>) -> Option<Seq<char>> {
    match o {
        Some(JsonModel::Text(t)) => Some(t),
        _ => None,
    }
}

/// The record a url-typed node contributes: one bookmark when both `name`
/// and `url` are string members and the url is non-empty, nothing
/// otherwise — every emitted record carries a non-empty URL.
pub open spec fn url_node_record(fields: Seq<(Seq<char>, JsonModel)>) -> Seq<BookmarkModel> {
    match (text_model(obj_lookup(fields, "name"@)), text_model(obj_lookup(fields, "url"@))) {
        (Some(n), Some(u)) => if u.len() == 0 {
            Seq::empty()
        } else {
            seq![BookmarkModel { name: n, url: u }]
        },
        _ => Seq::empty(),
    }
}

/// The records of one node, depth-first: a url node contributes its record,
/// a folder node is walked through its `children` array, any other node —
/// untyped, oddly typed, or not an object — contributes nothing.
pub open spec fn walk_node(m: JsonModel) -> Seq<BookmarkModel>
    decreases m, 0int,
{
    match m {
        JsonModel::Object(fields) => match text_model(obj_lookup(fields, "type"@)) {
            Some(t) => if t == "url"@ {
                url_node_record(fields)
            } else if t == "folder"@ {
                {
                    proof {
                        assert(decreases_to!(m => m->Object_0));
                    }
                    folder_children(fields)
                }
            } else {
                Seq::empty()
            },
            None => Seq::empty(),
        },
        _ => Seq::empty(),
    }
}

/// The records of a folder's children, when it has a `children` array.
pub open spec fn folder_children(fields: Seq<(Seq<char>, JsonModel)>) -> Seq<BookmarkModel>
    decreases fields, 0int,
{
    match obj_lookup(fields, "children"@) {
        Some(c) => match c {
            JsonModel::Array(cs) => {
                proof {
                    lemma_obj_lookup_height(fields, "children"@, 0);
                    assert(decreases_to!(c => c->Array_0));
                }
                walk_list(cs, 0)
            },
            _ => Seq::empty(),
        },
        None => Seq::empty(),
    }
}

/// The records of the nodes of a list, from position `i` on, in order.
pub open spec fn walk_list(cs: Seq<JsonModel>, i: int) -> Seq<BookmarkModel>
    decreases cs, cs.len() - i + 1,
{
    if i < 0 || i >= cs.len() {
        Seq::empty()
    } else {
        {
            proof {
                assert(decreases_to!(cs => cs[i]));
            }
            walk_node(cs[i]) + walk_list(cs, i + 1)
        }
    }
}

/// The records one named root contributes.
pub open spec fn roots_member(fields: Seq<(Seq<char>, JsonModel)>, key: Seq<char>) -> Seq<
    BookmarkModel,
> {
    match obj_lookup(fields, key) {
        Some(v) => walk_node(v),
        None => Seq::empty(),
    }
}

/// The records of the `roots` object: `bookmark_bar`, then `other`, then
/// `synced`, each depth-first.
pub open spec fn roots_bookmarks(r: JsonModel) -> Seq<BookmarkModel> {
    match r {
        JsonModel::Object(fields) => roots_member(fields, "bookmark_bar"@) + roots_member(
            fields,
            "other"@,
        ) + roots_member(fields, "synced"@),
        _ => Seq::empty(),
    }
}

/// The records of a whole document: those of its `roots` object, or none
/// when the document has no such member.
pub open spec fn doc_bookmarks(doc: JsonModel) -> Seq<BookmarkModel> {
    match doc {
        JsonModel::Object(fields) => match obj_lookup(fields, "roots"@) {
            Some(r) => roots_bookmarks(r),
            None => Seq::empty(),
        },
        _ => Seq::empty(),
    }
}

/// A document that is not an object, or has no `roots` member, yields the
/// empty list rather than an error.
pub proof fn lemma_no_roots_empty(doc: JsonModel)
    requires
        doc matches JsonModel::Object(fields) ==> obj_lookup(fields, "roots"@) is None,
    ensures
        doc_bookmarks(doc) == Seq::<BookmarkModel>::empty(),
{
}

/// Every record of a walk has a non-empty URL, whatever the tree holds:
/// a url node whose `url` member is missing, not a string, or empty
/// contributes nothing.
pub proof fn lemma_walk_urls_nonempty(m: JsonModel)
    ensures
        forall|i: int|
            0 <= i < walk_node(m).len() ==> (#[trigger] walk_node(m)[i]).url.len() > 0,
    decreases m, 0int,
{
    reveal_strlit("url");
    reveal_strlit("folder");
    match m {
        JsonModel::Object(fields) => match text_model(obj_lookup(fields, "type"@)) {
            Some(t) => {
                if t == "url"@ {
                    assert(walk_node(m) == url_node_record(fields));
                } else if t == "folder"@ {
                    match obj_lookup(fields, "children"@) {
                        Some(c) => match c {
                            JsonModel::Array(cs) => {
                                lemma_obj_lookup_height(fields, "children"@, 0);
                                assert(decreases_to!(m => m->Object_0));
                                assert(decreases_to!(c => c->Array_0));
                                lemma_list_urls_nonempty(cs, 0);
                                assert(walk_node(m) == walk_list(cs, 0));
                            },
                            _ => {},
                        },
                        None => {},
                    }
                }
            },
            None => {},
        },
        _ => {},
    }
}

/// The same, over the walk of a node list.
pub proof fn lemma_list_urls_nonempty(cs: Seq<JsonModel>, i: int)
    ensures
        forall|k: int|
            0 <= k < walk_list(cs, i).len() ==> (#[trigger] walk_list(cs, i)[k]).url.len() > 0,
    decreases cs, cs.len() - i + 1,
{
    if 0 <= i < cs.len() {
        assert(decreases_to!(cs => cs[i]));
        lemma_walk_urls_nonempty(cs[i]);
        lemma_list_urls_nonempty(cs, i + 1);
        assert forall|k: int|
            0 <= k < walk_list(cs, i).len() implies (#[trigger] walk_list(cs, i)[k]).url.len()
            > 0 by {
            if k < walk_node(cs[i]).len() {
                assert(walk_list(cs, i)[k] == walk_node(cs[i])[k]);
            } else {
                assert(walk_list(cs, i)[k] == walk_list(cs, i + 1)[k - walk_node(cs[i]).len()]);
            }
        }
    }
}

/// Every record extracted from any document has a non-empty URL.
pub proof fn lemma_doc_urls_nonempty(doc: JsonModel)
    ensures
        forall|i: int|
            0 <= i < doc_bookmarks(doc).len() ==> (#[trigger] doc_bookmarks(doc)[i]).url.len() > 0,
{
    match doc {
        JsonModel::Object(fields) => match obj_lookup(fields, "roots"@) {
            Some(r) => match r {
                JsonModel::Object(rfields) => {
                    match obj_lookup(rfields, "bookmark_bar"@) {
                        Some(v) => lemma_walk_urls_nonempty(v),
                        None => (),
                    }
                    match obj_lookup(rfields, "other"@) {
                        Some(v) => lemma_walk_urls_nonempty(v),
                        None => (),
                    }
                    match obj_lookup(rfields, "synced"@) {
                        Some(v) => lemma_walk_urls_nonempty(v),
                        None => (),
                    }
                    assert forall|i: int|
                        0 <= i < doc_bookmarks(doc).len() implies (#[trigger] doc_bookmarks(
                        doc,
                    )[i]).url.len() > 0 by {
                        let a = roots_member(rfields, "bookmark_bar"@);
                        let b = roots_member(rfields, "other"@);
                        let c = roots_member(rfields, "synced"@);
                        if i < a.len() {
                            assert(doc_bookmarks(doc)[i] == a[i]);
                        } else if i < a.len() + b.len() {
                            assert(doc_bookmarks(doc)[i] == b[i - a.len()]);
                        } else {
                            assert(doc_bookmarks(doc)[i] == c[i - a.len() - b.len()]);
                        }
                    }
                },
                _ => {},
            },
            None => {},
        },
        _ => {},
    }
}

/// Finds the member named `key` of an object's member list.
pub fn obj_find<'a>(fields: &'a Vec<(String, JsonValue)>, key: &str) -> (r: Option<&'a JsonValue>)
    ensures
        r matches Some(v) ==> obj_lookup(view_fields_from(fields@, 0), key@) == Some(v@),
        r is None ==> obj_lookup(view_fields_from(fields@, 0), key@) is None,
{
    let key_string = String::from_str(key);
    let ghost fv = view_fields_from(fields@, 0);
    proof {
        lemma_view_fields(fields@, 0);
    }
    let mut i: usize = 0;
    while i < fields.len()
        invariant
            i <= fields.len(),
            fv == view_fields_from(fields@, 0),
            fv.len() == fields@.len(),
            forall|k: int|
                0 <= k < fields@.len() ==> #[trigger] fv[k] == (
                    fields@[k].0@,
                    json_view(fields@[k].1),
                ),
            key_string@ == key@,
            obj_lookup_from(fv, key@, 0) == obj_lookup_from(fv, key@, i as int),
        decreases fields.len() - i,
    {
        if fields[i].0 == key_string {
            proof {
                assert(fv[i as int].0 == key@);
            }
            return Some(&fields[i].1);
        }
        proof {
            assert(fv[i as int].0 != key@);
        }
        i += 1;
    }
    None
}

fn text_of<'a>(v: Option<&'a JsonValue>) -> (r: Option<&'a String>)
    ensures
        ({
            let mo = match v {
                Some(x) => Some(x@),
                None => None::<JsonModel>,
            };
            match r {
                Some(s) => text_model(mo) == Some(s@),
                None => text_model(mo) is None,
            }
        }),
{
    match v {
        Some(x) => match x {
            JsonValue::Text(s) => Some(s),
            _ => {
                proof {
                    lemma_view_variants(*x);
                }
                None
            },
        },
        None => None,
    }
}

/// Walks one node depth-first and appends its records, in order, to
/// `bookmarks`.
pub fn extract_bookmarks(node: &JsonValue, bookmarks: &mut Vec<Bookmark>)
    ensures
        final(bookmarks).deep_view() == old(bookmarks).deep_view() + walk_node(node@),
    decreases node@,
{
    match node {
        JsonValue::Object(fields) => {
            proof {
                lemma_view_fields(fields@, 0);
                assert(node@ == JsonModel::Object(view_fields_from(fields@, 0)));
            }
            let ghost fv = view_fields_from(fields@, 0);
            let ty = text_of(obj_find(fields, "type"));
            match ty {
                Some(t) => {
                    let url_string = String::from_str("url");
                    let folder_string = String::from_str("folder");
                    if *t == url_string {
                        let name_t = text_of(obj_find(fields, "name"));
                        let url_t = text_of(obj_find(fields, "url"));
                        match (name_t, url_t) {
                            (Some(n), Some(u)) => {
                                if !u.as_str().is_empty() {
                                    bookmarks.push(Bookmark { name: n.clone(), url: u.clone() });
                                    proof {
                                        assert(walk_node(node@) =~= seq![
                                            BookmarkModel { name: n@, url: u@ },
                                        ]);
                                        assert(bookmarks.deep_view() =~= old(
                                            bookmarks,
                                        ).deep_view() + walk_node(node@));
                                    }
                                } else {
                                    proof {
                                        assert(walk_node(node@) =~= Seq::<BookmarkModel>::empty());
                                        assert(bookmarks.deep_view() =~= old(
                                            bookmarks,
                                        ).deep_view() + walk_node(node@));
                                    }
                                }
                            },
                            _ => {
                                proof {
                                    assert(walk_node(node@) =~= Seq::<BookmarkModel>::empty());
                                    assert(bookmarks.deep_view() =~= old(bookmarks).deep_view()
                                        + walk_node(node@));
                                }
                            },
                        }
                    } else if *t == folder_string {
                        let ch = obj_find(fields, "children");
                        match ch {
                            Some(cv) => match cv {
                                JsonValue::Array(cs) => {
                                    proof {
                                        lemma_view_list(cs@, 0);
                                        assert(cv@ == JsonModel::Array(view_list_from(cs@, 0)));
                                    }
                                    let ghost vcs = view_list_from(cs@, 0);
                                    let ghost pre = bookmarks.deep_view();
                                    let mut j: usize = 0;
                                    while j < cs.len()
                                        invariant
                                            j <= cs.len(),
                                            vcs == view_list_from(cs@, 0),
                                            vcs.len() == cs@.len(),
                                            forall|k: int|
                                                0 <= k < cs@.len() ==> #[trigger] vcs[k]
                                                    == json_view(cs@[k]),
                                            pre + walk_list(vcs, 0) == bookmarks.deep_view()
                                                + walk_list(vcs, j as int),
                                            node@ == JsonModel::Object(fv),
                                            obj_lookup(fv, "children"@) == Some(cv@),
                                            cv@ == JsonModel::Array(vcs),
                                        decreases cs.len() - j,
                                    {
                                        proof {
                                            assert(decreases_to!(node@ => node@->Object_0));
                                            lemma_obj_lookup_height(fv, "children"@, 0);
                                            assert(decreases_to!(cv@ => cv@->Array_0));
                                            assert(decreases_to!(vcs => vcs[j as int]));
                                        }
                                        extract_bookmarks(&cs[j], bookmarks);
                                        proof {
                                            assert(walk_list(vcs, j as int) == walk_node(
                                                vcs[j as int],
                                            ) + walk_list(vcs, j + 1));
                                            assert(pre + walk_list(vcs, 0) =~= bookmarks.deep_view()
                                                + walk_list(vcs, j + 1));
                                        }
                                        j += 1;
                                    }
                                    proof {
                                        assert(walk_list(vcs, cs@.len() as int)
                                            =~= Seq::<BookmarkModel>::empty());
                                        assert(walk_node(node@) == folder_children(fv));
                                        assert(bookmarks.deep_view() =~= old(
                                            bookmarks,
                                        ).deep_view() + walk_node(node@));
                                    }
                                },
                                _ => {
                                    proof {
                                        lemma_view_variants(*cv);
                                        assert(walk_node(node@) =~= Seq::<BookmarkModel>::empty());
                                        assert(bookmarks.deep_view() =~= old(
                                            bookmarks,
                                        ).deep_view() + walk_node(node@));
                                    }
                                },
                            },
                            None => {
                                proof {
                                    assert(walk_node(node@) =~= Seq::<BookmarkModel>::empty());
                                    assert(bookmarks.deep_view() =~= old(bookmarks).deep_view()
                                        + walk_node(node@));
                                }
                            },
                        }
                    } else {
                        proof {
                            assert(walk_node(node@) =~= Seq::<BookmarkModel>::empty());
                            assert(bookmarks.deep_view() =~= old(bookmarks).deep_view()
                                + walk_node(node@));
                        }
                    }
                },
                None => {
                    proof {
                        assert(walk_node(node@) =~= Seq::<BookmarkModel>::empty());
                        assert(bookmarks.deep_view() =~= old(bookmarks).deep_view() + walk_node(
                            node@,
                        ));
                    }
                },
            }
        },
        _ => {
            proof {
                assert(walk_node(node@) =~= Seq::<BookmarkModel>::empty());
                assert(bookmarks.deep_view() =~= old(bookmarks).deep_view() + walk_node(node@));
            }
        },
    }
}

/// Extracts every record of a parsed document: the three known roots of
/// its `roots` object, each walked depth-first, concatenated in order.
pub fn extract_from_document(doc: &JsonValue) -> (r: Vec<Bookmark>)
    ensures
        r.deep_view() == doc_bookmarks(doc@),
{
    let mut out: Vec<Bookmark> = Vec::new();
    match doc {
        JsonValue::Object(fields) => {
            proof {
                lemma_view_fields(fields@, 0);
                assert(doc@ == JsonModel::Object(view_fields_from(fields@, 0)));
            }
            match obj_find(fields, "roots") {
                Some(rv) => match rv {
                    JsonValue::Object(rfields) => {
                        proof {
                            lemma_view_fields(rfields@, 0);
                            assert(rv@ == JsonModel::Object(view_fields_from(rfields@, 0)));
                        }
                        let ghost rfv = view_fields_from(rfields@, 0);
                        match obj_find(rfields, "bookmark_bar") {
                            Some(n) => extract_bookmarks(n, &mut out),
                            None => {},
                        }
                        proof {
                            assert(out.deep_view() =~= roots_member(rfv, "bookmark_bar"@));
                        }
                        match obj_find(rfields, "other") {
                            Some(n) => extract_bookmarks(n, &mut out),
                            None => {},
                        }
                        proof {
                            assert(out.deep_view() =~= roots_member(rfv, "bookmark_bar"@)
                                + roots_member(rfv, "other"@));
                        }
                        match obj_find(rfields, "synced") {
                            Some(n) => extract_bookmarks(n, &mut out),
                            None => {},
                        }
                        proof {
                            assert(out.deep_view() =~= doc_bookmarks(doc@));
                        }
                    },
                    _ => {
                        proof {
                            lemma_view_variants(*rv);
                        }
                    },
                },
                None => {},
            }
        },
        _ => {},
    }
    out
}

#[verifier::external_type_specification]
#[verifier::external_body]
pub struct ExJsonValue(serde_json::Value);

/// What the outside JSON parser builds from a text, as this crate's model.
pub uninterp spec fn value_model(v: serde_json::Value) -> JsonModel;

/// The JSON document a text denotes. The result depends on the characters
/// alone.
pub uninterp spec fn json_of(s: Seq<char>) -> JsonModel;

/// Whether the outside parser accepts a text: valid JSON within the
/// parser's nesting bound. Depends on the characters alone.
pub uninterp spec fn json_wf(s: Seq<char>) -> bool;

/// Relies on serde_json::from_str::<serde_json::Value>: parses a JSON text
/// into a generic JSON value. Whether the text is accepted and the value
/// the parse builds are both functions of the text alone.
#[verifier::external_body]
fn json_parse(s: &str) -> (r: Option<serde_json::Value>)
    ensures
        r is Some <==> json_wf(s@),
        r matches Some(v) ==> value_model(v) == json_of(s@),
{
    serde_json::from_str::<serde_json::Value>(s).ok()
}

/// Relies on the shape of serde_json::Value: rebuilds the parsed value as
/// the crate's own tree, one variant at a time; object members keep the
/// parser's member order, array elements keep theirs.
#[verifier::external_body]
fn json_convert(v: &serde_json::Value) -> (r: JsonValue)
    ensures
        r@ == value_model(*v),
{
    match v {
        serde_json::Value::Null => JsonValue::Null,
        serde_json::Value::Bool(b) => JsonValue::Bool(*b),
        serde_json::Value::Number(_) => JsonValue::Number,
        serde_json::Value::String(s) => JsonValue::Text(s.clone()),
        serde_json::Value::Array(a) => JsonValue::Array(a.iter().map(json_convert).collect()),
        serde_json::Value::Object(m) => JsonValue::Object(
            m.iter().map(|(k, x)| (k.clone(), json_convert(x))).collect(),
        ),
    }
}

/// Parses the content of a Chromium bookmark file and extracts its records.
/// Content the JSON parser rejects is the one failure; a document of an
/// unexpected shape degrades to the empty list.
pub fn parse_chromium_bookmarks(content: &str) -> (r: Result<Vec<Bookmark>, ExtractError>)
    ensures
        r is Ok <==> json_wf(content@),
        r matches Ok(bs) ==> bs.deep_view() == doc_bookmarks(json_of(content@)),
        r matches Err(e) ==> e@ == ErrorModel::ParseError,
{
    match json_parse(content) {
        None => Err(ExtractError::ParseError),
        Some(v) => {
            let tree = json_convert(&v);
            Ok(extract_from_document(&tree))
        },
    }
}

} // verus!
