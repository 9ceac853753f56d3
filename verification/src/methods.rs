use vstd::prelude::*;
use vstd::string::StringExecFns;
use crate::json::Json;
use crate::render::{elements_at, get_array, render_type, type_to_string};
use crate::table::{keys_unique, lookup, put};
use crate::types::{Item, RustdocJson};

verus! {

/// The text that a table of texts holds under `key`.
pub open spec fn text_under(entries: Seq<(String, String)>, key: Seq<char>) -> Option<Seq<char>> {
    match lookup(entries, key) {
        Some(t) => Some(t@),
        None => None,
    }
}

/// The id of the item that a type node names: that of its
/// `resolved_path`, or its own where it is a direct path with `id` and `path`.
pub open spec fn type_id(val: Json) -> Option<Seq<char>> {
    match val.member("resolved_path"@) {
        Some(rp) => match rp.member("id"@) {
            Some(id) => id.id_text(),
            None => None,
        },
        None => match val.member("id"@) {
            Some(id) => if val.member("path"@) is Some {
                id.id_text()
            } else {
                None
            },
            None => None,
        },
    }
}

/// The id of the item that a type node names.
pub fn type_item_id(val: &Json) -> (r: Option<String>)
    ensures
        match r {
            Some(id) => type_id(*val) == Some(id@),
            None => type_id(*val) is None,
        },
{
    match val.get("resolved_path") {
        Some(rp) => match rp.get("id") {
            Some(id) => id.id_string(),
            None => None,
        },
        None => match val.get("id") {
            Some(id) => if val.get("path").is_some() {
                id.id_string()
            } else {
                None
            },
            None => None,
        },
    }
}

/// The body of an inherent impl: the object under `impl` of an item of
/// kind `impl` whose `trait` is missing or null.
pub open spec fn inherent_impl(item: Item) -> Option<Json> {
    if item.kind_text() == Some("impl"@) {
        match item.inner.member("impl"@) {
            Some(body) => match body.member("trait"@) {
                Some(t) => if t is Null {
                    Some(body)
                } else {
                    None
                },
                None => Some(body),
            },
            None => None,
        }
    } else {
        None
    }
}

/// The path of the type that a node names: its fully qualified name where
/// the path table knows its id, else its rendering.
pub open spec fn owner_path(doc: RustdocJson, target: Json) -> Seq<char> {
    match type_id(target) {
        Some(id) => match doc.path_at(id) {
            Some(p) => p.full_name(),
            None => render_type(target),
        },
        None => render_type(target),
    }
}

/// The owner that an item gives to the methods it lists: the path of the
/// target of an inherent impl, where that path is not empty.
pub open spec fn impl_owner(doc: RustdocJson, item: Item) -> Option<Seq<char>> {
    match inherent_impl(item) {
        Some(body) => match body.member("for"@) {
            Some(target) => if owner_path(doc, target).len() == 0 {
                None
            } else {
                Some(owner_path(doc, target))
            },
            None => None,
        },
        None => None,
    }
}

/// The ids that an impl body lists.
pub open spec fn listed_methods(body: Json) -> Seq<Json> {
    match elements_at(body, "items"@) {
        Some(ids) => ids,
        None => Seq::empty(),
    }
}

/// Whether one of the listed id values stands for `id`.
pub open spec fn names_id(ids: Seq<Json>, id: Seq<char>) -> bool {
    exists|k: int| 0 <= k < ids.len() && (#[trigger] ids[k]).id_text() == Some(id)
}

/// The owner of method `id` as the first `upto` items of the index give
/// it: that of the last inherent impl among them that lists the id.
pub open spec fn owner_within(doc: RustdocJson, id: Seq<char>, upto: int) -> Option<Seq<char>>
    decreases upto,
{
    if upto <= 0 || upto > doc.index@.len() {
        None
    } else {
        let item = doc.index@[upto - 1].1;
        if impl_owner(doc, item) is Some && names_id(listed_methods(inherent_impl(item)->0), id) {
            impl_owner(doc, item)
        } else {
            owner_within(doc, id, upto - 1)
        }
    }
}

/// The path of the type that owns method `id`: that of the last inherent
/// impl of the index that lists it.
pub open spec fn method_owner(doc: RustdocJson, id: Seq<char>) -> Option<Seq<char>> {
    owner_within(doc, id, doc.index@.len() as int)
}

/// The body of an inherent impl.
fn get_inherent_impl(item: &Item) -> (r: Option<&Json>)
    ensures
        match r {
            Some(b) => inherent_impl(*item) == Some(*b),
            None => inherent_impl(*item) is None,
        },
{
    if !item.is_kind("impl") {
        return None;
    }
    match item.inner_for("impl") {
        Some(body) => match body.get("trait") {
            Some(t) => if t.is_null() {
                Some(body)
            } else {
                None
            },
            None => Some(body),
        },
        None => None,
    }
}

/// The path of the type that a node names.
pub fn resolve_owner_path(doc: &RustdocJson, target: &Json) -> (r: String)
    ensures
        r@ == owner_path(*doc, *target),
{
    match type_item_id(target) {
        Some(id) => match doc.path_entry(id.as_str()) {
            Some(p) => p.full_path(),
            None => type_to_string(target),
        },
        None => type_to_string(target),
    }
}

/// Records `owner` for each id that `ids` names.
fn put_all(map: &mut Vec<(String, String)>, ids: &Vec<Json>, owner: &str)
    requires
        keys_unique(old(map)@),
    ensures
        keys_unique(final(map)@),
        forall|k: Seq<char>|
            text_under(final(map)@, k) == (if names_id(ids@, k) {
                Some(owner@)
            } else {
                text_under(old(map)@, k)
            }),
{
    let mut j: usize = 0;
    while j < ids.len()
        invariant
            j <= ids.len(),
            keys_unique(map@),
            forall|k: Seq<char>|
                text_under(map@, k) == (if names_id(ids@.take(j as int), k) {
                    Some(owner@)
                } else {
                    text_under(old(map)@, k)
                }),
        decreases ids.len() - j,
    {
        let ghost seen = ids@.take(j as int);
        let ghost next = ids@.take(j + 1);
        let ghost here = ids@[j as int].id_text();
        assert forall|k: Seq<char>| names_id(next, k) == (names_id(seen, k) || here == Some(k)) by {
            if names_id(next, k) {
                let w = choose|w: int| 0 <= w < next.len() && (#[trigger] next[w]).id_text() == Some(k);
                if w < j {
                    assert(seen[w].id_text() == Some(k));
                }
            }
            if names_id(seen, k) {
                let w = choose|w: int| 0 <= w < seen.len() && (#[trigger] seen[w]).id_text() == Some(k);
            }
            if here == Some(k) {
                assert(next[j as int].id_text() == Some(k));
            }
        }
        let ghost before = map@;
        match ids[j].id_string() {
            Some(mid) => {
                let value = String::from_str(owner);
                put(map, mid, value);
                assert forall|k: Seq<char>|
                    text_under(map@, k) == (if here == Some(k) {
                        Some(owner@)
                    } else {
                        text_under(before, k)
                    }) by {
                    assert(lookup(map@, k) == (if k == mid@ {
                        Some(value)
                    } else {
                        lookup(before, k)
                    }));
                }
            },
            None => {},
        }
        j += 1;
    }
    assert(ids@.take(ids.len() as int) =~= ids@);
}

/// For each method that an inherent impl lists, the path of the type that
/// owns it; where several impls list one id, the last of them decides.
/// Trait impls give no owner.
pub fn build_method_parent_map(doc: &RustdocJson) -> (map: Vec<(String, String)>)
    ensures
        keys_unique(map@),
        forall|id: Seq<char>| text_under(map@, id) == method_owner(*doc, id),
{
    let mut map: Vec<(String, String)> = Vec::new();
    let mut i: usize = 0;
    while i < doc.index.len()
        invariant
            i <= doc.index.len(),
            keys_unique(map@),
            forall|id: Seq<char>| text_under(map@, id) == owner_within(*doc, id, i as int),
        decreases doc.index.len() - i,
    {
        let item = &doc.index[i].1;
        if let Some(body) = get_inherent_impl(item) {
            if let Some(target) = body.get("for") {
                let owner = resolve_owner_path(doc, target);
                if !owner.as_str().is_empty() {
                    let none: Vec<Json> = Vec::new();
                    let ids = match get_array(body, "items") {
                        Some(v) => v,
                        None => &none,
                    };
                    assert(ids@ =~= listed_methods(*body));
                    put_all(&mut map, ids, owner.as_str());
                }
            }
        }
        i += 1;
    }
    map
}

} // verus!
