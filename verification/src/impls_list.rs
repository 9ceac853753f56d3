use vstd::prelude::*;
use vstd::string::StringExecFns;
use crate::impls::{get_impl_ids, get_implemented_trait, impl_ids, implemented_trait, last_segment};
use crate::json::Json;
use crate::lookup::{find_by_path, named_entry};
use crate::render::{flag_at, get_flag, get_str, render_type, text_at, type_to_string};
use crate::signature::opt_member;
use crate::text::{contains, ends_with, find_last, from_chars, has_sub, lower, lowercase, opt_view, str_same, text_of, to_chars, views};
use crate::types::{Item, RustdocJson};

verus! {

/// A type that implements a trait, with the names of the generic
/// parameters of the impl where it has any.
#[derive(Debug)]
pub struct Implementor {
    pub for_type: String,
    pub impl_generics: Option<Vec<String>>,
}

/// What an `Implementor` holds.
pub struct ImplementorView {
    pub for_type: Seq<char>,
    pub impl_generics: Option<Seq<Seq<char>>>,
}

impl Implementor {
    /// What the value holds.
    pub open spec fn view(self) -> ImplementorView {
        ImplementorView {
            for_type: self.for_type@,
            impl_generics: match self.impl_generics {
                Some(g) => Some(views(g@)),
                None => None,
            },
        }
    }
}

/// What a list of implementors holds.
pub open spec fn implementors_view(list: Seq<Implementor>) -> Seq<ImplementorView> {
    list.map_values(|i: Implementor| i.view())
}

/// A trait named `name` in an impl is the trait that `asked` names: by
/// its last segment, by its whole text, or as the end of it after `::`.
pub open spec fn names_trait(name: Seq<char>, asked: Seq<char>) -> bool {
    name == last_segment(asked) || name == asked || ends_with(asked, "::"@ + name)
}

/// The name of the type that an impl is for: the path of a resolved
/// path, else the rendering of the node; empty where there is none.
pub open spec fn target_name(body: Json) -> Seq<char> {
    match body.member("for"@) {
        Some(target) => match opt_member(target.member("resolved_path"@), "path"@) {
            Some(p) => match p.text() {
                Some(t) => t,
                None => render_type(target),
            },
            None => render_type(target),
        },
        None => Seq::empty(),
    }
}

/// The names of the generic parameters, in order; a parameter without a
/// name left out.
pub open spec fn param_names(params: Seq<Json>) -> Seq<Seq<char>>
    decreases params.len(),
{
    if params.len() == 0 {
        Seq::empty()
    } else {
        let before = param_names(params.drop_last());
        match text_at(params.last(), "name"@) {
            Some(n) => before.push(n),
            None => before,
        }
    }
}

/// The names of the generic parameters of an impl; none where it has no
/// named parameter.
pub open spec fn impl_generic_names(body: Json) -> Option<Seq<Seq<char>>> {
    match opt_member(body.member("generics"@), "params"@) {
        Some(p) => match p.elements() {
            Some(ps) => if param_names(ps).len() == 0 {
                None
            } else {
                Some(param_names(ps))
            },
            None => None,
        },
        None => None,
    }
}

/// What an item tells as an implementor of the trait `asked`: it is an
/// impl of that trait, not a compiler-made one, for a type whose name is
/// not empty and holds the search text.
pub open spec fn implementor_of(item: Item, asked: Seq<char>, search: Option<Seq<char>>) -> Option<
    ImplementorView,
> {
    match implemented_trait(item) {
        None => None,
        Some(t) => {
            let body = item.inner.member("impl"@)->0;
            let name = match text_at(t, "path"@) {
                Some(n) => n,
                None => Seq::empty(),
            };
            if !names_trait(name, asked) || target_name(body).len() == 0 || (search is Some
                && !has_sub(lowercase(target_name(body)), search->0)) {
                None
            } else {
                Some(
                    ImplementorView {
                        for_type: target_name(body),
                        impl_generics: impl_generic_names(body),
                    },
                )
            }
        },
    }
}

/// The implementors among the first `upto` items of the index, in order.
pub open spec fn implementors_within(
    doc: RustdocJson,
    asked: Seq<char>,
    search: Option<Seq<char>>,
    upto: int,
) -> Seq<ImplementorView>
    decreases upto,
{
    if upto <= 0 || upto > doc.index@.len() {
        Seq::empty()
    } else {
        let before = implementors_within(doc, asked, search, upto - 1);
        match implementor_of(doc.index@[upto - 1].1, asked, search) {
            Some(i) => before.push(i),
            None => before,
        }
    }
}

/// The first `limit` of a list, or all where there are fewer.
pub open spec fn first_of<T>(list: Seq<T>, limit: int) -> Seq<T> {
    if 0 <= limit < list.len() {
        list.take(limit)
    } else {
        list
    }
}

/// Whether `hay` ends with `head` followed by `tail`.
fn ends_with_pair(hay: &str, head: &str, tail: &str) -> (r: bool)
    ensures
        r == ends_with(hay@, head@ + tail@),
{
    let h = to_chars(hay);
    let mut n = to_chars(head);
    let t = to_chars(tail);
    let mut k: usize = 0;
    while k < t.len()
        invariant
            k <= t.len(),
            n@ == head@ + t@.take(k as int),
        decreases t.len() - k,
    {
        n.push(t[k]);
        assert(n@ =~= head@ + t@.take(k + 1));
        k += 1;
    }
    assert(t@.take(t.len() as int) =~= t@);
    if n.len() > h.len() {
        return false;
    }
    crate::text::chars_match_at(&h, &n, h.len() - n.len())
}

/// The last segment of a path.
pub fn last_segment_of(path: &str) -> (r: String)
    ensures
        r@ == last_segment(path@),
{
    let chars = to_chars(path);
    let sep = to_chars("::");
    match find_last(&chars, &sep) {
        Some(i) => from_chars(&chars, i + sep.len(), chars.len()),
        None => {
            assert(chars@.subrange(0, chars.len() as int) =~= chars@);
            from_chars(&chars, 0, chars.len())
        },
    }
}

fn write_target_name(body: &Json) -> (r: String)
    ensures
        r@ == target_name(*body),
{
    match body.get("for") {
        Some(target) => {
            let path = match target.get("resolved_path") {
                Some(rp) => rp.get("path"),
                None => None,
            };
            match path {
                Some(p) => match p.as_str() {
                    Some(t) => String::from_str(t),
                    None => type_to_string(target),
                },
                None => type_to_string(target),
            }
        },
        None => String::new(),
    }
}

fn read_param_names(params: &Vec<Json>) -> (out: Vec<String>)
    ensures
        views(out@) == param_names(params@),
{
    let mut out: Vec<String> = Vec::new();
    assert(views(out@) =~= Seq::empty());
    let mut i: usize = 0;
    while i < params.len()
        invariant
            i <= params.len(),
            views(out@) == param_names(params@.take(i as int)),
        decreases params.len() - i,
    {
        assert(params@.take(i + 1).drop_last() =~= params@.take(i as int));
        let ghost before = out@;
        match get_str(&params[i], "name") {
            Some(n) => {
                let s = String::from_str(n);
                out.push(s);
                assert(views(out@) =~= views(before).push(s@));
            },
            None => {},
        }
        i += 1;
    }
    assert(params@.take(params.len() as int) =~= params@);
    out
}

fn read_impl_generics(body: &Json) -> (r: Option<Vec<String>>)
    ensures
        match r {
            Some(g) => impl_generic_names(*body) == Some(views(g@)),
            None => impl_generic_names(*body) is None,
        },
{
    let params = match body.get("generics") {
        Some(g) => g.get("params"),
        None => None,
    };
    match params {
        Some(p) => match p.as_array() {
            Some(ps) => {
                let names = read_param_names(ps);
                if names.len() == 0 {
                    None
                } else {
                    Some(names)
                }
            },
            None => None,
        },
        None => None,
    }
}

/// What an item tells as an implementor of the trait `trait_path`.
fn read_implementor(item: &Item, trait_path: &str, trait_last: &str, search_lower: Option<&str>) -> (r:
    Option<Implementor>)
    requires
        trait_last@ == last_segment(trait_path@),
    ensures
        match r {
            Some(i) => implementor_of(*item, trait_path@, opt_view(search_lower))
                == Some(i.view()),
            None => implementor_of(*item, trait_path@, opt_view(search_lower))
                is None,
        },
{
    let t = match get_implemented_trait(item) {
        Some(t) => t,
        None => {
            return None;
        },
    };
    let body = match item.inner_for("impl") {
        Some(b) => b,
        None => {
            return None;
        },
    };
    let name = match get_str(t, "path") {
        Some(n) => n,
        None => {
            proof {
                reveal_strlit("");
                assert(""@ =~= Seq::<char>::empty());
            }
            ""
        },
    };
    if !(str_same(name, trait_last) || str_same(name, trait_path) || ends_with_pair(
        trait_path,
        "::",
        name,
    )) {
        return None;
    }
    let for_type = write_target_name(body);
    if for_type.as_str().is_empty() {
        return None;
    }
    if let Some(search) = search_lower {
        let lowered = lower(for_type.as_str());
        if !contains(lowered.as_str(), search) {
            return None;
        }
    }
    Some(Implementor { for_type, impl_generics: read_impl_generics(body) })
}

/// The types of a crate that implement a trait, in the order of the
/// index, `limit` at most: the impls of a trait of that name (by its
/// last segment or its whole path) that the compiler did not make, for a
/// type whose name holds `search_lower` where one is given.
pub fn find_implementors(doc: &RustdocJson, trait_path: &str, search_lower: Option<&str>, limit: usize) -> (out:
    Vec<Implementor>)
    ensures
        implementors_view(out@) == first_of(
            implementors_within(
                *doc,
                trait_path@,
                opt_view(search_lower),
                doc.index@.len() as int,
            ),
            limit as int,
        ),
{
    let trait_last = last_segment_of(trait_path);
    let mut out: Vec<Implementor> = Vec::new();
    assert(implementors_view(out@) =~= Seq::empty());
    let mut i: usize = 0;
    while i < doc.index.len()
        invariant
            i <= doc.index.len(),
            trait_last@ == last_segment(trait_path@),
            implementors_view(out@) == implementors_within(
                *doc,
                trait_path@,
                opt_view(search_lower),
                i as int,
            ),
        decreases doc.index.len() - i,
    {
        let ghost before = out@;
        match read_implementor(&doc.index[i].1, trait_path, trait_last.as_str(), search_lower) {
            Some(found) => {
                out.push(found);
                assert(implementors_view(out@) =~= implementors_view(before).push(found.view()));
            },
            None => {},
        }
        i += 1;
    }
    if limit < out.len() {
        let ghost all = implementors_view(out@);
        out.truncate(limit);
        assert(implementors_view(out@) =~= all.take(limit as int));
    }
    out
}

/// One impl block of a type: the trait it implements, or that it is inherent.
#[derive(Debug)]
pub struct Implementation {
    pub trait_path: Option<String>,
    pub is_inherent: bool,
}

/// What an `Implementation` holds.
pub struct ImplementationView {
    pub trait_path: Option<Seq<char>>,
    pub is_inherent: bool,
}

impl Implementation {
    /// What the value holds.
    pub open spec fn view(self) -> ImplementationView {
        ImplementationView { trait_path: text_of(self.trait_path), is_inherent: self.is_inherent }
    }
}

/// What a list of implementations holds.
pub open spec fn implementations_view(list: Seq<Implementation>) -> Seq<ImplementationView> {
    list.map_values(|i: Implementation| i.view())
}

/// What an impl block tells of its type: the trait it implements,
/// rendered, or that it is inherent. Nothing for a compiler-made impl,
/// and for one whose trait (`inherent` for an inherent impl) does not
/// hold the search text.
pub open spec fn implementation_of(block: Item, search: Option<Seq<char>>) -> Option<
    ImplementationView,
> {
    match block.inner.member("impl"@) {
        None => None,
        Some(body) => {
            let inherent = match body.member("trait"@) {
                Some(t) => t is Null,
                None => true,
            };
            let path = if inherent {
                None
            } else {
                Some(render_type(body.member("trait"@)->0))
            };
            let shown = match path {
                Some(p) => p,
                None => "inherent"@,
            };
            if flag_at(body, "is_synthetic"@) || (search is Some && !has_sub(
                lowercase(shown),
                search->0,
            )) {
                None
            } else {
                Some(ImplementationView { trait_path: path, is_inherent: inherent })
            }
        },
    }
}

/// What the impl blocks tell, in order.
pub open spec fn implementations_among(doc: RustdocJson, impls: Seq<Seq<char>>, search: Option<Seq<char>>) -> Seq<
    ImplementationView,
>
    decreases impls.len(),
{
    if impls.len() == 0 {
        Seq::empty()
    } else {
        let before = implementations_among(doc, impls.drop_last(), search);
        match doc.item_at(impls.last()) {
            Some(block) => match implementation_of(block, search) {
                Some(i) => before.push(i),
                None => before,
            },
            None => before,
        }
    }
}

fn read_implementation(block: &Item, search_lower: Option<&str>) -> (r: Option<Implementation>)
    ensures
        match r {
            Some(i) => implementation_of(*block, opt_view(search_lower)) == Some(
                i.view(),
            ),
            None => implementation_of(*block, opt_view(search_lower)) is None,
        },
{
    let body = match block.inner_for("impl") {
        Some(b) => b,
        None => {
            return None;
        },
    };
    let named = match body.get("trait") {
        Some(t) => if t.is_null() {
            None
        } else {
            Some(t)
        },
        None => None,
    };
    if get_flag(body, "is_synthetic") {
        return None;
    }
    let trait_path = match named {
        Some(t) => Some(type_to_string(t)),
        None => None,
    };
    if let Some(search) = search_lower {
        let shown = match &trait_path {
            Some(p) => lower(p.as_str()),
            None => lower("inherent"),
        };
        if !contains(shown.as_str(), search) {
            return None;
        }
    }
    let is_inherent = trait_path.is_none();
    Some(Implementation { trait_path, is_inherent })
}

/// Why the impls of a type cannot be listed.
#[derive(Debug)]
pub enum ImplsError {
    /// No entry of the path table answers the path.
    TypeNotFound,
    /// The path table knows the type, but the index does not hold the
    /// item with this id.
    NotInIndex { id: String },
}

/// The impl blocks of a type, in the order in which the type lists them,
/// `limit` at most: for each the trait it implements, written with its
/// generic arguments, or that it is inherent. Compiler-made impls are
/// left out, and with a search text those whose trait does not hold it.
pub fn find_implementations(
    doc: &RustdocJson,
    type_path: &str,
    search_lower: Option<&str>,
    limit: usize,
) -> (r: Result<Vec<Implementation>, ImplsError>)
    ensures
        match r {
            Ok(out) => {
                let at = named_entry(*doc, type_path@);
                &&& at is Some
                &&& doc.item_at(doc.paths@[at->0].0@) is Some
                &&& implementations_view(out@) == first_of(
                    implementations_among(
                        *doc,
                        impl_ids(doc.item_at(doc.paths@[at->0].0@)->0),
                        opt_view(search_lower),
                    ),
                    limit as int,
                )
            },
            Err(ImplsError::TypeNotFound) => named_entry(*doc, type_path@) is None,
            Err(ImplsError::NotInIndex { id }) => {
                let at = named_entry(*doc, type_path@);
                &&& at is Some
                &&& doc.item_at(doc.paths@[at->0].0@) is None
                &&& id@ == doc.paths@[at->0].0@
            },
        },
{
    let at = match find_by_path(doc, type_path) {
        Some(at) => at,
        None => {
            return Err(ImplsError::TypeNotFound);
        },
    };
    let item = match doc.item(doc.paths[at].0.as_str()) {
        Some(i) => i,
        None => {
            return Err(ImplsError::NotInIndex { id: doc.paths[at].0.clone() });
        },
    };
    let impls = get_impl_ids(item);
    let ghost ids_all = views(impls@);
    let mut out: Vec<Implementation> = Vec::new();
    assert(implementations_view(out@) =~= Seq::empty());
    let mut i: usize = 0;
    while i < impls.len()
        invariant
            i <= impls.len(),
            ids_all == views(impls@),
            implementations_view(out@) == implementations_among(
                *doc,
                ids_all.take(i as int),
                opt_view(search_lower),
            ),
        decreases impls.len() - i,
    {
        assert(ids_all.take(i + 1).drop_last() =~= ids_all.take(i as int));
        let ghost before = out@;
        if let Some(block) = doc.item(impls[i].as_str()) {
            if let Some(found) = read_implementation(block, search_lower) {
                out.push(found);
                assert(implementations_view(out@) =~= implementations_view(before).push(
                    found.view(),
                ));
            }
        }
        i += 1;
    }
    assert(ids_all.take(impls.len() as int) =~= ids_all);
    if limit < out.len() {
        let ghost all = implementations_view(out@);
        out.truncate(limit);
        assert(implementations_view(out@) =~= all.take(limit as int));
    }
    Ok(out)
}

} // verus!
