use vstd::prelude::*;
use vstd::string::StringExecFns;
use crate::features::{compiles, extract_feature_requirements, feature_pattern, found_in, is_selection};
use crate::json::Json;
use crate::methods::listed_methods;
use crate::module_tree::{item_of, resolve};
use crate::render::{elements_at, flag_at, get_array, get_flag, render_type, type_to_string};
use crate::signature::{function_signature, signature_text};
use crate::text::{begins_with, chars_match_at, copy_range, copy_text, find_from, find_last, first_occurrence, is_text, last_of, text_of, to_chars, trim_chars, trimmed, views};
use crate::types::{Item, RustdocJson, attr_texts};

verus! {

/// The ids that the values stand for, in order; a value that is neither
/// a number nor a string left out.
pub open spec fn id_texts(ids: Seq<Json>) -> Seq<Seq<char>>
    decreases ids.len(),
{
    if ids.len() == 0 {
        Seq::empty()
    } else {
        let before = id_texts(ids.drop_last());
        match ids.last().id_text() {
            Some(t) => before.push(t),
            None => before,
        }
    }
}

/// The kinds of item that list their impl blocks.
pub open spec fn impl_kinds() -> Seq<Seq<char>> {
    seq!["struct"@, "enum"@, "union"@, "primitive"@]
}

/// The impl ids under the first of `kinds`, from position `from` on,
/// under which the item lists impls.
pub open spec fn impl_ids_from(item: Item, kinds: Seq<Seq<char>>, from: int) -> Seq<Seq<char>>
    decreases kinds.len() - from,
{
    if from < 0 || from >= kinds.len() {
        Seq::empty()
    } else {
        match item.inner.member(kinds[from]) {
            Some(inner) => match elements_at(inner, "impls"@) {
                Some(ids) => id_texts(ids),
                None => impl_ids_from(item, kinds, from + 1),
            },
            None => impl_ids_from(item, kinds, from + 1),
        }
    }
}

/// The ids of the impl blocks of a struct, enum, union or primitive.
pub open spec fn impl_ids(item: Item) -> Seq<Seq<char>> {
    impl_ids_from(item, impl_kinds(), 0)
}

/// The ids that the values stand for.
pub fn id_strings(ids: &Vec<Json>) -> (out: Vec<String>)
    ensures
        views(out@) == id_texts(ids@),
{
    let mut out: Vec<String> = Vec::new();
    assert(views(out@) =~= Seq::empty());
    let mut i: usize = 0;
    while i < ids.len()
        invariant
            i <= ids.len(),
            views(out@) == id_texts(ids@.take(i as int)),
        decreases ids.len() - i,
    {
        assert(ids@.take(i + 1).drop_last() =~= ids@.take(i as int));
        let ghost before = out@;
        match ids[i].id_string() {
            Some(s) => {
                out.push(s);
                assert(views(out@) =~= views(before).push(s@));
            },
            None => {},
        }
        i += 1;
    }
    assert(ids@.take(ids.len() as int) =~= ids@);
    out
}

/// The ids of the impl blocks of a struct, enum, union or primitive;
/// none for any other item.
pub fn get_impl_ids(item: &Item) -> (out: Vec<String>)
    ensures
        views(out@) == impl_ids(*item),
{
    let mut kinds: Vec<&str> = Vec::new();
    kinds.push("struct");
    kinds.push("enum");
    kinds.push("union");
    kinds.push("primitive");
    let ghost names = impl_kinds();
    let mut i: usize = 0;
    while i < kinds.len()
        invariant
            i <= kinds.len(),
            names == impl_kinds(),
            kinds@.len() == names.len(),
            forall|k: int| 0 <= k < kinds@.len() ==> (#[trigger] kinds@[k])@ == names[k],
            impl_ids(*item) == impl_ids_from(*item, names, i as int),
        decreases kinds.len() - i,
    {
        if let Some(inner) = item.inner_for(kinds[i]) {
            if let Some(ids) = get_array(inner, "impls") {
                return id_strings(ids);
            }
        }
        i += 1;
    }
    let out: Vec<String> = Vec::new();
    assert(views(out@) =~= Seq::empty());
    out
}

/// The body of an impl block whose `trait` is missing or null.
pub open spec fn inherent_body(item: Item) -> Option<Json> {
    match item.inner.member("impl"@) {
        Some(body) => match body.member("trait"@) {
            Some(t) => if t is Null {
                Some(body)
            } else {
                None
            },
            None => Some(body),
        },
        None => None,
    }
}

/// The functions that the listed ids name, in order.
pub open spec fn listed_functions(doc: RustdocJson, ids: Seq<Json>) -> Seq<Item>
    decreases ids.len(),
{
    if ids.len() == 0 {
        Seq::empty()
    } else {
        let before = listed_functions(doc, ids.drop_last());
        match item_of(doc, ids.last()) {
            Some(m) => if m.kind_text() == Some("function"@) {
                before.push(m)
            } else {
                before
            },
            None => before,
        }
    }
}

/// The functions of the inherent impls among the impl blocks, in order.
pub open spec fn inherent_functions(doc: RustdocJson, impls: Seq<Seq<char>>) -> Seq<Item>
    decreases impls.len(),
{
    if impls.len() == 0 {
        Seq::empty()
    } else {
        let before = inherent_functions(doc, impls.drop_last());
        match doc.item_at(impls.last()) {
            Some(block) => match inherent_body(block) {
                Some(body) => before + listed_functions(doc, listed_methods(body)),
                None => before,
            },
            None => before,
        }
    }
}

/// The methods of an item: those that a trait lists itself, else those of
/// the inherent impls of a type.
pub open spec fn methods_of(doc: RustdocJson, item: Item) -> Seq<Item> {
    match item.inner.member("trait"@) {
        Some(t) => listed_functions(doc, listed_methods(t)),
        None => inherent_functions(doc, impl_ids(item)),
    }
}

/// What is told of one method.
#[derive(Debug)]
pub struct MethodInfo {
    pub name: Option<String>,
    pub signature: String,
    pub doc_summary: String,
    pub feature_requirements: Vec<String>,
    pub deprecated: Option<Option<String>>,
}

impl MethodInfo {
    /// This entry tells of `item`: its name, signature and summary, the
    /// flags that gate it, and the note of its deprecation.
    pub open spec fn tells_of(self, item: Item, declared: Seq<Seq<char>>) -> bool {
        &&& text_of(self.name) == text_of(item.name)
        &&& self.signature@ == signature_text(item)
        &&& self.doc_summary@ == item.summary()
        &&& compiles(feature_pattern()) ==> is_selection(
            views(self.feature_requirements@),
            found_in(attr_texts(item.attrs@)),
            declared,
        )
        &&& !compiles(feature_pattern()) ==> self.feature_requirements@.len() == 0
        &&& match item.deprecation {
            Some(d) => self.deprecated is Some && text_of(self.deprecated->0) == text_of(d.note),
            None => self.deprecated is None,
        }
    }
}

/// The texts of a list of method entries tell of `items`, one for one.
pub open spec fn tell_of(out: Seq<MethodInfo>, items: Seq<Item>, declared: Seq<Seq<char>>) -> bool {
    &&& out.len() == items.len()
    &&& forall|k: int| 0 <= k < out.len() ==> (#[trigger] out[k]).tells_of(items[k], declared)
}

fn describe_method(item: &Item, declared_features: &Vec<String>) -> (m: MethodInfo)
    ensures
        m.tells_of(*item, views(declared_features@)),
{
    let attrs = item.attr_strings();
    MethodInfo {
        name: copy_text(&item.name),
        signature: function_signature(item),
        doc_summary: item.doc_summary(),
        feature_requirements: extract_feature_requirements(&attrs, declared_features),
        deprecated: match &item.deprecation {
            Some(d) => Some(copy_text(&d.note)),
            None => None,
        },
    }
}

/// Adds the functions that the listed ids name.
fn add_listed(
    out: &mut Vec<MethodInfo>,
    doc: &RustdocJson,
    ids: &Vec<Json>,
    declared_features: &Vec<String>,
    Ghost(so_far): Ghost<Seq<Item>>,
)
    requires
        tell_of(old(out)@, so_far, views(declared_features@)),
    ensures
        tell_of(final(out)@, so_far + listed_functions(*doc, ids@), views(declared_features@)),
{
    let mut i: usize = 0;
    assert(so_far + listed_functions(*doc, ids@.take(0)) =~= so_far);
    while i < ids.len()
        invariant
            i <= ids.len(),
            tell_of(
                out@,
                so_far + listed_functions(*doc, ids@.take(i as int)),
                views(declared_features@),
            ),
        decreases ids.len() - i,
    {
        assert(ids@.take(i + 1).drop_last() =~= ids@.take(i as int));
        let ghost before = so_far + listed_functions(*doc, ids@.take(i as int));
        if let Some(m) = resolve(doc, &ids[i]) {
            if m.is_kind("function") {
                let info = describe_method(m, declared_features);
                out.push(info);
                assert(so_far + listed_functions(*doc, ids@.take(i + 1)) =~= before.push(*m));
            }
        }
        i += 1;
    }
    assert(ids@.take(ids.len() as int) =~= ids@);
}

/// The body of an impl block whose `trait` is missing or null.
pub fn get_inherent_body(item: &Item) -> (r: Option<&Json>)
    ensures
        match r {
            Some(b) => inherent_body(*item) == Some(*b),
            None => inherent_body(*item) is None,
        },
{
    match item.inner_for("impl") {
        Some(body) => match body.get("trait") {
            Some(t) => if t.is_null() {
                Some(body)
            } else {
                None
            },
            None => Some(body),
        },
        None => None,
    }
}

/// The methods of an item: for a trait the functions it lists, for a
/// struct, enum or union those of its inherent impls, in order. Each
/// with its signature, summary, feature flags and deprecation note.
pub fn collect_methods(doc: &RustdocJson, item: &Item, declared_features: &Vec<String>) -> (out:
    Vec<MethodInfo>)
    ensures
        tell_of(out@, methods_of(*doc, *item), views(declared_features@)),
{
    let mut out: Vec<MethodInfo> = Vec::new();
    let none: Vec<Json> = Vec::new();
    if let Some(t) = item.inner_for("trait") {
        let ids = match get_array(t, "items") {
            Some(v) => v,
            None => &none,
        };
        assert(ids@ =~= listed_methods(*t));
        add_listed(&mut out, doc, ids, declared_features, Ghost(Seq::empty()));
        assert(Seq::<Item>::empty() + listed_functions(*doc, ids@) =~= listed_functions(
            *doc,
            ids@,
        ));
        return out;
    }
    let impls = get_impl_ids(item);
    let ghost ids_all = views(impls@);
    let mut i: usize = 0;
    while i < impls.len()
        invariant
            i <= impls.len(),
            none@.len() == 0,
            ids_all == views(impls@),
            tell_of(
                out@,
                inherent_functions(*doc, ids_all.take(i as int)),
                views(declared_features@),
            ),
        decreases impls.len() - i,
    {
        assert(ids_all.take(i + 1).drop_last() =~= ids_all.take(i as int));
        let ghost before = inherent_functions(*doc, ids_all.take(i as int));
        if let Some(block) = doc.item(impls[i].as_str()) {
            if let Some(body) = get_inherent_body(block) {
                let ids = match get_array(body, "items") {
                    Some(v) => v,
                    None => &none,
                };
                assert(ids@ =~= listed_methods(*body));
                add_listed(&mut out, doc, ids, declared_features, Ghost(before));
            }
        }
        i += 1;
    }
    assert(ids_all.take(impls.len() as int) =~= ids_all);
    out
}

/// A trait name that nearly every type implements.
pub open spec fn is_common(name: Seq<char>) -> bool {
    name == "Any"@ || name == "Freeze"@ || name == "Instrument"@ || name == "RefUnwindSafe"@
        || name == "UnwindSafe"@ || name == "WithSubscriber"@
}

/// The last segment of a path: what follows its last `::`.
pub open spec fn last_segment(path: Seq<char>) -> Seq<char> {
    match last_of(path, "::"@) {
        Some(i) => path.subrange(i + "::"@.len(), path.len() as int),
        None => path,
    }
}

/// The name of a segment: what stands before its first `<`, trimmed.
pub open spec fn segment_name(bare: Seq<char>) -> Seq<char> {
    trimmed(
        match first_occurrence(bare, seq!['<'], 0) {
            Some(i) => bare.subrange(0, i),
            None => bare,
        },
    )
}

/// The generic arguments of a segment: what stands between `name<` at
/// its start and `>` at its end.
pub open spec fn segment_args(bare: Seq<char>, name: Seq<char>) -> Option<Seq<char>> {
    if begins_with(bare, name) && bare.len() >= name.len() + 2 && bare[name.len() as int] == '<'
        && bare.last() == '>' {
        Some(bare.subrange(name.len() as int + 1, bare.len() - 1))
    } else {
        None
    }
}

/// A trait path names a blanket impl that tells nothing: a common trait,
/// or a trait whose one generic argument is a single upper-case ASCII
/// letter, `never` or `!`.
pub open spec fn ubiquitous(path: Seq<char>) -> bool {
    let bare = last_segment(path);
    let name = segment_name(bare);
    is_common(name) || (match segment_args(bare, name) {
        Some(args) => {
            let arg = trimmed(args);
            (arg.len() == 1 && 'A' <= arg[0] && arg[0] <= 'Z') || arg == "never"@ || arg
                == "!"@
        },
        None => false,
    })
}

/// Whether a trait path names a blanket impl that tells nothing of the type.
pub fn is_ubiquitous_blanket(trait_path: &str) -> (r: bool)
    ensures
        r == ubiquitous(trait_path@),
{
    let path = to_chars(trait_path);
    let sep = to_chars("::");
    let bare = match find_last(&path, &sep) {
        Some(i) => copy_range(&path, i + sep.len(), path.len()),
        None => copy_range(&path, 0, path.len()),
    };
    assert(path@.subrange(0, path.len() as int) =~= path@);
    let mut angle: Vec<char> = Vec::new();
    angle.push('<');
    assert(angle@ =~= seq!['<']);
    let head = match find_from(&bare, &angle, 0) {
        Some(i) => copy_range(&bare, 0, i),
        None => copy_range(&bare, 0, bare.len()),
    };
    assert(bare@.subrange(0, bare.len() as int) =~= bare@);
    let name = trim_chars(&head);
    if is_text(&name, "Any") || is_text(&name, "Freeze") || is_text(&name, "Instrument") || is_text(
        &name,
        "RefUnwindSafe",
    ) || is_text(&name, "UnwindSafe") || is_text(&name, "WithSubscriber") {
        return true;
    }
    if name.len() <= usize::MAX - 2 && bare.len() >= name.len() + 2 && chars_match_at(&bare, &name, 0)
        && bare[name.len()] == '<' && bare[bare.len() - 1] == '>' {
        let args = copy_range(&bare, name.len() + 1, bare.len() - 1);
        let arg = trim_chars(&args);
        if arg.len() == 1 && 'A' <= arg[0] && arg[0] <= 'Z' {
            return true;
        }
        if is_text(&arg, "never") || is_text(&arg, "!") {
            return true;
        }
    }
    false
}

/// The trait of an impl block that is no compiler-made one: what stands
/// under `impl.trait`, where it is there and not null and the block is
/// not marked synthetic.
pub open spec fn implemented_trait(block: Item) -> Option<Json> {
    match block.inner.member("impl"@) {
        Some(body) => if flag_at(body, "is_synthetic"@) {
            None
        } else {
            match body.member("trait"@) {
                Some(t) => if t is Null {
                    None
                } else {
                    Some(t)
                },
                None => None,
            }
        },
        None => None,
    }
}

/// The traits that the impl blocks implement, rendered, in order; with
/// `filter` set, without those that every type has.
pub open spec fn trait_paths(doc: RustdocJson, impls: Seq<Seq<char>>, filter: bool) -> Seq<Seq<char>>
    decreases impls.len(),
{
    if impls.len() == 0 {
        Seq::empty()
    } else {
        let before = trait_paths(doc, impls.drop_last(), filter);
        match doc.item_at(impls.last()) {
            Some(block) => match implemented_trait(block) {
                Some(t) => if filter && ubiquitous(render_type(t)) {
                    before
                } else {
                    before.push(render_type(t))
                },
                None => before,
            },
            None => before,
        }
    }
}

/// The trait of an impl block that is no compiler-made one.
pub fn get_implemented_trait(block: &Item) -> (r: Option<&Json>)
    ensures
        match r {
            Some(t) => implemented_trait(*block) == Some(*t),
            None => implemented_trait(*block) is None,
        },
{
    match block.inner_for("impl") {
        Some(body) => if get_flag(body, "is_synthetic") {
            None
        } else {
            match body.get("trait") {
                Some(t) => if t.is_null() {
                    None
                } else {
                    Some(t)
                },
                None => None,
            }
        },
        None => None,
    }
}

/// The traits that a type implements, as written with their generic
/// arguments, in the order of its impl blocks. Compiler-made impls are
/// left out, and with `filter_ubiquitous` those of traits that every
/// type has.
pub fn collect_trait_impls(doc: &RustdocJson, item: &Item, filter_ubiquitous: bool) -> (out: Vec<
    String,
>)
    ensures
        views(out@) == trait_paths(*doc, impl_ids(*item), filter_ubiquitous),
{
    let impls = get_impl_ids(item);
    let ghost ids_all = views(impls@);
    let mut out: Vec<String> = Vec::new();
    assert(views(out@) =~= Seq::empty());
    let mut i: usize = 0;
    while i < impls.len()
        invariant
            i <= impls.len(),
            ids_all == views(impls@),
            views(out@) == trait_paths(*doc, ids_all.take(i as int), filter_ubiquitous),
        decreases impls.len() - i,
    {
        assert(ids_all.take(i + 1).drop_last() =~= ids_all.take(i as int));
        let ghost before = out@;
        if let Some(block) = doc.item(impls[i].as_str()) {
            if let Some(t) = get_implemented_trait(block) {
                let path = type_to_string(t);
                if !(filter_ubiquitous && is_ubiquitous_blanket(path.as_str())) {
                    out.push(path);
                    assert(views(out@) =~= views(before).push(path@));
                }
            }
        }
        i += 1;
    }
    assert(ids_all.take(impls.len() as int) =~= ids_all);
    out
}

} // verus!
