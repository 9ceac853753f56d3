use vstd::prelude::*;
use vstd::string::{StrSliceExecFns, StringExecFns};
use crate::json::{Json, compact_text, dump, lemma_elements_decrease, lemma_member_decreases};
use crate::text::{begins_with, join, join_strings, opt_view, str_same, views};

verus! {

broadcast use {lemma_member_decreases, lemma_elements_decrease};

/// What an optional reference holds.
pub open spec fn held(r: Option<&Json>) -> Option<Json> {
    match r {
        Some(j) => Some(*j),
        None => None,
    }
}

/// The text stored under `key`, when `j` has a member there and it is a string.
pub open spec fn text_at(j: Json, key: Seq<char>) -> Option<Seq<char>> {
    match j.member(key) {
        Some(v) => v.text(),
        None => None,
    }
}

/// The flag stored under `key`; `false` where there is none.
pub open spec fn flag_at(j: Json, key: Seq<char>) -> bool {
    match j.member(key) {
        Some(v) => v.truth() == Some(true),
        None => false,
    }
}

/// The elements stored under `key`, when `j` has a member there and it is an array.
pub open spec fn elements_at(j: Json, key: Seq<char>) -> Option<Seq<Json>> {
    match j.member(key) {
        Some(v) => v.elements(),
        None => None,
    }
}

/// Follows up to two keys down from `j`.
pub open spec fn descend(j: Json, k1: Option<Seq<char>>, k2: Option<Seq<char>>) -> Option<Json> {
    match k1 {
        None => Some(j),
        Some(a) => match j.member(a) {
            None => None,
            Some(x) => match k2 {
                None => Some(x),
                Some(b) => x.member(b),
            },
        },
    }
}

/// The generic arguments of a path node: the array under
/// `args.angle_bracketed.args`.
pub open spec fn path_args(node: Json) -> Option<Seq<Json>> {
    match node.member("args"@) {
        None => None,
        Some(a) => match a.member("angle_bracketed"@) {
            None => None,
            Some(ab) => elements_at(ab, "args"@),
        },
    }
}

/// A lifetime with exactly one leading apostrophe, whether or not the raw
/// text already carries it.
pub open spec fn marked_lifetime(raw: Seq<char>) -> Seq<char> {
    if raw.len() > 0 && raw[0] == '\'' {
        raw
    } else {
        seq!['\''] + raw
    }
}

/// `name`, followed by the rendered arguments in angle brackets where there are any.
pub open spec fn with_args(name: Seq<char>, args: Seq<Seq<char>>) -> Seq<char> {
    if args.len() == 0 {
        name
    } else {
        name + "<"@ + join(args, ", "@) + ">"@
    }
}

/// One parameter: `name: Type`, or the receiver in its short form when
/// `receiver` is set and the parameter is named `self`.
pub open spec fn param_text(name: Seq<char>, ty: Seq<char>, receiver: bool) -> Seq<char> {
    if receiver && name == "self"@ {
        if ty == "Self"@ {
            "self"@
        } else if ty == "&Self"@ {
            "&self"@
        } else if ty == "&mut Self"@ {
            "&mut self"@
        } else {
            "self: "@ + ty
        }
    } else {
        name + ": "@ + ty
    }
}

/// The source-like text of a type node.
///
/// The shapes are tried in a fixed order and the first that fits decides;
/// a node of no known shape is written as its compact JSON text.
pub open spec fn render_type(ty: Json) -> Seq<char>
    decreases ty, 3int,
{
    if ty is Null {
        "()"@
    } else if !(ty is Object) {
        compact_text(ty.view())
    } else if text_at(ty, "primitive"@) is Some {
        text_at(ty, "primitive"@)->0
    } else if text_at(ty, "generic"@) is Some {
        text_at(ty, "generic"@)->0
    } else if ty.member("resolved_path"@) is Some {
        render_resolved(ty.member("resolved_path"@)->0)
    } else if ty.member("borrowed_ref"@) is Some {
        render_ref(ty.member("borrowed_ref"@)->0)
    } else if elements_at(ty, "tuple"@) is Some {
        "("@ + join(render_picked(elements_at(ty, "tuple"@)->0, None, None), ", "@) + ")"@
    } else if ty.member("slice"@) is Some {
        "["@ + render_type(ty.member("slice"@)->0) + "]"@
    } else if ty.member("array"@) is Some {
        render_array(ty.member("array"@)->0)
    } else if ty.member("raw_pointer"@) is Some {
        render_pointer(ty.member("raw_pointer"@)->0)
    } else if elements_at(ty, "impl_trait"@) is Some {
        "impl "@ + join(
            render_picked(elements_at(ty, "impl_trait"@)->0, Some("trait_bound"@), Some("trait"@)),
            " + "@,
        )
    } else if ty.member("dyn_trait"@) is Some {
        render_dyn(ty.member("dyn_trait"@)->0)
    } else if fn_decl(ty) is Some {
        render_fn_pointer(fn_decl(ty)->0)
    } else if ty.member("qualified_path"@) is Some {
        render_qualified(ty.member("qualified_path"@)->0)
    } else if ty.member("id"@) is Some && text_at(ty, "path"@) is Some {
        render_direct(ty)
    } else {
        compact_text(ty.view())
    }
}

/// The rendering of the member under `key`, or `_` where there is none.
pub open spec fn render_at(node: Json, key: Seq<char>) -> Seq<char>
    decreases node, 1int,
{
    match node.member(key) {
        Some(t) => render_type(t),
        None => "_"@,
    }
}

/// The name of a resolved path: its `path`, else its `name`, else `_`.
pub open spec fn resolved_name(rp: Json) -> Seq<char> {
    let found = match rp.member("path"@) {
        Some(v) => v.text(),
        None => text_at(rp, "name"@),
    };
    match found {
        Some(t) => t,
        None => "_"@,
    }
}

/// The rendered generic arguments of a path node; none where it has no
/// argument list.
pub open spec fn render_path_args(node: Json) -> Seq<Seq<char>>
    decreases node, 1int,
{
    match path_args(node) {
        Some(args) => render_picked(args, Some("type"@), None),
        None => Seq::empty(),
    }
}

/// A resolved path: its name with its generic arguments.
pub open spec fn render_resolved(rp: Json) -> Seq<char>
    decreases rp, 2int,
{
    with_args(resolved_name(rp), render_path_args(rp))
}

/// A direct path object: its path, or `_` where that is empty, with its
/// generic arguments.
pub open spec fn render_direct(node: Json) -> Seq<char>
    decreases node, 2int,
{
    let path = text_at(node, "path"@)->0;
    with_args(
        if path.len() == 0 {
            "_"@
        } else {
            path
        },
        render_path_args(node),
    )
}

/// A reference: `&`, the lifetime where there is one, `mut ` where it is
/// mutable, and the type behind it.
pub open spec fn render_ref(br: Json) -> Seq<char>
    decreases br, 2int,
{
    let tail = (if flag_at(br, "mutable"@) {
        "mut "@
    } else {
        ""@
    }) + render_at(br, "type"@);
    match text_at(br, "lifetime"@) {
        Some(lt) if lt.len() > 0 => "&"@ + marked_lifetime(lt) + " "@ + tail,
        _ => "&"@ + tail,
    }
}

/// An array: `[element; length]`, the length as it is given.
pub open spec fn render_array(arr: Json) -> Seq<char>
    decreases arr, 2int,
{
    "["@ + render_at(arr, "type"@) + "; "@ + (match text_at(arr, "len"@) {
        Some(n) => n,
        None => "_"@,
    }) + "]"@
}

/// A raw pointer: `*mut` or `*const`, and the type behind it.
pub open spec fn render_pointer(rp: Json) -> Seq<char>
    decreases rp, 2int,
{
    "*"@ + (if flag_at(rp, "mutable"@) {
        "mut"@
    } else {
        "const"@
    }) + " "@ + render_at(rp, "type"@)
}

/// A trait object: `dyn`, its traits joined by ` + `, and its lifetime
/// where there is one.
pub open spec fn render_dyn(dt: Json) -> Seq<char>
    decreases dt, 2int,
{
    let traits = match elements_at(dt, "traits"@) {
        Some(ts) => join(render_picked(ts, Some("trait"@), None), " + "@),
        None => Seq::empty(),
    };
    match text_at(dt, "lifetime"@) {
        Some(lt) if lt.len() > 0 => "dyn "@ + traits + " + "@ + marked_lifetime(lt),
        _ => "dyn "@ + traits,
    }
}

/// The declaration of a function pointer: what stands under
/// `function_pointer.sig`, else under `function_pointer.decl`.
pub open spec fn fn_decl(ty: Json) -> Option<Json> {
    match ty.member("function_pointer"@) {
        None => None,
        Some(fp) => match fp.member("sig"@) {
            Some(d) => Some(d),
            None => fp.member("decl"@),
        },
    }
}

/// A function pointer: `fn(name: Type, ..)`, and ` -> Output` unless the
/// output is missing or the unit type.
pub open spec fn render_fn_pointer(decl: Json) -> Seq<char>
    decreases decl, 2int,
{
    let inputs = match elements_at(decl, "inputs"@) {
        Some(ps) => join(render_params(ps, false), ", "@),
        None => Seq::empty(),
    };
    let output = match decl.member("output"@) {
        Some(o) => render_type(o),
        None => Seq::empty(),
    };
    if output.len() == 0 || output == "()"@ {
        "fn("@ + inputs + ")"@
    } else {
        "fn("@ + inputs + ") -> "@ + output
    }
}

/// A qualified path: `<Self as Trait>::Name` where a trait is given,
/// else `Self::Name`.
pub open spec fn render_qualified(qp: Json) -> Seq<char>
    decreases qp, 2int,
{
    let owner = render_at(qp, "self_type"@);
    let name = match text_at(qp, "name"@) {
        Some(n) => n,
        None => "_"@,
    };
    match qp.member("trait"@) {
        Some(t) if !(t is Null) => "<"@ + owner + " as "@ + render_type(t) + ">::"@ + name,
        _ => owner + "::"@ + name,
    }
}

/// The renderings of those `items` from which the keys lead to a node, in order.
pub open spec fn render_picked(items: Seq<Json>, k1: Option<Seq<char>>, k2: Option<Seq<char>>) -> Seq<
    Seq<char>,
>
    decreases items, 0int,
{
    if items.len() == 0 {
        Seq::empty()
    } else {
        let before = render_picked(items.drop_last(), k1, k2);
        match descend(items.last(), k1, k2) {
            Some(t) => before.push(render_type(t)),
            None => before,
        }
    }
}

/// One `[name, type]` pair as a parameter.
pub open spec fn render_pair(pair: Seq<Json>, receiver: bool) -> Seq<char>
    decreases pair, 0int,
{
    param_text(
        if pair.len() > 0 && pair[0].text() is Some {
            pair[0].text()->0
        } else {
            "_"@
        },
        if pair.len() > 1 {
            render_type(pair[1])
        } else {
            "_"@
        },
        receiver,
    )
}

/// The parameters written by those `inputs` that are arrays, in order.
pub open spec fn render_params(inputs: Seq<Json>, receiver: bool) -> Seq<Seq<char>>
    decreases inputs, 1int,
{
    if inputs.len() == 0 {
        Seq::empty()
    } else {
        let before = render_params(inputs.drop_last(), receiver);
        match inputs.last().elements() {
            Some(pair) => before.push(render_pair(pair, receiver)),
            None => before,
        }
    }
}

/// The node is an object with the one member `key`, which holds `value`.
pub open spec fn is_single(ty: Json, key: Seq<char>, value: Json) -> bool {
    match ty {
        Json::Object(members) => members@.len() == 1 && members@[0].0@ == key && members@[0].1
            == value,
        _ => false,
    }
}

/// A lifetime is written with exactly one apostrophe, whichever form the
/// raw text has: marking is idempotent, a bare name and the same name
/// with its apostrophe come out alike, and a name that begins with no
/// apostrophe gets one and not two.
pub proof fn lemma_lifetime_marked_once(raw: Seq<char>)
    ensures
        marked_lifetime(raw).len() > 0 && marked_lifetime(raw)[0] == '\'',
        marked_lifetime(marked_lifetime(raw)) == marked_lifetime(raw),
        raw.len() > 0 && raw[0] != '\'' ==> marked_lifetime(seq!['\''] + raw) == marked_lifetime(
            raw,
        ) && marked_lifetime(raw)[1] != '\'',
{
    if raw.len() > 0 && raw[0] != '\'' {
        assert((seq!['\''] + raw)[0] == '\'');
        assert(marked_lifetime(raw)[1] == raw[0]);
    }
}

/// A reference whose lifetime is written `a` and one whose lifetime is
/// written `'a` render alike, as `&'a ` and what follows.
pub proof fn lemma_ref_lifetime_forms(bare: Json, marked: Json, name: Seq<char>)
    requires
        name.len() > 0,
        name[0] != '\'',
        text_at(bare, "lifetime"@) == Some(name),
        text_at(marked, "lifetime"@) == Some(seq!['\''] + name),
        bare.member("mutable"@) == marked.member("mutable"@),
        bare.member("type"@) == marked.member("type"@),
    ensures
        render_ref(bare) == render_ref(marked),
        begins_with(render_ref(bare), seq!['&', '\''] + name + seq![' ']),
{
    lemma_lifetime_marked_once(name);
    let tail = (if flag_at(bare, "mutable"@) {
        "mut "@
    } else {
        ""@
    }) + render_at(bare, "type"@);
    reveal_strlit("&");
    reveal_strlit(" ");
    let head = seq!['&', '\''] + name + seq![' '];
    assert("&"@ + marked_lifetime(name) + " "@ =~= head);
    assert((head + tail).subrange(0, head.len() as int) =~= head);
}

/// The renderings of a list of nodes, none left out: one for each, in order.
pub proof fn lemma_render_each(items: Seq<Json>)
    ensures
        render_picked(items, None, None).len() == items.len(),
        forall|i: int|
            0 <= i < items.len() ==> #[trigger] render_picked(items, None, None)[i] == render_type(
                items[i],
            ),
    decreases items.len(),
{
    if items.len() > 0 {
        lemma_render_each(items.drop_last());
    }
}

/// A node of one of the plain shapes renders as the surface syntax of
/// that shape: a primitive and a generic as their name, a tuple as its
/// elements in round brackets, a slice and an array in square brackets,
/// a raw pointer after `*const` or `*mut`.
pub proof fn lemma_plain_shapes(ty: Json, key: Seq<char>, value: Json)
    requires
        is_single(ty, key, value),
    ensures
        key == "primitive"@ && value.text() is Some ==> render_type(ty) == value.text()->0,
        key == "generic"@ && value.text() is Some ==> render_type(ty) == value.text()->0,
        key == "tuple"@ && value.elements() is Some ==> render_type(ty) == "("@ + join(
            render_picked(value.elements()->0, None, None),
            ", "@,
        ) + ")"@,
        key == "slice"@ ==> render_type(ty) == "["@ + render_type(value) + "]"@,
        key == "array"@ ==> render_type(ty) == "["@ + render_at(value, "type"@) + "; "@ + (
        match text_at(value, "len"@) {
            Some(n) => n,
            None => "_"@,
        }) + "]"@,
        key == "raw_pointer"@ ==> render_type(ty) == "*"@ + (if flag_at(value, "mutable"@) {
            "mut"@
        } else {
            "const"@
        }) + " "@ + render_at(value, "type"@),
{
    reveal_strlit("primitive");
    reveal_strlit("generic");
    reveal_strlit("resolved_path");
    reveal_strlit("borrowed_ref");
    reveal_strlit("tuple");
    reveal_strlit("slice");
    reveal_strlit("array");
    reveal_strlit("raw_pointer");
    let members = ty->Object_0@;
    assert forall|k: Seq<char>| ty.member(k) == (if k == key {
        Some(value)
    } else {
        None
    }) by {
        crate::table::lemma_position(members, k, 0);
    }
    assert("primitive"@.len() == 9 && "generic"@.len() == 7 && "resolved_path"@.len() == 13
        && "borrowed_ref"@.len() == 12 && "tuple"@.len() == 5 && "slice"@.len() == 5 && "array"@.len()
        == 5 && "raw_pointer"@.len() == 11);
    assert("tuple"@[0] == 't' && "slice"@[0] == 's' && "array"@[0] == 'a');
    assert("generic"@[0] == 'g' && "primitive"@[0] == 'p' && "resolved_path"@[0] == 'r'
        && "borrowed_ref"@[0] == 'b' && "raw_pointer"@[1] == 'a' && "resolved_path"@[1] == 'e');
    if key == "array"@ {
        assert(render_type(ty) == render_array(value));
    }
    if key == "raw_pointer"@ {
        assert(render_type(ty) == render_pointer(value));
    }
}

/// The text stored under `key`.
pub fn get_str<'a>(j: &'a Json, key: &str) -> (r: Option<&'a str>)
    ensures
        opt_view(r) == text_at(*j, key@),
{
    match j.get(key) {
        Some(v) => v.as_str(),
        None => None,
    }
}

/// The flag stored under `key`; `false` where there is none.
pub fn get_flag(j: &Json, key: &str) -> (r: bool)
    ensures
        r == flag_at(*j, key@),
{
    match j.get(key) {
        Some(v) => match v.as_bool() {
            Some(b) => b,
            None => false,
        },
        None => false,
    }
}

/// The elements stored under `key`.
pub fn get_array<'a>(j: &'a Json, key: &str) -> (r: Option<&'a Vec<Json>>)
    ensures
        match r {
            Some(v) => elements_at(*j, key@) == Some(v@),
            None => elements_at(*j, key@) is None,
        },
{
    match j.get(key) {
        Some(v) => v.as_array(),
        None => None,
    }
}

/// Follows up to two keys down from `j`.
pub fn follow<'a>(j: &'a Json, k1: Option<&str>, k2: Option<&str>) -> (r: Option<&'a Json>)
    ensures
        held(r) == descend(*j, opt_view(k1), opt_view(k2)),
{
    match k1 {
        None => Some(j),
        Some(a) => match j.get(a) {
            None => None,
            Some(x) => match k2 {
                None => Some(x),
                Some(b) => x.get(b),
            },
        },
    }
}

/// The generic arguments of a path node.
pub fn get_path_args(node: &Json) -> (r: Option<&Vec<Json>>)
    ensures
        match r {
            Some(v) => path_args(*node) == Some(v@),
            None => path_args(*node) is None,
        },
{
    match node.get("args") {
        None => None,
        Some(a) => match a.get("angle_bracketed") {
            None => None,
            Some(ab) => get_array(ab, "args"),
        },
    }
}

/// A lifetime with exactly one leading apostrophe.
pub fn mark_lifetime(raw: &str) -> (s: String)
    ensures
        s@ == marked_lifetime(raw@),
{
    if raw.unicode_len() > 0 && raw.get_char(0) == '\'' {
        String::from_str(raw)
    } else {
        proof {
            reveal_strlit("'");
            assert("'"@ =~= seq!['\'']);
        }
        let mut s = String::from_str("'");
        s.append(raw);
        s
    }
}

/// `name`, followed by the arguments in angle brackets where there are any.
pub fn write_with_args(name: &str, args: &Vec<String>) -> (s: String)
    ensures
        s@ == with_args(name@, views(args@)),
{
    let mut s = String::from_str(name);
    if args.len() > 0 {
        let inner = join_strings(args, ", ");
        s.append("<");
        s.append(inner.as_str());
        s.append(">");
    }
    s
}

/// One parameter: `name: Type`, or the receiver in its short form.
pub fn write_param(name: &str, ty: &str, receiver: bool) -> (s: String)
    ensures
        s@ == param_text(name@, ty@, receiver),
{
    if receiver && str_same(name, "self") {
        if str_same(ty, "Self") {
            String::from_str("self")
        } else if str_same(ty, "&Self") {
            String::from_str("&self")
        } else if str_same(ty, "&mut Self") {
            String::from_str("&mut self")
        } else {
            let mut s = String::from_str("self: ");
            s.append(ty);
            s
        }
    } else {
        let mut s = String::from_str(name);
        s.append(": ");
        s.append(ty);
        s
    }
}

/// Writes a type node as source-like text.
///
/// Total: a node of no known shape, and a value that is no object, comes
/// out as its compact JSON text.
pub fn type_to_string(ty: &Json) -> (s: String)
    ensures
        s@ == render_type(*ty),
    decreases *ty, 3int,
{
    if ty.is_null() {
        return String::from_str("()");
    }
    match ty {
        Json::Object(_) => {},
        _ => {
            return dump(ty);
        },
    }
    if let Some(p) = get_str(ty, "primitive") {
        return String::from_str(p);
    }
    if let Some(g) = get_str(ty, "generic") {
        return String::from_str(g);
    }
    if let Some(rp) = ty.get("resolved_path") {
        return write_resolved(rp);
    }
    if let Some(br) = ty.get("borrowed_ref") {
        return write_ref(br);
    }
    if let Some(tup) = get_array(ty, "tuple") {
        let parts = write_picked(tup, None, None);
        let inner = join_strings(&parts, ", ");
        let mut s = String::from_str("(");
        s.append(inner.as_str());
        s.append(")");
        return s;
    }
    if let Some(sl) = ty.get("slice") {
        let inner = type_to_string(sl);
        let mut s = String::from_str("[");
        s.append(inner.as_str());
        s.append("]");
        return s;
    }
    if let Some(arr) = ty.get("array") {
        return write_array(arr);
    }
    if let Some(rp) = ty.get("raw_pointer") {
        return write_pointer(rp);
    }
    if let Some(bounds) = get_array(ty, "impl_trait") {
        let parts = write_picked(bounds, Some("trait_bound"), Some("trait"));
        let inner = join_strings(&parts, " + ");
        let mut s = String::from_str("impl ");
        s.append(inner.as_str());
        return s;
    }
    if let Some(dt) = ty.get("dyn_trait") {
        return write_dyn(dt);
    }
    if let Some(decl) = get_fn_decl(ty) {
        return write_fn_pointer(decl);
    }
    if let Some(qp) = ty.get("qualified_path") {
        return write_qualified(qp);
    }
    if ty.get("id").is_some() {
        if get_str(ty, "path").is_some() {
            return write_direct(ty);
        }
    }
    dump(ty)
}

fn write_at(node: &Json, key: &str) -> (s: String)
    ensures
        s@ == render_at(*node, key@),
    decreases *node, 1int,
{
    match node.get(key) {
        Some(t) => type_to_string(t),
        None => String::from_str("_"),
    }
}

fn write_path_args(node: &Json) -> (out: Vec<String>)
    ensures
        views(out@) == render_path_args(*node),
    decreases *node, 1int,
{
    match get_path_args(node) {
        Some(args) => write_picked(args, Some("type"), None),
        None => {
            let out: Vec<String> = Vec::new();
            assert(views(out@) =~= Seq::empty());
            out
        },
    }
}

fn write_resolved(rp: &Json) -> (s: String)
    ensures
        s@ == render_resolved(*rp),
    decreases *rp, 2int,
{
    let found = match rp.get("path") {
        Some(v) => v.as_str(),
        None => get_str(rp, "name"),
    };
    let name = match found {
        Some(t) => t,
        None => "_",
    };
    let args = write_path_args(rp);
    write_with_args(name, &args)
}

fn write_direct(node: &Json) -> (s: String)
    requires
        text_at(*node, "path"@) is Some,
    ensures
        s@ == render_direct(*node),
    decreases *node, 2int,
{
    let path = match get_str(node, "path") {
        Some(p) => p,
        None => "_",
    };
    let name = if path.is_empty() {
        "_"
    } else {
        path
    };
    let args = write_path_args(node);
    write_with_args(name, &args)
}

fn write_ref(br: &Json) -> (s: String)
    ensures
        s@ == render_ref(*br),
    decreases *br, 2int,
{
    let mut tail = String::from_str(
        if get_flag(br, "mutable") {
            "mut "
        } else {
            ""
        },
    );
    let inner = write_at(br, "type");
    tail.append(inner.as_str());
    let mut s = String::from_str("&");
    match get_str(br, "lifetime") {
        Some(lt) => {
            if !lt.is_empty() {
                let marked = mark_lifetime(lt);
                s.append(marked.as_str());
                s.append(" ");
            }
        },
        None => {},
    }
    s.append(tail.as_str());
    s
}

fn write_array(arr: &Json) -> (s: String)
    ensures
        s@ == render_array(*arr),
    decreases *arr, 2int,
{
    let elem = write_at(arr, "type");
    let len = match get_str(arr, "len") {
        Some(n) => n,
        None => "_",
    };
    let mut s = String::from_str("[");
    s.append(elem.as_str());
    s.append("; ");
    s.append(len);
    s.append("]");
    s
}

fn write_pointer(rp: &Json) -> (s: String)
    ensures
        s@ == render_pointer(*rp),
    decreases *rp, 2int,
{
    let inner = write_at(rp, "type");
    let mut s = String::from_str("*");
    s.append(
        if get_flag(rp, "mutable") {
            "mut"
        } else {
            "const"
        },
    );
    s.append(" ");
    s.append(inner.as_str());
    s
}

fn write_dyn(dt: &Json) -> (s: String)
    ensures
        s@ == render_dyn(*dt),
    decreases *dt, 2int,
{
    let traits = match get_array(dt, "traits") {
        Some(ts) => {
            let parts = write_picked(ts, Some("trait"), None);
            join_strings(&parts, " + ")
        },
        None => String::new(),
    };
    let mut s = String::from_str("dyn ");
    s.append(traits.as_str());
    match get_str(dt, "lifetime") {
        Some(lt) => {
            if !lt.is_empty() {
                let marked = mark_lifetime(lt);
                s.append(" + ");
                s.append(marked.as_str());
            }
        },
        None => {},
    }
    s
}

/// The declaration of a function pointer.
pub fn get_fn_decl(ty: &Json) -> (r: Option<&Json>)
    ensures
        held(r) == fn_decl(*ty),
{
    match ty.get("function_pointer") {
        None => None,
        Some(fp) => match fp.get("sig") {
            Some(d) => Some(d),
            None => fp.get("decl"),
        },
    }
}

fn write_fn_pointer(decl: &Json) -> (s: String)
    ensures
        s@ == render_fn_pointer(*decl),
    decreases *decl, 2int,
{
    let inputs = match get_array(decl, "inputs") {
        Some(ps) => {
            let parts = write_params(ps, false);
            join_strings(&parts, ", ")
        },
        None => String::new(),
    };
    let output = match decl.get("output") {
        Some(o) => type_to_string(o),
        None => String::new(),
    };
    let mut s = String::from_str("fn(");
    s.append(inputs.as_str());
    if output.as_str().is_empty() || str_same(output.as_str(), "()") {
        s.append(")");
    } else {
        s.append(") -> ");
        s.append(output.as_str());
    }
    s
}

fn write_qualified(qp: &Json) -> (s: String)
    ensures
        s@ == render_qualified(*qp),
    decreases *qp, 2int,
{
    let owner = write_at(qp, "self_type");
    let name = match get_str(qp, "name") {
        Some(n) => n,
        None => "_",
    };
    let named = match qp.get("trait") {
        Some(t) => if t.is_null() {
            None
        } else {
            Some(t)
        },
        None => None,
    };
    match named {
        Some(t) => {
            let via = type_to_string(t);
            let mut s = String::from_str("<");
            s.append(owner.as_str());
            s.append(" as ");
            s.append(via.as_str());
            s.append(">::");
            s.append(name);
            s
        },
        None => {
            let mut s = owner;
            s.append("::");
            s.append(name);
            s
        },
    }
}

/// The renderings of those `items` from which the keys lead to a node, in order.
pub fn write_picked(items: &Vec<Json>, k1: Option<&str>, k2: Option<&str>) -> (out: Vec<String>)
    ensures
        views(out@) == render_picked(items@, opt_view(k1), opt_view(k2)),
    decreases items@, 0int,
{
    let mut out: Vec<String> = Vec::new();
    assert(views(out@) =~= Seq::empty());
    let mut i: usize = 0;
    while i < items.len()
        invariant
            i <= items.len(),
            views(out@) == render_picked(items@.take(i as int), opt_view(k1), opt_view(k2)),
        decreases items.len() - i,
    {
        assert(items@.take(i + 1).drop_last() =~= items@.take(i as int));
        let ghost before = out@;
        match follow(&items[i], k1, k2) {
            Some(t) => {
                let s = type_to_string(t);
                out.push(s);
                assert(views(out@) =~= views(before).push(s@));
            },
            None => {},
        }
        i += 1;
    }
    assert(items@.take(items.len() as int) =~= items@);
    out
}

fn write_pair(pair: &Vec<Json>, receiver: bool) -> (s: String)
    ensures
        s@ == render_pair(pair@, receiver),
    decreases pair@, 0int,
{
    let name = if pair.len() > 0 {
        match pair[0].as_str() {
            Some(n) => n,
            None => "_",
        }
    } else {
        "_"
    };
    let ty = if pair.len() > 1 {
        type_to_string(&pair[1])
    } else {
        String::from_str("_")
    };
    write_param(name, ty.as_str(), receiver)
}

/// The parameters written by those `inputs` that are arrays, in order.
pub fn write_params(inputs: &Vec<Json>, receiver: bool) -> (out: Vec<String>)
    ensures
        views(out@) == render_params(inputs@, receiver),
    decreases inputs@, 1int,
{
    let mut out: Vec<String> = Vec::new();
    assert(views(out@) =~= Seq::empty());
    let mut i: usize = 0;
    while i < inputs.len()
        invariant
            i <= inputs.len(),
            views(out@) == render_params(inputs@.take(i as int), receiver),
        decreases inputs.len() - i,
    {
        assert(inputs@.take(i + 1).drop_last() =~= inputs@.take(i as int));
        let ghost before = out@;
        match inputs[i].as_array() {
            Some(pair) => {
                let s = write_pair(pair, receiver);
                out.push(s);
                assert(views(out@) =~= views(before).push(s@));
            },
            None => {},
        }
        i += 1;
    }
    assert(inputs@.take(inputs.len() as int) =~= inputs@);
    out
}

} // verus!
