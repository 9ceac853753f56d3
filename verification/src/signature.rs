use vstd::prelude::*;
use vstd::string::StringExecFns;
use crate::json::{Json, lemma_elements_decrease, lemma_member_decreases};
use crate::render::{elements_at, flag_at, get_array, get_flag, get_str, held, param_text, render_at, render_params, render_picked, render_type, text_at, type_to_string, write_params, write_picked};
use crate::text::{begins_with, join, join_strings, starts_with, str_same, views};
use crate::types::Item;

verus! {

broadcast use {lemma_member_decreases, lemma_elements_decrease};

/// The member under `key` of a node that may be missing.
pub open spec fn opt_member(node: Option<Json>, key: Seq<char>) -> Option<Json> {
    match node {
        Some(j) => j.member(key),
        None => None,
    }
}

/// The flag under `key` of a node that may be missing.
pub open spec fn opt_flag(node: Option<Json>, key: Seq<char>) -> bool {
    match node {
        Some(j) => flag_at(j, key),
        None => false,
    }
}

/// The traits of a bound list, rendered; a bound that is no trait bound,
/// or names no trait, is left out.
pub open spec fn bounds_text(bounds: Seq<Json>) -> Seq<Seq<char>> {
    render_picked(bounds, Some("trait_bound"@), Some("trait"@))
}

/// One generic parameter as it stands between the angle brackets, or
/// nothing for a parameter without a name and for the placeholder of an
/// `impl Trait` argument.
pub open spec fn generic_param(p: Json) -> Option<Seq<char>> {
    match text_at(p, "name"@) {
        None => None,
        Some(name) => if begins_with(name, "impl "@) {
            None
        } else {
            let kind = p.member("kind"@);
            match opt_member(kind, "const"@) {
                Some(c) => Some("const "@ + name + ": "@ + render_at(c, "type"@)),
                None => match opt_member(opt_member(kind, "type"@), "bounds"@) {
                    Some(tb) => {
                        let bounds = match tb.elements() {
                            Some(bs) => join(bounds_text(bs), " + "@),
                            None => Seq::empty(),
                        };
                        if bounds.len() == 0 {
                            Some(name)
                        } else {
                            Some(name + ": "@ + bounds)
                        }
                    },
                    None => Some(name),
                },
            }
        },
    }
}

/// The generic parameters that are written, in order.
pub open spec fn generic_params(params: Seq<Json>) -> Seq<Seq<char>>
    decreases params.len(),
{
    if params.len() == 0 {
        Seq::empty()
    } else {
        let before = generic_params(params.drop_last());
        match generic_param(params.last()) {
            Some(t) => before.push(t),
            None => before,
        }
    }
}

/// The generic parameter list `<..>` of a generics descriptor; empty where
/// no parameter is written.
pub open spec fn generics_text(generics: Option<Json>) -> Seq<char> {
    match generics {
        None => Seq::empty(),
        Some(g) => match elements_at(g, "params"@) {
            None => Seq::empty(),
            Some(ps) => {
                let parts = generic_params(ps);
                if parts.len() == 0 {
                    Seq::empty()
                } else {
                    "<"@ + join(parts, ", "@) + ">"@
                }
            },
        },
    }
}

/// One where-predicate as `Type: Bound1 + Bound2`, or nothing for a
/// predicate that binds no type to at least one trait.
pub open spec fn where_clause(c: Json) -> Option<Seq<char>> {
    match c.member("bound_predicate"@) {
        None => None,
        Some(bp) => match bp.member("type"@) {
            None => None,
            Some(t) => match elements_at(bp, "bounds"@) {
                None => None,
                Some(bs) => if bounds_text(bs).len() == 0 {
                    None
                } else {
                    Some(render_type(t) + ": "@ + join(bounds_text(bs), " + "@))
                },
            },
        },
    }
}

/// The where-predicates that are written, in order.
pub open spec fn where_clauses(clauses: Seq<Json>) -> Seq<Seq<char>>
    decreases clauses.len(),
{
    if clauses.len() == 0 {
        Seq::empty()
    } else {
        let before = where_clauses(clauses.drop_last());
        match where_clause(clauses.last()) {
            Some(t) => before.push(t),
            None => before,
        }
    }
}

/// The `where` block of a generics descriptor; empty where no predicate is
/// written.
pub open spec fn where_text(generics: Option<Json>) -> Seq<char> {
    match generics {
        None => Seq::empty(),
        Some(g) => match elements_at(g, "where_predicates"@) {
            None => Seq::empty(),
            Some(cs) => {
                let parts = where_clauses(cs);
                if parts.len() == 0 {
                    Seq::empty()
                } else {
                    "\nwhere\n    "@ + join(parts, ",\n    "@)
                }
            },
        },
    }
}

/// The keywords before `fn`, in the order `const async unsafe`.
pub open spec fn header_text(header: Option<Json>) -> Seq<char> {
    (if opt_flag(header, "is_const"@) {
        "const "@
    } else {
        ""@
    }) + (if opt_flag(header, "is_async"@) {
        "async "@
    } else {
        ""@
    }) + (if opt_flag(header, "is_unsafe"@) {
        "unsafe "@
    } else {
        ""@
    })
}

/// ` -> Output`, or nothing where the output is missing, null or the unit type.
pub open spec fn output_text(sig: Json) -> Seq<char> {
    match sig.member("output"@) {
        Some(o) => if o is Null || render_type(o) == "()"@ {
            Seq::empty()
        } else {
            " -> "@ + render_type(o)
        },
        None => Seq::empty(),
    }
}

/// The parameter list of a signature, the receiver in its short form.
pub open spec fn inputs_text(sig: Json) -> Seq<char> {
    match elements_at(sig, "inputs"@) {
        Some(ps) => join(render_params(ps, true), ", "@),
        None => Seq::empty(),
    }
}

/// The declaration of a function item; empty where the item is no function
/// or has no signature.
pub open spec fn signature_text(item: Item) -> Seq<char> {
    match item.inner.member("function"@) {
        None => Seq::empty(),
        Some(f) => match f.member("sig"@) {
            None => Seq::empty(),
            Some(sig) => header_text(f.member("header"@)) + "fn "@ + (match item.name {
                Some(n) => n@,
                None => "_"@,
            }) + generics_text(f.member("generics"@)) + "("@ + inputs_text(sig) + ")"@
                + output_text(sig) + where_text(f.member("generics"@)),
        },
    }
}

/// A receiver of type `Self`, `&Self` or `&mut Self` is written `self`,
/// `&self` or `&mut self`, and never with its type.
pub proof fn lemma_receiver_short_form()
    ensures
        param_text("self"@, "Self"@, true) == "self"@,
        param_text("self"@, "&Self"@, true) == "&self"@,
        param_text("self"@, "&mut Self"@, true) == "&mut self"@,
{
    reveal_strlit("Self");
    reveal_strlit("&Self");
    reveal_strlit("&mut Self");
    assert("Self"@.len() == 4 && "&Self"@.len() == 5 && "&mut Self"@.len() == 9);
}

/// A parameter pair named `self` whose type renders as `Self`, `&Self`
/// or `&mut Self` is written in the parameter list of a signature as
/// `self`, `&self` or `&mut self`.
pub proof fn lemma_receiver_pair(pair: Seq<Json>)
    requires
        pair.len() >= 2,
        pair[0].text() == Some("self"@),
    ensures
        render_type(pair[1]) == "Self"@ ==> crate::render::render_pair(pair, true) == "self"@,
        render_type(pair[1]) == "&Self"@ ==> crate::render::render_pair(pair, true) == "&self"@,
        render_type(pair[1]) == "&mut Self"@ ==> crate::render::render_pair(pair, true)
            == "&mut self"@,
{
    lemma_receiver_short_form();
}

fn write_bounds(bounds: &Vec<Json>) -> (out: Vec<String>)
    ensures
        views(out@) == bounds_text(bounds@),
{
    write_picked(bounds, Some("trait_bound"), Some("trait"))
}

fn write_generic_param(p: &Json) -> (r: Option<String>)
    ensures
        match r {
            Some(s) => generic_param(*p) == Some(s@),
            None => generic_param(*p) is None,
        },
{
    let name = match get_str(p, "name") {
        Some(n) => n,
        None => {
            return None;
        },
    };
    if starts_with(name, "impl ") {
        return None;
    }
    let kind = p.get("kind");
    let const_info = match kind {
        Some(k) => k.get("const"),
        None => None,
    };
    if let Some(c) = const_info {
        let ty = match c.get("type") {
            Some(t) => type_to_string(t),
            None => String::from_str("_"),
        };
        let mut s = String::from_str("const ");
        s.append(name);
        s.append(": ");
        s.append(ty.as_str());
        return Some(s);
    }
    let type_info = match kind {
        Some(k) => k.get("type"),
        None => None,
    };
    let type_bounds = match type_info {
        Some(t) => t.get("bounds"),
        None => None,
    };
    match type_bounds {
        Some(tb) => {
            let bounds = match tb.as_array() {
                Some(bs) => {
                    let parts = write_bounds(bs);
                    join_strings(&parts, " + ")
                },
                None => String::new(),
            };
            if bounds.as_str().is_empty() {
                Some(String::from_str(name))
            } else {
                let mut s = String::from_str(name);
                s.append(": ");
                s.append(bounds.as_str());
                Some(s)
            }
        },
        None => Some(String::from_str(name)),
    }
}

/// The generic parameter list `<..>` of a generics descriptor.
pub fn format_generics(generics: Option<&Json>) -> (r: String)
    ensures
        r@ == generics_text(held(generics)),
{
    let g = match generics {
        Some(g) => g,
        None => {
            return String::new();
        },
    };
    let params = match get_array(g, "params") {
        Some(p) => p,
        None => {
            return String::new();
        },
    };
    let mut parts: Vec<String> = Vec::new();
    assert(views(parts@) =~= Seq::empty());
    let mut i: usize = 0;
    while i < params.len()
        invariant
            i <= params.len(),
            views(parts@) == generic_params(params@.take(i as int)),
        decreases params.len() - i,
    {
        assert(params@.take(i + 1).drop_last() =~= params@.take(i as int));
        let ghost before = parts@;
        match write_generic_param(&params[i]) {
            Some(s) => {
                parts.push(s);
                assert(views(parts@) =~= views(before).push(s@));
            },
            None => {},
        }
        i += 1;
    }
    assert(params@.take(params.len() as int) =~= params@);
    if parts.len() == 0 {
        String::new()
    } else {
        let inner = join_strings(&parts, ", ");
        let mut s = String::from_str("<");
        s.append(inner.as_str());
        s.append(">");
        s
    }
}

fn write_where_clause(c: &Json) -> (r: Option<String>)
    ensures
        match r {
            Some(s) => where_clause(*c) == Some(s@),
            None => where_clause(*c) is None,
        },
{
    let bp = match c.get("bound_predicate") {
        Some(bp) => bp,
        None => {
            return None;
        },
    };
    let t = match bp.get("type") {
        Some(t) => t,
        None => {
            return None;
        },
    };
    let bs = match get_array(bp, "bounds") {
        Some(bs) => bs,
        None => {
            return None;
        },
    };
    let strs = write_bounds(bs);
    if strs.len() == 0 {
        None
    } else {
        let mut s = type_to_string(t);
        let joined = join_strings(&strs, " + ");
        s.append(": ");
        s.append(joined.as_str());
        Some(s)
    }
}

/// The `where` block of a generics descriptor.
pub fn format_where(generics: Option<&Json>) -> (r: String)
    ensures
        r@ == where_text(held(generics)),
{
    let g = match generics {
        Some(g) => g,
        None => {
            return String::new();
        },
    };
    let clauses = match get_array(g, "where_predicates") {
        Some(c) => c,
        None => {
            return String::new();
        },
    };
    let mut parts: Vec<String> = Vec::new();
    assert(views(parts@) =~= Seq::empty());
    let mut i: usize = 0;
    while i < clauses.len()
        invariant
            i <= clauses.len(),
            views(parts@) == where_clauses(clauses@.take(i as int)),
        decreases clauses.len() - i,
    {
        assert(clauses@.take(i + 1).drop_last() =~= clauses@.take(i as int));
        let ghost before = parts@;
        match write_where_clause(&clauses[i]) {
            Some(s) => {
                parts.push(s);
                assert(views(parts@) =~= views(before).push(s@));
            },
            None => {},
        }
        i += 1;
    }
    assert(clauses@.take(clauses.len() as int) =~= clauses@);
    if parts.len() == 0 {
        String::new()
    } else {
        let inner = join_strings(&parts, ",\n    ");
        let mut s = String::from_str("\nwhere\n    ");
        s.append(inner.as_str());
        s
    }
}

fn write_header(header: Option<&Json>) -> (r: String)
    ensures
        r@ == header_text(held(header)),
{
    let (is_const, is_async, is_unsafe) = match header {
        Some(h) => (get_flag(h, "is_const"), get_flag(h, "is_async"), get_flag(h, "is_unsafe")),
        None => (false, false, false),
    };
    let mut s = String::from_str(
        if is_const {
            "const "
        } else {
            ""
        },
    );
    s.append(
        if is_async {
            "async "
        } else {
            ""
        },
    );
    s.append(
        if is_unsafe {
            "unsafe "
        } else {
            ""
        },
    );
    s
}

fn write_output(sig: &Json) -> (r: String)
    ensures
        r@ == output_text(*sig),
{
    match sig.get("output") {
        Some(o) => {
            if o.is_null() {
                return String::new();
            }
            let rendered = type_to_string(o);
            if str_same(rendered.as_str(), "()") {
                String::new()
            } else {
                let mut s = String::from_str(" -> ");
                s.append(rendered.as_str());
                s
            }
        },
        None => String::new(),
    }
}

/// The declaration of a function item: keywords, name, generic
/// parameters, parameter list, return type and `where` block. Empty where
/// the item is no function or has no signature.
pub fn function_signature(item: &Item) -> (r: String)
    ensures
        r@ == signature_text(*item),
{
    let f = match item.inner_for("function") {
        Some(f) => f,
        None => {
            return String::new();
        },
    };
    let sig = match f.get("sig") {
        Some(s) => s,
        None => {
            return String::new();
        },
    };
    let name = match &item.name {
        Some(n) => n.as_str(),
        None => "_",
    };
    let generics = f.get("generics");
    let inputs = match get_array(sig, "inputs") {
        Some(ps) => {
            let parts = write_params(ps, true);
            join_strings(&parts, ", ")
        },
        None => String::new(),
    };
    let generic_str = format_generics(generics);
    let output_str = write_output(sig);
    let where_str = format_where(generics);
    let mut s = write_header(f.get("header"));
    s.append("fn ");
    s.append(name);
    s.append(generic_str.as_str());
    s.append("(");
    s.append(inputs.as_str());
    s.append(")");
    s.append(output_str.as_str());
    s.append(where_str.as_str());
    s
}

/// The generic parameter list of the first of `kinds`, from position
/// `from` on, under which the item carries generics that write something.
pub open spec fn first_generics(item: Item, kinds: Seq<Seq<char>>, from: int) -> Seq<char>
    decreases kinds.len() - from,
{
    if from < 0 || from >= kinds.len() {
        Seq::empty()
    } else {
        let found = generics_text(opt_member(item.inner.member(kinds[from]), "generics"@));
        if opt_member(item.inner.member(kinds[from]), "generics"@) is Some && found.len() > 0 {
            found
        } else {
            first_generics(item, kinds, from + 1)
        }
    }
}

/// The kinds under which generics are looked for: the given kind first.
pub open spec fn generic_kinds(kind: Seq<char>) -> Seq<Seq<char>> {
    seq![kind, "struct"@, "enum"@, "union"@, "trait"@, "type_alias"@, "typedef"@]
}

/// The generic parameter list of a struct, enum, union, trait or type
/// alias; empty where it has none.
pub fn format_generics_for_item(item: &Item, kind: &str) -> (r: String)
    ensures
        r@ == first_generics(*item, generic_kinds(kind@), 0),
{
    let mut kinds: Vec<&str> = Vec::new();
    kinds.push(kind);
    kinds.push("struct");
    kinds.push("enum");
    kinds.push("union");
    kinds.push("trait");
    kinds.push("type_alias");
    kinds.push("typedef");
    let ghost names = generic_kinds(kind@);
    let mut i: usize = 0;
    while i < kinds.len()
        invariant
            i <= kinds.len(),
            names == generic_kinds(kind@),
            kinds@.len() == names.len(),
            forall|k: int| 0 <= k < kinds@.len() ==> (#[trigger] kinds@[k])@ == names[k],
            first_generics(*item, names, 0) == first_generics(*item, names, i as int),
        decreases kinds.len() - i,
    {
        if let Some(inner) = item.inner_for(kinds[i]) {
            if let Some(generics) = inner.get("generics") {
                let s = format_generics(Some(generics));
                if !s.as_str().is_empty() {
                    assert(opt_member(item.inner.member(names[i as int]), "generics"@) == Some(
                        *generics,
                    ));
                    return s;
                }
            }
        }
        i += 1;
    }
    String::new()
}

/// One mark for each element that is a string.
pub open spec fn field_marks(fields: Seq<Json>) -> Seq<Seq<char>>
    decreases fields.len(),
{
    if fields.len() == 0 {
        Seq::empty()
    } else {
        let before = field_marks(fields.drop_last());
        if fields.last() is Text {
            before.push("/* field */"@)
        } else {
            before
        }
    }
}

/// The field list of a plain struct: the array under
/// `struct.kind.plain.fields`.
pub open spec fn plain_fields(item: Item) -> Option<Seq<Json>> {
    match opt_member(opt_member(item.inner.member("struct"@), "kind"@), "plain"@) {
        Some(plain) => elements_at(plain, "fields"@),
        None => None,
    }
}

/// One placeholder for each field of a plain struct whose id is a string;
/// nothing for any other item.
pub fn struct_fields(item: &Item) -> (r: Vec<String>)
    ensures
        views(r@) == (match plain_fields(*item) {
            Some(fields) => field_marks(fields),
            None => Seq::empty(),
        }),
{
    let mut out: Vec<String> = Vec::new();
    assert(views(out@) =~= Seq::empty());
    let inner = match item.inner_for("struct") {
        Some(s) => s,
        None => {
            return out;
        },
    };
    let plain = match inner.get("kind") {
        Some(k) => match k.get("plain") {
            Some(p) => p,
            None => {
                return out;
            },
        },
        None => {
            return out;
        },
    };
    let fields = match get_array(plain, "fields") {
        Some(f) => f,
        None => {
            return out;
        },
    };
    let mut i: usize = 0;
    while i < fields.len()
        invariant
            i <= fields.len(),
            views(out@) == field_marks(fields@.take(i as int)),
        decreases fields.len() - i,
    {
        assert(fields@.take(i + 1).drop_last() =~= fields@.take(i as int));
        let ghost before = out@;
        if fields[i].as_str().is_some() {
            let s = String::from_str("/* field */");
            out.push(s);
            assert(views(out@) =~= views(before).push(s@));
        }
        i += 1;
    }
    assert(fields@.take(fields.len() as int) =~= fields@);
    out
}

} // verus!
