use vstd::prelude::*;
use vstd::string::StringExecFns;
use crate::features::{compiles, extract_feature_requirements, feature_pattern, found_in, is_selection};
use crate::impls::{MethodInfo, collect_methods, collect_trait_impls, impl_ids, methods_of, tell_of, trait_paths};
use crate::render::{get_str, text_at};
use crate::signature::{first_generics, format_generics_for_item, function_signature, generic_kinds, signature_text};
use crate::text::{copy_text, split, split_text, str_same, text_of, views};
use crate::types::{Deprecation, Item, RustdocJson, attr_texts};

verus! {

/// How many components of `target` after its first are matched, in
/// order, by the components of `stored` after its first, among the first
/// `upto` of `stored`: each stored component is held against the next
/// target component that is still open.
pub open spec fn matched(stored: Seq<Seq<char>>, target: Seq<Seq<char>>, upto: int) -> int
    decreases upto,
{
    if upto <= 1 || upto > stored.len() {
        0
    } else {
        let m = matched(stored, target, upto - 1);
        if 1 + m < target.len() && stored[upto - 1] == target[1 + m] {
            m + 1
        } else {
            m
        }
    }
}

/// A stored path answers a target path that reaches the item through a
/// re-export: both name the same crate, and the rest of the target is
/// not empty and stands, in order, among the rest of the stored path.
pub open spec fn answers(stored: Seq<Seq<char>>, target: Seq<Seq<char>>) -> bool {
    &&& stored.len() > 0
    &&& target.len() > 1
    &&& stored[0] == target[0]
    &&& matched(stored, target, stored.len() as int) == target.len() - 1
}

/// The positions `at` show the first components of `target` after its
/// first, one for one and in order, among the first `upto` components of
/// `stored` after its first.
pub open spec fn embeds(stored: Seq<Seq<char>>, target: Seq<Seq<char>>, at: Seq<int>, upto: int) -> bool {
    &&& at.len() <= target.len() - 1
    &&& forall|i: int|
        0 <= i < at.len() ==> 1 <= #[trigger] at[i] < upto && stored[at[i]] == target[1 + i]
    &&& forall|i: int, j: int| 0 <= i < j < at.len() ==> #[trigger] at[i] < #[trigger] at[j]
}

/// What is matched stands in the stored path, in order: there are
/// positions that show it.
pub proof fn lemma_matched_embeds(stored: Seq<Seq<char>>, target: Seq<Seq<char>>, upto: int) -> (at:
    Seq<int>)
    requires
        0 <= upto <= stored.len(),
        target.len() >= 1,
    ensures
        embeds(stored, target, at, upto),
        at.len() == matched(stored, target, upto),
    decreases upto,
{
    if upto <= 1 {
        Seq::empty()
    } else {
        let before = lemma_matched_embeds(stored, target, upto - 1);
        let m = matched(stored, target, upto - 1);
        if 1 + m < target.len() && stored[upto - 1] == target[1 + m] {
            let at = before.push(upto - 1);
            assert forall|i: int, j: int| 0 <= i < j < at.len() implies #[trigger] at[i]
                < #[trigger] at[j] by {
                if j < before.len() {
                    assert(at[i] == before[i] && at[j] == before[j]);
                } else {
                    assert(at[i] == before[i]);
                }
            }
            at
        } else {
            before
        }
    }
}

/// No more of the target stands in the stored path, in order, than is
/// matched: matching finds the longest beginning of the target that the
/// stored path holds as a subsequence.
pub proof fn lemma_matched_longest(
    stored: Seq<Seq<char>>,
    target: Seq<Seq<char>>,
    upto: int,
    at: Seq<int>,
)
    requires
        0 <= upto <= stored.len(),
        embeds(stored, target, at, upto),
    ensures
        at.len() <= matched(stored, target, upto),
    decreases upto,
{
    if upto <= 1 {
        if at.len() > 0 {
            assert(1 <= at[0] < upto);
        }
    } else {
        let m = matched(stored, target, upto - 1);
        if at.len() > 0 && at.last() == upto - 1 {
            let shorter = at.drop_last();
            assert forall|i: int| 0 <= i < shorter.len() implies 1 <= #[trigger] shorter[i] < upto
                - 1 && stored[shorter[i]] == target[1 + i] by {
                assert(shorter[i] == at[i]);
                assert(at[i] < at[at.len() - 1]);
            }
            assert forall|i: int, j: int| 0 <= i < j < shorter.len() implies #[trigger] shorter[i]
                < #[trigger] shorter[j] by {
                assert(shorter[i] == at[i] && shorter[j] == at[j]);
            }
            lemma_matched_longest(stored, target, upto - 1, shorter);
            if shorter.len() == m {
                assert(stored[at[at.len() - 1]] == target[1 + (at.len() - 1)]);
            }
        } else {
            assert forall|i: int| 0 <= i < at.len() implies 1 <= #[trigger] at[i] < upto - 1 by {
                if i < at.len() - 1 {
                    assert(at[i] < at[at.len() - 1]);
                }
            }
            lemma_matched_longest(stored, target, upto - 1, at);
        }
    }
}

/// A stored path answers a target path just where it names the same
/// crate and holds the rest of the target, which is not empty, as a
/// subsequence of its own rest.
pub proof fn lemma_answers_is_subsequence(stored: Seq<Seq<char>>, target: Seq<Seq<char>>)
    ensures
        answers(stored, target) <==> (stored.len() > 0 && target.len() > 1 && stored[0] == target[0]
            && exists|at: Seq<int>|
            at.len() == target.len() - 1 && #[trigger] embeds(
                stored,
                target,
                at,
                stored.len() as int,
            )),
{
    if stored.len() > 0 && target.len() > 1 && stored[0] == target[0] {
        let shown = lemma_matched_embeds(stored, target, stored.len() as int);
        if answers(stored, target) {
            assert(shown.len() == target.len() - 1 && embeds(
                stored,
                target,
                shown,
                stored.len() as int,
            ));
        }
        if exists|at: Seq<int>|
            at.len() == target.len() - 1 && #[trigger] embeds(
                stored,
                target,
                at,
                stored.len() as int,
            ) {
            let at = choose|at: Seq<int>|
                at.len() == target.len() - 1 && #[trigger] embeds(
                    stored,
                    target,
                    at,
                    stored.len() as int,
                );
            lemma_matched_longest(stored, target, stored.len() as int, at);
        }
    }
}

/// The first entry of the path table, at or after `from`, whose fully
/// qualified name is `target`.
pub open spec fn exact_from(doc: RustdocJson, target: Seq<char>, from: int) -> Option<int>
    decreases doc.paths@.len() - from,
{
    if from < 0 || from >= doc.paths@.len() {
        None
    } else if doc.paths@[from].1.full_name() == target {
        Some(from)
    } else {
        exact_from(doc, target, from + 1)
    }
}

/// The first entry of the path table, at or after `from`, whose path
/// answers `target`.
pub open spec fn loose_from(doc: RustdocJson, target: Seq<Seq<char>>, from: int) -> Option<int>
    decreases doc.paths@.len() - from,
{
    if from < 0 || from >= doc.paths@.len() {
        None
    } else if answers(views(doc.paths@[from].1.path@), target) {
        Some(from)
    } else {
        loose_from(doc, target, from + 1)
    }
}

/// The entry of the path table that a path names: the first with that
/// very name, else the first that answers it through a re-export.
pub open spec fn named_entry(doc: RustdocJson, target: Seq<char>) -> Option<int> {
    match exact_from(doc, target, 0) {
        Some(i) => Some(i),
        None => loose_from(doc, split(target, "::"@), 0),
    }
}

/// Whether a stored path answers a target path.
pub fn path_answers(stored: &Vec<String>, target: &Vec<String>) -> (r: bool)
    ensures
        r == answers(views(stored@), views(target@)),
{
    if stored.len() == 0 || target.len() <= 1 {
        return false;
    }
    if !str_same(stored[0].as_str(), target[0].as_str()) {
        return false;
    }
    let mut m: usize = 0;
    let mut i: usize = 1;
    while i < stored.len()
        invariant
            1 <= i <= stored.len(),
            target.len() > 1,
            m <= target.len() - 1,
            m == matched(views(stored@), views(target@), i as int),
        decreases stored.len() - i,
    {
        if m + 1 < target.len() && str_same(stored[i].as_str(), target[m + 1].as_str()) {
            m += 1;
        }
        i += 1;
    }
    m == target.len() - 1
}

/// The position in the path table of the entry that a path names.
pub fn find_by_path(doc: &RustdocJson, target_path: &str) -> (r: Option<usize>)
    ensures
        match r {
            Some(i) => named_entry(*doc, target_path@) == Some(i as int) && i < doc.paths@.len(),
            None => named_entry(*doc, target_path@) is None,
        },
{
    let mut i: usize = 0;
    while i < doc.paths.len()
        invariant
            i <= doc.paths.len(),
            exact_from(*doc, target_path@, 0) == exact_from(*doc, target_path@, i as int),
        decreases doc.paths.len() - i,
    {
        let full = doc.paths[i].1.full_path();
        if str_same(full.as_str(), target_path) {
            return Some(i);
        }
        i += 1;
    }
    let parts = split_text(target_path, "::");
    let mut j: usize = 0;
    while j < doc.paths.len()
        invariant
            j <= doc.paths.len(),
            exact_from(*doc, target_path@, 0) is None,
            views(parts@) == split(target_path@, "::"@),
            loose_from(*doc, views(parts@), 0) == loose_from(*doc, views(parts@), j as int),
        decreases doc.paths.len() - j,
    {
        if path_answers(&doc.paths[j].1.path, &parts) {
            return Some(j);
        }
        j += 1;
    }
    None
}

/// The source that an index entry gives for `name`: that of a `use` item
/// of that name which stands outside the path table.
pub open spec fn reexport_source(doc: RustdocJson, name: Seq<char>, at: int) -> Option<Seq<char>> {
    let item = doc.index@[at].1;
    if doc.path_at(doc.index@[at].0@) is None && text_of(item.name) == Some(name)
        && item.kind_text() == Some("use"@) {
        match item.inner.member("use"@) {
            Some(u) => text_at(u, "source"@),
            None => None,
        }
    } else {
        None
    }
}

/// The sources that the first `upto` entries of the index give for `name`.
pub open spec fn reexport_sources(doc: RustdocJson, name: Seq<char>, upto: int) -> Seq<Seq<char>>
    decreases upto,
{
    if upto <= 0 || upto > doc.index@.len() {
        Seq::empty()
    } else {
        let before = reexport_sources(doc, name, upto - 1);
        match reexport_source(doc, name, upto - 1) {
            Some(s) => before.push(s),
            None => before,
        }
    }
}

/// The first three of a list, or all where there are fewer.
pub open spec fn first_three(list: Seq<Seq<char>>) -> Seq<Seq<char>> {
    if list.len() > 3 {
        list.take(3)
    } else {
        list
    }
}

/// From where an item of this name is re-exported: the sources of the
/// `use` items of that name outside the path table, three at most.
pub fn find_reexport_sources(doc: &RustdocJson, name: &str) -> (out: Vec<String>)
    ensures
        views(out@) == first_three(reexport_sources(*doc, name@, doc.index@.len() as int)),
{
    let mut out: Vec<String> = Vec::new();
    assert(views(out@) =~= Seq::empty());
    let mut i: usize = 0;
    while i < doc.index.len()
        invariant
            i <= doc.index.len(),
            views(out@) == reexport_sources(*doc, name@, i as int),
        decreases doc.index.len() - i,
    {
        let ghost before = out@;
        let item = &doc.index[i].1;
        if doc.path_entry(doc.index[i].0.as_str()).is_none() && item.is_kind("use") {
            let same_name = match &item.name {
                Some(n) => str_same(n.as_str(), name),
                None => false,
            };
            if same_name {
                if let Some(u) = item.inner_for("use") {
                    if let Some(source) = get_str(u, "source") {
                        let s = String::from_str(source);
                        out.push(s);
                        assert(views(out@) =~= views(before).push(s@));
                    }
                }
            }
        }
        i += 1;
    }
    if out.len() > 3 {
        let ghost all = views(out@);
        out.truncate(3);
        assert(views(out@) =~= all.take(3));
    }
    out
}

/// Why an item cannot be told of.
#[derive(Debug)]
pub enum ItemError {
    /// No entry of the path table answers the path, but `use` items of
    /// that name point to these sources in other crates.
    ReExported { sources: Vec<String> },
    /// No entry of the path table answers the path. `last` is the last
    /// component of the path that was asked for.
    NotFound { last: String },
    /// The path table knows the item, but the index does not hold it: it
    /// is defined in another crate. `path` is its stored path.
    DefinedElsewhere { path: String },
}

/// What is told of one item.
#[derive(Debug)]
pub struct ItemReport {
    pub kind: String,
    pub signature: String,
    pub docs: Option<String>,
    pub deprecated: Option<Deprecation>,
    pub feature_requirements: Vec<String>,
    pub methods: Vec<MethodInfo>,
    pub trait_impls: Vec<String>,
}

/// The declaration of an item of kind `kind`: that of a function, else
/// `kind name<generics>`.
pub open spec fn declaration(item: Item, kind: Seq<char>) -> Seq<char> {
    if kind == "function"@ {
        signature_text(item)
    } else {
        kind + " "@ + (match item.name {
            Some(n) => n@,
            None => "_"@,
        }) + first_generics(item, generic_kinds(kind), 0)
    }
}

/// The declaration of an item of kind `kind`.
pub fn declare(item: &Item, kind: &str) -> (r: String)
    ensures
        r@ == declaration(*item, kind@),
{
    if str_same(kind, "function") {
        function_signature(item)
    } else {
        let generics = format_generics_for_item(item, kind);
        let mut s = String::from_str(kind);
        s.append(" ");
        s.append(
            match &item.name {
                Some(n) => n.as_str(),
                None => "_",
            },
        );
        s.append(generics.as_str());
        s
    }
}

/// The last component of a path.
pub open spec fn last_component(path: Seq<char>) -> Seq<char> {
    split(path, "::"@).last()
}

/// The trait impls that a mode asks for: none for `none`, all for `all`,
/// else those that tell something of the type.
pub open spec fn wanted_impls(doc: RustdocJson, item: Item, mode: Seq<char>) -> Seq<Seq<char>> {
    if mode == "none"@ {
        Seq::empty()
    } else {
        trait_paths(doc, impl_ids(item), mode != "all"@)
    }
}

impl ItemReport {
    /// This report tells of `item`, whose path entry has kind `kind`.
    pub open spec fn tells_of(
        self,
        doc: RustdocJson,
        item: Item,
        kind: Seq<char>,
        include_methods: bool,
        mode: Seq<char>,
        declared: Seq<Seq<char>>,
    ) -> bool {
        &&& self.kind@ == kind
        &&& self.signature@ == declaration(item, kind)
        &&& text_of(self.docs) == text_of(item.docs)
        &&& match item.deprecation {
            Some(d) => self.deprecated is Some && text_of(self.deprecated->0.since) == text_of(
                d.since,
            ) && text_of(self.deprecated->0.note) == text_of(d.note),
            None => self.deprecated is None,
        }
        &&& compiles(feature_pattern()) ==> is_selection(
            views(self.feature_requirements@),
            found_in(attr_texts(item.attrs@)),
            declared,
        )
        &&& !compiles(feature_pattern()) ==> self.feature_requirements@.len() == 0
        &&& if include_methods {
            tell_of(self.methods@, methods_of(doc, item), declared)
        } else {
            self.methods@.len() == 0
        }
        &&& views(self.trait_impls@) == wanted_impls(doc, item, mode)
    }
}

/// Tells of the item that a path names: its kind and declaration, its
/// docs and deprecation, the flags that gate it, its methods where they
/// are asked for, and the traits it implements as `trait_impl_mode` says.
///
/// Fails where no path entry answers the path, and where the entry's
/// item is defined in another crate.
pub fn describe_item(
    doc: &RustdocJson,
    target_path: &str,
    include_methods: bool,
    trait_impl_mode: &str,
    declared_features: &Vec<String>,
) -> (r: Result<ItemReport, ItemError>)
    ensures
        match r {
            Ok(report) => {
                let at = named_entry(*doc, target_path@);
                &&& at is Some
                &&& doc.item_at(doc.paths@[at->0].0@) is Some
                &&& report.tells_of(
                    *doc,
                    doc.item_at(doc.paths@[at->0].0@)->0,
                    doc.paths@[at->0].1.kind@,
                    include_methods,
                    trait_impl_mode@,
                    views(declared_features@),
                )
            },
            Err(ItemError::ReExported { sources }) => {
                &&& named_entry(*doc, target_path@) is None
                &&& sources@.len() > 0
                &&& views(sources@) == first_three(
                    reexport_sources(
                        *doc,
                        last_component(target_path@),
                        doc.index@.len() as int,
                    ),
                )
            },
            Err(ItemError::NotFound { last }) => {
                &&& named_entry(*doc, target_path@) is None
                &&& last@ == last_component(target_path@)
                &&& reexport_sources(*doc, last@, doc.index@.len() as int).len() == 0
            },
            Err(ItemError::DefinedElsewhere { path }) => {
                let at = named_entry(*doc, target_path@);
                &&& at is Some
                &&& doc.item_at(doc.paths@[at->0].0@) is None
                &&& path@ == doc.paths@[at->0].1.full_name()
            },
        },
{
    let at = match find_by_path(doc, target_path) {
        Some(at) => at,
        None => {
            let mut parts = split_text(target_path, "::");
            let last = match parts.pop() {
                Some(l) => l,
                None => String::new(),
            };
            let sources = find_reexport_sources(doc, last.as_str());
            proof {
                let all = reexport_sources(*doc, last@, doc.index@.len() as int);
                assert(views(sources@).len() == sources@.len());
                if all.len() > 3 {
                    assert(all.take(3).len() == 3);
                }
            }
            return if sources.len() > 0 {
                Err(ItemError::ReExported { sources })
            } else {
                Err(ItemError::NotFound { last })
            };
        },
    };
    let entry = &doc.paths[at].1;
    let item = match doc.item(doc.paths[at].0.as_str()) {
        Some(i) => i,
        None => {
            return Err(ItemError::DefinedElsewhere { path: entry.full_path() });
        },
    };
    let kind = entry.kind_name();
    let attrs = item.attr_strings();
    let methods = if include_methods {
        collect_methods(doc, item, declared_features)
    } else {
        Vec::new()
    };
    let trait_impls = if str_same(trait_impl_mode, "none") {
        let none: Vec<String> = Vec::new();
        assert(views(none@) =~= Seq::empty());
        none
    } else {
        collect_trait_impls(doc, item, !str_same(trait_impl_mode, "all"))
    };
    Ok(
        ItemReport {
            kind: String::from_str(kind),
            signature: declare(item, kind),
            docs: copy_text(&item.docs),
            deprecated: match &item.deprecation {
                Some(d) => Some(Deprecation { since: copy_text(&d.since), note: copy_text(&d.note) }),
                None => None,
            },
            feature_requirements: extract_feature_requirements(&attrs, declared_features),
            methods,
            trait_impls,
        },
    )
}

} // verus!
