use vstd::prelude::*;
use crate::json::Json;
use crate::render::get_array;
use crate::signature::opt_member;
use crate::table::{find_position, position};
use crate::text::str_same;
use vstd::string::StringExecFns;
use crate::types::{Item, RustdocJson};

verus! {

/// How deep the module tree goes below the root's children.
pub const MAX_DEPTH: usize = 5;

/// A non-module item directly inside a module.
#[derive(Debug, Clone)]
pub struct ItemSummary {
    pub kind: String,
    pub name: String,
    pub doc_summary: String,
}

/// A module with what stands directly inside it. `item_counts` holds each
/// kind once, in the order in which the kinds first occur.
#[derive(Debug)]
pub struct ModuleNode {
    pub path: String,
    pub doc_summary: String,
    pub item_counts: Vec<(String, usize)>,
    pub items: Vec<ItemSummary>,
    pub children: Vec<ModuleNode>,
}

/// What an `ItemSummary` holds.
pub struct SummaryView {
    pub kind: Seq<char>,
    pub name: Seq<char>,
    pub doc_summary: Seq<char>,
}

/// What a `ModuleNode` holds.
pub struct NodeView {
    pub path: Seq<char>,
    pub doc_summary: Seq<char>,
    pub item_counts: Seq<(Seq<char>, nat)>,
    pub items: Seq<SummaryView>,
    pub children: Seq<NodeView>,
}

impl ItemSummary {
    /// What the value holds.
    pub open spec fn view(self) -> SummaryView {
        SummaryView { kind: self.kind@, name: self.name@, doc_summary: self.doc_summary@ }
    }
}

/// What a list of summaries holds.
pub open spec fn summaries_view(items: Seq<ItemSummary>) -> Seq<SummaryView> {
    items.map_values(|s: ItemSummary| s.view())
}

/// What a tally holds.
pub open spec fn counts_view(counts: Seq<(String, usize)>) -> Seq<(Seq<char>, nat)> {
    counts.map_values(|e: (String, usize)| (e.0@, e.1 as nat))
}

impl ModuleNode {
    /// What the value holds.
    pub open spec fn view(self) -> NodeView
        decreases self,
    {
        NodeView {
            path: self.path@,
            doc_summary: self.doc_summary@,
            item_counts: counts_view(self.item_counts@),
            items: summaries_view(self.items@),
            children: nodes_view(self.children@),
        }
    }
}

/// What a list of nodes holds.
pub open spec fn nodes_view(nodes: Seq<ModuleNode>) -> Seq<NodeView>
    decreases nodes,
{
    if nodes.len() == 0 {
        Seq::empty()
    } else {
        nodes_view(nodes.drop_last()).push(nodes.last().view())
    }
}

/// A kind that names a re-export.
pub open spec fn is_reexport(kind: Seq<char>) -> bool {
    kind == "use"@ || kind == "import"@
}

/// The ids listed by a module item; none for any other item.
pub open spec fn module_ids(item: Item) -> Seq<Json> {
    match opt_member(item.inner.member("module"@), "items"@) {
        Some(v) => match v.elements() {
            Some(ids) => ids,
            None => Seq::empty(),
        },
        None => Seq::empty(),
    }
}

/// The item that an id value names.
pub open spec fn item_of(doc: RustdocJson, id_val: Json) -> Option<Item> {
    match id_val.id_text() {
        Some(id) => doc.item_at(id),
        None => None,
    }
}

/// The kind under which a listed id counts: that of the item it names,
/// unless it names none, the item has no kind, or the item is a re-export.
pub open spec fn counted_kind(doc: RustdocJson, id_val: Json) -> Option<Seq<char>> {
    match item_of(doc, id_val) {
        Some(item) => match item.kind_text() {
            Some(k) => if is_reexport(k) {
                None
            } else {
                Some(k)
            },
            None => None,
        },
        None => None,
    }
}

/// The position of `kind` in a tally, at or after `from`.
pub open spec fn slot(tally: Seq<(Seq<char>, nat)>, kind: Seq<char>, from: int) -> Option<int>
    decreases tally.len() - from,
{
    if from < 0 || from >= tally.len() {
        None
    } else if tally[from].0 == kind {
        Some(from)
    } else {
        slot(tally, kind, from + 1)
    }
}

/// The tally with one more of `kind`.
pub open spec fn bumped(tally: Seq<(Seq<char>, nat)>, kind: Seq<char>) -> Seq<(Seq<char>, nat)> {
    match slot(tally, kind, 0) {
        Some(i) => tally.update(i, (kind, tally[i].1 + 1)),
        None => tally.push((kind, 1)),
    }
}

/// How many of the listed ids count under each kind: the kinds in order
/// of first occurrence, re-exports left out.
pub open spec fn tally_of(doc: RustdocJson, ids: Seq<Json>) -> Seq<(Seq<char>, nat)>
    decreases ids.len(),
{
    if ids.len() == 0 {
        Seq::empty()
    } else {
        let before = tally_of(doc, ids.drop_last());
        match counted_kind(doc, ids.last()) {
            Some(k) => bumped(before, k),
            None => before,
        }
    }
}

/// The summary of a listed id: that of a counted item that is no module.
pub open spec fn summary_at(doc: RustdocJson, id_val: Json) -> Option<SummaryView> {
    match counted_kind(doc, id_val) {
        Some(k) => if k == "module"@ {
            None
        } else {
            Some(
                SummaryView {
                    kind: k,
                    name: item_of(doc, id_val)->0.name_text(),
                    doc_summary: item_of(doc, id_val)->0.summary(),
                },
            )
        },
        None => None,
    }
}

/// The summaries of the listed ids, in order.
pub open spec fn direct_items(doc: RustdocJson, ids: Seq<Json>) -> Seq<SummaryView>
    decreases ids.len(),
{
    if ids.len() == 0 {
        Seq::empty()
    } else {
        let before = direct_items(doc, ids.drop_last());
        match summary_at(doc, ids.last()) {
            Some(s) => before.push(s),
            None => before,
        }
    }
}

/// The path of a module: its fully qualified name from the path table,
/// else its name, else its id.
pub open spec fn path_of_module(doc: RustdocJson, id: Seq<char>, item: Item) -> Seq<char> {
    match doc.path_at(id) {
        Some(p) => p.full_name(),
        None => match item.name {
            Some(n) => n@,
            None => id,
        },
    }
}

/// The node of a listed id at `depth`: present where the id names a module.
pub open spec fn node_at(doc: RustdocJson, id_val: Json, depth: nat) -> Option<NodeView>
    decreases 6 - depth, 0nat,
{
    if depth > 5 {
        None
    } else {
        match id_val.id_text() {
            None => None,
            Some(id) => match doc.item_at(id) {
                None => None,
                Some(item) => if item.kind_text() == Some("module"@) {
                    Some(
                        NodeView {
                            path: path_of_module(doc, id, item),
                            doc_summary: item.summary(),
                            item_counts: tally_of(doc, module_ids(item)),
                            items: direct_items(doc, module_ids(item)),
                            children: children_of(doc, module_ids(item), depth + 1),
                        },
                    )
                } else {
                    None
                },
            },
        }
    }
}

/// The module nodes of the listed ids at `depth`, in order; none below
/// depth 5.
pub open spec fn children_of(doc: RustdocJson, ids: Seq<Json>, depth: nat) -> Seq<NodeView>
    decreases 6 - depth, ids.len() + 1,
{
    if depth > 5 || ids.len() == 0 {
        Seq::empty()
    } else {
        let before = children_of(doc, ids.drop_last(), depth);
        match node_at(doc, ids.last(), depth) {
            Some(n) => before.push(n),
            None => before,
        }
    }
}

/// The module tree of a document: the module nodes among the root
/// module's items; empty where the root is missing or no module.
pub open spec fn tree_of(doc: RustdocJson) -> Seq<NodeView> {
    match doc.item_at(doc.root_text()) {
        Some(root) => if root.inner.member("module"@) is Some {
            children_of(doc, module_ids(root), 0)
        } else {
            Seq::empty()
        },
        None => Seq::empty(),
    }
}

/// A node is well kept within `levels` levels: it and every module below
/// it counts and lists no re-export, and no chain of sub-modules from it
/// is longer than `levels`.
pub open spec fn well_kept(n: NodeView, levels: nat) -> bool
    decreases levels,
{
    &&& levels > 0
    &&& forall|i: int| 0 <= i < n.item_counts.len() ==> !is_reexport((#[trigger] n.item_counts[i]).0)
    &&& forall|i: int| 0 <= i < n.items.len() ==> !is_reexport((#[trigger] n.items[i]).kind)
    &&& forall|i: int|
        0 <= i < n.children.len() ==> well_kept(#[trigger] n.children[i], (levels - 1) as nat)
}

proof fn lemma_slot(tally: Seq<(Seq<char>, nat)>, kind: Seq<char>, from: int)
    requires
        0 <= from,
    ensures
        slot(tally, kind, from) is Some ==> from <= slot(tally, kind, from)->0 < tally.len()
            && tally[slot(tally, kind, from)->0].0 == kind,
    decreases tally.len() - from,
{
    if from < tally.len() && tally[from].0 != kind {
        lemma_slot(tally, kind, from + 1);
    }
}

proof fn lemma_tally_counts_no_reexport(doc: RustdocJson, ids: Seq<Json>)
    ensures
        forall|i: int|
            0 <= i < tally_of(doc, ids).len() ==> !is_reexport((#[trigger] tally_of(doc, ids)[i]).0),
    decreases ids.len(),
{
    if ids.len() > 0 {
        lemma_tally_counts_no_reexport(doc, ids.drop_last());
        let before = tally_of(doc, ids.drop_last());
        if let Some(k) = counted_kind(doc, ids.last()) {
            let after = bumped(before, k);
            lemma_slot(before, k, 0);
            assert forall|i: int| 0 <= i < after.len() implies !is_reexport(
                (#[trigger] after[i]).0,
            ) by {
                match slot(before, k, 0) {
                    Some(p) => {
                        if i != p {
                            assert(after[i] == before[i]);
                        }
                    },
                    None => {
                        if i < before.len() {
                            assert(after[i] == before[i]);
                        }
                    },
                }
            }
        }
    }
}

proof fn lemma_direct_items_no_reexport(doc: RustdocJson, ids: Seq<Json>)
    ensures
        forall|i: int|
            0 <= i < direct_items(doc, ids).len() ==> !is_reexport(
                (#[trigger] direct_items(doc, ids)[i]).kind,
            ),
    decreases ids.len(),
{
    if ids.len() > 0 {
        lemma_direct_items_no_reexport(doc, ids.drop_last());
        let before = direct_items(doc, ids.drop_last());
        let after = direct_items(doc, ids);
        assert forall|i: int| 0 <= i < after.len() implies !is_reexport(
            (#[trigger] after[i]).kind,
        ) by {
            if i < before.len() {
                assert(after[i] == before[i]);
            } else {
                assert(summary_at(doc, ids.last()) == Some(after[i]));
                assert(counted_kind(doc, ids.last()) == Some(after[i].kind));
            }
        }
    }
}

/// The module tree never goes past depth 5, and no node of it counts or
/// lists a re-export: every node built at `depth` is well kept within the
/// levels that are left.
pub proof fn lemma_tree_well_kept(doc: RustdocJson, ids: Seq<Json>, depth: nat)
    ensures
        forall|i: int|
            0 <= i < children_of(doc, ids, depth).len() ==> well_kept(
                #[trigger] children_of(doc, ids, depth)[i],
                (6 - depth) as nat,
            ),
    decreases 6 - depth, ids.len(),
{
    if depth <= 5 && ids.len() > 0 {
        lemma_tree_well_kept(doc, ids.drop_last(), depth);
        let before = children_of(doc, ids.drop_last(), depth);
        let after = children_of(doc, ids, depth);
        if let Some(n) = node_at(doc, ids.last(), depth) {
            let item = doc.item_at(ids.last().id_text()->0)->0;
            lemma_tally_counts_no_reexport(doc, module_ids(item));
            lemma_direct_items_no_reexport(doc, module_ids(item));
            lemma_tree_well_kept(doc, module_ids(item), depth + 1);
            assert(n.children == children_of(doc, module_ids(item), depth + 1));
        }
        assert forall|i: int| 0 <= i < after.len() implies well_kept(
            #[trigger] after[i],
            (6 - depth) as nat,
        ) by {
            if i < before.len() {
                assert(after[i] == before[i]);
            }
        }
    }
}

/// The ids listed by a module item.
pub fn listed_ids(item: &Item) -> (r: Option<&Vec<Json>>)
    ensures
        match r {
            Some(v) => module_ids(*item) == v@,
            None => module_ids(*item) == Seq::<Json>::empty(),
        },
{
    match item.inner_for("module") {
        Some(m) => get_array(m, "items"),
        None => None,
    }
}

/// The item that an id value names.
pub fn resolve<'a>(doc: &'a RustdocJson, id_val: &Json) -> (r: Option<&'a Item>)
    ensures
        match r {
            Some(i) => item_of(*doc, *id_val) == Some(*i),
            None => item_of(*doc, *id_val) is None,
        },
{
    match id_val.id_string() {
        Some(id) => doc.item(id.as_str()),
        None => None,
    }
}

/// The item that a listed id counts as, with its kind.
fn counted<'a>(doc: &'a RustdocJson, id_val: &Json) -> (r: Option<(&'a str, &'a Item)>)
    ensures
        match r {
            Some(found) => counted_kind(*doc, *id_val) == Some(found.0@) && item_of(*doc, *id_val)
                == Some(*found.1),
            None => counted_kind(*doc, *id_val) is None,
        },
{
    match resolve(doc, id_val) {
        Some(item) => match item.kind() {
            Some(k) => if str_same(k, "use") || str_same(k, "import") {
                None
            } else {
                Some((k, item))
            },
            None => None,
        },
        None => None,
    }
}

proof fn lemma_slot_is_position(counts: Seq<(String, usize)>, kind: Seq<char>, from: int)
    requires
        0 <= from,
    ensures
        slot(counts_view(counts), kind, from) == position(counts, kind, from),
    decreases counts.len() - from,
{
    if from < counts.len() {
        if counts[from].0@ != kind {
            lemma_slot_is_position(counts, kind, from + 1);
        }
    }
}

/// Counts one more of `kind`.
fn bump(counts: &mut Vec<(String, usize)>, kind: &str, Ghost(bound): Ghost<nat>)
    requires
        bound < usize::MAX,
        forall|k: int| 0 <= k < old(counts)@.len() ==> (#[trigger] old(counts)@[k]).1 <= bound,
    ensures
        counts_view(final(counts)@) == bumped(counts_view(old(counts)@), kind@),
        forall|k: int| 0 <= k < final(counts)@.len() ==> (#[trigger] final(counts)@[k]).1 <= bound + 1,
{
    proof {
        lemma_slot_is_position(counts@, kind@, 0);
    }
    let ghost before = counts@;
    match find_position(counts, kind) {
        Some(i) => {
            let n = counts[i].1;
            counts.set(i, (String::from_str(kind), n + 1));
            assert(counts_view(counts@) =~= counts_view(before).update(
                i as int,
                (kind@, (n + 1) as nat),
            ));
        },
        None => {
            counts.push((String::from_str(kind), 1));
            assert(counts_view(counts@) =~= counts_view(before).push((kind@, 1nat)));
        },
    }
}

/// How many of the listed ids count under each kind.
fn tally(doc: &RustdocJson, ids: &Vec<Json>) -> (out: Vec<(String, usize)>)
    ensures
        counts_view(out@) == tally_of(*doc, ids@),
{
    let mut out: Vec<(String, usize)> = Vec::new();
    assert(counts_view(out@) =~= Seq::empty());
    let mut i: usize = 0;
    while i < ids.len()
        invariant
            i <= ids.len(),
            counts_view(out@) == tally_of(*doc, ids@.take(i as int)),
            forall|k: int| 0 <= k < out@.len() ==> (#[trigger] out@[k]).1 <= i,
        decreases ids.len() - i,
    {
        assert(ids@.take(i + 1).drop_last() =~= ids@.take(i as int));
        match counted(doc, &ids[i]) {
            Some(found) => {
                bump(&mut out, found.0, Ghost(i as nat));
            },
            None => {},
        }
        i += 1;
    }
    assert(ids@.take(ids.len() as int) =~= ids@);
    out
}

/// The summaries of the listed ids.
fn summarize_items(doc: &RustdocJson, ids: &Vec<Json>) -> (out: Vec<ItemSummary>)
    ensures
        summaries_view(out@) == direct_items(*doc, ids@),
{
    let mut out: Vec<ItemSummary> = Vec::new();
    assert(summaries_view(out@) =~= Seq::empty());
    let mut i: usize = 0;
    while i < ids.len()
        invariant
            i <= ids.len(),
            summaries_view(out@) == direct_items(*doc, ids@.take(i as int)),
        decreases ids.len() - i,
    {
        assert(ids@.take(i + 1).drop_last() =~= ids@.take(i as int));
        let ghost before = out@;
        match counted(doc, &ids[i]) {
            Some(found) => {
                if !str_same(found.0, "module") {
                    let s = ItemSummary {
                        kind: String::from_str(found.0),
                        name: String::from_str(found.1.name_str()),
                        doc_summary: found.1.doc_summary(),
                    };
                    out.push(s);
                    assert(summaries_view(out@) =~= summaries_view(before).push(s.view()));
                }
            },
            None => {},
        }
        i += 1;
    }
    assert(ids@.take(ids.len() as int) =~= ids@);
    out
}

/// The node of a listed id at `depth`.
fn build_node(id_val: &Json, doc: &RustdocJson, depth: usize) -> (r: Option<ModuleNode>)
    ensures
        match r {
            Some(n) => node_at(*doc, *id_val, depth as nat) == Some(n.view()),
            None => node_at(*doc, *id_val, depth as nat) is None,
        },
    decreases 6 - depth, 0nat,
{
    if depth > MAX_DEPTH {
        return None;
    }
    let id = match id_val.id_string() {
        Some(id) => id,
        None => {
            return None;
        },
    };
    let item = match doc.item(id.as_str()) {
        Some(i) => i,
        None => {
            return None;
        },
    };
    if !item.is_kind("module") {
        return None;
    }
    let path = match doc.path_entry(id.as_str()) {
        Some(p) => p.full_path(),
        None => match &item.name {
            Some(n) => n.clone(),
            None => id,
        },
    };
    let none: Vec<Json> = Vec::new();
    let sub = match listed_ids(item) {
        Some(v) => v,
        None => &none,
    };
    assert(sub@ =~= module_ids(*item));
    Some(
        ModuleNode {
            path,
            doc_summary: item.doc_summary(),
            item_counts: tally(doc, sub),
            items: summarize_items(doc, sub),
            children: build_children(sub, doc, depth + 1),
        },
    )
}

/// The module nodes of the listed ids at `depth`; none below depth 5.
pub fn build_children(item_ids: &Vec<Json>, doc: &RustdocJson, depth: usize) -> (out: Vec<
    ModuleNode,
>)
    ensures
        nodes_view(out@) == children_of(*doc, item_ids@, depth as nat),
    decreases 6 - depth, item_ids.len() + 1,
{
    let mut out: Vec<ModuleNode> = Vec::new();
    if depth > MAX_DEPTH {
        return out;
    }
    let mut i: usize = 0;
    while i < item_ids.len()
        invariant
            i <= item_ids.len(),
            depth <= MAX_DEPTH,
            nodes_view(out@) == children_of(*doc, item_ids@.take(i as int), depth as nat),
        decreases item_ids.len() - i,
    {
        assert(item_ids@.take(i + 1).drop_last() =~= item_ids@.take(i as int));
        let ghost before = out@;
        match build_node(&item_ids[i], doc, depth) {
            Some(n) => {
                out.push(n);
                assert(out@.drop_last() =~= before);
            },
            None => {},
        }
        i += 1;
    }
    assert(item_ids@.take(item_ids.len() as int) =~= item_ids@);
    out
}

/// The module tree of a document: the module nodes among the root
/// module's items, each with its summary, its tally of direct items by
/// kind, its direct non-module items and its sub-modules down to depth 5.
/// Re-exports are neither counted nor listed. Empty where the root item
/// is missing or is no module.
pub fn build_module_tree(doc: &RustdocJson) -> (out: Vec<ModuleNode>)
    ensures
        nodes_view(out@) == tree_of(*doc),
        forall|i: int| 0 <= i < nodes_view(out@).len() ==> well_kept(#[trigger] nodes_view(out@)[i], 6),
{
    proof {
        if let Some(root) = doc.item_at(doc.root_text()) {
            lemma_tree_well_kept(*doc, module_ids(root), 0);
        }
    }
    let root_id = doc.root_id();
    let root = match doc.item(root_id.as_str()) {
        Some(r) => r,
        None => {
            return Vec::new();
        },
    };
    if root.inner_for("module").is_none() {
        return Vec::new();
    }
    let none: Vec<Json> = Vec::new();
    let ids = match listed_ids(root) {
        Some(v) => v,
        None => &none,
    };
    assert(ids@ =~= module_ids(*root));
    build_children(ids, doc, 0)
}

} // verus!
