use vstd::prelude::*;
use crate::features::insert_ascending;
use crate::sparse_index::{DepEntry, DepKind, IndexLine, has_char, not_later, version_le};
use crate::text::{ascending, contains, has_sub, text_of, views};
use crate::tools::CrateVersionsListParams;

verus! {

/// One version of a crate as it is listed.
#[derive(Debug, Clone)]
pub struct VersionEntry {
    pub version: String,
    pub yanked: bool,
    pub rust_version: Option<String>,
    pub features: Vec<String>,
    pub dep_count: usize,
}

/// One page of the versions of a crate. `total` counts the versions that
/// pass the filters, on all pages.
#[derive(Debug, Clone)]
pub struct VersionsPage {
    pub total: usize,
    pub page: usize,
    pub per_page: usize,
    pub versions: Vec<VersionEntry>,
}

impl CrateVersionsListParams {
    /// The line passes the filters: yanked versions and pre-releases only
    /// where they are asked for, and with a search text only versions
    /// that hold it.
    pub open spec fn lists(self, line: IndexLine) -> bool {
        &&& self.include_yanked == Some(true) || !line.yanked
        &&& self.include_prerelease == Some(true) || !line.vers@.contains('-')
        &&& self.search is Some ==> has_sub(line.vers@, self.search->0@)
    }
}

/// The place of line `x` in an order by descending version: before the
/// first line, at or after `from`, that stands before it.
pub open spec fn place_in(order: Seq<int>, lines: Seq<IndexLine>, x: int, from: int) -> int
    decreases order.len() - from,
{
    if from < 0 || from >= order.len() {
        order.len() as int
    } else if !version_le(lines[x].vers@, lines[order[from]].vers@) {
        from
    } else {
        place_in(order, lines, x, from + 1)
    }
}

/// The positions of those of the first `upto` lines that pass the
/// filters, by descending version: each line is put in turn before the
/// first that stands before it, so that of equal versions the earlier
/// line comes first.
pub open spec fn listed_order(lines: Seq<IndexLine>, params: CrateVersionsListParams, upto: int) -> Seq<
    int,
>
    decreases upto,
{
    if upto <= 0 || upto > lines.len() {
        Seq::empty()
    } else {
        let before = listed_order(lines, params, upto - 1);
        if params.lists(lines[upto - 1]) {
            before.insert(place_in(before, lines, upto - 1, 0), upto - 1)
        } else {
            before
        }
    }
}

/// How many of the dependencies are normal ones: of kind `Normal`, or of
/// no kind.
pub open spec fn normal_deps(deps: Seq<DepEntry>) -> nat
    decreases deps.len(),
{
    if deps.len() == 0 {
        0
    } else {
        normal_deps(deps.drop_last()) + (if deps.last().kind is None || deps.last().kind == Some(
            DepKind::Normal,
        ) {
            1nat
        } else {
            0nat
        })
    }
}

/// The names that a feature table holds.
pub open spec fn key_texts(table: Seq<(String, Vec<String>)>) -> Seq<Seq<char>> {
    table.map_values(|e: (String, Vec<String>)| e.0@)
}

impl VersionEntry {
    /// This entry tells of `line`: its version, whether it is yanked, its
    /// minimum Rust version, the names of its features from both tables,
    /// ascending and each once, and the number of its normal dependencies.
    pub open spec fn tells_of(self, line: IndexLine) -> bool {
        &&& self.version@ == line.vers@
        &&& self.yanked == line.yanked
        &&& text_of(self.rust_version) == text_of(line.rust_version)
        &&& ascending(views(self.features@))
        &&& forall|name: Seq<char>|
            views(self.features@).contains(name) <==> line.merged_under(name) is Some
        &&& self.dep_count == normal_deps(line.deps@)
    }
}

/// The entries tell of the lines at the positions `order[from..]`, one for one.
pub open spec fn tell_of_lines(
    out: Seq<VersionEntry>,
    lines: Seq<IndexLine>,
    order: Seq<int>,
    from: int,
) -> bool {
    forall|k: int| 0 <= k < out.len() ==> (#[trigger] out[k]).tells_of(lines[order[from + k]])
}

/// A table holds a name just where it holds something under it.
pub proof fn lemma_key_held(table: Seq<(String, Vec<String>)>, name: Seq<char>)
    ensures
        key_texts(table).contains(name) <==> crate::sparse_index::list_under(table, name) is Some,
{
    crate::table::lemma_position(table, name, 0);
    if key_texts(table).contains(name) {
        let k = choose|k: int| 0 <= k < key_texts(table).len() && key_texts(table)[k] == name;
    }
    if let Some(p) = crate::table::position(table, name, 0) {
        assert(key_texts(table)[p] == name);
    }
}

/// How many of the dependencies are normal ones.
pub fn count_normal_deps(deps: &Vec<DepEntry>) -> (n: usize)
    ensures
        n == normal_deps(deps@),
{
    let mut n: usize = 0;
    let mut i: usize = 0;
    while i < deps.len()
        invariant
            i <= deps.len(),
            n <= i,
            n == normal_deps(deps@.take(i as int)),
        decreases deps.len() - i,
    {
        assert(deps@.take(i + 1).drop_last() =~= deps@.take(i as int));
        let normal = match deps[i].kind {
            Some(k) => k == DepKind::Normal,
            None => true,
        };
        if normal {
            n += 1;
        }
        i += 1;
    }
    assert(deps@.take(deps.len() as int) =~= deps@);
    n
}

/// The names of a feature table, ascending, each once.
pub fn feature_names(table: &Vec<(String, Vec<String>)>) -> (out: Vec<String>)
    ensures
        ascending(views(out@)),
        forall|name: Seq<char>| views(out@).contains(name) <==> key_texts(table@).contains(name),
{
    let mut out: Vec<String> = Vec::new();
    let mut i: usize = 0;
    while i < table.len()
        invariant
            i <= table.len(),
            ascending(views(out@)),
            forall|name: Seq<char>|
                views(out@).contains(name) <==> key_texts(table@).take(i as int).contains(name),
        decreases table.len() - i,
    {
        let ghost seen = key_texts(table@).take(i as int);
        let ghost next = key_texts(table@).take(i + 1);
        let ghost here = table@[i as int].0@;
        assert(next =~= seen.push(here));
        assert forall|name: Seq<char>| next.contains(name) <==> (seen.contains(name) || name
            == here) by {
            if next.contains(name) {
                let k = choose|k: int| 0 <= k < next.len() && next[k] == name;
                if k < seen.len() {
                    assert(seen[k] == name);
                }
            }
            if seen.contains(name) {
                let k = choose|k: int| 0 <= k < seen.len() && seen[k] == name;
            }
            if name == here {
                assert(next[seen.len() as int] == name);
            }
        }
        insert_ascending(&mut out, table[i].0.clone());
        i += 1;
    }
    assert(key_texts(table@).take(table.len() as int) =~= key_texts(table@));
    out
}

/// The place of line `x` in an order by descending version.
fn find_place(lines: &Vec<IndexLine>, order: &Vec<usize>, x: usize) -> (p: usize)
    requires
        x < lines@.len(),
        forall|k: int| 0 <= k < order@.len() ==> (#[trigger] order@[k]) < lines@.len(),
    ensures
        p <= order@.len(),
        p == place_in(order@.map_values(|p: usize| p as int), lines@, x as int, 0),
        forall|k: int|
            0 <= k < p ==> version_le(
                lines@[x as int].vers@,
                lines@[(#[trigger] order@[k]) as int].vers@,
            ),
        p < order@.len() ==> version_le(lines@[order@[p as int] as int].vers@, lines@[x as int].vers@),
{
    let ghost ints = order@.map_values(|p: usize| p as int);
    let mut p: usize = 0;
    while p < order.len()
        invariant
            p <= order.len(),
            x < lines@.len(),
            ints == order@.map_values(|p: usize| p as int),
            forall|k: int| 0 <= k < order@.len() ==> (#[trigger] order@[k]) < lines@.len(),
            place_in(ints, lines@, x as int, 0) == place_in(ints, lines@, x as int, p as int),
            forall|k: int|
                0 <= k < p ==> version_le(
                    lines@[x as int].vers@,
                    lines@[(#[trigger] order@[k]) as int].vers@,
                ),
        decreases order.len() - p,
    {
        if !not_later(lines[x].vers.as_str(), lines[order[p]].vers.as_str()) {
            return p;
        }
        p += 1;
    }
    p
}

/// The positions of the lines that pass the filters, by descending
/// version: each stands at or after the one that follows it.
pub fn order_versions(lines: &Vec<IndexLine>, params: &CrateVersionsListParams) -> (order: Vec<
    usize,
>)
    ensures
        order@.map_values(|p: usize| p as int) == listed_order(
            lines@,
            *params,
            lines@.len() as int,
        ),
        forall|k: int| 0 <= k < order@.len() ==> (#[trigger] order@[k]) < lines@.len(),
        forall|k: int|
            0 <= k < order@.len() - 1 ==> version_le(
                lines@[order@[k + 1] as int].vers@,
                lines@[(#[trigger] order@[k]) as int].vers@,
            ),
{
    let include_yanked = match params.include_yanked {
        Some(b) => b,
        None => false,
    };
    let include_prerelease = match params.include_prerelease {
        Some(b) => b,
        None => false,
    };
    let mut order: Vec<usize> = Vec::new();
    assert(order@.map_values(|p: usize| p as int) =~= Seq::<int>::empty());
    let mut i: usize = 0;
    while i < lines.len()
        invariant
            i <= lines.len(),
            include_yanked == (params.include_yanked == Some(true)),
            include_prerelease == (params.include_prerelease == Some(true)),
            order@.map_values(|p: usize| p as int) == listed_order(lines@, *params, i as int),
            forall|k: int| 0 <= k < order@.len() ==> (#[trigger] order@[k]) < i,
            forall|k: int|
                0 <= k < order@.len() - 1 ==> version_le(
                    lines@[order@[k + 1] as int].vers@,
                    lines@[(#[trigger] order@[k]) as int].vers@,
                ),
        decreases lines.len() - i,
    {
        let line = &lines[i];
        let listed = (include_yanked || !line.yanked) && (include_prerelease || !has_char(
            line.vers.as_str(),
            '-',
        )) && (match &params.search {
            Some(s) => contains(line.vers.as_str(), s.as_str()),
            None => true,
        });
        if listed {
            let ghost before = order@;
            let ghost ints = before.map_values(|p: usize| p as int);
            let p = find_place(lines, &order, i);
            order.insert(p, i);
            assert(order@.map_values(|p: usize| p as int) =~= ints.insert(p as int, i as int));
            assert forall|k: int| 0 <= k < order@.len() - 1 implies version_le(
                lines@[order@[k + 1] as int].vers@,
                lines@[(#[trigger] order@[k]) as int].vers@,
            ) by {
                if k + 1 < p {
                    assert(order@[k] == before[k] && order@[k + 1] == before[k + 1]);
                } else if k + 1 == p {
                    assert(order@[k] == before[k]);
                } else if k == p {
                    assert(order@[k + 1] == before[k]);
                } else {
                    assert(order@[k] == before[k - 1] && order@[k + 1] == before[k]);
                }
            }
        }
        i += 1;
    }
    order
}

/// One page of the versions of a crate: the versions that pass the
/// filters, the highest first, cut to the page asked for. `total` counts
/// all that pass.
pub fn list_versions(lines: &Vec<IndexLine>, params: &CrateVersionsListParams) -> (page:
    VersionsPage)
    ensures
        page.total == listed_order(lines@, *params, lines@.len() as int).len(),
        page.page == params.page_spec(),
        page.per_page == params.per_page_spec(),
        page.versions@.len() == params.window_end(page.total as int) - params.window_start(
            page.total as int,
        ),
        tell_of_lines(
            page.versions@,
            lines@,
            listed_order(lines@, *params, lines@.len() as int),
            params.window_start(page.total as int),
        ),
{
    let order = order_versions(lines, params);
    let ghost ints = order@.map_values(|p: usize| p as int);
    let total = order.len();
    let (start, end) = params.window(total);
    let mut versions: Vec<VersionEntry> = Vec::new();
    let mut i: usize = start;
    while i < end
        invariant
            start <= i <= end <= total,
            total == order@.len(),
            ints == order@.map_values(|p: usize| p as int),
            forall|k: int| 0 <= k < order@.len() ==> (#[trigger] order@[k]) < lines@.len(),
            versions@.len() == i - start,
            tell_of_lines(versions@, lines@, ints, start as int),
        decreases end - i,
    {
        let line = &lines[order[i]];
        let merged = line.all_features();
        let ghost old_versions = versions@;
        let entry = VersionEntry {
            version: line.vers.clone(),
            yanked: line.yanked,
            rust_version: match &line.rust_version {
                Some(v) => Some(v.clone()),
                None => None,
            },
            features: feature_names(&merged),
            dep_count: count_normal_deps(&line.deps),
        };
        assert forall|name: Seq<char>|
            views(entry.features@).contains(name) <==> line.merged_under(name) is Some by {
            lemma_key_held(merged@, name);
        }
        versions.push(entry);
        assert forall|k: int| 0 <= k < versions@.len() implies (#[trigger] versions@[k]).tells_of(
            lines@[ints[start + k]],
        ) by {
            if k < old_versions.len() {
                assert(versions@[k] == old_versions[k]);
            }
        }
        i += 1;
    }
    VersionsPage {
        total,
        page: params.page_number(),
        per_page: params.page_size(),
        versions,
    }
}

} // verus!
