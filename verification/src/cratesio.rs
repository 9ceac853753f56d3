use vstd::prelude::*;
use vstd::string::StringExecFns;
use crate::sparse_index::copy_strings;
use crate::text::{contains, has_sub, lower, lowercase, opt_view, str_same, text_of, views};

verus! {

/// Who published a version.
#[derive(Debug, Clone)]
pub struct Publisher {
    pub id: u64,
    pub login: String,
    pub name: Option<String>,
    pub avatar: Option<String>,
}

/// A keyword of the registry.
#[derive(Debug, Clone)]
pub struct Keyword {
    pub id: String,
    pub keyword: String,
    pub crates_cnt: u64,
}

/// A category of the registry.
#[derive(Debug, Clone)]
pub struct Category {
    pub id: String,
    pub category: String,
    pub crates_cnt: u64,
    pub description: Option<String>,
}

/// How many crates a search found in all.
#[derive(Debug, Clone)]
pub struct SearchMeta {
    pub total: u64,
}

/// The dependencies of one version of a crate.
#[derive(Debug, Clone)]
pub struct DependenciesResponse {
    pub dependencies: Vec<Dependency>,
}

/// One dependency as the registry tells it.
#[derive(Debug, Clone)]
pub struct Dependency {
    pub id: Option<u64>,
    pub version_id: Option<u64>,
    pub crate_id: String,
    pub req: String,
    pub optional: bool,
    pub default_features: bool,
    pub features: Vec<String>,
    pub target: Option<String>,
    pub kind: Option<String>,
    pub downloads: Option<u64>,
}

/// One page of the crates that depend on a crate.
#[derive(Debug, Clone)]
pub struct ReverseDepsResponse {
    pub dependencies: Vec<ReverseDep>,
    pub versions: Vec<ReverseDepVersion>,
    pub meta: ReverseDepsMetaSerde,
}

/// One dependency on the crate, by the version that has it.
#[derive(Debug, Clone)]
pub struct ReverseDep {
    pub id: u64,
    pub version_id: u64,
    pub crate_id: String,
    pub req: String,
    pub optional: bool,
    pub default_features: bool,
    pub features: Vec<String>,
    pub kind: Option<String>,
    pub downloads: Option<u64>,
}

/// A version that depends on the crate, with the crate it belongs to.
#[derive(Debug, Clone)]
pub struct ReverseDepVersion {
    pub id: u64,
    pub num: String,
    pub crate_name: String,
    pub downloads: u64,
}

/// How many crates depend on the crate in all.
#[derive(Debug, Clone)]
pub struct ReverseDepsMetaSerde {
    pub total: u64,
}

/// The downloads of a crate, day by day and version by version.
#[derive(Debug, Clone)]
pub struct DownloadsResponse {
    pub version_downloads: Vec<VersionDownload>,
}

/// The downloads of one version on one day. `version` is the version's id.
#[derive(Debug, Clone)]
pub struct VersionDownload {
    pub version: u64,
    pub downloads: u64,
    pub date: String,
}

/// The version to show for a crate: its highest stable version, else its
/// highest version.
pub fn display_version<'a>(max_stable: Option<&'a str>, max: Option<&'a str>) -> (r: Option<&'a str>)
    ensures
        r == (match max_stable {
            Some(v) => Some(v),
            None => max,
        }),
{
    match max_stable {
        Some(v) => Some(v),
        None => max,
    }
}

/// The names of the keywords.
pub fn keyword_names(keywords: &Vec<Keyword>) -> (out: Vec<String>)
    ensures
        out@.len() == keywords@.len(),
        forall|k: int| 0 <= k < out@.len() ==> (#[trigger] out@[k])@ == keywords@[k].keyword@,
{
    let mut out: Vec<String> = Vec::new();
    let mut i: usize = 0;
    while i < keywords.len()
        invariant
            i <= keywords.len(),
            out@.len() == i,
            forall|k: int| 0 <= k < i ==> (#[trigger] out@[k])@ == keywords@[k].keyword@,
        decreases keywords.len() - i,
    {
        out.push(keywords[i].keyword.clone());
        i += 1;
    }
    out
}

/// The names of the categories.
pub fn category_names(categories: &Vec<Category>) -> (out: Vec<String>)
    ensures
        out@.len() == categories@.len(),
        forall|k: int| 0 <= k < out@.len() ==> (#[trigger] out@[k])@ == categories@[k].category@,
{
    let mut out: Vec<String> = Vec::new();
    let mut i: usize = 0;
    while i < categories.len()
        invariant
            i <= categories.len(),
            out@.len() == i,
            forall|k: int| 0 <= k < i ==> (#[trigger] out@[k])@ == categories@[k].category@,
        decreases categories.len() - i,
    {
        out.push(categories[i].category.clone());
        i += 1;
    }
    out
}

/// One dependency as it is told: its kind written out.
#[derive(Debug, Clone)]
pub struct DependencyEntry {
    pub crate_id: String,
    pub req: String,
    pub kind: String,
    pub optional: bool,
    pub default_features: bool,
    pub features: Vec<String>,
    pub target: Option<String>,
}

impl Dependency {
    /// The kind of the dependency, `normal` where none is given.
    pub open spec fn kind_text(self) -> Seq<char> {
        match self.kind {
            Some(k) => k@,
            None => "normal"@,
        }
    }

    /// The dependency passes the filters: it is of the kind asked for,
    /// and its crate's name holds the search text, case aside.
    pub open spec fn passes(self, kind: Option<Seq<char>>, search: Option<Seq<char>>) -> bool {
        &&& kind is Some ==> self.kind_text() == kind->0
        &&& search is Some ==> has_sub(lowercase(self.crate_id@), lowercase(search->0))
    }
}

impl DependencyEntry {
    /// This entry tells of `d`.
    pub open spec fn tells_of(self, d: Dependency) -> bool {
        &&& self.crate_id@ == d.crate_id@
        &&& self.req@ == d.req@
        &&& self.kind@ == d.kind_text()
        &&& self.optional == d.optional
        &&& self.default_features == d.default_features
        &&& views(self.features@) == views(d.features@)
        &&& text_of(self.target) == text_of(d.target)
    }
}

/// Those of the first `upto` dependencies that pass the filters, in order.
pub open spec fn passing(
    deps: Seq<Dependency>,
    kind: Option<Seq<char>>,
    search: Option<Seq<char>>,
    upto: int,
) -> Seq<Dependency>
    decreases upto,
{
    if upto <= 0 || upto > deps.len() {
        Seq::empty()
    } else {
        let before = passing(deps, kind, search, upto - 1);
        if deps[upto - 1].passes(kind, search) {
            before.push(deps[upto - 1])
        } else {
            before
        }
    }
}

/// The entries tell of the dependencies, one for one.
pub open spec fn tell_of_each(out: Seq<DependencyEntry>, deps: Seq<Dependency>) -> bool {
    &&& out.len() == deps.len()
    &&& forall|k: int| 0 <= k < out.len() ==> (#[trigger] out[k]).tells_of(deps[k])
}

/// The dependencies that pass the filters, in order: those of the kind
/// asked for (a dependency without a kind is `normal`) whose crate's
/// name holds the search text, case aside.
pub fn select_dependencies(resp: &DependenciesResponse, kind: Option<&str>, search: Option<&str>) -> (out:
    Vec<DependencyEntry>)
    ensures
        tell_of_each(
            out@,
            passing(
                resp.dependencies@,
                opt_view(kind),
                opt_view(search),
                resp.dependencies@.len() as int,
            ),
        ),
{
    let search_lower = match search {
        Some(s) => Some(lower(s)),
        None => None,
    };
    let deps = &resp.dependencies;
    let mut out: Vec<DependencyEntry> = Vec::new();
    let mut i: usize = 0;
    while i < deps.len()
        invariant
            i <= deps.len(),
            deps@ == resp.dependencies@,
            match search_lower {
                Some(l) => search is Some && l@ == lowercase(search->0@),
                None => search is None,
            },
            tell_of_each(out@, passing(deps@, opt_view(kind), opt_view(search), i as int)),
        decreases deps.len() - i,
    {
        let d = &deps[i];
        let kind_ok = match kind {
            Some(k) => str_same(
                match &d.kind {
                    Some(dk) => dk.as_str(),
                    None => "normal",
                },
                k,
            ),
            None => true,
        };
        let search_ok = match &search_lower {
            Some(l) => {
                let name = lower(d.crate_id.as_str());
                contains(name.as_str(), l.as_str())
            },
            None => true,
        };
        if kind_ok && search_ok {
            out.push(
                DependencyEntry {
                    crate_id: d.crate_id.clone(),
                    req: d.req.clone(),
                    kind: match &d.kind {
                        Some(dk) => dk.clone(),
                        None => String::from_str("normal"),
                    },
                    optional: d.optional,
                    default_features: d.default_features,
                    features: copy_strings(&d.features),
                    target: match &d.target {
                        Some(t) => Some(t.clone()),
                        None => None,
                    },
                },
            );
        }
        i += 1;
    }
    out
}

/// The name of the crate that the version `id` belongs to, as the first
/// `upto` versions tell it, the last of them deciding.
pub open spec fn crate_of(versions: Seq<ReverseDepVersion>, id: u64, upto: int) -> Option<Seq<char>>
    decreases upto,
{
    if upto <= 0 || upto > versions.len() {
        None
    } else if versions[upto - 1].id == id {
        Some(versions[upto - 1].crate_name@)
    } else {
        crate_of(versions, id, upto - 1)
    }
}

/// The name of the crate that depends through version `id`; `?` where
/// the page does not tell.
pub open spec fn dependent_name(resp: ReverseDepsResponse, id: u64) -> Seq<char> {
    match crate_of(resp.versions@, id, resp.versions@.len() as int) {
        Some(n) => n,
        None => "?"@,
    }
}

/// The name of the crate that depends through version `id`.
pub fn find_dependent_name(resp: &ReverseDepsResponse, id: u64) -> (name: String)
    ensures
        name@ == dependent_name(*resp, id),
{
    let mut i: usize = resp.versions.len();
    while i > 0
        invariant
            i <= resp.versions.len(),
            crate_of(resp.versions@, id, resp.versions@.len() as int) == crate_of(
                resp.versions@,
                id,
                i as int,
            ),
        decreases i,
    {
        if resp.versions[i - 1].id == id {
            return resp.versions[i - 1].crate_name.clone();
        }
        i -= 1;
    }
    String::from_str("?")
}

/// One crate that depends on the crate, as it is told.
#[derive(Debug, Clone)]
pub struct DependentEntry {
    pub crate_id: String,
    pub dependent_crate: String,
    pub req: String,
    pub optional: bool,
    pub default_features: bool,
    pub features: Vec<String>,
    pub kind: Option<String>,
}

impl DependentEntry {
    /// This entry tells of `d`, a dependency of the page `resp`.
    pub open spec fn tells_of(self, resp: ReverseDepsResponse, d: ReverseDep) -> bool {
        &&& self.crate_id@ == d.crate_id@
        &&& self.dependent_crate@ == dependent_name(resp, d.version_id)
        &&& self.req@ == d.req@
        &&& self.optional == d.optional
        &&& self.default_features == d.default_features
        &&& views(self.features@) == views(d.features@)
        &&& text_of(self.kind) == text_of(d.kind)
    }
}

/// Those of the first `upto` dependents whose crate's name holds the
/// search text, case aside; all where nothing is searched.
pub open spec fn matching_dependents(resp: ReverseDepsResponse, search: Option<Seq<char>>, upto: int) -> Seq<
    ReverseDep,
>
    decreases upto,
{
    if upto <= 0 || upto > resp.dependencies@.len() {
        Seq::empty()
    } else {
        let before = matching_dependents(resp, search, upto - 1);
        if search is Some ==> has_sub(
            lowercase(dependent_name(resp, resp.dependencies@[upto - 1].version_id)),
            lowercase(search->0),
        ) {
            before.push(resp.dependencies@[upto - 1])
        } else {
            before
        }
    }
}

/// The entries tell of the dependents, one for one.
pub open spec fn tell_of_dependents(
    out: Seq<DependentEntry>,
    resp: ReverseDepsResponse,
    deps: Seq<ReverseDep>,
) -> bool {
    &&& out.len() == deps.len()
    &&& forall|k: int| 0 <= k < out.len() ==> (#[trigger] out[k]).tells_of(resp, deps[k])
}

/// The crates of a page that depend on the crate, in order, each with
/// its name; with a search text, those whose name holds it, case aside.
pub fn select_dependents(resp: &ReverseDepsResponse, search: Option<&str>) -> (out: Vec<
    DependentEntry,
>)
    ensures
        tell_of_dependents(
            out@,
            *resp,
            matching_dependents(*resp, opt_view(search), resp.dependencies@.len() as int),
        ),
{
    let search_lower = match search {
        Some(s) => Some(lower(s)),
        None => None,
    };
    let mut out: Vec<DependentEntry> = Vec::new();
    let mut i: usize = 0;
    while i < resp.dependencies.len()
        invariant
            i <= resp.dependencies.len(),
            match search_lower {
                Some(l) => search is Some && l@ == lowercase(search->0@),
                None => search is None,
            },
            tell_of_dependents(
                out@,
                *resp,
                matching_dependents(*resp, opt_view(search), i as int),
            ),
        decreases resp.dependencies.len() - i,
    {
        let d = &resp.dependencies[i];
        let name = find_dependent_name(resp, d.version_id);
        let keep = match &search_lower {
            Some(l) => {
                let name_lower = lower(name.as_str());
                contains(name_lower.as_str(), l.as_str())
            },
            None => true,
        };
        if keep {
            out.push(
                DependentEntry {
                    crate_id: d.crate_id.clone(),
                    dependent_crate: name,
                    req: d.req.clone(),
                    optional: d.optional,
                    default_features: d.default_features,
                    features: copy_strings(&d.features),
                    kind: match &d.kind {
                        Some(k) => Some(k.clone()),
                        None => None,
                    },
                },
            );
        }
        i += 1;
    }
    out
}

} // verus!
