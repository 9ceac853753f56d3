use vstd::prelude::*;
use vstd::string::StringExecFns;
use crate::cratesio::{DependenciesResponse, DependencyEntry, DependentEntry, ReverseDepsResponse, matching_dependents, passing, select_dependencies, select_dependents, tell_of_dependents, tell_of_each};
use crate::lookup::{ItemError, ItemReport, describe_item, named_entry};
use crate::search::{SearchResult, found, search_items, shows};
use crate::text::{as_slice, opt_view, str_same, text_of, views};
use crate::types::RustdocJson;
use crate::urls::{crate_url, downloads_url, query_part, search_address, search_url, version_url};

verus! {

/// Whether the version has to be looked up: none is given, or an empty
/// one, or `latest`.
pub open spec fn wants_latest(version: Option<Seq<char>>) -> bool {
    match version {
        Some(v) => v.len() == 0 || v == "latest"@,
        None => true,
    }
}

/// Whether the version has to be looked up in the index.
pub fn needs_latest(version: Option<&str>) -> (r: bool)
    ensures
        r == wants_latest(opt_view(version)),
{
    match version {
        Some(v) => v.is_empty() || str_same(v, "latest"),
        None => true,
    }
}

/// What a search of the registry asks for.
#[derive(Debug, Clone)]
pub struct CrateListParams {
    pub query: Option<String>,
    pub category: Option<String>,
    pub keyword: Option<String>,
    pub sort: Option<String>,
    pub page: Option<u32>,
    pub per_page: Option<u32>,
}

impl CrateListParams {
    /// The page asked for: the first where none is given, and never
    /// below the first.
    pub open spec fn page_spec(self) -> u32 {
        match self.page {
            Some(p) => if p < 1 {
                1
            } else {
                p
            },
            None => 1,
        }
    }

    /// The page size asked for: ten where none is given, and a hundred
    /// at most.
    pub open spec fn per_page_spec(self) -> u32 {
        match self.per_page {
            Some(p) => if p > 100 {
                100
            } else {
                p
            },
            None => 10,
        }
    }

    /// The page asked for.
    pub fn page_number(&self) -> (r: u32)
        ensures
            r == self.page_spec(),
    {
        match self.page {
            Some(p) => if p < 1 {
                1
            } else {
                p
            },
            None => 1,
        }
    }

    /// The page size asked for.
    pub fn page_size(&self) -> (r: u32)
        ensures
            r == self.per_page_spec(),
    {
        match self.per_page {
            Some(p) => if p > 100 {
                100
            } else {
                p
            },
            None => 10,
        }
    }

    /// The address of the search.
    pub fn url(&self) -> (r: String)
        ensures
            r@ == search_address(
                match self.query {
                    Some(q) => q@,
                    None => ""@,
                },
                text_of(self.category),
                text_of(self.keyword),
                text_of(self.sort),
                self.page_spec(),
                self.per_page_spec(),
            ),
    {
        let query = match &self.query {
            Some(q) => q.as_str(),
            None => "",
        };
        search_url(
            query,
            as_slice(&self.category),
            as_slice(&self.keyword),
            as_slice(&self.sort),
            self.page_number(),
            self.page_size(),
        )
    }
}

/// Which crate to tell of.
#[derive(Debug, Clone)]
pub struct CrateGetParams {
    pub name: String,
}

impl CrateGetParams {
    /// The address of the crate on the registry.
    pub fn url(&self) -> (r: String)
        ensures
            r@ == "https://crates.io/api/v1/crates/"@ + self.name@,
    {
        crate_url(self.name.as_str())
    }
}

/// Which readme to fetch.
#[derive(Debug, Clone)]
pub struct CrateReadmeGetParams {
    pub name: String,
    pub version: Option<String>,
}

impl CrateReadmeGetParams {
    /// Whether the version has to be looked up in the index.
    pub fn needs_latest(&self) -> (r: bool)
        ensures
            r == wants_latest(text_of(self.version)),
    {
        needs_latest(as_slice(&self.version))
    }
}

/// Which crate's documentation to give an overview of.
#[derive(Debug, Clone)]
pub struct CrateDocsGetParams {
    pub name: String,
    pub version: Option<String>,
    pub include_items: Option<bool>,
}

impl CrateDocsGetParams {
    /// Whether the items of each module are listed: only where asked for.
    pub fn wants_items(&self) -> (r: bool)
        ensures
            r == (self.include_items == Some(true)),
    {
        match self.include_items {
            Some(b) => b,
            None => false,
        }
    }
}

/// What a search of a crate's items asks for.
#[derive(Debug, Clone)]
pub struct CrateItemListParams {
    pub name: String,
    pub version: Option<String>,
    pub query: String,
    pub kind: Option<String>,
    pub module_prefix: Option<String>,
    pub limit: Option<usize>,
}

impl CrateItemListParams {
    /// How many results are asked for: ten where no limit is given, and
    /// fifty at most.
    pub open spec fn limit_spec(self) -> usize {
        match self.limit {
            Some(l) => if l > 50 {
                50
            } else {
                l
            },
            None => 10,
        }
    }

    /// How many results are asked for.
    pub fn effective_limit(&self) -> (r: usize)
        ensures
            r == self.limit_spec(),
    {
        match self.limit {
            Some(l) => if l > 50 {
                50
            } else {
                l
            },
            None => 10,
        }
    }

    /// The search that these parameters ask for.
    pub fn run(&self, doc: &RustdocJson, declared_features: &Vec<String>) -> (out: Vec<
        SearchResult,
    >)
        ensures
            out@.len() == found(
                *doc,
                self.query@,
                text_of(self.kind),
                text_of(self.module_prefix),
                self.limit_spec(),
            ).len(),
            forall|k: int|
                0 <= k < out@.len() ==> shows(
                    (#[trigger] out@[k]).view(),
                    *doc,
                    found(
                        *doc,
                        self.query@,
                        text_of(self.kind),
                        text_of(self.module_prefix),
                        self.limit_spec(),
                    )[k],
                    views(declared_features@),
                ),
            out@.len() <= self.limit_spec(),
    {
        let kind = match &self.kind {
            Some(k) => Some(k.as_str()),
            None => None,
        };
        let prefix = match &self.module_prefix {
            Some(p) => Some(p.as_str()),
            None => None,
        };
        search_items(
            doc,
            self.query.as_str(),
            kind,
            prefix,
            self.effective_limit(),
            declared_features,
        )
    }
}

/// Which item to tell of, and how much.
#[derive(Debug, Clone)]
pub struct CrateItemGetParams {
    pub name: String,
    pub version: Option<String>,
    pub item_path: String,
    pub include_methods: Option<bool>,
    pub include_trait_impls: Option<String>,
}

impl CrateItemGetParams {
    /// Methods are told unless they are declined.
    pub open spec fn methods_spec(self) -> bool {
        self.include_methods != Some(false)
    }

    /// The mode for trait impls: `filtered` where none is given.
    pub open spec fn mode_spec(self) -> Seq<char> {
        match self.include_trait_impls {
            Some(m) => m@,
            None => "filtered"@,
        }
    }

    /// The report that these parameters ask for.
    pub fn run(&self, doc: &RustdocJson, declared_features: &Vec<String>) -> (r: Result<
        ItemReport,
        ItemError,
    >)
        ensures
            r is Ok <==> (named_entry(*doc, self.item_path@) is Some && doc.item_at(
                doc.paths@[named_entry(*doc, self.item_path@)->0].0@,
            ) is Some),
            r is Ok ==> r->Ok_0.tells_of(
                *doc,
                doc.item_at(doc.paths@[named_entry(*doc, self.item_path@)->0].0@)->0,
                doc.paths@[named_entry(*doc, self.item_path@)->0].1.kind@,
                self.methods_spec(),
                self.mode_spec(),
                views(declared_features@),
            ),
    {
        let include_methods = match self.include_methods {
            Some(b) => b,
            None => true,
        };
        let mode = match &self.include_trait_impls {
            Some(m) => m.as_str(),
            None => "filtered",
        };
        describe_item(doc, self.item_path.as_str(), include_methods, mode, declared_features)
    }
}

/// Which impls to list: those of a trait, or those of a type.
#[derive(Debug, Clone)]
pub struct CrateImplsListParams {
    pub name: String,
    pub version: Option<String>,
    pub trait_path: Option<String>,
    pub type_path: Option<String>,
    pub search: Option<String>,
    pub limit: Option<usize>,
}

impl CrateImplsListParams {
    /// Whether the parameters name what to list: a trait or a type.
    pub fn is_valid(&self) -> (r: bool)
        ensures
            r == (self.trait_path is Some || self.type_path is Some),
    {
        self.trait_path.is_some() || self.type_path.is_some()
    }

    /// How many results are asked for: fifty where no limit is given, and
    /// two hundred at most.
    pub fn effective_limit(&self) -> (r: usize)
        ensures
            r == (match self.limit {
                Some(l) => if l > 200 {
                    200usize
                } else {
                    l
                },
                None => 50usize,
            }),
    {
        match self.limit {
            Some(l) => if l > 200 {
                200
            } else {
                l
            },
            None => 50,
        }
    }
}

/// Which versions of a crate to list.
#[derive(Debug, Clone)]
pub struct CrateVersionsListParams {
    pub name: String,
    pub include_yanked: Option<bool>,
    pub include_prerelease: Option<bool>,
    pub search: Option<String>,
    pub per_page: Option<usize>,
    pub page: Option<usize>,
}

impl CrateVersionsListParams {
    /// The page size: thirty where none is given, between one and a hundred.
    pub open spec fn per_page_spec(self) -> usize {
        match self.per_page {
            Some(p) => if p > 100 {
                100
            } else if p < 1 {
                1
            } else {
                p
            },
            None => 30,
        }
    }

    /// The page: the first where none is given, and never below the first.
    pub open spec fn page_spec(self) -> usize {
        match self.page {
            Some(p) => if p < 1 {
                1
            } else {
                p
            },
            None => 1,
        }
    }

    /// The page size asked for.
    pub fn page_size(&self) -> (r: usize)
        ensures
            r == self.per_page_spec(),
    {
        match self.per_page {
            Some(p) => if p > 100 {
                100
            } else if p < 1 {
                1
            } else {
                p
            },
            None => 30,
        }
    }

    /// The page asked for.
    pub fn page_number(&self) -> (r: usize)
        ensures
            r == self.page_spec(),
    {
        match self.page {
            Some(p) => if p < 1 {
                1
            } else {
                p
            },
            None => 1,
        }
    }

    /// Where the page begins in a list of `total` versions: at
    /// `(page - 1) * per_page`, or at the end where the list is shorter.
    pub open spec fn window_start(self, total: int) -> int {
        if (self.page_spec() - 1) * self.per_page_spec() < total {
            (self.page_spec() - 1) * self.per_page_spec()
        } else {
            total
        }
    }

    /// Where the page ends in a list of `total` versions: `per_page`
    /// after its beginning, or at the end where the list is shorter.
    pub open spec fn window_end(self, total: int) -> int {
        if self.window_start(total) + self.per_page_spec() < total {
            self.window_start(total) + self.per_page_spec()
        } else {
            total
        }
    }

    /// The part of a list of `total` versions that the page shows.
    pub fn window(&self, total: usize) -> (r: (usize, usize))
        ensures
            r.0 <= r.1 <= total,
            r.0 == self.window_start(total as int),
            r.1 == self.window_end(total as int),
    {
        let per_page = self.page_size();
        let page = self.page_number();
        let start = match (page - 1).checked_mul(per_page) {
            Some(s) => if s < total {
                s
            } else {
                total
            },
            None => total,
        };
        let end = if per_page < total - start {
            start + per_page
        } else {
            total
        };
        (start, end)
    }
}

/// Which version of a crate to tell of.
#[derive(Debug, Clone)]
pub struct CrateVersionGetParams {
    pub name: String,
    pub version: String,
}

impl CrateVersionGetParams {
    /// The address of the version on the registry.
    pub fn url(&self) -> (r: String)
        ensures
            r@ == "https://crates.io/api/v1/crates/"@ + self.name@ + "/"@ + self.version@,
    {
        proof {
            reveal_strlit("");
        }
        let r = version_url(self.name.as_str(), self.version.as_str(), "");
        assert(r@ =~= "https://crates.io/api/v1/crates/"@ + self.name@ + "/"@ + self.version@);
        r
    }
}

/// Which dependencies of a crate to list.
#[derive(Debug, Clone)]
pub struct CrateDependenciesListParams {
    pub name: String,
    pub version: Option<String>,
    pub kind: Option<String>,
    pub search: Option<String>,
}

impl CrateDependenciesListParams {
    /// The dependencies that these parameters ask for.
    pub fn select(&self, resp: &DependenciesResponse) -> (out: Vec<DependencyEntry>)
        ensures
            tell_of_each(
                out@,
                passing(
                    resp.dependencies@,
                    text_of(self.kind),
                    text_of(self.search),
                    resp.dependencies@.len() as int,
                ),
            ),
    {
        select_dependencies(resp, as_slice(&self.kind), as_slice(&self.search))
    }
}

/// Which page of the crates that depend on a crate to list.
#[derive(Debug, Clone)]
pub struct CrateDependentsListParams {
    pub name: String,
    pub page: Option<u32>,
    pub per_page: Option<u32>,
    pub search: Option<String>,
}

impl CrateDependentsListParams {
    /// The page asked for: the first where none is given, and never
    /// below the first.
    pub open spec fn page_spec(self) -> u32 {
        match self.page {
            Some(p) => if p < 1 {
                1
            } else {
                p
            },
            None => 1,
        }
    }

    /// The page size asked for: twenty where none is given, and a
    /// hundred at most.
    pub open spec fn per_page_spec(self) -> u32 {
        match self.per_page {
            Some(p) => if p > 100 {
                100
            } else {
                p
            },
            None => 20,
        }
    }

    /// The page asked for.
    pub fn page_number(&self) -> (r: u32)
        ensures
            r == self.page_spec(),
    {
        match self.page {
            Some(p) => if p < 1 {
                1
            } else {
                p
            },
            None => 1,
        }
    }

    /// The page size asked for.
    pub fn page_size(&self) -> (r: u32)
        ensures
            r == self.per_page_spec(),
    {
        match self.per_page {
            Some(p) => if p > 100 {
                100
            } else {
                p
            },
            None => 20,
        }
    }

    /// The dependents that these parameters ask for.
    pub fn select(&self, resp: &ReverseDepsResponse) -> (out: Vec<DependentEntry>)
        ensures
            tell_of_dependents(
                out@,
                *resp,
                matching_dependents(*resp, text_of(self.search), resp.dependencies@.len() as int),
            ),
    {
        select_dependents(resp, as_slice(&self.search))
    }
}

/// Which download counts to fetch: the ninety days that end on
/// `before_date`, or today.
#[derive(Debug, Clone)]
pub struct CrateDownloadsGetParams {
    pub name: String,
    pub before_date: Option<String>,
}

impl CrateDownloadsGetParams {
    /// The address of the download counts.
    pub fn url(&self) -> (r: String)
        ensures
            r@ == "https://crates.io/api/v1/crates/"@ + self.name@ + "/downloads"@ + query_part(
                "?before_date="@,
                text_of(self.before_date),
            ),
    {
        downloads_url(self.name.as_str(), as_slice(&self.before_date))
    }
}

} // verus!
