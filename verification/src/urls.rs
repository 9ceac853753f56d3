use vstd::prelude::*;
use vstd::string::StringExecFns;
use crate::text::{decimal, digits, opt_view};

verus! {

/// `&key=value` where there is a value, else nothing.
pub open spec fn query_part(key: Seq<char>, value: Option<Seq<char>>) -> Seq<char> {
    match value {
        Some(v) => key + v,
        None => Seq::empty(),
    }
}

fn append_part(url: &mut String, key: &str, value: Option<&str>)
    ensures
        final(url)@ == old(url)@ + query_part(key@, opt_view(value)),
{
    match value {
        Some(v) => {
            let ghost before = url@;
            url.append(key);
            url.append(v);
            assert(url@ =~= before + (key@ + v@));
        },
        None => {
            assert(url@ + Seq::<char>::empty() =~= url@);
        },
    }
}

/// The address of a search on the registry.
pub open spec fn search_address(
    query: Seq<char>,
    category: Option<Seq<char>>,
    keyword: Option<Seq<char>>,
    sort: Option<Seq<char>>,
    page: u32,
    per_page: u32,
) -> Seq<char> {
    "https://crates.io/api/v1/crates?q="@ + query + "&page="@ + decimal(page as u64)
        + "&per_page="@ + decimal(per_page as u64) + query_part("&category="@, category)
        + query_part("&keyword="@, keyword) + query_part("&sort="@, sort)
}

/// The address of a search on the registry.
pub fn search_url(
    query: &str,
    category: Option<&str>,
    keyword: Option<&str>,
    sort: Option<&str>,
    page: u32,
    per_page: u32,
) -> (url: String)
    ensures
        url@ == search_address(
            query@,
            opt_view(category),
            opt_view(keyword),
            opt_view(sort),
            page,
            per_page,
        ),
{
    let mut url = String::from_str("https://crates.io/api/v1/crates?q=");
    url.append(query);
    url.append("&page=");
    url.append(digits(page as u64).as_str());
    url.append("&per_page=");
    url.append(digits(per_page as u64).as_str());
    append_part(&mut url, "&category=", category);
    append_part(&mut url, "&keyword=", keyword);
    append_part(&mut url, "&sort=", sort);
    url
}

/// The address of a crate on the registry.
pub fn crate_url(name: &str) -> (url: String)
    ensures
        url@ == "https://crates.io/api/v1/crates/"@ + name@,
{
    let mut url = String::from_str("https://crates.io/api/v1/crates/");
    url.append(name);
    url
}

/// The address of what the registry keeps of one version of a crate
/// under `what`: `readme`, `dependencies`, or nothing for the version itself.
pub fn version_url(name: &str, version: &str, what: &str) -> (url: String)
    ensures
        url@ == "https://crates.io/api/v1/crates/"@ + name@ + "/"@ + version@ + (if what@.len()
            == 0 {
            Seq::empty()
        } else {
            "/"@ + what@
        }),
{
    let mut url = crate_url(name);
    url.append("/");
    url.append(version);
    let ghost before = url@;
    if !what.is_empty() {
        url.append("/");
        url.append(what);
        assert(url@ =~= before + ("/"@ + what@));
    } else {
        assert(url@ =~= before + Seq::<char>::empty());
    }
    url
}

/// The address of the list of versions of a crate.
pub fn versions_url(name: &str) -> (url: String)
    ensures
        url@ == "https://crates.io/api/v1/crates/"@ + name@ + "/versions"@,
{
    let mut url = crate_url(name);
    url.append("/versions");
    url
}

/// The address of one page of the crates that depend on a crate.
pub fn reverse_dependencies_url(name: &str, page: u32, per_page: u32) -> (url: String)
    ensures
        url@ == "https://crates.io/api/v1/crates/"@ + name@ + "/reverse_dependencies?page="@
            + decimal(page as u64) + "&per_page="@ + decimal(per_page as u64),
{
    let mut url = crate_url(name);
    url.append("/reverse_dependencies?page=");
    url.append(digits(page as u64).as_str());
    url.append("&per_page=");
    url.append(digits(per_page as u64).as_str());
    url
}

/// The address of the download counts of a crate, for the ninety days
/// that end on `before_date` where one is given.
pub fn downloads_url(name: &str, before_date: Option<&str>) -> (url: String)
    ensures
        url@ == "https://crates.io/api/v1/crates/"@ + name@ + "/downloads"@ + query_part(
            "?before_date="@,
            opt_view(before_date),
        ),
{
    let mut url = crate_url(name);
    url.append("/downloads");
    append_part(&mut url, "?before_date=", before_date);
    url
}

/// The address of the documentation document of one version of a crate.
pub fn rustdoc_json_url(name: &str, version: &str) -> (url: String)
    ensures
        url@ == "https://docs.rs/crate/"@ + name@ + "/"@ + version@ + "/json"@,
{
    let mut url = String::from_str("https://docs.rs/crate/");
    url.append(name);
    url.append("/");
    url.append(version);
    url.append("/json");
    url
}

/// The address of a crate's lines in the sparse index, from its place there.
pub fn index_url(path: &str) -> (url: String)
    ensures
        url@ == "https://index.crates.io/"@ + path@,
{
    let mut url = String::from_str("https://index.crates.io/");
    url.append(path);
    url
}

/// The address of the readme of one version of a crate as a page.
pub fn readme_page_url(name: &str, version: &str) -> (url: String)
    ensures
        url@ == "https://crates.io/crates/"@ + name@ + "/"@ + version@ + "/readme"@,
{
    let mut url = String::from_str("https://crates.io/crates/");
    url.append(name);
    url.append("/");
    url.append(version);
    url.append("/readme");
    url
}

} // verus!
