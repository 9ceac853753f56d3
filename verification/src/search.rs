use vstd::prelude::*;
use vstd::string::StringExecFns;
use crate::features::{compiles, extract_feature_requirements, feature_pattern, found_in, is_selection};
use crate::methods::{build_method_parent_map, method_owner, text_under};
use crate::signature::{function_signature, signature_text};
use crate::table::{find_entry, lemma_position, position};
use crate::text::{begins_with, contains, has_sub, lower, lowercase, opt_view, starts_with, str_same, views};
use crate::types::{RustdocJson, attr_texts};

verus! {

/// The score of a name that equals the query, in tenths.
pub const SCORE_EXACT: u8 = 10;

/// The score of a name that begins with the query.
pub const SCORE_PREFIX: u8 = 9;

/// The score of a name that holds the query.
pub const SCORE_CONTAINS: u8 = 7;

/// The score of a method whose owner's path holds the query.
pub const SCORE_OWNER: u8 = 6;

/// The score of a method whose summary holds the query.
pub const SCORE_METHOD_DOCS: u8 = 4;

/// The score of a named item whose summary holds the query.
pub const SCORE_DOCS: u8 = 2;

/// One search result. `score` is the relevance in tenths: 10 for a name
/// that equals the query down to 2 for a summary that holds it.
#[derive(Debug)]
pub struct SearchResult {
    pub path: String,
    pub kind: String,
    pub signature: String,
    pub doc_summary: String,
    pub feature_requirements: Vec<String>,
    pub score: u8,
}

/// What a `SearchResult` holds.
pub struct ResultView {
    pub path: Seq<char>,
    pub kind: Seq<char>,
    pub signature: Seq<char>,
    pub doc_summary: Seq<char>,
    pub feature_requirements: Seq<Seq<char>>,
    pub score: u8,
}

impl SearchResult {
    /// What the value holds.
    pub open spec fn view(self) -> ResultView {
        ResultView {
            path: self.path@,
            kind: self.kind@,
            signature: self.signature@,
            doc_summary: self.doc_summary@,
            feature_requirements: views(self.feature_requirements@),
            score: self.score,
        }
    }
}

/// A candidate: the item at position `at` of the index, found as a named
/// item or as a method, with its score.
#[derive(Debug, Clone, Copy, PartialEq, Eq, Structural)]
pub struct Hit {
    pub score: u8,
    pub method: bool,
    pub at: usize,
}

/// A kind filter with its short forms written out.
pub open spec fn normal_kind(kind: Seq<char>) -> Seq<char> {
    if kind == "fn"@ {
        "function"@
    } else if kind == "mod"@ {
        "module"@
    } else if kind == "type"@ {
        "type_alias"@
    } else {
        kind
    }
}

/// The score that a name earns: 10 where it equals the query, 9 where it
/// begins with it, 7 where it holds it. Both in lower case.
pub open spec fn name_score(name: Seq<char>, query: Seq<char>) -> Option<u8> {
    if name == query {
        Some(SCORE_EXACT)
    } else if begins_with(name, query) {
        Some(SCORE_PREFIX)
    } else if has_sub(name, query) {
        Some(SCORE_CONTAINS)
    } else {
        None
    }
}

/// The score of a named item: that of its name, else 2 where its summary
/// holds the query, else none.
pub open spec fn named_score(name: Seq<char>, query: Seq<char>, docs: Seq<char>) -> Option<u8> {
    match name_score(name, query) {
        Some(s) => Some(s),
        None => if has_sub(docs, query) {
            Some(SCORE_DOCS)
        } else {
            None
        },
    }
}

/// The score of a method: that of its name, else 6 where its owner's
/// path holds the query, else 4 where its summary does, else none.
pub open spec fn method_score(
    name: Seq<char>,
    query: Seq<char>,
    owner: Seq<char>,
    docs: Seq<char>,
) -> Option<u8> {
    match name_score(name, query) {
        Some(s) => Some(s),
        None => if has_sub(owner, query) {
            Some(SCORE_OWNER)
        } else if has_sub(docs, query) {
            Some(SCORE_METHOD_DOCS)
        } else {
            None
        },
    }
}

/// An item whose name equals the query scores 10, and no other score is
/// as high: one whose name only holds the query scores less.
pub proof fn lemma_exact_scores_highest(
    name: Seq<char>,
    query: Seq<char>,
    owner: Seq<char>,
    docs: Seq<char>,
)
    ensures
        named_score(query, query, docs) == Some(SCORE_EXACT),
        method_score(query, query, owner, docs) == Some(SCORE_EXACT),
        named_score(name, query, docs) is Some ==> named_score(name, query, docs)->0 <= SCORE_EXACT,
        method_score(name, query, owner, docs) is Some ==> method_score(name, query, owner, docs)->0
            <= SCORE_EXACT,
        name != query && named_score(name, query, docs) is Some ==> named_score(name, query, docs)->0
            < SCORE_EXACT,
        name != query && method_score(name, query, owner, docs) is Some ==> method_score(
            name,
            query,
            owner,
            docs,
        )->0 < SCORE_EXACT,
{
}

/// The score of a name against the query, both in lower case.
fn score_name(name_lower: &str, query_lower: &str) -> (r: Option<u8>)
    ensures
        r == name_score(name_lower@, query_lower@),
{
    if str_same(name_lower, query_lower) {
        Some(SCORE_EXACT)
    } else if starts_with(name_lower, query_lower) {
        Some(SCORE_PREFIX)
    } else if contains(name_lower, query_lower) {
        Some(SCORE_CONTAINS)
    } else {
        None
    }
}

/// The score of a named item, from its name, the query and its summary,
/// all in lower case.
pub fn score_named(name_lower: &str, query_lower: &str, doc_lower: &str) -> (r: Option<u8>)
    ensures
        r == named_score(name_lower@, query_lower@, doc_lower@),
{
    match score_name(name_lower, query_lower) {
        Some(s) => Some(s),
        None => if contains(doc_lower, query_lower) {
            Some(SCORE_DOCS)
        } else {
            None
        },
    }
}

/// The score of a method, from its name, the query, its owner's path and
/// its summary, all in lower case.
pub fn score_method(name_lower: &str, query_lower: &str, owner_lower: &str, doc_lower: &str) -> (r:
    Option<u8>)
    ensures
        r == method_score(name_lower@, query_lower@, owner_lower@, doc_lower@),
{
    match score_name(name_lower, query_lower) {
        Some(s) => Some(s),
        None => if contains(owner_lower, query_lower) {
            Some(SCORE_OWNER)
        } else if contains(doc_lower, query_lower) {
            Some(SCORE_METHOD_DOCS)
        } else {
            None
        },
    }
}

/// The hits with score `level`, in their order.
pub open spec fn with_score(hits: Seq<Hit>, level: int) -> Seq<Hit>
    decreases hits.len(),
{
    if hits.len() == 0 {
        Seq::empty()
    } else if hits.last().score == level {
        with_score(hits.drop_last(), level).push(hits.last())
    } else {
        with_score(hits.drop_last(), level)
    }
}

/// The hits with score `level` or more: the higher score first, hits of
/// one score in their order.
pub open spec fn at_least(hits: Seq<Hit>, level: int) -> Seq<Hit>
    decreases 256 - level,
{
    if level > 255 {
        Seq::empty()
    } else {
        at_least(hits, level + 1) + with_score(hits, level)
    }
}

/// The hits by descending score, hits of one score in their order.
pub open spec fn ranked(hits: Seq<Hit>) -> Seq<Hit> {
    at_least(hits, 0)
}

/// The first `limit` of the hits, or all where there are fewer.
pub open spec fn top(hits: Seq<Hit>, limit: int) -> Seq<Hit> {
    if 0 <= limit < hits.len() {
        hits.take(limit)
    } else {
        hits
    }
}

/// The hits picked for a level have that score and come from the list.
pub proof fn lemma_with_score(hits: Seq<Hit>, level: int)
    ensures
        forall|k: int|
            0 <= k < with_score(hits, level).len() ==> (#[trigger] with_score(hits, level)[k]).score
                == level && hits.contains(with_score(hits, level)[k]),
    decreases hits.len(),
{
    if hits.len() > 0 {
        lemma_with_score(hits.drop_last(), level);
        let shorter = with_score(hits.drop_last(), level);
        let now = with_score(hits, level);
        assert forall|k: int| 0 <= k < now.len() implies (#[trigger] now[k]).score == level
            && hits.contains(now[k]) by {
            if k < shorter.len() {
                let w = choose|w: int|
                    0 <= w < hits.drop_last().len() && hits.drop_last()[w] == shorter[k];
            } else {
                assert(now[k] == hits.last());
                assert(hits[hits.len() - 1] == now[k]);
            }
        }
    }
}

/// Ranking orders by score, highest first, and brings no hit that was
/// not there: a hit is never ranked below one with a lower score.
pub proof fn lemma_ranked_descending(hits: Seq<Hit>, level: int)
    requires
        0 <= level,
    ensures
        forall|k: int|
            0 <= k < at_least(hits, level).len() ==> (#[trigger] at_least(hits, level)[k]).score
                >= level && hits.contains(at_least(hits, level)[k]),
        forall|i: int, j: int|
            0 <= i < j < at_least(hits, level).len() ==> (#[trigger] at_least(hits, level)[i]).score
                >= (#[trigger] at_least(hits, level)[j]).score,
    decreases 256 - level,
{
    if level <= 255 {
        lemma_ranked_descending(hits, level + 1);
        lemma_with_score(hits, level);
        let high = at_least(hits, level + 1);
        let here = with_score(hits, level);
        let all = at_least(hits, level);
        assert forall|k: int| 0 <= k < all.len() implies (#[trigger] all[k]).score >= level
            && hits.contains(all[k]) by {
            if k < high.len() {
                assert(all[k] == high[k]);
            } else {
                assert(all[k] == here[k - high.len()]);
            }
        }
        assert forall|i: int, j: int| 0 <= i < j < all.len() implies (#[trigger] all[i]).score >= (
        #[trigger] all[j]).score by {
            if j < high.len() {
                assert(all[i] == high[i] && all[j] == high[j]);
            } else if i < high.len() {
                assert(all[i] == high[i] && all[j] == here[j - high.len()]);
            } else {
                assert(all[i] == here[i - high.len()] && all[j] == here[j - high.len()]);
            }
        }
    }
}

/// The hits with score `level` or more are one more with a last hit of
/// such a score, and as many without.
pub proof fn lemma_at_least_counts(hits: Seq<Hit>, level: int)
    requires
        0 <= level <= 256,
    ensures
        hits.len() == 0 ==> at_least(hits, level).len() == 0,
        hits.len() > 0 ==> at_least(hits, level).len() == at_least(hits.drop_last(), level).len() + (
        if hits.last().score >= level {
            1int
        } else {
            0int
        }),
    decreases 256 - level,
{
    if level <= 255 {
        lemma_at_least_counts(hits, level + 1);
        if hits.len() > 0 {
            lemma_at_least_counts(hits.drop_last(), level + 1);
        }
    }
}

/// Ranking loses no hit and adds none: as many hits come out as went in.
pub proof fn lemma_ranked_keeps_all(hits: Seq<Hit>)
    ensures
        ranked(hits).len() == hits.len(),
    decreases hits.len(),
{
    lemma_at_least_counts(hits, 0);
    if hits.len() > 0 {
        lemma_ranked_keeps_all(hits.drop_last());
    }
}

/// The hits by descending score, hits of one score in their order, cut
/// to the first `limit`.
pub fn rank_hits(hits: &Vec<Hit>, limit: usize) -> (out: Vec<Hit>)
    ensures
        out@ == top(ranked(hits@), limit as int),
        out@.len() == (if limit < hits@.len() {
            limit as int
        } else {
            hits@.len() as int
        }),
        forall|k: int| 0 <= k < out@.len() ==> hits@.contains(#[trigger] out@[k]),
        forall|i: int, j: int|
            0 <= i < j < out@.len() ==> (#[trigger] out@[i]).score >= (#[trigger] out@[j]).score,
{
    let mut out: Vec<Hit> = Vec::new();
    let mut next: usize = 256;
    assert(at_least(hits@, 256) =~= Seq::<Hit>::empty());
    while next > 0
        invariant
            next <= 256,
            out@ == at_least(hits@, next as int),
        decreases next,
    {
        let level: usize = next - 1;
        let ghost high = out@;
        let mut i: usize = 0;
        assert(with_score(hits@.take(0), level as int) =~= Seq::<Hit>::empty());
        while i < hits.len()
            invariant
                i <= hits.len(),
                level < 256,
                out@ == high + with_score(hits@.take(i as int), level as int),
            decreases hits.len() - i,
        {
            assert(hits@.take(i + 1).drop_last() =~= hits@.take(i as int));
            if hits[i].score as usize == level {
                out.push(hits[i]);
            }
            i += 1;
        }
        assert(hits@.take(hits.len() as int) =~= hits@);
        next = level;
    }
    proof {
        lemma_ranked_descending(hits@, 0);
        lemma_ranked_keeps_all(hits@);
    }
    if limit < out.len() {
        out.truncate(limit);
    }
    out
}

/// The score with which the item at position `at` of the index is found
/// as a named item: it stands in the path table, passes the kind and
/// prefix filters, has a name, and its name or summary matches.
pub open spec fn named_hit(
    doc: RustdocJson,
    query: Seq<char>,
    kind: Option<Seq<char>>,
    prefix: Option<Seq<char>>,
    at: int,
) -> Option<u8> {
    let item = doc.index@[at].1;
    match doc.path_at(doc.index@[at].0@) {
        None => None,
        Some(p) => if kind is Some && p.kind@ != normal_kind(kind->0) {
            None
        } else if prefix is Some && !begins_with(p.full_name(), prefix->0) {
            None
        } else if item.name_text().len() == 0 {
            None
        } else {
            named_score(lowercase(item.name_text()), query, lowercase(item.summary()))
        },
    }
}

/// The score with which the item at position `at` of the index is found
/// as a method: a function outside the path table with a name and an
/// owner whose path passes the prefix filter, and its name, its owner's
/// path or its summary matches.
pub open spec fn method_hit(doc: RustdocJson, query: Seq<char>, prefix: Option<Seq<char>>, at: int) -> Option<
    u8,
> {
    let item = doc.index@[at].1;
    let id = doc.index@[at].0@;
    if doc.path_at(id) is Some || item.kind_text() != Some("function"@) {
        None
    } else {
        match method_owner(doc, id) {
            None => None,
            Some(owner) => if item.name_text().len() == 0 {
                None
            } else if prefix is Some && !begins_with(owner, prefix->0) {
                None
            } else {
                method_score(
                    lowercase(item.name_text()),
                    query,
                    lowercase(owner),
                    lowercase(item.summary()),
                )
            },
        }
    }
}

/// The named items found among the first `upto` of the index, in order.
pub open spec fn named_hits(
    doc: RustdocJson,
    query: Seq<char>,
    kind: Option<Seq<char>>,
    prefix: Option<Seq<char>>,
    upto: int,
) -> Seq<Hit>
    decreases upto,
{
    if upto <= 0 {
        Seq::empty()
    } else {
        let before = named_hits(doc, query, kind, prefix, upto - 1);
        match named_hit(doc, query, kind, prefix, upto - 1) {
            Some(s) => before.push(Hit { score: s, method: false, at: (upto - 1) as usize }),
            None => before,
        }
    }
}

/// The methods found among the first `upto` of the index, in order.
pub open spec fn method_hits(doc: RustdocJson, query: Seq<char>, prefix: Option<Seq<char>>, upto: int) -> Seq<
    Hit,
>
    decreases upto,
{
    if upto <= 0 {
        Seq::empty()
    } else {
        let before = method_hits(doc, query, prefix, upto - 1);
        match method_hit(doc, query, prefix, upto - 1) {
            Some(s) => before.push(Hit { score: s, method: true, at: (upto - 1) as usize }),
            None => before,
        }
    }
}

/// Methods are searched where no kind is asked for, or the kind `method`.
pub open spec fn wants_methods(kind: Option<Seq<char>>) -> bool {
    kind is None || kind == Some("method"@)
}

/// Every candidate of a search: the named items, then the methods.
pub open spec fn all_hits(
    doc: RustdocJson,
    query: Seq<char>,
    kind: Option<Seq<char>>,
    prefix: Option<Seq<char>>,
) -> Seq<Hit> {
    named_hits(doc, query, kind, prefix, doc.index@.len() as int) + (if wants_methods(kind) {
        method_hits(doc, query, prefix, doc.index@.len() as int)
    } else {
        Seq::empty()
    })
}

/// A hit names an item of the index that can be shown: a named item has
/// its path entry, a method its owner.
pub open spec fn showable(doc: RustdocJson, hit: Hit) -> bool {
    &&& hit.at < doc.index@.len()
    &&& if hit.method {
        method_owner(doc, doc.index@[hit.at as int].0@) is Some
    } else {
        doc.path_at(doc.index@[hit.at as int].0@) is Some
    }
}

/// `r` is the result that shows `hit`: path, kind, signature, summary and
/// score of the item, and the feature flags that gate it.
pub open spec fn shows(r: ResultView, doc: RustdocJson, hit: Hit, declared: Seq<Seq<char>>) -> bool {
    let item = doc.index@[hit.at as int].1;
    let id = doc.index@[hit.at as int].0@;
    &&& r.score == hit.score
    &&& r.doc_summary == item.summary()
    &&& compiles(feature_pattern()) ==> is_selection(
        r.feature_requirements,
        found_in(attr_texts(item.attrs@)),
        declared,
    )
    &&& !compiles(feature_pattern()) ==> r.feature_requirements.len() == 0
    &&& if hit.method {
        &&& r.path == method_owner(doc, id)->0 + "::"@ + item.name_text()
        &&& r.kind == "method"@
        &&& r.signature == signature_text(item)
    } else {
        &&& r.path == doc.path_at(id)->0.full_name()
        &&& r.kind == doc.path_at(id)->0.kind@
        &&& r.signature == (if item.kind_text() == Some("function"@) {
            signature_text(item)
        } else {
            doc.path_at(id)->0.kind@ + " "@ + item.name_text()
        })
    }
}

/// A kind filter with its short forms written out.
fn normalize_kind(kind: &str) -> (r: &str)
    ensures
        r@ == normal_kind(kind@),
{
    if str_same(kind, "fn") {
        "function"
    } else if str_same(kind, "mod") {
        "module"
    } else if str_same(kind, "type") {
        "type_alias"
    } else {
        kind
    }
}

/// The score of the item at `at` as a named item.
fn find_named(
    doc: &RustdocJson,
    query_lower: &str,
    kind_filter: Option<&str>,
    module_prefix: Option<&str>,
    at: usize,
) -> (r: Option<u8>)
    requires
        at < doc.index@.len(),
    ensures
        r == named_hit(*doc, query_lower@, opt_view(kind_filter), opt_view(module_prefix), at as int),
{
    let item = &doc.index[at].1;
    let entry = match doc.path_entry(doc.index[at].0.as_str()) {
        Some(p) => p,
        None => {
            return None;
        },
    };
    if let Some(kind) = kind_filter {
        if !str_same(entry.kind_name(), normalize_kind(kind)) {
            return None;
        }
    }
    if let Some(prefix) = module_prefix {
        let full = entry.full_path();
        if !starts_with(full.as_str(), prefix) {
            return None;
        }
    }
    let name = item.name_str();
    if name.is_empty() {
        return None;
    }
    let name_lower = lower(name);
    let summary = item.doc_summary();
    let doc_lower = lower(summary.as_str());
    score_named(name_lower.as_str(), query_lower, doc_lower.as_str())
}

/// The score of the item at `at` as a method.
fn find_method(
    doc: &RustdocJson,
    owners: &Vec<(String, String)>,
    query_lower: &str,
    module_prefix: Option<&str>,
    at: usize,
) -> (r: Option<u8>)
    requires
        at < doc.index@.len(),
        forall|id: Seq<char>| text_under(owners@, id) == method_owner(*doc, id),
    ensures
        r == method_hit(*doc, query_lower@, opt_view(module_prefix), at as int),
{
    let item = &doc.index[at].1;
    let id = doc.index[at].0.as_str();
    if doc.path_entry(id).is_some() {
        return None;
    }
    if !item.is_kind("function") {
        return None;
    }
    proof {
        lemma_position(owners@, id@, 0);
    }
    let owner = match find_entry(owners, id) {
        Some(o) => o,
        None => {
            return None;
        },
    };
    let name = item.name_str();
    if name.is_empty() {
        return None;
    }
    if let Some(prefix) = module_prefix {
        if !starts_with(owner.as_str(), prefix) {
            return None;
        }
    }
    let name_lower = lower(name);
    let owner_lower = lower(owner.as_str());
    let summary = item.doc_summary();
    let doc_lower = lower(summary.as_str());
    score_method(name_lower.as_str(), query_lower, owner_lower.as_str(), doc_lower.as_str())
}

/// The result that shows a hit.
fn show(
    doc: &RustdocJson,
    owners: &Vec<(String, String)>,
    hit: Hit,
    declared_features: &Vec<String>,
) -> (r: SearchResult)
    requires
        showable(*doc, hit),
        forall|id: Seq<char>| text_under(owners@, id) == method_owner(*doc, id),
    ensures
        shows(r.view(), *doc, hit, views(declared_features@)),
{
    let item = &doc.index[hit.at].1;
    let id = doc.index[hit.at].0.as_str();
    let attrs = item.attr_strings();
    let feature_requirements = extract_feature_requirements(&attrs, declared_features);
    let doc_summary = item.doc_summary();
    if hit.method {
        proof {
            lemma_position(owners@, id@, 0);
        }
        let mut path = match find_entry(owners, id) {
            Some(o) => o.clone(),
            None => String::new(),
        };
        path.append("::");
        path.append(item.name_str());
        SearchResult {
            path,
            kind: String::from_str("method"),
            signature: function_signature(item),
            doc_summary,
            feature_requirements,
            score: hit.score,
        }
    } else {
        match doc.path_entry(id) {
            Some(entry) => {
                let signature = if item.is_kind("function") {
                    function_signature(item)
                } else {
                    let mut s = String::from_str(entry.kind_name());
                    s.append(" ");
                    s.append(item.name_str());
                    s
                };
                SearchResult {
                    path: entry.full_path(),
                    kind: String::from_str(entry.kind_name()),
                    signature,
                    doc_summary,
                    feature_requirements,
                    score: hit.score,
                }
            },
            None => SearchResult {
                path: String::new(),
                kind: String::new(),
                signature: String::new(),
                doc_summary,
                feature_requirements,
                score: hit.score,
            },
        }
    }
}

/// Every candidate of a search.
fn collect_hits(
    doc: &RustdocJson,
    owners: &Vec<(String, String)>,
    query_lower: &str,
    kind_filter: Option<&str>,
    module_prefix: Option<&str>,
) -> (hits: Vec<Hit>)
    requires
        forall|id: Seq<char>| text_under(owners@, id) == method_owner(*doc, id),
    ensures
        hits@ == all_hits(*doc, query_lower@, opt_view(kind_filter), opt_view(module_prefix)),
        forall|k: int| 0 <= k < hits@.len() ==> showable(*doc, #[trigger] hits@[k]),
{
    let mut hits: Vec<Hit> = Vec::new();
    let n = doc.index.len();
    let mut i: usize = 0;
    while i < n
        invariant
            i <= n,
            n == doc.index@.len(),
            hits@ == named_hits(
                *doc,
                query_lower@,
                opt_view(kind_filter),
                opt_view(module_prefix),
                i as int,
            ),
            forall|k: int| 0 <= k < hits@.len() ==> showable(*doc, #[trigger] hits@[k]),
        decreases n - i,
    {
        match find_named(doc, query_lower, kind_filter, module_prefix, i) {
            Some(score) => {
                hits.push(Hit { score, method: false, at: i });
            },
            None => {},
        }
        i += 1;
    }
    let wants = match kind_filter {
        Some(k) => str_same(k, "method"),
        None => true,
    };
    let ghost named = hits@;
    if wants {
        let mut j: usize = 0;
        while j < n
            invariant
                j <= n,
                n == doc.index@.len(),
                forall|id: Seq<char>| text_under(owners@, id) == method_owner(*doc, id),
                hits@ == named + method_hits(*doc, query_lower@, opt_view(module_prefix), j as int),
                forall|k: int| 0 <= k < hits@.len() ==> showable(*doc, #[trigger] hits@[k]),
            decreases n - j,
        {
            match find_method(doc, owners, query_lower, module_prefix, j) {
                Some(score) => {
                    hits.push(Hit { score, method: true, at: j });
                    assert(hits@ =~= named + method_hits(
                        *doc,
                        query_lower@,
                        opt_view(module_prefix),
                        j + 1,
                    ));
                },
                None => {},
            }
            j += 1;
        }
    } else {
        assert(hits@ =~= named + Seq::<Hit>::empty());
    }
    hits
}

/// Searches the items of a document by name or concept.
///
/// Named items are found through the path table, methods through the
/// inherent impl that lists them (only where no kind is asked for, or the
/// kind `method`). The candidates are ranked by descending score, those of
/// one score in the order of the index, and only then cut to `limit`.
/// Matching ignores case: the query is compared in lower case.
pub fn search_items(
    doc: &RustdocJson,
    query: &str,
    kind_filter: Option<&str>,
    module_prefix: Option<&str>,
    limit: usize,
    declared_features: &Vec<String>,
) -> (out: Vec<SearchResult>)
    ensures
        out@.len() == found(*doc, query@, opt_view(kind_filter), opt_view(module_prefix), limit).len(),
        forall|k: int|
            0 <= k < out@.len() ==> shows(
                (#[trigger] out@[k]).view(),
                *doc,
                found(*doc, query@, opt_view(kind_filter), opt_view(module_prefix), limit)[k],
                views(declared_features@),
            ),
        out@.len() <= limit,
        forall|i: int, j: int|
            0 <= i < j < out@.len() ==> (#[trigger] out@[i]).score >= (#[trigger] out@[j]).score,
{
    let query_lower = lower(query);
    let owners = build_method_parent_map(doc);
    let hits = collect_hits(doc, &owners, query_lower.as_str(), kind_filter, module_prefix);
    let best = rank_hits(&hits, limit);
    let mut out: Vec<SearchResult> = Vec::new();
    let mut i: usize = 0;
    while i < best.len()
        invariant
            i <= best.len(),
            out@.len() == i,
            forall|id: Seq<char>| text_under(owners@, id) == method_owner(*doc, id),
            forall|k: int| 0 <= k < hits@.len() ==> showable(*doc, #[trigger] hits@[k]),
            forall|k: int| 0 <= k < best@.len() ==> hits@.contains(#[trigger] best@[k]),
            forall|k: int|
                0 <= k < i ==> shows(
                    (#[trigger] out@[k]).view(),
                    *doc,
                    best@[k],
                    views(declared_features@),
                ),
        decreases best.len() - i,
    {
        let r = show(doc, &owners, best[i], declared_features);
        out.push(r);
        i += 1;
    }
    out
}

/// The hits that a search shows: all candidates, ranked, cut to `limit`.
pub open spec fn found(
    doc: RustdocJson,
    query: Seq<char>,
    kind: Option<Seq<char>>,
    prefix: Option<Seq<char>>,
    limit: usize,
) -> Seq<Hit> {
    top(ranked(all_hits(doc, lowercase(query), kind, prefix)), limit as int)
}

} // verus!
