use vstd::prelude::*;
use crate::text::{
    Place, ascending, before, lemma_before_transitive, place_of, str_same, to_chars, views,
};

verus! {

/// A compiled expression of the `regex` crate, carried through as it is.
#[verifier::external_type_specification]
#[verifier::external_body]
pub struct ExRegex(regex::Regex);

/// Whether `regex` accepts the pattern.
pub uninterp spec fn compiles(pattern: Seq<char>) -> bool;

/// The pattern that a compiled expression was made from.
pub uninterp spec fn pattern_of(re: regex::Regex) -> Seq<char>;

/// What the first group of the pattern holds in each match in the text:
/// the matches from left to right, none overlapping another, a match whose
/// first group took no part left out.
pub uninterp spec fn first_groups(pattern: Seq<char>, text: Seq<char>) -> Seq<Seq<char>>;

/// Compiles a pattern. Holds `regex::Regex::new`: whether it succeeds
/// depends on the pattern alone, and the expression it gives is one for
/// that pattern.
#[verifier::external_body]
fn compile(pattern: &str) -> (r: Option<regex::Regex>)
    ensures
        r is Some == compiles(pattern@),
        r is Some ==> pattern_of(r->0) == pattern@,
{
    regex::Regex::new(pattern).ok()
}

/// The first group of each match of `re` in `text`. Holds
/// `regex::Regex::captures_iter`, which walks the matches from left to
/// right, and `Captures::get(1)` on each.
#[verifier::external_body]
fn capture_groups(re: &regex::Regex, text: &str) -> (r: Vec<String>)
    ensures
        views(r@) == first_groups(pattern_of(*re), text@),
{
    re.captures_iter(text).filter_map(|c| c.get(1).map(|m| m.as_str().to_string())).collect()
}

/// The pattern of a feature gate as the attribute texts write it:
/// `name: "feature", value: Some("<flag>")`, the flag being the first group.
pub open spec fn feature_pattern() -> Seq<char> {
    "name: \"feature\", value: Some\\(\"([^\"]+)\"\\)"@
}

/// The flags found in the attribute texts, in order of appearance.
pub open spec fn found_in(attrs: Seq<Seq<char>>) -> Seq<Seq<char>>
    decreases attrs.len(),
{
    if attrs.len() == 0 {
        Seq::empty()
    } else {
        found_in(attrs.drop_last()) + first_groups(feature_pattern(), attrs.last())
    }
}

/// A flag is wanted when it was found and, where features are declared,
/// is one of them. An empty declared set filters nothing.
pub open spec fn wanted(flag: Seq<char>, found: Seq<Seq<char>>, declared: Seq<Seq<char>>) -> bool {
    found.contains(flag) && (declared.len() == 0 || declared.contains(flag))
}

/// `out` is the wanted flags in ascending order, each once.
pub open spec fn is_selection(
    out: Seq<Seq<char>>,
    found: Seq<Seq<char>>,
    declared: Seq<Seq<char>>,
) -> bool {
    &&& ascending(out)
    &&& forall|flag: Seq<char>| out.contains(flag) <==> wanted(flag, found, declared)
}

/// A selection is a filter of what was found: each flag in it was found
/// and, where features are declared, is declared; the flags stand in
/// ascending order, and none stands twice.
pub proof fn lemma_selection_is_filter(
    out: Seq<Seq<char>>,
    found: Seq<Seq<char>>,
    declared: Seq<Seq<char>>,
)
    requires
        is_selection(out, found, declared),
    ensures
        forall|i: int|
            0 <= i < out.len() ==> found.contains(#[trigger] out[i]) && (declared.len() > 0
                ==> declared.contains(out[i])),
        forall|i: int, j: int| 0 <= i < j < out.len() ==> before(#[trigger] out[i], #[trigger] out[j]),
        forall|i: int, j: int| 0 <= i < j < out.len() ==> #[trigger] out[i] != #[trigger] out[j],
{
    assert forall|i: int| 0 <= i < out.len() implies found.contains(#[trigger] out[i]) && (
    declared.len() > 0 ==> declared.contains(out[i])) by {
        assert(out.contains(out[i]));
    }
    assert forall|i: int, j: int| 0 <= i < j < out.len() implies #[trigger] out[i]
        != #[trigger] out[j] by {
        crate::text::lemma_before_irreflexive(out[i]);
    }
}

/// Whether `list` holds the text `s`.
pub fn list_has(list: &Vec<String>, s: &str) -> (r: bool)
    ensures
        r == views(list@).contains(s@),
{
    let mut i: usize = 0;
    while i < list.len()
        invariant
            i <= list.len(),
            forall|k: int| 0 <= k < i ==> views(list@)[k] != s@,
        decreases list.len() - i,
    {
        if str_same(list[i].as_str(), s) {
            assert(views(list@)[i as int] == s@);
            return true;
        }
        i += 1;
    }
    false
}

/// Puts `s` into an ascending list at its place, unless the list holds it already.
pub fn insert_ascending(out: &mut Vec<String>, s: String)
    requires
        ascending(views(old(out)@)),
    ensures
        ascending(views(final(out)@)),
        forall|t: Seq<char>|
            views(final(out)@).contains(t) <==> (views(old(out)@).contains(t) || t == s@),
{
    let sc = to_chars(s.as_str());
    let ghost start = views(out@);
    let mut p: usize = 0;
    while p < out.len()
        invariant
            p <= out.len(),
            views(out@) == start,
            start == views(old(out)@),
            ascending(start),
            sc@ == s@,
            forall|k: int| 0 <= k < p ==> before(#[trigger] start[k], s@),
        decreases out.len() - p,
    {
        let oc = to_chars(out[p].as_str());
        assert(oc@ == start[p as int]);
        match place_of(&oc, &sc) {
            Place::Before => {
                p += 1;
            },
            Place::Same => {
                assert(start.contains(s@));
                return;
            },
            Place::After => {
                let ghost text = s@;
                out.insert(p, s);
                proof {
                    assert(views(out@) =~= start.insert(p as int, text));
                    lemma_inserted(start, p as int, text);
                }
                return;
            },
        }
    }
    out.push(s);
    proof {
        let now = views(out@);
        assert(now =~= start.push(s@));
        assert forall|i: int, j: int| 0 <= i < j < now.len() implies before(
            #[trigger] now[i],
            #[trigger] now[j],
        ) by {
            if j < start.len() {
                assert(before(start[i], start[j]));
            }
        }
        assert forall|t: Seq<char>| now.contains(t) <==> (start.contains(t) || t == s@) by {
            if now.contains(t) {
                let k = choose|k: int| 0 <= k < now.len() && now[k] == t;
                if k < start.len() {
                    assert(start[k] == t);
                }
            }
            if start.contains(t) {
                let k = choose|k: int| 0 <= k < start.len() && start[k] == t;
                assert(now[k] == t);
            }
            if t == s@ {
                assert(now[start.len() as int] == t);
            }
        }
    }
}

/// Putting a text between those that stand before it and those that it
/// stands before keeps the list ascending, and adds just that text.
pub proof fn lemma_inserted(list: Seq<Seq<char>>, p: int, s: Seq<char>)
    requires
        ascending(list),
        0 <= p < list.len(),
        forall|k: int| 0 <= k < p ==> before(#[trigger] list[k], s),
        before(s, list[p]),
    ensures
        ascending(list.insert(p, s)),
        forall|t: Seq<char>| list.insert(p, s).contains(t) <==> (list.contains(t) || t == s),
{
    let now = list.insert(p, s);
    assert forall|i: int, j: int| 0 <= i < j < now.len() implies before(
        #[trigger] now[i],
        #[trigger] now[j],
    ) by {
        if i < p && j == p {
            assert(before(list[i], s));
        } else if i < p && j > p {
            assert(before(list[i], list[j - 1]));
        } else if i < p {
            assert(before(list[i], list[j]));
        } else if i == p {
            if j - 1 > p {
                lemma_before_transitive(s, list[p], list[j - 1]);
            }
        } else {
            assert(before(list[i - 1], list[j - 1]));
        }
    }
    assert forall|t: Seq<char>| now.contains(t) <==> (list.contains(t) || t == s) by {
        if now.contains(t) {
            let k = choose|k: int| 0 <= k < now.len() && now[k] == t;
            if k < p {
                assert(list[k] == t);
            } else if k > p {
                assert(list[k - 1] == t);
            }
        }
        if list.contains(t) {
            let k = choose|k: int| 0 <= k < list.len() && list[k] == t;
            if k < p {
                assert(now[k] == t);
            } else {
                assert(now[k + 1] == t);
            }
        }
        if t == s {
            assert(now[p] == t);
        }
    }
}

/// The wanted flags among `found`, ascending and each once: all of them
/// where `declared` is empty, else those that `declared` holds.
pub fn select_features(found: &Vec<String>, declared: &Vec<String>) -> (out: Vec<String>)
    ensures
        is_selection(views(out@), views(found@), views(declared@)),
{
    let mut out: Vec<String> = Vec::new();
    let mut i: usize = 0;
    while i < found.len()
        invariant
            i <= found.len(),
            ascending(views(out@)),
            forall|flag: Seq<char>|
                views(out@).contains(flag) <==> wanted(
                    flag,
                    views(found@).take(i as int),
                    views(declared@),
                ),
        decreases found.len() - i,
    {
        let ghost seen = views(found@).take(i as int);
        let ghost next = views(found@).take(i + 1);
        let ghost flag_i = found@[i as int]@;
        assert(next =~= seen.push(flag_i));
        assert forall|flag: Seq<char>| next.contains(flag) <==> (seen.contains(flag) || flag
            == flag_i) by {
            if next.contains(flag) {
                let k = choose|k: int| 0 <= k < next.len() && next[k] == flag;
                if k < seen.len() {
                    assert(seen[k] == flag);
                }
            }
            if seen.contains(flag) {
                let k = choose|k: int| 0 <= k < seen.len() && seen[k] == flag;
            }
            if flag == flag_i {
                assert(next[seen.len() as int] == flag);
            }
        }
        if declared.len() == 0 || list_has(declared, found[i].as_str()) {
            insert_ascending(&mut out, found[i].clone());
        }
        i += 1;
    }
    assert(views(found@).take(found.len() as int) =~= views(found@));
    out
}

/// The feature flags that gate an item, from its attribute texts:
/// ascending, each once, and only declared ones where any are declared.
/// Nothing where `regex` refuses the pattern.
pub fn extract_feature_requirements(attrs: &Vec<String>, declared_features: &Vec<String>) -> (out:
    Vec<String>)
    ensures
        compiles(feature_pattern()) ==> is_selection(
            views(out@),
            found_in(views(attrs@)),
            views(declared_features@),
        ),
        !compiles(feature_pattern()) ==> out@.len() == 0,
{
    let re = match compile("name: \"feature\", value: Some\\(\"([^\"]+)\"\\)") {
        Some(re) => re,
        None => {
            return Vec::new();
        },
    };
    let mut found: Vec<String> = Vec::new();
    assert(views(found@) =~= Seq::empty());
    let mut i: usize = 0;
    while i < attrs.len()
        invariant
            i <= attrs.len(),
            pattern_of(re) == feature_pattern(),
            views(found@) == found_in(views(attrs@).take(i as int)),
        decreases attrs.len() - i,
    {
        assert(views(attrs@).take(i + 1).drop_last() =~= views(attrs@).take(i as int));
        let ghost before_now = views(found@);
        let mut groups = capture_groups(&re, attrs[i].as_str());
        let ghost added = views(groups@);
        found.append(&mut groups);
        assert(views(found@) =~= before_now + added);
        i += 1;
    }
    assert(views(attrs@).take(attrs.len() as int) =~= views(attrs@));
    select_features(&found, declared_features)
}

} // verus!
