use vstd::prelude::*;
use vstd::string::StringExecFns;
use crate::error::DocsError;
use crate::table::{keys_unique, lookup, put};
use crate::text::{blank, from_chars, is_blank, line_ranges, lines_of, to_chars, views};

verus! {

/// What a dependency is needed for.
#[derive(Debug, Clone, Copy, PartialEq, Eq, Structural)]
pub enum DepKind {
    Normal,
    Dev,
    Build,
}

/// One dependency of one version of a crate.
#[derive(Debug, Clone)]
pub struct DepEntry {
    pub name: String,
    pub req: String,
    pub package: Option<String>,
    pub kind: Option<DepKind>,
    pub optional: bool,
    pub default_features: bool,
    pub features: Vec<String>,
    pub target: Option<String>,
}

/// One version of a crate as the sparse index lists it. The two feature
/// tables map a feature's name to what it switches on.
#[derive(Debug, Clone)]
pub struct IndexLine {
    pub name: String,
    pub vers: String,
    pub deps: Vec<DepEntry>,
    pub cksum: String,
    pub features: Vec<(String, Vec<String>)>,
    pub yanked: bool,
    pub rust_version: Option<String>,
    pub features2: Option<Vec<(String, Vec<String>)>>,
}

/// What the last entry with key `key` among the first `upto` holds.
pub open spec fn latest_under(
    entries: Seq<(String, Vec<String>)>,
    key: Seq<char>,
    upto: int,
) -> Option<Seq<Seq<char>>>
    decreases upto,
{
    if upto <= 0 || upto > entries.len() {
        None
    } else if entries[upto - 1].0@ == key {
        Some(views(entries[upto - 1].1@))
    } else {
        latest_under(entries, key, upto - 1)
    }
}

/// What a feature table holds under `key`.
pub open spec fn list_under(entries: Seq<(String, Vec<String>)>, key: Seq<char>) -> Option<
    Seq<Seq<char>>,
> {
    match lookup(entries, key) {
        Some(v) => Some(views(v@)),
        None => None,
    }
}

/// A copy of a list of strings.
pub fn copy_strings(list: &Vec<String>) -> (out: Vec<String>)
    ensures
        views(out@) == views(list@),
{
    let mut out: Vec<String> = Vec::new();
    let mut i: usize = 0;
    while i < list.len()
        invariant
            i <= list.len(),
            out@.len() == i,
            forall|k: int| 0 <= k < i ==> (#[trigger] out@[k])@ == list@[k]@,
        decreases list.len() - i,
    {
        out.push(list[i].clone());
        i += 1;
    }
    assert(views(out@) =~= views(list@));
    out
}

/// Puts every entry of `from` into `into`, a later entry in place of an
/// earlier one with the same key.
fn put_entries(into: &mut Vec<(String, Vec<String>)>, from: &Vec<(String, Vec<String>)>)
    requires
        keys_unique(old(into)@),
    ensures
        keys_unique(final(into)@),
        forall|k: Seq<char>|
            list_under(final(into)@, k) == (match latest_under(from@, k, from@.len() as int) {
                Some(v) => Some(v),
                None => list_under(old(into)@, k),
            }),
{
    let mut i: usize = 0;
    while i < from.len()
        invariant
            i <= from.len(),
            keys_unique(into@),
            forall|k: Seq<char>|
                list_under(into@, k) == (match latest_under(from@, k, i as int) {
                    Some(v) => Some(v),
                    None => list_under(old(into)@, k),
                }),
        decreases from.len() - i,
    {
        let ghost before = into@;
        let key = from[i].0.clone();
        let value = copy_strings(&from[i].1);
        let ghost key_text = key@;
        let ghost value_texts = views(value@);
        put(into, key, value);
        assert forall|k: Seq<char>|
            list_under(into@, k) == (match latest_under(from@, k, i + 1) {
                Some(v) => Some(v),
                None => list_under(old(into)@, k),
            }) by {
            assert(lookup(into@, k) == (if k == key_text {
                Some(value)
            } else {
                lookup(before, k)
            }));
            if k == key_text {
                assert(list_under(into@, k) == Some(value_texts));
                assert(latest_under(from@, k, i + 1) == Some(value_texts));
            } else {
                assert(list_under(before, k) == (match latest_under(from@, k, i as int) {
                    Some(v) => Some(v),
                    None => list_under(old(into)@, k),
                }));
            }
        }
        i += 1;
    }
}

impl IndexLine {
    /// What the merged feature table holds under `key`: what `features2`
    /// holds there, else what `features` holds.
    pub open spec fn merged_under(self, key: Seq<char>) -> Option<Seq<Seq<char>>> {
        let second = match self.features2 {
            Some(f2) => latest_under(f2@, key, f2@.len() as int),
            None => None,
        };
        match second {
            Some(v) => Some(v),
            None => latest_under(self.features@, key, self.features@.len() as int),
        }
    }

    /// The feature table of `features` and `features2` together, each
    /// name once; where both name a feature, `features2` decides.
    pub fn all_features(&self) -> (merged: Vec<(String, Vec<String>)>)
        ensures
            keys_unique(merged@),
            forall|k: Seq<char>| list_under(merged@, k) == self.merged_under(k),
    {
        let mut merged: Vec<(String, Vec<String>)> = Vec::new();
        put_entries(&mut merged, &self.features);
        if let Some(f2) = &self.features2 {
            put_entries(&mut merged, f2);
        }
        merged
    }

    /// Not yanked, and no pre-release where `stable_only` is set: a
    /// pre-release is a version with a hyphen in its text.
    pub open spec fn eligible(self, stable_only: bool) -> bool {
        !self.yanked && (stable_only ==> !self.vers@.contains('-'))
    }
}

/// The ASCII lower-case form of a character.
pub open spec fn lower_ascii(c: char) -> char {
    if 'A' <= c && c <= 'Z' {
        ((c as u8) + 32) as char
    } else {
        c
    }
}

/// The ASCII lower-case form of a text.
pub open spec fn lowered(s: Seq<char>) -> Seq<char> {
    s.map_values(|c: char| lower_ascii(c))
}

/// Every character is an ASCII character.
pub open spec fn all_ascii(s: Seq<char>) -> bool {
    forall|i: int| 0 <= i < s.len() ==> (#[trigger] s[i]) <= '\x7f'
}

/// The place of a crate in the sparse index: `1/{name}`, `2/{name}`,
/// `3/{first letter}/{name}`, or `{first two}/{next two}/{name}`, by the
/// length of the lower-case name `n`.
pub open spec fn index_path(n: Seq<char>) -> Seq<char> {
    if n.len() == 1 {
        "1/"@ + n
    } else if n.len() == 2 {
        "2/"@ + n
    } else if n.len() == 3 {
        "3/"@ + n.subrange(0, 1) + "/"@ + n
    } else {
        n.subrange(0, 2) + "/"@ + n.subrange(2, 4) + "/"@ + n
    }
}

/// Whether every character of `s` is an ASCII character.
pub fn is_all_ascii(s: &str) -> (r: bool)
    ensures
        r == all_ascii(s@),
{
    let chars = to_chars(s);
    let mut i: usize = 0;
    while i < chars.len()
        invariant
            i <= chars.len(),
            chars@ == s@,
            forall|k: int| 0 <= k < i ==> (#[trigger] chars@[k]) <= '\x7f',
        decreases chars.len() - i,
    {
        if chars[i] > '\x7f' {
            return false;
        }
        i += 1;
    }
    true
}

/// The place of the crate `name` in the sparse index.
pub fn compute_path(name: &str) -> (path: String)
    requires
        name@.len() > 0,
        all_ascii(name@),
    ensures
        path@ == index_path(lowered(name@)),
{
    let chars = to_chars(name);
    let mut n: Vec<char> = Vec::new();
    let mut i: usize = 0;
    while i < chars.len()
        invariant
            i <= chars.len(),
            chars@ == name@,
            n@ == lowered(name@).take(i as int),
        decreases chars.len() - i,
    {
        let c = chars[i];
        let low = if 'A' <= c && c <= 'Z' {
            let b: u8 = c as u8;
            (b + 32) as char
        } else {
            c
        };
        n.push(low);
        assert(n@ =~= lowered(name@).take(i + 1));
        i += 1;
    }
    assert(n@ =~= lowered(name@));
    let whole = from_chars(&n, 0, n.len());
    assert(n@.subrange(0, n.len() as int) =~= n@);
    if n.len() == 1 {
        let mut path = String::from_str("1/");
        path.append(whole.as_str());
        path
    } else if n.len() == 2 {
        let mut path = String::from_str("2/");
        path.append(whole.as_str());
        path
    } else if n.len() == 3 {
        let first = from_chars(&n, 0, 1);
        let mut path = String::from_str("3/");
        path.append(first.as_str());
        path.append("/");
        path.append(whole.as_str());
        path
    } else {
        let mut path = from_chars(&n, 0, 2);
        let next = from_chars(&n, 2, 4);
        path.append("/");
        path.append(next.as_str());
        path.append("/");
        path.append(whole.as_str());
        path
    }
}

/// Whether the version that `a` writes does not stand after the one that
/// `b` writes, in the order of `semver`; a text that is no version stands
/// before every version.
pub uninterp spec fn version_le(a: Seq<char>, b: Seq<char>) -> bool;

/// Compares two version texts. Holds `semver::Version::parse` on each
/// and the order of `semver::Version`, an unreadable text counting as
/// less than any version. The order is total: of two texts one does not
/// stand after the other.
#[verifier::external_body]
pub(crate) fn not_later(a: &str, b: &str) -> (r: bool)
    ensures
        r == version_le(a@, b@),
        r || version_le(b@, a@),
{
    semver::Version::parse(a).ok() <= semver::Version::parse(b).ok()
}

/// The line that is kept after looking at line `at`: `at` itself where
/// it is eligible and the best so far does not stand after it, else the
/// best so far. Among equals the later line wins.
pub open spec fn kept(best: Option<int>, at: int, eligible: bool, not_later: bool) -> Option<int> {
    if eligible && (best is None || not_later) {
        Some(at)
    } else {
        best
    }
}

/// The best of the first `upto` lines: the eligible line with the
/// highest version, the last of them among equals.
pub open spec fn best_of(lines: Seq<IndexLine>, stable_only: bool, upto: int) -> Option<int>
    decreases upto,
{
    if upto <= 0 || upto > lines.len() {
        None
    } else {
        let best = best_of(lines, stable_only, upto - 1);
        kept(
            best,
            upto - 1,
            lines[upto - 1].eligible(stable_only),
            best is Some && version_le(lines[best->0].vers@, lines[upto - 1].vers@),
        )
    }
}

/// The latest stable version: the best line that is neither yanked nor a
/// pre-release; where there is none, the best line that is not yanked.
pub open spec fn latest_stable(lines: Seq<IndexLine>) -> Option<int> {
    match best_of(lines, true, lines.len() as int) {
        Some(i) => Some(i),
        None => best_of(lines, false, lines.len() as int),
    }
}

/// Whether the text holds the character.
pub fn has_char(s: &str, c: char) -> (r: bool)
    ensures
        r == s@.contains(c),
{
    let chars = to_chars(s);
    let mut i: usize = 0;
    while i < chars.len()
        invariant
            i <= chars.len(),
            chars@ == s@,
            forall|k: int| 0 <= k < i ==> chars@[k] != c,
        decreases chars.len() - i,
    {
        if chars[i] == c {
            return true;
        }
        i += 1;
    }
    false
}

/// The line that is kept after looking at line `at`.
pub fn keep_later(best: Option<usize>, at: usize, eligible: bool, not_later: bool) -> (r: Option<
    usize,
>)
    ensures
        r == (if eligible && (best is None || not_later) {
            Some(at)
        } else {
            best
        }),
{
    if eligible && (best.is_none() || not_later) {
        Some(at)
    } else {
        best
    }
}

/// The position of the best line: the eligible line with the highest
/// version.
pub fn pick_latest(lines: &Vec<IndexLine>, stable_only: bool) -> (r: Option<usize>)
    ensures
        match r {
            Some(i) => best_of(lines@, stable_only, lines@.len() as int) == Some(i as int) && i
                < lines@.len(),
            None => best_of(lines@, stable_only, lines@.len() as int) is None,
        },
{
    let mut best: Option<usize> = None;
    let mut i: usize = 0;
    while i < lines.len()
        invariant
            i <= lines.len(),
            match best {
                Some(b) => best_of(lines@, stable_only, i as int) == Some(b as int) && b < i,
                None => best_of(lines@, stable_only, i as int) is None,
            },
        decreases lines.len() - i,
    {
        let line = &lines[i];
        let eligible = !line.yanked && (!stable_only || !has_char(line.vers.as_str(), '-'));
        let later = match best {
            Some(b) => not_later(lines[b].vers.as_str(), line.vers.as_str()),
            None => false,
        };
        best = keep_later(best, i, eligible, later);
        i += 1;
    }
    best
}

/// The latest stable version among the lines of a crate: yanked versions
/// and pre-releases aside, the line with the highest version; where no
/// such line is left, the highest that is not yanked.
pub fn find_latest_stable(lines: &Vec<IndexLine>) -> (r: Option<&IndexLine>)
    ensures
        match r {
            Some(line) => latest_stable(lines@) is Some && *line == lines@[latest_stable(lines@)->0],
            None => latest_stable(lines@) is None,
        },
{
    match pick_latest(lines, true) {
        Some(i) => Some(&lines[i]),
        None => match pick_latest(lines, false) {
            Some(i) => Some(&lines[i]),
            None => None,
        },
    }
}

/// The version to use for a crate: the one asked for, unless none is
/// asked for, or an empty one, or `latest`; then the latest stable
/// version of the index lines. Fails where those hold no version that is
/// not yanked.
pub fn resolve_version(name: &str, version: Option<&str>, lines: &Vec<IndexLine>) -> (r: Result<
    String,
    DocsError,
>)
    ensures
        match version {
            Some(v) if v@.len() > 0 && v@ != "latest"@ => r is Ok && r->Ok_0@ == v@,
            _ => match latest_stable(lines@) {
                Some(i) => r is Ok && r->Ok_0@ == lines@[i].vers@,
                None => r is Err && r->Err_0 is NoStableVersion && r->Err_0->NoStableVersion_0@
                    == name@,
            },
        },
{
    if let Some(v) = version {
        if !v.is_empty() && !crate::text::str_same(v, "latest") {
            return Ok(String::from_str(v));
        }
    }
    match find_latest_stable(lines) {
        Some(line) => Ok(line.vers.clone()),
        None => Err(DocsError::NoStableVersion(String::from_str(name))),
    }
}

/// The lines that are not blank, from position `from` on.
pub open spec fn filled_from(lines: Seq<Seq<char>>, from: int) -> Seq<Seq<char>>
    decreases lines.len() - from,
{
    if from < 0 || from >= lines.len() {
        Seq::empty()
    } else if blank(lines[from]) {
        filled_from(lines, from + 1)
    } else {
        seq![lines[from]] + filled_from(lines, from + 1)
    }
}

/// The records of a newline-delimited text: its lines that are not blank.
pub open spec fn records_of(text: Seq<char>) -> Seq<Seq<char>> {
    filled_from(lines_of(text), 0)
}

/// The records of a newline-delimited text, one per line, blank lines
/// left out.
pub fn ndjson_records(text: &str) -> (out: Vec<String>)
    ensures
        views(out@) == records_of(text@),
{
    let chars = to_chars(text);
    let ranges = line_ranges(&chars);
    let ghost lines = lines_of(text@);
    let mut kept: Vec<String> = Vec::new();
    assert(views(kept@) =~= Seq::empty());
    let mut j: usize = 0;
    while j < ranges.len()
        invariant
            j <= ranges.len(),
            chars@ == text@,
            lines == lines_of(chars@),
            ranges@.len() == lines.len(),
            forall|k: int|
                0 <= k < ranges@.len() ==> {
                    &&& (#[trigger] ranges@[k]).0 <= ranges@[k].1 <= chars.len()
                    &&& chars@.subrange(ranges@[k].0 as int, ranges@[k].1 as int) == lines[k]
                },
            views(kept@) + filled_from(lines, j as int) == filled_from(lines, 0),
        decreases ranges.len() - j,
    {
        let (from, to) = ranges[j];
        let ghost before = views(kept@);
        if !is_blank(&chars, from, to) {
            let s = from_chars(&chars, from, to);
            kept.push(s);
            assert(views(kept@) =~= before.push(lines[j as int]));
            assert(views(kept@) + filled_from(lines, j + 1) =~= before + filled_from(
                lines,
                j as int,
            ));
        }
        j += 1;
    }
    assert(views(kept@) + Seq::<Seq<char>>::empty() =~= views(kept@));
    kept
}

} // verus!
