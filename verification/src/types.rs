use vstd::prelude::*;
use vstd::string::StringExecFns;
use crate::error::DocsError;
use crate::json::{Json, compact_text, dump};
use crate::render::{get_str, held, text_at};
use crate::table::{find_entry, has_unique_keys, keys_unique, lookup};
use crate::text::{blank, from_chars, is_blank, join, join_strings, line_ranges, lines_of, opt_view, to_chars, views};

verus! {

/// The lowest format version that this library reads.
pub const MIN_FORMAT_VERSION: u32 = 33;

/// Since when an item is deprecated, and why.
#[derive(Debug, Clone)]
pub struct Deprecation {
    pub since: Option<String>,
    pub note: Option<String>,
}

/// Where an item stands in its source file.
#[derive(Debug)]
pub struct Span {
    pub filename: String,
    pub begin: (u32, u32),
    pub end: (u32, u32),
}

/// A crate that the documented crate refers to.
#[derive(Debug, Clone)]
pub struct ExternalCrate {
    pub name: String,
    pub html_root_url: Option<String>,
}

/// The canonical place of an item: its kind, the components of its path
/// with the crate's name first, and a one-line summary.
#[derive(Debug, Clone)]
pub struct PathEntry {
    pub kind: String,
    pub path: Vec<String>,
    pub summary: Option<String>,
}

impl PathEntry {
    /// The fully qualified name: the components joined by `::`.
    pub open spec fn full_name(self) -> Seq<char> {
        join(views(self.path@), "::"@)
    }

    /// The kind of the item, such as `struct` or `function`.
    pub fn kind_name(&self) -> (r: &str)
        ensures
            r@ == self.kind@,
    {
        self.kind.as_str()
    }

    /// The fully qualified name: the components joined by `::`.
    pub fn full_path(&self) -> (r: String)
        ensures
            r@ == self.full_name(),
    {
        join_strings(&self.path, "::")
    }
}

/// One entity of the document: a function, a struct, a module, an impl
/// block and so on. `inner` is an object with one key, which names the kind.
#[derive(Debug)]
pub struct Item {
    pub id: Json,
    pub name: Option<String>,
    pub docs: Option<String>,
    pub attrs: Vec<Json>,
    pub deprecation: Option<Deprecation>,
    pub inner: Json,
    pub span: Option<Span>,
    pub visibility: Option<Json>,
    pub links: Option<Vec<(String, Json)>>,
}

/// The texts under `other` of those attributes that carry one, in order.
pub open spec fn attr_texts(attrs: Seq<Json>) -> Seq<Seq<char>>
    decreases attrs.len(),
{
    if attrs.len() == 0 {
        Seq::empty()
    } else {
        let before = attr_texts(attrs.drop_last());
        match text_at(attrs.last(), "other"@) {
            Some(t) => before.push(t),
            None => before,
        }
    }
}

/// The first of the lines, from position `from` on, that is not blank;
/// the empty text where every line is blank.
pub open spec fn first_filled(lines: Seq<Seq<char>>, from: int) -> Seq<char>
    decreases lines.len() - from,
{
    if from < 0 || from >= lines.len() {
        Seq::empty()
    } else if !blank(lines[from]) {
        lines[from]
    } else {
        first_filled(lines, from + 1)
    }
}

/// The summary of a doc text: its first line that is not blank.
pub open spec fn summary_of(docs: Seq<char>) -> Seq<char> {
    first_filled(lines_of(docs), 0)
}

/// The first line of `docs` that is not blank.
pub fn summarize(docs: &str) -> (r: String)
    ensures
        r@ == summary_of(docs@),
{
    let chars = to_chars(docs);
    let ranges = line_ranges(&chars);
    let mut i: usize = 0;
    while i < ranges.len()
        invariant
            i <= ranges.len(),
            chars@ == docs@,
            ranges@.len() == lines_of(chars@).len(),
            forall|k: int|
                0 <= k < ranges@.len() ==> {
                    &&& (#[trigger] ranges@[k]).0 <= ranges@[k].1 <= chars.len()
                    &&& chars@.subrange(ranges@[k].0 as int, ranges@[k].1 as int) == lines_of(
                        chars@,
                    )[k]
                },
            first_filled(lines_of(chars@), 0) == first_filled(lines_of(chars@), i as int),
        decreases ranges.len() - i,
    {
        let (from, to) = ranges[i];
        if !is_blank(&chars, from, to) {
            return from_chars(&chars, from, to);
        }
        i += 1;
    }
    String::new()
}

impl Item {
    /// The kind of the item: the first key of `inner`, when `inner` is an
    /// object that has a key.
    pub open spec fn kind_text(self) -> Option<Seq<char>> {
        match self.inner {
            Json::Object(members) => if members@.len() > 0 {
                Some(members@[0].0@)
            } else {
                None
            },
            _ => None,
        }
    }

    /// The display name, empty where the item has none.
    pub open spec fn name_text(self) -> Seq<char> {
        match self.name {
            Some(n) => n@,
            None => Seq::empty(),
        }
    }

    /// The summary of the item's docs, empty where it has none.
    pub open spec fn summary(self) -> Seq<char> {
        match self.docs {
            Some(d) => summary_of(d@),
            None => Seq::empty(),
        }
    }

    /// The kind of the item; none for a malformed item, which is to be
    /// passed over.
    pub fn kind(&self) -> (r: Option<&str>)
        ensures
            opt_view(r) == self.kind_text(),
    {
        match &self.inner {
            Json::Object(members) => if members.len() > 0 {
                Some(members[0].0.as_str())
            } else {
                None
            },
            _ => None,
        }
    }

    /// Whether the item's kind is `kind`.
    pub fn is_kind(&self, kind: &str) -> (r: bool)
        ensures
            r == (self.kind_text() == Some(kind@)),
    {
        match self.kind() {
            Some(k) => crate::text::str_same(k, kind),
            None => false,
        }
    }

    /// What `inner` holds under `kind`.
    pub fn inner_for(&self, kind: &str) -> (r: Option<&Json>)
        ensures
            held(r) == self.inner.member(kind@),
    {
        self.inner.get(kind)
    }

    /// The texts of the attributes: what each holds under `other`.
    pub fn attr_strings(&self) -> (r: Vec<String>)
        ensures
            views(r@) == attr_texts(self.attrs@),
    {
        let mut out: Vec<String> = Vec::new();
        assert(views(out@) =~= Seq::empty());
        let mut i: usize = 0;
        while i < self.attrs.len()
            invariant
                i <= self.attrs.len(),
                views(out@) == attr_texts(self.attrs@.take(i as int)),
            decreases self.attrs.len() - i,
        {
            assert(self.attrs@.take(i + 1).drop_last() =~= self.attrs@.take(i as int));
            let ghost before = out@;
            match get_str(&self.attrs[i], "other") {
                Some(t) => {
                    let s = String::from_str(t);
                    out.push(s);
                    assert(views(out@) =~= views(before).push(s@));
                },
                None => {},
            }
            i += 1;
        }
        assert(self.attrs@.take(self.attrs.len() as int) =~= self.attrs@);
        out
    }

    /// The summary of the docs: their first line that is not blank.
    pub fn doc_summary(&self) -> (r: String)
        ensures
            r@ == self.summary(),
    {
        match &self.docs {
            Some(d) => summarize(d.as_str()),
            None => String::new(),
        }
    }

    /// The display name, empty where the item has none.
    pub fn name_str(&self) -> (r: &str)
        ensures
            r@ == self.name_text(),
    {
        match &self.name {
            Some(n) => n.as_str(),
            None => {
                proof {
                    reveal_strlit("");
                    assert(""@ =~= Seq::<char>::empty());
                }
                ""
            },
        }
    }
}

/// A parsed documentation document: the item index and the path table,
/// both keyed by the textual item id, in document order.
#[derive(Debug)]
pub struct RustdocJson {
    pub format_version: u32,
    pub root: Json,
    pub index: Vec<(String, Item)>,
    pub paths: Vec<(String, PathEntry)>,
    pub external_crates: Vec<(String, ExternalCrate)>,
    pub crate_version: Option<String>,
}

impl RustdocJson {
    /// The index and the path table are mappings: no id stands twice in
    /// either.
    pub open spec fn well_formed(self) -> bool {
        keys_unique(self.index@) && keys_unique(self.paths@)
    }

    /// Whether no id stands twice in the index or in the path table.
    pub fn is_well_formed(&self) -> (r: bool)
        ensures
            r == self.well_formed(),
    {
        has_unique_keys(&self.index) && has_unique_keys(&self.paths)
    }

    /// The id of the root item as text.
    pub open spec fn root_text(self) -> Seq<char> {
        match self.root {
            Json::Number(n) => n@,
            Json::Text(s) => s@,
            other => compact_text(other.view()),
        }
    }

    /// The item stored under `id`.
    pub open spec fn item_at(self, id: Seq<char>) -> Option<Item> {
        lookup(self.index@, id)
    }

    /// The path entry stored under `id`.
    pub open spec fn path_at(self, id: Seq<char>) -> Option<PathEntry> {
        lookup(self.paths@, id)
    }

    /// The id of the root item as text: the digits of a number, the text
    /// of a string, else the compact JSON text of the value.
    pub fn root_id(&self) -> (r: String)
        ensures
            r@ == self.root_text(),
    {
        match &self.root {
            Json::Number(n) => n.clone(),
            Json::Text(s) => s.clone(),
            other => dump(other),
        }
    }

    /// Whether the document's format version is one that this library reads.
    pub fn is_supported(&self) -> (r: bool)
        ensures
            r == (self.format_version >= MIN_FORMAT_VERSION),
    {
        self.format_version >= MIN_FORMAT_VERSION
    }

    /// Accepts a document of a format version that this library reads,
    /// and refuses an older one with its version.
    pub fn check_format(&self) -> (r: Result<(), DocsError>)
        ensures
            self.format_version >= MIN_FORMAT_VERSION ==> r is Ok,
            self.format_version < MIN_FORMAT_VERSION ==> r == Err::<(), DocsError>(
                DocsError::UnsupportedFormat(self.format_version),
            ),
    {
        if self.format_version < MIN_FORMAT_VERSION {
            Err(DocsError::UnsupportedFormat(self.format_version))
        } else {
            Ok(())
        }
    }

    /// The docs of the root item; empty where there is no root or it has none.
    pub open spec fn root_docs_text(self) -> Seq<char> {
        match self.item_at(self.root_text()) {
            Some(root) => match root.docs {
                Some(d) => d@,
                None => Seq::empty(),
            },
            None => Seq::empty(),
        }
    }

    /// The docs of the root item.
    pub fn root_docs(&self) -> (r: String)
        ensures
            r@ == self.root_docs_text(),
    {
        let id = self.root_id();
        match self.item(id.as_str()) {
            Some(root) => match &root.docs {
                Some(d) => d.clone(),
                None => String::new(),
            },
            None => String::new(),
        }
    }

    /// The item stored under `id`.
    pub fn item(&self, id: &str) -> (r: Option<&Item>)
        ensures
            match r {
                Some(i) => self.item_at(id@) == Some(*i),
                None => self.item_at(id@) is None,
            },
    {
        find_entry(&self.index, id)
    }

    /// The path entry stored under `id`.
    pub fn path_entry(&self, id: &str) -> (r: Option<&PathEntry>)
        ensures
            match r {
                Some(p) => self.path_at(id@) == Some(*p),
                None => self.path_at(id@) is None,
            },
    {
        find_entry(&self.paths, id)
    }
}

} // verus!
