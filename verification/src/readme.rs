use vstd::prelude::*;
use crate::text::{
    blank, find_from, first_occurrence, first_word, first_word_of, from_chars,
    is_blank, is_text, line_ranges, lines_of, lower, lowercase, replace_all, replaced, to_chars, trim_chars,
    trimmed,
};

verus! {

/// Where the scan of an HTML text stands: the text written so far, whether
/// it is inside `<pre>`, inside inline `<code>`, inside `<script>` or
/// `<style>`, and the tag that is being read.
pub struct Scan {
    pub output: Seq<char>,
    pub in_pre: bool,
    pub in_code: bool,
    pub skip: bool,
    pub tag: Seq<char>,
    pub in_tag: bool,
}

/// What follows `needle` in `tag` up to the next `quote`: the value of an
/// attribute written with that quote.
pub open spec fn quoted_after(tag: Seq<char>, needle: Seq<char>, quote: char) -> Option<Seq<char>> {
    match first_occurrence(tag, needle, 0) {
        None => None,
        Some(start) => match first_occurrence(tag, seq![quote], start + needle.len()) {
            Some(end) => Some(tag.subrange(start + needle.len(), end)),
            None => None,
        },
    }
}

/// The value of the attribute `attr` in a tag: in double quotes, else in
/// single quotes.
pub open spec fn attr_value(tag: Seq<char>, attr: Seq<char>) -> Option<Seq<char>> {
    match quoted_after(tag, attr + "=\""@, '"') {
        Some(v) => Some(v),
        None => quoted_after(tag, attr + "='"@, '\''),
    }
}

/// The scan after a closed tag whose lower-case text is `tag` and whose
/// name is `name`.
pub open spec fn after_tag(st: Scan, tag: Seq<char>, name: Seq<char>) -> Scan {
    if name == "script"@ || name == "style"@ {
        Scan { skip: true, ..st }
    } else if name == "/script"@ || name == "/style"@ {
        Scan { skip: false, ..st }
    } else if name == "pre"@ {
        if !st.in_pre {
            Scan { in_pre: true, in_code: false, output: st.output + "\n```\n"@, ..st }
        } else {
            st
        }
    } else if name == "/pre"@ {
        if st.in_pre {
            Scan { in_pre: false, output: st.output + "\n```\n"@, ..st }
        } else {
            st
        }
    } else if name == "code"@ {
        if !st.in_pre {
            Scan { in_code: true, output: st.output.push('`'), ..st }
        } else {
            st
        }
    } else if name == "/code"@ {
        if !st.in_pre && st.in_code {
            Scan { in_code: false, output: st.output.push('`'), ..st }
        } else {
            st
        }
    } else if name == "img"@ {
        match attr_value(tag, "alt"@) {
            Some(alt) => if alt.len() > 0 {
                Scan { output: (st.output.push('[') + alt).push(']'), ..st }
            } else {
                st
            },
            None => st,
        }
    } else if name == "p"@ || name == "/p"@ || name == "br"@ || name == "br/"@ {
        Scan { output: st.output.push('\n'), ..st }
    } else if name == "h1"@ || name == "h2"@ || name == "h3"@ || name == "h4"@ || name == "h5"@
        || name == "h6"@ {
        Scan { output: st.output.push('\n'), ..st }
    } else if name == "/h1"@ || name == "/h2"@ || name == "/h3"@ || name == "/h4"@ || name
        == "/h5"@ || name == "/h6"@ {
        Scan { output: st.output.push('\n').push('\n'), ..st }
    } else if name == "li"@ {
        Scan { output: st.output + "\n- "@, ..st }
    } else if name == "td"@ || name == "th"@ {
        Scan { output: st.output + "  "@, ..st }
    } else if name == "/tr"@ {
        Scan { output: st.output.push('\n'), ..st }
    } else {
        st
    }
}

/// The scan after one more character.
pub open spec fn step(st: Scan, ch: char) -> Scan {
    if ch == '<' {
        Scan { in_tag: true, tag: Seq::empty(), ..st }
    } else if ch == '>' && st.in_tag {
        let tag = lowercase(trimmed(st.tag));
        after_tag(Scan { in_tag: false, ..st }, tag, first_word(tag))
    } else if st.in_tag {
        Scan { tag: st.tag.push(ch), ..st }
    } else if !st.skip {
        Scan { output: st.output.push(ch), ..st }
    } else {
        st
    }
}

/// The scan after the first `upto` characters of `html`.
pub open spec fn scanned(html: Seq<char>, upto: int) -> Scan
    decreases upto,
{
    if upto <= 0 || upto > html.len() {
        Scan {
            output: Seq::empty(),
            in_pre: false,
            in_code: false,
            skip: false,
            tag: Seq::empty(),
            in_tag: false,
        }
    } else {
        step(scanned(html, upto - 1), html[upto - 1])
    }
}

/// The text with the common HTML entities written as their characters,
/// each kind replaced in turn, `&amp;` first.
pub open spec fn decoded(s: Seq<char>) -> Seq<char> {
    let s = replaced(s, "&amp;"@, "&"@);
    let s = replaced(s, "&lt;"@, "<"@);
    let s = replaced(s, "&gt;"@, ">"@);
    let s = replaced(s, "&quot;"@, "\""@);
    let s = replaced(s, "&#39;"@, "'"@);
    let s = replaced(s, "&apos;"@, "'"@);
    let s = replaced(s, "&nbsp;"@, " "@);
    let s = replaced(s, "&#x27;"@, "'"@);
    let s = replaced(s, "&#x2F;"@, "/"@);
    let s = replaced(s, "&#x60;"@, "`"@);
    replaced(s, "&#x3D;"@, "="@)
}

/// The lines from position `from` on, each followed by a line feed, with
/// no more than two blank lines in a row: of a run of blank lines, of
/// which `blanks` came before, the first two are kept as empty lines.
pub open spec fn collapsed_from(lines: Seq<Seq<char>>, from: int, blanks: nat) -> Seq<char>
    decreases lines.len() - from,
{
    if from < 0 || from >= lines.len() {
        Seq::empty()
    } else if blank(lines[from]) {
        (if blanks < 2 {
            seq!['\n']
        } else {
            Seq::empty()
        }) + collapsed_from(lines, from + 1, blanks + 1)
    } else {
        lines[from] + seq!['\n'] + collapsed_from(lines, from + 1, 0)
    }
}

/// The plain text of an HTML text: tags read for their structure,
/// entities decoded, runs of blank lines cut to two.
pub open spec fn plain_text(html: Seq<char>) -> Seq<char> {
    collapsed_from(lines_of(decoded(scanned(html, html.len() as int).output)), 0, 0)
}

/// Appends the characters of `s`.
fn push_text(out: &mut Vec<char>, s: &str)
    ensures
        final(out)@ == old(out)@ + s@,
{
    let t = to_chars(s);
    push_chars(out, &t);
}

/// Appends the characters `t`.
fn push_chars(out: &mut Vec<char>, t: &Vec<char>)
    ensures
        final(out)@ == old(out)@ + t@,
{
    let mut k: usize = 0;
    while k < t.len()
        invariant
            k <= t.len(),
            out@ == old(out)@ + t@.take(k as int),
        decreases t.len() - k,
    {
        out.push(t[k]);
        assert(out@ =~= old(out)@ + t@.take(k + 1));
        k += 1;
    }
    assert(t@.take(t.len() as int) =~= t@);
}

/// What follows `needle` in `tag` up to the next `quote`.
fn find_quoted(tag: &Vec<char>, needle: &Vec<char>, quote: char) -> (r: Option<(usize, usize)>)
    ensures
        match r {
            Some(range) => range.0 <= range.1 <= tag.len() && quoted_after(tag@, needle@, quote)
                == Some(tag@.subrange(range.0 as int, range.1 as int)),
            None => quoted_after(tag@, needle@, quote) is None,
        },
{
    let start = match find_from(tag, needle, 0) {
        Some(s) => s,
        None => {
            return None;
        },
    };
    assert(start + needle.len() <= tag.len());
    let from = start + needle.len();
    let mut one: Vec<char> = Vec::new();
    one.push(quote);
    assert(one@ =~= seq![quote]);
    match find_from(tag, &one, from) {
        Some(end) => Some((from, end)),
        None => None,
    }
}

/// The value of the attribute `attr` in a tag.
fn find_attr(tag: &Vec<char>, attr: &str) -> (r: Option<(usize, usize)>)
    ensures
        match r {
            Some(range) => range.0 <= range.1 <= tag.len() && attr_value(tag@, attr@) == Some(
                tag@.subrange(range.0 as int, range.1 as int),
            ),
            None => attr_value(tag@, attr@) is None,
        },
{
    let mut double = to_chars(attr);
    push_text(&mut double, "=\"");
    if let Some(range) = find_quoted(tag, &double, '"') {
        return Some(range);
    }
    let mut single = to_chars(attr);
    push_text(&mut single, "='");
    find_quoted(tag, &single, '\'')
}

/// The value of the attribute `attr` in a lower-case tag text: what
/// stands between `attr="` and the next `"`, else between `attr='` and
/// the next `'`.
pub fn extract_attr(tag_lower: &str, attr: &str) -> (r: Option<String>)
    ensures
        match r {
            Some(v) => attr_value(tag_lower@, attr@) == Some(v@),
            None => attr_value(tag_lower@, attr@) is None,
        },
{
    let tag = to_chars(tag_lower);
    match find_attr(&tag, attr) {
        Some(range) => Some(from_chars(&tag, range.0, range.1)),
        None => None,
    }
}

/// The text with the common HTML entities written as their characters.
pub fn decode_html_entities(s: &str) -> (r: String)
    ensures
        r@ == decoded(s@),
{
    let v = decode_chars(&to_chars(s));
    let r = from_chars(&v, 0, v.len());
    assert(v@.subrange(0, v.len() as int) =~= v@);
    r
}

fn replace_text(s: &Vec<char>, pat: &str, to: &str) -> (out: Vec<char>)
    ensures
        out@ == replaced(s@, pat@, to@),
{
    replace_all(s, &to_chars(pat), &to_chars(to))
}

fn decode_chars(s: &Vec<char>) -> (out: Vec<char>)
    ensures
        out@ == decoded(s@),
{
    let s = replace_text(s, "&amp;", "&");
    let s = replace_text(&s, "&lt;", "<");
    let s = replace_text(&s, "&gt;", ">");
    let s = replace_text(&s, "&quot;", "\"");
    let s = replace_text(&s, "&#39;", "'");
    let s = replace_text(&s, "&apos;", "'");
    let s = replace_text(&s, "&nbsp;", " ");
    let s = replace_text(&s, "&#x27;", "'");
    let s = replace_text(&s, "&#x2F;", "/");
    let s = replace_text(&s, "&#x60;", "`");
    replace_text(&s, "&#x3D;", "=")
}

/// The scan as the program holds it.
struct ScanState {
    output: Vec<char>,
    in_pre: bool,
    in_code: bool,
    skip: bool,
    tag: Vec<char>,
    in_tag: bool,
}

impl ScanState {
    spec fn view(self) -> Scan {
        Scan {
            output: self.output@,
            in_pre: self.in_pre,
            in_code: self.in_code,
            skip: self.skip,
            tag: self.tag@,
            in_tag: self.in_tag,
        }
    }
}

/// Applies a closed tag.
fn close_tag(st: &mut ScanState, tag: &Vec<char>, name: &Vec<char>)
    ensures
        final(st).view() == after_tag(old(st).view(), tag@, name@),
{
    if is_text(name, "script") || is_text(name, "style") {
        st.skip = true;
    } else if is_text(name, "/script") || is_text(name, "/style") {
        st.skip = false;
    } else if is_text(name, "pre") {
        if !st.in_pre {
            st.in_pre = true;
            st.in_code = false;
            push_text(&mut st.output, "\n```\n");
        }
    } else if is_text(name, "/pre") {
        if st.in_pre {
            st.in_pre = false;
            push_text(&mut st.output, "\n```\n");
        }
    } else if is_text(name, "code") {
        if !st.in_pre {
            st.in_code = true;
            st.output.push('`');
        }
    } else if is_text(name, "/code") {
        if !st.in_pre && st.in_code {
            st.in_code = false;
            st.output.push('`');
        }
    } else if is_text(name, "img") {
        match find_attr(tag, "alt") {
            Some(range) => {
                if range.1 > range.0 {
                    let alt = crate::text::copy_range(tag, range.0, range.1);
                    st.output.push('[');
                    push_chars(&mut st.output, &alt);
                    st.output.push(']');
                }
            },
            None => {},
        }
    } else if is_text(name, "p") || is_text(name, "/p") || is_text(name, "br") || is_text(
        name,
        "br/",
    ) {
        st.output.push('\n');
    } else if is_text(name, "h1") || is_text(name, "h2") || is_text(name, "h3") || is_text(
        name,
        "h4",
    ) || is_text(name, "h5") || is_text(name, "h6") {
        st.output.push('\n');
    } else if is_text(name, "/h1") || is_text(name, "/h2") || is_text(name, "/h3") || is_text(
        name,
        "/h4",
    ) || is_text(name, "/h5") || is_text(name, "/h6") {
        st.output.push('\n');
        st.output.push('\n');
    } else if is_text(name, "li") {
        push_text(&mut st.output, "\n- ");
    } else if is_text(name, "td") || is_text(name, "th") {
        push_text(&mut st.output, "  ");
    } else if is_text(name, "/tr") {
        st.output.push('\n');
    }
}

/// Reads one more character.
fn feed(st: &mut ScanState, ch: char)
    ensures
        final(st).view() == step(old(st).view(), ch),
{
    if ch == '<' {
        st.in_tag = true;
        st.tag.clear();
    } else if ch == '>' && st.in_tag {
        st.in_tag = false;
        let trimmed_tag = trim_chars(&st.tag);
        let as_text = from_chars(&trimmed_tag, 0, trimmed_tag.len());
        assert(trimmed_tag@.subrange(0, trimmed_tag.len() as int) =~= trimmed_tag@);
        let tag = to_chars(lower(as_text.as_str()).as_str());
        let name = first_word_of(&tag);
        close_tag(st, &tag, &name);
    } else if st.in_tag {
        st.tag.push(ch);
    } else if !st.skip {
        st.output.push(ch);
    }
}

/// The lines, each followed by a line feed, with no more than two blank
/// lines in a row.
fn collapse(text: &Vec<char>) -> (out: Vec<char>)
    ensures
        out@ == collapsed_from(lines_of(text@), 0, 0),
{
    let ranges = line_ranges(text);
    let ghost lines = lines_of(text@);
    let mut out: Vec<char> = Vec::new();
    let mut blanks: usize = 0;
    let mut i: usize = 0;
    while i < ranges.len()
        invariant
            i <= ranges.len(),
            blanks <= i,
            lines == lines_of(text@),
            ranges@.len() == lines.len(),
            forall|k: int|
                0 <= k < ranges@.len() ==> {
                    &&& (#[trigger] ranges@[k]).0 <= ranges@[k].1 <= text.len()
                    &&& text@.subrange(ranges@[k].0 as int, ranges@[k].1 as int) == lines[k]
                },
            out@ + collapsed_from(lines, i as int, blanks as nat) == collapsed_from(lines, 0, 0),
        decreases ranges.len() - i,
    {
        let (from, to) = ranges[i];
        let ghost before = out@;
        let ghost rest = collapsed_from(lines, i as int, blanks as nat);
        if is_blank(text, from, to) {
            if blanks < 2 {
                out.push('\n');
            }
            blanks += 1;
            assert(out@ + collapsed_from(lines, i + 1, blanks as nat) =~= before + rest);
        } else {
            blanks = 0;
            let line = crate::text::copy_range(text, from, to);
            push_chars(&mut out, &line);
            out.push('\n');
            assert(out@ + collapsed_from(lines, i + 1, 0) =~= before + rest);
        }
        i += 1;
    }
    assert(out@ + Seq::<char>::empty() =~= out@);
    out
}

/// Turns HTML into plain text, keeping its structure where it can:
/// `<pre>` becomes a fenced block and inline `<code>` gets backticks, an
/// image is written as its `alt` text in square brackets, table cells are
/// set apart, what stands inside `<script>` and `<style>` is left out,
/// entities are decoded and runs of blank lines cut to two.
pub fn html_to_text(html: &str) -> (r: String)
    ensures
        r@ == plain_text(html@),
{
    let chars = to_chars(html);
    let mut st = ScanState {
        output: Vec::new(),
        in_pre: false,
        in_code: false,
        skip: false,
        tag: Vec::new(),
        in_tag: false,
    };
    let mut i: usize = 0;
    while i < chars.len()
        invariant
            i <= chars.len(),
            chars@ == html@,
            st.view() == scanned(html@, i as int),
        decreases chars.len() - i,
    {
        feed(&mut st, chars[i]);
        i += 1;
    }
    let text = decode_chars(&st.output);
    let out = collapse(&text);
    let r = from_chars(&out, 0, out.len());
    assert(out@.subrange(0, out.len() as int) =~= out@);
    r
}

} // verus!
