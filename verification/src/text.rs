use vstd::prelude::*;

verus! {

/// `needle` stands in `hay` at position `at`.
pub open spec fn occurs_at(hay: Seq<char>, needle: Seq<char>, at: int) -> bool {
    &&& 0 <= at
    &&& at + needle.len() <= hay.len()
    &&& hay.subrange(at, at + needle.len()) == needle
}

/// `hay` begins with `needle`.
pub open spec fn begins_with(hay: Seq<char>, needle: Seq<char>) -> bool {
    occurs_at(hay, needle, 0)
}

/// `hay` ends with `needle`.
pub open spec fn ends_with(hay: Seq<char>, needle: Seq<char>) -> bool {
    occurs_at(hay, needle, hay.len() - needle.len())
}

/// `needle` stands somewhere in `hay`.
pub open spec fn has_sub(hay: Seq<char>, needle: Seq<char>) -> bool {
    exists|at: int| occurs_at(hay, needle, at)
}

/// `at` is the first position at or after `from` where `needle` stands in `hay`.
pub open spec fn first_at(hay: Seq<char>, needle: Seq<char>, from: int, at: int) -> bool {
    &&& from <= at
    &&& occurs_at(hay, needle, at)
    &&& forall|k: int| from <= k < at ==> !occurs_at(hay, needle, k)
}

/// The first position at or after `from` where `needle` stands in `hay`.
pub open spec fn first_occurrence(hay: Seq<char>, needle: Seq<char>, from: int) -> Option<int>
    decreases hay.len() - from + 1,
{
    if from < 0 || from + needle.len() > hay.len() {
        None
    } else if occurs_at(hay, needle, from) {
        Some(from)
    } else {
        first_occurrence(hay, needle, from + 1)
    }
}

/// The parts written one after another with `sep` between neighbours.
pub open spec fn join(parts: Seq<Seq<char>>, sep: Seq<char>) -> Seq<char>
    decreases parts.len(),
{
    if parts.len() == 0 {
        Seq::empty()
    } else if parts.len() == 1 {
        parts[0]
    } else {
        join(parts.drop_last(), sep) + sep + parts.last()
    }
}

/// The views of a list of strings.
pub open spec fn views(list: Seq<String>) -> Seq<Seq<char>> {
    list.map_values(|s: String| s@)
}

/// The characters of a string slice.
pub fn to_chars(s: &str) -> (v: Vec<char>)
    ensures
        v@ == s@,
{
    let mut v: Vec<char> = Vec::new();
    for c in it: s.chars()
        invariant
            it.seq() == s@,
            v@ == it.seq().take(it.index() as int),
    {
        v.push(c);
    }
    v
}

/// Appends one character. Holds `String::push`, which adds `c` at the end
/// and changes nothing before it.
#[verifier::external_body]
pub(crate) fn push_char(s: &mut String, c: char)
    ensures
        final(s)@ == old(s)@.push(c),
{
    s.push(c)
}

/// The string made of the characters `v[from..to]`.
pub fn from_chars(v: &Vec<char>, from: usize, to: usize) -> (s: String)
    requires
        from <= to <= v.len(),
    ensures
        s@ == v@.subrange(from as int, to as int),
{
    let mut s = String::new();
    let mut i: usize = from;
    while i < to
        invariant
            from <= i <= to <= v.len(),
            s@ == v@.subrange(from as int, i as int),
        decreases to - i,
    {
        push_char(&mut s, v[i]);
        assert(v@.subrange(from as int, i + 1) =~= v@.subrange(from as int, i as int).push(
            v@[i as int],
        ));
        i += 1;
    }
    s
}

/// Whether two string slices hold the same characters.
pub fn str_same(a: &str, b: &str) -> (r: bool)
    ensures
        r == (a@ == b@),
{
    let x = a.to_owned();
    let y = b.to_owned();
    x == y
}

/// Whether `needle` stands in `hay` at position `at`.
pub fn chars_match_at(hay: &Vec<char>, needle: &Vec<char>, at: usize) -> (r: bool)
    ensures
        r == occurs_at(hay@, needle@, at as int),
{
    if needle.len() > hay.len() || at > hay.len() - needle.len() {
        return false;
    }
    let mut k: usize = 0;
    while k < needle.len()
        invariant
            k <= needle.len(),
            at + needle.len() <= hay.len(),
            forall|j: int| 0 <= j < k ==> hay@[at + j] == needle@[j],
        decreases needle.len() - k,
    {
        if hay[at + k] != needle[k] {
            return false;
        }
        k += 1;
    }
    assert(hay@.subrange(at as int, at + needle.len()) =~= needle@);
    true
}

/// The first position at or after `from` where `needle` stands in `hay`.
pub fn find_from(hay: &Vec<char>, needle: &Vec<char>, from: usize) -> (r: Option<usize>)
    ensures
        match r {
            Some(at) => first_occurrence(hay@, needle@, from as int) == Some(at as int) && first_at(
                hay@,
                needle@,
                from as int,
                at as int,
            ),
            None => first_occurrence(hay@, needle@, from as int) is None && forall|k: int|
                from <= k ==> !occurs_at(hay@, needle@, k),
        },
{
    if needle.len() > hay.len() || from > hay.len() - needle.len() {
        return None;
    }
    let last: usize = hay.len() - needle.len();
    let mut at: usize = from;
    while at < last
        invariant
            from <= at <= last,
            last == hay.len() - needle.len(),
            needle.len() <= hay.len(),
            forall|k: int| from <= k < at ==> !occurs_at(hay@, needle@, k),
            first_occurrence(hay@, needle@, from as int) == first_occurrence(
                hay@,
                needle@,
                at as int,
            ),
        decreases last - at,
    {
        if chars_match_at(hay, needle, at) {
            return Some(at);
        }
        at += 1;
    }
    if chars_match_at(hay, needle, at) {
        Some(at)
    } else {
        assert(first_occurrence(hay@, needle@, at + 1) is None);
        None
    }
}

/// Whether `hay` begins with `needle`.
pub fn starts_with(hay: &str, needle: &str) -> (r: bool)
    ensures
        r == begins_with(hay@, needle@),
{
    let h = to_chars(hay);
    let n = to_chars(needle);
    chars_match_at(&h, &n, 0)
}

/// Whether `needle` stands somewhere in `hay`.
pub fn contains(hay: &str, needle: &str) -> (r: bool)
    ensures
        r == has_sub(hay@, needle@),
{
    let h = to_chars(hay);
    let n = to_chars(needle);
    find_from(&h, &n, 0).is_some()
}

/// The strings of `parts` written one after another with `sep` between neighbours.
pub fn join_strings(parts: &Vec<String>, sep: &str) -> (s: String)
    ensures
        s@ == join(views(parts@), sep@),
{
    let mut s = String::new();
    let mut i: usize = 0;
    while i < parts.len()
        invariant
            i <= parts.len(),
            s@ == join(views(parts@).take(i as int), sep@),
        decreases parts.len() - i,
    {
        let ghost before = views(parts@).take(i as int);
        let ghost after = views(parts@).take(i + 1);
        assert(after.drop_last() =~= before);
        if i > 0 {
            s.append(sep);
        }
        s.append(parts[i].as_str());
        assert(s@ =~= join(after, sep@));
        i += 1;
    }
    assert(views(parts@).take(parts.len() as int) =~= views(parts@));
    s
}

/// The lower-case form of a text, as `str::to_lowercase` gives it.
pub uninterp spec fn lowercase(s: Seq<char>) -> Seq<char>;

/// Whether a character is white space, as `char::is_whitespace` tells it.
pub uninterp spec fn white(c: char) -> bool;

/// The lower-case form of `s`. Holds `str::to_lowercase`, whose result
/// depends on the text alone.
#[verifier::external_body]
pub(crate) fn lower(s: &str) -> (r: String)
    ensures
        r@ == lowercase(s@),
{
    s.to_lowercase()
}

/// Holds `char::is_whitespace`, which depends on the character alone.
#[verifier::external_body]
pub(crate) fn is_white(c: char) -> (r: bool)
    ensures
        r == white(c),
{
    c.is_whitespace()
}

/// Every character of the text is white space.
pub open spec fn blank(s: Seq<char>) -> bool {
    forall|i: int| 0 <= i < s.len() ==> white(#[trigger] s[i])
}

/// A line without the carriage return that stood before its line feed.
pub open spec fn without_cr(line: Seq<char>) -> Seq<char> {
    if line.len() > 0 && line.last() == '\r' {
        line.drop_last()
    } else {
        line
    }
}

/// The lines of the text that are not yet closed when the scan stands at
/// `pos` and the open line began at `start`: split at line feeds, a carriage
/// return before a line feed dropped with it, and no empty line after a
/// final line feed.
pub open spec fn lines_from(s: Seq<char>, start: int, pos: int) -> Seq<Seq<char>>
    decreases s.len() - pos,
{
    if pos < 0 || start < 0 || start > pos {
        Seq::empty()
    } else if pos >= s.len() {
        if start < s.len() {
            seq![s.subrange(start, s.len() as int)]
        } else {
            Seq::empty()
        }
    } else if s[pos] == '\n' {
        seq![without_cr(s.subrange(start, pos))] + lines_from(s, pos + 1, pos + 1)
    } else {
        lines_from(s, start, pos + 1)
    }
}

/// The lines of a text.
pub open spec fn lines_of(s: Seq<char>) -> Seq<Seq<char>> {
    lines_from(s, 0, 0)
}

/// Whether every character of `v[from..to]` is white space.
pub fn is_blank(v: &Vec<char>, from: usize, to: usize) -> (r: bool)
    requires
        from <= to <= v.len(),
    ensures
        r == blank(v@.subrange(from as int, to as int)),
{
    let mut i: usize = from;
    while i < to
        invariant
            from <= i <= to <= v.len(),
            forall|k: int| from <= k < i ==> white(v@[k]),
        decreases to - i,
    {
        if !is_white(v[i]) {
            assert(v@.subrange(from as int, to as int)[i - from] == v@[i as int]);
            return false;
        }
        i += 1;
    }
    assert forall|k: int| 0 <= k < v@.subrange(from as int, to as int).len() implies white(
        #[trigger] v@.subrange(from as int, to as int)[k],
    ) by {
        assert(v@.subrange(from as int, to as int)[k] == v@[from + k]);
    }
    true
}

/// The lines of a text, each as a range `(start, end)` of `v`.
pub fn line_ranges(v: &Vec<char>) -> (out: Vec<(usize, usize)>)
    ensures
        out@.len() == lines_of(v@).len(),
        forall|i: int|
            0 <= i < out@.len() ==> {
                &&& (#[trigger] out@[i]).0 <= out@[i].1 <= v.len()
                &&& v@.subrange(out@[i].0 as int, out@[i].1 as int) == lines_of(v@)[i]
            },
{
    let mut out: Vec<(usize, usize)> = Vec::new();
    let mut start: usize = 0;
    let mut pos: usize = 0;
    let n = v.len();
    while pos < n
        invariant
            start <= pos <= n,
            n == v.len(),
            lines_of(v@).len() == out@.len() + lines_from(v@, start as int, pos as int).len(),
            forall|i: int|
                0 <= i < out@.len() ==> {
                    &&& (#[trigger] out@[i]).0 <= out@[i].1 <= v.len()
                    &&& v@.subrange(out@[i].0 as int, out@[i].1 as int) == lines_of(v@)[i]
                },
            forall|i: int|
                0 <= i < lines_from(v@, start as int, pos as int).len() ==> lines_of(v@)[out@.len()
                    + i] == #[trigger] lines_from(v@, start as int, pos as int)[i],
        decreases n - pos,
    {
        if v[pos] == '\n' {
            let ghost rest = lines_from(v@, start as int, pos as int);
            let ghost tail = lines_from(v@, pos + 1, pos + 1);
            let ghost done = out@;
            assert(rest =~= seq![without_cr(v@.subrange(start as int, pos as int))] + tail);
            assert(rest[0] == without_cr(v@.subrange(start as int, pos as int)));
            assert forall|i: int| 0 <= i < tail.len() implies lines_of(v@)[done.len() + 1 + i]
                == #[trigger] tail[i] by {
                assert(rest[i + 1] == tail[i]);
            }
            let stop = if pos > start && v[pos - 1] == '\r' {
                assert(v@.subrange(start as int, pos as int).drop_last() =~= v@.subrange(
                    start as int,
                    pos - 1,
                ));
                pos - 1
            } else {
                pos
            };
            out.push((start, stop));
            start = pos + 1;
        }
        pos += 1;
    }
    if start < n {
        let ghost rest = lines_from(v@, start as int, pos as int);
        assert(rest =~= seq![v@.subrange(start as int, n as int)]);
        assert(rest[0] == v@.subrange(start as int, n as int));
        out.push((start, n));
    }
    out
}

/// `a` stands before `b` in the order of strings, comparing from position
/// `i` on: character by character by code point, a proper prefix first.
pub open spec fn before_from(a: Seq<char>, b: Seq<char>, i: int) -> bool
    decreases a.len() - i,
{
    if i < 0 || i >= b.len() {
        false
    } else if i >= a.len() {
        true
    } else if a[i] != b[i] {
        a[i] < b[i]
    } else {
        before_from(a, b, i + 1)
    }
}

/// `a` stands before `b` in the order of strings.
pub open spec fn before(a: Seq<char>, b: Seq<char>) -> bool {
    before_from(a, b, 0)
}

/// Each text stands before all that follow it: ascending, nothing twice.
pub open spec fn ascending(list: Seq<Seq<char>>) -> bool {
    forall|i: int, j: int| 0 <= i < j < list.len() ==> before(#[trigger] list[i], #[trigger] list[j])
}

/// The order of strings is transitive from every position on.
pub proof fn lemma_before_from_transitive(a: Seq<char>, b: Seq<char>, c: Seq<char>, i: int)
    requires
        0 <= i,
        before_from(a, b, i),
        before_from(b, c, i),
    ensures
        before_from(a, c, i),
    decreases a.len() - i,
{
    if i < a.len() && i < b.len() && i < c.len() && a[i] == b[i] && b[i] == c[i] {
        lemma_before_from_transitive(a, b, c, i + 1);
    }
}

/// The order of strings is transitive.
pub proof fn lemma_before_transitive(a: Seq<char>, b: Seq<char>, c: Seq<char>)
    requires
        before(a, b),
        before(b, c),
    ensures
        before(a, c),
{
    lemma_before_from_transitive(a, b, c, 0);
}

/// No text stands before itself from any position on.
pub proof fn lemma_before_from_irreflexive(a: Seq<char>, i: int)
    requires
        0 <= i,
    ensures
        !before_from(a, a, i),
    decreases a.len() - i,
{
    if i < a.len() {
        lemma_before_from_irreflexive(a, i + 1);
    }
}

/// No text stands before itself.
pub proof fn lemma_before_irreflexive(a: Seq<char>)
    ensures
        !before(a, a),
{
    lemma_before_from_irreflexive(a, 0);
}

/// How two texts stand to each other in the order of strings.
#[derive(Debug, Clone, Copy, PartialEq, Eq, Structural)]
pub enum Place {
    Before,
    Same,
    After,
}

/// Compares two texts in the order of strings.
pub fn place_of(a: &Vec<char>, b: &Vec<char>) -> (r: Place)
    ensures
        (r == Place::Before) == before(a@, b@),
        (r == Place::Same) == (a@ == b@),
        (r == Place::After) == before(b@, a@),
{
    let mut i: usize = 0;
    while i < a.len() && i < b.len()
        invariant
            i <= a.len(),
            i <= b.len(),
            forall|k: int| 0 <= k < i ==> a@[k] == b@[k],
            before(a@, b@) == before_from(a@, b@, i as int),
            before(b@, a@) == before_from(b@, a@, i as int),
        decreases a.len() - i,
    {
        if a[i] != b[i] {
            return if a[i] < b[i] {
                Place::Before
            } else {
                Place::After
            };
        }
        i += 1;
    }
    if i < b.len() {
        Place::Before
    } else if i < a.len() {
        Place::After
    } else {
        assert(a@ =~= b@);
        proof {
            lemma_before_irreflexive(a@);
        }
        Place::Same
    }
}

/// The first position at or after `from` that holds no white space, or
/// the length where there is none.
pub open spec fn skip_white(s: Seq<char>, from: int) -> int
    decreases s.len() - from,
{
    if from < 0 || from >= s.len() {
        s.len() as int
    } else if white(s[from]) {
        skip_white(s, from + 1)
    } else {
        from
    }
}

/// The first position at or after `from` that holds white space, or the
/// length where there is none.
pub open spec fn next_white(s: Seq<char>, from: int) -> int
    decreases s.len() - from,
{
    if from < 0 || from >= s.len() {
        s.len() as int
    } else if white(s[from]) {
        from
    } else {
        next_white(s, from + 1)
    }
}

/// The end of the text without the white space that stands last, not
/// before `low`.
pub open spec fn trim_end(s: Seq<char>, low: int, end: int) -> int
    decreases end,
{
    if end <= low || end > s.len() || end <= 0 {
        low
    } else if white(s[end - 1]) {
        trim_end(s, low, end - 1)
    } else {
        end
    }
}

/// The text without the white space at its two ends.
pub open spec fn trimmed(s: Seq<char>) -> Seq<char> {
    let from = skip_white(s, 0);
    s.subrange(from, trim_end(s, from, s.len() as int))
}

/// The first word of the text: its first run of characters that are no
/// white space; empty where there is none.
pub open spec fn first_word(s: Seq<char>) -> Seq<char> {
    let from = skip_white(s, 0);
    s.subrange(from, next_white(s, from))
}

/// The text with every occurrence of `pat` from position `pos` on
/// replaced by `to`, reading from left to right, no occurrence
/// overlapping the one before. An empty `pat` replaces nothing.
pub open spec fn replaced_from(s: Seq<char>, pat: Seq<char>, to: Seq<char>, pos: int) -> Seq<char>
    decreases s.len() - pos,
{
    if pos < 0 || pos >= s.len() {
        Seq::empty()
    } else if pat.len() > 0 && occurs_at(s, pat, pos) {
        to + replaced_from(s, pat, to, pos + pat.len())
    } else {
        seq![s[pos]] + replaced_from(s, pat, to, pos + 1)
    }
}

/// The text with every occurrence of `pat` replaced by `to`.
pub open spec fn replaced(s: Seq<char>, pat: Seq<char>, to: Seq<char>) -> Seq<char> {
    replaced_from(s, pat, to, 0)
}

/// The first position at or after `from` that holds no white space.
pub fn skip_white_at(v: &Vec<char>, from: usize) -> (r: usize)
    requires
        from <= v.len(),
    ensures
        r == skip_white(v@, from as int),
        from <= r <= v.len(),
{
    let mut i: usize = from;
    while i < v.len() && is_white(v[i])
        invariant
            from <= i <= v.len(),
            skip_white(v@, from as int) == skip_white(v@, i as int),
        decreases v.len() - i,
    {
        i += 1;
    }
    i
}

/// The first position at or after `from` that holds white space.
pub fn next_white_at(v: &Vec<char>, from: usize) -> (r: usize)
    requires
        from <= v.len(),
    ensures
        r == next_white(v@, from as int),
        from <= r <= v.len(),
{
    let mut i: usize = from;
    while i < v.len() && !is_white(v[i])
        invariant
            from <= i <= v.len(),
            next_white(v@, from as int) == next_white(v@, i as int),
        decreases v.len() - i,
    {
        i += 1;
    }
    i
}

/// The characters of the text without the white space at its two ends.
pub fn trim_chars(v: &Vec<char>) -> (out: Vec<char>)
    ensures
        out@ == trimmed(v@),
{
    let from = skip_white_at(v, 0);
    let mut end: usize = v.len();
    while end > from && is_white(v[end - 1])
        invariant
            from <= end <= v.len(),
            trim_end(v@, from as int, v.len() as int) == trim_end(v@, from as int, end as int),
        decreases end,
    {
        end -= 1;
    }
    copy_range(v, from, end)
}

/// The characters `v[from..to]`.
pub fn copy_range(v: &Vec<char>, from: usize, to: usize) -> (out: Vec<char>)
    requires
        from <= to <= v.len(),
    ensures
        out@ == v@.subrange(from as int, to as int),
{
    let mut out: Vec<char> = Vec::new();
    let mut i: usize = from;
    while i < to
        invariant
            from <= i <= to <= v.len(),
            out@ == v@.subrange(from as int, i as int),
        decreases to - i,
    {
        out.push(v[i]);
        assert(out@ =~= v@.subrange(from as int, i + 1));
        i += 1;
    }
    out
}

/// The first word of the text.
pub fn first_word_of(v: &Vec<char>) -> (out: Vec<char>)
    ensures
        out@ == first_word(v@),
{
    let from = skip_white_at(v, 0);
    let to = next_white_at(v, from);
    copy_range(v, from, to)
}

/// The text with every occurrence of `pat` replaced by `to`.
pub fn replace_all(s: &Vec<char>, pat: &Vec<char>, to: &Vec<char>) -> (out: Vec<char>)
    ensures
        out@ == replaced(s@, pat@, to@),
{
    let mut out: Vec<char> = Vec::new();
    let mut pos: usize = 0;
    while pos < s.len()
        invariant
            pos <= s.len(),
            out@ + replaced_from(s@, pat@, to@, pos as int) == replaced(s@, pat@, to@),
        decreases s.len() - pos,
    {
        let ghost before = out@;
        if pat.len() > 0 && chars_match_at(s, pat, pos) {
            let mut k: usize = 0;
            while k < to.len()
                invariant
                    k <= to.len(),
                    out@ == before + to@.take(k as int),
                decreases to.len() - k,
            {
                out.push(to[k]);
                assert(out@ =~= before + to@.take(k + 1));
                k += 1;
            }
            assert(to@.take(to.len() as int) =~= to@);
            assert(out@ + replaced_from(s@, pat@, to@, pos + pat.len()) =~= before + replaced_from(
                s@,
                pat@,
                to@,
                pos as int,
            ));
            pos += pat.len();
        } else {
            out.push(s[pos]);
            assert(out@ + replaced_from(s@, pat@, to@, pos + 1) =~= before + replaced_from(
                s@,
                pat@,
                to@,
                pos as int,
            ));
            pos += 1;
        }
    }
    assert(out@ + Seq::<char>::empty() =~= out@);
    out
}

/// The pieces of the text between the occurrences of `sep`, reading from
/// left to right from `pos` on, the open piece having begun at `start`.
/// An empty `sep` splits nothing.
pub open spec fn split_from(s: Seq<char>, sep: Seq<char>, start: int, pos: int) -> Seq<Seq<char>>
    decreases s.len() - pos,
{
    if pos < 0 || start < 0 || start > pos || sep.len() == 0 || pos + sep.len() > s.len() {
        seq![s.subrange(start, s.len() as int)]
    } else if occurs_at(s, sep, pos) {
        seq![s.subrange(start, pos)] + split_from(s, sep, pos + sep.len(), pos + sep.len())
    } else {
        split_from(s, sep, start, pos + 1)
    }
}

/// The pieces of the text between the occurrences of `sep`.
pub open spec fn split(s: Seq<char>, sep: Seq<char>) -> Seq<Seq<char>> {
    split_from(s, sep, 0, 0)
}

/// The pieces of the text between the occurrences of `sep`.
pub fn split_text(s: &str, sep: &str) -> (out: Vec<String>)
    ensures
        views(out@) == split(s@, sep@),
        out@.len() > 0,
{
    let v = to_chars(s);
    let p = to_chars(sep);
    let mut out: Vec<String> = Vec::new();
    assert(views(out@) =~= Seq::empty());
    let mut start: usize = 0;
    let mut pos: usize = 0;
    if p.len() > 0 && p.len() <= v.len() {
        let last: usize = v.len() - p.len();
        while pos <= last
            invariant
                start <= pos <= v.len(),
                last == v.len() - p.len(),
                0 < p.len() <= v.len(),
                views(out@) + split_from(v@, p@, start as int, pos as int) == split(v@, p@),
            decreases v.len() - pos,
        {
            let ghost before = views(out@);
            let ghost rest = split_from(v@, p@, start as int, pos as int);
            if chars_match_at(&v, &p, pos) {
                let piece = from_chars(&v, start, pos);
                out.push(piece);
                assert(views(out@) =~= before.push(v@.subrange(start as int, pos as int)));
                pos += p.len();
                start = pos;
                assert(views(out@) + split_from(v@, p@, start as int, pos as int) =~= before
                    + rest);
            } else {
                pos += 1;
            }
        }
    }
    let ghost before = views(out@);
    let piece = from_chars(&v, start, v.len());
    out.push(piece);
    assert(views(out@) =~= before + split_from(v@, p@, start as int, pos as int));
    out
}

/// Whether the characters are those of `s`.
pub fn is_text(v: &Vec<char>, s: &str) -> (r: bool)
    ensures
        r == (v@ == s@),
{
    let t = to_chars(s);
    if v.len() != t.len() {
        return false;
    }
    let same = chars_match_at(v, &t, 0);
    assert(v@.subrange(0, v.len() as int) =~= v@);
    same
}

/// The last position before `upto` where `needle` stands in `hay`.
pub open spec fn last_occurrence(hay: Seq<char>, needle: Seq<char>, upto: int) -> Option<int>
    decreases upto,
{
    if upto <= 0 {
        None
    } else if occurs_at(hay, needle, upto - 1) {
        Some(upto - 1)
    } else {
        last_occurrence(hay, needle, upto - 1)
    }
}

/// The last position where `needle` stands in `hay`.
pub open spec fn last_of(hay: Seq<char>, needle: Seq<char>) -> Option<int> {
    last_occurrence(hay, needle, hay.len() as int + 1)
}

/// The last position where `needle` stands in `hay`.
pub fn find_last(hay: &Vec<char>, needle: &Vec<char>) -> (r: Option<usize>)
    ensures
        match r {
            Some(at) => last_of(hay@, needle@) == Some(at as int)
                && occurs_at(hay@, needle@, at as int),
            None => last_of(hay@, needle@) is None,
        },
{
    let mut upto: usize = hay.len();
    assert(last_of(hay@, needle@) == (if occurs_at(
        hay@,
        needle@,
        hay@.len() as int,
    ) {
        Some(hay@.len() as int)
    } else {
        last_occurrence(hay@, needle@, hay@.len() as int)
    }));
    if chars_match_at(hay, needle, upto) {
        return Some(upto);
    }
    while upto > 0
        invariant
            upto <= hay.len(),
            last_of(hay@, needle@) == last_occurrence(
                hay@,
                needle@,
                upto as int,
            ),
        decreases upto,
    {
        if chars_match_at(hay, needle, upto - 1) {
            return Some(upto - 1);
        }
        upto -= 1;
    }
    None
}

/// The decimal digit of a number below ten.
pub open spec fn digit(d: u64) -> char {
    ('0' as u8 + d as u8) as char
}

/// The decimal digits of a number, without leading zeros.
pub open spec fn decimal(n: u64) -> Seq<char>
    decreases n,
{
    if n < 10 {
        seq![digit(n)]
    } else {
        decimal(n / 10).push(digit(n % 10))
    }
}

/// The decimal digits of `n`.
pub fn digits(n: u64) -> (r: String)
    ensures
        r@ == decimal(n),
    decreases n,
{
    let last = (('0' as u8) + ((n % 10) as u8)) as char;
    if n < 10 {
        let mut r = String::new();
        push_char(&mut r, last);
        assert(r@ =~= seq![digit(n)]);
        r
    } else {
        let mut r = digits(n / 10);
        push_char(&mut r, last);
        r
    }
}

/// The text of an optional string slice.
pub open spec fn opt_view(s: Option<&str>) -> Option<Seq<char>> {
    match s {
        Some(t) => Some(t@),
        None => None,
    }
}

/// The text of an optional string.
pub open spec fn text_of(s: Option<String>) -> Option<Seq<char>> {
    match s {
        Some(t) => Some(t@),
        None => None,
    }
}

/// The string slice of an optional string.
pub fn as_slice(s: &Option<String>) -> (r: Option<&str>)
    ensures
        opt_view(r) == text_of(*s),
{
    match s {
        Some(t) => Some(t.as_str()),
        None => None,
    }
}

/// A copy of an optional string.
pub fn copy_text(s: &Option<String>) -> (r: Option<String>)
    ensures
        text_of(r) == text_of(*s),
{
    match s {
        Some(t) => Some(t.clone()),
        None => None,
    }
}

} // verus!
