use vstd::prelude::*;
use vstd::string::StringExecFns;
use crate::cratesio::{DownloadsResponse, VersionDownload};
use crate::table::{find_entry, insert_fresh, keys_unique, lemma_position, lookup, put};
use crate::text::{Place, before, place_of, to_chars};

verus! {

/// The date that lies `days` days before `date`, both written
/// `YYYY-MM-DD`; `date` itself where it is no such date or the result is
/// out of range. As `chrono` computes it.
pub uninterp spec fn days_before(date: Seq<char>, days: i64) -> Seq<char>;

/// The date `days` days before `date`. Holds `chrono::NaiveDate`'s
/// `parse_from_str`, `checked_sub_signed` and `format`; the outcome
/// depends on the arguments alone.
#[verifier::external_body]
fn subtract_days(date: &str, days: i64) -> (r: String)
    requires
        -100000 <= days <= 100000,
    ensures
        r@ == days_before(date@, days),
{
    chrono::NaiveDate::parse_from_str(date, "%Y-%m-%d")
        .ok()
        .and_then(|d| d.checked_sub_signed(chrono::Duration::days(days)))
        .map(|d| d.format("%Y-%m-%d").to_string())
        .unwrap_or_else(|| date.to_string())
}

/// The first day of the last thirty: thirty days before `before_date`,
/// or before `today` where none is given.
pub fn cutoff_date(before_date: Option<&str>, today: &str) -> (r: String)
    ensures
        r@ == days_before(
            match before_date {
                Some(d) => d@,
                None => today@,
            },
            30,
        ),
{
    match before_date {
        Some(d) => subtract_days(d, 30),
        None => subtract_days(today, 30),
    }
}

/// The downloads of one version on one day, the version by its number.
#[derive(Debug, Clone)]
pub struct DownloadItem {
    pub version: String,
    pub date: String,
    pub downloads: u64,
}

/// The downloads of a crate summed up: over the last thirty days and
/// over all ninety, by version with the most downloaded first, and day
/// by day.
#[derive(Debug, Clone)]
pub struct DownloadStats {
    pub total_30d: u64,
    pub total_90d: u64,
    pub versions_breakdown: Vec<(String, u64)>,
    pub version_downloads: Vec<DownloadItem>,
}

/// The number of the version with this id, as the first `upto` names
/// tell it, the last of them deciding.
pub open spec fn number_within(names: Seq<(u64, String)>, id: u64, upto: int) -> Option<Seq<char>>
    decreases upto,
{
    if upto <= 0 || upto > names.len() {
        None
    } else if names[upto - 1].0 == id {
        Some(names[upto - 1].1@)
    } else {
        number_within(names, id, upto - 1)
    }
}

/// The number of the version with this id; `?` where no name tells it.
pub open spec fn number_of(names: Seq<(u64, String)>, id: u64) -> Seq<char> {
    match number_within(names, id, names.len() as int) {
        Some(n) => n,
        None => "?"@,
    }
}

/// The downloads of the first `upto` entries together.
pub open spec fn sum_all(entries: Seq<VersionDownload>, upto: int) -> nat
    decreases upto,
{
    if upto <= 0 || upto > entries.len() {
        0
    } else {
        sum_all(entries, upto - 1) + entries[upto - 1].downloads as nat
    }
}

/// The downloads of those of the first `upto` entries whose date is not
/// before `cutoff`.
pub open spec fn sum_since(entries: Seq<VersionDownload>, cutoff: Seq<char>, upto: int) -> nat
    decreases upto,
{
    if upto <= 0 || upto > entries.len() {
        0
    } else {
        sum_since(entries, cutoff, upto - 1) + (if before(entries[upto - 1].date@, cutoff) {
            0nat
        } else {
            entries[upto - 1].downloads as nat
        })
    }
}

/// The downloads of the version numbered `number` among the first `upto`
/// entries; nothing where none of them is of that version.
pub open spec fn sum_for(
    entries: Seq<VersionDownload>,
    names: Seq<(u64, String)>,
    number: Seq<char>,
    upto: int,
) -> Option<nat>
    decreases upto,
{
    if upto <= 0 || upto > entries.len() {
        None
    } else {
        let so_far = sum_for(entries, names, number, upto - 1);
        if number_of(names, entries[upto - 1].version) == number {
            Some(
                (match so_far {
                    Some(n) => n,
                    None => 0nat,
                }) + entries[upto - 1].downloads as nat,
            )
        } else {
            so_far
        }
    }
}

/// What a tally holds under `number`.
pub open spec fn count_under(tally: Seq<(String, u64)>, number: Seq<char>) -> Option<nat> {
    match lookup(tally, number) {
        Some(n) => Some(n as nat),
        None => None,
    }
}

/// The counts do not rise along the tally.
pub open spec fn descending(tally: Seq<(String, u64)>) -> bool {
    forall|k: int| 0 <= k < tally.len() - 1 ==> (#[trigger] tally[k]).1 >= tally[k + 1].1
}

proof fn lemma_sums_bounded(
    entries: Seq<VersionDownload>,
    names: Seq<(u64, String)>,
    cutoff: Seq<char>,
    number: Seq<char>,
    upto: int,
)
    requires
        0 <= upto <= entries.len(),
    ensures
        sum_since(entries, cutoff, upto) <= sum_all(entries, upto),
        sum_for(entries, names, number, upto) is Some ==> sum_for(entries, names, number, upto)->0
            <= sum_all(entries, upto),
        sum_all(entries, upto) <= sum_all(entries, entries.len() as int),
    decreases upto,
{
    if upto > 0 {
        lemma_sums_bounded(entries, names, cutoff, number, upto - 1);
    }
    lemma_grows(entries, entries.len() as int);
}

proof fn lemma_grows(entries: Seq<VersionDownload>, upto: int)
    requires
        0 <= upto <= entries.len(),
    ensures
        forall|k: int| 0 <= k <= upto ==> #[trigger] sum_all(entries, k) <= sum_all(entries, upto),
    decreases upto,
{
    if upto > 0 {
        lemma_grows(entries, upto - 1);
    }
}

/// The number of the version with this id.
pub fn find_number(names: &Vec<(u64, String)>, id: u64) -> (r: String)
    ensures
        r@ == number_of(names@, id),
{
    let mut i: usize = names.len();
    while i > 0
        invariant
            i <= names.len(),
            number_within(names@, id, names@.len() as int) == number_within(names@, id, i as int),
        decreases i,
    {
        if names[i - 1].0 == id {
            return names[i - 1].1.clone();
        }
        i -= 1;
    }
    String::from_str("?")
}

/// Whether the date `a` is not before the date `b`, both written `YYYY-MM-DD`.
pub fn not_before(a: &str, b: &str) -> (r: bool)
    ensures
        r == !before(a@, b@),
{
    match place_of(&to_chars(a), &to_chars(b)) {
        Place::Before => false,
        _ => true,
    }
}

/// The entries of the tally with the highest count first; of equal
/// counts the one that stood first stays first.
fn by_count(tally: &Vec<(String, u64)>) -> (out: Vec<(String, u64)>)
    requires
        keys_unique(tally@),
    ensures
        keys_unique(out@),
        descending(out@),
        out@.len() == tally@.len(),
        forall|k: Seq<char>| lookup(out@, k) == lookup(tally@, k),
{
    let mut out: Vec<(String, u64)> = Vec::new();
    let mut i: usize = 0;
    proof {
        assert forall|k: Seq<char>| lookup(out@, k) is None && (crate::table::position(
            tally@,
            k,
            0,
        ) is Some ==> crate::table::position(tally@, k, 0)->0 >= 0) by {
            lemma_position(tally@, k, 0);
        }
    }
    while i < tally.len()
        invariant
            i <= tally.len(),
            keys_unique(tally@),
            keys_unique(out@),
            descending(out@),
            out@.len() == i,
            forall|k: Seq<char>|
                lookup(out@, k) == (match crate::table::position(tally@, k, 0) {
                    Some(p) => if p < i {
                        Some(tally@[p].1)
                    } else {
                        None
                    },
                    None => None,
                }),
        decreases tally.len() - i,
    {
        let count = tally[i].1;
        let mut p: usize = 0;
        while p < out.len() && out[p].1 >= count
            invariant
                p <= out.len(),
                forall|k: int| 0 <= k < p ==> (#[trigger] out@[k]).1 >= count,
            decreases out.len() - p,
        {
            p += 1;
        }
        let ghost old_out = out@;
        proof {
            crate::table::lemma_unique_lookup(tally@, i as int);
        }
        insert_fresh(&mut out, p, tally[i].0.clone(), count);
        proof {
            assert forall|k: int| 0 <= k < out@.len() - 1 implies (#[trigger] out@[k]).1
                >= out@[k + 1].1 by {
                if k + 1 < p {
                    assert(out@[k] == old_out[k] && out@[k + 1] == old_out[k + 1]);
                } else if k + 1 == p {
                    assert(out@[k] == old_out[k]);
                } else if k == p {
                    assert(out@[k + 1] == old_out[k]);
                } else {
                    assert(out@[k] == old_out[k - 1] && out@[k + 1] == old_out[k]);
                    assert(old_out[k - 1].1 >= old_out[k].1);
                }
            }
            assert forall|k: Seq<char>|
                lookup(out@, k) == (match crate::table::position(tally@, k, 0) {
                    Some(q) => if q < i + 1 {
                        Some(tally@[q].1)
                    } else {
                        None
                    },
                    None => None,
                }) by {
                lemma_position(tally@, k, 0);
            }
        }
        i += 1;
    }
    proof {
        assert forall|k: Seq<char>| lookup(out@, k) == lookup(tally@, k) by {
            lemma_position(tally@, k, 0);
        }
    }
    out
}

/// Sums up the downloads of a crate: in all, since `cutoff`, and by
/// version with the most downloaded first; and lists them day by day with
/// each version's number, `?` where `names` does not tell it.
///
/// Gives nothing where the downloads in all are more than a `u64` holds.
pub fn summarize_downloads(resp: &DownloadsResponse, names: &Vec<(u64, String)>, cutoff: &str) -> (r:
    Option<DownloadStats>)
    ensures
        r is Some <==> sum_all(resp.version_downloads@, resp.version_downloads@.len() as int)
            <= u64::MAX,
        r is Some ==> {
            let stats = r->0;
            let entries = resp.version_downloads@;
            &&& stats.total_90d == sum_all(entries, entries.len() as int)
                &&& stats.total_30d == sum_since(entries, cutoff@, entries.len() as int)
                &&& keys_unique(stats.versions_breakdown@)
                &&& descending(stats.versions_breakdown@)
                &&& forall|number: Seq<char>|
                    count_under(stats.versions_breakdown@, number) == sum_for(
                        entries,
                        names@,
                        number,
                        entries.len() as int,
                    )
                &&& stats.version_downloads@.len() == entries.len()
                &&& forall|k: int|
                    0 <= k < entries.len() ==> {
                        &&& (#[trigger] stats.version_downloads@[k]).version@ == number_of(
                            names@,
                            entries[k].version,
                        )
                        &&& stats.version_downloads@[k].date@ == entries[k].date@
                        &&& stats.version_downloads@[k].downloads == entries[k].downloads
                    }
        },
{
    let entries = &resp.version_downloads;
    let mut total: u64 = 0;
    let mut i: usize = 0;
    while i < entries.len()
        invariant
            i <= entries.len(),
            entries@ == resp.version_downloads@,
            total == sum_all(entries@, i as int),
        decreases entries.len() - i,
    {
        total = match total.checked_add(entries[i].downloads) {
            Some(t) => t,
            None => {
                proof {
                    lemma_grows(entries@, entries@.len() as int);
                    assert(sum_all(entries@, i + 1) == total + entries@[i as int].downloads);
                }
                return None;
            },
        };
        i += 1;
    }
    let mut recent: u64 = 0;
    let mut tally: Vec<(String, u64)> = Vec::new();
    let mut items: Vec<DownloadItem> = Vec::new();
    let mut j: usize = 0;
    while j < entries.len()
        invariant
            j <= entries.len(),
            entries@ == resp.version_downloads@,
            total == sum_all(entries@, entries@.len() as int),
            recent == sum_since(entries@, cutoff@, j as int),
            keys_unique(tally@),
            forall|number: Seq<char>|
                count_under(tally@, number) == sum_for(entries@, names@, number, j as int),
            items@.len() == j,
            forall|k: int|
                0 <= k < j ==> {
                    &&& (#[trigger] items@[k]).version@ == number_of(names@, entries@[k].version)
                    &&& items@[k].date@ == entries@[k].date@
                    &&& items@[k].downloads == entries@[k].downloads
                },
        decreases entries.len() - j,
    {
        let entry = &entries[j];
        let number = find_number(names, entry.version);
        proof {
            lemma_sums_bounded(entries@, names@, cutoff@, number@, j + 1);
            assert(sum_for(entries@, names@, number@, j as int) == count_under(tally@, number@));
        }
        if not_before(entry.date.as_str(), cutoff) {
            recent = recent + entry.downloads;
        }
        let so_far = match find_entry(&tally, number.as_str()) {
            Some(n) => *n,
            None => 0,
        };
        let ghost old_tally = tally@;
        let ghost old_items = items@;
        let count = so_far + entry.downloads;
        put(&mut tally, number.clone(), count);
        assert forall|other: Seq<char>|
            count_under(tally@, other) == sum_for(entries@, names@, other, j + 1) by {
            assert(lookup(tally@, other) == (if other == number@ {
                Some(count)
            } else {
                lookup(old_tally, other)
            }));
            assert(count_under(old_tally, other) == sum_for(entries@, names@, other, j as int));
        }
        items.push(DownloadItem { version: number, date: entry.date.clone(), downloads: entry.downloads });
        assert forall|k: int| 0 <= k < j + 1 implies {
            &&& (#[trigger] items@[k]).version@ == number_of(names@, entries@[k].version)
            &&& items@[k].date@ == entries@[k].date@
            &&& items@[k].downloads == entries@[k].downloads
        } by {
            if k < j {
                assert(items@[k] == old_items[k]);
            }
        }
        j += 1;
    }
    let breakdown = by_count(&tally);
    assert forall|number: Seq<char>|
        count_under(breakdown@, number) == sum_for(
            entries@,
            names@,
            number,
            entries@.len() as int,
        ) by {
        assert(count_under(tally@, number) == sum_for(
            entries@,
            names@,
            number,
            entries@.len() as int,
        ));
    }
    Some(
        DownloadStats {
            total_30d: recent,
            total_90d: total,
            versions_breakdown: breakdown,
            version_downloads: items,
        },
    )
}

} // verus!
