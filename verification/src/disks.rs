//! The I/O counters of ZFS datasets, as the kernel's statistics give
//! them: one text per dataset on Linux, one flat list of named values on
//! FreeBSD.

use crate::text::{
    chars_eq, contains, contains_spec, lines, lines_spec, parse_u64, parse_u64_spec, rsplit_once,
    rsplit_once_spec, slice_views, split_once, split_once_spec, string_from_chars, to_chars,
    trim_start, trim_start_spec,
};
use vstd::prelude::*;

verus! {

/// The bytes read from and written to a device or dataset so far.
#[derive(Debug)]
pub struct IoCounters {
    pub name: String,
    pub read_bytes: u64,
    pub write_bytes: u64,
}

impl IoCounters {
    /// The counters of `name`.
    pub fn new(name: String, read_bytes: u64, write_bytes: u64) -> (counters: IoCounters)
        ensures
            counters.name == name,
            counters.read_bytes == read_bytes,
            counters.write_bytes == write_bytes,
    {
        IoCounters { name, read_bytes, write_bytes }
    }

    /// The counters with the name as a sequence of characters.
    pub open spec fn view_spec(self) -> DatasetCounters {
        DatasetCounters { name: self.name@, nread: self.read_bytes, nwritten: self.write_bytes }
    }
}

/// What the statistics of one dataset say: its name, and the bytes read
/// and written. An empty name stands for a name that is not known.
pub struct DatasetCounters {
    pub name: Seq<char>,
    pub nread: u64,
    pub nwritten: u64,
}

/// The last word of `value`: what stands after the last space of `value`
/// without its leading whitespace. Nothing where there is no space.
pub open spec fn last_word(value: Seq<char>) -> Option<Seq<char>> {
    match rsplit_once_spec(trim_start_spec(value), ' ') {
        Some((_, word)) => Some(word),
        None => None,
    }
}

/// `counters` after one line of the statistics of a dataset. A line has
/// the form `label type value`. The label `dataset_name` sets the name,
/// `nread` and `nwritten` set the counters, where the value is a number;
/// any other line changes nothing.
pub open spec fn after_objset_line(counters: DatasetCounters, line: Seq<char>) -> DatasetCounters {
    match split_once_spec(line, ' ') {
        Some((label, value)) => match last_word(value) {
            Some(word) => if label == "dataset_name"@ {
                DatasetCounters { name: word, ..counters }
            } else if label == "nwritten"@ {
                match parse_u64_spec(word) {
                    Some(number) => DatasetCounters { nwritten: number, ..counters },
                    None => counters,
                }
            } else if label == "nread"@ {
                match parse_u64_spec(word) {
                    Some(number) => DatasetCounters { nread: number, ..counters },
                    None => counters,
                }
            } else {
                counters
            },
            None => counters,
        },
        None => counters,
    }
}

/// `counters` after the lines `lines`, read in order. A label that comes
/// again replaces what it set before.
pub open spec fn after_objset_lines(counters: DatasetCounters, lines: Seq<Seq<char>>) -> DatasetCounters
    decreases lines.len(),
{
    if lines.len() == 0 {
        counters
    } else {
        after_objset_line(after_objset_lines(counters, lines.drop_last()), lines.last())
    }
}

/// A dataset of which nothing is known yet.
pub open spec fn no_counters() -> DatasetCounters {
    DatasetCounters { name: Seq::empty(), nread: 0, nwritten: 0 }
}

/// The counters that the statistics `contents` of a dataset give; nothing
/// where they do not name the dataset.
pub open spec fn objset_counters(contents: Seq<char>) -> Option<DatasetCounters> {
    let counters = after_objset_lines(no_counters(), lines_spec(contents));
    if counters.name.len() > 0 {
        Some(counters)
    } else {
        None
    }
}

/// Reads the statistics `contents` of one dataset.
pub fn parse_objset(contents: &str) -> (found: Option<IoCounters>)
    ensures
        match found {
            Some(counters) => objset_counters(contents@) == Some(counters.view_spec()),
            None => objset_counters(contents@) is None,
        },
{
    let chars = to_chars(contents);
    let all = lines(chars.as_slice());
    let dataset_name = to_chars("dataset_name");
    let nwritten_label = to_chars("nwritten");
    let nread_label = to_chars("nread");
    let mut nread: u64 = 0;
    let mut nwritten: u64 = 0;
    let mut ds_name: &[char] = slice_empty(chars.as_slice());
    let mut i: usize = 0;
    assert(slice_views(all@).take(0) =~= Seq::empty());
    while i < all.len()
        invariant
            i <= all.len(),
            slice_views(all@) == lines_spec(contents@),
            dataset_name@ == "dataset_name"@,
            nwritten_label@ == "nwritten"@,
            nread_label@ == "nread"@,
            (DatasetCounters { name: ds_name@, nread, nwritten }) == after_objset_lines(
                no_counters(),
                slice_views(all@).take(i as int),
            ),
        decreases all.len() - i,
    {
        proof {
            let seen = slice_views(all@).take(i + 1);
            assert(seen.drop_last() =~= slice_views(all@).take(i as int));
            assert(seen.last() == all@[i as int]@);
        }
        let line = all[i];
        i += 1;
        let (label, value) = match split_once(line, ' ') {
            Some(parts) => parts,
            None => {
                continue ;
            },
        };
        let word = match rsplit_once(trim_start(value), ' ') {
            Some((_type, word)) => word,
            None => {
                continue ;
            },
        };
        if chars_eq(label, dataset_name.as_slice()) {
            ds_name = word;
        } else if chars_eq(label, nwritten_label.as_slice()) {
            match parse_u64(word) {
                Some(number) => {
                    nwritten = number;
                },
                None => {},
            }
        } else if chars_eq(label, nread_label.as_slice()) {
            match parse_u64(word) {
                Some(number) => {
                    nread = number;
                },
                None => {},
            }
        }
    }
    assert(slice_views(all@).take(i as int) =~= slice_views(all@));
    if ds_name.len() > 0 {
        Some(IoCounters::new(string_from_chars(ds_name), nread, nwritten))
    } else {
        None
    }
}

/// The empty slice at the head of `s`.
fn slice_empty<'a>(s: &'a [char]) -> (empty: &'a [char])
    ensures
        empty@ == Seq::<char>::empty(),
{
    let empty = vstd::slice::slice_subrange(s, 0, 0);
    assert(empty@ =~= Seq::<char>::empty());
    empty
}

/// A list of counters with the names as sequences of characters.
pub open spec fn counters_views(list: Seq<IoCounters>) -> Seq<DatasetCounters> {
    Seq::new(list.len(), |i: int| list[i].view_spec())
}

/// The counters that the statistics `datasets` give, in order, where
/// nothing stands for statistics that could not be read. Statistics that
/// name no dataset give no counters.
pub open spec fn dataset_list(datasets: Seq<Option<String>>) -> Seq<DatasetCounters>
    decreases datasets.len(),
{
    if datasets.len() == 0 {
        Seq::empty()
    } else {
        let rest = dataset_list(datasets.drop_last());
        match datasets.last() {
            Some(contents) => match objset_counters(contents@) {
                Some(counters) => rest.push(counters),
                None => rest,
            },
            None => rest,
        }
    }
}

/// Whether `name` is the name of the statistics of a dataset.
pub fn is_objset_name(name: &str) -> (is_objset: bool)
    ensures
        is_objset == contains_spec(name@, "objset-"@),
{
    contains(to_chars(name).as_slice(), to_chars("objset-").as_slice())
}

/// The I/O counters of the datasets whose statistics are `datasets`,
/// where nothing stands for statistics that could not be read.
pub fn zfs_io_stats(datasets: &Vec<Option<String>>) -> (results: Vec<IoCounters>)
    ensures
        counters_views(results@) == dataset_list(datasets@),
{
    let mut results: Vec<IoCounters> = Vec::new();
    let mut i: usize = 0;
    assert(datasets@.take(0) =~= Seq::empty());
    assert(counters_views(results@) =~= Seq::empty());
    while i < datasets.len()
        invariant
            i <= datasets.len(),
            counters_views(results@) == dataset_list(datasets@.take(i as int)),
        decreases datasets.len() - i,
    {
        proof {
            assert(datasets@.take(i + 1).drop_last() =~= datasets@.take(i as int));
            assert(datasets@.take(i + 1).last() == datasets@[i as int]);
        }
        match &datasets[i] {
            Some(contents) => {
                match parse_objset(contents.as_str()) {
                    Some(counters) => {
                        let ghost before = counters_views(results@);
                        results.push(counters);
                        assert(counters_views(results@) =~= before.push(counters.view_spec()));
                    },
                    None => {},
                }
            },
            None => {},
        }
        i += 1;
    }
    assert(datasets@.take(i as int) =~= datasets@);
    results
}

/// One named value of the kernel's statistics, as far as it could be
/// read.
pub struct CtlEntry {
    /// The name of the value; nothing if it could not be told.
    pub name: Option<String>,
    /// The value as text; nothing if it could not be read.
    pub value_string: Option<String>,
    /// The value as a number; nothing if it could not be read, or is no
    /// unsigned number of 64 bits.
    pub value_u64: Option<u64>,
}

/// Whether a value of the name `name` belongs to the counters of a
/// dataset.
pub open spec fn is_dataset_value(name: Seq<char>) -> bool {
    contains_spec(name, "objset-"@) && (contains_spec(name, "dataset_name"@) || contains_spec(
        name,
        "nwritten"@,
    ) || contains_spec(name, "nread"@))
}

/// How far a list of named values has been read: the counters of the
/// dataset at hand, which of them have been met, the datasets that are
/// complete, and whether a name could not be read, which ends it all.
pub struct CtlScan {
    pub current: DatasetCounters,
    pub read: bool,
    pub written: bool,
    pub results: Seq<DatasetCounters>,
    pub failed: bool,
}

/// A list of which nothing has been read yet.
pub open spec fn no_scan() -> CtlScan {
    CtlScan {
        current: no_counters(),
        read: false,
        written: false,
        results: Seq::empty(),
        failed: false,
    }
}

/// `scan` once the value `entry`, of the name `name`, is taken in. The
/// name of a dataset must be readable. A counter that cannot be read
/// counts as met, and keeps the number it had.
pub open spec fn with_value(scan: CtlScan, name: Seq<char>, entry: CtlEntry) -> CtlScan {
    if contains_spec(name, "dataset_name"@) {
        match entry.value_string {
            Some(value) => CtlScan {
                current: DatasetCounters { name: value@, ..scan.current },
                ..scan
            },
            None => CtlScan { failed: true, ..scan },
        }
    } else if contains_spec(name, "nread"@) {
        CtlScan {
            current: DatasetCounters {
                nread: match entry.value_u64 {
                    Some(number) => number,
                    None => scan.current.nread,
                },
                ..scan.current
            },
            read: true,
            ..scan
        }
    } else if contains_spec(name, "nwritten"@) {
        CtlScan {
            current: DatasetCounters {
                nwritten: match entry.value_u64 {
                    Some(number) => number,
                    None => scan.current.nwritten,
                },
                ..scan.current
            },
            written: true,
            ..scan
        }
    } else {
        scan
    }
}

/// `scan` with the dataset at hand moved to the complete ones, if both
/// of its counters have been met and its name is known.
pub open spec fn completed(scan: CtlScan) -> CtlScan {
    if !scan.failed && scan.read && scan.written && scan.current.name.len() > 0 {
        CtlScan {
            current: no_counters(),
            read: false,
            written: false,
            results: scan.results.push(scan.current),
            failed: false,
        }
    } else {
        scan
    }
}

/// `scan` after the value `entry`. A value without a name, or with a name
/// that is not of a dataset, is passed over; so is every value once a
/// name could not be read.
pub open spec fn after_ctl(scan: CtlScan, entry: CtlEntry) -> CtlScan {
    if scan.failed {
        scan
    } else {
        match entry.name {
            Some(name) => if is_dataset_value(name@) {
                completed(with_value(scan, name@, entry))
            } else {
                scan
            },
            None => scan,
        }
    }
}

/// `scan` after the values `entries`, in order.
pub open spec fn after_ctls(scan: CtlScan, entries: Seq<CtlEntry>) -> CtlScan
    decreases entries.len(),
{
    if entries.len() == 0 {
        scan
    } else {
        after_ctl(after_ctls(scan, entries.drop_last()), entries.last())
    }
}

/// The I/O counters of the datasets that the named values `ctls`
/// describe. A dataset is complete once its name and both of its
/// counters have come by. Nothing is returned if the name of a dataset
/// could not be read.
pub fn zfs_io_stats_from_ctls(ctls: &Vec<CtlEntry>) -> (found: Option<Vec<IoCounters>>)
    ensures
        match found {
            Some(results) => {
                &&& !after_ctls(no_scan(), ctls@).failed
                &&& counters_views(results@) == after_ctls(no_scan(), ctls@).results
            },
            None => after_ctls(no_scan(), ctls@).failed,
        },
{
    let objset = to_chars("objset-");
    let dataset_name = to_chars("dataset_name");
    let nwritten_label = to_chars("nwritten");
    let nread_label = to_chars("nread");
    let mut results: Vec<IoCounters> = Vec::new();
    let mut nread: u64 = 0;
    let mut nwrite: u64 = 0;
    let mut ds_name = String::new();
    let mut read = false;
    let mut written = false;
    let mut i: usize = 0;
    assert(ctls@.take(0) =~= Seq::empty());
    assert(counters_views(results@) =~= Seq::empty());
    while i < ctls.len()
        invariant
            i <= ctls.len(),
            objset@ == "objset-"@,
            dataset_name@ == "dataset_name"@,
            nwritten_label@ == "nwritten"@,
            nread_label@ == "nread"@,
            after_ctls(no_scan(), ctls@.take(i as int)) == (CtlScan {
                current: DatasetCounters { name: ds_name@, nread, nwritten: nwrite },
                read,
                written,
                results: counters_views(results@),
                failed: false,
            }),
        decreases ctls.len() - i,
    {
        proof {
            assert(ctls@.take(i + 1).drop_last() =~= ctls@.take(i as int));
            assert(ctls@.take(i + 1).last() == ctls@[i as int]);
        }
        let entry = &ctls[i];
        i += 1;
        let name = match &entry.name {
            Some(name) => to_chars(name.as_str()),
            None => {
                continue ;
            },
        };
        let is_name = contains(name.as_slice(), dataset_name.as_slice());
        let is_read = contains(name.as_slice(), nread_label.as_slice());
        let is_written = contains(name.as_slice(), nwritten_label.as_slice());
        if !(contains(name.as_slice(), objset.as_slice()) && (is_name || is_written || is_read)) {
            continue ;
        }
        if is_name {
            match &entry.value_string {
                Some(value) => {
                    ds_name = value.clone();
                },
                None => {
                    proof {
                        lemma_failed_stays(
                            after_ctls(no_scan(), ctls@.take(i as int)),
                            ctls@.skip(i as int),
                        );
                        lemma_after_ctls_split(no_scan(), ctls@, i as int);
                    }
                    return None;
                },
            }
        } else if is_read {
            match entry.value_u64 {
                Some(number) => {
                    nread = number;
                },
                None => {},
            }
            read = true;
        } else if is_written {
            match entry.value_u64 {
                Some(number) => {
                    nwrite = number;
                },
                None => {},
            }
            written = true;
        }
        if read && written && ds_name.as_str().unicode_len() > 0 {
            let ghost before = counters_views(results@);
            let counters = IoCounters::new(ds_name, nread, nwrite);
            results.push(counters);
            assert(counters_views(results@) =~= before.push(counters.view_spec()));
            written = false;
            read = false;
            nread = 0;
            nwrite = 0;
            ds_name = String::new();
        }
    }
    assert(ctls@.take(i as int) =~= ctls@);
    Some(results)
}

/// Once a name could not be read, no further value changes anything.
pub proof fn lemma_failed_stays(scan: CtlScan, entries: Seq<CtlEntry>)
    requires
        scan.failed,
    ensures
        after_ctls(scan, entries) == scan,
    decreases entries.len(),
{
    if entries.len() > 0 {
        lemma_failed_stays(scan, entries.drop_last());
    }
}

/// Reading a list of values is reading its first `k`, and then the rest.
pub proof fn lemma_after_ctls_split(scan: CtlScan, entries: Seq<CtlEntry>, k: int)
    requires
        0 <= k <= entries.len(),
    ensures
        after_ctls(scan, entries) == after_ctls(after_ctls(scan, entries.take(k)), entries.skip(k)),
    decreases entries.len(),
{
    if k == entries.len() {
        assert(entries.take(k) =~= entries);
        assert(entries.skip(k) =~= Seq::empty());
    } else {
        lemma_after_ctls_split(scan, entries.drop_last(), k);
        assert(entries.drop_last().take(k) =~= entries.take(k));
        assert(entries.drop_last().skip(k) =~= entries.skip(k).drop_last());
        assert(entries.skip(k).last() == entries.last());
    }
}

} // verus!
