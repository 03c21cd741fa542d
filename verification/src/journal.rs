//! The journal: entries with the time they were written, the names of the
//! files that hold them, the choice of the records that can be read back,
//! and their chronological order.
//!
//! Reading and writing the files is left to the caller. This module names
//! the file for a new record, says which files of the journal directory
//! are records, keeps the records that could be read where some could not,
//! and sorts entries for display.

use crate::text::ends_with;
use crate::time::Timestamp;
use std::fmt::Write;
use vstd::prelude::*;

verus! {

/// One journal entry: what was written, and when.
#[derive(Clone, Debug, PartialEq, Eq)]
pub struct JournalEntry {
    pub timestamp: Timestamp,
    pub content: String,
}

/// The journal store: the directory that holds one file per entry.
pub struct Journal {
    pub path: String,
}

impl Journal {
    /// The journal in the default directory, `journals`.
    pub fn new() -> (journal: Journal)
        ensures
            journal.path@ == "journals"@,
    {
        Journal { path: String::from_str("journals") }
    }
}

impl Default for Journal {
    fn default() -> (journal: Journal)
        ensures
            journal.path@ == "journals"@,
    {
        Journal::new()
    }
}

/// The ending of the name of every record file.
pub open spec fn record_suffix() -> Seq<char> {
    seq!['.', 'j', 's', 'o', 'n']
}

/// Whether a file of this name is a record of the journal: the part of the
/// name after its last dot is `json`, and something stands before that dot.
pub open spec fn is_record_name(name: Seq<char>) -> bool {
    name.len() > record_suffix().len() && record_suffix().is_suffix_of(name)
}

/// Whether the file called `name` in the journal directory is a record.
pub fn is_record_file(name: &str) -> (selected: bool)
    ensures
        selected == is_record_name(name@),
{
    proof {
        reveal_strlit(".json");
    }
    name.unicode_len() > 5 && ends_with(name, ".json")
}

/// The pattern of the key that names a record: year, month, day, hour,
/// minute, second and millisecond, joined by hyphens.
pub const KEY_PATTERN: &'static str = "%Y-%m-%d-%H-%M-%S-%3f";

/// The text that `chrono` gives for a time in UTC under a pattern of its
/// `strftime` kind; `None` for a time that `chrono` cannot represent and
/// for a pattern that it does not accept.
pub uninterp spec fn formatted_time(secs: i64, nanos: u32, pattern: Seq<char>) -> Option<Seq<char>>;

/// The key that names the record written at a time.
pub open spec fn timestamp_key(secs: i64, nanos: u32) -> Option<Seq<char>> {
    formatted_time(secs, nanos, KEY_PATTERN@)
}

/// Formats a time with `chrono`: `DateTime::from_timestamp`, then
/// `DateTime::format` with the pattern, written out as text. The contract
/// gives the text its name and claims nothing else of it.
#[verifier::external_body]
fn format_time(secs: i64, nanos: u32, pattern: &str) -> (text: Option<String>)
    ensures
        text is Some == formatted_time(secs, nanos, pattern@) is Some,
        text matches Some(written) ==> formatted_time(secs, nanos, pattern@) == Some(written@),
{
    let time = chrono::DateTime::from_timestamp(secs, nanos)?;
    let mut written = String::new();
    match write!(written, "{}", time.format(pattern)) {
        Ok(()) => Some(written),
        Err(_) => None,
    }
}

/// The name of the record file with the given key.
pub fn file_name_for_key(key: &str) -> (name: String)
    ensures
        name@ == key@ + record_suffix(),
{
    proof {
        reveal_strlit(".json");
    }
    String::from_str(key).concat(".json")
}

/// The name of the file for a record written at `now`, or `None` where the
/// time is outside what the key can express or the key comes out empty.
/// Every name given is the name of a record, so that what is saved under
/// it is found again when the journal is loaded.
pub fn record_file_name(now: Timestamp) -> (name: Option<String>)
    ensures
        match timestamp_key(now.secs, now.nanos) {
            Some(key) => if key.len() > 0 {
                name matches Some(text) && text@ == key + record_suffix()
            } else {
                name is None
            },
            None => name is None,
        },
        name matches Some(text) ==> is_record_name(text@),
{
    match format_time(now.secs, now.nanos, KEY_PATTERN) {
        Some(key) => {
            if key.as_str().is_empty() {
                None
            } else {
                proof {
                    lemma_named_files_are_records(key@);
                }
                Some(file_name_for_key(key.as_str()))
            }
        },
        None => None,
    }
}

/// Every name made from a key is the name of a record.
pub proof fn lemma_named_files_are_records(key: Seq<char>)
    requires
        key.len() > 0,
    ensures
        is_record_name(key + record_suffix()),
{
    assert(record_suffix().is_suffix_of(key + record_suffix()));
}

/// The entries among `reads`, in order: a record that could not be read
/// is passed over and takes nothing else with it.
pub open spec fn readable(reads: Seq<Option<JournalEntry>>) -> Seq<JournalEntry>
    decreases reads.len(),
{
    if reads.len() == 0 {
        Seq::empty()
    } else {
        match reads.last() {
            Some(entry) => readable(reads.drop_last()).push(entry),
            None => readable(reads.drop_last()),
        }
    }
}

/// The number of records among `reads` that could not be read.
pub open spec fn unreadable(reads: Seq<Option<JournalEntry>>) -> nat
    decreases reads.len(),
{
    if reads.len() == 0 {
        0
    } else {
        match reads.last() {
            Some(_) => unreadable(reads.drop_last()),
            None => unreadable(reads.drop_last()) + 1,
        }
    }
}

/// Every record is either kept or counted as unreadable.
pub proof fn lemma_reads_are_kept_or_counted(reads: Seq<Option<JournalEntry>>)
    ensures
        readable(reads).len() + unreadable(reads) == reads.len(),
    decreases reads.len(),
{
    if reads.len() > 0 {
        lemma_reads_are_kept_or_counted(reads.drop_last());
    }
}

/// Where every record could be read, loading returns all of them, each in
/// its place, and counts none as unreadable.
pub proof fn lemma_readable_records_are_all_kept(reads: Seq<Option<JournalEntry>>)
    requires
        forall|i: int| 0 <= i < reads.len() ==> (#[trigger] reads[i]) is Some,
    ensures
        readable(reads).len() == reads.len(),
        unreadable(reads) == 0,
        forall|i: int| 0 <= i < reads.len() ==> Some(#[trigger] readable(reads)[i]) == reads[i],
    decreases reads.len(),
{
    if reads.len() > 0 {
        lemma_readable_records_are_all_kept(reads.drop_last());
    }
}

/// One unreadable record among readable ones costs exactly itself: the
/// entries before it and after it are all kept, in order.
pub proof fn lemma_unreadable_record_is_isolated(
    before: Seq<Option<JournalEntry>>,
    after: Seq<Option<JournalEntry>>,
)
    ensures
        readable(before + seq![None] + after) == readable(before) + readable(after),
        unreadable(before + seq![None] + after) == unreadable(before) + unreadable(after) + 1,
{
    let gap = seq![None::<JournalEntry>];
    lemma_readable_concat(before, gap);
    lemma_readable_concat(before + gap, after);
    assert(readable(gap) == readable(gap.drop_last()));
    assert(unreadable(gap) == unreadable(gap.drop_last()) + 1);
}

/// Reading two runs of records one after the other keeps what reading each
/// of them keeps.
pub proof fn lemma_readable_concat(
    first: Seq<Option<JournalEntry>>,
    second: Seq<Option<JournalEntry>>,
)
    ensures
        readable(first + second) == readable(first) + readable(second),
        unreadable(first + second) == unreadable(first) + unreadable(second),
    decreases second.len(),
{
    if second.len() > 0 {
        lemma_readable_concat(first, second.drop_last());
        assert((first + second).drop_last() =~= first + second.drop_last());
    }
}

/// What loading the journal yields: the entries that could be read, and
/// the number of records that could not.
pub struct Loaded {
    pub entries: Vec<JournalEntry>,
    pub skipped: usize,
}

/// Gathers the outcome of reading every record file, `None` standing for a
/// record that could not be read: all readable entries are kept, in the
/// order they were read, and the unreadable ones are counted.
pub fn collect_entries(reads: Vec<Option<JournalEntry>>) -> (loaded: Loaded)
    ensures
        loaded.entries@ == readable(reads@),
        loaded.skipped == unreadable(reads@),
{
    let mut entries: Vec<JournalEntry> = Vec::new();
    let mut skipped: usize = 0;
    let ghost all = reads@;
    proof {
        assert(reads.len() == all.len());
    }
    for read in it: reads
        invariant
            it.seq() == all,
            all.len() <= usize::MAX,
            entries@ == readable(all.subrange(0, it.index() as int)),
            skipped == unreadable(all.subrange(0, it.index() as int)),
            skipped <= it.index(),
    {
        proof {
            let next = it.index() as int + 1;
            assert(all.subrange(0, next).drop_last() =~= all.subrange(0, it.index() as int));
        }
        match read {
            Some(entry) => {
                entries.push(entry);
            },
            None => {
                skipped += 1;
            },
        }
    }
    proof {
        assert(all.subrange(0, all.len() as int) =~= all);
    }
    Loaded { entries, skipped }
}

/// Where an entry written at `time` goes into `sorted`: behind every
/// entry that was not written later, so that entries of the same time stay
/// in the order they came in.
pub open spec fn insert_position(sorted: Seq<JournalEntry>, time: Timestamp) -> int
    decreases sorted.len(),
{
    if sorted.len() == 0 {
        0
    } else if time.precedes(sorted.last().timestamp) {
        insert_position(sorted.drop_last(), time)
    } else {
        sorted.len() as int
    }
}

/// The entries in the order of their timestamps, earliest first; entries
/// of the same time keep their order.
pub open spec fn sorted_by_time(entries: Seq<JournalEntry>) -> Seq<JournalEntry>
    decreases entries.len(),
{
    if entries.len() == 0 {
        entries
    } else {
        let earlier = sorted_by_time(entries.drop_last());
        earlier.insert(insert_position(earlier, entries.last().timestamp), entries.last())
    }
}

/// Whether no entry is followed by one that was written before it.
pub open spec fn ascending(entries: Seq<JournalEntry>) -> bool {
    forall|i: int, j: int|
        0 <= i < j < entries.len() ==> !(#[trigger] entries[j]).timestamp.precedes(
            (#[trigger] entries[i]).timestamp,
        )
}

/// The insert position lies within the sequence, every entry from it on
/// was written later than `time`, and the entry before it was not.
pub proof fn lemma_insert_position(sorted: Seq<JournalEntry>, time: Timestamp)
    ensures
        0 <= insert_position(sorted, time) <= sorted.len(),
        forall|k: int|
            insert_position(sorted, time) <= k < sorted.len() ==> time.precedes(
                (#[trigger] sorted[k]).timestamp,
            ),
        insert_position(sorted, time) > 0 ==> !time.precedes(
            sorted[insert_position(sorted, time) - 1].timestamp,
        ),
    decreases sorted.len(),
{
    if sorted.len() > 0 && time.precedes(sorted.last().timestamp) {
        lemma_insert_position(sorted.drop_last(), time);
        let position = insert_position(sorted, time);
        assert forall|k: int| position <= k < sorted.len() implies time.precedes(
            (#[trigger] sorted[k]).timestamp,
        ) by {
            if k < sorted.len() - 1 {
                assert(sorted.drop_last()[k] == sorted[k]);
            }
        }
    }
}

/// Sorting keeps the number of entries and puts them in ascending order.
pub proof fn lemma_sorted_by_time_is_ascending(entries: Seq<JournalEntry>)
    ensures
        sorted_by_time(entries).len() == entries.len(),
        ascending(sorted_by_time(entries)),
    decreases entries.len(),
{
    if entries.len() > 0 {
        lemma_sorted_by_time_is_ascending(entries.drop_last());
        lemma_insert_position(sorted_by_time(entries.drop_last()), entries.last().timestamp);
    }
}

/// Sorting neither drops nor adds nor changes an entry.
pub proof fn lemma_sorted_by_time_is_permutation(entries: Seq<JournalEntry>)
    ensures
        sorted_by_time(entries).to_multiset() == entries.to_multiset(),
    decreases entries.len(),
{
    if entries.len() > 0 {
        let earlier = sorted_by_time(entries.drop_last());
        let entry = entries.last();
        lemma_sorted_by_time_is_permutation(entries.drop_last());
        lemma_insert_position(earlier, entry.timestamp);
        vstd::seq_lib::to_multiset_insert(
            earlier,
            insert_position(earlier, entry.timestamp),
            entry,
        );
        vstd::seq_lib::to_multiset_build(entries.drop_last(), entry);
        assert(entries.drop_last().push(entry) =~= entries);
    }
}

/// Entries that are in ascending order already are left as they are.
pub proof fn lemma_sorted_by_time_keeps_ascending(entries: Seq<JournalEntry>)
    requires
        ascending(entries),
    ensures
        sorted_by_time(entries) == entries,
    decreases entries.len(),
{
    if entries.len() > 0 {
        lemma_sorted_by_time_keeps_ascending(entries.drop_last());
    }
}

/// Sorts the entries by their timestamps, earliest first, for display.
/// Entries of the same time keep their order.
pub fn sort_by_timestamp(entries: &mut Vec<JournalEntry>)
    ensures
        final(entries)@ == sorted_by_time(old(entries)@),
{
    let ghost given = entries@;
    let len = entries.len();
    let mut done: usize = 0;
    while done < len
        invariant
            done <= len,
            len == given.len(),
            entries@.len() == len,
            entries@.subrange(0, done as int) == sorted_by_time(given.subrange(0, done as int)),
            entries@.subrange(done as int, len as int) == given.subrange(
                done as int,
                len as int,
            ),
        decreases len - done,
    {
        let ghost before = entries@;
        let ghost prefix = before.subrange(0, done as int);
        assert(before[done as int] == before.subrange(done as int, len as int)[0]);
        let entry = entries.remove(done);
        assert(prefix.subrange(0, done as int) =~= prefix);
        let mut position: usize = done;
        while position > 0 && entry.timestamp.is_before(&entries[position - 1].timestamp)
            invariant
                position <= done,
                done < len,
                entries@.len() == len - 1,
                entries@.subrange(0, done as int) == prefix,
                insert_position(prefix, entry.timestamp) == insert_position(
                    prefix.subrange(0, position as int),
                    entry.timestamp,
                ),
            decreases position,
        {
            assert(prefix.subrange(0, position as int).drop_last() =~= prefix.subrange(
                0,
                position - 1,
            ));
            position -= 1;
        }
        entries.insert(position, entry);
        done += 1;
        proof {
            assert(given.subrange(0, done as int).drop_last() =~= given.subrange(0, done - 1));
            assert(entries@.subrange(done as int, len as int) =~= given.subrange(
                done as int,
                len as int,
            )) by {
                assert forall|k: int| 0 <= k < len - done implies entries@.subrange(
                    done as int,
                    len as int,
                )[k] == given.subrange(done as int, len as int)[k] by {
                    assert(before.subrange(done - 1, len as int)[k + 1] == given.subrange(
                        done - 1,
                        len as int,
                    )[k + 1]);
                }
            }
        }
    }
    proof {
        assert(given.subrange(0, len as int) =~= given);
    }
}

} // verus!
