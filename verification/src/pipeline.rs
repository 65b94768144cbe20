//! The enumeration pipeline: reads a kernel text source, parses each
//! line into a typed record in order, and optionally drops records
//! whose device the filesystem probe does not classify as physical
//! storage.

use vstd::prelude::*;

use crate::counters::{line_error_kind, line_parses, record_matches_line, IoCounters};
use crate::errors::{Error, ErrorKind};
use crate::parse::{split_into_lines, split_lines};
use crate::source::read_source;

verus! {

/// Whether each record of `rs` holds the values of the corresponding
/// line of `ls`: one record per line, in source order.
pub open spec fn records_match_lines(rs: Seq<IoCounters>, ls: Seq<Seq<char>>) -> bool {
    &&& rs.len() == ls.len()
    &&& forall|i: int|
        0 <= i < ls.len() ==> line_parses(ls[i]) && record_matches_line(#[trigger] rs[i], ls[i])
}

/// Parses every line of a kernel disk counter table, in order.
///
/// Succeeds exactly when every line is well formed, and then yields one
/// record per line; the first malformed line's error is the whole
/// enumeration's failure, and no partial results are returned.
pub fn parse_records(lines: &Vec<String>) -> (r: Result<Vec<IoCounters>, Error>)
    ensures
        ({
            let ls = lines.deep_view();
            &&& (r matches Ok(v) ==> records_match_lines(v@, ls))
            &&& ((forall|i: int| 0 <= i < ls.len() ==> line_parses(#[trigger] ls[i])) ==> r is Ok)
            &&& (r matches Err(e) ==> exists|i: int|
                0 <= i < ls.len() && !line_parses(#[trigger] ls[i]) && (forall|j: int|
                    0 <= j < i ==> line_parses(#[trigger] ls[j])) && e.spec_kind()
                    == line_error_kind(ls[i]))
        }),
{
    let n = lines.len();
    let mut out: Vec<IoCounters> = Vec::new();
    let mut i: usize = 0;
    while i < n
        invariant
            n == lines@.len(),
            i <= n,
            out@.len() == i,
            forall|j: int|
                0 <= j < i ==> line_parses(#[trigger] lines.deep_view()[j])
                    && record_matches_line(out@[j], lines.deep_view()[j]),
        decreases n - i,
    {
        match IoCounters::from_str(lines[i].as_str()) {
            Ok(rec) => {
                proof {
                    assert(lines.deep_view()[i as int] == lines@[i as int]@);
                }
                out.push(rec);
            },
            Err(e) => {
                proof {
                    let ls = lines.deep_view();
                    assert(ls[i as int] == lines@[i as int]@);
                    assert(!line_parses(ls[i as int]));
                    assert(forall|j: int| 0 <= j < i as int ==> line_parses(#[trigger] ls[j]));
                }
                return Err(e);
            },
        }
        i = i + 1;
    }
    Ok(out)
}

/// A lazy, single-pass enumeration of the records of one kernel text
/// source: the source is read whole when the enumeration is opened,
/// and each line is parsed on demand as the enumeration is consumed.
/// It is finite and not restartable: after the lines are exhausted, or
/// after the first parse failure, every later element is `None`.
pub struct CounterStream {
    lines: Vec<String>,
    pos: usize,
    stopped: bool,
}

impl CounterStream {
    /// The lines of the source, fixed when the enumeration was opened.
    pub closed spec fn spec_lines(&self) -> Seq<Seq<char>> {
        self.lines.deep_view()
    }

    /// How many lines have been consumed.
    pub closed spec fn spec_pos(&self) -> int {
        self.pos as int
    }

    /// Whether the enumeration has ended, by exhaustion or failure.
    pub closed spec fn spec_stopped(&self) -> bool {
        self.stopped
    }

    /// The cursor never leaves the lines.
    pub open spec fn wf(&self) -> bool {
        0 <= self.spec_pos() <= self.spec_lines().len()
    }

    /// An enumeration over lines already in hand.
    pub fn from_lines(lines: Vec<String>) -> (en: CounterStream)
        ensures
            en.wf(),
            en.spec_lines() == lines.deep_view(),
            en.spec_pos() == 0,
            !en.spec_stopped(),
    {
        CounterStream { lines, pos: 0, stopped: false }
    }

    /// Opens the kernel text source at `path`. The source is read and
    /// released here; parsing is left to [`CounterStream::next`].
    pub fn open(path: &str) -> (r: Result<CounterStream, Error>)
        ensures
            r matches Ok(en) ==> (en.wf() && en.spec_pos() == 0 && !en.spec_stopped()),
            r matches Err(e) ==> (e.spec_kind() == ErrorKind::Io || e.spec_kind()
                == ErrorKind::FromUtf8),
    {
        match read_source(path) {
            Ok(text) => Ok(CounterStream::from_lines(split_into_lines(text.as_str()))),
            Err(e) => Err(e),
        }
    }

    /// The next element: the parse of the line at the cursor, exactly
    /// as [`IoCounters::from_str`] decides it. `None` once the lines
    /// are exhausted or a parse has failed; a failure ends the
    /// enumeration, so no element follows it.
    pub fn next(&mut self) -> (r: Option<Result<IoCounters, Error>>)
        requires
            old(self).wf(),
        ensures
            final(self).wf(),
            final(self).spec_lines() == old(self).spec_lines(),
            (r is None) <==> (old(self).spec_stopped() || old(self).spec_pos() == old(self).spec_lines().len()),
            r is None ==> (final(self).spec_stopped() && final(self).spec_pos() == old(self).spec_pos()),
            r matches Some(item) ==> ({
                let line = old(self).spec_lines()[old(self).spec_pos()];
                &&& final(self).spec_pos() == old(self).spec_pos() + 1
                &&& (line_parses(line) ==> (item matches Ok(rec) && record_matches_line(rec, line)
                    && !final(self).spec_stopped()))
                &&& (!line_parses(line) ==> (item matches Err(e) && e.spec_kind()
                    == line_error_kind(line) && final(self).spec_stopped()))
            }),
    {
        if self.stopped || self.pos == self.lines.len() {
            self.stopped = true;
            return None;
        }
        proof {
            assert(self.lines.deep_view()[self.pos as int] == self.lines@[self.pos as int]@);
        }
        let parsed = IoCounters::from_str(self.lines[self.pos].as_str());
        self.pos = self.pos + 1;
        match parsed {
            Ok(rec) => Some(Ok(rec)),
            Err(e) => {
                self.stopped = true;
                Some(Err(e))
            },
        }
    }
}

/// Whether `m` maps each position of `a` to the strictly increasing
/// position in `b` where the same element stands.
pub open spec fn subsequence_map<T>(m: Seq<int>, a: Seq<T>, b: Seq<T>) -> bool {
    &&& m.len() == a.len()
    &&& (forall|i: int| 0 <= i < m.len() ==> 0 <= #[trigger] m[i] < b.len() && a[i] == b[m[i]])
    &&& (forall|i: int, j: int| 0 <= i < j < m.len() ==> m[i] < m[j])
}

/// Whether `a` is `b` with zero or more elements removed: every element
/// of `a` appears in `b`, at strictly increasing positions.
pub open spec fn is_subsequence<T>(a: Seq<T>, b: Seq<T>) -> bool {
    exists|m: Seq<int>| subsequence_map(m, a, b)
}

/// Law: a filtered sequence is a subsequence of the original: filtering
/// only removes elements and keeps the survivors' relative order.
pub proof fn lemma_filter_is_subsequence<T>(s: Seq<T>, p: spec_fn(T) -> bool)
    ensures
        is_subsequence(s.filter(p), s),
    decreases s.len(),
{
    reveal(Seq::filter);
    if s.len() == 0 {
        let m = Seq::<int>::empty();
        assert(s.filter(p) =~= Seq::<T>::empty());
        assert(subsequence_map(m, s.filter(p), s));
    } else {
        let t = s.drop_last();
        lemma_filter_is_subsequence(t, p);
        let m0 = choose|m: Seq<int>| subsequence_map(m, t.filter(p), t);
        if p(s.last()) {
            let m1 = m0.push(s.len() - 1);
            assert(s.filter(p) == t.filter(p).push(s.last()));
            assert forall|i: int| 0 <= i < m1.len() implies 0 <= #[trigger] m1[i] < s.len()
                && s.filter(p)[i] == s[m1[i]] by {
                if i < m0.len() {
                    assert(t.filter(p)[i] == t[m0[i]]);
                }
            }
            assert(subsequence_map(m1, s.filter(p), s));
        } else {
            assert(s.filter(p) == t.filter(p));
            assert forall|i: int| 0 <= i < m0.len() implies 0 <= #[trigger] m0[i] < s.len()
                && s.filter(p)[i] == s[m0[i]] by {
                assert(t.filter(p)[i] == t[m0[i]]);
            }
            assert(subsequence_map(m0, s.filter(p), s));
        }
    }
}

/// Law: filtering is idempotent: filtering a sequence twice by one
/// predicate yields the same sequence as filtering it once.
pub proof fn lemma_filter_idempotent<T>(s: Seq<T>, p: spec_fn(T) -> bool)
    ensures
        s.filter(p).filter(p) == s.filter(p),
    decreases s.len(),
{
    reveal(Seq::filter);
    if s.len() == 0 {
        assert(s.filter(p) =~= s);
    } else {
        let t = s.drop_last();
        lemma_filter_idempotent(t, p);
        if p(s.last()) {
            let u = t.filter(p).push(s.last());
            assert(s.filter(p) == u);
            assert(u.drop_last() =~= t.filter(p));
            assert(u.last() == s.last());
            assert(u.filter(p) == t.filter(p).filter(p).push(s.last()));
        } else {
            assert(s.filter(p) == t.filter(p));
        }
    }
}

/// The records kept by per-record probe answers: the record at each
/// position stays exactly when `keep` is true there, in order.
pub open spec fn kept_records(rs: Seq<IoCounters>, keep: Seq<bool>) -> Seq<IoCounters>
    recommends
        rs.len() == keep.len(),
    decreases rs.len(),
{
    if rs.len() == 0 {
        Seq::empty()
    } else {
        let rest = kept_records(rs.drop_last(), keep.drop_last());
        if keep.len() > 0 && keep.last() {
            rest.push(rs.last())
        } else {
            rest
        }
    }
}

/// Law: a keep-selection is a subsequence of what it selects from.
pub proof fn lemma_kept_records_subsequence(rs: Seq<IoCounters>, keep: Seq<bool>)
    requires
        rs.len() == keep.len(),
    ensures
        is_subsequence(kept_records(rs, keep), rs),
    decreases rs.len(),
{
    if rs.len() == 0 {
        assert(subsequence_map(Seq::<int>::empty(), kept_records(rs, keep), rs));
    } else {
        let t = rs.drop_last();
        let kt = keep.drop_last();
        lemma_kept_records_subsequence(t, kt);
        let m0 = choose|m: Seq<int>| subsequence_map(m, kept_records(t, kt), t);
        if keep.last() {
            let m1 = m0.push(rs.len() - 1);
            assert(kept_records(rs, keep) == kept_records(t, kt).push(rs.last()));
            assert forall|i: int| 0 <= i < m1.len() implies 0 <= #[trigger] m1[i] < rs.len()
                && kept_records(rs, keep)[i] == rs[m1[i]] by {
                if i < m0.len() {
                    assert(kept_records(t, kt)[i] == t[m0[i]]);
                }
            }
            assert(subsequence_map(m1, kept_records(rs, keep), rs));
        } else {
            assert(kept_records(rs, keep) == kept_records(t, kt));
            assert forall|i: int| 0 <= i < m0.len() implies 0 <= #[trigger] m0[i] < rs.len()
                && kept_records(rs, keep)[i] == rs[m0[i]] by {
                assert(kept_records(t, kt)[i] == t[m0[i]]);
            }
            assert(subsequence_map(m0, kept_records(rs, keep), rs));
        }
    }
}

/// Law: when the probe's answers follow one predicate, the filter
/// stage computes exactly that predicate's filter — so, with the
/// idempotence law, filtering twice under a stable probe yields the
/// same sequence as filtering once.
pub proof fn lemma_kept_records_filter(
    rs: Seq<IoCounters>,
    keep: Seq<bool>,
    p: spec_fn(IoCounters) -> bool,
)
    requires
        rs.len() == keep.len(),
        forall|i: int| 0 <= i < rs.len() ==> keep[i] == p(#[trigger] rs[i]),
    ensures
        kept_records(rs, keep) == rs.filter(p),
    decreases rs.len(),
{
    reveal(Seq::filter);
    if rs.len() > 0 {
        let t = rs.drop_last();
        let kt = keep.drop_last();
        assert(forall|i: int| 0 <= i < t.len() ==> kt[i] == p(#[trigger] t[i]));
        lemma_kept_records_filter(t, kt, p);
        assert(keep.last() == p(rs.last()));
    }
}

/// The pure filter stage: keeps exactly the records whose probe answer
/// is true, in order. One answer per record.
pub fn apply_filter(records: Vec<IoCounters>, keep: &Vec<bool>) -> (r: Vec<IoCounters>)
    requires
        records@.len() == keep@.len(),
    ensures
        r@ == kept_records(records@, keep@),
{
    let ghost full = records@;
    let mut src = records;
    let mut out: Vec<IoCounters> = Vec::new();
    let mut i: usize = 0;
    let total = src.len();
    proof {
        assert(src@ =~= full.skip(0));
        assert(full.take(0) =~= Seq::<IoCounters>::empty());
        assert(keep@.take(0) =~= Seq::<bool>::empty());
    }
    while i < total
        invariant
            full.len() == total,
            keep@.len() == total,
            i <= total,
            src@ == full.skip(i as int),
            out@ == kept_records(full.take(i as int), keep@.take(i as int)),
        decreases total - i,
    {
        let rec = src.remove(0);
        proof {
            assert(full.skip(i as int)[0] == full[i as int]);
            assert(src@ =~= full.skip(i as int + 1));
            assert(full.take(i as int + 1).drop_last() =~= full.take(i as int));
            assert(keep@.take(i as int + 1).drop_last() =~= keep@.take(i as int));
            assert(full.take(i as int + 1).last() == full[i as int]);
            assert(keep@.take(i as int + 1).last() == keep@[i as int]);
        }
        if keep[i] {
            out.push(rec);
        }
        i = i + 1;
    }
    proof {
        assert(full.take(total as int) =~= full);
        assert(keep@.take(total as int) =~= keep@);
    }
    out
}

/// Keeps the records whose device the probe classifies as physical
/// storage, preserving their order. Whatever the probe answers for
/// each record, the result is a subsequence of the input.
pub fn filter_physical(records: Vec<IoCounters>) -> (r: Vec<IoCounters>)
    ensures
        is_subsequence(r@, records@),
{
    let n = records.len();
    let mut keep: Vec<bool> = Vec::new();
    let mut i: usize = 0;
    while i < n
        invariant
            n == records@.len(),
            i <= n,
            keep@.len() == i,
        decreases n - i,
    {
        keep.push(records[i].is_storage_device());
        i = i + 1;
    }
    let ghost full = records@;
    let filtered = apply_filter(records, &keep);
    proof {
        lemma_kept_records_subsequence(full, keep@);
    }
    filtered
}

/// Everything a successful enumeration can report: records that are
/// exactly the in-order parses of the lines of some text.
pub open spec fn enumeration_outcome(v: Seq<IoCounters>) -> bool {
    exists|content: Seq<char>| records_match_lines(v, split_lines(content))
}

/// The failures an enumeration can surface: an I/O error opening or
/// reading the source, a source that is not text, or a malformed line.
pub open spec fn enumeration_failure(e: Error) -> bool {
    ||| e.spec_kind() == ErrorKind::Io
    ||| e.spec_kind() == ErrorKind::FromUtf8
    ||| e.spec_kind() == ErrorKind::Parse
    ||| e.spec_kind() == ErrorKind::ParseInt
}

/// Enumerates the device counters recorded in the kernel text source
/// at `path`: reads the source whole, splits it into lines, and parses
/// each line in order. A failure to open or read the source, and the
/// first malformed line, is the whole enumeration's failure — no
/// partial results are returned.
pub fn io_counters_from(path: &str) -> (r: Result<Vec<IoCounters>, Error>)
    ensures
        r matches Ok(v) ==> enumeration_outcome(v@),
        r matches Err(e) ==> enumeration_failure(e),
{
    let text = match read_source(path) {
        Ok(t) => t,
        Err(e) => {
            return Err(e);
        },
    };
    let mut en = CounterStream::from_lines(split_into_lines(text.as_str()));
    let ghost ls = en.spec_lines();
    let mut out: Vec<IoCounters> = Vec::new();
    let mut done = false;
    while !done
        invariant
            en.wf(),
            en.spec_lines() == ls,
            ls == split_lines(text@),
            !done ==> !en.spec_stopped(),
            !done ==> en.spec_pos() == out@.len(),
            done ==> out@.len() == ls.len(),
            forall|j: int|
                0 <= j < out@.len() ==> line_parses(#[trigger] ls[j]) && record_matches_line(
                    out@[j],
                    ls[j],
                ),
        decreases ls.len() - en.spec_pos(), (if done {
            0int
        } else {
            1int
        }),
    {
        match en.next() {
            None => {
                done = true;
            },
            Some(Ok(rec)) => {
                out.push(rec);
            },
            Some(Err(e)) => {
                proof {
                    assert(e.spec_kind() == line_error_kind(ls[out@.len() as int]));
                    assert(e.spec_kind() == ErrorKind::Parse || e.spec_kind()
                        == ErrorKind::ParseInt);
                }
                return Err(e);
            },
        }
    }
    proof {
        assert(records_match_lines(out@, split_lines(text@)));
    }
    Ok(out)
}

/// Enumerates all device counters of this machine's kernel disk
/// counter table.
pub fn io_counters() -> (r: Result<Vec<IoCounters>, Error>)
    ensures
        r matches Ok(v) ==> enumeration_outcome(v@),
        r matches Err(e) ==> enumeration_failure(e),
{
    io_counters_from("/proc/diskstats")
}

/// Everything a successful filtered enumeration can report: a
/// subsequence, in order, of some full enumeration's records.
pub open spec fn physical_outcome(v: Seq<IoCounters>) -> bool {
    exists|full: Seq<IoCounters>| #[trigger] is_subsequence(v, full) && enumeration_outcome(full)
}

/// Enumerates physical-device counters only: the full enumeration,
/// with each record kept or dropped by the filesystem probe of its
/// device name, in the original order. A device the probe cannot find
/// is excluded from the sequence rather than reported as an error.
pub fn io_counters_physical_from(path: &str) -> (r: Result<Vec<IoCounters>, Error>)
    ensures
        r matches Ok(v) ==> physical_outcome(v@),
        r matches Err(e) ==> enumeration_failure(e),
{
    match io_counters_from(path) {
        Ok(all) => {
            let ghost full = all@;
            let filtered = filter_physical(all);
            proof {
                assert(is_subsequence(filtered@, full));
                assert(enumeration_outcome(full));
            }
            Ok(filtered)
        },
        Err(e) => Err(e),
    }
}

/// Enumerates the physical-device counters of this machine's kernel
/// disk counter table.
pub fn io_counters_physical() -> (r: Result<Vec<IoCounters>, Error>)
    ensures
        r matches Ok(v) ==> physical_outcome(v@),
        r matches Err(e) ==> enumeration_failure(e),
{
    io_counters_physical_from("/proc/diskstats")
}

} // verus!
