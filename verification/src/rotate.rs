use vstd::prelude::*;

use vstd::arithmetic::div_mod::{lemma_fundamental_div_mod, lemma_fundamental_div_mod_converse};

use crate::assoc::{assoc_map, keys_distinct, lemma_assoc_map_domain, lemma_assoc_map_push,
    lemma_assoc_map_update, lemma_assoc_map_value};
use crate::calendar::{CivilDate, NANOS_PER_DAY, TS_LIMIT, civil_from_day, date_chars, date_string,
    day_number, day_of, day_of_ts, next_midnight_after, ts_in_range, valid_date};
use crate::record::{format_record, spec_record};
use crate::text::{lower_of, str_eq, to_lowercase};

verus! {

/// The compressed log file for `path` on a calendar date:
/// `<path>_<YYYYMMDD>.gz`.
pub open spec fn spec_file_name(path: Seq<char>, y: int, m: int, d: int) -> Seq<char> {
    path + seq!['_'] + date_chars(y, m, d) + seq!['.', 'g', 'z']
}

fn file_name(path: &str, c: &CivilDate) -> (r: String)
    requires
        c.year < 10000,
        c.month <= 99,
        c.day <= 99,
    ensures
        r@ == spec_file_name(path@, c.year as int, c.month as int, c.day as int),
{
    let mut r = String::from_str(path);
    r.append("_");
    let ds = date_string(c);
    r.append(ds.as_str());
    r.append(".gz");
    proof {
        reveal_strlit("_");
        reveal_strlit(".gz");
        assert(r@ =~= spec_file_name(path@, c.year as int, c.month as int, c.day as int));
    }
    r
}

/// One append-only compressed log stream: the next instant at which a
/// rotation is due, the path prefix of its files, and the UTC date of the
/// currently open file.  The byte sink itself lives with the caller; this
/// state decides when to rotate, which file to open, and what bytes each
/// record contributes.
pub struct RotatingFile {
    pub next_rotation: i64,
    pub path: String,
    pub date: CivilDate,
}

impl RotatingFile {
    pub open spec fn wf(self) -> bool {
        &&& valid_date(self.date.year as int, self.date.month as int, self.date.day as int)
        &&& self.date.year <= 2262
        &&& self.next_rotation as int == (day_number(
            self.date.year as int,
            self.date.month as int,
            self.date.day as int,
        ) + 1) * (NANOS_PER_DAY as int)
        &&& 0 < self.next_rotation <= TS_LIMIT
    }

    /// The open file carries the UTC date of `ts`, and the boundary is the
    /// next UTC midnight strictly after `ts`.
    pub open spec fn fresh_for(self, ts: int, path: Seq<char>) -> bool {
        &&& self.wf()
        &&& self.path@ == path
        &&& day_number(self.date.year as int, self.date.month as int, self.date.day as int)
            == day_of(ts)
    }

    /// Start a log for `path`: the returned string is the name of the file
    /// to open, embedding the UTC calendar date of `timestamp`.
    pub fn new(timestamp: i64, path: String) -> (r: (RotatingFile, String))
        requires
            ts_in_range(timestamp as int),
        ensures
            r.0.fresh_for(timestamp as int, path@),
            r.1@ == spec_file_name(
                path@,
                r.0.date.year as int,
                r.0.date.month as int,
                r.0.date.day as int,
            ),
    {
        let day = day_of_ts(timestamp);
        let date = civil_from_day(day);
        let name = file_name(path.as_str(), &date);
        let b = next_midnight_after(timestamp);
        (RotatingFile { next_rotation: b, path, date }, name)
    }

    /// Decide one write: when the record's timestamp has reached the
    /// boundary, the current stream must be finalized and the record goes
    /// into the newly named file, never into the stream being closed.
    pub fn write(&mut self, timestamp: i64, data: &Vec<u8>) -> (r: WriteStep)
        requires
            old(self).wf(),
            ts_in_range(timestamp as int),
        ensures
            final(self).wf(),
            final(self).path@ == old(self).path@,
            r.line@ == spec_record(timestamp as int, data@),
            (r.rotate_to is Some) == (timestamp >= old(self).next_rotation),
            (r.rotate_to matches Some(name) ==> {
                &&& final(self).fresh_for(timestamp as int, old(self).path@)
                &&& name@ == spec_file_name(
                    old(self).path@,
                    final(self).date.year as int,
                    final(self).date.month as int,
                    final(self).date.day as int,
                )
            }),
            r.rotate_to is None ==> *final(self) == *old(self),
    {
        let mut rotate_to: Option<String> = None;
        if timestamp >= self.next_rotation {
            let day = day_of_ts(timestamp);
            let date = civil_from_day(day);
            let name = file_name(self.path.as_str(), &date);
            let b = next_midnight_after(timestamp);
            self.date = date;
            self.next_rotation = b;
            rotate_to = Some(name);
        }
        let line = format_record(timestamp, data);
        WriteStep { rotate_to, line }
    }
}

/// What one write requires of the byte sink: optionally finalize the
/// current stream and open the named successor, then append the line.
pub struct WriteStep {
    pub rotate_to: Option<String>,
    pub line: Vec<u8>,
}

/// The boundary after one write against boundary `b`.
pub open spec fn boundary_after(b: int, ts: int) -> int {
    if ts >= b {
        (day_of(ts) + 1) * (NANOS_PER_DAY as int)
    } else {
        b
    }
}

/// Which writes of a run rotate, starting from boundary `b`.
pub open spec fn rotation_flags(b: int, tss: Seq<int>) -> Seq<bool>
    decreases tss.len(),
{
    if tss.len() == 0 {
        Seq::empty()
    } else {
        seq![tss[0] >= b] + rotation_flags(boundary_after(b, tss[0]), tss.skip(1))
    }
}

proof fn lemma_no_rotation(b: int, tss: Seq<int>)
    requires
        forall|i: int| 0 <= i < tss.len() ==> tss[i] < b,
    ensures
        rotation_flags(b, tss).len() == tss.len(),
        forall|i: int| 0 <= i < tss.len() ==> !rotation_flags(b, tss)[i],
    decreases tss.len(),
{
    if tss.len() > 0 {
        assert(forall|i: int| 0 <= i < tss.skip(1).len() ==> tss.skip(1)[i] < b);
        lemma_no_rotation(b, tss.skip(1));
    }
}

/// A record stream that spans exactly one UTC day boundary rotates exactly
/// once: every write before the boundary goes to the file that was open,
/// the first write at or past the boundary rotates, and every later write
/// of that next day goes to the new file without rotating again.
pub proof fn lemma_exactly_one_rotation(b: int, tss: Seq<int>, k: int)
    requires
        b % (NANOS_PER_DAY as int) == 0,
        forall|i: int| 0 <= i < tss.len() ==> tss[i] < b + NANOS_PER_DAY,
        0 <= k < tss.len(),
        forall|i: int| 0 <= i < k ==> tss[i] < b,
        forall|i: int| k <= i < tss.len() ==> b <= tss[i],
    ensures
        rotation_flags(b, tss).len() == tss.len(),
        forall|i: int| 0 <= i < tss.len() ==> (rotation_flags(b, tss)[i] <==> i == k),
    decreases k,
{
    let npd = NANOS_PER_DAY as int;
    if k == 0 {
        lemma_fundamental_div_mod(b, npd);
        lemma_fundamental_div_mod_converse(tss[0], npd, b / npd, tss[0] - b);
        assert(day_of(tss[0]) == b / npd);
        let b2 = boundary_after(b, tss[0]);
        assert(b2 == b + npd);
        assert(forall|i: int| 0 <= i < tss.skip(1).len() ==> tss.skip(1)[i] < b2);
        lemma_no_rotation(b2, tss.skip(1));
    } else {
        assert(!(tss[0] >= b));
        assert(forall|i: int| 0 <= i < tss.skip(1).len() ==> tss.skip(1)[i] < b + npd);
        assert(forall|i: int| 0 <= i < k - 1 ==> tss.skip(1)[i] < b);
        assert(forall|i: int| k - 1 <= i < tss.skip(1).len() ==> b <= tss.skip(1)[i]);
        lemma_exactly_one_rotation(b, tss.skip(1), k - 1);
        assert forall|i: int| 0 <= i < tss.len() implies (rotation_flags(b, tss)[i] <==> i
            == k) by {
            if i > 0 {
                assert(rotation_flags(b, tss)[i] == rotation_flags(b, tss.skip(1))[i - 1]);
            }
        }
    }
}

/// Two spellings of a symbol that differ only in ASCII case are given the
/// same file path by the writer, whose paths use the canonical lower-case
/// form of the symbol.
pub proof fn lemma_writer_path_case_insensitive(base: Seq<char>, s: Seq<char>)
    ensures
        base + seq!['/'] + lower_of(crate::text::upper_of(s)) == base + seq!['/'] + lower_of(s),
        base + seq!['/'] + lower_of(lower_of(s)) == base + seq!['/'] + lower_of(s),
{
    crate::text::lemma_lower_case_insensitive(s);
    crate::text::lemma_lower_idempotent(s);
}

/// One rotating log per symbol.  Both the map key and the file path use
/// the canonical lower-case form of the symbol, so the writer holds
/// exactly one rotating log per symbol, however the feed spells it.
pub struct Writer {
    path: String,
    files: Vec<(String, RotatingFile)>,
}

/// What one write through the writer requires of the byte sinks: open a
/// first file for the symbol, or finalize and reopen on rotation, then
/// append the line to the symbol's open stream.
pub struct WriterStep {
    pub opened: Option<String>,
    pub rotate_to: Option<String>,
    pub line: Vec<u8>,
}

impl View for Writer {
    type V = Map<Seq<char>, RotatingFile>;

    closed spec fn view(&self) -> Map<Seq<char>, RotatingFile> {
        assoc_map(self.files@)
    }
}

impl Writer {
    pub closed spec fn wf(self) -> bool {
        &&& keys_distinct(self.files@)
        &&& forall|j: int| 0 <= j < self.files@.len() ==> (#[trigger] self.files@[j]).1.wf()
    }

    pub closed spec fn base_path(self) -> Seq<char> {
        self.path@
    }

    pub fn new(path: &str) -> (r: Self)
        ensures
            r.wf(),
            r.base_path() == path@,
            r@ == Map::<Seq<char>, RotatingFile>::empty(),
    {
        Writer { path: String::from_str(path), files: Vec::new() }
    }

    /// Route one record to its symbol's rotating log, creating that log on
    /// the symbol's first record.  Both the map key and the file path use
    /// the canonical lower-case symbol, so two spellings that differ only
    /// in case share one log and its file names.
    pub fn write(&mut self, recv_time: i64, symbol: &str, data: &Vec<u8>) -> (r: WriterStep)
        requires
            old(self).wf(),
            ts_in_range(recv_time as int),
        ensures
            final(self).wf(),
            final(self).base_path() == old(self).base_path(),
            r.line@ == spec_record(recv_time as int, data@),
            final(self)@.contains_key(lower_of(symbol@)),
            final(self)@ == old(self)@.insert(lower_of(symbol@), final(self)@[lower_of(symbol@)]),
            (r.opened is Some) == !old(self)@.contains_key(lower_of(symbol@)),
            (r.opened matches Some(name) ==> {
                &&& r.rotate_to is None
                &&& final(self)@[lower_of(symbol@)].fresh_for(
                    recv_time as int,
                    old(self).base_path() + seq!['/'] + lower_of(symbol@),
                )
                &&& name@ == spec_file_name(
                    old(self).base_path() + seq!['/'] + lower_of(symbol@),
                    final(self)@[lower_of(symbol@)].date.year as int,
                    final(self)@[lower_of(symbol@)].date.month as int,
                    final(self)@[lower_of(symbol@)].date.day as int,
                )
            }),
            old(self)@.contains_key(lower_of(symbol@)) ==> {
                &&& old(self)@[lower_of(symbol@)].wf()
                &&& (r.rotate_to is Some) == (recv_time >= old(self)@[lower_of(
                    symbol@,
                )].next_rotation)
                &&& (r.rotate_to matches Some(name) ==> {
                    &&& final(self)@[lower_of(symbol@)].fresh_for(
                        recv_time as int,
                        old(self)@[lower_of(symbol@)].path@,
                    )
                    &&& name@ == spec_file_name(
                        old(self)@[lower_of(symbol@)].path@,
                        final(self)@[lower_of(symbol@)].date.year as int,
                        final(self)@[lower_of(symbol@)].date.month as int,
                        final(self)@[lower_of(symbol@)].date.day as int,
                    )
                })
                &&& (r.rotate_to is None ==> final(self)@[lower_of(symbol@)] == old(
                    self,
                )@[lower_of(symbol@)])
            },
    {
        let lower = to_lowercase(symbol);
        let n = self.files.len();
        let mut i: usize = 0;
        while i < n
            invariant
                i <= n,
                n == self.files@.len(),
                self.wf(),
                self.files@ == old(self).files@,
                self.path@ == old(self).path@,
                ts_in_range(recv_time as int),
                lower@ == lower_of(symbol@),
                forall|j: int| 0 <= j < i ==> self.files@[j].0@ != lower_of(symbol@),
            decreases n - i,
        {
            if str_eq(self.files[i].0.as_str(), lower.as_str()) {
                proof {
                    lemma_assoc_map_value(self.files@, i as int);
                }
                let ghost s0 = self.files@;
                let (key, mut rf) = self.files.remove(i);
                let step = rf.write(recv_time, data);
                self.files.insert(i, (key, rf));
                proof {
                    assert(self.files@ =~= s0.update(i as int, self.files@[i as int]));
                    assert forall|p: int, q: int|
                        0 <= p < q < self.files@.len() implies self.files@[p].0@
                        != self.files@[q].0@ by {
                        assert(self.files@[p].0@ == s0[p].0@);
                        assert(self.files@[q].0@ == s0[q].0@);
                    }
                    assert forall|j: int|
                        0 <= j < self.files@.len() implies (#[trigger] self.files@[j]).1.wf() by {
                        if j != i {
                            assert(self.files@[j] == s0[j]);
                        }
                    }
                    lemma_assoc_map_update(s0, i as int, self.files@[i as int]);
                }
                return WriterStep { opened: None, rotate_to: step.rotate_to, line: step.line };
            }
            i = i + 1;
        }
        proof {
            lemma_assoc_map_domain(self.files@, lower_of(symbol@));
        }
        let mut path = self.path.clone();
        path.append("/");
        path.append(lower.as_str());
        proof {
            reveal_strlit("/");
            assert(path@ =~= old(self).base_path() + seq!['/'] + lower_of(symbol@));
        }
        let (mut rf, name) = RotatingFile::new(recv_time, path);
        proof {
            lemma_fundamental_div_mod(recv_time as int, NANOS_PER_DAY as int);
        }
        let step = rf.write(recv_time, data);
        let entry = (lower, rf);
        let ghost s0 = self.files@;
        proof {
            lemma_assoc_map_push(self.files@, entry);
        }
        self.files.push(entry);
        proof {
            assert forall|p: int, q: int|
                0 <= p < q < self.files@.len() implies self.files@[p].0@ != self.files@[q].0@ by {
                if q == self.files@.len() - 1 {
                    assert(self.files@[p] == s0[p]);
                } else {
                    assert(self.files@[p] == s0[p]);
                    assert(self.files@[q] == s0[q]);
                }
            }
        }
        WriterStep { opened: Some(name), rotate_to: step.rotate_to, line: step.line }
    }
}

} // verus!
