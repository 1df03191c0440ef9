use vstd::prelude::*;

use crate::assoc::{assoc_map, keys_distinct, lemma_assoc_map_domain, lemma_assoc_map_push,
    lemma_assoc_map_update, lemma_assoc_map_value};
use crate::text::str_eq;

verus! {

/// A discontinuity is declared whenever no cursor is recorded for the
/// symbol, or the update's first id is not exactly the recorded id plus one.
pub open spec fn spec_gap(m: Map<Seq<char>, i64>, sym: Seq<char>, first_id: i64) -> bool {
    !(m.contains_key(sym) && first_id == m[sym] + 1)
}

/// Last-applied update id per symbol.  Entries are created on the first
/// observation of a symbol and never removed.
pub struct CursorMap {
    entries: Vec<(String, i64)>,
}

impl View for CursorMap {
    type V = Map<Seq<char>, i64>;

    closed spec fn view(&self) -> Map<Seq<char>, i64> {
        assoc_map(self.entries@)
    }
}

impl CursorMap {
    pub closed spec fn wf(self) -> bool {
        keys_distinct(self.entries@)
    }

    pub fn new() -> (r: Self)
        ensures
            r.wf(),
            r@ == Map::<Seq<char>, i64>::empty(),
    {
        CursorMap { entries: Vec::new() }
    }

    /// The recorded last-applied id for a symbol, if any.
    pub fn cursor_of(&self, symbol: &str) -> (r: Option<i64>)
        requires
            self.wf(),
        ensures
            match r {
                Some(v) => self@.contains_key(symbol@) && self@[symbol@] == v,
                None => !self@.contains_key(symbol@),
            },
    {
        let n = self.entries.len();
        let mut i: usize = 0;
        while i < n
            invariant
                i <= n,
                n == self.entries@.len(),
                self.wf(),
                forall|j: int| 0 <= j < i ==> self.entries@[j].0@ != symbol@,
            decreases n - i,
        {
            if str_eq(self.entries[i].0.as_str(), symbol) {
                proof {
                    lemma_assoc_map_value(self.entries@, i as int);
                }
                return Some(self.entries[i].1);
            }
            i = i + 1;
        }
        proof {
            lemma_assoc_map_domain(self.entries@, symbol@);
        }
        None
    }

    /// Check one sequenced update against the recorded cursor and advance
    /// the cursor to `last_id` unconditionally, whatever the gap outcome.
    pub fn observe(&mut self, symbol: &str, first_id: i64, last_id: i64) -> (gap: bool)
        requires
            old(self).wf(),
        ensures
            final(self).wf(),
            final(self)@ == old(self)@.insert(symbol@, last_id),
            gap == spec_gap(old(self)@, symbol@, first_id),
    {
        let n = self.entries.len();
        let mut i: usize = 0;
        while i < n
            invariant
                i <= n,
                n == self.entries@.len(),
                self.wf(),
                self.entries@ == old(self).entries@,
                forall|j: int| 0 <= j < i ==> self.entries@[j].0@ != symbol@,
            decreases n - i,
        {
            if str_eq(self.entries[i].0.as_str(), symbol) {
                let prev = self.entries[i].1;
                let gap = if prev == i64::MAX {
                    true
                } else {
                    first_id != prev + 1
                };
                proof {
                    lemma_assoc_map_value(self.entries@, i as int);
                }
                let key = self.entries[i].0.clone();
                let ghost s0 = self.entries@;
                self.entries[i] = (key, last_id);
                proof {
                    lemma_assoc_map_update(s0, i as int, (key, last_id));
                }
                return gap;
            }
            i = i + 1;
        }
        let entry = (String::from_str(symbol), last_id);
        proof {
            lemma_assoc_map_domain(self.entries@, symbol@);
            lemma_assoc_map_push(self.entries@, entry);
        }
        self.entries.push(entry);
        true
    }
}

/// The cursor map after a run of sequenced updates `us` (each a pair of
/// first id and last id) for one symbol.
pub open spec fn map_after(m: Map<Seq<char>, i64>, sym: Seq<char>, us: Seq<(i64, i64)>) -> Map<
    Seq<char>,
    i64,
>
    decreases us.len(),
{
    if us.len() == 0 {
        m
    } else {
        map_after(m, sym, us.drop_last()).insert(sym, us.last().1)
    }
}

/// After at least one update the cursor holds exactly the last update's
/// final id: earlier history is overwritten.
pub proof fn lemma_map_after_last(m: Map<Seq<char>, i64>, sym: Seq<char>, us: Seq<(i64, i64)>)
    requires
        us.len() > 0,
    ensures
        map_after(m, sym, us) == m.insert(sym, us.last().1),
    decreases us.len(),
{
    if us.len() > 1 {
        lemma_map_after_last(m, sym, us.drop_last());
        assert(map_after(m, sym, us) =~= m.insert(sym, us.last().1));
    } else {
        assert(map_after(m, sym, us.drop_last()) == m);
        assert(map_after(m, sym, us) =~= m.insert(sym, us.last().1));
    }
}

/// For a symbol whose cursor is recorded, a well-formed consecutive run of
/// updates (each first id exactly one past what precedes it) never declares
/// a gap: the detector never triggers a resync on such a stream.
pub proof fn lemma_consecutive_no_gap(
    m: Map<Seq<char>, i64>,
    sym: Seq<char>,
    us: Seq<(i64, i64)>,
    i: int,
)
    requires
        m.contains_key(sym),
        forall|j: int|
            0 <= j < us.len() ==> us[j].0 == (if j == 0 {
                m[sym]
            } else {
                us[j - 1].1
            }) + 1,
        0 <= i < us.len(),
    ensures
        !spec_gap(map_after(m, sym, us.take(i)), sym, us[i].0),
{
    if i == 0 {
        assert(us.take(0).len() == 0);
    } else {
        lemma_map_after_last(m, sym, us.take(i));
        assert(us.take(i).last() == us[i - 1]);
    }
}

/// A discontinuity is assessed only against the immediately preceding
/// update: from the second update on, a gap is declared exactly when that
/// update's first id misses its predecessor's last id by other than one.
/// One discontinuity therefore fires exactly one resync attempt, and not
/// one more per subsequent consecutive message.
pub proof fn lemma_gap_iff_discontinuity(
    m: Map<Seq<char>, i64>,
    sym: Seq<char>,
    us: Seq<(i64, i64)>,
    i: int,
)
    requires
        1 <= i < us.len(),
    ensures
        spec_gap(map_after(m, sym, us.take(i)), sym, us[i].0) <==> us[i].0 != us[i - 1].1 + 1,
{
    lemma_map_after_last(m, sym, us.take(i));
    assert(us.take(i).last() == us[i - 1]);
}

} // verus!
