//! Candle responses: the column-wise form that the endpoint sends, and the
//! row-wise form keyed by timestamp that the audit looks candles up in.
//!
//! Prices are of a type `P` that the caller picks.  The audit never reads a
//! price; it only carries the values of a row from the columns to the record.

use std::collections::HashMap;
use vstd::prelude::*;
use vstd::std_specs::hash::group_hash_axioms;

use crate::error::AuditError;

verus! {

broadcast use group_hash_axioms;

/// Seconds since the UNIX epoch.
pub type Time = i64;

/// A response as the endpoint sends it: one column per quantity, the candle
/// number `i` being the entries at index `i` of all six.
#[derive(Debug, Clone)]
pub struct ApiResult<P> {
    /// The status that the endpoint reports.  Nothing here reads it.
    pub s: String,
    pub time: Vec<Time>,
    pub close: Vec<P>,
    pub open: Vec<P>,
    pub high: Vec<P>,
    pub low: Vec<P>,
    pub volume: Vec<u64>,
}

/// One candle, without its timestamp.
#[derive(Debug, Clone, Copy)]
pub struct CandleData<P> {
    pub close: P,
    pub open: P,
    pub high: P,
    pub low: P,
    pub volume: u64,
}

/// A response by rows: the candle of each timestamp.
#[derive(Debug, Clone)]
pub struct StructuredApiResult<P>(pub HashMap<Time, CandleData<P>>);

impl<P> View for StructuredApiResult<P> {
    type V = Map<Time, CandleData<P>>;

    open spec fn view(&self) -> Map<Time, CandleData<P>> {
        self.0@
    }
}

impl<P> ApiResult<P> {
    /// Whether all six columns have the same length.
    pub open spec fn well_formed(&self) -> bool {
        &&& self.close@.len() == self.time@.len()
        &&& self.open@.len() == self.time@.len()
        &&& self.high@.len() == self.time@.len()
        &&& self.low@.len() == self.time@.len()
        &&& self.volume@.len() == self.time@.len()
    }

    /// The candle at index `i`.
    pub open spec fn row(&self, i: int) -> CandleData<P> {
        CandleData {
            close: self.close@[i],
            open: self.open@[i],
            high: self.high@[i],
            low: self.low@[i],
            volume: self.volume@[i],
        }
    }

    /// Whether `i` is the last index among the first `n` at which the timestamp is `t`.
    pub open spec fn is_last_of(&self, t: Time, i: int, n: int) -> bool {
        &&& 0 <= i < n
        &&& self.time@[i] == t
        &&& forall|j: int| i < j < n ==> self.time@[j] != t
    }

    /// The last index among the first `n` at which the timestamp is `t`.
    pub open spec fn last_index_of(&self, t: Time, n: int) -> int {
        choose|i: int| self.is_last_of(t, i, n)
    }

    /// The first `n` candles by rows.  Where a timestamp occurs more than once,
    /// the last of its candles stands.
    pub open spec fn rows_of_prefix(&self, n: int) -> Map<Time, CandleData<P>> {
        Map::new(
            |t: Time| exists|i: int| 0 <= i < n && self.time@[i] == t,
            |t: Time| self.row(self.last_index_of(t, n)),
        )
    }

    /// The response by rows.
    pub open spec fn rows(&self) -> Map<Time, CandleData<P>> {
        self.rows_of_prefix(self.time@.len() as int)
    }

    /// Among the first `n` entries, a timestamp that occurs has a last occurrence.
    proof fn lemma_last_exists(&self, t: Time, n: int, i: int)
        requires
            0 <= i < n,
            self.time@[i] == t,
        ensures
            self.is_last_of(t, self.last_index_of(t, n), n),
        decreases n - i,
    {
        if exists|j: int| i < j < n && self.time@[j] == t {
            let j = choose|j: int| i < j < n && self.time@[j] == t;
            self.lemma_last_exists(t, n, j);
        } else {
            assert(self.is_last_of(t, i, n));
        }
    }

    /// Taking one more candle in writes its row under its timestamp.
    proof fn lemma_rows_step(&self, n: int)
        requires
            0 <= n < self.time@.len(),
        ensures
            self.rows_of_prefix(n + 1) == self.rows_of_prefix(n).insert(self.time@[n], self.row(n)),
    {
        let before = self.rows_of_prefix(n);
        let after = self.rows_of_prefix(n + 1);
        let key = self.time@[n];
        assert forall|t: Time| after.dom().contains(t) <==> before.insert(
            key,
            self.row(n),
        ).dom().contains(t) by {
            if before.dom().contains(t) {
                let i = choose|i: int| 0 <= i < n && self.time@[i] == t;
                assert(0 <= i < n + 1 && self.time@[i] == t);
            }
        }
        assert forall|t: Time| #[trigger] after.dom().contains(t) implies after[t] == before.insert(
            key,
            self.row(n),
        )[t] by {
            if t == key {
                self.lemma_last_exists(t, n + 1, n);
            } else {
                let i = choose|i: int| 0 <= i < n + 1 && self.time@[i] == t;
                self.lemma_last_exists(t, n + 1, i);
                self.lemma_last_exists(t, n, i);
                let a = self.last_index_of(t, n);
                let b = self.last_index_of(t, n + 1);
                assert(a == b) by {
                    if a < b {
                        assert(self.time@[b] != t);
                    }
                    if b < a {
                        assert(self.time@[a] != t);
                    }
                }
            }
        }
        assert(after =~= before.insert(key, self.row(n)));
    }

    /// The keys of the rows are the timestamps of the response, and the candle
    /// under a timestamp is the row of its last occurrence: of its only
    /// occurrence, where no timestamp occurs twice.
    pub proof fn lemma_rows_round_trip(&self)
        ensures
            self.rows().dom() == self.time@.to_set(),
            self.rows().is_empty() <==> self.time@.len() == 0,
            forall|i: int|
                0 <= i < self.time@.len() && (forall|j: int|
                    i < j < self.time@.len() ==> self.time@[j] != self.time@[i])
                    ==> #[trigger] self.rows()[self.time@[i]] == self.row(i),
            self.time@.no_duplicates() ==> forall|i: int|
                0 <= i < self.time@.len() ==> #[trigger] self.rows()[self.time@[i]] == self.row(i),
    {
        let n = self.time@.len() as int;
        assert(self.rows().dom() =~= self.time@.to_set()) by {
            assert forall|t: Time| self.rows().dom().contains(t) <==> self.time@.to_set().contains(
                t,
            ) by {
                if self.rows().dom().contains(t) {
                    let i = choose|i: int| 0 <= i < n && self.time@[i] == t;
                    assert(self.time@.contains(t));
                }
                if self.time@.contains(t) {
                    let i = choose|i: int| 0 <= i < n && self.time@[i] == t;
                }
            }
        }
        if n > 0 {
            assert(self.time@.to_set().contains(self.time@[0]));
        }
        assert forall|i: int|
            0 <= i < n && (forall|j: int| i < j < n ==> self.time@[j] != self.time@[i])
                implies #[trigger] self.rows()[self.time@[i]] == self.row(i) by {
            let t = self.time@[i];
            self.lemma_last_exists(t, n, i);
            let a = self.last_index_of(t, n);
            if a < i {
                assert(self.time@[i] != t);
            }
        }
    }
}

impl<P: Copy> StructuredApiResult<P> {
    /// Turns the columns of a response into rows keyed by timestamp.
    ///
    /// Fails with [`AuditError::Schema`] when the columns differ in length.
    pub fn normalize(value: &ApiResult<P>) -> (r: Result<Self, AuditError>)
        ensures
            r is Ok <==> value.well_formed(),
            r matches Ok(rows) ==> rows@ == value.rows(),
            r matches Err(e) ==> e == AuditError::Schema,
    {
        let n = value.time.len();
        if value.close.len() != n || value.open.len() != n || value.high.len() != n
            || value.low.len() != n || value.volume.len() != n {
            return Err(AuditError::Schema);
        }
        let mut hmap: HashMap<Time, CandleData<P>> = HashMap::with_capacity(n);
        assert(hmap@ =~= value.rows_of_prefix(0));
        let mut i: usize = 0;
        while i < n
            invariant
                i <= n,
                n == value.time@.len(),
                value.well_formed(),
                hmap@ == value.rows_of_prefix(i as int),
            decreases n - i,
        {
            let candle = CandleData {
                close: value.close[i],
                open: value.open[i],
                high: value.high[i],
                low: value.low[i],
                volume: value.volume[i],
            };
            proof {
                value.lemma_rows_step(i as int);
            }
            hmap.insert(value.time[i], candle);
            i += 1;
        }
        Ok(StructuredApiResult(hmap))
    }

    /// Whether the response holds no candle at all.
    pub fn is_empty(&self) -> (b: bool)
        ensures
            b == self@.is_empty(),
    {
        self.0.is_empty()
    }

    /// Whether the response holds a candle for the timestamp `t`.
    pub fn has_candle(&self, t: Time) -> (b: bool)
        ensures
            b == self@.dom().contains(t),
    {
        self.0.contains_key(&t)
    }

    /// The candle for the timestamp `t`, if the response holds one.
    pub fn candle(&self, t: Time) -> (c: Option<CandleData<P>>)
        ensures
            c == (if self@.dom().contains(t) {
                Some(self@[t])
            } else {
                None
            }),
    {
        match self.0.get(&t) {
            Some(c) => Some(*c),
            None => None,
        }
    }
}

} // verus!
