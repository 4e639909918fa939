//! Named counters: a table of counts keyed by name, and the `Inc` interface
//! through which shared counters of any kind are bumped.
use vstd::prelude::*;
use vstd::string::StringExecFns;

use crate::text::{decimal, i64_text};

verus! {

/// Why a counter could not be incremented.
#[derive(Debug, Clone, Copy, PartialEq, Eq, Structural)]
pub enum MetricError {
    /// The lock guarding the counters was poisoned by a panicking holder.
    Poisoned,
    /// The count already stands at `i64::MAX`.
    Overflow,
}

/// Something that counts events by name.
pub trait Inc {
    /// Adds one to the count of `key`, starting from zero for a new key.
    fn inc(&self, key: String) -> Result<(), MetricError>;
}

/// A counter of any kind, behind the `Inc` interface.
#[derive(Debug, Clone)]
pub struct Metric<T> {
    inner: T,
}

impl<T> Metric<T> {
    /// The counter this metric forwards to.
    pub closed spec fn counter(&self) -> T {
        self.inner
    }

    pub fn new() -> (r: Self)
        where
            T: Default,
    {
        Metric { inner: T::default() }
    }

    /// The counter this metric forwards to.
    pub fn inner(&self) -> (r: &T)
        ensures
            *r == self.counter(),
    {
        &self.inner
    }
}

impl<T: Default> Default for Metric<T> {
    fn default() -> (r: Self) {
        Self::new()
    }
}

impl<T: Inc> Inc for Metric<T> {
    fn inc(&self, key: String) -> (r: Result<(), MetricError>) {
        self.inner.inc(key)
    }
}

/// The count that follows `count`; fails rather than wrap past `i64::MAX`.
pub fn next_count(count: i64) -> (r: Result<i64, MetricError>)
    ensures
        count < i64::MAX ==> r == Ok::<i64, MetricError>((count + 1) as i64),
        count == i64::MAX ==> r == Err::<i64, MetricError>(MetricError::Overflow),
{
    if count == i64::MAX {
        Err(MetricError::Overflow)
    } else {
        Ok(count + 1)
    }
}

/// Counts by name, kept in the order in which each name was first counted.
#[derive(Debug, Clone)]
pub struct Counts {
    entries: Vec<(String, i64)>,
}

/// Position of `key` among the names of `entries`, if it is there.
pub open spec fn key_at(entries: Seq<(Seq<char>, i64)>, key: Seq<char>, p: int) -> bool {
    0 <= p < entries.len() && entries[p].0 == key
}

/// The names of `entries` are pairwise distinct.
pub open spec fn keys_distinct(entries: Seq<(Seq<char>, i64)>) -> bool {
    forall|p: int, q: int|
        0 <= p < entries.len() && 0 <= q < entries.len() && p != q ==> entries[p].0
            != entries[q].0
}

/// The text of the first `k` entries, one `name : count` line each.
pub open spec fn entries_text(entries: Seq<(Seq<char>, i64)>, k: nat) -> Seq<char>
    decreases k,
{
    if k == 0 {
        Seq::empty()
    } else {
        entries_text(entries, (k - 1) as nat) + entries[k - 1].0 + seq![' ', ':', ' ']
            + decimal(entries[k - 1].1 as int) + seq!['\n']
    }
}

impl View for Counts {
    type V = Seq<(Seq<char>, i64)>;

    closed spec fn view(&self) -> Seq<(Seq<char>, i64)> {
        self.entries@.map_values(|e: (String, i64)| (e.0@, e.1))
    }
}

impl Counts {
    /// Every name occurs once.
    pub open spec fn wf(&self) -> bool {
        keys_distinct(self@)
    }

    pub fn new() -> (r: Self)
        ensures
            r.wf(),
            r@ == Seq::<(Seq<char>, i64)>::empty(),
    {
        Counts { entries: Vec::new() }
    }

    /// Where `key` stands among the names, if it has been counted.
    fn find(&self, key: &String) -> (r: Option<usize>)
        requires
            self.wf(),
        ensures
            r matches Some(p) ==> key_at(self@, key@, p as int),
            r is None ==> forall|p: int| 0 <= p < self@.len() ==> self@[p].0 != key@,
    {
        let mut p: usize = 0;
        while p < self.entries.len()
            invariant
                p <= self@.len(),
                self@.len() == self.entries@.len(),
                forall|q: int| 0 <= q < p ==> self@[q].0 != key@,
            decreases self@.len() - p,
        {
            if self.entries[p].0 == *key {
                return Some(p);
            }
            p = p + 1;
        }
        None
    }

    /// The count of `key`; `None` when it has never been counted.
    pub fn get(&self, key: &String) -> (r: Option<i64>)
        requires
            self.wf(),
        ensures
            r matches Some(c) ==> exists|p: int| #[trigger] key_at(self@, key@, p) && self@[p].1 == c,
            r is None ==> forall|p: int| 0 <= p < self@.len() ==> self@[p].0 != key@,
    {
        match self.find(key) {
            Some(p) => Some(self.entries[p].1),
            None => None,
        }
    }

    /// Adds one to the count of `key`; a new key is appended with count 1.
    /// A count at `i64::MAX` is left as it is and the call fails.
    pub fn inc(&mut self, key: String) -> (r: Result<(), MetricError>)
        requires
            old(self).wf(),
        ensures
            final(self).wf(),
            forall|p: int| #[trigger] key_at(old(self)@, key@, p) ==> {
                &&& old(self)@[p].1 < i64::MAX ==> r is Ok && final(self)@ == old(self)@.update(
                    p,
                    (key@, (old(self)@[p].1 + 1) as i64),
                )
                &&& old(self)@[p].1 == i64::MAX ==> r == Err::<(), MetricError>(
                    MetricError::Overflow,
                ) && final(self)@ == old(self)@
            },
            (forall|p: int| 0 <= p < old(self)@.len() ==> old(self)@[p].0 != key@) ==> r is Ok
                && final(self)@ == old(self)@.push((key@, 1)),
    {
        match self.find(&key) {
            Some(p) => {
                let c = self.entries[p].1;
                let n = next_count(c)?;
                let ghost k = key@;
                self.entries.set(p, (key, n));
                proof {
                    assert(self@ =~= old(self)@.update(p as int, (k, n)));
                    assert forall|q: int| #[trigger] key_at(old(self)@, k, q) implies q == p by {}
                }
                Ok(())
            },
            None => {
                self.entries.push((key, 1));
                proof {
                    assert(self@ =~= old(self)@.push((key@, 1)));
                }
                Ok(())
            },
        }
    }

    /// The counts as text: one `name : count` line each, in the order the
    /// names were first counted, then an empty line.
    pub fn to_string(&self) -> (r: String)
        ensures
            r@ == entries_text(self@, self@.len()) + seq!['\n'],
    {
        let mut out = String::new();
        let mut p: usize = 0;
        while p < self.entries.len()
            invariant
                p <= self@.len(),
                self@.len() == self.entries@.len(),
                out@ == entries_text(self@, p as nat),
            decreases self@.len() - p,
        {
            proof {
                reveal_strlit(" : ");
                reveal_strlit("\n");
            }
            let ghost before = out@;
            out.append(self.entries[p].0.as_str());
            out.append(" : ");
            let v = i64_text(self.entries[p].1);
            out.append(v.as_str());
            out.append("\n");
            proof {
                assert(out@ =~= entries_text(self@, (p + 1) as nat));
            }
            p = p + 1;
        }
        proof {
            reveal_strlit("\n");
        }
        out.append("\n");
        out
    }
}

} // verus!
