//! The metrics map: named values computed from a probe run's observations,
//! the input to rule evaluation. Modelled as a mathematical map from
//! character sequences to [`ValueV`].

use vstd::prelude::*;

verus! {

use crate::value::{Value, ValueV};

/// The map a later insertion of the same key overwrites an earlier one in.
pub open spec fn entries_map(s: Seq<(String, Value)>) -> Map<Seq<char>, ValueV>
    decreases s.len(),
{
    if s.len() == 0 {
        Map::empty()
    } else {
        entries_map(s.drop_last()).insert(s.last().0@, s.last().1@)
    }
}

/// A mapping from metric names to typed values. Insertion order is kept
/// internally; a lookup sees the most recent insertion of a key.
pub struct MetricsMap {
    entries: Vec<(String, Value)>,
}

impl View for MetricsMap {
    type V = Map<Seq<char>, ValueV>;

    closed spec fn view(&self) -> Map<Seq<char>, ValueV> {
        entries_map(self.entries@)
    }
}

fn get_in_prefix<'a>(entries: &'a Vec<(String, Value)>, n: usize, key: &String) -> (r: Option<
    &'a Value,
>)
    requires
        n <= entries@.len(),
    ensures
        match r {
            Some(v) => entries_map(entries@.take(n as int)).contains_key(key@) && v@ == entries_map(
                entries@.take(n as int),
            )[key@],
            None => !entries_map(entries@.take(n as int)).contains_key(key@),
        },
    decreases n,
{
    if n == 0 {
        None
    } else {
        proof {
            assert(entries@.take(n as int).drop_last() =~= entries@.take(n as int - 1));
            assert(entries@.take(n as int).last() == entries@[n as int - 1]);
        }
        let entry = &entries[n - 1];
        if entry.0.eq(key) {
            Some(&entry.1)
        } else {
            get_in_prefix(entries, n - 1, key)
        }
    }
}

impl MetricsMap {
    /// An empty metrics map.
    pub fn new() -> (r: MetricsMap)
        ensures
            r@ == Map::<Seq<char>, ValueV>::empty(),
    {
        MetricsMap { entries: Vec::new() }
    }

    /// Insert `value` under `key`, overwriting any earlier value of that key.
    pub fn insert(&mut self, key: String, value: Value)
        ensures
            final(self)@ == old(self)@.insert(key@, value@),
    {
        let ghost before = self.entries@;
        self.entries.push((key, value));
        proof {
            assert(self.entries@.drop_last() =~= before);
        }
    }

    /// Look up the value of `key`, if any.
    pub fn get(&self, key: &String) -> (r: Option<&Value>)
        ensures
            match r {
                Some(v) => self@.contains_key(key@) && v@ == self@[key@],
                None => !self@.contains_key(key@),
            },
    {
        let n = self.entries.len();
        proof {
            assert(self.entries@.take(n as int) =~= self.entries@);
        }
        get_in_prefix(&self.entries, n, key)
    }
}

} // verus!
