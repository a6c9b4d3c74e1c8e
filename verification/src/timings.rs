//! How long the runtime spends on each kind of node: for each key, the times
//! recorded under it, in order.
use vstd::prelude::*;

use crate::text::owned;

verus! {

pub struct NodeTimings {
    entries: Vec<(String, Vec<u128>)>,
}

/// The timings as plain values: each key once, in the order first recorded.
pub open spec fn timings_entries_view(e: Seq<(String, Vec<u128>)>) -> Seq<(Seq<char>, Seq<u128>)> {
    e.map_values(|x: (String, Vec<u128>)| (x.0@, x.1@))
}

impl View for NodeTimings {
    type V = Seq<(Seq<char>, Seq<u128>)>;

    closed spec fn view(&self) -> Seq<(Seq<char>, Seq<u128>)> {
        timings_entries_view(self.entries@)
    }
}

/// No key occurs twice.
pub open spec fn keys_unique(s: Seq<(Seq<char>, Seq<u128>)>) -> bool {
    forall|i: int, j: int| 0 <= i < j < s.len() ==> s[i].0 != s[j].0
}

/// Records `time` under `key`: at the end of its list where the key is known,
/// else as the list of a new key at the end.
pub open spec fn spec_insert_timing(s: Seq<(Seq<char>, Seq<u128>)>, key: Seq<char>, time: u128) -> Seq<
    (Seq<char>, Seq<u128>),
> {
    if exists|i: int| 0 <= i < s.len() && s[i].0 == key {
        let i = choose|i: int| 0 <= i < s.len() && s[i].0 == key;
        s.update(i, (key, s[i].1.push(time)))
    } else {
        s.push((key, seq![time]))
    }
}

/// The times recorded under `key`.
pub open spec fn times_of(s: Seq<(Seq<char>, Seq<u128>)>, key: Seq<char>) -> Seq<u128> {
    if exists|i: int| 0 <= i < s.len() && s[i].0 == key {
        s[choose|i: int| 0 <= i < s.len() && s[i].0 == key].1
    } else {
        seq![]
    }
}

/// No timings yet.
pub fn create_node_timings() -> (t: NodeTimings)
    ensures
        t@.len() == 0,
        keys_unique(t@),
{
    NodeTimings { entries: Vec::new() }
}

/// Records `time` under `key`.
pub fn insert_node_timing(timings: &mut NodeTimings, key: String, time: u128)
    requires
        keys_unique(old(timings)@),
    ensures
        keys_unique(final(timings)@),
        final(timings)@ == spec_insert_timing(old(timings)@, key@, time),
{
    let ghost s = timings@;
    let mut i: usize = 0;
    while i < timings.entries.len()
        invariant
            0 <= i <= timings.entries.len(),
            timings@ == s,
            s == old(timings)@,
            keys_unique(s),
            forall|j: int| 0 <= j < i ==> s[j].0 != key@,
        decreases timings.entries.len() - i,
    {
        if timings.entries[i].0 == key {
            assert(s[i as int].0 == key@);
            let ghost ii = choose|j: int| 0 <= j < s.len() && s[j].0 == key@;
            assert(ii == i);
            let ghost e0 = timings.entries@;
            let (k, mut times) = timings.entries.remove(i);
            times.push(time);
            timings.entries.insert(i, (k, times));
            assert(timings.entries@ =~= e0.update(i as int, (k, times)));
            assert(timings@ =~= s.update(i as int, (key@, s[i as int].1.push(time))));
            assert(timings@ == spec_insert_timing(s, key@, time));
            return;
        }
        i = i + 1;
    }
    let mut times: Vec<u128> = Vec::new();
    times.push(time);
    timings.entries.push((key, times));
    assert(timings@ =~= spec_insert_timing(s, key@, time));
}

impl NodeTimings {
    /// The times recorded under `key`, in the order recorded.
    pub fn times(&self, key: &str) -> (r: Vec<u128>)
        requires
            keys_unique(self@),
        ensures
            r@ == times_of(self@, key@),
    {
        let k = owned(key);
        let mut i: usize = 0;
        while i < self.entries.len()
            invariant
                0 <= i <= self.entries.len(),
                self@.len() == self.entries.len(),
                keys_unique(self@),
                k@ == key@,
                forall|j: int| 0 <= j < i ==> self@[j].0 != key@,
            decreases self.entries.len() - i,
        {
            if self.entries[i].0 == k {
                assert(self@[i as int].0 == key@);
                let ghost ii = choose|j: int| 0 <= j < self@.len() && self@[j].0 == key@;
                assert(ii == i);
                return self.entries[i].1.clone();
            }
            i = i + 1;
        }
        Vec::new()
    }
}

/// Recording under a key adds the time at the end of that key's times and
/// leaves the times of every other key as they were.
pub proof fn law_insert_timing(s: Seq<(Seq<char>, Seq<u128>)>, key: Seq<char>, time: u128, other: Seq<char>)
    requires
        keys_unique(s),
    ensures
        times_of(spec_insert_timing(s, key, time), key) == times_of(s, key).push(time),
        other != key ==> times_of(spec_insert_timing(s, key, time), other) == times_of(s, other),
        keys_unique(spec_insert_timing(s, key, time)),
{
    let t = spec_insert_timing(s, key, time);
    if exists|i: int| 0 <= i < s.len() && s[i].0 == key {
        let i = choose|i: int| 0 <= i < s.len() && s[i].0 == key;
        assert(t[i].0 == key);
        if other != key && exists|j: int| 0 <= j < s.len() && s[j].0 == other {
            let j = choose|j: int| 0 <= j < s.len() && s[j].0 == other;
            assert(t[j].0 == other);
        }
    } else {
        assert(t[s.len() as int].0 == key);
        if other != key && exists|j: int| 0 <= j < s.len() && s[j].0 == other {
            let j = choose|j: int| 0 <= j < s.len() && s[j].0 == other;
            assert(t[j].0 == other);
        }
    }
}

} // verus!
