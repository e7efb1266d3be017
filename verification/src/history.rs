use vstd::prelude::*;

use crate::keymap::KeyMap;

verus! {

/// One coalesced run in the input history: a logical action together with
/// how many extra ticks it was seen in a row, and a decay counter.
#[derive(Clone, Copy, Debug, PartialEq, Eq, Structural)]
pub struct KeyCount {
    pub key: KeyMap,
    pub count: u8,
    pub timeout: u8,
}

/// The run that a freshly reset history holds.
pub open spec fn null_run() -> KeyCount {
    KeyCount { key: KeyMap::Unknown, count: 0, timeout: 0 }
}

impl KeyCount {
    pub fn new(key: KeyMap, count: u8, timeout: u8) -> (r: Self)
        ensures
            r == (KeyCount { key, count, timeout }),
    {
        Self { key, count, timeout }
    }

    pub fn null() -> (r: Self)
        ensures
            r == null_run(),
    {
        Self::new(KeyMap::Unknown, 0, 0)
    }

    /// Whether this run matches a pattern entry: same action, and seen at
    /// least as often as the pattern asks.
    pub fn matched(&self, map: &KeyCount) -> (r: bool)
        ensures
            r == (self.key == map.key && self.count >= map.count),
    {
        self.key == map.key && self.count >= map.count
    }
}

/// What recording one classified action does to the history. A repeat of
/// the last run's action coalesces: outside the Walk state the run's count
/// grows (saturating), inside it the count is cleared so that the repeat
/// reads as a fresh tap. A different action appends a new run.
pub open spec fn record_one(h: Seq<KeyCount>, action: KeyMap, in_walk: bool) -> Seq<KeyCount>
    recommends
        h.len() >= 1,
{
    let last = h.last();
    if last.key == action {
        if in_walk {
            h.update(h.len() - 1, KeyCount { key: last.key, count: 0, timeout: last.timeout })
        } else if last.count < 255 {
            h.update(
                h.len() - 1,
                KeyCount { key: last.key, count: (last.count + 1) as u8, timeout: last.timeout },
            )
        } else {
            h
        }
    } else {
        h.push(KeyCount { key: action, count: 0, timeout: 0 })
    }
}

/// Recording a whole tick's classified actions, one after the other.
pub open spec fn record_all(h: Seq<KeyCount>, in_walk: bool, actions: Seq<KeyMap>) -> Seq<
    KeyCount,
>
    decreases actions.len(),
{
    if actions.len() == 0 {
        h
    } else {
        record_all(record_one(h, actions[0], in_walk), in_walk, actions.skip(1))
    }
}

/// What one sampled miss does to the history: an `Unknown` run at the tail
/// grows (saturating), anything else gets a fresh null run appended.
pub open spec fn mark_miss_spec(h: Seq<KeyCount>) -> Seq<KeyCount>
    recommends
        h.len() >= 1,
{
    let last = h.last();
    if last.key == KeyMap::Unknown && last.count < 255 {
        h.update(h.len() - 1, KeyCount { key: last.key, count: (last.count + 1) as u8, timeout: last.timeout })
    } else {
        h.push(null_run())
    }
}

/// The ordered log of recent coalesced key runs for one player. It always
/// holds at least one run; a reset truncates it to a single null run.
#[derive(Clone, Debug)]
pub struct InputHistory {
    entries: Vec<KeyCount>,
}

impl View for InputHistory {
    type V = Seq<KeyCount>;

    closed spec fn view(&self) -> Seq<KeyCount> {
        self.entries@
    }
}

impl InputHistory {
    /// A fresh history: a single null run.
    pub fn new() -> (r: Self)
        ensures
            r@ =~= seq![null_run()],
    {
        let mut entries: Vec<KeyCount> = Vec::new();
        entries.push(KeyCount::null());
        Self { entries }
    }

    pub fn len(&self) -> (r: usize)
        ensures
            r == self@.len(),
    {
        self.entries.len()
    }

    pub fn get(&self, i: usize) -> (r: &KeyCount)
        requires
            i < self@.len(),
        ensures
            *r == self@[i as int],
    {
        &self.entries[i]
    }

    pub fn last(&self) -> (r: &KeyCount)
        requires
            self@.len() >= 1,
        ensures
            *r == self@.last(),
    {
        &self.entries[self.entries.len() - 1]
    }

    /// Records one classified action. The history never shrinks here, and a
    /// repeat of the last action outside the Walk state coalesces: the
    /// length stays, only the run's count grows (saturating at its maximum).
    pub fn record(&mut self, action: KeyMap, in_walk: bool)
        requires
            old(self)@.len() >= 1,
        ensures
            final(self)@ == record_one(old(self)@, action, in_walk),
            final(self)@.len() >= old(self)@.len(),
            final(self)@.len() >= 1,
            (action == old(self)@.last().key && !in_walk) ==> final(self)@.len() == old(self)@.len()
                && final(self)@.last().key == action && final(self)@.last().count == (
            if old(self)@.last().count < 255 {
                old(self)@.last().count + 1
            } else {
                255
            }),
    {
        let n = self.entries.len();
        let last = self.entries[n - 1];
        if last.key == action {
            if in_walk {
                self.entries.set(n - 1, KeyCount { key: last.key, count: 0, timeout: last.timeout });
            } else if last.count < 255 {
                self.entries.set(
                    n - 1,
                    KeyCount { key: last.key, count: last.count + 1, timeout: last.timeout },
                );
            }
        } else {
            self.entries.push(KeyCount::new(action, 0, 0));
        }
    }

    /// Notes a sampled miss: no key of interest was down this tick.
    pub fn mark_miss(&mut self)
        requires
            old(self)@.len() >= 1,
        ensures
            final(self)@ == mark_miss_spec(old(self)@),
            final(self)@.len() >= 1,
    {
        let n = self.entries.len();
        let last = self.entries[n - 1];
        if last.key == KeyMap::Unknown && last.count < 255 {
            self.entries.set(
                n - 1,
                KeyCount { key: last.key, count: last.count + 1, timeout: last.timeout },
            );
        } else {
            self.entries.push(KeyCount::null());
        }
    }

    /// Truncates the history back to a single null run.
    pub fn reset(&mut self)
        ensures
            final(self)@ =~= seq![null_run()],
    {
        self.entries = Vec::new();
        self.entries.push(KeyCount::null());
    }
}

/// Law: however long a sequence of classified actions is fed to a history,
/// recording never decreases its length.
pub proof fn lemma_record_never_shrinks(h: Seq<KeyCount>, in_walk: bool, actions: Seq<KeyMap>)
    requires
        h.len() >= 1,
    ensures
        record_all(h, in_walk, actions).len() >= h.len(),
    decreases actions.len(),
{
    if actions.len() > 0 {
        lemma_record_never_shrinks(record_one(h, actions[0], in_walk), in_walk, actions.skip(1));
    }
}

} // verus!
