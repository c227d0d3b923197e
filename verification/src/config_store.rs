//! Countdown records and the configuration store.
//!
//! The store owns the current list of countdown records. Readers get a deep
//! copy (`get_config`), a reload replaces the whole list at once
//! (`set_config`), and a failed reload leaves the list untouched
//! (`apply_reload`). The caller is responsible for the mutual-exclusion
//! boundary around the store and for decoding the on-disk document into
//! `CountDownData`; the store itself never does I/O.

use vstd::prelude::*;

verus! {

/// One countdown record: a display title, a target timestamp written as
/// `YYYY-MM-DD HH:MM:SS`, and an enable switch. A record whose `datetime`
/// does not parse is skipped tick by tick, never rejected for good.
pub struct Countdown {
    pub title: String,
    pub datetime: String,
    pub enabled: bool,
}

/// The mathematical value of a countdown record.
pub struct CountdownView {
    pub title: Seq<char>,
    pub datetime: Seq<char>,
    pub enabled: bool,
}

impl View for Countdown {
    type V = CountdownView;

    open spec fn view(&self) -> CountdownView {
        CountdownView { title: self.title@, datetime: self.datetime@, enabled: self.enabled }
    }
}

impl Clone for Countdown {
    fn clone(&self) -> (r: Self)
        ensures
            r@ == self@,
    {
        Countdown {
            title: self.title.clone(),
            datetime: self.datetime.clone(),
            enabled: self.enabled,
        }
    }
}

/// The whole decoded configuration: an ordered list of countdown records.
pub struct CountDownData {
    pub countdown: Vec<Countdown>,
}

impl View for CountDownData {
    type V = Seq<CountdownView>;

    open spec fn view(&self) -> Seq<CountdownView> {
        self.countdown@.map_values(|c: Countdown| c@)
    }
}

impl Clone for CountDownData {
    fn clone(&self) -> (r: Self)
        ensures
            r@ == self@,
    {
        let mut list: Vec<Countdown> = Vec::new();
        let mut i: usize = 0;
        while i < self.countdown.len()
            invariant
                i <= self.countdown.len(),
                list@.len() == i as int,
                forall|k: int| 0 <= k < i as int ==> list@[k]@ == self.countdown@[k]@,
            decreases self.countdown.len() - i,
        {
            list.push(self.countdown[i].clone());
            i = i + 1;
        }
        let r = CountDownData { countdown: list };
        proof {
            assert(r@ =~= self@);
        }
        r
    }
}

/// Reloadable configuration holders: re-read the source and replace the
/// data, reporting failure instead of touching the held data.
pub trait HotReload {
    fn reload(&mut self) -> Result<(), ()>;
}

/// The in-memory configuration store. Whoever drives it takes a snapshot
/// each tick and replaces the list wholesale on reload; there is no partial
/// merge.
pub struct ConfigStore {
    data: CountDownData,
}

impl View for ConfigStore {
    type V = Seq<CountdownView>;

    closed spec fn view(&self) -> Seq<CountdownView> {
        self.data@
    }
}

impl ConfigStore {
    /// A store holding the initially decoded configuration.
    pub fn new(data: CountDownData) -> (s: ConfigStore)
        ensures
            s@ == data@,
    {
        ConfigStore { data }
    }

    /// A deep copy of the current list; the caller can hold it across a
    /// tick while reloads go on replacing the store.
    pub fn get_config(&self) -> (r: CountDownData)
        ensures
            r@ == self@,
    {
        self.data.clone()
    }

    /// Replace the whole list with a freshly decoded one.
    pub fn set_config(&mut self, data: CountDownData)
        ensures
            final(self)@ == data@,
    {
        self.data = data;
    }

    /// Outcome of one reload attempt: a decoded document replaces the list,
    /// a failed read or decode (`None`) leaves the previous list unchanged.
    /// Returns whether the list was replaced.
    pub fn apply_reload(&mut self, decoded: Option<CountDownData>) -> (replaced: bool)
        ensures
            decoded is Some ==> replaced && final(self)@ == decoded->0@,
            decoded is None ==> !replaced && final(self)@ == old(self)@,
    {
        match decoded {
            Some(data) => {
                self.data = data;
                true
            },
            None => false,
        }
    }
}

} // verus!
