//! The device-asset registry (`index.json`) and its lookups.
//!
//! The registry maps a depot name to the device it describes. A depot name
//! occurs once; the lookups return *a* matching depot, and `None` exactly when
//! no depot matches.

use vstd::prelude::*;
use crate::text::{
    str_eq,
    ascii_lower_seq, eq_ignore_ascii_case, eq_ignore_ascii_case_spec, ends_with_ignore_ascii_case,
    has_suffix,
};

verus! {

/// One downloadable file of a depot.
#[derive(Debug, Clone)]
pub struct FileEntry {
    pub name: String,
    pub sha256: String,
    pub bytes: u64,
}

/// One device in the registry.
#[derive(Debug, Clone)]
pub struct DeviceEntry {
    /// Registry model id, e.g. `"6b023"`.
    pub model_id: String,
    /// Marketing name, e.g. `"MX Master 3"`.
    pub display_name: String,
    /// Device kind (`"MOUSE"`, `"KEYBOARD"`, ...).
    pub kind: String,
    /// Path of the depot on the asset host, e.g. `"v1/devices/mx_master_3/"`.
    pub asset_path: String,
    pub files: Vec<FileEntry>,
}

/// The whole registry: `(depot, entry)` pairs.
#[derive(Debug)]
pub struct Index {
    pub schema_version: u32,
    pub devices: Vec<(String, DeviceEntry)>,
}

/// The entry's `modelId` equals `model_id`, ignoring ASCII case.
pub open spec fn model_id_matches(entry: DeviceEntry, model_id: Seq<char>) -> bool {
    eq_ignore_ascii_case_spec(entry.model_id@, model_id)
}

/// The entry's `modelId` ends with `suffix`, ignoring ASCII case.
pub open spec fn model_id_suffix_matches(entry: DeviceEntry, suffix: Seq<char>) -> bool {
    has_suffix(ascii_lower_seq(entry.model_id@), ascii_lower_seq(suffix))
}

/// The entry's `displayName` equals `name`, ignoring ASCII case.
pub open spec fn display_name_matches(entry: DeviceEntry, name: Seq<char>) -> bool {
    eq_ignore_ascii_case_spec(entry.display_name@, name)
}

impl Index {
    /// Depot names occur at most once.
    pub open spec fn wf(&self) -> bool {
        forall|i: int, j: int|
            0 <= i < self.devices.len() && 0 <= j < self.devices.len() && i != j
                ==> #[trigger] self.devices[i].0@ != #[trigger] self.devices[j].0@
    }

    /// `(depot, entry)` is one of the registry's pairs.
    pub open spec fn holds(&self, depot: Seq<char>, entry: DeviceEntry) -> bool {
        exists|i: int|
            0 <= i < self.devices.len() && #[trigger] self.devices[i].0@ == depot
                && self.devices[i].1 == entry
    }

    /// An empty registry of the given schema version.
    pub fn new(schema_version: u32) -> (r: Index)
        ensures
            r.schema_version == schema_version,
            r.devices@.len() == 0,
            r.wf(),
    {
        Index { schema_version, devices: Vec::new() }
    }

    /// Records `entry` under the depot name `depot`, replacing the entry that
    /// name had: afterwards `depot` holds exactly `entry`, every other depot
    /// holds what it held before, and depot names still occur once.
    pub fn insert(&mut self, depot: String, entry: DeviceEntry)
        requires
            old(self).wf(),
        ensures
            final(self).wf(),
            final(self).schema_version == old(self).schema_version,
            forall|e: DeviceEntry| #[trigger] final(self).holds(depot@, e) <==> e == entry,
            forall|d: Seq<char>, e: DeviceEntry|
                d != depot@ ==> (#[trigger] final(self).holds(d, e) <==> old(self).holds(d, e)),
    {
        let ghost before = *self;
        match self.depot_position(depot.as_str()) {
            Some(i) => {
                self.devices.set(i, (depot, entry));
                proof {
                    let after = *self;
                    assert forall|d: Seq<char>, e: DeviceEntry|
                        d != depot@ implies (#[trigger] after.holds(d, e) <==> before.holds(d, e)) by {
                        if after.holds(d, e) {
                            let k = choose|k: int|
                                0 <= k < after.devices.len() && #[trigger] after.devices[k].0@ == d
                                    && after.devices[k].1 == e;
                            assert(k != i);
                            assert(before.devices[k] == after.devices[k]);
                        }
                        if before.holds(d, e) {
                            let k = choose|k: int|
                                0 <= k < before.devices.len() && #[trigger] before.devices[k].0@ == d
                                    && before.devices[k].1 == e;
                            assert(k != i);
                            assert(before.devices[k] == after.devices[k]);
                        }
                    }
                    assert forall|e: DeviceEntry| #[trigger] after.holds(depot@, e) implies e == entry by {
                        let k = choose|k: int|
                            0 <= k < after.devices.len() && #[trigger] after.devices[k].0@ == depot@
                                && after.devices[k].1 == e;
                        if k != i {
                            assert(before.devices[k].0@ == before.devices[i as int].0@);
                        }
                    }
                    assert(after.devices[i as int].0@ == depot@);
                }
            },
            None => {
                self.devices.push((depot, entry));
                proof {
                    let after = *self;
                    let last = before.devices.len() as int;
                    assert forall|d: Seq<char>, e: DeviceEntry|
                        d != depot@ implies (#[trigger] after.holds(d, e) <==> before.holds(d, e)) by {
                        if after.holds(d, e) {
                            let k = choose|k: int|
                                0 <= k < after.devices.len() && #[trigger] after.devices[k].0@ == d
                                    && after.devices[k].1 == e;
                            assert(k != last);
                            assert(before.devices[k] == after.devices[k]);
                        }
                        if before.holds(d, e) {
                            let k = choose|k: int|
                                0 <= k < before.devices.len() && #[trigger] before.devices[k].0@ == d
                                    && before.devices[k].1 == e;
                            assert(before.devices[k] == after.devices[k]);
                        }
                    }
                    assert forall|e: DeviceEntry| #[trigger] after.holds(depot@, e) implies e == entry by {
                        let k = choose|k: int|
                            0 <= k < after.devices.len() && #[trigger] after.devices[k].0@ == depot@
                                && after.devices[k].1 == e;
                        if k != last {
                            assert(before.devices[k] == after.devices[k]);
                        }
                    }
                    assert(after.devices[last].0@ == depot@);
                }
            },
        }
    }

    /// Where the depot named `depot` stands in the registry, if it is there.
    fn depot_position(&self, depot: &str) -> (r: Option<usize>)
        ensures
            match r {
                Some(i) => i < self.devices.len() && self.devices[i as int].0@ == depot@,
                None => forall|k: int|
                    0 <= k < self.devices.len() ==> #[trigger] self.devices[k].0@ != depot@,
            },
    {
        let n = self.devices.len();
        let mut i: usize = 0;
        while i < n
            invariant
                n == self.devices.len(),
                i <= n,
                forall|k: int| 0 <= k < i ==> #[trigger] self.devices[k].0@ != depot@,
            decreases n - i,
        {
            if str_eq(self.devices[i].0.as_str(), depot) {
                return Some(i);
            }
            i += 1;
        }
        None
    }

    /// The depot named `depot` (exact name) with its entry.
    pub fn get(&self, depot: &str) -> (r: Option<(&str, &DeviceEntry)>)
        ensures
            r is None <==> forall|i: int|
                0 <= i < self.devices.len() ==> #[trigger] self.devices[i].0@ != depot@,
            r matches Some((d, e)) ==> d@ == depot@ && self.holds(depot@, *e),
            r matches Some((d, e)) ==> self.wf() ==> forall|i: int|
                0 <= i < self.devices.len() && #[trigger] self.devices[i].0@ == depot@
                    ==> self.devices[i].1 == *e,
    {
        let n = self.devices.len();
        let mut i: usize = 0;
        while i < n
            invariant
                n == self.devices.len(),
                i <= n,
                forall|k: int| 0 <= k < i ==> #[trigger] self.devices[k].0@ != depot@,
            decreases n - i,
        {
            let pair = &self.devices[i];
            if str_eq(pair.0.as_str(), depot) {
                proof {
                    assert(self.devices[i as int].0@ == depot@);
                }
                return Some((pair.0.as_str(), &pair.1));
            }
            i += 1;
        }
        None
    }

    /// Find the depot whose `modelId` matches `model_id` (ASCII case-insensitive).
    pub fn find_by_model_id(&self, model_id: &str) -> (r: Option<(&str, &DeviceEntry)>)
        ensures
            r is None <==> forall|i: int|
                0 <= i < self.devices.len() ==> !model_id_matches(
                    #[trigger] self.devices[i].1,
                    model_id@,
                ),
            r matches Some((d, e)) ==> self.holds(d@, *e) && model_id_matches(*e, model_id@),
    {
        let n = self.devices.len();
        let mut i: usize = 0;
        while i < n
            invariant
                n == self.devices.len(),
                i <= n,
                forall|k: int| 0 <= k < i ==> !model_id_matches(#[trigger] self.devices[k].1, model_id@),
            decreases n - i,
        {
            let pair = &self.devices[i];
            if eq_ignore_ascii_case(pair.1.model_id.as_str(), model_id) {
                proof {
                    assert(self.devices[i as int].0@ == pair.0@);
                }
                return Some((pair.0.as_str(), &pair.1));
            }
            i += 1;
        }
        None
    }

    /// Find the depot whose `modelId` ends with `suffix` (ASCII case-insensitive).
    pub fn find_by_model_id_suffix(&self, suffix: &str) -> (r: Option<(&str, &DeviceEntry)>)
        ensures
            r is None <==> forall|i: int|
                0 <= i < self.devices.len() ==> !model_id_suffix_matches(
                    #[trigger] self.devices[i].1,
                    suffix@,
                ),
            r matches Some((d, e)) ==> self.holds(d@, *e) && model_id_suffix_matches(*e, suffix@),
    {
        let n = self.devices.len();
        let mut i: usize = 0;
        while i < n
            invariant
                n == self.devices.len(),
                i <= n,
                forall|k: int|
                    0 <= k < i ==> !model_id_suffix_matches(#[trigger] self.devices[k].1, suffix@),
            decreases n - i,
        {
            let pair = &self.devices[i];
            if ends_with_ignore_ascii_case(pair.1.model_id.as_str(), suffix) {
                proof {
                    assert(self.devices[i as int].0@ == pair.0@);
                }
                return Some((pair.0.as_str(), &pair.1));
            }
            i += 1;
        }
        None
    }

    /// Find the depot whose `displayName` equals `name` (ASCII case-insensitive, exact).
    pub fn find_by_display_name(&self, name: &str) -> (r: Option<(&str, &DeviceEntry)>)
        ensures
            r is None <==> forall|i: int|
                0 <= i < self.devices.len() ==> !display_name_matches(
                    #[trigger] self.devices[i].1,
                    name@,
                ),
            r matches Some((d, e)) ==> self.holds(d@, *e) && display_name_matches(*e, name@),
    {
        let n = self.devices.len();
        let mut i: usize = 0;
        while i < n
            invariant
                n == self.devices.len(),
                i <= n,
                forall|k: int| 0 <= k < i ==> !display_name_matches(#[trigger] self.devices[k].1, name@),
            decreases n - i,
        {
            let pair = &self.devices[i];
            if eq_ignore_ascii_case(pair.1.display_name.as_str(), name) {
                proof {
                    assert(self.devices[i as int].0@ == pair.0@);
                }
                return Some((pair.0.as_str(), &pair.1));
            }
            i += 1;
        }
        None
    }
}


/// An exact (case-insensitive) model-id match is also a suffix match, so the
/// suffix fallback finds a depot whenever the exact lookup does.
pub proof fn lemma_exact_match_is_suffix_match(entry: DeviceEntry, model_id: Seq<char>)
    requires
        model_id_matches(entry, model_id),
    ensures
        model_id_suffix_matches(entry, model_id),
{
    let a = ascii_lower_seq(entry.model_id@);
    assert(a.subrange(a.len() - a.len(), a.len() as int) =~= a);
}

} // verus!
