// SPDX-License-Identifier: GPL-2.0-or-later
//! The table of the probes that are listening.

use std::collections::HashMap;

use vstd::prelude::*;

verus! {

/// A probe that is listening; the handle is the host's.
pub struct Probe<H> {
    pub input_name: String,
    pub kind: String,
    pub handle: H,
}

/// The probes that are listening, by number.
pub struct Probes<H> {
    next_id: u64,
    open: HashMap<u64, Probe<H>>,
}

impl<H> Probes<H> {
    /// The number the next probe gets.
    pub closed spec fn next_id(&self) -> u64 {
        self.next_id
    }

    pub closed spec fn open(&self) -> Map<u64, Probe<H>> {
        self.open@
    }

    /// No probe has a number yet to be given.
    pub open spec fn well_formed(&self) -> bool {
        forall|id: u64| #[trigger] self.open().contains_key(id) ==> id < self.next_id()
    }

    pub fn new() -> (probes: Self)
        ensures
            probes.well_formed(),
            probes.next_id() == 1,
            probes.open() == Map::<u64, Probe<H>>::empty(),
    {
        Probes { next_id: 1, open: HashMap::new() }
    }

    /// The number of a new probe. Each is given once, as long as they last.
    pub fn take_id(&mut self) -> (id: u64)
        ensures
            id == old(self).next_id(),
            final(self).next_id() == old(self).next_id().wrapping_add(1),
            final(self).open() == old(self).open(),
            old(self).well_formed() ==> !old(self).open().contains_key(id),
            old(self).well_formed() && id < u64::MAX ==> final(self).well_formed(),
    {
        let id: u64 = self.next_id;
        self.next_id = self.next_id.wrapping_add(1);
        proof {
            if old(self).well_formed() && id < u64::MAX {
                assert forall|k: u64| #[trigger] self.open().contains_key(k) implies k < self.next_id() by {
                    assert(old(self).open().contains_key(k));
                }
            }
        }
        id
    }

    /// Keeps a probe that is listening.
    pub fn track(&mut self, id: u64, probe: Probe<H>)
        ensures
            final(self).open() == old(self).open().insert(id, probe),
            final(self).next_id() == old(self).next_id(),
            old(self).well_formed() && id < old(self).next_id() ==> final(self).well_formed(),
    {
        proof {
            broadcast use vstd::std_specs::hash::group_hash_axioms;
        }
        self.open.insert(id, probe);
        proof {
            if old(self).well_formed() && id < old(self).next_id() {
                assert forall|k: u64| #[trigger] self.open().contains_key(k) implies k < self.next_id() by {
                    assert(k == id || old(self).open().contains_key(k));
                }
            }
        }
    }

    /// Takes a probe out, to be finished; each is finished once.
    pub fn untrack(&mut self, id: u64) -> (probe: Option<Probe<H>>)
        ensures
            match probe {
                Some(p) => old(self).open().contains_key(id) && p == old(self).open()[id],
                None => !old(self).open().contains_key(id),
            },
            final(self).open() == old(self).open().remove(id),
            final(self).next_id() == old(self).next_id(),
            old(self).well_formed() ==> final(self).well_formed(),
    {
        proof {
            broadcast use vstd::std_specs::hash::group_hash_axioms;
        }
        let ghost before = self.open();
        let probe = self.open.remove(&id);
        assert(self.open() =~= before.remove(id));
        probe
    }
}

} // verus!
