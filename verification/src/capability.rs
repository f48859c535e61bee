//! Capability handles and the capability store: 128-bit handles paired with
//! a kernel-object kind, kept in a store that never holds two entries under
//! the same key.
//!
//! Handle generation is a xorshift over a seed the caller supplies (the
//! kernel feeds it the timestamp counter); the design note that handles
//! must come from a cryptographically secure source stands, with the
//! generator as the pluggable collaborator.

use vstd::prelude::*;

verus! {

/// The 128 bits of a handle, as two machine words.
#[derive(Clone, Copy, PartialEq, Eq, Structural, Debug)]
pub struct HandleKey {
    pub low: u64,
    pub high: u64,
}

/// An unforgeable-by-construction 128-bit token.
#[derive(Clone, Copy, PartialEq, Eq, Structural, Debug)]
pub struct CapabilityHandle {
    pub key: HandleKey,
}

/// One xorshift64 step.
pub open spec fn spec_xorshift64(s: u64) -> u64 {
    ((s ^ (s << 13)) ^ ((s ^ (s << 13)) >> 17)) ^ (((s ^ (s << 13)) ^ ((s ^ (s << 13)) >> 17))
        << 5)
}

impl CapabilityHandle {
    /// A handle over an existing key.
    pub fn new(key: HandleKey) -> (h: CapabilityHandle)
        ensures
            h.key == key,
    {
        CapabilityHandle { key }
    }

    /// Generate a handle from a seed with two xorshift64 draws. The seed
    /// comes from the caller; the kernel uses the timestamp counter.
    pub fn generate(seed: u64) -> (h: CapabilityHandle)
        ensures
            h.key.low == spec_xorshift64(seed),
            h.key.high == spec_xorshift64(spec_xorshift64(seed)),
    {
        let first = xorshift64(seed);
        let second = xorshift64(first);
        CapabilityHandle { key: HandleKey { low: first, high: second } }
    }
}

/// One xorshift64 step, executable.
fn xorshift64(s: u64) -> (r: u64)
    ensures
        r == spec_xorshift64(s),
{
    let mut v = s;
    v = v ^ (v << 13);
    v = v ^ (v >> 17);
    v ^ (v << 5)
}

/// The kinds of kernel object a capability can grant access to.
#[derive(Clone, Copy, PartialEq, Eq, Structural, Debug)]
pub enum CapabilityType {
    Task,
    MemoryRegion,
    IODevice,
    FileDescriptor,
}

/// A capability: its kind and its handle.
#[derive(Clone, Copy, PartialEq, Eq, Structural, Debug)]
pub struct Capability {
    pub cap_type: CapabilityType,
    pub handle: CapabilityHandle,
}

/// A key is present somewhere in the store.
pub open spec fn has_key(s: Seq<Capability>, key: HandleKey) -> bool {
    exists|i: int| 0 <= i < s.len() && (#[trigger] s[i]).handle.key == key
}

/// The capability store: a keyed collection with each key at most once.
pub struct CapabilityStore {
    pub caps: Vec<Capability>,
}

impl CapabilityStore {
    /// No key twice.
    pub open spec fn wf(&self) -> bool {
        forall|i: int, j: int|
            #![trigger self.caps@[i], self.caps@[j]]
            0 <= i < j < self.caps@.len() ==> self.caps@[i].handle.key != self.caps@[j].handle.key
    }

    /// An empty store.
    pub fn new() -> (s: CapabilityStore)
        ensures
            s.wf(),
            s.caps@ == Seq::<Capability>::empty(),
    {
        CapabilityStore { caps: Vec::new() }
    }

    /// Find the index of a key.
    fn find(&self, key: HandleKey) -> (r: Option<usize>)
        ensures
            match r {
                Some(i) => i < self.caps@.len() && self.caps@[i as int].handle.key == key,
                None => !has_key(self.caps@, key),
            },
    {
        let mut i: usize = 0;
        while i < self.caps.len()
            invariant
                i <= self.caps@.len(),
                forall|j: int| 0 <= j < i ==> (#[trigger] self.caps@[j]).handle.key != key,
            decreases self.caps@.len() - i,
        {
            if self.caps[i].handle.key.low == key.low && self.caps[i].handle.key.high == key.high {
                return Some(i);
            }
            i += 1;
        }
        None
    }

    /// Add a capability; refused when its key is already present.
    pub fn add_capability(&mut self, cap: Capability) -> (ok: bool)
        requires
            old(self).wf(),
        ensures
            final(self).wf(),
            ok == !has_key(old(self).caps@, cap.handle.key),
            ok ==> final(self).caps@ == old(self).caps@.push(cap),
            !ok ==> final(self).caps@ == old(self).caps@,
    {
        match self.find(cap.handle.key) {
            Some(_) => false,
            None => {
                self.caps.push(cap);
                true
            },
        }
    }

    /// Look up a capability by key.
    pub fn get_capability(&self, key: HandleKey) -> (r: Option<&Capability>)
        requires
            self.wf(),
        ensures
            match r {
                Some(c) => has_key(self.caps@, key) && c.handle.key == key && has_key(
                    self.caps@,
                    key,
                ) && exists|i: int| 0 <= i < self.caps@.len() && self.caps@[i] == *c,
                None => !has_key(self.caps@, key),
            },
    {
        match self.find(key) {
            Some(i) => Some(&self.caps[i]),
            None => None,
        }
    }

    /// Remove a capability by key; reports whether one was removed.
    pub fn remove_capability(&mut self, key: HandleKey) -> (ok: bool)
        requires
            old(self).wf(),
        ensures
            final(self).wf(),
            ok == has_key(old(self).caps@, key),
            !ok ==> final(self).caps@ == old(self).caps@,
            ok ==> final(self).caps@.len() == old(self).caps@.len() - 1 && !has_key(
                final(self).caps@,
                key,
            ),
    {
        match self.find(key) {
            None => false,
            Some(i) => {
                let ghost before = self.caps@;
                self.caps.remove(i);
                proof {
                    assert forall|a: int, b: int|
                        #![trigger self.caps@[a], self.caps@[b]]
                        0 <= a < b < self.caps@.len() implies self.caps@[a].handle.key
                        != self.caps@[b].handle.key by {
                        if a < i {
                            assert(self.caps@[a] == before[a]);
                        } else {
                            assert(self.caps@[a] == before[a + 1]);
                        }
                        if b < i {
                            assert(self.caps@[b] == before[b]);
                        } else {
                            assert(self.caps@[b] == before[b + 1]);
                        }
                    }
                    assert forall|a: int|
                        0 <= a < self.caps@.len() implies (#[trigger] self.caps@[a]).handle.key
                        != key by {
                        if a < i {
                            assert(self.caps@[a] == before[a]);
                        } else {
                            assert(self.caps@[a] == before[a + 1]);
                        }
                    }
                }
                true
            },
        }
    }
}

} // verus!
