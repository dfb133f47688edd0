//! Spawn handles: a pointer into the pool, a group tag, and a short name.
//!
//! A name is at most 16 bytes; longer names are truncated and shorter ones
//! zero-padded, so every stored name occupies exactly 16 bytes.

use vstd::prelude::*;
use vstd::string::StringSliceAdditionalSpecFns;

verus! {

/// A group tag selecting a factory and a scoped index bucket.
pub type Group = usize;

/// The number of bytes a stored name occupies.
pub const NAME_BYTES: usize = 16;

/// What a name's byte sequence looks like once truncated to 16 bytes and
/// zero-padded: the first `min(16, |s|)` bytes of `s`, then zeros.
pub open spec fn padded_name(s: Seq<u8>) -> Seq<u8> {
    Seq::new(NAME_BYTES as nat, |i: int| if i < s.len() { s[i] } else { 0u8 })
}

/// A fixed-size, zero-padded entity name.
#[derive(Clone, Copy, Debug)]
pub struct Name {
    bytes: [u8; 16],
}

impl View for Name {
    type V = Seq<u8>;

    closed spec fn view(&self) -> Seq<u8> {
        self.bytes@
    }
}

impl Name {
    /// Builds a name from a string's bytes, truncated and zero-padded.
    pub fn from_str(s: &str) -> (r: Name)
        ensures
            r@ == padded_name(s.spec_bytes()),
    {
        let bs: &[u8] = s.as_bytes();
        let mut bytes: [u8; 16] = [0u8; 16];
        let mut i: usize = 0;
        while i < 16
            invariant
                i <= 16,
                bytes@.len() == 16,
                bs@ == s.spec_bytes(),
                forall|j: int| 0 <= j < i ==> bytes@[j] == padded_name(bs@)[j],
                forall|j: int| i <= j < 16 ==> bytes@[j] == 0u8,
            decreases 16 - i,
        {
            if i < bs.len() {
                bytes[i] = bs[i];
            }
            i += 1;
        }
        proof {
            assert(bytes@ =~= padded_name(s.spec_bytes()));
        }
        Name { bytes }
    }

    /// The zero name: all 16 bytes zero.
    pub fn blank() -> (r: Name)
        ensures
            r@ == padded_name(Seq::<u8>::empty()),
    {
        let bytes: [u8; 16] = [0u8; 16];
        proof {
            assert(bytes@ =~= padded_name(Seq::<u8>::empty()));
        }
        Name { bytes }
    }

    /// The stored bytes, zero padding included.
    pub fn bytes(&self) -> (r: &[u8; 16])
        ensures
            r@ == self@,
    {
        &self.bytes
    }

    /// Byte-for-byte comparison of two stored names.
    pub fn same(&self, other: &Name) -> (r: bool)
        ensures
            r == (self@ == other@),
    {
        let mut i: usize = 0;
        while i < 16
            invariant
                i <= 16,
                forall|j: int| 0 <= j < i ==> self.bytes@[j] == other.bytes@[j],
            decreases 16 - i,
        {
            if self.bytes[i] != other.bytes[i] {
                return false;
            }
            i += 1;
        }
        proof {
            assert(self.bytes@ =~= other.bytes@);
        }
        true
    }
}

impl Default for Name {
    /// The default name is all zeros.
    fn default() -> (r: Self)
        ensures
            r@ == padded_name(Seq::<u8>::empty()),
    {
        Name::blank()
    }
}

/// Whether a handle list holds a handle with the given pointer.
pub open spec fn has_pointer(handles: Seq<Spawn>, pointer: usize) -> bool {
    exists|i: int| 0 <= i < handles.len() && handles[i].pointer == pointer
}

/// A handle identifying one active instantiation: which slot it lives in,
/// which group built it, and the name it was spawned under.
///
/// Handle equality (`==` in executable code) goes by the pointer alone.
#[derive(Clone, Copy, Debug)]
pub struct Spawn {
    pub pointer: usize,
    pub group: Group,
    pub name: Name,
}

impl Spawn {
    /// The slot this handle points at.
    pub fn pointer(&self) -> (r: &usize)
        ensures
            r == self.pointer,
    {
        &self.pointer
    }

    /// The group this handle was spawned in.
    pub fn group(&self) -> (r: &Group)
        ensures
            r == self.group,
    {
        &self.group
    }

    /// The stored, zero-padded name.
    pub fn name(&self) -> (r: &Name)
        ensures
            r == self.name,
    {
        &self.name
    }

    /// Overwrites the stored name with a fresh string, truncated and padded.
    pub fn new_name(&mut self, name: &str)
        ensures
            final(self).name@ == padded_name(name.spec_bytes()),
            final(self).pointer == old(self).pointer,
            final(self).group == old(self).group,
    {
        self.name = Name::from_str(name);
    }
}

impl Default for Spawn {
    /// The default handle: slot 0, group 0, zero name.
    fn default() -> (r: Self)
        ensures
            r.pointer == 0,
            r.group == 0,
            r.name@ == padded_name(Seq::<u8>::empty()),
    {
        Spawn { pointer: 0, group: 0, name: Name::blank() }
    }
}

impl PartialEq for Spawn {
    /// Two handles are equal when they point at the same slot.
    fn eq(&self, other: &Spawn) -> (r: bool) {
        self.pointer == other.pointer
    }
}

impl vstd::std_specs::cmp::PartialEqSpecImpl for Spawn {
    open spec fn obeys_eq_spec() -> bool {
        true
    }

    open spec fn eq_spec(&self, other: &Spawn) -> bool {
        self.pointer == other.pointer
    }
}

} // verus!
