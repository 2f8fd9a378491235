//! Identifiers of content and of peers.
//!
//! The engine reads nothing of an identifier but its identity, so both kinds
//! are held in their canonical binary encoding.

use vstd::prelude::*;

verus! {

/// Compares two byte strings.
pub fn bytes_eq(a: &Vec<u8>, b: &Vec<u8>) -> (same: bool)
    ensures
        same == (a@ == b@),
{
    if a.len() != b.len() {
        return false;
    }
    let mut i: usize = 0;
    while i < a.len()
        invariant
            a.len() == b.len(),
            i <= a.len(),
            forall|j: int| 0 <= j < i ==> a@[j] == b@[j],
        decreases a.len() - i,
    {
        if a[i] != b[i] {
            return false;
        }
        i += 1;
    }
    assert(a@ =~= b@);
    true
}

/// Copies a byte string.
pub fn bytes_copy(a: &Vec<u8>) -> (copy: Vec<u8>)
    ensures
        copy@ == a@,
{
    let mut out: Vec<u8> = Vec::with_capacity(a.len());
    let mut i: usize = 0;
    while i < a.len()
        invariant
            i <= a.len(),
            out@ == a@.subrange(0, i as int),
        decreases a.len() - i,
    {
        out.push(a[i]);
        assert(out@ =~= a@.subrange(0, i + 1));
        i += 1;
    }
    assert(out@ =~= a@);
    out
}

/// A content identifier in its binary encoding.
#[derive(Debug, PartialEq, Eq, Hash)]
pub struct Cid {
    pub bytes: Vec<u8>,
}

impl View for Cid {
    type V = Seq<u8>;

    open spec fn view(&self) -> Seq<u8> {
        self.bytes@
    }
}

impl Clone for Cid {
    fn clone(&self) -> (copy: Self)
        ensures
            copy@ == self@,
    {
        Cid { bytes: bytes_copy(&self.bytes) }
    }
}

impl Cid {
    /// Wraps the binary encoding of a content identifier.
    pub fn from_bytes(bytes: Vec<u8>) -> (cid: Cid)
        ensures
            cid@ == bytes@,
    {
        Cid { bytes }
    }

    /// The binary encoding.
    pub fn to_bytes(&self) -> (bytes: Vec<u8>)
        ensures
            bytes@ == self@,
    {
        bytes_copy(&self.bytes)
    }

    /// Whether two identifiers name the same content.
    pub fn same(&self, other: &Cid) -> (same: bool)
        ensures
            same == (self@ == other@),
    {
        bytes_eq(&self.bytes, &other.bytes)
    }
}

/// The identifier of a remote peer in its binary encoding.
#[derive(Debug, PartialEq, Eq, Hash)]
pub struct PeerId {
    pub bytes: Vec<u8>,
}

impl View for PeerId {
    type V = Seq<u8>;

    open spec fn view(&self) -> Seq<u8> {
        self.bytes@
    }
}

impl Clone for PeerId {
    fn clone(&self) -> (copy: Self)
        ensures
            copy@ == self@,
    {
        PeerId { bytes: bytes_copy(&self.bytes) }
    }
}

impl PeerId {
    /// Wraps the binary encoding of a peer identifier.
    pub fn from_bytes(bytes: Vec<u8>) -> (peer: PeerId)
        ensures
            peer@ == bytes@,
    {
        PeerId { bytes }
    }

    /// The binary encoding.
    pub fn to_bytes(&self) -> (bytes: Vec<u8>)
        ensures
            bytes@ == self@,
    {
        bytes_copy(&self.bytes)
    }

    /// Whether two identifiers name the same peer.
    pub fn same(&self, other: &PeerId) -> (same: bool)
        ensures
            same == (self@ == other@),
    {
        bytes_eq(&self.bytes, &other.bytes)
    }
}

} // verus!
