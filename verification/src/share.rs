//! What a transfer delivers.

use vstd::prelude::*;

verus! {

/// A named byte string, as one transfer hands it to its receiver.
#[derive(Debug, PartialEq, Eq)]
pub struct Data {
    name: String,
    bytes: Vec<u8>,
}

impl Data {
    pub closed spec fn spec_name(&self) -> Seq<char> {
        self.name@
    }

    pub closed spec fn spec_bytes(&self) -> Seq<u8> {
        self.bytes@
    }

    /// The data with the given name and content.
    pub fn new(name: String, bytes: Vec<u8>) -> (data: Data)
        ensures
            data.spec_name() == name@,
            data.spec_bytes() == bytes@,
    {
        Data { name, bytes }
    }

    /// The name under which the data was sent.
    pub fn name(&self) -> (name: &str)
        ensures
            name@ == self.spec_name(),
    {
        self.name.as_str()
    }

    /// The content.
    pub fn bytes(&self) -> (bytes: &[u8])
        ensures
            bytes@ == self.spec_bytes(),
    {
        self.bytes.as_slice()
    }
}

} // verus!
