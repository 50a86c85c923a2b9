//! Rows as bytes.

use bytes::Bytes;
use vstd::prelude::*;

use crate::byte_buffer::{self, as_slice};

verus! {

/// A row in a binary format.
pub struct BinaryRow<'a> {
    data: BinaryDataWrapper<'a>,
}

/// Bytes that are shared, or borrowed.
pub enum BinaryDataWrapper<'a> {
    Bytes(Bytes),
    Ref(&'a [u8]),
}

impl<'a> View for BinaryDataWrapper<'a> {
    type V = Seq<u8>;

    open spec fn view(&self) -> Seq<u8> {
        match self {
            BinaryDataWrapper::Bytes(bytes) => byte_buffer::contents(*bytes),
            BinaryDataWrapper::Ref(r) => r@,
        }
    }
}

impl<'a> View for BinaryRow<'a> {
    type V = Seq<u8>;

    closed spec fn view(&self) -> Seq<u8> {
        self.data@
    }
}

impl<'a> BinaryRow<'a> {
    pub fn new(data: BinaryDataWrapper<'a>) -> (r: Self)
        ensures
            r@ == data@,
    {
        BinaryRow { data }
    }

    /// Returns the binary representation of this row as a byte slice.
    pub fn as_bytes(&'a self) -> (r: &'a [u8])
        ensures
            r@ == self@,
    {
        match &self.data {
            BinaryDataWrapper::Bytes(bytes) => as_slice(bytes),
            BinaryDataWrapper::Ref(r) => r,
        }
    }
}

} // verus!
