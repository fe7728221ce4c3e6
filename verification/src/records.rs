//! Record types and borrowed views of their encodings.
//!
//! A view wraps the byte buffer an encoded record sits in, borrowing rather
//! than copying; the record type itself owns its parts.

use vstd::prelude::*;

verus! {

/// One opaque part of a record.
pub struct Bar;

/// Another opaque part of a record.
pub struct Baz;

/// A sample record of two parts.
pub struct Foo {
    /// The record's first part.
    pub bar: Bar,
    /// The record's second part.
    pub baz: Baz,
}

/// A borrowed view of an encoded `Foo`: the bytes it was parsed from.
pub struct FooView<'a>(pub &'a [u8]);

impl<'a> FooView<'a> {
    /// The encoded length, in bytes.
    pub fn len(&self) -> (n: usize)
        ensures
            n == self.0@.len(),
    {
        self.0.len()
    }
}

} // verus!
