//! Typed access to the text files of the Linux cgroup v2 filesystem.
//!
//! Every interface file has one of a few shapes: a single value, a list of values
//! separated by spaces or newlines, a flat-keyed block of `key value` lines, or a
//! nested-keyed table of `key k=v k=v ...` lines. The decoders in [`util`] turn the
//! text of such a file into typed values; the views ([`cgroup::CGroup`],
//! [`cpu::Cpu`], [`memory::Memory`], [`io::IO`]) bind each file name to its decoder,
//! and [`psi`] reads the pressure files.
//! Reading and writing the files themselves is left to the caller: a view takes the
//! text that was read, and gives the text that is to be written.
use vstd::prelude::*;

pub mod cgroup;
pub mod common;
pub mod controller;
pub mod cpu;
pub mod error;
pub mod io;
pub mod manager;
pub mod memory;
pub mod num;
pub mod psi;
pub mod text;
pub mod util;

verus! {

/// A value that can stand in an interface file as one token of text.
pub trait FieldValue: Sized {
    /// The value that the text `s` denotes, if any.
    spec fn parse_spec(s: Seq<char>) -> Option<Self>;

    fn parse(s: &str) -> (r: Option<Self>)
        ensures
            r == Self::parse_spec(s@),
    ;
}

/// A record decoded from the text after the key of a nested-keyed line; when it
/// does not decode, the failure names the text at fault.
pub trait FieldRecord: FieldValue {
    /// The text that the failure to decode `s` carries.
    spec fn fault(s: Seq<char>) -> Seq<char>;

    fn decode(s: &str) -> (r: crate::error::Result<Self>)
        ensures
            crate::error::decoded(r, Self::parse_spec(s@), Self::fault(s@)),
    ;
}

/// A key of a keyed table: keys are told apart by their views.
pub trait FieldKey: View + Sized {
    fn same_key(&self, other: &Self) -> (r: bool)
        ensures
            r == (self@ == other@),
    ;
}

/// A record of a flat-keyed file: it starts from all defaults, and each line of the
/// file with a key that the record knows sets one field.
pub trait FlatKeyedSetter<T>: Sized {
    /// The record before any line is read.
    spec fn initial() -> Self;

    /// Whether `key` names a field of the record.
    spec fn knows(key: Seq<char>) -> bool;

    /// The record with the field named `key` set to `val`.
    spec fn with_field(self, key: Seq<char>, val: T) -> Self;

    fn new() -> (r: Self)
        ensures
            r == Self::initial(),
    ;

    fn set(&mut self, s: &str, val: T)
        ensures
            *final(self) == old(self).with_field(s@, val),
            !Self::knows(s@) ==> *final(self) == *old(self),
    ;

    fn is_field(s: &str) -> (r: bool)
        ensures
            r == Self::knows(s@),
    ;
}

} // verus!
