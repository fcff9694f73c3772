//! The errors that reading or writing a cgroup interface file can give.
use vstd::prelude::*;

verus! {

/// std's `io::ErrorKind`, the kind of a failed filesystem call: carried as it is
/// inside [`CGroupError::FSErr`], nothing is assumed of it.
#[verifier::external_type_specification]
#[verifier::external_body]
pub struct ExErrorKind(std::io::ErrorKind);

/// Why reading or writing an interface file failed.
#[derive(Debug, PartialEq, Eq)]
pub enum CGroupError {
    /// The file could not be opened, read or written.
    FSErr(std::io::ErrorKind),
    /// The content is there but does not decode; carries the content.
    UnknownFieldErr(String),
    /// The file is empty where a value is required.
    EmptyFileErr,
    /// A write was accepted but transferred no bytes.
    WriteZeroByteErr,
    Redaction(String),
    InvalidHeader { expected: String, found: String },
    Unknown,
}

pub type Result<T> = core::result::Result<T, CGroupError>;

/// `r` is the failure that malformed content `text` gives.
pub open spec fn malformed<T>(r: Result<T>, text: Seq<char>) -> bool {
    match r {
        Err(CGroupError::UnknownFieldErr(s)) => s@ == text,
        _ => false,
    }
}

/// `r` is what a decoder gives on `text` when its outcome is `d`: the value, or
/// the malformed-content failure.
pub open spec fn decoded<T>(r: Result<T>, d: Option<T>, text: Seq<char>) -> bool {
    match d {
        Some(v) => r == Ok::<T, CGroupError>(v),
        None => malformed(r, text),
    }
}

/// `r` is what a decoder gives when its outcome is `d`: the value, or the
/// malformed-content failure that carries the text at fault.
pub open spec fn outcome<T>(r: Result<T>, d: core::result::Result<T, Seq<char>>) -> bool {
    match d {
        Ok(v) => r == Ok::<T, CGroupError>(v),
        Err(t) => malformed(r, t),
    }
}

/// The malformed-content failure for `text`.
pub fn malformed_err<T>(text: &str) -> (r: Result<T>)
    ensures
        malformed(r, text@),
{
    Err(CGroupError::UnknownFieldErr(String::from_str(text)))
}

/// What the outcome of appending to an interface file means: a failure of the
/// filesystem, a write of no bytes, or success.
pub fn write_outcome(written: core::result::Result<usize, std::io::ErrorKind>) -> (r: Result<()>)
    ensures
        match written {
            Ok(n) => if n == 0 {
                r == Err::<(), CGroupError>(CGroupError::WriteZeroByteErr)
            } else {
                r == Ok::<(), CGroupError>(())
            },
            Err(k) => r == Err::<(), CGroupError>(CGroupError::FSErr(k)),
        },
{
    match written {
        Ok(n) => if n == 0 {
            Err(CGroupError::WriteZeroByteErr)
        } else {
            Ok(())
        },
        Err(k) => Err(CGroupError::FSErr(k)),
    }
}

} // verus!
