//! Values exchanged with C callers: borrowed and owned byte slices, the
//! result enums of the C functions, and the arguments that open a store.
//!
//! A borrowed slice that C passes as a null pointer is held here as `None`;
//! the pointer arithmetic of the C boundary itself lives outside this
//! library.

use crate::store::{StoreOptions, SyncMode, DEFAULT_MAX_DATA_FILES};
use core::str::Utf8Error;
use vstd::prelude::*;
use vstd::string::StringSliceAdditionalSpecFns;
use vstd::utf8::encode_utf8;

verus! {

#[verifier::external_type_specification]
#[verifier::external_body]
pub struct ExUtf8Error(Utf8Error);

/// Calls `core::str::from_utf8`: `Ok` with the string whose UTF-8 encoding
/// is `bytes` when they are valid UTF-8 (in the sense of vstd's
/// `valid_utf8`), `Err` otherwise.
#[verifier::external_body]
fn str_from_utf8<'a>(bytes: &'a [u8]) -> (r: Result<&'a str, Utf8Error>)
    ensures
        match r {
            Ok(s) => vstd::utf8::valid_utf8(bytes@) && s.spec_bytes() == bytes@,
            Err(_) => !vstd::utf8::valid_utf8(bytes@),
        },
{
    core::str::from_utf8(bytes)
}

/// Calls `Vec::into_boxed_slice`, which keeps the elements.
#[verifier::external_body]
pub(crate) fn vec_into_boxed<T>(v: Vec<T>) -> (b: Box<[T]>)
    ensures
        b@ == v@,
{
    v.into_boxed_slice()
}

/// A slice lent by a C caller; it may be a null pointer, which reads as an
/// empty slice.
#[derive(Debug, Clone, Copy)]
pub struct BorrowedSlice<'a, T> {
    data: Option<&'a [T]>,
}

/// A borrowed byte slice.
pub type BorrowedBytes<'a> = BorrowedSlice<'a, u8>;

impl<'a, T> BorrowedSlice<'a, T> {
    /// The elements, or `None` for a null pointer.
    pub closed spec fn spec_elems(&self) -> Option<Seq<T>> {
        match self.data {
            Some(s) => Some(s@),
            None => None,
        }
    }

    /// The elements as a slice; empty for a null pointer.
    pub open spec fn spec_slice(&self) -> Seq<T> {
        match self.spec_elems() {
            Some(s) => s,
            None => Seq::empty(),
        }
    }

    /// A borrowed slice over `slice`.
    pub fn from_slice(slice: &'a [T]) -> (b: Self)
        ensures
            b.spec_elems() == Some(slice@),
    {
        BorrowedSlice { data: Some(slice) }
    }

    /// The slice a C caller passes as a null pointer.
    pub fn null() -> (b: Self)
        ensures
            b.spec_elems() is None,
    {
        BorrowedSlice { data: None }
    }

    /// Whether the pointer is null. This tells a nil slice from an empty
    /// one.
    pub fn is_null(&self) -> (b: bool)
        ensures
            b == self.spec_elems() is None,
    {
        self.data.is_none()
    }

    /// The elements; empty for a null pointer.
    pub fn as_slice(&self) -> (s: &'a [T])
        ensures
            s@ == self.spec_slice(),
    {
        match self.data {
            Some(s) => s,
            None => &[],
        }
    }
}

impl<'a> BorrowedSlice<'a, u8> {
    /// The bytes as a string; an error when they are not valid UTF-8.
    pub fn as_str(&self) -> (r: Result<&'a str, Utf8Error>)
        ensures
            match r {
                Ok(s) => vstd::utf8::valid_utf8(self.spec_slice()) && s.spec_bytes()
                    == self.spec_slice(),
                Err(_) => !vstd::utf8::valid_utf8(self.spec_slice()),
            },
    {
        str_from_utf8(self.as_slice())
    }
}

/// A slice owned by this library and handed to C, which gives it back to be
/// freed.
#[derive(Debug)]
pub struct OwnedSlice<T> {
    data: Vec<T>,
}

/// An owned byte slice.
pub type OwnedBytes = OwnedSlice<u8>;

impl<T> OwnedSlice<T> {
    /// The elements.
    pub closed spec fn spec_elems(&self) -> Seq<T> {
        self.data@
    }

    /// Takes ownership of `data`.
    pub fn from_vec(data: Vec<T>) -> (o: Self)
        ensures
            o.spec_elems() == data@,
    {
        OwnedSlice { data }
    }

    /// Takes ownership of a boxed slice.
    pub fn from_boxed_slice(data: Box<[T]>) -> (o: Self)
        ensures
            o.spec_elems() == data@,
    {
        OwnedSlice { data: data.into_vec() }
    }

    /// The elements.
    pub fn as_slice(&self) -> (s: &[T])
        ensures
            s@ == self.spec_elems(),
    {
        self.data.as_slice()
    }

    /// The elements, for writing in place.
    pub fn as_mut_slice(&mut self) -> (s: &mut [T])
        ensures
            s@ == old(self).spec_elems(),
            final(s)@ == final(self).spec_elems(),
    {
        self.data.as_mut_slice()
    }

    /// The number of elements.
    pub fn len(&self) -> (n: usize)
        ensures
            n == self.spec_elems().len(),
    {
        self.data.len()
    }

    /// Gives the elements back as a boxed slice.
    pub fn into_boxed_slice(self) -> (b: Box<[T]>)
        ensures
            b@ == self.spec_elems(),
    {
        vec_into_boxed(self.data)
    }
}

impl OwnedSlice<u8> {
    /// The UTF-8 encoding of `s`.
    pub fn from_string(s: String) -> (o: Self)
        ensures
            o.spec_elems() == encode_utf8(s@),
    {
        let bytes = s.as_str().as_bytes();
        OwnedSlice { data: vstd::slice::slice_to_vec(bytes) }
    }
}

/// The result of a C function that returns nothing but may fail.
#[derive(Debug)]
pub enum VoidResult {
    /// The caller passed a null handle.
    NullHandlePointer,
    /// Success.
    Success,
    /// An error, with its message in UTF-8.
    Error(OwnedBytes),
}

/// The result of a C function that reads one block.
#[derive(Debug)]
pub enum BlockResult {
    /// The caller passed a null handle.
    NullHandlePointer,
    /// No block at that height.
    NotFound,
    /// The block.
    Found(OwnedBytes),
    /// An error, with its message in UTF-8.
    Error(OwnedBytes),
}

impl VoidResult {
    /// The result of an operation that returns `()`.
    pub fn from_unit() -> (r: Self)
        ensures
            r is Success,
    {
        VoidResult::Success
    }

    /// `Success` for success; `Error` with the error's message otherwise.
    pub fn from_result(r: Result<(), String>) -> (v: Self)
        ensures
            match r {
                Ok(_) => v is Success,
                Err(m) => v matches VoidResult::Error(b) && b.spec_elems() == encode_utf8(m@),
            },
    {
        match r {
            Ok(()) => VoidResult::Success,
            Err(m) => VoidResult::Error(OwnedSlice::from_string(m)),
        }
    }
}

impl BlockResult {
    /// `NotFound` when no block was found, `Found` with the block, `Error`
    /// with the error's message.
    pub fn from_result(r: Result<Option<Vec<u8>>, String>) -> (v: Self)
        ensures
            match r {
                Ok(None) => v is NotFound,
                Ok(Some(b)) => v matches BlockResult::Found(o) && o.spec_elems() == b@,
                Err(m) => v matches BlockResult::Error(o) && o.spec_elems() == encode_utf8(m@),
            },
    {
        match r {
            Ok(None) => BlockResult::NotFound,
            Ok(Some(b)) => BlockResult::Found(OwnedSlice::from_vec(b)),
            Err(m) => BlockResult::Error(OwnedSlice::from_string(m)),
        }
    }
}

/// A result enum with a variant for a null handle and one for an error
/// message.
pub trait NullHandleResult: Sized {
    /// Whether this is the null-handle variant.
    spec fn is_null_handle(&self) -> bool;

    /// Whether this is the error variant carrying the UTF-8 bytes `msg`.
    spec fn is_error_with(&self, msg: Seq<u8>) -> bool;

    /// The null-handle variant.
    fn null_handle_pointer_error() -> (r: Self)
        ensures
            r.is_null_handle(),
    ;

    /// The error variant with the message `msg`.
    fn from_err(msg: String) -> (r: Self)
        ensures
            r.is_error_with(encode_utf8(msg@)),
    ;
}

impl NullHandleResult for VoidResult {
    open spec fn is_null_handle(&self) -> bool {
        *self is NullHandlePointer
    }

    open spec fn is_error_with(&self, msg: Seq<u8>) -> bool {
        *self matches VoidResult::Error(b) && b.spec_elems() == msg
    }

    fn null_handle_pointer_error() -> (r: Self) {
        VoidResult::NullHandlePointer
    }

    fn from_err(msg: String) -> (r: Self) {
        VoidResult::Error(OwnedSlice::from_string(msg))
    }
}

impl NullHandleResult for BlockResult {
    open spec fn is_null_handle(&self) -> bool {
        *self is NullHandlePointer
    }

    open spec fn is_error_with(&self, msg: Seq<u8>) -> bool {
        *self matches BlockResult::Error(b) && b.spec_elems() == msg
    }

    fn null_handle_pointer_error() -> (r: Self) {
        BlockResult::NullHandlePointer
    }

    fn from_err(msg: String) -> (r: Self) {
        BlockResult::Error(OwnedSlice::from_string(msg))
    }
}

/// Runs `once` on the handle, or gives the null-handle variant when there is
/// none.
pub fn invoke_with_handle<H, T: NullHandleResult, F: FnOnce(H) -> T>(handle: Option<H>, once: F) -> (r: T)
    requires
        handle matches Some(h) ==> once.requires((h,)),
    ensures
        match handle {
            Some(h) => once.ensures((h,), r),
            None => r.is_null_handle(),
        },
{
    match handle {
        Some(h) => once(h),
        None => T::null_handle_pointer_error(),
    }
}

/// Arguments for opening or creating a store, as a C caller passes them.
pub struct StoreArgs<'a> {
    /// The directory of both the index and the data files; must be UTF-8.
    pub path: BorrowedBytes<'a>,
    /// Read cache size in bytes; must be greater than zero.
    pub cache_size: usize,
    /// Cap on one data file in bytes; zero means a single unbounded file.
    pub max_data_file_size: u64,
    /// Lowest height the store accepts, taken verbatim (zero included).
    /// Used only when the store is created or truncated.
    pub minimum_height: u64,
    /// Open data-file handles to keep; zero means the default.
    pub max_data_files: usize,
    /// Whether the store is truncated when opened.
    pub truncate: bool,
    /// Sync mode for writes.
    pub sync: SyncMode,
}

/// Why [`StoreArgs`] cannot open a store.
#[derive(Debug)]
pub enum StoreArgsError {
    /// The path is not valid UTF-8.
    PathNotUtf8(Utf8Error),
    /// `cache_size` is zero.
    ZeroCacheSize,
}

impl<'a> StoreArgs<'a> {
    /// The path and options that open the store the arguments describe.
    /// Fails when the path is not UTF-8 (checked first) or the cache size is
    /// zero.
    pub fn to_options(&self) -> (r: Result<(&'a str, StoreOptions), StoreArgsError>)
        ensures
            !vstd::utf8::valid_utf8(self.path.spec_slice()) ==> r matches Err(
                StoreArgsError::PathNotUtf8(_),
            ),
            vstd::utf8::valid_utf8(self.path.spec_slice()) && self.cache_size == 0 ==> r matches Err(
                StoreArgsError::ZeroCacheSize,
            ),
            vstd::utf8::valid_utf8(self.path.spec_slice()) && self.cache_size != 0 ==> (r matches Ok(
                (p, o),
            ) && p.spec_bytes() == self.path.spec_slice() && o.cache_size == self.cache_size
                && o.truncate == self.truncate && o.sync == self.sync && o.minimum_height
                == self.minimum_height && o.max_data_file_size == (if self.max_data_file_size
                == 0 {
                None::<u64>
            } else {
                Some(self.max_data_file_size)
            }) && o.max_data_files == (if self.max_data_files == 0 {
                DEFAULT_MAX_DATA_FILES
            } else {
                self.max_data_files
            })),
    {
        let path = match self.path.as_str() {
            Ok(p) => p,
            Err(e) => {
                return Err(StoreArgsError::PathNotUtf8(e));
            },
        };
        if self.cache_size == 0 {
            return Err(StoreArgsError::ZeroCacheSize);
        }
        let max_data_files = if self.max_data_files == 0 {
            DEFAULT_MAX_DATA_FILES
        } else {
            self.max_data_files
        };
        let max_data_file_size = if self.max_data_file_size == 0 {
            None
        } else {
            Some(self.max_data_file_size)
        };
        Ok(
            (
                path,
                StoreOptions {
                    cache_size: self.cache_size,
                    truncate: self.truncate,
                    sync: self.sync,
                    minimum_height: self.minimum_height,
                    max_data_file_size,
                    max_data_files,
                },
            ),
        )
    }
}

} // verus!
