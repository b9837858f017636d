//! A log backend that appends to a file.

use crate::buffer::octets;
use bytes::Bytes;
use vstd::prelude::*;
use vstd::slice::slice_to_vec;

verus! {

/// Names the file that entries are appended to, and says what is appended.
/// Opening and writing the file is left to the program around the library.
pub struct FileLogBackend {
    file_name: String,
}

impl FileLogBackend {
    /// The path of the log file.
    pub closed spec fn path(&self) -> Seq<char> {
        self.file_name@
    }

    /// A backend for the file at `file_name`.
    pub fn new(file_name: &str) -> (r: Self)
        ensures
            r.path() == file_name@,
    {
        Self { file_name: file_name.to_owned() }
    }

    /// The path of the log file.
    pub fn file_name(&self) -> (r: String)
        ensures
            r@ == self.path(),
    {
        self.file_name.clone()
    }

    /// The bytes that a write of `data` under `id` appends to the file: the
    /// content as it is, with no id and no delimiter.
    pub fn record(&self, id: u64, data: &Bytes) -> (r: Vec<u8>)
        ensures
            r@ == octets(*data),
    {
        let bytes: &[u8] = data;
        slice_to_vec(bytes)
    }
}

} // verus!
