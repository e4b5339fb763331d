//! A file buffer together with its inflated header.
use vstd::prelude::*;

verus! {

/// The bytes of a file and, once it was inflated, its header.
#[derive(Debug)]
pub struct Stream {
    pub header_decompressed: Vec<u8>,
    file_buffer: Vec<u8>,
}

impl Stream {
    /// The bytes of the file, which this stream keeps.
    pub closed spec fn file(&self) -> Seq<u8> {
        self.file_buffer@
    }

    /// The inflated header, which is empty until it is filled in.
    pub closed spec fn header(&self) -> Seq<u8> {
        self.header_decompressed@
    }

    /// A stream over `buffer` whose header is still empty.
    pub fn new(buffer: Vec<u8>) -> (s: Self)
        ensures
            s.header() == Seq::<u8>::empty(),
            s.file() == buffer@,
    {
        Stream { header_decompressed: Vec::new(), file_buffer: buffer }
    }

    /// The inflated header.
    pub fn get_header(&self) -> (h: &[u8])
        ensures
            h@ == self.header(),
    {
        self.header_decompressed.as_slice()
    }

    /// The bytes of the file.
    pub fn get_file(&self) -> (f: &[u8])
        ensures
            f@ == self.file(),
    {
        self.file_buffer.as_slice()
    }
}

} // verus!
