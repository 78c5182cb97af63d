use crate::error::DecodeError;
use crate::header::DirectoryEntry;
use crate::lz77::{decompress, expand};
use crate::palmdoc::Compression;
use vstd::prelude::*;

verus! {

/// One record of the book: where it starts, its id, and its bytes (decoded for a
/// content record).
#[derive(Debug)]
pub struct Record {
    pub record_data_offset: u32,
    pub id: u32,
    pub record_data: Vec<u8>,
    /// Why a content record could not be decoded; its data is then empty.
    pub error: Option<DecodeError>,
}

/// Offsets that increase strictly, the last inside a buffer of `len` bytes.
pub open spec fn directory_valid(dir: Seq<DirectoryEntry>, len: int) -> bool {
    &&& forall|i: int, j: int| 0 <= i < j < dir.len() ==> dir[i].data_offset < dir[j].data_offset
    &&& dir.len() > 0 ==> dir[dir.len() - 1].data_offset <= len
}

/// Where record `i` ends: where the next one starts, or at the end of the buffer.
pub open spec fn record_end(dir: Seq<DirectoryEntry>, len: int, i: int) -> int {
    if i + 1 < dir.len() {
        dir[i + 1].data_offset as int
    } else {
        len
    }
}

/// The raw bytes of record `i`.
pub open spec fn record_span(buf: Seq<u8>, dir: Seq<DirectoryEntry>, i: int) -> Seq<u8> {
    buf.subrange(dir[i].data_offset as int, record_end(dir, buf.len() as int, i))
}

/// One past the last content record: the record count of the document header less one,
/// kept inside the directory.
pub open spec fn readable_end(record_count: u16, n: int) -> int {
    let last = if record_count >= 1 {
        record_count - 1
    } else {
        0
    };
    if last < n {
        last
    } else {
        n
    }
}

/// Whether record `i` is a content record: record 0 holds the headers.
pub open spec fn is_readable(i: int, record_count: u16, n: int) -> bool {
    1 <= i < readable_end(record_count, n)
}

/// What a content record's raw bytes decode to: encrypted and uncompressed records stay
/// as they are, dictionary-compressed ones are expanded, others are not supported.
pub open spec fn decoded_payload(raw: Seq<u8>, compression: Compression, encryption: u16) -> Result<
    Seq<u8>,
    DecodeError,
> {
    if encryption != 0 {
        Ok(raw)
    } else {
        match compression {
            Compression::No => Ok(raw),
            Compression::PalmDoc => expand(raw),
            Compression::Unsupported(_) => Err(DecodeError::UnsupportedCompression),
        }
    }
}

/// `rec` holds what `raw` decodes to, or no bytes and the error.
pub open spec fn holds_payload(
    rec: Record,
    raw: Seq<u8>,
    compression: Compression,
    encryption: u16,
) -> bool {
    match decoded_payload(raw, compression, encryption) {
        Ok(d) => rec.record_data@ == d && rec.error is None,
        Err(e) => rec.record_data@.len() == 0 && rec.error == Some(e),
    }
}

/// `rec` is record `i` of the directory, decoded where it is a content record.
pub open spec fn record_read_from(
    rec: Record,
    buf: Seq<u8>,
    dir: Seq<DirectoryEntry>,
    i: int,
    compression: Compression,
    encryption: u16,
    record_count: u16,
) -> bool {
    &&& rec.record_data_offset == dir[i].data_offset
    &&& rec.id == dir[i].unique_id
    &&& if is_readable(i, record_count, dir.len() as int) {
        holds_payload(rec, record_span(buf, dir, i), compression, encryption)
    } else {
        rec.record_data@ == record_span(buf, dir, i) && rec.error is None
    }
}

impl Record {
    /// A record at offset 0 with id 0 and no data.
    pub fn new() -> (r: Record)
        ensures
            r.record_data_offset == 0,
            r.id == 0,
            r.record_data@.len() == 0,
            r.error is None,
    {
        Record { record_data_offset: 0, id: 0, record_data: Vec::new(), error: None }
    }

    /// Takes the raw bytes of this record, from its offset up to `end`.
    pub fn record_data(&mut self, content: &[u8], end: usize)
        requires
            old(self).record_data_offset <= end <= content@.len(),
        ensures
            final(self).record_data@ == content@.subrange(
                old(self).record_data_offset as int,
                end as int,
            ),
            final(self).record_data_offset == old(self).record_data_offset,
            final(self).id == old(self).id,
            final(self).error == old(self).error,
    {
        let start = self.record_data_offset as usize;
        self.record_data = vstd::slice::slice_to_vec(
            vstd::slice::slice_subrange(content, start, end),
        );
    }

    /// Decodes the raw bytes held under the document's compression and encryption codes.
    pub fn decompress(&mut self, compression: Compression, encryption: u16)
        ensures
            holds_payload(*final(self), old(self).record_data@, compression, encryption),
            final(self).record_data_offset == old(self).record_data_offset,
            final(self).id == old(self).id,
    {
        if encryption != 0 {
            self.error = None;
            return;
        }
        match compression {
            Compression::No => {
                self.error = None;
            },
            Compression::PalmDoc => {
                match decompress(self.record_data.as_slice()) {
                    Ok(d) => {
                        self.record_data = d;
                        self.error = None;
                    },
                    Err(e) => {
                        self.record_data = Vec::new();
                        self.error = Some(e);
                    },
                }
            },
            Compression::Unsupported(_) => {
                self.record_data = Vec::new();
                self.error = Some(DecodeError::UnsupportedCompression);
            },
        }
    }

    /// Reads every record of the directory, decoding the content records.
    pub fn parse_records(
        content: &[u8],
        directory: &Vec<DirectoryEntry>,
        compression: Compression,
        encryption: u16,
        record_count: u16,
    ) -> (r: Vec<Record>)
        requires
            directory_valid(directory@, content@.len() as int),
        ensures
            r@.len() == directory@.len(),
            forall|i: int|
                0 <= i < r@.len() ==> record_read_from(
                    #[trigger] r@[i],
                    content@,
                    directory@,
                    i,
                    compression,
                    encryption,
                    record_count,
                ),
    {
        let n = directory.len();
        let last: usize = if record_count >= 1 {
            (record_count - 1) as usize
        } else {
            0
        };
        let end_readable = if last < n {
            last
        } else {
            n
        };
        let mut records: Vec<Record> = Vec::with_capacity(n);
        let mut i: usize = 0;
        while i < n
            invariant
                n == directory@.len(),
                directory_valid(directory@, content@.len() as int),
                end_readable == readable_end(record_count, n as int),
                i <= n,
                records@.len() == i,
                forall|k: int|
                    0 <= k < i ==> record_read_from(
                        #[trigger] records@[k],
                        content@,
                        directory@,
                        k,
                        compression,
                        encryption,
                        record_count,
                    ),
            decreases n - i,
        {
            let entry = directory[i];
            let end: usize = if i + 1 < n {
                directory[i + 1].data_offset as usize
            } else {
                content.len()
            };
            proof {
                if i + 1 < n {
                    assert(directory@[n - 1].data_offset <= content@.len());
                    if i + 1 < n - 1 {
                        assert(directory@[i + 1].data_offset < directory@[n - 1].data_offset);
                    }
                }
                if i < n - 1 {
                    assert(directory@[i as int].data_offset < directory@[n - 1].data_offset);
                }
            }
            let mut record = Record {
                record_data_offset: entry.data_offset,
                id: entry.unique_id,
                record_data: Vec::new(),
                error: None,
            };
            record.record_data(content, end);
            if 1 <= i && i < end_readable {
                record.decompress(compression, encryption);
            }
            records.push(record);
            i += 1;
        }
        records
    }
}

} // verus!
