use crate::error::DecodeError;
use crate::reader::{be_i16, be_u16, be_u32, latin1, read_i16_raw, read_u16_raw, read_u32_raw, u8_as_string, Reader};
use crate::time::{datetime_from_timestamp, datetime_of};
use chrono::NaiveDateTime;
use vstd::prelude::*;

verus! {

/// Size of the fixed part of the page-database header; the record directory follows it.
pub const FIXED_HEADER_LEN: usize = 78;

/// Size of one record-directory entry.
pub const DIRECTORY_ENTRY_LEN: usize = 8;

/// One entry of the record directory: where a record starts, and its unique id.
#[derive(Clone, Copy, Debug, PartialEq, Eq, Structural)]
pub struct DirectoryEntry {
    pub data_offset: u32,
    pub unique_id: u32,
}

/// The text fields of the page-database header.
#[derive(Clone, Copy, Debug, PartialEq, Eq, Structural)]
pub enum HeaderData {
    Name,
    Type,
    Creator,
}

/// The page-database header that opens the file, with its record directory.
#[derive(Debug)]
pub struct Header {
    pub name: String,
    pub attributes: i16,
    pub version: i16,
    pub created: u32,
    pub modified: u32,
    pub backup: u32,
    pub modnum: u32,
    pub app_info_id: u32,
    pub sort_info_id: u32,
    pub typ_e: String,
    pub creator: String,
    pub unique_id_seed: u32,
    pub next_record_list_id: u32,
    pub num_of_records: u16,
    pub directory: Vec<DirectoryEntry>,
}

/// Byte range `[start, end)` of a text field of the header.
pub open spec fn string_field_range(field: HeaderData) -> (int, int) {
    match field {
        HeaderData::Name => (0, 32),
        HeaderData::Type => (60, 64),
        HeaderData::Creator => (64, 68),
    }
}

/// The record count stored in the header.
pub open spec fn stored_record_count(buf: Seq<u8>) -> int {
    be_u16(buf, 76)
}

/// The data offset of directory entry `i`.
pub open spec fn dir_offset(buf: Seq<u8>, i: int) -> int {
    be_u32(buf, 78 + 8 * i)
}

/// The unique id of directory entry `i`.
pub open spec fn dir_unique_id(buf: Seq<u8>, i: int) -> int {
    be_u32(buf, 82 + 8 * i)
}

/// The fixed header and a directory of the stored length fit in the buffer.
pub open spec fn page_header_fits(buf: Seq<u8>) -> bool {
    buf.len() >= 78 && buf.len() >= 78 + 8 * stored_record_count(buf)
}

/// The first `n` directory offsets increase strictly and stay inside the buffer.
pub open spec fn directory_ok(buf: Seq<u8>, n: int) -> bool {
    &&& forall|i: int, j: int| 0 <= i < j < n ==> dir_offset(buf, i) < dir_offset(buf, j)
    &&& n > 0 ==> dir_offset(buf, n - 1) <= buf.len()
}

/// `h` holds the fields that `buf` stores at their offsets, and its directory.
pub open spec fn header_read_from(h: Header, buf: Seq<u8>) -> bool {
    &&& h.name@ == latin1(buf.subrange(0, 32))
    &&& h.attributes as int == be_i16(buf, 32)
    &&& h.version as int == be_i16(buf, 34)
    &&& h.created as int == be_u32(buf, 36)
    &&& h.modified as int == be_u32(buf, 40)
    &&& h.backup as int == be_u32(buf, 44)
    &&& h.modnum as int == be_u32(buf, 48)
    &&& h.app_info_id as int == be_u32(buf, 52)
    &&& h.sort_info_id as int == be_u32(buf, 56)
    &&& h.typ_e@ == latin1(buf.subrange(60, 64))
    &&& h.creator@ == latin1(buf.subrange(64, 68))
    &&& h.unique_id_seed as int == be_u32(buf, 68)
    &&& h.next_record_list_id as int == be_u32(buf, 72)
    &&& h.num_of_records as int == stored_record_count(buf)
    &&& h.directory@.len() == h.num_of_records
    &&& forall|i: int|
        0 <= i < h.directory@.len() ==> {
            &&& (#[trigger] h.directory@[i]).data_offset as int == dir_offset(buf, i)
            &&& h.directory@[i].unique_id as int == dir_unique_id(buf, i)
        }
}

impl Header {
    /// Parses the page-database header and its record directory.
    pub fn parse(content: &[u8]) -> (r: Result<Header, DecodeError>)
        ensures
            !page_header_fits(content@) ==> r == Err::<Header, DecodeError>(
                DecodeError::TruncatedHeader,
            ),
            page_header_fits(content@) && !directory_ok(content@, stored_record_count(content@))
                ==> r == Err::<Header, DecodeError>(DecodeError::MalformedDirectory),
            page_header_fits(content@) && directory_ok(content@, stored_record_count(content@))
                ==> r is Ok,
            r is Ok ==> header_read_from(r->Ok_0, content@),
            r is Ok ==> r->Ok_0.directory@.len() == r->Ok_0.num_of_records,
            r is Ok ==> forall|i: int, j: int|
                0 <= i < j < r->Ok_0.directory@.len() ==> r->Ok_0.directory@[i].data_offset
                    < r->Ok_0.directory@[j].data_offset,
    {
        if content.len() < FIXED_HEADER_LEN {
            return Err(DecodeError::TruncatedHeader);
        }
        let num_of_records = read_u16_raw(content, 76);
        let n = num_of_records as usize;
        if (content.len() - FIXED_HEADER_LEN) / DIRECTORY_ENTRY_LEN < n {
            return Err(DecodeError::TruncatedHeader);
        }
        let directory = match Header::parse_directory(content, n) {
            Some(d) => d,
            None => return Err(DecodeError::MalformedDirectory),
        };
        Ok(Header {
            name: Header::get_headers_string(content, HeaderData::Name),
            attributes: read_i16_raw(content, 32),
            version: read_i16_raw(content, 34),
            created: read_u32_raw(content, 36),
            modified: read_u32_raw(content, 40),
            backup: read_u32_raw(content, 44),
            modnum: read_u32_raw(content, 48),
            app_info_id: read_u32_raw(content, 52),
            sort_info_id: read_u32_raw(content, 56),
            typ_e: Header::get_headers_string(content, HeaderData::Type),
            creator: Header::get_headers_string(content, HeaderData::Creator),
            unique_id_seed: read_u32_raw(content, 68),
            next_record_list_id: read_u32_raw(content, 72),
            num_of_records,
            directory,
        })
    }

    /// Reads the `n` directory entries that follow the fixed header, or `None` where
    /// their offsets do not increase strictly or the last lies past the buffer.
    fn parse_directory(content: &[u8], n: usize) -> (r: Option<Vec<DirectoryEntry>>)
        requires
            content@.len() >= 78 + 8 * n,
        ensures
            r is Some <==> directory_ok(content@, n as int),
            r is Some ==> r->Some_0@.len() == n,
            r is Some ==> forall|i: int|
                0 <= i < n ==> {
                    &&& (#[trigger] r->Some_0@[i]).data_offset as int == dir_offset(content@, i)
                    &&& r->Some_0@[i].unique_id as int == dir_unique_id(content@, i)
                },
    {
        let mut directory: Vec<DirectoryEntry> = Vec::with_capacity(n);
        let mut reader = Reader::new(content);
        reader.set_position(FIXED_HEADER_LEN);
        let mut i: usize = 0;
        while i < n
            invariant
                reader.content@ == content@,
                content@.len() >= 78 + 8 * n,
                i <= n,
                reader.position == 78 + 8 * i,
                directory@.len() == i,
                forall|k: int|
                    0 <= k < i ==> {
                        &&& (#[trigger] directory@[k]).data_offset as int == dir_offset(content@, k)
                        &&& directory@[k].unique_id as int == dir_unique_id(content@, k)
                    },
                forall|a: int, b: int|
                    0 <= a < b < i ==> dir_offset(content@, a) < dir_offset(content@, b),
            decreases n - i,
        {
            let data_offset = match reader.read_u32_be() {
                Ok(v) => v,
                Err(_) => return None,
            };
            let unique_id = match reader.read_u32_be() {
                Ok(v) => v,
                Err(_) => return None,
            };
            if i > 0 && data_offset <= directory[i - 1].data_offset {
                assert(!directory_ok(content@, n as int)) by {
                    assert(dir_offset(content@, i - 1) >= dir_offset(content@, i as int));
                }
                return None;
            }
            directory.push(DirectoryEntry { data_offset, unique_id });
            assert forall|a: int, b: int|
                0 <= a < b < i + 1 implies dir_offset(content@, a) < dir_offset(content@, b) by {
                if b == i && a < i - 1 {
                    assert(dir_offset(content@, a) < dir_offset(content@, i - 1));
                }
            }
            i += 1;
        }
        if n > 0 && directory[n - 1].data_offset as usize > content.len() {
            return None;
        }
        Some(directory)
    }

    /// The creation time, as a date and time.
    pub fn created_datetime(&self) -> (r: NaiveDateTime)
        ensures
            r == datetime_of(self.created),
    {
        datetime_from_timestamp(self.created)
    }

    /// The last modification time, as a date and time.
    pub fn mod_datetime(&self) -> (r: NaiveDateTime)
        ensures
            r == datetime_of(self.modified),
    {
        datetime_from_timestamp(self.modified)
    }

    /// Reads one text field of the header, one character per byte.
    pub fn get_headers_string(content: &[u8], header: HeaderData) -> (r: String)
        requires
            content@.len() >= 68,
        ensures
            r@ == latin1(
                content@.subrange(string_field_range(header).0, string_field_range(header).1),
            ),
    {
        let (start, end): (usize, usize) = match header {
            HeaderData::Name => (0, 32),
            HeaderData::Type => (60, 64),
            HeaderData::Creator => (64, 68),
        };
        u8_as_string(vstd::slice::slice_subrange(content, start, end))
    }
}

} // verus!
