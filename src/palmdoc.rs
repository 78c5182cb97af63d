use crate::error::DecodeError;
use crate::reader::{be_u16, be_u32, read_u16_raw, read_u32_raw};
use vstd::prelude::*;

verus! {

/// Origin of the document header when the directory is empty.
pub const DOCUMENT_HEADER_ORIGIN: usize = 80;

/// Bytes of the document header that hold its fields.
pub const PALMDOC_HEADER_LEN: usize = 14;

/// The directory span: bytes that a directory of `num_of_records` entries takes.
pub open spec fn directory_span(num_of_records: int) -> int {
    8 * num_of_records
}

/// Where the document header starts, once the directory of `num_of_records` entries is
/// skipped; the format header and the offsets inside it share this origin.
pub open spec fn header_base(num_of_records: int) -> int {
    80 + directory_span(num_of_records)
}

/// Where the document header starts, after a directory of `num_of_records` entries.
pub fn header_base_of(num_of_records: u16) -> (r: usize)
    ensures
        r == header_base(num_of_records as int),
{
    DOCUMENT_HEADER_ORIGIN + (num_of_records as usize) * 8
}

/// How the content records are stored.
#[derive(Clone, Copy, Debug, PartialEq, Eq, Structural)]
pub enum Compression {
    /// Stored verbatim (code 1).
    No,
    /// The dictionary / back-reference method (code 2).
    PalmDoc,
    /// Any other code: reported, not decompressed.
    Unsupported(u16),
}

/// The compression method a code stands for.
pub open spec fn compression_of(code: u16) -> Compression {
    if code == 1 {
        Compression::No
    } else if code == 2 {
        Compression::PalmDoc
    } else {
        Compression::Unsupported(code)
    }
}

/// The name reported for a compression code.
pub open spec fn compression_name(code: u16) -> Seq<char> {
    if code == 1 {
        "No Compression"@
    } else if code == 2 {
        "PalmDOC Compression"@
    } else if code == 17480 {
        "HUFF/CDIC Compression"@
    } else {
        "Unknown Compression"@
    }
}

/// The name reported for an encryption code.
pub open spec fn encryption_name(code: u16) -> Seq<char> {
    if code == 0 {
        "No Encryption"@
    } else if code == 1 {
        "Old Mobipocket Encryption"@
    } else if code == 2 {
        "Mobipocket Encryption"@
    } else {
        "Unknown Encryption"@
    }
}

/// The document header: compression and text geometry.
#[derive(Clone, Copy, Debug, PartialEq, Eq, Structural)]
pub struct PalmDocHeader {
    pub compression: u16,
    pub text_length: u32,
    pub record_count: u16,
    pub record_size: u16,
    pub encryption_type: u16,
}

/// `h` holds the fields that `buf` stores at their offsets from `base`.
pub open spec fn palmdoc_read_from(h: PalmDocHeader, buf: Seq<u8>, base: int) -> bool {
    &&& h.compression as int == be_u16(buf, base)
    &&& h.text_length as int == be_u32(buf, base + 4)
    &&& h.record_count as int == be_u16(buf, base + 8)
    &&& h.record_size as int == be_u16(buf, base + 10)
    &&& h.encryption_type as int == be_u16(buf, base + 12)
}

impl PalmDocHeader {
    /// Parses the document header that follows a directory of `num_of_records` entries.
    pub fn parse(content: &[u8], num_of_records: u16) -> (r: Result<PalmDocHeader, DecodeError>)
        ensures
            content@.len() < header_base(num_of_records as int) + 14 ==> r == Err::<
                PalmDocHeader,
                DecodeError,
            >(DecodeError::TruncatedHeader),
            content@.len() >= header_base(num_of_records as int) + 14 ==> r is Ok
                && palmdoc_read_from(r->Ok_0, content@, header_base(num_of_records as int)),
    {
        let base = header_base_of(num_of_records);
        if content.len() < base || content.len() - base < PALMDOC_HEADER_LEN {
            return Err(DecodeError::TruncatedHeader);
        }
        Ok(PalmDocHeader {
            compression: read_u16_raw(content, base),
            text_length: read_u32_raw(content, base + 4),
            record_count: read_u16_raw(content, base + 8),
            record_size: read_u16_raw(content, base + 10),
            encryption_type: read_u16_raw(content, base + 12),
        })
    }

    /// The compression method.
    pub fn compression_enum(&self) -> (r: Compression)
        ensures
            r == compression_of(self.compression),
    {
        if self.compression == 1 {
            Compression::No
        } else if self.compression == 2 {
            Compression::PalmDoc
        } else {
            Compression::Unsupported(self.compression)
        }
    }

    /// The name of the compression method.
    pub fn compression(&self) -> (r: String)
        ensures
            r@ == compression_name(self.compression),
    {
        let s = if self.compression == 1 {
            "No Compression"
        } else if self.compression == 2 {
            "PalmDOC Compression"
        } else if self.compression == 17480 {
            "HUFF/CDIC Compression"
        } else {
            "Unknown Compression"
        };
        s.to_owned()
    }

    /// The name of the encryption method.
    pub fn encryption(&self) -> (r: String)
        ensures
            r@ == encryption_name(self.encryption_type),
    {
        let s = if self.encryption_type == 0 {
            "No Encryption"
        } else if self.encryption_type == 1 {
            "Old Mobipocket Encryption"
        } else if self.encryption_type == 2 {
            "Mobipocket Encryption"
        } else {
            "Unknown Encryption"
        };
        s.to_owned()
    }
}

} // verus!
