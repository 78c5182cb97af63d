use crate::encoding::{decode_text, decoded_text, text_encoding_of, TextEncoding};
use crate::error::DecodeError;
use crate::palmdoc::{header_base, header_base_of};
use crate::reader::{be_u16, be_u32, fits, read_u16_raw, read_u32_raw};
use vstd::prelude::*;

verus! {

/// Bytes of the format header region that the decoder reads, from the header base.
pub const MOBI_HEADER_REGION: usize = 212;

/// Offset of the format header's identifier from the header base.
pub const MOBI_HEADER_START: usize = 16;

/// End of the fields that locate and decode the title, from the header base.
pub const TITLE_FIELDS_END: usize = 92;

/// Flag bit that announces an extended-metadata block.
pub const EXTH_FLAG: u32 = 0x40;

/// The format header region fits in the buffer.
pub open spec fn mobi_header_fits(buf: Seq<u8>, num_of_records: int) -> bool {
    buf.len() >= header_base(num_of_records) + 212
}

/// Whether a flags field announces an extended-metadata block.
pub open spec fn has_exth_flag(flags: u32) -> bool {
    flags & 0x40 != 0
}

/// Where the embedded title starts.
pub open spec fn title_start(buf: Seq<u8>, base: int) -> int {
    base + be_u32(buf, base + 84)
}

/// The byte length of the embedded title.
pub open spec fn title_len(buf: Seq<u8>, base: int) -> int {
    be_u32(buf, base + 88)
}

/// The embedded title lies inside the buffer.
pub open spec fn title_fits(buf: Seq<u8>, base: int) -> bool {
    fits(buf.len() as int, title_start(buf, base), title_len(buf, base))
}

/// The embedded title, decoded under the declared text encoding.
pub open spec fn title_text(buf: Seq<u8>, base: int) -> Seq<char> {
    decoded_text(
        buf.subrange(title_start(buf, base), title_start(buf, base) + title_len(buf, base)),
        text_encoding_of(be_u32(buf, base + 28) as u32),
    )
}

/// The format header: format, version, encoding, title and record pointers.
#[derive(Debug)]
pub struct MobiHeader {
    pub identifier: u32,
    pub header_length: u32,
    pub mobi_type: u32,
    pub text_encoding: u32,
    pub id: u32,
    pub gen_version: u32,
    pub first_non_book_index: u32,
    pub name: String,
    pub name_offset: u32,
    pub name_length: u32,
    pub language: u32,
    pub input_language: u32,
    pub output_language: u32,
    pub format_version: u32,
    pub first_image_index: u32,
    pub first_huff_record: u32,
    pub huff_record_count: u32,
    pub first_data_record: u32,
    pub data_record_count: u32,
    pub exth_flags: u32,
    pub has_exth_header: bool,
    pub drm_offset: u32,
    pub drm_count: u32,
    pub drm_size: u32,
    pub drm_flags: u32,
    pub last_image_record: u16,
    pub fcis_record: u32,
    pub flis_record: u32,
}

/// `m` holds the fields that `buf` stores at their offsets from `base`.
pub open spec fn mobi_read_from(m: MobiHeader, buf: Seq<u8>, base: int) -> bool {
    &&& m.identifier as int == be_u32(buf, base + 16)
    &&& m.header_length as int == be_u32(buf, base + 20)
    &&& m.mobi_type as int == be_u32(buf, base + 24)
    &&& m.text_encoding as int == be_u32(buf, base + 28)
    &&& m.id as int == be_u32(buf, base + 32)
    &&& m.gen_version as int == be_u32(buf, base + 36)
    &&& m.first_non_book_index as int == be_u32(buf, base + 80)
    &&& m.name@ == title_text(buf, base)
    &&& m.name_offset as int == be_u32(buf, base + 84)
    &&& m.name_length as int == be_u32(buf, base + 88)
    &&& m.language as int == be_u32(buf, base + 92)
    &&& m.input_language as int == be_u32(buf, base + 96)
    &&& m.output_language as int == be_u32(buf, base + 100)
    &&& m.format_version as int == be_u32(buf, base + 104)
    &&& m.first_image_index as int == be_u32(buf, base + 108)
    &&& m.first_huff_record as int == be_u32(buf, base + 112)
    &&& m.huff_record_count as int == be_u32(buf, base + 116)
    &&& m.first_data_record as int == be_u32(buf, base + 120)
    &&& m.data_record_count as int == be_u32(buf, base + 124)
    &&& m.exth_flags as int == be_u32(buf, base + 128)
    &&& m.has_exth_header == has_exth_flag(m.exth_flags)
    &&& m.drm_offset as int == be_u32(buf, base + 168)
    &&& m.drm_count as int == be_u32(buf, base + 172)
    &&& m.drm_size as int == be_u32(buf, base + 176)
    &&& m.drm_flags as int == be_u32(buf, base + 180)
    &&& m.last_image_record as int == be_u16(buf, base + 194)
    &&& m.fcis_record as int == be_u32(buf, base + 200)
    &&& m.flis_record as int == be_u32(buf, base + 208)
}

impl MobiHeader {
    /// Parses the format header that follows a directory of `num_of_records` entries,
    /// with its embedded title.
    pub fn parse(content: &[u8], num_of_records: u16) -> (r: Result<MobiHeader, DecodeError>)
        ensures
            !mobi_header_fits(content@, num_of_records as int) ==> r == Err::<
                MobiHeader,
                DecodeError,
            >(DecodeError::TruncatedHeader),
            mobi_header_fits(content@, num_of_records as int) && !title_fits(
                content@,
                header_base(num_of_records as int),
            ) ==> r == Err::<MobiHeader, DecodeError>(DecodeError::OutOfBounds),
            mobi_header_fits(content@, num_of_records as int) && title_fits(
                content@,
                header_base(num_of_records as int),
            ) ==> r is Ok && mobi_read_from(
                r->Ok_0,
                content@,
                header_base(num_of_records as int),
            ),
    {
        let base = header_base_of(num_of_records);
        if content.len() < base || content.len() - base < MOBI_HEADER_REGION {
            return Err(DecodeError::TruncatedHeader);
        }
        let name = MobiHeader::name(content, num_of_records)?;
        let mut m = MobiHeader {
            identifier: read_u32_raw(content, base + 16),
            header_length: read_u32_raw(content, base + 20),
            mobi_type: read_u32_raw(content, base + 24),
            text_encoding: read_u32_raw(content, base + 28),
            id: read_u32_raw(content, base + 32),
            gen_version: read_u32_raw(content, base + 36),
            first_non_book_index: read_u32_raw(content, base + 80),
            name,
            name_offset: read_u32_raw(content, base + 84),
            name_length: read_u32_raw(content, base + 88),
            language: read_u32_raw(content, base + 92),
            input_language: read_u32_raw(content, base + 96),
            output_language: read_u32_raw(content, base + 100),
            format_version: read_u32_raw(content, base + 104),
            first_image_index: read_u32_raw(content, base + 108),
            first_huff_record: read_u32_raw(content, base + 112),
            huff_record_count: read_u32_raw(content, base + 116),
            first_data_record: read_u32_raw(content, base + 120),
            data_record_count: read_u32_raw(content, base + 124),
            exth_flags: read_u32_raw(content, base + 128),
            has_exth_header: false,
            drm_offset: read_u32_raw(content, base + 168),
            drm_count: read_u32_raw(content, base + 172),
            drm_size: read_u32_raw(content, base + 176),
            drm_flags: read_u32_raw(content, base + 180),
            last_image_record: read_u16_raw(content, base + 194),
            fcis_record: read_u32_raw(content, base + 200),
            flis_record: read_u32_raw(content, base + 208),
        };
        m.exth_header();
        Ok(m)
    }

    /// Reads the embedded title and decodes it under the declared text encoding.
    pub fn name(content: &[u8], num_of_records: u16) -> (r: Result<String, DecodeError>)
        ensures
            !fits(content@.len() as int, header_base(num_of_records as int), 92) ==> r == Err::<
                String,
                DecodeError,
            >(DecodeError::OutOfBounds),
            fits(content@.len() as int, header_base(num_of_records as int), 92) && title_fits(
                content@,
                header_base(num_of_records as int),
            ) ==> r is Ok && r->Ok_0@ == title_text(content@, header_base(num_of_records as int)),
            fits(content@.len() as int, header_base(num_of_records as int), 92) && !title_fits(
                content@,
                header_base(num_of_records as int),
            ) ==> r == Err::<String, DecodeError>(DecodeError::OutOfBounds),
    {
        let base = header_base_of(num_of_records);
        if content.len() < base || content.len() - base < TITLE_FIELDS_END {
            return Err(DecodeError::OutOfBounds);
        }
        let name_offset = read_u32_raw(content, base + 84) as usize;
        let name_length = read_u32_raw(content, base + 88) as usize;
        let encoding = TextEncoding::from_code(read_u32_raw(content, base + 28));
        if content.len() - base < name_offset || content.len() - base - name_offset < name_length {
            return Err(DecodeError::OutOfBounds);
        }
        let start = base + name_offset;
        let bytes = vstd::slice::slice_subrange(content, start, start + name_length);
        Ok(decode_text(bytes, encoding))
    }

    /// Sets the extended-metadata flag from the flags field.
    pub fn exth_header(&mut self)
        ensures
            *final(self) == (MobiHeader { has_exth_header: has_exth_flag(old(self).exth_flags), ..*old(self) }),
    {
        self.has_exth_header = (self.exth_flags & EXTH_FLAG) != 0;
    }

    /// The encoding the text is declared in.
    pub fn text_encoding(&self) -> (r: TextEncoding)
        ensures
            r == text_encoding_of(self.text_encoding),
    {
        TextEncoding::from_code(self.text_encoding)
    }
}

} // verus!
