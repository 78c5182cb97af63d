use crate::encoding::{decode_text, decoded_text, text_encoding_of, TextEncoding};
use crate::error::DecodeError;
use crate::exth::{exth_code, first_text, text_of, exth_read_from, exth_start, ExtHeader, ExthRecord};
use crate::header::{
    dir_offset, dir_unique_id, directory_ok, header_read_from, page_header_fits, stored_record_count, Header,
};
use crate::mobih::{has_exth_flag, mobi_header_fits, title_len, title_start, title_text, mobi_read_from, title_fits, MobiHeader};
use crate::names::{language_name, language_string, mobi_type_name, mobi_type_string};
use crate::palmdoc::{compression_name, encryption_name, compression_of, header_base, palmdoc_read_from, PalmDocHeader};
use crate::reader::{be_u32, push_str};
use crate::lz77::{apply_tokens, encode_tokens, lemma_decompress_round_trip, tokens_valid, Token};
use crate::record::{directory_valid, is_readable, readable_end, record_read_from, record_span, Record};
use crate::time::datetime_of;
use chrono::NaiveDateTime;
use vstd::prelude::*;

verus! {

/// The first structural failure of the mandatory headers in `buf`, if any.
pub open spec fn metadata_error(buf: Seq<u8>) -> Option<DecodeError> {
    if !page_header_fits(buf) {
        Some(DecodeError::TruncatedHeader)
    } else if !directory_ok(buf, stored_record_count(buf)) {
        Some(DecodeError::MalformedDirectory)
    } else if !mobi_header_fits(buf, stored_record_count(buf)) {
        Some(DecodeError::TruncatedHeader)
    } else if !title_fits(buf, header_base(stored_record_count(buf))) {
        Some(DecodeError::OutOfBounds)
    } else {
        None
    }
}

/// `m` holds the headers that `buf` stores, and its extended metadata exactly when the
/// format header announces it.
pub open spec fn metadata_read_from(m: MobiMetadata, buf: Seq<u8>) -> bool {
    let base = header_base(m.header.num_of_records as int);
    &&& header_read_from(m.header, buf)
    &&& directory_valid(m.header.directory@, buf.len() as int)
    &&& palmdoc_read_from(m.palmdoc, buf, base)
    &&& mobi_read_from(m.mobi, buf, base)
    &&& if m.mobi.has_exth_header {
        exth_read_from(
            m.exth,
            buf,
            exth_start(m.header.num_of_records as int, m.mobi.header_length as int),
        )
    } else {
        &&& m.exth.identifier == 0 && m.exth.header_length == 0 && m.exth.record_count == 0
        &&& m.exth.records@.len() == 0
        &&& m.exth.error is None
    }
}

/// `m` is the book that `buf` holds: its headers, and every record of the directory,
/// the content records decoded.
pub open spec fn book_read_from(m: Mobi, buf: Seq<u8>) -> bool {
    let dir = m.metadata.header.directory@;
    let pd = m.metadata.palmdoc;
    &&& m.raw_content@ == buf
    &&& metadata_read_from(m.metadata, buf)
    &&& m.records@.len() == dir.len()
    &&& forall|i: int|
        0 <= i < m.records@.len() ==> record_read_from(
            #[trigger] m.records@[i],
            buf,
            dir,
            i,
            compression_of(pd.compression),
            pd.encryption_type,
            pd.record_count,
        )
}

/// The data of records `lo` to `hi - 1`, one after the other.
pub open spec fn concat_data(recs: Seq<Record>, lo: int, hi: int) -> Seq<u8>
    decreases hi - lo,
{
    if hi <= lo {
        Seq::empty()
    } else {
        concat_data(recs, lo, hi - 1) + recs[hi - 1].record_data@
    }
}

/// The text of records `lo` to `hi - 1` under `enc`, one after the other.
pub open spec fn concat_text(recs: Seq<Record>, lo: int, hi: int, enc: TextEncoding) -> Seq<char>
    decreases hi - lo,
{
    if hi <= lo {
        Seq::empty()
    } else {
        concat_text(recs, lo, hi - 1, enc) + decoded_text(recs[hi - 1].record_data@, enc)
    }
}

/// The parsed headers of a book.
#[derive(Debug)]
pub struct MobiMetadata {
    pub header: Header,
    pub palmdoc: PalmDocHeader,
    pub mobi: MobiHeader,
    pub exth: ExtHeader,
}

/// A parsed book: its bytes, headers and records.
#[derive(Debug)]
pub struct Mobi {
    pub raw_content: Vec<u8>,
    pub metadata: MobiMetadata,
    pub records: Vec<Record>,
}

impl MobiMetadata {
    /// Parses the headers of a book held in `bytes`.
    pub fn new(bytes: &[u8]) -> (r: Result<MobiMetadata, DecodeError>)
        ensures
            r is Ok <==> metadata_error(bytes@) is None,
            r is Ok ==> metadata_read_from(r->Ok_0, bytes@),
            r is Err ==> metadata_error(bytes@) == Some(r->Err_0),
    {
        let header = Header::parse(bytes)?;
        let n = header.num_of_records;
        proof {
            assert(directory_valid(header.directory@, bytes@.len() as int)) by {
                let d = header.directory@;
                if d.len() > 0 {
                    assert(d[d.len() - 1].data_offset as int == crate::header::dir_offset(
                        bytes@,
                        d.len() - 1,
                    ));
                }
            }
        }
        let palmdoc = PalmDocHeader::parse(bytes, n)?;
        let mobi = MobiHeader::parse(bytes, n)?;
        let exth = if mobi.has_exth_header {
            ExtHeader::parse(bytes, n, mobi.header_length)
        } else {
            ExtHeader::empty()
        };
        Ok(MobiMetadata { header, palmdoc, mobi, exth })
    }

    /// The author, where the extended metadata holds one.
    pub fn author(&self) -> (r: Option<&String>)
        ensures
            text_of(r) == first_text(self.exth.records@, exth_code(ExthRecord::Author)),
    {
        self.exth.get_record(ExthRecord::Author)
    }

    /// The publisher, where the extended metadata holds one.
    pub fn publisher(&self) -> (r: Option<&String>)
        ensures
            text_of(r) == first_text(self.exth.records@, exth_code(ExthRecord::Publisher)),
    {
        self.exth.get_record(ExthRecord::Publisher)
    }

    /// The description, where the extended metadata holds one.
    pub fn description(&self) -> (r: Option<&String>)
        ensures
            text_of(r) == first_text(self.exth.records@, exth_code(ExthRecord::Description)),
    {
        self.exth.get_record(ExthRecord::Description)
    }

    /// The ISBN, where the extended metadata holds one.
    pub fn isbn(&self) -> (r: Option<&String>)
        ensures
            text_of(r) == first_text(self.exth.records@, exth_code(ExthRecord::Isbn)),
    {
        self.exth.get_record(ExthRecord::Isbn)
    }

    /// The publishing date, where the extended metadata holds one.
    pub fn publish_date(&self) -> (r: Option<&String>)
        ensures
            text_of(r) == first_text(self.exth.records@, exth_code(ExthRecord::PublishDate)),
    {
        self.exth.get_record(ExthRecord::PublishDate)
    }

    /// The contributor, where the extended metadata holds one.
    pub fn contributor(&self) -> (r: Option<&String>)
        ensures
            text_of(r) == first_text(self.exth.records@, exth_code(ExthRecord::Contributor)),
    {
        self.exth.get_record(ExthRecord::Contributor)
    }

    /// The title, where the extended metadata holds one.
    pub fn title(&self) -> (r: Option<&String>)
        ensures
            text_of(r) == first_text(self.exth.records@, exth_code(ExthRecord::Title)),
    {
        self.exth.get_record(ExthRecord::Title)
    }

    /// The encoding the text is declared in.
    pub fn text_encoding(&self) -> (r: TextEncoding)
        ensures
            r == text_encoding_of(self.mobi.text_encoding),
    {
        self.mobi.text_encoding()
    }

    /// The name of the book type, where the code is a known one.
    pub fn mobi_type(&self) -> (r: Option<String>)
        ensures
            match r {
                Some(s) => mobi_type_name(self.mobi.mobi_type) == Some(s@),
                None => mobi_type_name(self.mobi.mobi_type) is None,
            },
    {
        mobi_type_string(self.mobi.mobi_type)
    }

    /// The name of the book's language, where the code is a known one.
    pub fn language(&self) -> (r: Option<String>)
        ensures
            match r {
                Some(s) => language_name(self.mobi.language & 0xff) == Some(s@),
                None => language_name(self.mobi.language & 0xff) is None,
            },
    {
        language_string(self.mobi.language)
    }

    /// The creation time, as a date and time.
    pub fn created_datetime(&self) -> (r: NaiveDateTime)
        ensures
            r == datetime_of(self.header.created),
    {
        self.header.created_datetime()
    }

    /// The last modification time, as a date and time.
    pub fn mod_datetime(&self) -> (r: NaiveDateTime)
        ensures
            r == datetime_of(self.header.modified),
    {
        self.header.mod_datetime()
    }

    /// The creation time, in seconds since the epoch.
    pub fn created_time(&self) -> (r: u32)
        ensures
            r == self.header.created,
    {
        self.header.created
    }

    /// The last modification time, in seconds since the epoch.
    pub fn mod_time(&self) -> (r: u32)
        ensures
            r == self.header.modified,
    {
        self.header.modified
    }

    /// The name of the compression method.
    pub fn compression(&self) -> (r: String)
        ensures
            r@ == compression_name(self.palmdoc.compression),
    {
        self.palmdoc.compression()
    }

    /// The name of the encryption method.
    pub fn encryption(&self) -> (r: String)
        ensures
            r@ == encryption_name(self.palmdoc.encryption_type),
    {
        self.palmdoc.encryption()
    }

    /// One past the last content record: the document header's record count less one.
    fn last_index(&self) -> (r: usize)
        ensures
            r == if self.palmdoc.record_count >= 1 {
                self.palmdoc.record_count - 1
            } else {
                0
            },
    {
        if self.palmdoc.record_count >= 1 {
            (self.palmdoc.record_count - 1) as usize
        } else {
            0
        }
    }
}

impl Mobi {
    /// Parses a whole book held in `bytes`: its headers, then every record of the
    /// directory, decoding the content records.
    pub fn new(bytes: &[u8]) -> (r: Result<Mobi, DecodeError>)
        ensures
            r is Ok <==> metadata_error(bytes@) is None,
            r is Ok ==> book_read_from(r->Ok_0, bytes@),
            r is Err ==> metadata_error(bytes@) == Some(r->Err_0),
    {
        let metadata = MobiMetadata::new(bytes)?;
        let records = Record::parse_records(
            bytes,
            &metadata.header.directory,
            metadata.palmdoc.compression_enum(),
            metadata.palmdoc.encryption_type,
            metadata.palmdoc.record_count,
        );
        Ok(Mobi { raw_content: vstd::slice::slice_to_vec(bytes), metadata, records })
    }

    /// The author, where the extended metadata holds one.
    pub fn author(&self) -> (r: Option<&String>)
        ensures
            text_of(r) == first_text(self.metadata.exth.records@, exth_code(ExthRecord::Author)),
    {
        self.metadata.author()
    }

    /// The publisher, where the extended metadata holds one.
    pub fn publisher(&self) -> (r: Option<&String>)
        ensures
            text_of(r) == first_text(self.metadata.exth.records@, exth_code(ExthRecord::Publisher)),
    {
        self.metadata.publisher()
    }

    /// The description, where the extended metadata holds one.
    pub fn description(&self) -> (r: Option<&String>)
        ensures
            text_of(r) == first_text(self.metadata.exth.records@, exth_code(ExthRecord::Description)),
    {
        self.metadata.description()
    }

    /// The ISBN, where the extended metadata holds one.
    pub fn isbn(&self) -> (r: Option<&String>)
        ensures
            text_of(r) == first_text(self.metadata.exth.records@, exth_code(ExthRecord::Isbn)),
    {
        self.metadata.isbn()
    }

    /// The publishing date, where the extended metadata holds one.
    pub fn publish_date(&self) -> (r: Option<&String>)
        ensures
            text_of(r) == first_text(self.metadata.exth.records@, exth_code(ExthRecord::PublishDate)),
    {
        self.metadata.publish_date()
    }

    /// The contributor, where the extended metadata holds one.
    pub fn contributor(&self) -> (r: Option<&String>)
        ensures
            text_of(r) == first_text(self.metadata.exth.records@, exth_code(ExthRecord::Contributor)),
    {
        self.metadata.contributor()
    }

    /// The title, where the extended metadata holds one.
    pub fn title(&self) -> (r: Option<&String>)
        ensures
            text_of(r) == first_text(self.metadata.exth.records@, exth_code(ExthRecord::Title)),
    {
        self.metadata.title()
    }

    /// The encoding the text is declared in.
    pub fn text_encoding(&self) -> (r: TextEncoding)
        ensures
            r == text_encoding_of(self.metadata.mobi.text_encoding),
    {
        self.metadata.text_encoding()
    }

    /// The name of the book type, where the code is a known one.
    pub fn mobi_type(&self) -> (r: Option<String>)
        ensures
            match r {
                Some(s) => mobi_type_name(self.metadata.mobi.mobi_type) == Some(s@),
                None => mobi_type_name(self.metadata.mobi.mobi_type) is None,
            },
    {
        self.metadata.mobi_type()
    }

    /// The name of the book's language, where the code is a known one.
    pub fn language(&self) -> (r: Option<String>)
        ensures
            match r {
                Some(s) => language_name(self.metadata.mobi.language & 0xff) == Some(s@),
                None => language_name(self.metadata.mobi.language & 0xff) is None,
            },
    {
        self.metadata.language()
    }

    /// The creation time, as a date and time.
    pub fn created_datetime(&self) -> (r: NaiveDateTime)
        ensures
            r == datetime_of(self.metadata.header.created),
    {
        self.metadata.created_datetime()
    }

    /// The last modification time, as a date and time.
    pub fn mod_datetime(&self) -> (r: NaiveDateTime)
        ensures
            r == datetime_of(self.metadata.header.modified),
    {
        self.metadata.mod_datetime()
    }

    /// The creation time, in seconds since the epoch.
    pub fn created_time(&self) -> (r: u32)
        ensures
            r == self.metadata.header.created,
    {
        self.metadata.created_time()
    }

    /// The last modification time, in seconds since the epoch.
    pub fn mod_time(&self) -> (r: u32)
        ensures
            r == self.metadata.header.modified,
    {
        self.metadata.mod_time()
    }

    /// The name of the compression method.
    pub fn compression(&self) -> (r: String)
        ensures
            r@ == compression_name(self.metadata.palmdoc.compression),
    {
        self.metadata.compression()
    }

    /// The name of the encryption method.
    pub fn encryption(&self) -> (r: String)
        ensures
            r@ == encryption_name(self.metadata.palmdoc.encryption_type),
    {
        self.metadata.encryption()
    }

    /// One past the last content record: the document header's record count less one.
    fn last_index(&self) -> (r: usize)
        ensures
            r == if self.metadata.palmdoc.record_count >= 1 {
                self.metadata.palmdoc.record_count - 1
            } else {
                0
            },
    {
        self.metadata.last_index()
    }

    /// The content records: from record 1 up to, not including, the record count of the
    /// document header less one.
    fn readable_records_range(&self) -> (r: (usize, usize))
        ensures
            r.0 == 1,
            r.1 == readable_end(self.metadata.palmdoc.record_count, self.records@.len() as int),
    {
        let last = self.last_index();
        if last < self.records.len() {
            (1, last)
        } else {
            (1, self.records.len())
        }
    }

    /// The decoded bytes of all content records, in order.
    pub fn content(&self) -> (r: Vec<u8>)
        ensures
            r@ == concat_data(
                self.records@,
                1,
                readable_end(self.metadata.palmdoc.record_count, self.records@.len() as int),
            ),
    {
        let (lo, hi) = self.readable_records_range();
        let mut out: Vec<u8> = Vec::new();
        let mut i: usize = lo;
        if hi <= lo {
            return out;
        }
        while i < hi
            invariant
                lo == 1,
                lo <= i <= hi,
                hi <= self.records@.len(),
                out@ == concat_data(self.records@, lo as int, i as int),
            decreases hi - i,
        {
            let ghost before = out@;
            let data = &self.records[i].record_data;
            let mut k: usize = 0;
            while k < data.len()
                invariant
                    out@ == before + data@.subrange(0, k as int),
                    k <= data@.len(),
                decreases data@.len() - k,
            {
                out.push(data[k]);
                k += 1;
                assert(out@ =~= before + data@.subrange(0, k as int));
            }
            assert(data@.subrange(0, data@.len() as int) =~= data@);
            i += 1;
        }
        out
    }

    /// The text of all content records, each decoded under the declared text encoding,
    /// in order.
    pub fn content_as_string(&self) -> (r: String)
        ensures
            r@ == concat_text(
                self.records@,
                1,
                readable_end(self.metadata.palmdoc.record_count, self.records@.len() as int),
                text_encoding_of(self.metadata.mobi.text_encoding),
            ),
    {
        let enc = self.metadata.mobi.text_encoding();
        let (lo, hi) = self.readable_records_range();
        let mut out = String::new();
        if hi <= lo {
            return out;
        }
        let mut i: usize = lo;
        while i < hi
            invariant
                lo == 1,
                lo <= i <= hi,
                hi <= self.records@.len(),
                enc == text_encoding_of(self.metadata.mobi.text_encoding),
                out@ == concat_text(self.records@, lo as int, i as int, enc),
            decreases hi - i,
        {
            let text = decode_text(self.records[i].record_data.as_slice(), enc);
            push_str(&mut out, text.as_str());
            i += 1;
        }
        out
    }
}

/// A buffer too short for the fixed page-database header fails with `TruncatedHeader`.
pub proof fn lemma_short_buffer_truncated(buf: Seq<u8>)
    requires
        buf.len() < 78,
    ensures
        metadata_error(buf) == Some(DecodeError::TruncatedHeader),
{
}

/// Without the extended-metadata flag the metadata block is empty and nothing of it is
/// read: no prologue field, no record.
pub proof fn lemma_no_exth_flag_no_metadata(m: MobiMetadata, buf: Seq<u8>)
    requires
        metadata_read_from(m, buf),
        !has_exth_flag(m.mobi.exth_flags),
    ensures
        m.exth.records@.len() == 0,
        m.exth.identifier == 0 && m.exth.header_length == 0 && m.exth.record_count == 0,
        forall|code: u32| first_text(m.exth.records@, code) is None,
{
}

/// In a book stored without compression, every record holds exactly its span of the
/// buffer.
pub proof fn lemma_uncompressed_records_verbatim(m: Mobi, buf: Seq<u8>, i: int)
    requires
        book_read_from(m, buf),
        m.metadata.palmdoc.compression == 1,
        0 <= i < m.records@.len(),
    ensures
        m.records@[i].record_data@ == record_span(buf, m.metadata.header.directory@, i),
        m.records@[i].error is None,
{
    assert(record_read_from(
        m.records@[i],
        buf,
        m.metadata.header.directory@,
        i,
        compression_of(m.metadata.palmdoc.compression),
        m.metadata.palmdoc.encryption_type,
        m.metadata.palmdoc.record_count,
    ));
}

/// The directory of a parsed book has one entry per stored record, with offsets that
/// increase strictly.
pub proof fn lemma_directory_increasing(m: MobiMetadata, buf: Seq<u8>, i: int, j: int)
    requires
        metadata_read_from(m, buf),
        0 <= i < j < m.header.directory@.len(),
    ensures
        m.header.directory@.len() == m.header.num_of_records,
        m.header.directory@[i].data_offset < m.header.directory@[j].data_offset,
{
}

/// In a dictionary-compressed, unencrypted book, a content record whose bytes are what an
/// encoder writes for a valid stream of tokens decodes to exactly what the tokens stand for.
pub proof fn lemma_compressed_record_round_trip(m: Mobi, buf: Seq<u8>, i: int, ts: Seq<Token>)
    requires
        book_read_from(m, buf),
        m.metadata.palmdoc.compression == 2,
        m.metadata.palmdoc.encryption_type == 0,
        is_readable(i, m.metadata.palmdoc.record_count, m.records@.len() as int),
        record_span(buf, m.metadata.header.directory@, i) == encode_tokens(ts),
        tokens_valid(Seq::empty(), ts),
    ensures
        m.records@[i].record_data@ == apply_tokens(Seq::empty(), ts),
        m.records@[i].error is None,
{
    lemma_decompress_round_trip(ts);
    assert(record_read_from(
        m.records@[i],
        buf,
        m.metadata.header.directory@,
        i,
        compression_of(m.metadata.palmdoc.compression),
        m.metadata.palmdoc.encryption_type,
        m.metadata.palmdoc.record_count,
    ));
}

/// Without the extended-metadata flag, decoding reads nothing beyond the header regions
/// and the title: a buffer of the same length that agrees with a decoded one on those
/// bytes, whatever it holds elsewhere, decodes to the same metadata.
pub proof fn lemma_no_exth_flag_reads_only_headers(m: MobiMetadata, c1: Seq<u8>, c2: Seq<u8>)
    requires
        metadata_read_from(m, c2),
        metadata_error(c2) is None,
        !has_exth_flag(m.mobi.exth_flags),
        c1.len() == c2.len(),
        forall|i: int|
            0 <= i < header_base(m.header.num_of_records as int) + 212 ==> #[trigger] c1[i]
                == c2[i],
        forall|i: int|
            title_start(c2, header_base(m.header.num_of_records as int)) <= i < title_start(
                c2,
                header_base(m.header.num_of_records as int),
            ) + title_len(c2, header_base(m.header.num_of_records as int)) ==> #[trigger] c1[i]
                == c2[i],
    ensures
        metadata_error(c1) is None,
        metadata_read_from(m, c1),
{
    let n = m.header.num_of_records as int;
    let base = header_base(n);
    assert(c1.subrange(0, 32) =~= c2.subrange(0, 32));
    assert(c1.subrange(60, 64) =~= c2.subrange(60, 64));
    assert(c1.subrange(64, 68) =~= c2.subrange(64, 68));
    assert(stored_record_count(c1) == stored_record_count(c2));
    assert(forall|k: int| 0 <= k < n ==> dir_offset(c1, k) == #[trigger] dir_offset(c2, k));
    assert(forall|k: int| 0 <= k < n ==> dir_unique_id(c1, k) == #[trigger] dir_unique_id(c2, k));
    assert(title_start(c1, base) == title_start(c2, base));
    assert(title_len(c1, base) == title_len(c2, base));
    assert(be_u32(c1, base + 28) == be_u32(c2, base + 28));
    let ts = title_start(c2, base);
    let tl = title_len(c2, base);
    assert(c1.subrange(ts, ts + tl) =~= c2.subrange(ts, ts + tl));
    assert(title_text(c1, base) == title_text(c2, base));
    assert(directory_ok(c2, n));
    assert forall|i: int, j: int| 0 <= i < j < n implies dir_offset(c1, i) < dir_offset(c1, j) by {
        assert(dir_offset(c2, i) < dir_offset(c2, j));
    }
    if n > 0 {
        assert(dir_offset(c1, n - 1) == dir_offset(c2, n - 1));
    }
    assert(directory_ok(c1, n));
}

} // verus!
