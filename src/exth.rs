use crate::error::DecodeError;
use crate::palmdoc::{header_base, header_base_of};
use crate::reader::{be_u32, fits, latin1, read_u32_raw, u8_as_string, Reader};
use vstd::prelude::*;

verus! {

/// The kinds of extended-metadata record that have named accessors.
#[derive(Clone, Copy, Debug, PartialEq, Eq, Structural)]
pub enum ExthRecord {
    Author,
    Publisher,
    Description,
    Isbn,
    PublishDate,
    Contributor,
    Title,
}

/// The type code of each named kind.
pub open spec fn exth_code(r: ExthRecord) -> u32 {
    match r {
        ExthRecord::Author => 100,
        ExthRecord::Publisher => 101,
        ExthRecord::Description => 103,
        ExthRecord::Isbn => 104,
        ExthRecord::PublishDate => 106,
        ExthRecord::Contributor => 108,
        ExthRecord::Title => 503,
    }
}

impl ExthRecord {
    /// The type code of this kind.
    pub fn code(&self) -> (r: u32)
        ensures
            r == exth_code(*self),
    {
        match self {
            ExthRecord::Author => 100,
            ExthRecord::Publisher => 101,
            ExthRecord::Description => 103,
            ExthRecord::Isbn => 104,
            ExthRecord::PublishDate => 106,
            ExthRecord::Contributor => 108,
            ExthRecord::Title => 503,
        }
    }
}

/// Where the extended-metadata block starts: right after the format header, whose
/// declared length counts from its identifier.
pub open spec fn exth_start(num_of_records: int, mobi_header_length: int) -> int {
    header_base(num_of_records) + 16 + mobi_header_length
}

/// The records of the block from `pos` on, at most `remaining` of them, as
/// `(type code, payload)`; the list stops before the first record that declares a length
/// under 8 or runs past the buffer.
pub open spec fn exth_entries(buf: Seq<u8>, pos: int, remaining: nat) -> Seq<(u32, Seq<u8>)>
    decreases remaining,
{
    if remaining == 0 || !fits(buf.len() as int, pos, 8) {
        Seq::empty()
    } else {
        let len = be_u32(buf, pos + 4);
        if len < 8 || !fits(buf.len() as int, pos, len) {
            Seq::empty()
        } else {
            seq![(be_u32(buf, pos) as u32, buf.subrange(pos + 8, pos + len))] + exth_entries(
                buf,
                pos + len,
                (remaining - 1) as nat,
            )
        }
    }
}

/// `recs` holds `entries` with each payload taken one character per byte.
pub open spec fn records_match(recs: Seq<(u32, String)>, entries: Seq<(u32, Seq<u8>)>) -> bool {
    &&& recs.len() == entries.len()
    &&& forall|k: int|
        0 <= k < recs.len() ==> (#[trigger] recs[k]).0 == entries[k].0 && recs[k].1@ == latin1(
            entries[k].1,
        )
}

/// The text of the first record of `recs` with type code `code`, if there is one.
pub open spec fn first_text(recs: Seq<(u32, String)>, code: u32) -> Option<Seq<char>>
    decreases recs.len(),
{
    if recs.len() == 0 {
        None
    } else if recs[0].0 == code {
        Some(recs[0].1@)
    } else {
        first_text(recs.drop_first(), code)
    }
}

/// The characters of an optional string.
pub open spec fn text_of(r: Option<&String>) -> Option<Seq<char>> {
    match r {
        Some(s) => Some(s@),
        None => None,
    }
}

/// The extended-metadata block: a self-describing list of tagged records.
#[derive(Debug)]
pub struct ExtHeader {
    pub identifier: u32,
    pub header_length: u32,
    pub record_count: u32,
    /// `(type code, text)` in the order of the block.
    pub records: Vec<(u32, String)>,
    /// `MalformedMetadataRecord` where the list stopped short of `record_count`.
    pub error: Option<DecodeError>,
}

/// `r` is the block that `buf` holds at `start`: its prologue and its records up to the
/// first malformed one, or an empty block where the prologue does not fit.
pub open spec fn exth_read_from(r: ExtHeader, buf: Seq<u8>, start: int) -> bool {
    &&& if fits(buf.len() as int, start, 12) {
        &&& r.identifier as int == be_u32(buf, start)
        &&& r.header_length as int == be_u32(buf, start + 4)
        &&& r.record_count as int == be_u32(buf, start + 8)
        &&& records_match(r.records@, exth_entries(buf, start + 12, r.record_count as nat))
        &&& r.error is None <==> r.records@.len() == r.record_count
    } else {
        &&& r.identifier == 0 && r.header_length == 0 && r.record_count == 0
        &&& r.records@.len() == 0
        &&& r.error is Some
    }
    &&& r.error is Some ==> r.error == Some(DecodeError::MalformedMetadataRecord)
}

impl ExtHeader {
    /// An empty block with no records, as for a book without one.
    pub fn empty() -> (r: ExtHeader)
        ensures
            r.identifier == 0 && r.header_length == 0 && r.record_count == 0,
            r.records@.len() == 0,
            r.error is None,
    {
        ExtHeader {
            identifier: 0,
            header_length: 0,
            record_count: 0,
            records: Vec::new(),
            error: None,
        }
    }

    /// Parses the block that follows a format header of `header_length` bytes. It never
    /// fails: a prologue past the buffer gives an empty block, and a record that overruns
    /// the buffer ends the list there; both are noted in `error`.
    pub fn parse(content: &[u8], num_of_records: u16, header_length: u32) -> (r: ExtHeader)
        ensures
            exth_read_from(r, content@, exth_start(num_of_records as int, header_length as int)),
    {
        let malformed = ExtHeader {
            identifier: 0,
            header_length: 0,
            record_count: 0,
            records: Vec::new(),
            error: Some(DecodeError::MalformedMetadataRecord),
        };
        let base = header_base_of(num_of_records);
        if content.len() < base || content.len() - base < 16 {
            return malformed;
        }
        let rest = content.len() - base - 16;
        if rest < header_length as usize || rest - (header_length as usize) < 12 {
            return malformed;
        }
        let start = base + 16 + header_length as usize;
        let mut extheader = ExtHeader {
            identifier: read_u32_raw(content, start),
            header_length: read_u32_raw(content, start + 4),
            record_count: read_u32_raw(content, start + 8),
            records: Vec::new(),
            error: None,
        };
        extheader.get_records(content, start + 12);
        extheader
    }

    /// Reads up to `record_count` records starting at `pos`, stopping before one that
    /// declares a length under 8 or overruns the buffer.
    fn get_records(&mut self, content: &[u8], pos: usize)
        requires
            pos <= content@.len(),
            old(self).records@.len() == 0,
            old(self).error is None,
        ensures
            final(self).identifier == old(self).identifier,
            final(self).header_length == old(self).header_length,
            final(self).record_count == old(self).record_count,
            records_match(
                final(self).records@,
                exth_entries(content@, pos as int, old(self).record_count as nat),
            ),
            final(self).error is None <==> final(self).records@.len() == final(self).record_count,
            final(self).error is Some ==> final(self).error == Some(
                DecodeError::MalformedMetadataRecord,
            ),
    {
        let count = self.record_count;
        let ghost all = exth_entries(content@, pos as int, count as nat);
        let ghost mut got: Seq<(u32, Seq<u8>)> = Seq::empty();
        let ghost mut at: int = pos as int;
        let mut records: Vec<(u32, String)> = Vec::new();
        let mut reader = Reader::new(content);
        reader.set_position(pos);
        let mut i: u32 = 0;
        while i < count
            invariant_except_break
                reader.position == at,
            invariant
                reader.content@ == content@,
                at <= content@.len(),
                i <= count,
                got.len() == i,
                all == got + exth_entries(content@, at, (count - i) as nat),
                records_match(records@, got),
            ensures
                i <= count,
                got.len() == i,
                all == got + exth_entries(content@, at, (count - i) as nat),
                records_match(records@, got),
                i < count ==> exth_entries(content@, at, (count - i) as nat).len() == 0,
            decreases count - i,
        {
            let record_type = match reader.read_u32_be() {
                Ok(v) => v,
                Err(_) => break,
            };
            let record_len = match reader.read_u32_be() {
                Ok(v) => v,
                Err(_) => break,
            };
            if record_len < 8 {
                break;
            }
            let data = match reader.read_bytes((record_len - 8) as usize) {
                Ok(d) => d,
                Err(_) => break,
            };
            let text = u8_as_string(data.as_slice());
            proof {
                let e = (record_type, content@.subrange(at + 8, at + record_len));
                assert(exth_entries(content@, at, (count - i) as nat) == seq![e] + exth_entries(
                    content@,
                    at + record_len,
                    (count - i - 1) as nat,
                ));
                got = got.push(e);
                at = at + record_len;
            }
            records.push((record_type, text));
            i += 1;
        }
        assert(all =~= got);
        self.error = if i < count {
            Some(DecodeError::MalformedMetadataRecord)
        } else {
            None
        };
        self.records = records;
    }

    /// The text of the first record with type code `code`, if there is one.
    pub fn get_record_code(&self, code: u32) -> (r: Option<&String>)
        ensures
            text_of(r) == first_text(self.records@, code),
    {
        let mut i: usize = 0;
        assert(self.records@.subrange(0, self.records@.len() as int) =~= self.records@);
        while i < self.records.len()
            invariant
                i <= self.records@.len(),
                first_text(self.records@, code) == first_text(
                    self.records@.subrange(i as int, self.records@.len() as int),
                    code,
                ),
            decreases self.records@.len() - i,
        {
            let ghost rest = self.records@.subrange(i as int, self.records@.len() as int);
            assert(rest.drop_first() =~= self.records@.subrange(i + 1, self.records@.len() as int));
            if self.records[i].0 == code {
                return Some(&self.records[i].1);
            }
            i += 1;
        }
        None
    }

    /// The text of the first record of a named kind, if there is one.
    pub fn get_record(&self, record: ExthRecord) -> (r: Option<&String>)
        ensures
            text_of(r) == first_text(self.records@, exth_code(record)),
    {
        self.get_record_code(record.code())
    }
}

/// The record at `p` declares a length of at least 8 and lies inside the buffer.
pub open spec fn record_ok(buf: Seq<u8>, p: int) -> bool {
    fits(buf.len() as int, p, 8) && be_u32(buf, p + 4) >= 8 && fits(
        buf.len() as int,
        p,
        be_u32(buf, p + 4),
    )
}

/// Where record `k` starts, walking the declared lengths from `pos`.
pub open spec fn record_pos(buf: Seq<u8>, pos: int, k: nat) -> int
    decreases k,
{
    if k == 0 {
        pos
    } else {
        record_pos(buf, pos + be_u32(buf, pos + 4), (k - 1) as nat)
    }
}

/// The `(type code, payload)` of the record at `p`.
pub open spec fn entry_at(buf: Seq<u8>, p: int) -> (u32, Seq<u8>) {
    (be_u32(buf, p) as u32, buf.subrange(p + 8, p + be_u32(buf, p + 4)))
}

proof fn lemma_entries_stop_at(buf: Seq<u8>, pos: int, remaining: nat, k: nat)
    requires
        k < remaining,
        forall|j: nat| j < k ==> record_ok(buf, #[trigger] record_pos(buf, pos, j)),
        !record_ok(buf, record_pos(buf, pos, k)),
    ensures
        exth_entries(buf, pos, remaining) =~= Seq::new(
            k,
            |j: int| entry_at(buf, record_pos(buf, pos, j as nat)),
        ),
    decreases k,
{
    if k > 0 {
        assert(record_ok(buf, record_pos(buf, pos, 0)));
        let next = pos + be_u32(buf, pos + 4);
        assert forall|j: nat| j < (k - 1) as nat implies record_ok(
            buf,
            #[trigger] record_pos(buf, next, j),
        ) by {
            assert(record_pos(buf, pos, j + 1) == record_pos(buf, next, j));
        }
        assert(record_pos(buf, pos, k) == record_pos(buf, next, (k - 1) as nat));
        lemma_entries_stop_at(buf, next, (remaining - 1) as nat, (k - 1) as nat);
        let tail = Seq::new(
            (k - 1) as nat,
            |j: int| entry_at(buf, record_pos(buf, next, j as nat)),
        );
        let whole = Seq::new(k, |j: int| entry_at(buf, record_pos(buf, pos, j as nat)));
        assert forall|j: int| 0 <= j < k implies whole[j] == (seq![entry_at(buf, pos)] + tail)[j] by {
            if j > 0 {
                assert(record_pos(buf, pos, j as nat) == record_pos(buf, next, (j - 1) as nat));
            }
        }
        assert(whole =~= seq![entry_at(buf, pos)] + tail);
    }
}

/// A malformed record ends the list without failing: where records `0..k` are well
/// formed and record `k` (one of the declared ones) declares a length under 8 or runs
/// past the buffer, the block holds exactly the first `k` records, in order, and notes
/// the truncation.
pub proof fn lemma_exth_truncated_at_malformed(r: ExtHeader, buf: Seq<u8>, start: int, k: nat)
    requires
        exth_read_from(r, buf, start),
        fits(buf.len() as int, start, 12),
        k < r.record_count,
        forall|j: nat| j < k ==> record_ok(buf, #[trigger] record_pos(buf, start + 12, j)),
        !record_ok(buf, record_pos(buf, start + 12, k)),
    ensures
        r.records@.len() == k,
        forall|j: int|
            0 <= j < k ==> (#[trigger] r.records@[j]).0 == entry_at(
                buf,
                record_pos(buf, start + 12, j as nat),
            ).0 && r.records@[j].1@ == latin1(
                entry_at(buf, record_pos(buf, start + 12, j as nat)).1,
            ),
        r.error == Some(DecodeError::MalformedMetadataRecord),
{
    lemma_entries_stop_at(buf, start + 12, r.record_count as nat, k);
}

} // verus!
