//! The checkpoint log.
//!
//! The log is an append-only sequence of text records, one per line:
//! `"<time>. <payload>"` followed by a newline, where the payload is the
//! serialized simulation state.  This module owns the record framing and
//! the restore-side parsing — which line is the latest record, where its
//! time prefix ends, and when the trailing content is corrupt — all of it
//! specified exactly over the log bytes.  Reading and writing the file
//! itself, and turning the payload into a state, are the caller's side.

use vstd::prelude::*;

verus! {

/// The line terminator.
pub const NEWLINE_BYTE: u8 = 0x0a;

/// The first byte of the `". "` separator between time prefix and payload.
pub const DOT_BYTE: u8 = 0x2e;

/// The second byte of the `". "` separator.
pub const SPACE_BYTE: u8 = 0x20;

/// One framed record: the time text, the `". "` separator, the payload,
/// and a final newline.
pub open spec fn record_line(time_text: Seq<u8>, payload: Seq<u8>) -> Seq<u8> {
    time_text + seq![DOT_BYTE, SPACE_BYTE] + payload + seq![NEWLINE_BYTE]
}

/// The log without its final newline, if it ends in one.
pub open spec fn sans_final_newline(s: Seq<u8>) -> Seq<u8> {
    if s.len() > 0 && s.last() == NEWLINE_BYTE {
        s.drop_last()
    } else {
        s
    }
}

/// The suffix after the last newline.
pub open spec fn tail_line(s: Seq<u8>) -> Seq<u8>
    decreases s.len(),
{
    if s.len() == 0 {
        s
    } else if s.last() == NEWLINE_BYTE {
        Seq::empty()
    } else {
        tail_line(s.drop_last()).push(s.last())
    }
}

/// The last line of the log, as a line-by-line reader sees it: the suffix
/// after the last newline, a final newline ignored.
pub open spec fn last_line(s: Seq<u8>) -> Seq<u8> {
    tail_line(sans_final_newline(s))
}

/// Whether the `". "` separator occurs anywhere in `s`.
pub open spec fn has_sep(s: Seq<u8>) -> bool
    decreases s.len(),
{
    if s.len() < 2 {
        false
    } else if s[s.len() - 2] == DOT_BYTE && s[s.len() - 1] == SPACE_BYTE {
        true
    } else {
        has_sep(s.drop_last())
    }
}

/// The suffix after the last `". "` separator (all of `s` if none occurs).
pub open spec fn after_last_sep(s: Seq<u8>) -> Seq<u8>
    decreases s.len(),
{
    if s.len() < 2 {
        s
    } else if s[s.len() - 2] == DOT_BYTE && s[s.len() - 1] == SPACE_BYTE {
        Seq::empty()
    } else {
        after_last_sep(s.drop_last()).push(s.last())
    }
}

/// The payload of the latest record of a log: the part of the last line
/// after its time prefix — or nothing, when the last line holds no
/// separator and is therefore corrupt.
pub open spec fn spec_restore(log: Seq<u8>) -> Option<Seq<u8>> {
    let line = last_line(log);
    if has_sep(line) {
        Some(after_last_sep(line))
    } else {
        None
    }
}

/// Why a restore failed: the log is absent, or its trailing content does
/// not parse as a record.
#[derive(Debug, PartialEq, Eq, Structural)]
pub enum TrackError {
    NotFound,
    Corrupt,
}

/// `tail_line` is the suffix from any cut point that sits right after a
/// newline and has no newline after it.
proof fn lemma_tail_line_at(s: Seq<u8>, cut: int)
    requires
        0 <= cut <= s.len(),
        forall|j: int| cut <= j < s.len() ==> s[j] != NEWLINE_BYTE,
        cut > 0 ==> s[cut - 1] == NEWLINE_BYTE,
    ensures
        tail_line(s) == s.subrange(cut, s.len() as int),
    decreases s.len(),
{
    if s.len() == 0 {
        assert(tail_line(s) =~= s.subrange(0, 0));
    } else if cut == s.len() {
        if cut > 0 {
            assert(s.last() == NEWLINE_BYTE);
        }
        assert(tail_line(s) =~= s.subrange(cut, s.len() as int));
    } else {
        assert(s.last() != NEWLINE_BYTE);
        lemma_tail_line_at(s.drop_last(), cut);
        assert(tail_line(s) == tail_line(s.drop_last()).push(s.last()));
        assert(tail_line(s) =~= s.subrange(cut, s.len() as int));
    }
}

/// `after_last_sep` is the suffix from any cut point that sits right after
/// a separator and has no separator ending after it.
proof fn lemma_after_last_sep_at(s: Seq<u8>, cut: int)
    requires
        2 <= cut <= s.len(),
        s[cut - 2] == DOT_BYTE,
        s[cut - 1] == SPACE_BYTE,
        forall|m: int| cut < m <= s.len() ==> !((#[trigger] s[m - 2]) == DOT_BYTE && s[m - 1] == SPACE_BYTE),
    ensures
        has_sep(s),
        after_last_sep(s) == s.subrange(cut, s.len() as int),
    decreases s.len(),
{
    if cut == s.len() {
        assert(after_last_sep(s) =~= s.subrange(cut, s.len() as int));
    } else {
        assert(!(s[s.len() - 2] == DOT_BYTE && s[s.len() - 1] == SPACE_BYTE));
        lemma_after_last_sep_at(s.drop_last(), cut);
        assert(after_last_sep(s) == after_last_sep(s.drop_last()).push(s.last()));
        assert(after_last_sep(s) =~= s.subrange(cut, s.len() as int));
    }
}

/// A sequence with no separator anywhere has none.
proof fn lemma_no_sep(s: Seq<u8>)
    requires
        forall|m: int| 2 <= m <= s.len() ==> !((#[trigger] s[m - 2]) == DOT_BYTE && s[m - 1] == SPACE_BYTE),
    ensures
        !has_sep(s),
    decreases s.len(),
{
    if s.len() >= 2 {
        lemma_no_sep(s.drop_last());
    }
}

/// The checkpoint log, as bytes: an ordered, append-only sequence of
/// framed records.  The view is the log content; well-formedness says the
/// content is empty or newline-terminated, which every append preserves.
pub struct Track {
    log: Vec<u8>,
}

impl View for Track {
    type V = Seq<u8>;

    closed spec fn view(&self) -> Seq<u8> {
        self.log@
    }
}

impl Track {
    /// The log is empty or ends with a newline: nothing was ever cut off.
    pub open spec fn wf(self) -> bool {
        self@.len() == 0 || self@.last() == NEWLINE_BYTE
    }

    /// An empty log.
    pub fn new() -> (r: Track)
        ensures
            r.wf(),
            r@ == Seq::<u8>::empty(),
    {
        Track { log: Vec::new() }
    }

    /// A log holding the given bytes, as read back from storage.
    pub fn from_bytes(log: Vec<u8>) -> (r: Track)
        ensures
            r@ == log@,
    {
        Track { log }
    }

    /// The log content, for the caller to persist.
    pub fn log_bytes(&self) -> (r: &Vec<u8>)
        ensures
            r@ == self@,
    {
        &self.log
    }

    /// Appends one record — the time text, `". "`, the payload, a newline
    /// — and returns the appended line.  Existing content is never
    /// rewritten or truncated.
    pub fn sync(&mut self, time_text: &Vec<u8>, payload: &Vec<u8>) -> (r: Vec<u8>)
        ensures
            final(self)@ == old(self)@ + record_line(time_text@, payload@),
            r@ == record_line(time_text@, payload@),
            final(self).wf(),
    {
        let mut record: Vec<u8> = Vec::new();
        let n_time = time_text.len();
        for i in 0..n_time
            invariant
                n_time == time_text@.len(),
                record@.len() == i,
                forall|j: int| 0 <= j < i ==> record@[j] == time_text@[j],
        {
            record.push(time_text[i]);
        }
        record.push(DOT_BYTE);
        record.push(SPACE_BYTE);
        let n_payload = payload.len();
        for i in 0..n_payload
            invariant
                n_payload == payload@.len(),
                record@.len() == time_text@.len() + 2 + i,
                forall|j: int| 0 <= j < time_text@.len() ==> record@[j] == time_text@[j],
                record@[time_text@.len() as int] == DOT_BYTE,
                record@[time_text@.len() as int + 1] == SPACE_BYTE,
                forall|j: int| 0 <= j < i ==> record@[time_text@.len() + 2 + j] == payload@[j],
        {
            record.push(payload[i]);
        }
        record.push(NEWLINE_BYTE);
        proof {
            assert(record@ =~= record_line(time_text@, payload@));
        }
        let ghost log0 = self.log@;
        let n_record = record.len();
        for i in 0..n_record
            invariant
                n_record == record@.len(),
                self.log@.len() == log0.len() + i,
                forall|j: int| 0 <= j < log0.len() ==> self.log@[j] == log0[j],
                forall|j: int| 0 <= j < i ==> self.log@[log0.len() + j] == record@[j],
        {
            self.log.push(record[i]);
        }
        proof {
            assert(self.log@ =~= log0 + record@);
        }
        record
    }

    /// Parses the latest record out of a log's bytes: scans to the last
    /// line, splits off the time prefix at the last `". "`, and returns
    /// the payload; a log whose last line holds no separator — empty, or
    /// cut off mid-record — is corrupt.
    pub fn restore_from(log: &Vec<u8>) -> (r: Result<Vec<u8>, TrackError>)
        ensures
            match r {
                Ok(payload) => spec_restore(log@) == Some(payload@),
                Err(e) => spec_restore(log@) is None && e == TrackError::Corrupt,
            },
    {
        let n = log.len();
        let end = if n > 0 && log[n - 1] == NEWLINE_BYTE {
            n - 1
        } else {
            n
        };
        proof {
            assert(sans_final_newline(log@) =~= log@.subrange(0, end as int));
        }
        let mut start = end;
        while start > 0 && log[start - 1] != NEWLINE_BYTE
            invariant
                start <= end <= log@.len(),
                forall|j: int| start <= j < end ==> log@[j] != NEWLINE_BYTE,
            decreases start,
        {
            start = start - 1;
        }
        let ghost stripped = log@.subrange(0, end as int);
        proof {
            lemma_tail_line_at(stripped, start as int);
            assert(stripped.subrange(start as int, end as int) =~= log@.subrange(
                start as int,
                end as int,
            ));
        }
        let ghost line = log@.subrange(start as int, end as int);

        let mut cut = end;
        while cut - start >= 2 && !(log[cut - 2] == DOT_BYTE && log[cut - 1] == SPACE_BYTE)
            invariant
                start <= end <= log@.len(),
                start <= cut <= end,
                forall|m: int| cut < m <= end ==> !((#[trigger] log@[m - 2]) == DOT_BYTE
                    && log@[m - 1] == SPACE_BYTE),
            decreases cut,
        {
            cut = cut - 1;
        }
        if cut - start >= 2 && log[cut - 2] == DOT_BYTE && log[cut - 1] == SPACE_BYTE {
            proof {
                assert forall|m: int| (cut - start) < m <= line.len()
                    implies !((#[trigger] line[m - 2]) == DOT_BYTE && line[m - 1] == SPACE_BYTE)
                by {
                    assert(line[m - 2] == log@[start + m - 2]);
                    assert(line[m - 1] == log@[start + m - 1]);
                }
                assert(line[cut - start - 2] == log@[cut - 2]);
                assert(line[cut - start - 1] == log@[cut - 1]);
                lemma_after_last_sep_at(line, cut - start);
                assert(line.subrange(cut - start, line.len() as int) =~= log@.subrange(
                    cut as int,
                    end as int,
                ));
            }
            let mut payload: Vec<u8> = Vec::new();
            for i in cut..end
                invariant
                    cut <= end <= log@.len(),
                    payload@.len() == i - cut,
                    forall|j: int| 0 <= j < i - cut ==> payload@[j] == log@[cut + j],
            {
                payload.push(log[i]);
            }
            proof {
                assert(payload@ =~= log@.subrange(cut as int, end as int));
            }
            Ok(payload)
        } else {
            proof {
                assert forall|m: int| 2 <= m <= line.len() implies !((#[trigger] line[m - 2]) == DOT_BYTE
                    && line[m - 1] == SPACE_BYTE) by {
                    assert(line[m - 2] == log@[start + m - 2]);
                    assert(line[m - 1] == log@[start + m - 1]);
                }
                lemma_no_sep(line);
            }
            Err(TrackError::Corrupt)
        }
    }
}

/// The checkpoint round trip at the framing level: appending one record to
/// a well-formed log and restoring yields that record's payload back,
/// whenever the time text and the payload hold no newline and the payload
/// does not contain the `". "` separator.
pub proof fn lemma_record_round_trip(log: Seq<u8>, time_text: Seq<u8>, payload: Seq<u8>)
    requires
        log.len() == 0 || log.last() == NEWLINE_BYTE,
        forall|i: int| 0 <= i < time_text.len() ==> time_text[i] != NEWLINE_BYTE,
        forall|i: int| 0 <= i < payload.len() ==> payload[i] != NEWLINE_BYTE,
        forall|i: int| 0 <= i && i + 2 <= payload.len() ==> !((#[trigger] payload[i]) == DOT_BYTE
            && payload[i + 1] == SPACE_BYTE),
    ensures
        spec_restore(log + record_line(time_text, payload)) == Some(payload),
{
    let s = log + record_line(time_text, payload);
    let stripped = s.drop_last();
    assert(s.len() > 0 && s.last() == NEWLINE_BYTE);
    assert(sans_final_newline(s) == stripped);

    let cut = log.len() as int;
    lemma_tail_line_at(stripped, cut);
    let line = stripped.subrange(cut, stripped.len() as int);
    assert(line =~= time_text + seq![DOT_BYTE, SPACE_BYTE] + payload);

    let sep_cut = time_text.len() + 2;
    assert forall|m: int| sep_cut < m <= line.len() implies !((#[trigger] line[m - 2]) == DOT_BYTE
        && line[m - 1] == SPACE_BYTE) by {
        if m - 2 == time_text.len() + 1 {
            assert(line[m - 2] == SPACE_BYTE);
        } else {
            assert(line[m - 2] == payload[m - 2 - sep_cut]);
            assert(line[m - 1] == payload[m - 1 - sep_cut]);
        }
    }
    lemma_after_last_sep_at(line, sep_cut as int);
    assert(after_last_sep(line) =~= payload);
}

} // verus!
