//! The statistics push message.
//!
//! The broadcaster periodically sends every subscriber one compact binary
//! message: `[activeConnections: 1 byte][nameLen: 1 byte][name: nameLen
//! bytes][mostDownloadedCount: 1 byte]`. The numeric fields are one wire
//! byte each; a wider value is capped at 255, and a name longer than 255
//! bytes is sent truncated to its first 255 bytes so that the length byte
//! stays honest. While nothing has been downloaded the message carries the
//! sentinel name `no files` with count 0.

use vstd::prelude::*;
use vstd::slice::{slice_subrange, slice_to_vec};
use crate::error::FileServerError;
use crate::gate::AdmissionGate;
use crate::tracker::{
    FileUsageTracker, is_first_max, lemma_count_is_entry, lemma_count_of_absent,
    lemma_first_max_unique, lemma_record_n_preserves_wf, lemma_repeated_records_count,
    lemma_strict_leader_is_first_max, positive_counts, spec_contains_name, spec_count_of,
    spec_record_n, unique_names,
};

verus! {

/// A value as it goes onto its one wire byte: capped at 255.
pub open spec fn spec_byte_of(v: int) -> u8 {
    if v > 255 {
        255u8
    } else {
        v as u8
    }
}

/// How many bytes of a name go onto the wire.
pub open spec fn spec_name_len(name: Seq<u8>) -> int {
    if name.len() > 255 {
        255
    } else {
        name.len() as int
    }
}

/// The wire encoding of one statistics push message.
pub open spec fn spec_encode_stats(active: int, name: Seq<u8>, count: int) -> Seq<u8> {
    seq![spec_byte_of(active)] + seq![spec_name_len(name) as u8] + name.take(spec_name_len(name))
        + seq![spec_byte_of(count)]
}

/// The fields read back out of a wire message: active connections, name,
/// count. `None` when the buffer is too short for its own length byte.
/// Bytes past the message are ignored.
pub open spec fn spec_decode_stats(b: Seq<u8>) -> Option<(u8, Seq<u8>, u8)> {
    if b.len() < 2 {
        None
    } else {
        let nlen = b[1] as int;
        if b.len() < 3 + nlen {
            None
        } else {
            Some((b[0], b.subrange(2, 2 + nlen), b[2 + nlen]))
        }
    }
}

/// The bytes of the sentinel name `no files`.
pub open spec fn spec_no_files_name() -> Seq<u8> {
    seq![110u8, 111u8, 32u8, 102u8, 105u8, 108u8, 101u8, 115u8]
}

/// The sentinel name `no files`.
pub fn no_files_name() -> (v: Vec<u8>)
    ensures
        v@ == spec_no_files_name(),
{
    let mut v: Vec<u8> = Vec::new();
    v.push(110);
    v.push(111);
    v.push(32);
    v.push(102);
    v.push(105);
    v.push(108);
    v.push(101);
    v.push(115);
    proof {
        assert(v@ =~= spec_no_files_name());
    }
    v
}

/// What a subscriber reads out of one push message.
pub struct Stats {
    /// Connections currently being serviced, as reported.
    pub number_of_clients: u8,
    /// The name of the most downloaded file, as reported.
    pub most_downloaded_file: Vec<u8>,
    /// Its download count, as reported.
    pub file_downloaded_count: u8,
}

impl Stats {
    /// Read the fields of one push message back out of its bytes.
    ///
    /// Succeeds exactly when the buffer covers the whole message its length
    /// byte announces; bytes past the message are ignored.
    pub fn stats_from_bytes(buf: &[u8]) -> (r: Result<Stats, FileServerError>)
        ensures
            match r {
                Ok(s) => {
                    &&& spec_decode_stats(buf@) matches Some(t)
                    &&& s.number_of_clients == t.0
                    &&& s.most_downloaded_file@ == t.1
                    &&& s.file_downloaded_count == t.2
                },
                Err(e) => {
                    &&& spec_decode_stats(buf@) is None
                    &&& e matches FileServerError::ServerReadError(m) && m@
                        == "truncated statistics message"@
                },
            },
    {
        if buf.len() < 2 {
            return Err(FileServerError::ServerReadError("truncated statistics message".to_owned()));
        }
        let nlen: usize = buf[1] as usize;
        if buf.len() < 3 + nlen {
            return Err(FileServerError::ServerReadError("truncated statistics message".to_owned()));
        }
        let name = slice_to_vec(slice_subrange(buf, 2, 2 + nlen));
        Ok(
            Stats {
                number_of_clients: buf[0],
                most_downloaded_file: name,
                file_downloaded_count: buf[2 + nlen],
            },
        )
    }
}

/// Encode one statistics push message.
pub fn encode_stats_message(active: u32, name: &[u8], count: u64) -> (msg: Vec<u8>)
    ensures
        msg@ == spec_encode_stats(active as int, name@, count as int),
{
    let active_byte: u8 = if active > 255 {
        255
    } else {
        active as u8
    };
    let count_byte: u8 = if count > 255 {
        255
    } else {
        count as u8
    };
    let nlen: usize = if name.len() > 255 {
        255
    } else {
        name.len()
    };
    let mut msg: Vec<u8> = Vec::new();
    msg.push(active_byte);
    msg.push(nlen as u8);
    let mut k: usize = 0;
    while k < nlen
        invariant
            k <= nlen,
            nlen <= name@.len(),
            nlen == spec_name_len(name@),
            msg@ == seq![spec_byte_of(active as int)] + seq![spec_name_len(name@) as u8]
                + name@.take(k as int),
        decreases nlen - k,
    {
        msg.push(name[k]);
        proof {
            assert(name@.take(k + 1) =~= name@.take(k as int).push(name@[k as int]));
        }
        k += 1;
    }
    msg.push(count_byte);
    proof {
        assert(msg@ =~= spec_encode_stats(active as int, name@, count as int));
    }
    msg
}

/// Build the message one broadcast pass pushes to every subscriber: the
/// gate's current load, and the first entry holding the tracker's greatest
/// count — or the sentinel name with count 0 while the tracker is empty.
pub fn build_stats_message(gate: &AdmissionGate, tracker: &FileUsageTracker) -> (msg: Vec<u8>)
    requires
        gate.well_formed(),
        tracker.well_formed(),
    ensures
        tracker@.len() == 0 ==> msg@ == spec_encode_stats(
            gate.spec_active(),
            spec_no_files_name(),
            0,
        ),
        tracker@.len() > 0 ==> exists|i: int|
            #[trigger] is_first_max(tracker@, i) && msg@ == spec_encode_stats(
                gate.spec_active(),
                tracker@[i].0,
                tracker@[i].1 as int,
            ),
{
    let active = gate.active();
    match tracker.most_downloaded() {
        None => {
            let sentinel = no_files_name();
            encode_stats_message(active, sentinel.as_slice(), 0)
        },
        Some((name, count)) => encode_stats_message(active, name.as_slice(), count),
    }
}

/// The active-connections byte of every encoded message stays between 0 and
/// the configured maximum concurrency: a subscriber never reads a load
/// above the admission capacity, and never a negative one.
pub proof fn lemma_reported_active_bounded(gate: AdmissionGate, name: Seq<u8>, count: int)
    requires
        gate.well_formed(),
    ensures
        spec_encode_stats(gate.spec_active(), name, count)[0] == spec_byte_of(gate.spec_active()),
        0 <= spec_encode_stats(gate.spec_active(), name, count)[0] <= gate.max_connections,
{
}

/// Decoding an encoded message gives back the fields as sent: the two
/// numeric fields capped at 255 and the name truncated to its wire length.
pub proof fn lemma_stats_round_trip(active: int, name: Seq<u8>, count: int)
    ensures
        spec_decode_stats(spec_encode_stats(active, name, count)) == Some(
            (spec_byte_of(active), name.take(spec_name_len(name)), spec_byte_of(count)),
        ),
{
    let enc = spec_encode_stats(active, name, count);
    let nlen = spec_name_len(name);
    assert(enc.len() == 3 + nlen);
    assert(enc[1] == nlen as u8);
    assert(enc.subrange(2, 2 + nlen) =~= name.take(nlen));
    assert(enc[2 + nlen] == spec_byte_of(count));
}

/// After `k` downloads of a fresh `name` are recorded (`k` at least 1) and
/// every entry of another name counts strictly fewer, the entry the
/// broadcast settles on is `name` itself, and the message it encodes
/// carries `name` and the count byte `k` capped at 255.
///
/// A name longer than 255 bytes would reach the subscriber truncated, so
/// the round trip back to the exact name is stated for names that fit the
/// length byte.
pub proof fn lemma_stats_after_downloads(
    s0: Seq<(Seq<u8>, u64)>,
    name: Seq<u8>,
    k: nat,
    active: int,
    i: int,
)
    requires
        unique_names(s0),
        positive_counts(s0),
        spec_count_of(s0, name) == 0,
        1 <= k <= u64::MAX,
        name.len() <= 255,
        is_first_max(spec_record_n(s0, name, k), i),
        forall|j: int|
            0 <= j < spec_record_n(s0, name, k).len() && #[trigger] spec_record_n(s0, name, k)[j].0
                != name ==> spec_record_n(s0, name, k)[j].1 < k,
    ensures
        spec_record_n(s0, name, k)[i].0 == name,
        spec_record_n(s0, name, k)[i].1 == k,
        spec_decode_stats(
            spec_encode_stats(
                active,
                spec_record_n(s0, name, k)[i].0,
                spec_record_n(s0, name, k)[i].1 as int,
            ),
        ) == Some((spec_byte_of(active), name, spec_byte_of(k as int))),
{
    let s = spec_record_n(s0, name, k);
    lemma_repeated_records_count(s0, name, k);
    lemma_record_n_preserves_wf(s0, name, k);
    assert(spec_count_of(s, name) == k);
    assert(spec_contains_name(s, name)) by {
        if !spec_contains_name(s, name) {
            lemma_count_of_absent(s, name);
        }
    }
    let idx = choose|idx: int| 0 <= idx < s.len() && s[idx].0 == name;
    lemma_count_is_entry(s, name, idx);
    assert(s[idx].1 == k);
    assert forall|j: int| 0 <= j < s.len() && j != idx implies s[j].1 < s[idx].1 by {
        assert(s[j].0 != name);
    }
    lemma_strict_leader_is_first_max(s, idx);
    lemma_first_max_unique(s, i, idx);
    lemma_stats_round_trip(active, name, k as int);
    assert(name.take(spec_name_len(name)) =~= name);
}

} // verus!
