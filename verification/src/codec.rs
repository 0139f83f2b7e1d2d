//! The replay file: eight bytes that tell what it is, then the log, compressed.

use vstd::prelude::*;
use crate::replay::ReplayLog;
use crate::text;
use crate::text::{decimal_text, join_texts};

verus! {

/// What a replay file starts with: `SHREPL01`.
pub const MAGIC: [u8; 8] = [0x53, 0x48, 0x52, 0x45, 0x50, 0x4c, 0x30, 0x31];

/// How hard the log is compressed.
pub const ZSTD_LEVEL: i32 = 3;

/// The bytes to which `zstd` compresses `data` at `level`.
pub uninterp spec fn zstd_encoded(data: Seq<u8>, level: i32) -> Seq<u8>;

/// What `zstd` decompresses `bytes` to, where they are well-formed frames from end to end.
pub uninterp spec fn zstd_decoded(bytes: Seq<u8>) -> Option<Seq<u8>>;

/// `zstd::stream::encode_all` compresses `data`. Its result is a function of the data and the
/// level, and decompresses to the data again. It succeeds: the data is read from memory and the
/// result is put there (memory running out aside).
#[verifier::external_body]
fn zstd_encode(data: &[u8], level: i32) -> (r: Result<Vec<u8>, String>)
    requires
        1 <= level <= 19,
    ensures
        r is Ok,
        r matches Ok(bytes) ==> bytes@ == zstd_encoded(data@, level) && zstd_decoded(bytes@)
            == Some(data@),
{
    zstd::stream::encode_all(data, level).map_err(|error| error.to_string())
}

/// `zstd::stream::copy_decode` decompresses `bytes`. Beside the bytes that came out stands the
/// error that ended the work; there is none exactly where the bytes are well-formed, and then the
/// whole data came out (memory running out aside). Frames tell their own ends and come out one by
/// one: where the first bytes are well-formed frames by themselves, what is in those comes out first,
/// whatever follows them. How much of a frame comes out before a fault inside it is not claimed: what
/// was decompressed in the call that meets the fault is dropped, and how much that is hangs on the
/// room that the growing output happens to have.
#[verifier::external_body]
fn zstd_decode(bytes: &[u8]) -> (r: (Vec<u8>, Option<String>))
    ensures
        r.1 is None <==> zstd_decoded(bytes@) is Some,
        zstd_decoded(bytes@) matches Some(data) ==> r.0@ == data,
        forall|k: int|
            0 <= k <= bytes@.len() ==> (zstd_decoded(#[trigger] bytes@.take(k)) matches Some(data)
                ==> data.is_prefix_of(r.0@)),
{
    let mut data = Vec::new();
    let error = zstd::stream::copy_decode(bytes, &mut data).err();
    (data, error.map(|error| error.to_string()))
}

/// Why a replay log could not be written or read.
#[derive(Debug)]
pub enum ReplayError {
    /// The file could not be read or written.
    Io(String),
    /// The log could not be put into bytes, or not be read out of them.
    Encode(String),
    /// The file starts with something else than a replay log does.
    BadMagic([u8; 8]),
}

/// Each byte in decimal.
pub open spec fn byte_texts(bytes: Seq<u8>) -> Seq<Seq<char>> {
    Seq::new(bytes.len(), |i: int| text::decimal(bytes[i] as nat))
}

impl ReplayError {
    pub open spec fn message_spec(self) -> Seq<char> {
        match self {
            ReplayError::Io(error) => "I/O error: "@ + error@,
            ReplayError::Encode(error) => "replay codec error: "@ + error@,
            ReplayError::BadMagic(found) => "not a simhark replay log: ["@ + text::joined(
                byte_texts(found@),
                ", "@,
            ) + "]"@,
        }
    }

    /// The error in words.
    pub fn message(&self) -> (r: String)
        ensures
            r@ == self.message_spec(),
    {
        match self {
            ReplayError::Io(error) => text::concat_text("I/O error: ", error.as_str()),
            ReplayError::Encode(error) => text::concat_text("replay codec error: ", error.as_str()),
            ReplayError::BadMagic(found) => {
                let mut parts: Vec<String> = Vec::new();
                let mut i: usize = 0;
                while i < 8
                    invariant
                        i <= 8,
                        text::texts(parts@) == byte_texts(found@).take(i as int),
                    decreases 8 - i,
                {
                    let ghost before = parts@;
                    let byte = decimal_text(found[i] as u64);
                    assert(byte@ == byte_texts(found@)[i as int]);
                    parts.push(byte);
                    i += 1;
                    assert(text::texts(parts@) =~= text::texts(before).push(byte@));
                    assert(text::texts(parts@) =~= byte_texts(found@).take(i as int));
                }
                assert(byte_texts(found@).take(8) =~= byte_texts(found@));
                let list = join_texts(parts.as_slice(), ", ");
                let head = text::concat_text("not a simhark replay log: [", list.as_str());
                text::concat_text(head.as_str(), "]")
            },
        }
    }
}

/// The decompressed log of a replay file.
pub struct Payload {
    pub data: Vec<u8>,
    /// What ended the decompressing before the end of the file.
    pub fault: Option<String>,
}

/// The file of a log that is `payload` in bytes.
pub open spec fn file_of(payload: Seq<u8>) -> Seq<u8> {
    MAGIC@ + zstd_encoded(payload, ZSTD_LEVEL)
}

/// What is in a file that starts as a replay log does.
pub open spec fn payload_in(file: Seq<u8>) -> Option<Seq<u8>> {
    zstd_decoded(file.skip(8))
}

/// What writing a log that is `payload` in bytes gives: its file, in which the payload is.
pub open spec fn is_written(payload: Seq<u8>, r: Result<Vec<u8>, ReplayError>) -> bool {
    r matches Ok(file) && file@ == file_of(payload) && payload_in(file@) == Some(payload)
}

/// What reading a file gives: what is in it, if it is long enough and starts as a replay log does.
/// Where a file is followed by other bytes, what is in the file comes first.
pub open spec fn is_read(file: Seq<u8>, r: Result<Payload, ReplayError>) -> bool {
    match r {
        Ok(payload) => {
            &&& file.len() >= 8
            &&& file.take(8) == MAGIC@
            &&& payload.fault is None <==> payload_in(file) is Some
            &&& payload_in(file) matches Some(data) ==> payload.data@ == data
            &&& forall|k: int|
                8 <= k <= file.len() ==> (payload_in(#[trigger] file.take(k)) matches Some(data)
                    ==> data.is_prefix_of(payload.data@))
        },
        Err(ReplayError::Io(error)) => {
            &&& file.len() < 8
            &&& error@ == "failed to fill whole buffer"@
        },
        Err(ReplayError::BadMagic(found)) => {
            &&& file.len() >= 8
            &&& file.take(8) != MAGIC@
            &&& found@ == file.take(8)
        },
        Err(ReplayError::Encode(_)) => false,
    }
}

impl ReplayLog {
    /// The replay file of a log that was put into the bytes `payload`.
    pub fn write_zstd(payload: &[u8]) -> (r: Result<Vec<u8>, ReplayError>)
        ensures
            is_written(payload@, r),
    {
        match zstd_encode(payload, ZSTD_LEVEL) {
            Ok(bytes) => {
                let mut file: Vec<u8> = Vec::new();
                let mut i: usize = 0;
                while i < 8
                    invariant
                        i <= 8,
                        file@ == MAGIC@.take(i as int),
                    decreases 8 - i,
                {
                    file.push(MAGIC[i]);
                    i += 1;
                }
                assert(file@ =~= MAGIC@);
                let mut bytes = bytes;
                let ghost body = bytes@;
                file.append(&mut bytes);
                assert(file@.skip(8) =~= body);
                Ok(file)
            },
            Err(error) => Err(ReplayError::Io(error)),
        }
    }

    /// The bytes of the log in a replay file. A file that is too short or starts otherwise is
    /// refused.
    pub fn read_zstd(file: &[u8]) -> (r: Result<Payload, ReplayError>)
        ensures
            is_read(file@, r),
    {
        if file.len() < 8 {
            return Err(ReplayError::Io("failed to fill whole buffer".to_owned()));
        }
        let found: [u8; 8] = [
            file[0],
            file[1],
            file[2],
            file[3],
            file[4],
            file[5],
            file[6],
            file[7],
        ];
        assert(found@ =~= file@.take(8));
        let mut i: usize = 0;
        while i < 8
            invariant
                i <= 8,
                found@.take(i as int) == MAGIC@.take(i as int),
                file@.len() >= 8,
                found@ == file@.take(8),
            decreases 8 - i,
        {
            if found[i] != MAGIC[i] {
                assert(found@[i as int] != MAGIC@[i as int]);
                return Err(ReplayError::BadMagic(found));
            }
            i += 1;
            assert(found@.take(i as int) =~= MAGIC@.take(i as int));
        }
        assert(found@.take(8) =~= found@);
        assert(MAGIC@.take(8) =~= MAGIC@);
        let mut body: Vec<u8> = Vec::new();
        let mut k: usize = 8;
        while k < file.len()
            invariant
                8 <= k <= file@.len(),
                body@ == file@.subrange(8, k as int),
            decreases file@.len() - k,
        {
            body.push(file[k]);
            k += 1;
        }
        assert(body@ =~= file@.skip(8));
        let (data, fault) = zstd_decode(body.as_slice());
        assert forall|k: int| 8 <= k <= file@.len() implies (payload_in(#[trigger] file@.take(k))
            matches Some(part) ==> part.is_prefix_of(data@)) by {
            assert(file@.take(k).skip(8) =~= body@.take(k - 8));
        }
        Ok(Payload { data, fault })
    }
}

/// Reading gives back what writing wrote: whatever file was written of a payload, reading that file
/// succeeds and gives the payload, all of it.
pub proof fn law_read_gives_back_what_was_written(
    payload: Seq<u8>,
    file: Vec<u8>,
    r: Result<Payload, ReplayError>,
)
    requires
        is_written(payload, Ok(file)),
        is_read(file@, r),
    ensures
        r matches Ok(p) && p.fault is None && p.data@ == payload,
{
    assert(file@.take(8) =~= MAGIC@);
}

/// A log is read though other bytes follow it: whatever stands behind a file that was written of a
/// payload, reading both succeeds, and what it gives begins with the payload.
pub proof fn law_a_log_followed_by_other_bytes_is_read(
    payload: Seq<u8>,
    file: Vec<u8>,
    rest: Seq<u8>,
    r: Result<Payload, ReplayError>,
)
    requires
        is_written(payload, Ok(file)),
        is_read(file@ + rest, r),
    ensures
        r matches Ok(p) && payload.is_prefix_of(p.data@),
{
    let longer = file@ + rest;
    assert(longer.take(8) =~= MAGIC@);
    assert(longer.take(file@.len() as int) =~= file@);
}

/// Every replay file starts with the eight letters `SHREPL01`, and what starts otherwise, or is
/// shorter, is not read as one.
pub proof fn law_replay_files_start_alike(
    payload: Seq<u8>,
    file: Vec<u8>,
    other: Seq<u8>,
    r: Result<Payload, ReplayError>,
)
    ensures
        is_written(payload, Ok(file)) ==> file@.len() >= 8 && file@[0] == 0x53 && file@[1] == 0x48
            && file@[2] == 0x52 && file@[3] == 0x45 && file@[4] == 0x50 && file@[5] == 0x4c
            && file@[6] == 0x30 && file@[7] == 0x31,
        is_read(other, r) && other.len() < 8 ==> (r matches Err(e) && e is Io),
        is_read(other, r) && other.len() >= 8 && other.take(8) != seq![
            0x53u8,
            0x48u8,
            0x52u8,
            0x45u8,
            0x50u8,
            0x4cu8,
            0x30u8,
            0x31u8,
        ] ==> (r matches Err(ReplayError::BadMagic(found)) && found@ == other.take(8)),
        is_read(other, r) && other.len() >= 8 && other.take(8) == seq![
            0x53u8,
            0x48u8,
            0x52u8,
            0x45u8,
            0x50u8,
            0x4cu8,
            0x30u8,
            0x31u8,
        ] ==> r is Ok,
{
    assert(MAGIC@ =~= seq![0x53u8, 0x48u8, 0x52u8, 0x45u8, 0x50u8, 0x4cu8, 0x30u8, 0x31u8]);
}

/// A fault is told with its cause; a file that is none is told with the bytes that it starts with.
pub proof fn law_faults_are_told(error: String, found: [u8; 8])
    ensures
        ReplayError::Io(error).message_spec() == "I/O error: "@ + error@,
        ReplayError::Encode(error).message_spec() == "replay codec error: "@ + error@,
        ReplayError::BadMagic(found).message_spec() == "not a simhark replay log: ["@
            + text::joined(
            Seq::new(8, |i: int| text::decimal(found@[i] as nat)),
            ", "@,
        ) + "]"@,
{
    assert(byte_texts(found@) =~= Seq::new(8, |i: int| text::decimal(found@[i] as nat)));
}

/// What stands behind the eight letters is the payload compressed at level 3.
pub proof fn law_replay_files_are_compressed(payload: Seq<u8>, file: Vec<u8>)
    requires
        is_written(payload, Ok(file)),
    ensures
        file@.skip(8) == zstd_encoded(payload, 3),
{
    assert(file@.skip(8) =~= zstd_encoded(payload, 3));
}

} // verus!
