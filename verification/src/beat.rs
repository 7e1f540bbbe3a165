//! The beat: a timestamp under a keyed MAC, and its 72-byte encoding.

use crate::clock::unix_seconds;
use crate::wire::{le_bytes, le_value, lemma_bytes_of_value, lemma_value_of_bytes, u64_to_u8arr, u8arr_to_u64};
use vstd::prelude::*;
use vstd::std_specs::cmp::PartialEqSpec;
use vstd::string::*;

verus! {

/// The BLAKE2b digest of 64 bytes over `data` under `key`, as the hashing
/// crate computes it. The digest is a function of the two byte strings alone.
pub uninterp spec fn blake2b_512(key: Seq<u8>, data: Seq<u8>) -> Seq<u8>;

/// `blake2_rfc::blake2b::blake2b` with a digest length of 64: keys the hash
/// with `key`, feeds it `data` and returns the 64 digest bytes. The crate
/// refuses keys of more than 64 bytes, so those are left out. The contract only
/// names the digest; nothing here says which bytes it holds.
#[verifier::external_body]
fn keyed_digest(key: &[u8], data: &[u8]) -> (digest: [u8; 64])
    requires
        key@.len() <= 64,
    ensures
        digest@ == blake2b_512(key@, data@),
{
    let result = blake2_rfc::blake2b::blake2b(64, key, data);
    let mut digest = [0u8; 64];
    digest.copy_from_slice(result.as_bytes());
    digest
}

/// `constant_time_eq::constant_time_eq`: whether two byte strings are equal,
/// decided without stopping at the first difference. Strings of different
/// lengths are unequal.
#[verifier::external_body]
fn same_bytes(a: &[u8], b: &[u8]) -> (equal: bool)
    ensures
        equal == (a@ == b@),
{
    constant_time_eq::constant_time_eq(a, b)
}

/// The four bytes that open every authenticated message: ASCII `beat`.
pub open spec fn label() -> Seq<u8> {
    seq![0x62u8, 0x65u8, 0x61u8, 0x74u8]
}

/// The keying material actually used: an empty key and a key of 64 bytes or
/// more both count as no key at all. A peer that is given so long a key is
/// therefore not authenticated: its beats verify under every other key that
/// is empty or as long.
pub open spec fn effective_key(key: Seq<u8>) -> Seq<u8> {
    if key.len() == 0 || key.len() >= 64 {
        Seq::empty()
    } else {
        key
    }
}

/// The MAC over the label followed by `time`, under `key` taken as it is.
pub open spec fn checksum(key: Seq<u8>, time: Seq<u8>) -> Seq<u8> {
    blake2b_512(key, label() + time)
}

/// The MAC that authenticates `timestamp` under `key`.
pub open spec fn beat_mac(key: Seq<u8>, timestamp: u64) -> Seq<u8> {
    checksum(effective_key(key), le_bytes(timestamp))
}

/// What a beat is: a timestamp and the MAC that came with it.
pub struct BeatView {
    pub timestamp: u64,
    pub mac: Seq<u8>,
}

/// The beat that `key` authenticates at `timestamp`.
pub open spec fn built(key: Seq<u8>, timestamp: u64) -> BeatView {
    BeatView { timestamp, mac: beat_mac(key, timestamp) }
}

/// The encoding of a beat: little-endian timestamp, then the MAC.
pub open spec fn encoded(beat: BeatView) -> Seq<u8> {
    le_bytes(beat.timestamp) + beat.mac
}

/// The beat that 72 bytes encode.
pub open spec fn decoded(data: Seq<u8>) -> BeatView
    recommends
        data.len() == 72,
{
    BeatView { timestamp: le_value(data.subrange(0, 8)) as u64, mac: data.subrange(8, 72) }
}

/// Whether `beat` carries the MAC that `key` gives its timestamp.
pub open spec fn verifies(beat: BeatView, key: Seq<u8>) -> bool {
    beat.mac == beat_mac(key, beat.timestamp)
}

/// A beat: the sender's clock in seconds since the epoch, and the MAC over
/// it. On the wire it is exactly 72 bytes.
pub struct Beat {
    pub timestamp: u64,
    pub hash: [u8; 64],
}

/// Why a beat was not taken or did not leave.
#[derive(Debug, Clone, Copy, PartialEq, Eq, Structural)]
pub enum BeatError {
    /// The datagram is not 72 bytes long.
    WrongSize,
    /// The socket could not be read.
    ListenError,
    /// The peer could not be resolved or the socket could not be written.
    SendError,
    /// The MAC is not the one that the key gives the timestamp.
    WrongChecksum,
}

impl View for Beat {
    type V = BeatView;

    open spec fn view(&self) -> BeatView {
        BeatView { timestamp: self.timestamp, mac: self.hash@ }
    }
}

impl PartialEq for Beat {
    /// Equal timestamps and equal MACs, the MACs compared in constant time.
    fn eq(&self, other: &Beat) -> (equal: bool) {
        let same_mac = same_bytes(self.hash.as_slice(), other.hash.as_slice());
        self.timestamp == other.timestamp && same_mac
    }
}

impl vstd::std_specs::cmp::PartialEqSpecImpl for Beat {
    open spec fn obeys_eq_spec() -> bool {
        true
    }

    open spec fn eq_spec(&self, other: &Beat) -> bool {
        self.timestamp == other.timestamp && self.hash@ == other.hash@
    }
}

impl Clone for Beat {
    fn clone(&self) -> (copy: Beat)
        ensures
            copy == *self,
    {
        Beat { timestamp: self.timestamp, hash: self.hash }
    }
}

/// The MAC over the label followed by `time`, under `key` taken as it is.
fn mac_over(key: &[u8], time: &[u8]) -> (mac: [u8; 64])
    requires
        key@.len() <= 64,
    ensures
        mac@ == checksum(key@, time@),
{
    let mut data: Vec<u8> = Vec::new();
    data.push(0x62u8);
    data.push(0x65u8);
    data.push(0x61u8);
    data.push(0x74u8);
    assert(data@ =~= label());
    let mut i: usize = 0;
    while i < time.len()
        invariant
            i <= time@.len(),
            data@ == label() + time@.subrange(0, i as int),
        decreases time@.len() - i,
    {
        data.push(time[i]);
        assert(data@ =~= label() + time@.subrange(0, i + 1));
        i = i + 1;
    }
    assert(time@.subrange(0, i as int) =~= time@);
    keyed_digest(key, data.as_slice())
}

impl Beat {
    /// The clock's reading, in seconds since the epoch.
    pub fn create_timestamp() -> u64 {
        unix_seconds()
    }

    /// The MAC over the label and `time` under `key`, with no folding of the
    /// key: a key of more than 64 bytes is outside what the hash accepts.
    pub fn create_checksum(key: &str, time: &[u8]) -> (mac: [u8; 64])
        requires
            key.spec_bytes().len() <= 64,
        ensures
            mac@ == checksum(key.spec_bytes(), time@),
    {
        mac_over(key.as_bytes(), time)
    }

    /// The beat that `server_key` authenticates at `time`.
    pub fn build(server_key: &str, time: u64) -> (beat: Beat)
        ensures
            beat@ == built(server_key.spec_bytes(), time),
    {
        let key = server_key.as_bytes();
        let stamp = u64_to_u8arr(time);
        let hash = if key.len() == 0 || key.len() >= 64 {
            let none: Vec<u8> = Vec::new();
            assert(none@ =~= effective_key(key@));
            mac_over(none.as_slice(), stamp.as_slice())
        } else {
            mac_over(key, stamp.as_slice())
        };
        Beat { timestamp: time, hash }
    }

    /// A beat for the present moment: whatever the clock reads, the beat is
    /// the one that `server_key` authenticates at that reading.
    pub fn new(server_key: &str) -> (beat: Beat)
        ensures
            beat@ == built(server_key.spec_bytes(), beat.timestamp),
    {
        let time = Beat::create_timestamp();
        Beat::build(server_key, time)
    }

    /// Reads a beat from its 72-byte encoding.
    pub fn from_bytes(data: [u8; 72]) -> (beat: Beat)
        ensures
            beat@ == decoded(data@),
    {
        let mut ts = [0u8; 8];
        let mut cs = [0u8; 64];
        let mut i: usize = 0;
        while i < 8
            invariant
                i <= 8,
                forall|j: int| 0 <= j < i ==> ts@[j] == data@[j],
            decreases 8 - i,
        {
            ts[i] = data[i];
            i = i + 1;
        }
        let mut k: usize = 0;
        while k < 64
            invariant
                k <= 64,
                forall|j: int| 0 <= j < k ==> cs@[j] == data@[j + 8],
            decreases 64 - k,
        {
            cs[k] = data[k + 8];
            k = k + 1;
        }
        assert(ts@ =~= data@.subrange(0, 8));
        assert(cs@ =~= data@.subrange(8, 72));
        proof {
            lemma_bytes_of_value(ts@);
        }
        Beat { timestamp: u8arr_to_u64(ts), hash: cs }
    }

    /// Reads a beat from a received datagram: exactly 72 bytes decode, any
    /// other length is refused.
    pub fn decode(data: &[u8]) -> (outcome: Result<Beat, BeatError>)
        ensures
            data@.len() == 72 ==> outcome is Ok && outcome->Ok_0@ == decoded(data@),
            data@.len() != 72 ==> outcome == Err::<Beat, BeatError>(BeatError::WrongSize),
    {
        if data.len() != 72 {
            return Err(BeatError::WrongSize);
        }
        let mut buf = [0u8; 72];
        let mut i: usize = 0;
        while i < 72
            invariant
                i <= 72,
                data@.len() == 72,
                forall|j: int| 0 <= j < i ==> buf@[j] == data@[j],
            decreases 72 - i,
        {
            buf[i] = data[i];
            i = i + 1;
        }
        assert(buf@ =~= data@);
        Ok(Beat::from_bytes(buf))
    }

    /// The 72-byte encoding of the beat.
    pub fn into_bytes(self) -> (ret: [u8; 72])
        ensures
            ret@ == encoded(self@),
    {
        let mut ret = [0u8; 72];
        let ts = u64_to_u8arr(self.timestamp);
        let mut i: usize = 0;
        while i < 8
            invariant
                i <= 8,
                ts@ == le_bytes(self.timestamp),
                forall|j: int| 0 <= j < i ==> ret@[j] == ts@[j],
            decreases 8 - i,
        {
            ret[i] = ts[i];
            i = i + 1;
        }
        let mut k: usize = 0;
        while k < 64
            invariant
                k <= 64,
                ts@ == le_bytes(self.timestamp),
                forall|j: int| 0 <= j < 8 ==> ret@[j] == ts@[j],
                forall|j: int| 0 <= j < k ==> ret@[j + 8] == self.hash@[j],
            decreases 64 - k,
        {
            ret[k + 8] = self.hash[k];
            k = k + 1;
        }
        assert(ret@ =~= encoded(self@));
        ret
    }

    /// Checks the beat against `key`: the MAC is computed afresh from the key
    /// and the beat's own timestamp and compared in constant time. The
    /// timestamp's age plays no part.
    pub fn verify_beat(&self, key: &str) -> (outcome: Result<bool, BeatError>)
        ensures
            verifies(self@, key.spec_bytes()) ==> outcome == Ok::<bool, BeatError>(true),
            !verifies(self@, key.spec_bytes()) ==> outcome == Err::<bool, BeatError>(
                BeatError::WrongChecksum,
            ),
    {
        let expected = Beat::build(key, self.timestamp);
        if same_bytes(expected.hash.as_slice(), self.hash.as_slice()) {
            Ok(true)
        } else {
            Err(BeatError::WrongChecksum)
        }
    }
}

/// Decoding the encoding of a beat gives back the beat: the same timestamp and
/// the same MAC, so that whatever is read back from the encoding compares
/// equal to the beat that was encoded. This holds of every beat, and so of
/// every beat that was built under a key.
pub proof fn lemma_decode_encode(beat: Beat)
    ensures
        encoded(beat@).len() == 72,
        decoded(encoded(beat@)) == beat@,
        forall|back: Beat| back@ == decoded(encoded(beat@)) ==> #[trigger] back.eq_spec(&beat),
{
    let data = encoded(beat@);
    lemma_value_of_bytes(beat.timestamp);
    assert(data.subrange(0, 8) =~= le_bytes(beat.timestamp));
    assert(data.subrange(8, 72) =~= beat.hash@);
}

/// A beat built under a key verifies under that key, whatever the key and
/// the timestamp.
pub proof fn lemma_built_verifies(key: Seq<u8>, timestamp: u64)
    ensures
        verifies(built(key, timestamp), key),
{
}

/// Two keys that come down to the same keying material verify each other's
/// beats; so do, in particular, any two keys of 64 bytes or more.
pub proof fn lemma_folded_keys_agree(key: Seq<u8>, other: Seq<u8>, timestamp: u64)
    requires
        effective_key(key) == effective_key(other),
    ensures
        verifies(built(key, timestamp), other),
{
}

/// A beat built under one key verifies under another exactly when both keys
/// give the timestamp the same MAC; that two different keys do not is the
/// hash function's promise, not a fact proved here.
pub proof fn lemma_built_under_other_key(key: Seq<u8>, other: Seq<u8>, timestamp: u64)
    ensures
        verifies(built(key, timestamp), other) <==> beat_mac(key, timestamp) == beat_mac(
            other,
            timestamp,
        ),
{
}

} // verus!
