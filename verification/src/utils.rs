//! Shared plumbing: the server clock, random identifier generation, and
//! the binary TCP request codec.
//!
//! The raw-TCP front-end carries numeric identifiers; they are base64
//! encoded into string identifiers before reaching the engine, so both
//! front-ends share one identifier type.

use rand::RngCore;
use vstd::prelude::*;

verus! {

/// Client-side configuration: where the two front-ends of a server are
/// reachable, and the CA certificate to trust for TLS, if any.
#[derive(Debug, Clone)]
pub struct Environment {
    pub http_request_uri: String,
    pub tcp_request_uri: String,
    pub ssl_cert_file: Option<String>,
}

/// What base64 encoding yields on the given bytes; the encoding depends
/// on the bytes alone.
pub uninterp spec fn base64_of(bytes: Seq<u8>) -> Seq<char>;

/// Relies on base64::encode: the standard alphabet with padding, so the
/// output is four characters for every started group of three bytes, and
/// the result depends on the input bytes alone. The encoder panics when
/// that output length overflows `usize`, so such inputs are excluded.
#[verifier::external_body]
fn base64_encode(bytes: &[u8]) -> (r: String)
    requires
        ((bytes@.len() + 2) / 3) * 4 <= usize::MAX,
    ensures
        r@ == base64_of(bytes@),
        r@.len() == ((bytes@.len() + 2) / 3) * 4,
{
    base64::encode(bytes)
}

/// Relies on std::time::SystemTime::now and duration_since(UNIX_EPOCH):
/// the wall clock as epoch milliseconds, truncated to 64 bits. Nothing
/// is assumed about the value.
#[verifier::external_body]
pub fn get_current_time() -> u64 {
    std::time::SystemTime::now()
        .duration_since(std::time::UNIX_EPOCH)
        .expect("Time went backwards")
        .as_millis() as u64
}

/// Relies on rand::thread_rng / RngCore::next_u64; nothing is assumed
/// about the value.
#[verifier::external_body]
pub fn generate_random_u64() -> u64 {
    rand::thread_rng().next_u64()
}

/// Relies on rand::thread_rng / RngCore::next_u64; nothing is assumed
/// about the value.
#[verifier::external_body]
pub fn generate_random_u8() -> u8 {
    rand::thread_rng().next_u64() as u8
}

/// Relies on rand RngCore::fill_bytes: overwrites the buffer in place,
/// keeping its length; nothing is assumed about the contents.
#[verifier::external_body]
fn fill_random(buffer: &mut Vec<u8>)
    ensures
        final(buffer)@.len() == old(buffer)@.len(),
{
    rand::thread_rng().fill_bytes(buffer.as_mut_slice());
}

/// A fresh random identifier: `T` random bytes, base64 encoded.
pub fn generate_random_id<const T: usize>() -> (r: String)
    requires
        ((T + 2) / 3) * 4 <= usize::MAX,
    ensures
        r@.len() == ((T + 2) / 3) * 4,
{
    let mut buffer: Vec<u8> = vec![0u8; T];
    fill_random(&mut buffer);
    base64_encode(buffer.as_slice())
}

/// The big-endian byte encoding of a 64-bit integer.
pub open spec fn spec_u64_be_bytes(x: u64) -> Seq<u8> {
    seq![
        (x >> 56) as u8,
        (x >> 48) as u8,
        (x >> 40) as u8,
        (x >> 32) as u8,
        (x >> 24) as u8,
        (x >> 16) as u8,
        (x >> 8) as u8,
        x as u8,
    ]
}

/// The 64-bit integer read back from eight big-endian bytes.
pub open spec fn spec_u64_from_be(s: Seq<u8>) -> u64
    recommends
        s.len() == 8,
{
    ((s[0] as u64) << 56) | ((s[1] as u64) << 48) | ((s[2] as u64) << 40) | ((s[3] as u64) << 32)
        | ((s[4] as u64) << 24) | ((s[5] as u64) << 16) | ((s[6] as u64) << 8) | (s[7] as u64)
}

/// Reading the big-endian bytes of an integer back gives the integer.
pub proof fn lemma_u64_be_round_trip(x: u64)
    ensures
        spec_u64_from_be(spec_u64_be_bytes(x)) == x,
{
    assert((((((x >> 56) as u8) as u64) << 56) | ((((x >> 48) as u8) as u64) << 48) | ((((x >> 40)
        as u8) as u64) << 40) | ((((x >> 32) as u8) as u64) << 32) | ((((x >> 24) as u8) as u64)
        << 24) | ((((x >> 16) as u8) as u64) << 16) | ((((x >> 8) as u8) as u64) << 8) | ((x as u8)
        as u64)) == x) by (bit_vector);
}

/// Pack a lease request into the fixed 24-byte wire form: application
/// id, instance id and duration, each as eight big-endian bytes.
pub fn pack_tcp_packet(application_id: u64, instance_id: u64, duration: u64) -> (r: [u8; 24])
    ensures
        r@ == spec_u64_be_bytes(application_id) + spec_u64_be_bytes(instance_id)
            + spec_u64_be_bytes(duration),
{
    let packet: [u8; 24] = [
        (application_id >> 56) as u8,
        (application_id >> 48) as u8,
        (application_id >> 40) as u8,
        (application_id >> 32) as u8,
        (application_id >> 24) as u8,
        (application_id >> 16) as u8,
        (application_id >> 8) as u8,
        application_id as u8,
        (instance_id >> 56) as u8,
        (instance_id >> 48) as u8,
        (instance_id >> 40) as u8,
        (instance_id >> 32) as u8,
        (instance_id >> 24) as u8,
        (instance_id >> 16) as u8,
        (instance_id >> 8) as u8,
        instance_id as u8,
        (duration >> 56) as u8,
        (duration >> 48) as u8,
        (duration >> 40) as u8,
        (duration >> 32) as u8,
        (duration >> 24) as u8,
        (duration >> 16) as u8,
        (duration >> 8) as u8,
        duration as u8,
    ];
    proof {
        assert(packet@ =~= spec_u64_be_bytes(application_id) + spec_u64_be_bytes(instance_id)
            + spec_u64_be_bytes(duration));
    }
    packet
}

/// Unpack the fixed 24-byte wire form: the two numeric identifiers reach
/// the engine base64 encoded, the duration as the integer it encodes.
pub fn unpack_tcp_packet(packet: [u8; 24]) -> (r: (String, String, u64))
    ensures
        r.0@ == base64_of(packet@.subrange(0, 8)),
        r.1@ == base64_of(packet@.subrange(8, 16)),
        r.2 == spec_u64_from_be(packet@.subrange(16, 24)),
{
    let mut first: Vec<u8> = Vec::new();
    let mut i: usize = 0;
    while i < 8
        invariant
            i <= 8,
            first@.len() == i,
            forall|j: int| 0 <= j < i ==> first@[j] == packet@[j],
        decreases 8 - i,
    {
        first.push(packet[i]);
        i = i + 1;
    }
    assert(first@ =~= packet@.subrange(0, 8));
    let application_id = base64_encode(first.as_slice());

    let mut second: Vec<u8> = Vec::new();
    let mut k: usize = 8;
    while k < 16
        invariant
            8 <= k <= 16,
            second@.len() == k - 8,
            forall|j: int| 0 <= j < k - 8 ==> second@[j] == packet@[8 + j],
        decreases 16 - k,
    {
        second.push(packet[k]);
        k = k + 1;
    }
    assert(second@ =~= packet@.subrange(8, 16));
    let instance_id = base64_encode(second.as_slice());

    let duration = ((packet[16] as u64) << 56) | ((packet[17] as u64) << 48) | ((packet[18] as u64)
        << 40) | ((packet[19] as u64) << 32) | ((packet[20] as u64) << 24) | ((packet[21] as u64)
        << 16) | ((packet[22] as u64) << 8) | (packet[23] as u64);
    proof {
        let tail = packet@.subrange(16, 24);
        assert(tail[0] == packet@[16] && tail[1] == packet@[17] && tail[2] == packet@[18] && tail[3]
            == packet@[19] && tail[4] == packet@[20] && tail[5] == packet@[21] && tail[6]
            == packet@[22] && tail[7] == packet@[23]);
    }
    (application_id, instance_id, duration)
}

/// Round trip over the wire form: packing a request and unpacking the
/// packet hands the engine exactly the packed duration, and each id as
/// the base64 form of its own big-endian bytes.
pub proof fn lemma_tcp_packet_round_trip(application_id: u64, instance_id: u64, duration: u64)
    ensures
        ({
            let packet = spec_u64_be_bytes(application_id) + spec_u64_be_bytes(instance_id)
                + spec_u64_be_bytes(duration);
            &&& packet.subrange(0, 8) == spec_u64_be_bytes(application_id)
            &&& packet.subrange(8, 16) == spec_u64_be_bytes(instance_id)
            &&& spec_u64_from_be(packet.subrange(16, 24)) == duration
        }),
{
    let packet = spec_u64_be_bytes(application_id) + spec_u64_be_bytes(instance_id)
        + spec_u64_be_bytes(duration);
    assert(packet.subrange(0, 8) =~= spec_u64_be_bytes(application_id));
    assert(packet.subrange(8, 16) =~= spec_u64_be_bytes(instance_id));
    assert(packet.subrange(16, 24) =~= spec_u64_be_bytes(duration));
    lemma_u64_be_round_trip(duration);
}

} // verus!
