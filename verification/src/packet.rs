//! The magic packet: six bytes `0xFF`, the hardware address sixteen times,
//! and the SecureON token at the end where one is given.

use vstd::prelude::*;
use crate::address::{MacAddress, SecureOn};

verus! {

/// The byte at position `i` of the magic packet for the address `mac`,
/// for `0 <= i < 102`.
pub open spec fn packet_byte(mac: Seq<u8>, i: int) -> u8 {
    if i < 6 {
        0xffu8
    } else {
        mac[i % 6]
    }
}

/// The 102 bytes of the magic packet for the address `mac`.
pub open spec fn packet_bytes(mac: Seq<u8>) -> Seq<u8> {
    Seq::new(102, |i: int| packet_byte(mac, i))
}

/// The bytes of the magic packet for `mac`, with the token at its end where
/// one is given.
pub open spec fn packet_bytes_with(mac: Seq<u8>, secure_on: Option<Seq<u8>>) -> Seq<u8> {
    match secure_on {
        Some(token) => packet_bytes(mac) + token,
        None => packet_bytes(mac),
    }
}

/// The view of an optional SecureON token.
pub open spec fn token_view(secure_on: Option<SecureOn>) -> Option<Seq<u8>> {
    match secure_on {
        Some(token) => Some(token@),
        None => None,
    }
}

/// Fill a buffer with a magic packet.
///
/// Fill `buffer` with a magic packet to wake up `mac_address`.
pub fn fill_magic_packet(buffer: &mut [u8; 102], mac_address: MacAddress)
    ensures
        final(buffer)@ == packet_bytes(mac_address@),
{
    let mac = mac_address.octets();
    let mut i: usize = 0;
    while i < 102
        invariant
            i <= 102,
            mac@ == mac_address@,
            forall|j: int| 0 <= j < i ==> #[trigger] buffer@[j] == packet_byte(mac_address@, j),
        decreases 102 - i,
    {
        if i < 6 {
            buffer[i] = 0xff;
        } else {
            buffer[i] = mac[i % 6];
        }
        i += 1;
    }
    assert(buffer@ =~= packet_bytes(mac_address@));
}

/// Fill a buffer with a magic packet with a SecureON token.
///
/// Fill `buffer` with a magic packet to wake up `mac_address`, using the
/// `secure_on` token.
pub fn fill_magic_packet_secure_on(
    buffer: &mut [u8; 108],
    mac_address: MacAddress,
    secure_on: SecureOn,
)
    ensures
        final(buffer)@ == packet_bytes(mac_address@) + secure_on@,
{
    let mac = mac_address.octets();
    let token = secure_on.octets();
    proof {
        secure_on.lemma_len();
    }
    let mut i: usize = 0;
    while i < 108
        invariant
            i <= 108,
            mac@ == mac_address@,
            token@ == secure_on@,
            forall|j: int|
                0 <= j < i ==> #[trigger] buffer@[j] == (packet_bytes(mac_address@) + secure_on@)[j],
        decreases 108 - i,
    {
        if i < 6 {
            buffer[i] = 0xff;
        } else if i < 102 {
            buffer[i] = mac[i % 6];
        } else {
            buffer[i] = token[i - 102];
        }
        i += 1;
    }
    assert(buffer@ =~= packet_bytes(mac_address@) + secure_on@);
}

/// Write a magic packet to a byte sink.
///
/// Append to `sink` the magic packet to wake up `mac_address`. If `secure_on`
/// is not `None`, the token stands at the end of the packet.
pub fn write_magic_packet(
    sink: &mut Vec<u8>,
    mac_address: MacAddress,
    secure_on: Option<SecureOn>,
)
    ensures
        final(sink)@ == old(sink)@ + packet_bytes_with(mac_address@, token_view(secure_on)),
{
    let mac = mac_address.octets();
    let ghost before = sink@;
    let mut i: usize = 0;
    while i < 102
        invariant
            i <= 102,
            mac@ == mac_address@,
            sink@.len() == before.len() + i,
            sink@ =~= before + packet_bytes(mac_address@).subrange(0, i as int),
        decreases 102 - i,
    {
        if i < 6 {
            sink.push(0xff);
        } else {
            sink.push(mac[i % 6]);
        }
        i += 1;
    }
    assert(packet_bytes(mac_address@).subrange(0, 102) =~= packet_bytes(mac_address@));
    match secure_on {
        Some(token) => {
            let bytes = token.octets();
            proof {
                token.lemma_len();
            }
            let mut k: usize = 0;
            while k < 6
                invariant
                    k <= 6,
                    bytes@ == token@,
                    token@.len() == 6,
                    sink@ =~= before + packet_bytes(mac_address@) + token@.subrange(0, k as int),
                decreases 6 - k,
            {
                sink.push(bytes[k]);
                k += 1;
            }
            assert(token@.subrange(0, 6) =~= token@);
            assert(sink@ =~= before + (packet_bytes(mac_address@) + token@));
        },
        None => {},
    }
}

/// The magic packet to wake up `mac_address`, as a vector of its own: 102
/// bytes, or 108 with a SecureON token.
pub fn magic_packet(mac_address: MacAddress, secure_on: Option<SecureOn>) -> (packet: Vec<u8>)
    ensures
        packet@ == packet_bytes_with(mac_address@, token_view(secure_on)),
{
    let mut packet: Vec<u8> = Vec::new();
    write_magic_packet(&mut packet, mac_address, secure_on);
    assert(packet@ =~= packet_bytes_with(mac_address@, token_view(secure_on)));
    packet
}

/// A magic packet has 102 bytes, or 108 with a SecureON token, and nothing
/// but the address and the token decides its bytes.
pub proof fn lemma_packet_len(mac_address: MacAddress, secure_on: Option<SecureOn>)
    ensures
        packet_bytes_with(mac_address@, token_view(secure_on)).len() == if secure_on is Some {
            108int
        } else {
            102int
        },
{
    if let Some(token) = secure_on {
        token.lemma_len();
    }
}

/// The layout of a magic packet: six bytes `0xFF`, then the six bytes of
/// the address sixteen times over; byte `k` of repetition `r` stands at
/// offset `6 + 6 * r + k`. With a token, its six bytes follow at offset 102.
pub proof fn lemma_packet_layout(mac_address: MacAddress, secure_on: SecureOn)
    ensures
        packet_bytes(mac_address@).len() == 102,
        forall|i: int| 0 <= i < 6 ==> #[trigger] packet_bytes(mac_address@)[i] == 0xff,
        forall|r: int, k: int|
            0 <= r < 16 && 0 <= k < 6 ==> #[trigger] packet_bytes(mac_address@)[6 + 6 * r + k]
                == mac_address@[k],
        packet_bytes_with(mac_address@, Some(secure_on@)).subrange(0, 102) == packet_bytes(
            mac_address@,
        ),
        packet_bytes_with(mac_address@, Some(secure_on@)).subrange(102, 108) == secure_on@,
{
    secure_on.lemma_len();
    mac_address.lemma_len();
    assert forall|r: int, k: int| 0 <= r < 16 && 0 <= k < 6 implies #[trigger] packet_bytes(
        mac_address@,
    )[6 + 6 * r + k] == mac_address@[k] by {
        assert((6 + 6 * r + k) % 6 == k) by (nonlinear_arith)
            requires
                0 <= r < 16,
                0 <= k < 6,
        ;
    }
    assert(packet_bytes_with(mac_address@, Some(secure_on@)).subrange(0, 102) =~= packet_bytes(
        mac_address@,
    ));
    assert(packet_bytes_with(mac_address@, Some(secure_on@)).subrange(102, 108) =~= secure_on@);
}

} // verus!
