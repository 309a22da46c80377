//! IPv4 header rewriting: addresses, identification and header checksum.

use vstd::prelude::*;

verus! {

/// Length in bytes of an IPv4 header without options.
pub const IP4_HEADER_LEN: usize = 20;

/// The big-endian 16-bit word that starts at byte `2 * k`.
pub open spec fn word_at(s: Seq<u8>, k: int) -> nat {
    (s[2 * k] as nat) * 256 + (s[2 * k + 1] as nat)
}

/// Sum of the first `n` big-endian 16-bit words of `s`.
pub open spec fn word_sum(s: Seq<u8>, n: nat) -> nat
    decreases n,
{
    if n == 0 {
        0
    } else {
        word_sum(s, (n - 1) as nat) + word_at(s, n - 1)
    }
}

/// End-around carry: whatever lies above bit 16 is added back into the low
/// 16 bits until nothing lies above.
pub open spec fn fold16(n: nat) -> nat
    decreases n,
{
    if n < 0x10000 {
        n
    } else {
        fold16(n / 0x10000 + n % 0x10000)
    }
}

/// The IPv4 header checksum of a 20-byte header: the complement of the
/// ones'-complement sum of its ten words.
pub open spec fn ip4_checksum(header: Seq<u8>) -> nat {
    (0xFFFF - fold16(word_sum(header, 10))) as nat
}

/// The header with its checksum field (bytes 10 and 11) zeroed.
pub open spec fn zeroed_checksum(header: Seq<u8>) -> Seq<u8> {
    header.update(10, 0u8).update(11, 0u8)
}

/// The header with its checksum field recomputed.
pub open spec fn with_checksum(header: Seq<u8>) -> Seq<u8> {
    let z = zeroed_checksum(header);
    let c = ip4_checksum(z);
    z.update(10, (c / 256) as u8).update(11, (c % 256) as u8)
}

/// Folding keeps the residue modulo 0xFFFF, maps zero to zero and every
/// positive sum into `1..=0xFFFF`.
pub proof fn lemma_fold16(n: nat)
    ensures
        fold16(n) <= 0xFFFF,
        fold16(n) % 0xFFFF == n % 0xFFFF,
        n > 0 ==> fold16(n) >= 1,
        n == 0 ==> fold16(n) == 0,
    decreases n,
{
    if n >= 0x10000 {
        let q: nat = n / 0x10000;
        let r: nat = n % 0x10000;
        assert(n == 0x10000 * q + r);
        assert(q >= 1);
        lemma_fold16(q + r);
        assert(n == 0xFFFF * q + (q + r));
        vstd::arithmetic::div_mod::lemma_mod_multiples_vanish(q as int, (q + r) as int, 0xFFFF);
    }
}

/// The ten-word sum written out.
pub proof fn lemma_word_sum_header(s: Seq<u8>)
    ensures
        word_sum(s, 10) == word_at(s, 0) + word_at(s, 1) + word_at(s, 2) + word_at(s, 3)
            + word_at(s, 4) + word_at(s, 5) + word_at(s, 6) + word_at(s, 7) + word_at(s, 8)
            + word_at(s, 9),
{
    reveal_with_fuel(word_sum, 11);
}

/// Adding the complement of its own folded value to a sum gives a sum that
/// folds to 0xFFFF.
pub proof fn lemma_complement_cancels(s: nat)
    ensures
        fold16(s) <= 0xFFFF,
        fold16((s + 0xFFFF - fold16(s)) as nat) == 0xFFFF,
{
    lemma_fold16(s);
    let c: nat = (0xFFFF - fold16(s)) as nat;
    let k: nat = s / 0xFFFF;
    let m: nat = s % 0xFFFF;
    assert(s == 0xFFFF * k + m);
    assert(fold16(s) == m || (fold16(s) == 0xFFFF && m == 0));
    lemma_fold16(s + c);
    if fold16(s) == m {
        assert(s + c == 0xFFFF * (k + 1));
        vstd::arithmetic::div_mod::lemma_mod_multiples_vanish(k as int + 1, 0, 0xFFFF);
    } else {
        assert(s + c == 0xFFFF * k);
        vstd::arithmetic::div_mod::lemma_mod_multiples_vanish(k as int, 0, 0xFFFF);
    }
    assert((s + c) % 0xFFFF == 0);
}

/// The ten-word sum of a header after its checksum field was recomputed.
proof fn lemma_word_sum_with_checksum(header: Seq<u8>)
    requires
        header.len() == 20,
    ensures
        fold16(word_sum(zeroed_checksum(header), 10)) <= 0xFFFF,
        word_sum(with_checksum(header), 10) == word_sum(zeroed_checksum(header), 10)
            + ip4_checksum(zeroed_checksum(header)),
{
    let z = zeroed_checksum(header);
    let c: nat = ip4_checksum(z);
    let f = with_checksum(header);
    lemma_fold16(word_sum(z, 10));
    lemma_word_sum_header(z);
    lemma_word_sum_header(f);
    assert(f[10] as nat == c / 256);
    assert(f[11] as nat == c % 256);
    assert(word_at(z, 5) == 0);
    assert(word_at(f, 5) == c);
    assert(word_at(f, 0) == word_at(z, 0));
    assert(word_at(f, 1) == word_at(z, 1));
    assert(word_at(f, 2) == word_at(z, 2));
    assert(word_at(f, 3) == word_at(z, 3));
    assert(word_at(f, 4) == word_at(z, 4));
    assert(word_at(f, 6) == word_at(z, 6));
    assert(word_at(f, 7) == word_at(z, 7));
    assert(word_at(f, 8) == word_at(z, 8));
    assert(word_at(f, 9) == word_at(z, 9));
}

/// A header whose checksum field was recomputed verifies: the checksum taken
/// over all ten words, the checksum field included, is zero.
pub proof fn lemma_checksum_verifies(header: Seq<u8>)
    requires
        header.len() == 20,
    ensures
        ip4_checksum(with_checksum(header)) == 0,
{
    lemma_word_sum_with_checksum(header);
    lemma_complement_cancels(word_sum(zeroed_checksum(header), 10));
}

/// Computes the IPv4 header checksum of a 20-byte header.
pub fn calculate_ip4_checksum(buf: &[u8]) -> (checksum: u16)
    requires
        buf@.len() == 20,
    ensures
        checksum as nat == ip4_checksum(buf@),
{
    let mut sum: u32 = 0;
    let mut i: usize = 0;
    while i < 10
        invariant
            i <= 10,
            buf@.len() == 20,
            sum as nat == word_sum(buf@, i as nat),
            sum <= i * 0xFFFF,
        decreases 10 - i,
    {
        let hi: u8 = buf[2 * i];
        let lo: u8 = buf[2 * i + 1];
        assert(((hi as u32) << 8) == (hi as u32) * 256) by (bit_vector);
        sum = sum + (((hi as u32) << 8) + (lo as u32));
        i = i + 1;
    }
    assert(sum & 0xFFFF == sum % 0x10000 && sum >> 16 == sum / 0x10000) by (bit_vector);
    let once: u32 = (sum & 0xFFFF) + (sum >> 16);
    assert(once & 0xFFFF == once % 0x10000 && once >> 16 == once / 0x10000) by (bit_vector);
    let twice: u32 = (once & 0xFFFF) + (once >> 16);
    proof {
        reveal_with_fuel(fold16, 3);
        assert(fold16(sum as nat) == twice);
    }
    let folded: u16 = twice as u16;
    assert(!folded == 0xFFFF - folded) by (bit_vector);
    !folded
}

/// What replaces the 16-bit Identification field (bytes 4 and 5) when an
/// identification is given.
pub open spec fn with_identification(packet: Seq<u8>, id: Option<u16>) -> Seq<u8> {
    match id {
        Some(v) => packet.update(4, (v / 256) as u8).update(5, (v % 256) as u8),
        None => packet,
    }
}

/// The packet with source (bytes 12..16) and destination (bytes 16..20)
/// overwritten.
pub open spec fn with_addresses(packet: Seq<u8>, src: Seq<u8>, dst: Seq<u8>) -> Seq<u8> {
    Seq::new(
        packet.len(),
        |i: int|
            if 12 <= i < 16 {
                src[i - 12]
            } else if 16 <= i < 20 {
                dst[i - 16]
            } else {
                packet[i]
            },
    )
}

/// The datagram that `craft_udp_packet` produces from a datagram of at least
/// 20 bytes: identification and addresses rewritten, header checksum
/// recomputed, everything behind the header untouched.
pub open spec fn crafted(given: Seq<u8>, src: Seq<u8>, dst: Seq<u8>, id: Option<u16>) -> Seq<u8> {
    let addressed = with_addresses(with_identification(given, id), src, dst);
    with_checksum(addressed.subrange(0, 20)) + addressed.subrange(20, addressed.len() as int)
}

/// What crafting keeps and what it sets, for every datagram of at least 20
/// bytes and every pair of addresses: the length stays; bytes 12..16 are the
/// source and bytes 16..20 the destination; every byte outside the
/// identification (4..6), the checksum (10..12) and the addresses is as it
/// was; without an identification to set, bytes 4..6 stay too; and the
/// header verifies.
pub proof fn lemma_crafted_frame(given: Seq<u8>, src: Seq<u8>, dst: Seq<u8>, id: Option<u16>)
    requires
        given.len() >= 20,
        src.len() == 4,
        dst.len() == 4,
    ensures
        crafted(given, src, dst, id).len() == given.len(),
        crafted(given, src, dst, id).subrange(12, 16) == src,
        crafted(given, src, dst, id).subrange(16, 20) == dst,
        forall|i: int|
            0 <= i < given.len() && !(4 <= i < 6) && !(10 <= i < 20) ==> crafted(
                given,
                src,
                dst,
                id,
            )[i] == given[i],
        id is None ==> forall|i: int| 4 <= i < 6 ==> crafted(given, src, dst, id)[i] == given[i],
        id is Some ==> crafted(given, src, dst, id)[4] == id->Some_0 / 256 && crafted(
            given,
            src,
            dst,
            id,
        )[5] == id->Some_0 % 256,
        ip4_checksum(crafted(given, src, dst, id).subrange(0, 20)) == 0,
{
    let out = crafted(given, src, dst, id);
    let addressed = with_addresses(with_identification(given, id), src, dst);
    assert(out.subrange(12, 16) =~= src);
    assert(out.subrange(16, 20) =~= dst);
    assert(out.subrange(0, 20) =~= with_checksum(addressed.subrange(0, 20)));
    lemma_checksum_verifies(addressed.subrange(0, 20));
}

/// Recomputes the checksum field of a 20-byte IPv4 header in place. A buffer
/// of any other length is refused and left as it was.
pub fn rewrite_ip4_checksum(buf: &mut [u8]) -> (r: Result<(), String>)
    ensures
        r is Err <==> old(buf)@.len() != 20,
        r is Err ==> final(buf)@ == old(buf)@ && r->Err_0@ == "Incorrect packet header length."@,
        r is Ok ==> final(buf)@ == with_checksum(old(buf)@),
        r is Ok ==> ip4_checksum(final(buf)@) == 0,
{
    if buf.len() != 20 {
        return Err("Incorrect packet header length.".to_string());
    }
    buf[10] = 0u8;
    buf[11] = 0u8;
    let checksum: u16 = calculate_ip4_checksum(buf);
    assert(checksum >> 8 == checksum / 256 && checksum & 0xFF == checksum % 256) by (bit_vector);
    buf[10] = (checksum >> 8) as u8;
    buf[11] = (checksum & 0xFF) as u8;
    proof {
        lemma_checksum_verifies(old(buf)@);
    }
    Ok(())
}

/// Builds the unicast copy of an IPv4 datagram: source and destination are
/// overwritten, the Identification field too where `id` is given, and the
/// header checksum is recomputed. The transport checksum is left alone.
///
/// Fails exactly on a buffer that cannot hold an IPv4 header.
pub fn craft_udp_packet(given: &[u8], src: &[u8; 4], dst: &[u8; 4], id: Option<u16>) -> (r: Result<
    Vec<u8>,
    String,
>)
    ensures
        r is Err <==> given@.len() < 20,
        r is Err ==> r->Err_0@ == "Packet is shorter than an IPv4 header."@,
        r is Ok ==> r->Ok_0@ == crafted(given@, src@, dst@, id),
        r is Ok ==> r->Ok_0@.len() == given@.len(),
        r is Ok ==> r->Ok_0@.subrange(12, 16) == src@ && r->Ok_0@.subrange(16, 20) == dst@,
        r is Ok ==> forall|i: int|
            0 <= i < given@.len() && !(4 <= i < 6) && !(10 <= i < 20) ==> r->Ok_0@[i] == given@[i],
        r is Ok && id is None ==> r->Ok_0@[4] == given@[4] && r->Ok_0@[5] == given@[5],
        r is Ok ==> ip4_checksum(r->Ok_0@.subrange(0, 20)) == 0,
{
    if given.len() < IP4_HEADER_LEN {
        return Err("Packet is shorter than an IPv4 header.".to_string());
    }
    let mut packet: Vec<u8> = vstd::slice::slice_to_vec(given);
    if let Some(udpid) = id {
        assert(udpid >> 8 == udpid / 256 && udpid & 0xFF == udpid % 256) by (bit_vector);
        packet[4] = (udpid >> 8) as u8;
        packet[5] = (udpid & 0xFF) as u8;
    }
    let ghost identified: Seq<u8> = packet@;
    let mut k: usize = 0;
    while k < 4
        invariant
            k <= 4,
            packet@.len() == given@.len(),
            given@.len() >= 20,
            forall|i: int|
                0 <= i < packet@.len() ==> #[trigger] packet@[i] == (if 12 <= i < 12 + k {
                    src@[i - 12]
                } else if 16 <= i < 16 + k {
                    dst@[i - 16]
                } else {
                    identified[i]
                }),
        decreases 4 - k,
    {
        packet[12 + k] = src[k];
        packet[16 + k] = dst[k];
        k = k + 1;
    }
    let ghost addressed: Seq<u8> = packet@;
    assert(addressed =~= with_addresses(with_identification(given@, id), src@, dst@));
    let (header, _rest) = packet.as_mut_slice().split_at_mut(IP4_HEADER_LEN);
    let rewritten: Result<(), String> = rewrite_ip4_checksum(header);
    assert(rewritten is Ok);
    proof {
        assert(packet@ =~= crafted(given@, src@, dst@, id));
        lemma_crafted_frame(given@, src@, dst@, id);
    }
    Ok(packet)
}

} // verus!
