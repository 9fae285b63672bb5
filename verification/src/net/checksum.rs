use vstd::prelude::*;
use crate::net::ip::Ipv4Addr;

verus! {

/// The 16-bit big-endian word that starts at byte `i` of `s`; a trailing
/// odd byte is padded with a zero low byte.
pub open spec fn word_at(s: Seq<u8>, i: int) -> nat {
    if i + 1 < s.len() {
        (s[i] as nat) * 256 + (s[i + 1] as nat)
    } else {
        (s[i] as nat) * 256
    }
}

/// The sum, over the mathematical integers, of the 16-bit big-endian words
/// of `s` taken two bytes at a time from its start.
pub open spec fn words_sum(s: Seq<u8>) -> nat
    decreases s.len(),
{
    if s.len() == 0 {
        0
    } else if s.len() % 2 == 1 {
        words_sum(s.take(s.len() - 1)) + (s[s.len() - 1] as nat) * 256
    } else {
        words_sum(s.take(s.len() - 2)) + (s[s.len() - 2] as nat) * 256 + (s[s.len() - 1] as nat)
    }
}

/// End-around-carry folding of a sum into 16 bits.
pub open spec fn fold16(sum: nat) -> nat
    decreases sum,
{
    if sum < 0x10000 {
        sum
    } else {
        fold16(sum % 0x10000 + sum / 0x10000)
    }
}

/// The internet checksum of a sum: the ones' complement of its 16-bit fold.
pub open spec fn checksum_of(sum: nat) -> u16 {
    (0xffff - fold16(sum)) as u16
}

pub proof fn lemma_words_sum_step(s: Seq<u8>, i: int)
    requires
        0 <= i < s.len(),
        i % 2 == 0,
    ensures
        i + 1 < s.len() ==> words_sum(s.take(i + 2)) == words_sum(s.take(i)) + word_at(s, i),
        i + 1 >= s.len() ==> words_sum(s.take(i + 1)) == words_sum(s.take(i)) + word_at(s, i),
{
    if i + 1 < s.len() {
        assert(s.take(i + 2).take(i) =~= s.take(i));
    } else {
        assert(s.take(i + 1).take(i) =~= s.take(i));
    }
}

pub proof fn lemma_fold16_bound(sum: nat)
    ensures
        fold16(sum) < 0x10000,
        fold16(sum) % 0xffff == sum % 0xffff,
        sum > 0 ==> fold16(sum) > 0,
    decreases sum,
{
    if sum >= 0x10000 {
        let n = sum % 0x10000 + sum / 0x10000;
        assert(n % 0xffff == sum % 0xffff) by (nonlinear_arith)
            requires
                n == sum % 0x10000 + sum / 0x10000,
        {
            assert(sum == 0x10000 * (sum / 0x10000) + sum % 0x10000);
        }
        lemma_fold16_bound(n);
    }
}

proof fn lemma_fold_step(sum: u32)
    ensures
        sum & 0xffff == sum % 0x10000,
        sum >> 16 == sum / 0x10000,
{
    assert(sum & 0xffff == sum % 0x10000) by (bit_vector);
    assert(sum >> 16 == sum / 0x10000) by (bit_vector);
}

/// Sums the big-endian 16-bit words of `data`, with wrapping 32-bit addition.
pub fn checksum_words(data: &[u8]) -> (res: u32)
    ensures
        res == words_sum(data@) % 0x1_0000_0000,
{
    let mut acc: u32 = 0;
    let mut i: usize = 0;
    while i < data.len()
        invariant
            i <= data.len(),
            i < data.len() ==> i % 2 == 0,
            acc == words_sum(data@.take(i as int)) % 0x1_0000_0000,
        decreases data.len() - i,
    {
        let ghost prev = words_sum(data@.take(i as int));
        proof {
            lemma_words_sum_step(data@, i as int);
        }
        let word: u32;
        if i + 1 < data.len() {
            word = (data[i] as u32) * 256 + (data[i + 1] as u32);
            i = i + 2;
        } else {
            word = (data[i] as u32) * 256;
            i = i + 1;
        }
        proof {
            vstd::arithmetic::div_mod::lemma_add_mod_noop(prev as int, word as int, 0x1_0000_0000);
            vstd::arithmetic::div_mod::lemma_small_mod(word as nat, 0x1_0000_0000);
        }
        acc = acc.wrapping_add(word);
    }
    assert(data@.take(data.len() as int) =~= data@);
    acc
}


/// Folds a 32-bit sum into 16 bits with end-around carry and returns its
/// ones' complement.
pub fn fold_checksum(sum: u32) -> (res: u16)
    ensures
        res == checksum_of(sum as nat),
{
    let mut s = sum;
    while (s >> 16) > 0
        invariant
            fold16(s as nat) == fold16(sum as nat),
        decreases s,
    {
        proof {
            lemma_fold_step(s);
        }
        s = (s & 0xffff) + (s >> 16);
    }
    proof {
        lemma_fold_step(s);
    }
    let low = s as u16;
    assert(!low == (0xffff - low) as u16) by (bit_vector);
    !low
}

/// The sum of the two 16-bit words of an IPv4 address.
pub open spec fn addr_words(addr: Ipv4Addr) -> nat {
    (addr.octets[0] as nat) * 256 + (addr.octets[1] as nat) + (addr.octets[2] as nat) * 256 + (
    addr.octets[3] as nat)
}

/// The sum of the IPv4 pseudo header words used by the TCP and UDP checksums.
pub open spec fn pseudo_header_words(src: Ipv4Addr, dst: Ipv4Addr, protocol: nat, len: nat) -> nat {
    addr_words(src) + addr_words(dst) + protocol + len
}

/// Sums the words of the IPv4 pseudo header: both addresses, the protocol
/// number and the length (taken as a 32-bit value).
pub fn pseudo_header_sum(src_addr: Ipv4Addr, dst_addr: Ipv4Addr, protocol: u32, len: usize) -> (res: u32)
    requires
        protocol + (len as int) % 0x1_0000_0000 <= 0xfffc_0000,
    ensures
        res == pseudo_header_words(src_addr, dst_addr, protocol as nat, ((len as int) % 0x1_0000_0000) as nat),
{
    let src = src_addr.octets();
    let dst = dst_addr.octets();
    let mut sum: u32 = 0;
    sum = sum + ((src[0] as u32) * 256 + (src[1] as u32));
    sum = sum + ((src[2] as u32) * 256 + (src[3] as u32));
    sum = sum + ((dst[0] as u32) * 256 + (dst[1] as u32));
    sum = sum + ((dst[2] as u32) * 256 + (dst[3] as u32));
    sum = sum + protocol;
    sum = sum + (len as u64 % 0x1_0000_0000) as u32;
    sum
}

/// The checksum sum over an IPv4 pseudo header and `bytes`: the pseudo
/// header words plus the wrapped sum of the words of `bytes`, wrapped to
/// 32 bits.
pub fn pseudo_checksum_sum(src_addr: Ipv4Addr, dst_addr: Ipv4Addr, protocol: u32, bytes: &[u8]) -> (res: u32)
    requires
        protocol <= 0xff,
        bytes@.len() <= 0xfff0_0000,
    ensures
        res == (pseudo_header_words(src_addr, dst_addr, protocol as nat, bytes@.len()) + words_sum(
            bytes@,
        ) % 0x1_0000_0000) % 0x1_0000_0000,
{
    let p = pseudo_header_sum(src_addr, dst_addr, protocol, bytes.len());
    let w = checksum_words(bytes);
    proof {
        vstd::arithmetic::div_mod::lemma_small_mod(bytes@.len(), 0x1_0000_0000);
    }
    p.wrapping_add(w)
}

/// The words of two byte strings sum separately when the first has an even
/// length.
pub proof fn lemma_words_sum_concat(x: Seq<u8>, y: Seq<u8>)
    requires
        x.len() % 2 == 0,
    ensures
        words_sum(x + y) == words_sum(x) + words_sum(y),
    decreases y.len(),
{
    if y.len() == 0 {
        assert(x + y =~= x);
    } else if y.len() % 2 == 1 {
        let z = x + y;
        assert(z.take(z.len() - 1) =~= x + y.take(y.len() - 1));
        lemma_words_sum_concat(x, y.take(y.len() - 1));
    } else {
        let z = x + y;
        assert(z.take(z.len() - 2) =~= x + y.take(y.len() - 2));
        lemma_words_sum_concat(x, y.take(y.len() - 2));
    }
}

/// A 16-bit value written big-endian is one word of that value.
pub proof fn lemma_words_sum_be16(c: u16)
    ensures
        words_sum(crate::codec::be16_bytes(c)) == c,
{
    let b = crate::codec::be16_bytes(c);
    assert(b.len() == 2);
    assert(b.take(0) =~= Seq::<u8>::empty());
    assert(words_sum(b.take(0)) == 0);
    assert(b[0] as nat == c / 256);
    assert(b[1] as nat == c % 256);
    assert(words_sum(b) == words_sum(b.take(0)) + (b[0] as nat) * 256 + (b[1] as nat));
}

/// The words of `s` sum to at most 0x10000 per started pair of bytes.
pub proof fn lemma_words_sum_bound(s: Seq<u8>)
    ensures
        words_sum(s) <= 0x10000 * ((s.len() + 1) / 2),
    decreases s.len(),
{
    if s.len() == 0 {
    } else if s.len() % 2 == 1 {
        lemma_words_sum_bound(s.take(s.len() - 1));
    } else {
        lemma_words_sum_bound(s.take(s.len() - 2));
    }
}

/// Adding the checksum of a sum to that sum folds to all ones: a message
/// carrying its checksum verifies.
pub proof fn lemma_checksum_verifies(sum: nat)
    ensures
        fold16(sum + checksum_of(sum) as nat) == 0xffff,
{
    lemma_fold16_bound(sum);
    let f = fold16(sum);
    let t: nat = sum + checksum_of(sum) as nat;
    assert(checksum_of(sum) == 0xffff - f);
    lemma_fold16_bound(t);
    assert(t % 0xffff == 0) by (nonlinear_arith)
        requires
            t == sum + (0xffff - f),
            f % 0xffff == sum % 0xffff,
            f < 0x10000,
    {
        assert(sum == 0xffff * (sum / 0xffff) + sum % 0xffff);
        assert(f == 0xffff * (f / 0xffff) + f % 0xffff);
    }
    assert(t > 0);
    assert(fold16(t) == 0xffff) by (nonlinear_arith)
        requires
            fold16(t) % 0xffff == 0,
            fold16(t) > 0,
            fold16(t) < 0x10000,
    {
    }
}

} // verus!
