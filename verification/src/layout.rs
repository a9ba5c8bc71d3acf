//! The fixed 1376-byte serialized layout of one `Tweet` record:
//! `[discriminator:8][author:32][timestamp:8][topic_len:4][topic:200][content_len:4][content:1120]`,
//! every integer little-endian and every text region zero-padded to its
//! worst-case capacity.

use vstd::prelude::*;
use vstd::bytes::{
    lemma_auto_spec_u32_to_from_le_bytes, lemma_auto_spec_u64_to_from_le_bytes,
    spec_u32_from_le_bytes, spec_u32_to_le_bytes, spec_u64_to_le_bytes, u32_from_le_bytes,
    u32_to_le_bytes, u64_from_le_bytes, u64_to_le_bytes,
};
use vstd::utf8::{
    encode_scalar, encode_utf8, encode_utf8_decode_utf8, encode_utf8_valid_utf8, valid_utf8,
};
use vstd::string::StrSliceExecFns;
use vstd::slice::{slice_index_get, slice_subrange, slice_to_vec};
use crate::sizes::{
    MAX_CONTENT_CHARS, MAX_CONTENT_LENGTH, MAX_TOPIC_CHARS, MAX_TOPIC_LENGTH, TWEET_LEN,
};
use crate::tweet::{Pubkey, Tweet};

verus! {

/// Fixed tag written at offset 0 of every stored `Tweet`, so that a program
/// sharing a storage namespace can tell record types apart.
pub const TWEET_DISCRIMINATOR: u64 = 0x7463_6361_7465_6577;

/// `bytes` followed by zeroes up to the fixed capacity `cap`.
pub open spec fn zero_pad(bytes: Seq<u8>, cap: nat) -> Seq<u8>
    recommends
        bytes.len() <= cap,
{
    bytes + Seq::new((cap - bytes.len()) as nat, |i: int| 0u8)
}

/// A variable-length text region: a 4-byte little-endian prefix holding the
/// actual encoded byte length, then the UTF-8 bytes, zero-padded to `cap`.
pub open spec fn spec_string_region(s: Seq<char>, cap: nat) -> Seq<u8> {
    spec_u32_to_le_bytes(encode_utf8(s).len() as u32) + zero_pad(encode_utf8(s), cap)
}

/// The full fixed layout of one record.
pub open spec fn spec_serialize(t: Tweet) -> Seq<u8> {
    spec_u64_to_le_bytes(TWEET_DISCRIMINATOR) + t.author@ + spec_u64_to_le_bytes(
        t.timestamp as u64,
    ) + spec_string_region(t.topic@, MAX_TOPIC_LENGTH as nat) + spec_string_region(
        t.content@,
        MAX_CONTENT_LENGTH as nat,
    )
}

/// A character encodes to one through four UTF-8 bytes, so a text's encoding
/// is at least as long as its character count and at most four times it.
pub proof fn lemma_encode_utf8_len(s: Seq<char>)
    ensures
        s.len() <= encode_utf8(s).len() <= 4 * s.len(),
    decreases s.len(),
{
    if s.len() > 0 {
        lemma_encode_utf8_len(s.drop_first());
        assert(1 <= encode_scalar(s[0] as u32).len() <= 4);
    }
}

/// The sizing guarantee behind the fixed capacities: any text that passes the
/// character-count rule fits its worst-case byte budget.
pub proof fn lemma_valid_text_fits(s: Seq<char>, max_chars: nat)
    requires
        s.len() <= max_chars,
    ensures
        encode_utf8(s).len() <= 4 * max_chars,
{
    lemma_encode_utf8_len(s);
}

/// A well-formed record always serializes to exactly `TWEET_LEN` bytes,
/// whatever its actual text lengths.
pub proof fn lemma_serialize_len(t: Tweet)
    requires
        t.wf(),
    ensures
        spec_serialize(t).len() == TWEET_LEN,
{
    lemma_auto_spec_u32_to_from_le_bytes();
    lemma_auto_spec_u64_to_from_le_bytes();
    lemma_valid_text_fits(t.topic@, MAX_TOPIC_CHARS as nat);
    lemma_valid_text_fits(t.content@, MAX_CONTENT_CHARS as nat);
}

/// Where each field of a well-formed record stands in its serialized form:
/// each part of the layout is the subrange at its fixed offset.
pub proof fn lemma_serialize_parts(t: Tweet)
    requires
        t.wf(),
    ensures
        spec_serialize(t).len() == TWEET_LEN,
        spec_serialize(t).subrange(0, 8) == spec_u64_to_le_bytes(TWEET_DISCRIMINATOR),
        spec_serialize(t).subrange(8, 40) == t.author@,
        spec_serialize(t).subrange(40, 48) == spec_u64_to_le_bytes(t.timestamp as u64),
        spec_serialize(t).subrange(48, 252) == spec_string_region(t.topic@, 200),
        spec_serialize(t).subrange(252, 1376) == spec_string_region(t.content@, 1120),
{
    lemma_auto_spec_u32_to_from_le_bytes();
    lemma_auto_spec_u64_to_from_le_bytes();
    lemma_valid_text_fits(t.topic@, MAX_TOPIC_CHARS as nat);
    lemma_valid_text_fits(t.content@, MAX_CONTENT_CHARS as nat);
    let s = spec_serialize(t);
    assert(s.subrange(0, 8) =~= spec_u64_to_le_bytes(TWEET_DISCRIMINATOR));
    assert(s.subrange(8, 40) =~= t.author@);
    assert(s.subrange(40, 48) =~= spec_u64_to_le_bytes(t.timestamp as u64));
    assert(s.subrange(48, 252) =~= spec_string_region(t.topic@, 200));
    assert(s.subrange(252, 1376) =~= spec_string_region(t.content@, 1120));
}

/// Appends one text region to `out`: the 4-byte length prefix, the UTF-8
/// bytes, and zero padding up to the fixed capacity `cap`.
fn write_string_region(out: &mut Vec<u8>, s: &str, cap: usize)
    requires
        encode_utf8(s@).len() <= cap,
        cap <= 0xffff_ffff,
    ensures
        final(out)@ == old(out)@ + spec_string_region(s@, cap as nat),
{
    proof {
        lemma_auto_spec_u32_to_from_le_bytes();
    }
    let b = s.as_bytes_vec();
    let blen = b.len();
    let mut lenb = u32_to_le_bytes(blen as u32);
    out.append(&mut lenb);
    out.extend_from_slice(b.as_slice());
    let mut i: usize = blen;
    while i < cap
        invariant
            encode_utf8(s@).len() == blen,
            blen <= i <= cap,
            out@ =~= old(out)@ + spec_u32_to_le_bytes(blen as u32) + encode_utf8(s@) + Seq::new(
                (i - blen) as nat,
                |j: int| 0u8,
            ),
        decreases cap - i,
    {
        out.push(0u8);
        i += 1;
    }
    assert(out@ =~= old(out)@ + spec_string_region(s@, cap as nat));
}

/// Serializes one validated record into its fixed 1376-byte layout.
pub fn serialize_tweet(t: &Tweet) -> (out: Vec<u8>)
    requires
        t.wf(),
    ensures
        out@ == spec_serialize(*t),
        out@.len() == TWEET_LEN,
{
    proof {
        lemma_auto_spec_u64_to_from_le_bytes();
        lemma_valid_text_fits(t.topic@, MAX_TOPIC_CHARS as nat);
        lemma_valid_text_fits(t.content@, MAX_CONTENT_CHARS as nat);
        lemma_serialize_len(*t);
    }
    let mut out = u64_to_le_bytes(TWEET_DISCRIMINATOR);
    out.extend_from_slice(t.author.bytes.as_slice());
    let mut ts = u64_to_le_bytes(t.timestamp as u64);
    out.append(&mut ts);
    write_string_region(&mut out, t.topic.as_str(), MAX_TOPIC_LENGTH);
    write_string_region(&mut out, t.content.as_str(), MAX_CONTENT_LENGTH);
    assert(out@ =~= spec_serialize(*t));
    out
}

/// The layout loses nothing: two well-formed records with the same serialized
/// bytes agree on every field, so a record can always be recovered exactly
/// from its storage slot.
pub proof fn lemma_serialize_injective(t1: Tweet, t2: Tweet)
    requires
        t1.wf(),
        t2.wf(),
        spec_serialize(t1) == spec_serialize(t2),
    ensures
        t1.author@ == t2.author@,
        t1.timestamp == t2.timestamp,
        t1.topic@ == t2.topic@,
        t1.content@ == t2.content@,
{
    lemma_auto_spec_u64_to_from_le_bytes();
    lemma_serialize_parts(t1);
    lemma_serialize_parts(t2);
    let a = t1.timestamp;
    let b = t2.timestamp;
    assert(a as u64 == b as u64 ==> a == b) by (bit_vector);
    lemma_region_inversion(spec_serialize(t1).subrange(48, 252), t1.topic@, 200);
    lemma_region_inversion(spec_serialize(t2).subrange(48, 252), t2.topic@, 200);
    assert(encode_utf8(t1.topic@) == encode_utf8(t2.topic@));
    encode_utf8_decode_utf8(t1.topic@);
    encode_utf8_decode_utf8(t2.topic@);
    lemma_region_inversion(spec_serialize(t1).subrange(252, 1376), t1.content@, 1120);
    lemma_region_inversion(spec_serialize(t2).subrange(252, 1376), t2.content@, 1120);
    assert(encode_utf8(t1.content@) == encode_utf8(t2.content@));
    encode_utf8_decode_utf8(t1.content@);
    encode_utf8_decode_utf8(t2.content@);
}

/// A byte sequence matching `spec_string_region(s, cap)` determines the
/// encoded text completely: its length stands in the prefix, its bytes follow,
/// and the rest of the region is zero.
proof fn lemma_region_inversion(b: Seq<u8>, s: Seq<char>, cap: nat)
    requires
        cap <= 0xffff_ffff,
        b.len() == 4 + cap,
        spec_string_region(s, cap) == b,
    ensures
        encode_utf8(s).len() <= cap,
        spec_u32_from_le_bytes(b.subrange(0, 4)) == encode_utf8(s).len(),
        b.subrange(4, 4 + encode_utf8(s).len() as int) == encode_utf8(s),
        forall|j: int| 4 + encode_utf8(s).len() <= j < b.len() ==> b[j] == 0,
{
    lemma_auto_spec_u32_to_from_le_bytes();
    let e = encode_utf8(s);
    assert(e.len() <= cap) by {
        if e.len() > cap {
            assert(zero_pad(e, cap).len() == e.len());
            assert(false);
        }
    }
    assert(b.subrange(0, 4) =~= spec_u32_to_le_bytes(e.len() as u32));
    assert(b.subrange(4, 4 + e.len() as int) =~= e);
    assert forall|j: int| 4 + e.len() <= j < b.len() implies b[j] == 0 by {
        assert(b[j] == zero_pad(e, cap)[j - 4]);
    }
}

/// Relies on `String::from_utf8`: returns the string made of exactly the
/// given bytes, and fails exactly when they are not valid UTF-8.
#[verifier::external_body]
fn bytes_to_string(v: Vec<u8>) -> (r: Option<String>)
    ensures
        match r {
            Some(s) => encode_utf8(s@) == v@,
            None => !valid_utf8(v@),
        },
{
    String::from_utf8(v).ok()
}

/// Reads one text region (length prefix, UTF-8 bytes, zero padding) starting
/// at `len_off`, rejecting an over-length byte count, nonzero padding, bytes
/// that are not UTF-8, and a text over `max_chars` characters. On `None`, no
/// text within the character limit can match the region.
#[verifier::loop_isolation(false)]
fn read_string_region(bytes: &[u8], len_off: usize, cap: usize, max_chars: usize) -> (r: Option<
    String,
>)
    requires
        len_off + 4 + cap <= bytes@.len(),
        cap <= 0xffff_ffff,
    ensures
        match r {
            Some(s) => {
                &&& s@.len() <= max_chars
                &&& encode_utf8(s@).len() <= cap
                &&& bytes@.subrange(len_off as int, len_off + 4 + cap) == spec_string_region(
                    s@,
                    cap as nat,
                )
            },
            None => forall|s: Seq<char>|
                s.len() <= max_chars ==> #[trigger] spec_string_region(s, cap as nat)
                    != bytes@.subrange(len_off as int, len_off + 4 + cap),
        },
{
    proof {
        lemma_auto_spec_u32_to_from_le_bytes();
    }
    let blen = bytes.len();
    assert(len_off + 4 + cap <= blen);
    let ghost region = bytes@.subrange(len_off as int, len_off + 4 + cap);
    assert(region.subrange(0, 4) =~= bytes@.subrange(len_off as int, len_off + 4));
    let tl32 = u32_from_le_bytes(slice_subrange(bytes, len_off, len_off + 4));
    let tl = tl32 as usize;
    if tl > cap {
        proof {
            assert forall|s: Seq<char>|
                s.len() <= max_chars implies #[trigger] spec_string_region(s, cap as nat)
                != region by {
                if spec_string_region(s, cap as nat) == region {
                    lemma_region_inversion(region, s, cap as nat);
                }
            }
        }
        return None;
    }
    let data_off = len_off + 4;
    let mut k: usize = tl;
    while k < cap
        invariant
            tl <= k <= cap,
            data_off == len_off + 4,
            len_off + 4 + cap <= bytes@.len(),
            region == bytes@.subrange(len_off as int, len_off + 4 + cap),
            forall|j: int| tl <= j < k ==> #[trigger] region[4 + j] == 0,
        decreases cap - k,
    {
        if *slice_index_get(bytes, data_off + k) != 0 {
            proof {
                assert(bytes@[data_off + k] == region[4 + k]);
                assert forall|s: Seq<char>|
                    s.len() <= max_chars implies #[trigger] spec_string_region(s, cap as nat)
                    != region by {
                    if spec_string_region(s, cap as nat) == region {
                        lemma_region_inversion(region, s, cap as nat);
                        assert(tl == encode_utf8(s).len());
                        assert(region[4 + k] == 0);
                    }
                }
            }
            return None;
        }
        k += 1;
    }
    let data = slice_to_vec(slice_subrange(bytes, data_off, data_off + tl));
    assert(data@ =~= region.subrange(4, 4 + tl as int));
    match bytes_to_string(data) {
        None => {
            proof {
                assert forall|s: Seq<char>|
                    s.len() <= max_chars implies #[trigger] spec_string_region(s, cap as nat)
                    != region by {
                    if spec_string_region(s, cap as nat) == region {
                        lemma_region_inversion(region, s, cap as nat);
                        assert(tl == encode_utf8(s).len());
                        assert(data@ == encode_utf8(s));
                        encode_utf8_valid_utf8(s);
                    }
                }
            }
            None
        },
        Some(s) => {
            if s.as_str().unicode_len() > max_chars {
                proof {
                    assert forall|cand: Seq<char>|
                        cand.len() <= max_chars implies #[trigger] spec_string_region(
                        cand,
                        cap as nat,
                    ) != region by {
                        if spec_string_region(cand, cap as nat) == region {
                            lemma_region_inversion(region, cand, cap as nat);
                            assert(tl == encode_utf8(cand).len());
                            assert(encode_utf8(cand) == data@);
                            assert(encode_utf8(cand) == encode_utf8(s@));
                            encode_utf8_decode_utf8(cand);
                            encode_utf8_decode_utf8(s@);
                            assert(cand == s@);
                        }
                    }
                }
                None
            } else {
                proof {
                    let e = encode_utf8(s@);
                    assert(e == data@);
                    assert(e.len() == tl);
                    assert(spec_u32_to_le_bytes(e.len() as u32) == region.subrange(0, 4));
                    assert(region =~= spec_string_region(s@, cap as nat)) by {
                        assert forall|i: int| 0 <= i < 4 + cap implies region[i]
                            == spec_string_region(s@, cap as nat)[i] by {
                            if i < 4 {
                                assert(region[i] == region.subrange(0, 4)[i]);
                            } else if i < 4 + tl {
                                assert(region[i] == region.subrange(4, 4 + tl as int)[i - 4]);
                                assert(zero_pad(e, cap as nat)[i - 4] == e[i - 4]);
                            } else {
                                assert(region[4 + (i - 4)] == 0);
                                assert(zero_pad(e, cap as nat)[i - 4] == 0);
                            }
                        }
                    }
                }
                Some(s)
            }
        },
    }
}

/// Parses a fixed 1376-byte storage region back into the record it holds.
/// Returns `Some` exactly when some well-formed record serializes to these
/// bytes, and then returns a record that serializes to them verbatim.
#[verifier::loop_isolation(false)]
pub fn deserialize_tweet(bytes: &[u8]) -> (r: Option<Tweet>)
    ensures
        r matches Some(t) ==> t.wf() && bytes@ == spec_serialize(t),
        (exists|t: Tweet| t.wf() && bytes@ == spec_serialize(t)) ==> r is Some,
{
    proof {
        lemma_auto_spec_u32_to_from_le_bytes();
        lemma_auto_spec_u64_to_from_le_bytes();
    }
    if bytes.len() != TWEET_LEN {
        proof {
            if exists|t: Tweet| t.wf() && bytes@ == spec_serialize(t) {
                let t = choose|t: Tweet| t.wf() && bytes@ == spec_serialize(t);
                lemma_serialize_parts(t);
            }
        }
        return None;
    }
    let disc = u64_from_le_bytes(slice_subrange(bytes, 0, 8));
    if disc != TWEET_DISCRIMINATOR {
        proof {
            if exists|t: Tweet| t.wf() && bytes@ == spec_serialize(t) {
                let t = choose|t: Tweet| t.wf() && bytes@ == spec_serialize(t);
                lemma_serialize_parts(t);
            }
        }
        return None;
    }
    let author_s = slice_subrange(bytes, 8, 40);
    let mut abytes: [u8; 32] = [0u8; 32];
    let mut i: usize = 0;
    while i < 32
        invariant
            0 <= i <= 32,
            author_s@ == bytes@.subrange(8, 40),
            forall|k: int| 0 <= k < i ==> abytes@[k] == author_s@[k],
        decreases 32 - i,
    {
        abytes[i] = *slice_index_get(author_s, i);
        i += 1;
    }
    assert(abytes@ =~= bytes@.subrange(8, 40));
    let ts_u = u64_from_le_bytes(slice_subrange(bytes, 40, 48));
    let timestamp = ts_u as i64;
    assert((ts_u as i64) as u64 == ts_u) by (bit_vector);
    let topic = match read_string_region(bytes, 48, MAX_TOPIC_LENGTH, MAX_TOPIC_CHARS) {
        None => {
            proof {
                if exists|t: Tweet| t.wf() && bytes@ == spec_serialize(t) {
                    let t = choose|t: Tweet| t.wf() && bytes@ == spec_serialize(t);
                    lemma_serialize_parts(t);
                }
            }
            return None;
        },
        Some(s) => s,
    };
    let content = match read_string_region(bytes, 252, MAX_CONTENT_LENGTH, MAX_CONTENT_CHARS) {
        None => {
            proof {
                if exists|t: Tweet| t.wf() && bytes@ == spec_serialize(t) {
                    let t = choose|t: Tweet| t.wf() && bytes@ == spec_serialize(t);
                    lemma_serialize_parts(t);
                }
            }
            return None;
        },
        Some(s) => s,
    };
    let t = Tweet { author: Pubkey { bytes: abytes }, timestamp, topic, content };
    proof {
        lemma_valid_text_fits(t.topic@, MAX_TOPIC_CHARS as nat);
        lemma_valid_text_fits(t.content@, MAX_CONTENT_CHARS as nat);
        assert(spec_u64_to_le_bytes(TWEET_DISCRIMINATOR) == bytes@.subrange(0, 8));
        assert(spec_u64_to_le_bytes(t.timestamp as u64) == bytes@.subrange(40, 48));
        assert(bytes@ =~= spec_serialize(t)) by {
            let s = spec_serialize(t);
            assert forall|i: int| 0 <= i < 1376 implies bytes@[i] == s[i] by {
                if i < 8 {
                    assert(bytes@[i] == bytes@.subrange(0, 8)[i]);
                } else if i < 40 {
                    assert(bytes@[i] == bytes@.subrange(8, 40)[i - 8]);
                } else if i < 48 {
                    assert(bytes@[i] == bytes@.subrange(40, 48)[i - 40]);
                } else if i < 252 {
                    assert(bytes@[i] == bytes@.subrange(48, 252)[i - 48]);
                } else {
                    assert(bytes@[i] == bytes@.subrange(252, 1376)[i - 252]);
                }
            }
        }
    }
    Some(t)
}

/// Commits a newly created record to its storage slot, as the host's
/// transaction would: only into a slot of exactly the calculator's size, and
/// only for a record whose texts passed validation; otherwise the slot is
/// left untouched.
pub fn store_tweet(slot: &mut Vec<u8>, t: &Tweet) -> (r: bool)
    ensures
        r <==> (old(slot)@.len() == TWEET_LEN && t.wf()),
        r ==> final(slot)@ == spec_serialize(*t),
        !r ==> final(slot)@ == old(slot)@,
{
    if slot.len() != crate::sizes::required_space() {
        return false;
    }
    match crate::tweet::validate(t.topic.as_str(), t.content.as_str()) {
        Err(_) => false,
        Ok(()) => {
            let out = serialize_tweet(t);
            *slot = out;
            true
        },
    }
}

} // verus!
