use solana_twitter::layout::{deserialize_tweet, serialize_tweet, store_tweet, TWEET_DISCRIMINATOR};
use solana_twitter::sizes::required_space;
use solana_twitter::tweet::{Pubkey, Tweet};

fn sample_tweet() -> Tweet {
    Tweet {
        author: Pubkey { bytes: [9u8; 32] },
        timestamp: -1234567890,
        topic: "caf\u{e9}".to_string(),
        content: "d\u{e9}j\u{e0} vu \u{1F600}".to_string(),
    }
}

#[test]
fn serialized_record_is_exactly_1376_bytes() {
    let bytes = serialize_tweet(&sample_tweet());
    assert_eq!(bytes.len(), 1376);
}

#[test]
fn serialized_layout_fields_sit_at_their_offsets() {
    let t = sample_tweet();
    let bytes = serialize_tweet(&t);
    assert_eq!(&bytes[0..8], &TWEET_DISCRIMINATOR.to_le_bytes());
    assert_eq!(&bytes[8..40], &[9u8; 32]);
    assert_eq!(&bytes[40..48], &(-1234567890i64 as u64).to_le_bytes());
    let topic_bytes = t.topic.as_bytes();
    assert_eq!(&bytes[48..52], &(topic_bytes.len() as u32).to_le_bytes());
    assert_eq!(&bytes[52..52 + topic_bytes.len()], topic_bytes);
    assert!(bytes[52 + topic_bytes.len()..252].iter().all(|&b| b == 0));
    let content_bytes = t.content.as_bytes();
    assert_eq!(&bytes[252..256], &(content_bytes.len() as u32).to_le_bytes());
    assert_eq!(&bytes[256..256 + content_bytes.len()], content_bytes);
    assert!(bytes[256 + content_bytes.len()..1376].iter().all(|&b| b == 0));
}

#[test]
fn serialize_then_deserialize_returns_the_record() {
    let t = sample_tweet();
    let bytes = serialize_tweet(&t);
    let back = deserialize_tweet(&bytes).expect("a serialized record must parse");
    assert_eq!(back.author.bytes, t.author.bytes);
    assert_eq!(back.timestamp, t.timestamp);
    assert_eq!(back.topic, t.topic);
    assert_eq!(back.content, t.content);
}

#[test]
fn deserialize_rejects_wrong_size() {
    assert!(deserialize_tweet(&vec![0u8; 1375]).is_none());
    assert!(deserialize_tweet(&vec![0u8; 1377]).is_none());
    assert!(deserialize_tweet(&[]).is_none());
}

#[test]
fn deserialize_rejects_foreign_discriminator() {
    let mut bytes = serialize_tweet(&sample_tweet());
    bytes[0] ^= 0xFF;
    assert!(deserialize_tweet(&bytes).is_none());
}

#[test]
fn deserialize_rejects_nonzero_padding() {
    let mut bytes = serialize_tweet(&sample_tweet());
    // Last byte of the topic region is padding for this sample.
    bytes[251] = 1;
    assert!(deserialize_tweet(&bytes).is_none());
}

#[test]
fn deserialize_rejects_overlong_byte_count() {
    let mut bytes = serialize_tweet(&sample_tweet());
    bytes[48..52].copy_from_slice(&201u32.to_le_bytes());
    assert!(deserialize_tweet(&bytes).is_none());
}

#[test]
fn deserialize_rejects_invalid_utf8() {
    let mut bytes = serialize_tweet(&sample_tweet());
    bytes[48..52].copy_from_slice(&1u32.to_le_bytes());
    bytes[52] = 0xFF;
    // Clear the rest of the topic region so only the UTF-8 check can object.
    for b in &mut bytes[53..252] {
        *b = 0;
    }
    assert!(deserialize_tweet(&bytes).is_none());
}

#[test]
fn deserialize_counts_characters_not_bytes() {
    // A stored topic of 51 one-byte characters is over the limit even though
    // its 51 bytes are far under the 200-byte capacity.
    let mut bytes = serialize_tweet(&sample_tweet());
    bytes[48..52].copy_from_slice(&51u32.to_le_bytes());
    for b in &mut bytes[52..103] {
        *b = b'x';
    }
    for b in &mut bytes[103..252] {
        *b = 0;
    }
    assert!(deserialize_tweet(&bytes).is_none());
}

#[test]
fn store_tweet_fills_an_exactly_sized_slot() {
    let t = sample_tweet();
    let mut slot = vec![0u8; required_space()];
    assert!(store_tweet(&mut slot, &t));
    assert_eq!(slot, serialize_tweet(&t));
}

#[test]
fn store_tweet_rejects_any_other_slot_size() {
    let t = sample_tweet();
    let mut small = vec![0u8; 1375];
    assert!(!store_tweet(&mut small, &t));
    assert!(small.iter().all(|&b| b == 0));
    let mut big = vec![0u8; 1377];
    assert!(!store_tweet(&mut big, &t));
    assert!(big.iter().all(|&b| b == 0));
}

#[test]
fn store_tweet_rejects_an_invalid_record() {
    let mut t = sample_tweet();
    t.topic = "a".repeat(51);
    let mut slot = vec![0u8; required_space()];
    assert!(!store_tweet(&mut slot, &t));
    assert!(slot.iter().all(|&b| b == 0));
}
