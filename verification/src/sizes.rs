//! Size calculator: the exact byte capacity of one stored `Tweet` record,
//! derived from named per-field constants so that the validator's character
//! limits and the storage budget can never drift apart.

use vstd::prelude::*;

verus! {

/// Bytes of the leading tag that identifies the record's type among other
/// record types that might share a storage namespace.
pub const DISCRIMINATOR_LENGTH: usize = 8;

/// Bytes of one public-key identity.
pub const PUBLIC_KEY_LENGTH: usize = 32;

/// Bytes of the signed 64-bit creation timestamp.
pub const TIMESTAMP_LENGTH: usize = 8;

/// Bytes of the prefix that stores a variable-length field's actual byte length.
pub const STRING_LENGTH_PREFIX: usize = 4;

/// Maximum number of characters (Unicode scalar values) in a topic.
pub const MAX_TOPIC_CHARS: usize = 50;

/// Maximum number of characters (Unicode scalar values) in a content text.
pub const MAX_CONTENT_CHARS: usize = 280;

/// Worst-case bytes one character occupies under UTF-8 encoding.
pub const MAX_BYTES_PER_CHAR: usize = 4;

/// Byte capacity reserved for the topic text: sized for the worst case, so the
/// byte budget never constrains a text that passes the character-count rule.
pub const MAX_TOPIC_LENGTH: usize = MAX_TOPIC_CHARS * MAX_BYTES_PER_CHAR;

/// Byte capacity reserved for the content text, sized like the topic's.
pub const MAX_CONTENT_LENGTH: usize = MAX_CONTENT_CHARS * MAX_BYTES_PER_CHAR;

/// Total byte capacity of one stored `Tweet` record.
pub const TWEET_LEN: usize = DISCRIMINATOR_LENGTH + PUBLIC_KEY_LENGTH + TIMESTAMP_LENGTH
    + STRING_LENGTH_PREFIX + MAX_TOPIC_LENGTH + STRING_LENGTH_PREFIX + MAX_CONTENT_LENGTH;

/// The storage the host must allocate for one record: exactly `TWEET_LEN`
/// (1376) bytes, whatever the actual text lengths are.
pub fn required_space() -> (n: usize)
    ensures
        n == TWEET_LEN,
        n == 1376,
{
    TWEET_LEN
}

} // verus!
