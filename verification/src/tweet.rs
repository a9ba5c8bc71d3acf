//! The `Tweet` record, its validator, and the create operation — the only
//! state transition in the system.

use vstd::prelude::*;
use vstd::string::StrSliceExecFns;
use crate::sizes::{MAX_CONTENT_CHARS, MAX_TOPIC_CHARS};

verus! {

/// A 32-byte cryptographic identity, as the host runtime authenticates it.
#[derive(Clone, Copy)]
pub struct Pubkey {
    pub bytes: [u8; 32],
}

impl View for Pubkey {
    type V = Seq<u8>;

    open spec fn view(&self) -> Seq<u8> {
        self.bytes@
    }
}

/// The two ways a creation request can be rejected; both are raised before
/// any write, so they are fully recoverable by resubmitting shorter text.
#[derive(Clone, Copy, PartialEq, Eq, Structural, Debug)]
pub enum ErrorCode {
    /// The topic exceeds `MAX_TOPIC_CHARS` characters.
    TopicTooLong,
    /// The content exceeds `MAX_CONTENT_CHARS` characters.
    ContentTooLong,
}

/// The sole persisted record: author identity, creation time, and the two
/// author-supplied texts.
pub struct Tweet {
    pub author: Pubkey,
    pub timestamp: i64,
    pub topic: String,
    pub content: String,
}

impl Tweet {
    /// Both texts are within their character-count limits.
    pub open spec fn wf(&self) -> bool {
        &&& self.topic@.len() <= MAX_TOPIC_CHARS
        &&& self.content@.len() <= MAX_CONTENT_CHARS
    }
}

impl Default for Tweet {
    /// The freshly allocated, not yet initialized record: zero identity,
    /// zero time, empty texts — the state the host allocator hands over.
    fn default() -> (t: Tweet)
        ensures
            forall|i: int| 0 <= i < 32 ==> t.author@[i] == 0,
            t.timestamp == 0,
            t.topic@ == Seq::<char>::empty(),
            t.content@ == Seq::<char>::empty(),
            t.wf(),
    {
        Tweet {
            author: Pubkey { bytes: [0u8; 32] },
            timestamp: 0,
            topic: String::new(),
            content: String::new(),
        }
    }
}

/// What the validator decides: limits are counted in characters (Unicode
/// scalar values), never in encoded bytes, and the topic is checked first.
pub open spec fn spec_validate(topic: Seq<char>, content: Seq<char>) -> Result<(), ErrorCode> {
    if topic.len() > MAX_TOPIC_CHARS {
        Err(ErrorCode::TopicTooLong)
    } else if content.len() > MAX_CONTENT_CHARS {
        Err(ErrorCode::ContentTooLong)
    } else {
        Ok(())
    }
}

/// Validator: checks the character counts of both texts and mutates nothing.
pub fn validate(topic: &str, content: &str) -> (r: Result<(), ErrorCode>)
    ensures
        r == spec_validate(topic@, content@),
{
    if topic.unicode_len() > MAX_TOPIC_CHARS {
        Err(ErrorCode::TopicTooLong)
    } else if content.unicode_len() > MAX_CONTENT_CHARS {
        Err(ErrorCode::ContentTooLong)
    } else {
        Ok(())
    }
}

/// Everything the host runtime hands to one create operation: the freshly
/// allocated, not yet initialized record account, and the identity that the
/// host authenticated as the signer (and payer) of the call.
pub struct SendTweet {
    pub tweet: Tweet,
    pub author: Pubkey,
}

/// Create operation: validates the texts, then initializes the record in one
/// step — author from the authenticated signer, timestamp from the host
/// clock, texts verbatim. On a validation error nothing is written.
pub fn send_tweet(ctx: &mut SendTweet, now: i64, topic: String, content: String) -> (r: Result<
    (),
    ErrorCode,
>)
    ensures
        r == spec_validate(topic@, content@),
        final(ctx).author == old(ctx).author,
        r is Ok ==> {
            &&& final(ctx).tweet.author@ == old(ctx).author@
            &&& final(ctx).tweet.timestamp == now
            &&& final(ctx).tweet.topic@ == topic@
            &&& final(ctx).tweet.content@ == content@
            &&& final(ctx).tweet.wf()
        },
        r is Err ==> *final(ctx) == *old(ctx),
{
    match validate(topic.as_str(), content.as_str()) {
        Err(e) => Err(e),
        Ok(()) => {
            ctx.tweet.author = ctx.author;
            ctx.tweet.timestamp = now;
            ctx.tweet.topic = topic;
            ctx.tweet.content = content;
            Ok(())
        },
    }
}

/// Two records created in sequence, under a host clock that never runs
/// backwards, never show a decreasing timestamp: each successful creation
/// stamps exactly the clock value of its call.
pub proof fn lemma_timestamps_nondecreasing(first: Tweet, second: Tweet, now1: i64, now2: i64)
    requires
        first.timestamp == now1,
        second.timestamp == now2,
        now1 <= now2,
    ensures
        first.timestamp <= second.timestamp,
{
}

} // verus!
