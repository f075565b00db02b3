//! Substring tag search over the tweet store.

use vstd::prelude::*;

use crate::pallet::Pallet;
use crate::text::{check_utf8, contains_bytes, is_substring, is_utf8};
use crate::types::{AccountId, Error, Event, Tweet, TweetView};

verus! {

/// Whether every stored tweet's tag decodes as text.
pub open spec fn all_tags_text(feed: Seq<TweetView>) -> bool {
    forall|i: int| 0 <= i < feed.len() ==> is_utf8(#[trigger] feed[i].tag)
}

/// The tweets whose tag contains the fragment, in store order.
pub open spec fn matching(feed: Seq<TweetView>, frag: Seq<u8>) -> Seq<TweetView> {
    feed.filter(|t: TweetView| is_substring(frag, t.tag))
}

impl Pallet {
    /// Searches the store for tweets whose tag contains `tag` as a
    /// case-sensitive substring of the decoded text, keeping store order.
    /// Fails with `InvalidText`, touching nothing, when the fragment or any
    /// stored tag is not valid text.
    pub fn search_tweet_by_tag(&self, caller: AccountId, tag: Vec<u8>) -> (r: Result<Event, Error>)
        ensures
            is_utf8(tag@) && all_tags_text(self.feed()) ==> (r matches Ok(
                Event::UserSearchTweetByTag(ts, who),
            ) && who == caller && ts.deep_view() == matching(self.feed(), tag@)),
            !(is_utf8(tag@) && all_tags_text(self.feed())) ==> r == Err::<Event, Error>(
                Error::InvalidText,
            ),
    {
        let ghost feed = self.tweets.deep_view();
        if !check_utf8(&tag) {
            return Err(Error::InvalidText);
        }
        let mut found: Vec<Tweet> = Vec::new();
        let n = self.tweets.len();
        let mut i: usize = 0;
        proof {
            reveal_with_fuel(Seq::<TweetView>::filter, 2);
            assert(feed.take(0) =~= Seq::<TweetView>::empty());
            assert(matching(feed.take(0), tag@) =~= Seq::<TweetView>::empty());
        }
        while i < n
            invariant
                i <= n,
                n == self.tweets@.len(),
                feed == self.tweets.deep_view(),
                is_utf8(tag@),
                forall|j: int| 0 <= j < i ==> is_utf8(#[trigger] feed[j].tag),
                found.deep_view() == matching(feed.take(i as int), tag@),
            decreases n - i,
        {
            let ghost prefix = feed.take(i as int);
            proof {
                reveal_with_fuel(Seq::<TweetView>::filter, 2);
                assert(feed.take(i as int + 1).drop_last() =~= prefix);
                assert(feed.take(i as int + 1).last() == feed[i as int]);
                assert(feed[i as int].tag == self.tweets@[i as int].tag@);
            }
            if !check_utf8(&self.tweets[i].tag) {
                proof {
                    assert(!all_tags_text(feed));
                }
                return Err(Error::InvalidText);
            }
            if contains_bytes(&self.tweets[i].tag, &tag) {
                let t = self.tweets[i].clone();
                found.push(t);
                proof {
                    reveal_with_fuel(Seq::<TweetView>::filter, 2);
                    assert(is_substring(tag@, feed[i as int].tag));
                    assert(matching(feed.take(i as int + 1), tag@) == matching(prefix, tag@).push(
                        feed[i as int],
                    ));
                    assert(found.deep_view() =~= matching(prefix, tag@).push(feed[i as int]));
                }
            } else {
                proof {
                    reveal_with_fuel(Seq::<TweetView>::filter, 2);
                    assert(!is_substring(tag@, feed[i as int].tag));
                    assert(found.deep_view() == matching(feed.take(i as int + 1), tag@));
                }
            }
            i += 1;
        }
        proof {
            assert(feed.take(n as int) =~= feed);
        }
        Ok(Event::UserSearchTweetByTag(found, caller))
    }
}

} // verus!
