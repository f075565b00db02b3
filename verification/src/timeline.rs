//! Timeline assembly: fan-out of a new tweet into follower feeds at write
//! time, and resolution of id lists into tweet snapshots at read time.

use vstd::prelude::*;

use crate::pallet::{
    find_tweet, first_idx, has_tweet, lemma_first_idx_agrees, occurrences, profile_in, Pallet,
};
use crate::types::{AccountId, Event, Tweet, TweetView, UserView};

verus! {

/// The snapshots an id list resolves to: each id is looked up in the feed,
/// the first tweet with that id is taken, ids with no match are skipped,
/// and the order of the id list is kept.
pub open spec fn resolve_ids(ids: Seq<u32>, feed: Seq<TweetView>) -> Seq<TweetView>
    decreases ids.len(),
{
    if ids.len() == 0 {
        Seq::empty()
    } else {
        let rest = resolve_ids(ids.drop_last(), feed);
        if has_tweet(feed, ids.last()) {
            rest.push(feed[first_idx(feed, ids.last())])
        } else {
            rest
        }
    }
}

/// What one account's profile looks like after `k` copies of a new tweet id
/// landed in its public feed.  With `k == 0` the account is untouched; it
/// may then be absent.  With `k > 0` the profile exists, read as blank if it
/// was absent, and only its public timeline grew.
pub open spec fn feed_extended(
    pre: Map<AccountId, UserView>,
    post: Map<AccountId, UserView>,
    a: AccountId,
    id: u32,
    k: nat,
) -> bool {
    if k == 0 {
        &&& post.contains_key(a) == pre.contains_key(a)
        &&& pre.contains_key(a) ==> post[a] == pre[a]
    } else {
        &&& post.contains_key(a)
        &&& post[a] == profile_in(pre, a).with_feed_entries(id, k)
    }
}

/// The whole transition of a successful post: the tweet appended to the
/// store, the author's home and public timelines extended by its id, and
/// the id fanned into the public timeline of every follower, once per
/// occurrence in the author's follower list.
pub open spec fn store_tweet_post(
    pre: Pallet,
    post: Pallet,
    caller: AccountId,
    data: TweetView,
) -> bool {
    &&& post.feed() == pre.feed().push(data)
    &&& post.accounts().contains_key(caller)
    &&& post.accounts()[caller] == pre.profile_of(caller).with_post(data.id)
    &&& forall|a: AccountId|
        a != caller ==> #[trigger] feed_extended(
            pre.accounts(),
            post.accounts(),
            a,
            data.id,
            occurrences(pre.profile_of(caller).followers, a),
        )
}

/// Resolves a list of tweet ids against the tweet store.
fn resolve(ids: &Vec<u32>, tweets: &Vec<Tweet>) -> (r: Vec<Tweet>)
    ensures
        r.deep_view() == resolve_ids(ids@, tweets.deep_view()),
{
    let ghost feed = tweets.deep_view();
    let mut r: Vec<Tweet> = Vec::new();
    let n = ids.len();
    let mut k: usize = 0;
    while k < n
        invariant
            k <= n,
            n == ids@.len(),
            feed == tweets.deep_view(),
            r.deep_view() == resolve_ids(ids@.take(k as int), feed),
        decreases n - k,
    {
        let ghost prefix = ids@.take(k as int);
        proof {
            assert(ids@.take(k as int + 1).drop_last() =~= prefix);
            assert(ids@.take(k as int + 1).last() == ids@[k as int]);
        }
        match find_tweet(tweets, ids[k]) {
            Some(i) => {
                let t = tweets[i].clone();
                proof {
                    lemma_first_idx_agrees(feed, ids@[k as int], i as int);
                }
                r.push(t);
                proof {
                    assert(r.deep_view() =~= resolve_ids(ids@.take(k as int + 1), feed));
                }
            },
            None => {
                proof {
                    assert(r.deep_view() == resolve_ids(ids@.take(k as int + 1), feed));
                }
            },
        }
        k += 1;
    }
    proof {
        assert(ids@.take(n as int) =~= ids@);
    }
    r
}

impl Pallet {
    /// Reads the caller's home timeline: the tweets the caller authored,
    /// resolved against the store in timeline order, ids with no surviving
    /// tweet skipped.  The resolved list travels in the returned event.
    pub fn get_home_time_line(&self, caller: AccountId) -> (ev: Event)
        ensures
            ev matches Event::UserTimeLine(ts, who) && who == caller && ts.deep_view()
                == resolve_ids(self.profile_of(caller).home_time_line, self.feed()),
    {
        let user = self.get_user(caller);
        let tweets = resolve(&user.home_time_line, &self.tweets);
        Event::UserTimeLine(tweets, caller)
    }

    /// Reads the caller's public timeline: own tweets and those of followed
    /// authors, resolved like the home timeline.
    pub fn get_public_time_line(&self, caller: AccountId) -> (ev: Event)
        ensures
            ev matches Event::UserTimeLine(ts, who) && who == caller && ts.deep_view()
                == resolve_ids(self.profile_of(caller).public_time_line, self.feed()),
    {
        let user = self.get_user(caller);
        let tweets = resolve(&user.public_time_line, &self.tweets);
        Event::UserTimeLine(tweets, caller)
    }

    /// Reads the caller's bookmarks.  The first component is the list of
    /// current tweet snapshots the bookmark ids resolve to; the event keeps
    /// the raw id list, as observers expect it.
    pub fn get_bookmarked_tweets(&self, caller: AccountId) -> (r: (Vec<Tweet>, Event))
        ensures
            r.0.deep_view() == resolve_ids(self.profile_of(caller).bookmark, self.feed()),
            r.1 matches Event::UserBookmarkedTweets(ids, who) && who == caller && ids@
                == self.profile_of(caller).bookmark,
    {
        let user = self.get_user(caller);
        let resolved = resolve(&user.bookmark, &self.tweets);
        (resolved, Event::UserBookmarkedTweets(user.bookmark, caller))
    }

    /// Posts a tweet: appends it to the store, puts its id into the
    /// caller's home and public timelines, and into the public timeline of
    /// every account in the caller's follower list (fan-out-on-write).  The
    /// caller must keep ids unique; the store does not check them.
    pub fn store_tweet(&mut self, caller: AccountId, data: Tweet) -> (ev: Event)
        ensures
            store_tweet_post(*old(self), *final(self), caller, data.deep_view()),
            ev matches Event::TweetStored(t, who) && who == caller && t.deep_view()
                == data.deep_view(),
    {
        let ghost pre = *old(self);
        let mut user = self.get_user(caller);
        user.home_time_line.push(data.id);
        user.public_time_line.push(data.id);
        proof {
            assert(user.deep_view() =~= pre.profile_of(caller).with_post(data.id));
        }
        let ghost fl = pre.profile_of(caller).followers;
        let nf = user.followers.len();
        let mut i: usize = 0;
        while i < nf
            invariant
                i <= nf,
                nf == fl.len(),
                user.followers@ == fl,
                user.deep_view() == pre.profile_of(caller).with_post(data.id),
                self.tweets == pre.tweets,
                forall|a: AccountId|
                    a != caller ==> #[trigger] feed_extended(
                        pre.accounts(),
                        self.accounts(),
                        a,
                        data.id,
                        occurrences(fl.take(i as int), a),
                    ),
            decreases nf - i,
        {
            let f = user.followers[i];
            let ghost mid = self.accounts();
            let mut fuser = self.get_user(f);
            fuser.public_time_line.push(data.id);
            self.put_user(f, fuser);
            proof {
                assert(fl.take(i as int + 1).drop_last() =~= fl.take(i as int));
                assert(fl.take(i as int + 1).last() == f);
                assert forall|a: AccountId| a != caller implies #[trigger] feed_extended(
                    pre.accounts(),
                    self.accounts(),
                    a,
                    data.id,
                    occurrences(fl.take(i as int + 1), a),
                ) by {
                    let k0 = occurrences(fl.take(i as int), a);
                    assert(feed_extended(pre.accounts(), mid, a, data.id, k0));
                    if a != f {
                        assert(occurrences(fl.take(i as int + 1), a) == k0);
                        assert(self.accounts()[a] == mid[a] || !mid.contains_key(a));
                    } else {
                        assert(occurrences(fl.take(i as int + 1), a) == k0 + 1);
                        assert(fuser.deep_view() =~= profile_in(pre.accounts(), a)
                            .with_feed_entries(data.id, (k0 + 1) as nat));
                    }
                }
            }
            i += 1;
        }
        let ghost loop_end = self.accounts();
        proof {
            assert(fl.take(nf as int) =~= fl);
        }
        self.put_user(caller, user);
        let t = data.clone();
        self.tweets.push(data);
        proof {
            assert(self.feed() =~= pre.feed().push(data.deep_view()));
            assert forall|a: AccountId| a != caller implies #[trigger] feed_extended(
                pre.accounts(),
                self.accounts(),
                a,
                data.id,
                occurrences(fl, a),
            ) by {
                assert(feed_extended(pre.accounts(), loop_end, a, data.id, occurrences(
                    fl.take(nf as int),
                    a,
                )));
                assert(occurrences(fl.take(nf as int), a) == occurrences(fl, a));
                assert(self.accounts().contains_key(a) == loop_end.contains_key(a));
                assert(loop_end.contains_key(a) ==> self.accounts()[a] == loop_end[a]);
            }
        }
        Event::TweetStored(t, caller)
    }
}

} // verus!
