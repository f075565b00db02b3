//! Profile registration, default reads and bookmarks.

use microblog::pallet::Pallet;
use microblog::types::{Comment, Event, LatLong, Tweet, User};

fn tweet(id: u32, author: u64, tag: &[u8]) -> Tweet {
    let mut t = Tweet::default();
    t.id = id;
    t.account_id = Some(author);
    t.tag = tag.to_vec();
    t
}

#[test]
fn absent_account_reads_blank_profile() {
    let p = Pallet::new();
    let u = p.get_user(42);
    assert!(u.name.is_empty());
    assert_eq!(u.age, 0);
    assert!(u.followers.is_empty());
    assert!(u.bookmark.is_empty());
    assert!(u.home_time_line.is_empty());
    assert!(u.public_time_line.is_empty());
}

#[test]
fn store_user_is_total_overwrite() {
    let mut p = Pallet::new();
    let mut first = User::default();
    first.name = b"alice".to_vec();
    first.age = 30;
    first.bookmark = vec![1, 2, 3];
    let ev = p.store_user(7, first);
    match ev {
        Event::UserStored(stored, who) => {
            assert_eq!(who, 7);
            assert_eq!(stored.name, b"alice".to_vec());
        }
        _ => panic!("wrong event"),
    }
    let mut second = User::default();
    second.name = b"alice2".to_vec();
    p.store_user(7, second);
    let read = p.get_user(7);
    assert_eq!(read.name, b"alice2".to_vec());
    assert_eq!(read.age, 0);
    assert!(read.bookmark.is_empty(), "no merge with the prior profile");
}

#[test]
fn bookmark_appends_without_any_check() {
    let mut p = Pallet::new();
    let ev = p.bookmark_a_tweet(5, 99);
    match ev {
        Event::UserBookmarkedTweet(id, who) => {
            assert_eq!(id, 99);
            assert_eq!(who, 5);
        }
        _ => panic!("wrong event"),
    }
    p.bookmark_a_tweet(5, 99);
    let read = p.get_user(5);
    assert_eq!(read.bookmark, vec![99, 99], "duplicates are kept");
}

#[test]
fn bookmarked_event_carries_raw_ids() {
    let mut p = Pallet::new();
    p.store_tweet(1, tweet(10, 1, b"a"));
    p.bookmark_a_tweet(2, 10);
    p.bookmark_a_tweet(2, 777);
    let (resolved, ev) = p.get_bookmarked_tweets(2);
    assert_eq!(resolved.len(), 1, "the unknown id resolves to nothing");
    assert_eq!(resolved[0].id, 10);
    match ev {
        Event::UserBookmarkedTweets(ids, who) => {
            assert_eq!(ids, vec![10, 777]);
            assert_eq!(who, 2);
        }
        _ => panic!("wrong event"),
    }
}

#[test]
fn nested_values_survive_storage_and_interactions() {
    let mut p = Pallet::new();
    let mut u = User::default();
    u.address.city = b"lisbon".to_vec();
    u.address.location = LatLong { lat: 9, long: 38 };
    p.store_user(1, u);
    let read = p.get_user(1);
    assert_eq!(read.address.city, b"lisbon".to_vec());
    assert_eq!(read.address.location, LatLong { lat: 9, long: 38 });

    let mut t = Tweet::default();
    t.id = 1;
    t.comments.push(Comment { account_id: Some(3), comment: b"nice".to_vec() });
    p.store_tweet(1, t);
    p.like_a_tweet(2, 1).unwrap();
    assert_eq!(p.tweets[0].comments.len(), 1);
    assert_eq!(p.tweets[0].comments[0].comment, b"nice".to_vec());
    assert_eq!(p.tweets[0].comments[0].account_id, Some(3));
}

#[test]
fn bookmarks_resolve_to_current_snapshots() {
    let mut p = Pallet::new();
    p.store_tweet(1, tweet(1, 1, b"x"));
    p.bookmark_a_tweet(4, 1);
    p.like_a_tweet(9, 1).unwrap();
    let (resolved, _) = p.get_bookmarked_tweets(4);
    assert_eq!(resolved.len(), 1);
    assert_eq!(resolved[0].id, 1);
    assert_eq!(resolved[0].likes, 1, "the snapshot reflects likes applied since");
    assert_eq!(resolved[0].user_liked_tweet, vec![9]);
}
