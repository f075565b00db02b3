//! Posting, fan-out and timeline reads.

use microblog::pallet::Pallet;
use microblog::types::{Event, Tweet, User};

fn tweet(id: u32, author: u64, tag: &[u8]) -> Tweet {
    let mut t = Tweet::default();
    t.id = id;
    t.account_id = Some(author);
    t.tag = tag.to_vec();
    t
}

fn timeline_ids(ev: Event) -> (Vec<u32>, u64) {
    match ev {
        Event::UserTimeLine(ts, who) => (ts.iter().map(|t| t.id).collect(), who),
        _ => panic!("wrong event"),
    }
}

#[test]
fn lone_author_sees_own_tweet_in_both_timelines() {
    let mut p = Pallet::new();
    let ev = p.store_tweet(1, tweet(1, 1, b"sports"));
    match ev {
        Event::TweetStored(t, who) => {
            assert_eq!(t.id, 1);
            assert_eq!(who, 1);
        }
        _ => panic!("wrong event"),
    }
    let (home, who) = timeline_ids(p.get_home_time_line(1));
    assert_eq!(home, vec![1]);
    assert_eq!(who, 1);
    let (public, _) = timeline_ids(p.get_public_time_line(1));
    assert_eq!(public, vec![1]);
}

#[test]
fn follower_receives_post_in_public_timeline() {
    let mut p = Pallet::new();
    let mut a = User::default();
    a.followers = vec![2];
    p.store_user(1, a);
    p.store_tweet(1, tweet(2, 1, b"x"));
    let (b_public, _) = timeline_ids(p.get_public_time_line(2));
    assert_eq!(b_public, vec![2], "B sees A's tweet without posting");
    let (b_home, _) = timeline_ids(p.get_home_time_line(2));
    assert!(b_home.is_empty(), "B authored nothing");
}

#[test]
fn non_follower_timelines_are_unchanged() {
    let mut p = Pallet::new();
    let mut a = User::default();
    a.followers = vec![2];
    p.store_user(1, a);
    p.store_tweet(1, tweet(5, 1, b"x"));
    let (c_public, _) = timeline_ids(p.get_public_time_line(3));
    assert!(c_public.is_empty());
    let reader = p.get_user(3);
    assert!(reader.public_time_line.is_empty());
}

#[test]
fn fan_out_reaches_every_listed_follower() {
    let mut p = Pallet::new();
    let mut a = User::default();
    a.followers = vec![2, 3, 4];
    p.store_user(1, a);
    p.store_tweet(1, tweet(9, 1, b"x"));
    for follower in [2u64, 3, 4] {
        let (public, _) = timeline_ids(p.get_public_time_line(follower));
        assert_eq!(public, vec![9]);
    }
}

#[test]
fn timelines_keep_arrival_order_and_skip_missing_ids() {
    let mut p = Pallet::new();
    p.store_tweet(1, tweet(1, 1, b"a"));
    p.store_tweet(1, tweet(2, 1, b"b"));
    let mut u = p.get_user(1);
    u.home_time_line.insert(1, 1000);
    p.store_user(1, u);
    let (home, _) = timeline_ids(p.get_home_time_line(1));
    assert_eq!(home, vec![1, 2], "order kept, unknown id skipped");
}

#[test]
fn duplicate_ids_resolve_to_the_first_stored_tweet() {
    let mut p = Pallet::new();
    p.store_tweet(1, tweet(1, 1, b"first"));
    p.store_tweet(1, tweet(1, 1, b"second"));
    match p.get_home_time_line(1) {
        Event::UserTimeLine(ts, _) => {
            assert_eq!(ts.len(), 2, "both timeline entries resolve");
            assert_eq!(ts[0].tag, b"first".to_vec());
            assert_eq!(ts[1].tag, b"first".to_vec(), "lookup always hits the first match");
        }
        _ => panic!("wrong event"),
    }
}
