//! Tag search and its text-validity errors.

use microblog::pallet::Pallet;
use microblog::types::{Error, Event, Tweet};

fn tweet(id: u32, tag: &[u8]) -> Tweet {
    let mut t = Tweet::default();
    t.id = id;
    t.tag = tag.to_vec();
    t
}

fn matches(p: &Pallet, caller: u64, frag: &[u8]) -> Vec<u32> {
    match p.search_tweet_by_tag(caller, frag.to_vec()) {
        Ok(Event::UserSearchTweetByTag(ts, who)) => {
            assert_eq!(who, caller);
            ts.iter().map(|t| t.id).collect()
        }
        other => panic!("expected matches, got {:?}", other.map(|_| ()).err()),
    }
}

#[test]
fn search_returns_the_matching_subset_in_store_order() {
    let mut p = Pallet::new();
    p.store_tweet(1, tweet(1, b"daily news"));
    p.store_tweet(1, tweet(2, b"sports"));
    p.store_tweet(1, tweet(3, b"newsletter"));
    p.store_tweet(1, tweet(4, b"local news today"));
    assert_eq!(matches(&p, 9, b"news"), vec![1, 3, 4]);
}

#[test]
fn search_is_case_sensitive() {
    let mut p = Pallet::new();
    p.store_tweet(1, tweet(1, b"News"));
    assert_eq!(matches(&p, 9, b"news"), Vec::<u32>::new());
    assert_eq!(matches(&p, 9, b"News"), vec![1]);
}

#[test]
fn empty_fragment_matches_every_tweet() {
    let mut p = Pallet::new();
    p.store_tweet(1, tweet(1, b"a"));
    p.store_tweet(1, tweet(2, b""));
    assert_eq!(matches(&p, 9, b""), vec![1, 2]);
}

#[test]
fn searching_each_stored_tag_reproduces_the_store() {
    let mut p = Pallet::new();
    let tags: [&[u8]; 3] = [b"alpha", b"beta", b"alphabet"];
    for (i, tag) in tags.iter().enumerate() {
        p.store_tweet(1, tweet(i as u32 + 1, tag));
    }
    let mut seen: Vec<u32> = Vec::new();
    for tag in tags.iter() {
        for id in matches(&p, 9, tag) {
            if !seen.contains(&id) {
                seen.push(id);
            }
        }
    }
    seen.sort();
    assert_eq!(seen, vec![1, 2, 3], "every tweet is found under its own tag");
}

#[test]
fn undecodable_fragment_is_invalid_text() {
    let mut p = Pallet::new();
    p.store_tweet(1, tweet(1, b"ok"));
    let r = p.search_tweet_by_tag(9, vec![0xFF, 0x61]);
    assert!(matches_invalid(r));
}

#[test]
fn undecodable_stored_tag_is_invalid_text_not_a_skip() {
    let mut p = Pallet::new();
    p.store_tweet(1, tweet(1, b"fine"));
    p.store_tweet(1, tweet(2, &[0xC0, 0x80]));
    let r = p.search_tweet_by_tag(9, b"fine".to_vec());
    assert!(matches_invalid(r));
}

#[test]
fn multibyte_tags_match_on_whole_characters() {
    let mut p = Pallet::new();
    p.store_tweet(1, tweet(1, "café society".as_bytes()));
    assert_eq!(matches(&p, 9, "café".as_bytes()), vec![1]);
    assert_eq!(matches(&p, 9, "tea".as_bytes()), Vec::<u32>::new());
}

fn matches_invalid(r: Result<Event, Error>) -> bool {
    match r {
        Err(Error::InvalidText) => true,
        _ => false,
    }
}
