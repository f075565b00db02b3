//! The data model: profiles, tweets and their parts, events and errors.
//!
//! Each executable type with sequence-valued fields has a deep view, a ghost
//! struct over `Seq` that the contracts of the whole crate speak about.

use vstd::prelude::*;

verus! {

/// The identity of an account, as the host's authentication layer hands it
/// over.  The store never interprets it; it is only compared for equality.
pub type AccountId = u64;

/// A point on the globe, stored as two raw coordinates.
#[derive(PartialEq, Eq, Structural, Clone, Copy, Debug)]
pub struct LatLong {
    pub lat: u32,
    pub long: u32,
}

impl Default for LatLong {
    fn default() -> (r: Self)
        ensures
            r == (LatLong { lat: 0, long: 0 }),
    {
        LatLong { lat: 0, long: 0 }
    }
}

/// A comment attached to a tweet.  It has no life of its own: it is owned by
/// the tweet that holds it.
#[derive(Debug)]
pub struct Comment {
    pub account_id: Option<AccountId>,
    pub comment: Vec<u8>,
}

/// The deep view of a [`Comment`].
#[verifier::ext_equal]
pub ghost struct CommentView {
    pub account_id: Option<AccountId>,
    pub comment: Seq<u8>,
}

impl DeepView for Comment {
    type V = CommentView;

    open spec fn deep_view(&self) -> CommentView {
        CommentView { account_id: self.account_id, comment: self.comment@ }
    }
}

impl Clone for Comment {
    fn clone(&self) -> (r: Self)
        ensures
            r.deep_view() == self.deep_view(),
    {
        let r = Comment { account_id: self.account_id, comment: self.comment.clone() };
        proof {
            assert(r.deep_view() =~= self.deep_view());
        }
        r
    }
}

impl Default for Comment {
    fn default() -> (r: Self)
        ensures
            r.deep_view() == (CommentView { account_id: None, comment: Seq::empty() }),
    {
        let r = Comment { account_id: None, comment: Vec::new() };
        proof {
            assert(r.deep_view() =~= CommentView { account_id: None, comment: Seq::empty() });
        }
        r
    }
}

/// A postal address owned by exactly one profile.
#[derive(Debug)]
pub struct Address {
    pub address_line_1: Vec<u8>,
    pub address_line_2: Vec<u8>,
    pub google_place_id: Vec<u8>,
    pub city: Vec<u8>,
    pub state: Vec<u8>,
    pub country: Vec<u8>,
    pub location: LatLong,
}

/// The deep view of an [`Address`].
#[verifier::ext_equal]
pub ghost struct AddressView {
    pub address_line_1: Seq<u8>,
    pub address_line_2: Seq<u8>,
    pub google_place_id: Seq<u8>,
    pub city: Seq<u8>,
    pub state: Seq<u8>,
    pub country: Seq<u8>,
    pub location: LatLong,
}

impl AddressView {
    /// The view of a freshly created address: all lines empty, origin location.
    pub open spec fn blank() -> AddressView {
        AddressView {
            address_line_1: Seq::empty(),
            address_line_2: Seq::empty(),
            google_place_id: Seq::empty(),
            city: Seq::empty(),
            state: Seq::empty(),
            country: Seq::empty(),
            location: LatLong { lat: 0, long: 0 },
        }
    }
}

impl DeepView for Address {
    type V = AddressView;

    open spec fn deep_view(&self) -> AddressView {
        AddressView {
            address_line_1: self.address_line_1@,
            address_line_2: self.address_line_2@,
            google_place_id: self.google_place_id@,
            city: self.city@,
            state: self.state@,
            country: self.country@,
            location: self.location,
        }
    }
}

impl Clone for Address {
    fn clone(&self) -> (r: Self)
        ensures
            r.deep_view() == self.deep_view(),
    {
        let r = Address {
            address_line_1: self.address_line_1.clone(),
            address_line_2: self.address_line_2.clone(),
            google_place_id: self.google_place_id.clone(),
            city: self.city.clone(),
            state: self.state.clone(),
            country: self.country.clone(),
            location: self.location,
        };
        proof {
            assert(r.deep_view() =~= self.deep_view());
        }
        r
    }
}

impl Default for Address {
    fn default() -> (r: Self)
        ensures
            r.deep_view() == AddressView::blank(),
    {
        let r = Address {
            address_line_1: Vec::new(),
            address_line_2: Vec::new(),
            google_place_id: Vec::new(),
            city: Vec::new(),
            state: Vec::new(),
            country: Vec::new(),
            location: LatLong { lat: 0, long: 0 },
        };
        proof {
            assert(r.deep_view() =~= AddressView::blank());
        }
        r
    }
}

/// A user profile: identity data plus the follower graph, the bookmark list
/// and the two timelines (lists of tweet ids).
///
/// `home_time_line` holds the ids of tweets this profile authored;
/// `public_time_line` holds the ids of tweets this profile should see (its
/// own and those of authors it follows), in arrival order, never deduplicated
/// and never pruned.
#[derive(Debug)]
pub struct User {
    pub name: Vec<u8>,
    pub age: u8,
    pub image: Vec<u8>,
    pub about: Vec<u8>,
    pub tag: Vec<u8>,
    pub address: Address,
    pub followers: Vec<AccountId>,
    pub following: Vec<AccountId>,
    pub bookmark: Vec<u32>,
    pub home_time_line: Vec<u32>,
    pub public_time_line: Vec<u32>,
}

/// The deep view of a [`User`].
#[verifier::ext_equal]
pub ghost struct UserView {
    pub name: Seq<u8>,
    pub age: u8,
    pub image: Seq<u8>,
    pub about: Seq<u8>,
    pub tag: Seq<u8>,
    pub address: AddressView,
    pub followers: Seq<AccountId>,
    pub following: Seq<AccountId>,
    pub bookmark: Seq<u32>,
    pub home_time_line: Seq<u32>,
    pub public_time_line: Seq<u32>,
}

impl UserView {
    /// The view of a freshly created profile: everything empty.  An account
    /// that never stored a profile reads back as this.
    pub open spec fn blank() -> UserView {
        UserView {
            name: Seq::empty(),
            age: 0,
            image: Seq::empty(),
            about: Seq::empty(),
            tag: Seq::empty(),
            address: AddressView::blank(),
            followers: Seq::empty(),
            following: Seq::empty(),
            bookmark: Seq::empty(),
            home_time_line: Seq::empty(),
            public_time_line: Seq::empty(),
        }
    }

    /// This profile with `id` appended to the home and public timelines
    /// and everything else untouched.
    pub open spec fn with_post(self, id: u32) -> UserView {
        UserView {
            home_time_line: self.home_time_line.push(id),
            public_time_line: self.public_time_line.push(id),
            ..self
        }
    }

    /// This profile with `k` copies of `id` appended to the public timeline
    /// and everything else untouched.
    pub open spec fn with_feed_entries(self, id: u32, k: nat) -> UserView {
        UserView { public_time_line: self.public_time_line + Seq::new(k, |j: int| id), ..self }
    }

    /// This profile with `id` appended to the bookmark list.
    pub open spec fn with_bookmark(self, id: u32) -> UserView {
        UserView { bookmark: self.bookmark.push(id), ..self }
    }
}

impl DeepView for User {
    type V = UserView;

    open spec fn deep_view(&self) -> UserView {
        UserView {
            name: self.name@,
            age: self.age,
            image: self.image@,
            about: self.about@,
            tag: self.tag@,
            address: self.address.deep_view(),
            followers: self.followers@,
            following: self.following@,
            bookmark: self.bookmark@,
            home_time_line: self.home_time_line@,
            public_time_line: self.public_time_line@,
        }
    }
}

impl Clone for User {
    fn clone(&self) -> (r: Self)
        ensures
            r.deep_view() == self.deep_view(),
    {
        let r = User {
            name: self.name.clone(),
            age: self.age,
            image: self.image.clone(),
            about: self.about.clone(),
            tag: self.tag.clone(),
            address: self.address.clone(),
            followers: self.followers.clone(),
            following: self.following.clone(),
            bookmark: self.bookmark.clone(),
            home_time_line: self.home_time_line.clone(),
            public_time_line: self.public_time_line.clone(),
        };
        proof {
            assert(r.deep_view() =~= self.deep_view());
        }
        r
    }
}

impl Default for User {
    fn default() -> (r: Self)
        ensures
            r.deep_view() == UserView::blank(),
    {
        let r = User {
            name: Vec::new(),
            age: 0,
            image: Vec::new(),
            about: Vec::new(),
            tag: Vec::new(),
            address: Address::default(),
            followers: Vec::new(),
            following: Vec::new(),
            bookmark: Vec::new(),
            home_time_line: Vec::new(),
            public_time_line: Vec::new(),
        };
        proof {
            assert(r.deep_view() =~= UserView::blank());
        }
        r
    }
}

/// A tweet.  `id` is supplied by the caller at creation and is the stable
/// key for every later lookup; the store does not generate or check it.
#[derive(Debug)]
pub struct Tweet {
    pub id: u32,
    pub text: Vec<u8>,
    pub image: Vec<u8>,
    pub account_id: Option<AccountId>,
    pub likes: u32,
    pub user_liked_tweet: Vec<AccountId>,
    pub comments: Vec<Comment>,
    pub tag: Vec<u8>,
}

/// The deep view of a [`Tweet`].
#[verifier::ext_equal]
pub ghost struct TweetView {
    pub id: u32,
    pub text: Seq<u8>,
    pub image: Seq<u8>,
    pub account_id: Option<AccountId>,
    pub likes: u32,
    pub user_liked_tweet: Seq<AccountId>,
    pub comments: Seq<CommentView>,
    pub tag: Seq<u8>,
}

impl TweetView {
    /// This tweet with one more like, credited to `who`.
    pub open spec fn with_like(self, who: AccountId) -> TweetView {
        TweetView {
            likes: (self.likes + 1) as u32,
            user_liked_tweet: self.user_liked_tweet.push(who),
            ..self
        }
    }

    /// This tweet with one like fewer, the entry of `who` at position `k` of
    /// the liker list removed.
    pub open spec fn with_like_removed(self, k: int) -> TweetView {
        TweetView {
            likes: (self.likes - 1) as u32,
            user_liked_tweet: self.user_liked_tweet.remove(k),
            ..self
        }
    }
}

impl DeepView for Tweet {
    type V = TweetView;

    open spec fn deep_view(&self) -> TweetView {
        TweetView {
            id: self.id,
            text: self.text@,
            image: self.image@,
            account_id: self.account_id,
            likes: self.likes,
            user_liked_tweet: self.user_liked_tweet@,
            comments: self.comments.deep_view(),
            tag: self.tag@,
        }
    }
}

impl Clone for Tweet {
    fn clone(&self) -> (r: Self)
        ensures
            r.deep_view() == self.deep_view(),
    {
        let r = Tweet {
            id: self.id,
            text: self.text.clone(),
            image: self.image.clone(),
            account_id: self.account_id,
            likes: self.likes,
            user_liked_tweet: self.user_liked_tweet.clone(),
            comments: self.comments.clone(),
            tag: self.tag.clone(),
        };
        proof {
            assert(r.comments.deep_view() =~= self.comments.deep_view());
            assert(r.deep_view() =~= self.deep_view());
        }
        r
    }
}

impl Default for Tweet {
    fn default() -> (r: Self)
        ensures
            r.deep_view() == (TweetView {
                id: 0,
                text: Seq::empty(),
                image: Seq::empty(),
                account_id: None,
                likes: 0,
                user_liked_tweet: Seq::empty(),
                comments: Seq::empty(),
                tag: Seq::empty(),
            }),
    {
        let r = Tweet {
            id: 0,
            text: Vec::new(),
            image: Vec::new(),
            account_id: None,
            likes: 0,
            user_liked_tweet: Vec::new(),
            comments: Vec::new(),
            tag: Vec::new(),
        };
        proof {
            assert(r.comments.deep_view() =~= Seq::<CommentView>::empty());
            assert(r.deep_view() =~= TweetView {
                id: 0,
                text: Seq::empty(),
                image: Seq::empty(),
                account_id: None,
                likes: 0,
                user_liked_tweet: Seq::empty(),
                comments: Seq::empty(),
                tag: Seq::empty(),
            });
        }
        r
    }
}

/// The notification that a completed operation leaves behind, consumed by an
/// external observability layer.
#[derive(Debug)]
pub enum Event {
    /// A profile was stored for the account.
    UserStored(User, AccountId),
    /// A timeline read resolved to these tweet snapshots.
    UserTimeLine(Vec<Tweet>, AccountId),
    /// A like or dislike finished, with the resulting like count.
    UserLikedATweet(u32, AccountId),
    /// A tweet id was bookmarked.
    UserBookmarkedTweet(u32, AccountId),
    /// A bookmark read finished; the payload is the raw id list.
    UserBookmarkedTweets(Vec<u32>, AccountId),
    /// A tag search resolved to these tweet snapshots.
    UserSearchTweetByTag(Vec<Tweet>, AccountId),
    /// A comment was attached to a tweet.
    UserCommentedOnTweet(Comment, AccountId),
    /// A tweet was appended to the store.
    TweetStored(Tweet, AccountId),
    /// A bare value was stored; kept for observers that expect it.
    SomethingStored(u32, AccountId),
}

/// The typed errors.  Every error leaves both stores exactly as they were.
#[derive(PartialEq, Eq, Structural, Clone, Copy, Debug)]
pub enum Error {
    /// The referenced tweet id is absent from the store.
    NotFound,
    /// A dislike was attempted by a caller that is not in the liker list.
    NotLiked,
    /// A dislike was attempted on a tweet whose like count is already zero.
    Underflow,
    /// A tag or a search fragment is not valid decodable text.
    InvalidText,
    /// A like would push the like counter past its greatest value.
    StorageOverflow,
}

} // verus!
