//! Standard media objects: the leaf types that request records carry.
//!
//! The enumerated tags know their declared textual name, the token the
//! value encoder uses for them; identifiers know the [`Value`] they encode
//! as in a URL path.

use vstd::prelude::*;
use vstd::string::StringSliceAdditionalSpecFns;

use crate::value::Value;

verus! {

/// 2-letter country code.
pub type Country = TwoLetter;

/// 2-letter language code.
pub type Language = TwoLetter;

/// A 2-letter code.
#[derive(Debug, Copy, Clone, Eq, PartialEq, Ord, PartialOrd, Hash)]
pub struct TwoLetter([u8; 2]);

impl View for TwoLetter {
    type V = Seq<u8>;

    closed spec fn view(&self) -> Seq<u8> {
        self.0@
    }
}

impl TwoLetter {
    /// The code made of the two bytes of a 2-character ASCII text.
    pub fn new(code: &str) -> (r: Self)
        requires
            code.spec_bytes().len() == 2,
        ensures
            r@ == code.spec_bytes(),
    {
        let bytes = code.as_bytes();
        let r = TwoLetter([bytes[0], bytes[1]]);
        proof {
            assert(r@ =~= code.spec_bytes());
        }
        r
    }

    /// The two bytes of the code.
    pub fn bytes(&self) -> (r: [u8; 2])
        ensures
            r@ == self@,
    {
        self.0
    }
}

/// A single identifier of a show, movie, season, episode, or person.
#[derive(Debug, Clone, Eq, PartialEq, Ord, PartialOrd, Hash)]
pub enum Id {
    Trakt(u64),
    Slug(String),
    Tvdb(u64),
    Imdb(String),
    Tmdb(u64),
}

impl Id {
    /// The value that the identifier substitutes into a URL path.
    pub fn to_value(&self) -> (r: Value)
        ensures
            match *self {
                Id::Trakt(n) => r == Value::U64(n),
                Id::Tvdb(n) => r == Value::U64(n),
                Id::Tmdb(n) => r == Value::U64(n),
                Id::Slug(ref s) => r matches Value::Text(t) && t@ == s@,
                Id::Imdb(ref s) => r matches Value::Text(t) && t@ == s@,
            },
    {
        match self {
            Id::Trakt(n) => Value::U64(*n),
            Id::Tvdb(n) => Value::U64(*n),
            Id::Tmdb(n) => Value::U64(*n),
            Id::Slug(s) => Value::Text(s.clone()),
            Id::Imdb(s) => Value::Text(s.clone()),
        }
    }
}

/// The full identifier record of an item, every service's identifier
/// optional.
#[derive(Debug, Clone, Eq, PartialEq, Hash)]
pub struct Ids {
    pub trakt: Option<u64>,
    pub slug: Option<String>,
    pub tvdb: Option<u64>,
    pub imdb: Option<String>,
    pub tmdb: Option<u64>,
}

impl Default for Ids {
    /// The record with every identifier absent.
    fn default() -> (r: Self)
        ensures
            r.trakt is None && r.slug is None && r.tvdb is None && r.imdb is None && r.tmdb
                is None,
    {
        Ids { trakt: None, slug: None, tvdb: None, imdb: None, tmdb: None }
    }
}

impl From<Id> for Ids {
    /// The record holding the one identifier given.
    fn from(value: Id) -> (r: Self) {
        let mut ret = Ids { trakt: None, slug: None, tvdb: None, imdb: None, tmdb: None };
        match value {
            Id::Trakt(trakt) => ret.trakt = Some(trakt),
            Id::Slug(slug) => ret.slug = Some(slug),
            Id::Tvdb(tvdb) => ret.tvdb = Some(tvdb),
            Id::Imdb(imdb) => ret.imdb = Some(imdb),
            Id::Tmdb(tmdb) => ret.tmdb = Some(tmdb),
        }
        ret
    }
}

impl vstd::std_specs::convert::FromSpecImpl<Id> for Ids {
    open spec fn obeys_from_spec() -> bool {
        true
    }

    open spec fn from_spec(value: Id) -> Self {
        match value {
            Id::Trakt(trakt) => Ids {
                trakt: Some(trakt),
                slug: None,
                tvdb: None,
                imdb: None,
                tmdb: None,
            },
            Id::Slug(slug) => Ids {
                trakt: None,
                slug: Some(slug),
                tvdb: None,
                imdb: None,
                tmdb: None,
            },
            Id::Tvdb(tvdb) => Ids {
                trakt: None,
                slug: None,
                tvdb: Some(tvdb),
                imdb: None,
                tmdb: None,
            },
            Id::Imdb(imdb) => Ids {
                trakt: None,
                slug: None,
                tvdb: None,
                imdb: Some(imdb),
                tmdb: None,
            },
            Id::Tmdb(tmdb) => Ids {
                trakt: None,
                slug: None,
                tvdb: None,
                imdb: None,
                tmdb: Some(tmdb),
            },
        }
    }
}

/// A reporting period.
#[derive(Debug, Copy, Clone, Ord, PartialOrd, Eq, PartialEq, Hash, Default, Structural)]
pub enum Period {
    Daily,
    #[default]
    Weekly,
    Monthly,
    Yearly,
    All,
}

impl Period {
    /// The declared textual name of the tag.
    pub fn tag(&self) -> (r: &'static str)
        ensures
            r@ == match *self {
                Period::Daily => "daily"@,
                Period::Weekly => "weekly"@,
                Period::Monthly => "monthly"@,
                Period::Yearly => "yearly"@,
                Period::All => "all"@,
            },
    {
        match self {
            Period::Daily => "daily",
            Period::Weekly => "weekly",
            Period::Monthly => "monthly",
            Period::Yearly => "yearly",
            Period::All => "all",
        }
    }
}

/// An ordering of comments or list items.
#[derive(Debug, Copy, Clone, Eq, PartialEq, Hash, Default, Structural)]
pub enum Sort {
    #[default]
    Newest,
    Oldest,
    Likes,
    Replies,
    Highest,
    Lowest,
    Plays,
}

impl Sort {
    /// The declared textual name of the tag.
    pub fn tag(&self) -> (r: &'static str)
        ensures
            r@ == match *self {
                Sort::Newest => "newest"@,
                Sort::Oldest => "oldest"@,
                Sort::Likes => "likes"@,
                Sort::Replies => "replies"@,
                Sort::Highest => "highest"@,
                Sort::Lowest => "lowest"@,
                Sort::Plays => "plays"@,
            },
    {
        match self {
            Sort::Newest => "newest",
            Sort::Oldest => "oldest",
            Sort::Likes => "likes",
            Sort::Replies => "replies",
            Sort::Highest => "highest",
            Sort::Lowest => "lowest",
            Sort::Plays => "plays",
        }
    }
}

/// Statistics of the commenting user.
#[derive(Debug, Clone, Eq, PartialEq, Hash, Structural)]
pub struct UserStats {
    pub rating: u8,
    pub play_count: u32,
    pub completed_count: u32,
}

/// The kind of a list.
#[derive(Debug, Copy, Clone, Eq, PartialEq, Hash, Structural)]
pub enum ListType {
    Personal,
    Official,
    Watchlist,
    Favorites,
}

impl ListType {
    /// The declared textual name of the tag.
    pub fn tag(&self) -> (r: &'static str)
        ensures
            r@ == match *self {
                ListType::Personal => "personal"@,
                ListType::Official => "official"@,
                ListType::Watchlist => "watchlist"@,
                ListType::Favorites => "favorites"@,
            },
    {
        match self {
            ListType::Personal => "personal",
            ListType::Official => "official",
            ListType::Watchlist => "watchlist",
            ListType::Favorites => "favorites",
        }
    }
}

/// The key a list is sorted by.
#[derive(Debug, Copy, Clone, Eq, PartialEq, Hash, Structural)]
pub enum ListSortBy {
    Rank,
    Added,
    Title,
    Released,
    Runtime,
    Popularity,
    Percentage,
    Votes,
    MyRating,
    Random,
    Watched,
    Collected,
}

impl ListSortBy {
    /// The declared textual name of the tag.
    pub fn tag(&self) -> (r: &'static str)
        ensures
            r@ == match *self {
                ListSortBy::Rank => "rank"@,
                ListSortBy::Added => "added"@,
                ListSortBy::Title => "title"@,
                ListSortBy::Released => "released"@,
                ListSortBy::Runtime => "runtime"@,
                ListSortBy::Popularity => "popularity"@,
                ListSortBy::Percentage => "percentage"@,
                ListSortBy::Votes => "votes"@,
                ListSortBy::MyRating => "my_rating"@,
                ListSortBy::Random => "random"@,
                ListSortBy::Watched => "watched"@,
                ListSortBy::Collected => "collected"@,
            },
    {
        match self {
            ListSortBy::Rank => "rank",
            ListSortBy::Added => "added",
            ListSortBy::Title => "title",
            ListSortBy::Released => "released",
            ListSortBy::Runtime => "runtime",
            ListSortBy::Popularity => "popularity",
            ListSortBy::Percentage => "percentage",
            ListSortBy::Votes => "votes",
            ListSortBy::MyRating => "my_rating",
            ListSortBy::Random => "random",
            ListSortBy::Watched => "watched",
            ListSortBy::Collected => "collected",
        }
    }
}

/// The direction a list is sorted in.
#[derive(Debug, Copy, Clone, Eq, PartialEq, Hash, Structural)]
pub enum ListSortHow {
    Asc,
    Desc,
}

impl ListSortHow {
    /// The declared textual name of the tag.
    pub fn tag(&self) -> (r: &'static str)
        ensures
            r@ == match *self {
                ListSortHow::Asc => "asc"@,
                ListSortHow::Desc => "desc"@,
            },
    {
        match self {
            ListSortHow::Asc => "asc",
            ListSortHow::Desc => "desc",
        }
    }
}

/// Who may see a list.
#[derive(Debug, Copy, Clone, Eq, PartialEq, Hash, Default, Structural)]
pub enum ListPrivacy {
    #[default]
    Private,
    Link,
    Friends,
    Public,
}

impl ListPrivacy {
    /// The declared textual name of the tag.
    pub fn tag(&self) -> (r: &'static str)
        ensures
            r@ == match *self {
                ListPrivacy::Private => "private"@,
                ListPrivacy::Link => "link"@,
                ListPrivacy::Friends => "friends"@,
                ListPrivacy::Public => "public"@,
            },
    {
        match self {
            ListPrivacy::Private => "private",
            ListPrivacy::Link => "link",
            ListPrivacy::Friends => "friends",
            ListPrivacy::Public => "public",
        }
    }
}

/// The distribution of ratings from one to ten.
#[derive(Debug, Clone, Eq, PartialEq, Hash)]
pub struct Distribution(pub [u32; 10]);

/// Where a comment is shared.
#[derive(Debug, Copy, Clone, Eq, PartialEq, Hash, Default, Structural)]
pub struct Sharing {
    pub twitter: bool,
    pub mastodon: bool,
    pub tumblr: bool,
}

/// The kind of comments asked for.
#[derive(Debug, Copy, Clone, Eq, PartialEq, Hash, Default, Structural)]
pub enum CommentType {
    #[default]
    All,
    Reviews,
    Shouts,
}

impl CommentType {
    /// The declared textual name of the tag.
    pub fn tag(&self) -> (r: &'static str)
        ensures
            r@ == match *self {
                CommentType::All => "all"@,
                CommentType::Reviews => "reviews"@,
                CommentType::Shouts => "shouts"@,
            },
    {
        match self {
            CommentType::All => "all",
            CommentType::Reviews => "reviews",
            CommentType::Shouts => "shouts",
        }
    }
}

/// The kind of item whose comments are asked for.
#[derive(Debug, Copy, Clone, Eq, PartialEq, Hash, Default, Structural)]
pub enum CommentItemType {
    #[default]
    All,
    Movies,
    Shows,
    Seasons,
    Episodes,
    Lists,
}

impl CommentItemType {
    /// The declared textual name of the tag.
    pub fn tag(&self) -> (r: &'static str)
        ensures
            r@ == match *self {
                CommentItemType::All => "all"@,
                CommentItemType::Movies => "movies"@,
                CommentItemType::Shows => "shows"@,
                CommentItemType::Seasons => "seasons"@,
                CommentItemType::Episodes => "episodes"@,
                CommentItemType::Lists => "lists"@,
            },
    {
        match self {
            CommentItemType::All => "all",
            CommentItemType::Movies => "movies",
            CommentItemType::Shows => "shows",
            CommentItemType::Seasons => "seasons",
            CommentItemType::Episodes => "episodes",
            CommentItemType::Lists => "lists",
        }
    }
}

} // verus!
