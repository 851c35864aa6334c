//! Unit tags of specific endpoint areas, each knowing its declared
//! textual name — the token the value encoder produces for it.

use vstd::prelude::*;

verus! {

/// The kind of item a comment or certification request is about.
#[derive(Debug, Copy, Clone, Eq, PartialEq, Hash, Structural)]
pub enum Type {
    Movies,
    Shows,
}

impl Type {
    /// The declared textual name of the tag.
    pub fn tag(&self) -> (r: &'static str)
        ensures
            r@ == match *self {
                Type::Movies => "movies"@,
                Type::Shows => "shows"@,
            },
    {
        match self {
            Type::Movies => "movies",
            Type::Shows => "shows",
        }
    }
}

/// How a movie was first released.
#[derive(Debug, Copy, Clone, Eq, PartialEq, Hash, Structural)]
pub enum ReleaseType {
    Unknown,
    Premiere,
    Limited,
    Theatrical,
    Digital,
    Physical,
    TV,
}

impl ReleaseType {
    /// The declared textual name of the tag.
    pub fn tag(&self) -> (r: &'static str)
        ensures
            r@ == match *self {
                ReleaseType::Unknown => "unknown"@,
                ReleaseType::Premiere => "premiere"@,
                ReleaseType::Limited => "limited"@,
                ReleaseType::Theatrical => "theatrical"@,
                ReleaseType::Digital => "digital"@,
                ReleaseType::Physical => "physical"@,
                ReleaseType::TV => "tv"@,
            },
    {
        match self {
            ReleaseType::Unknown => "unknown",
            ReleaseType::Premiere => "premiere",
            ReleaseType::Limited => "limited",
            ReleaseType::Theatrical => "theatrical",
            ReleaseType::Digital => "digital",
            ReleaseType::Physical => "physical",
            ReleaseType::TV => "tv",
        }
    }
}

/// What a playback scrobble reports.
#[derive(Debug, Copy, Clone, Eq, PartialEq, Structural)]
pub enum Action {
    Start,
    Pause,
    Scrobble,
}

impl Action {
    /// The declared textual name of the tag.
    pub fn tag(&self) -> (r: &'static str)
        ensures
            r@ == match *self {
                Action::Start => "start"@,
                Action::Pause => "pause"@,
                Action::Scrobble => "scrobble"@,
            },
    {
        match self {
            Action::Start => "start",
            Action::Pause => "pause",
            Action::Scrobble => "scrobble",
        }
    }
}

/// The kind of item checked into or scrobbled.
#[derive(Debug, Copy, Clone, Eq, PartialEq, Hash, Structural)]
pub enum CheckinItemType {
    Movie,
    Episode,
}

impl CheckinItemType {
    /// The declared textual name of the tag.
    pub fn tag(&self) -> (r: &'static str)
        ensures
            r@ == match *self {
                CheckinItemType::Movie => "movie"@,
                CheckinItemType::Episode => "episode"@,
            },
    {
        match self {
            CheckinItemType::Movie => "movie",
            CheckinItemType::Episode => "episode",
        }
    }
}

} // verus!
