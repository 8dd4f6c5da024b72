//! The video extension: where a video is found.

use vstd::prelude::*;

use crate::attribute::location::Location;

verus! {

/// Where a video is found: its content, a player for it, or both.
#[derive(Debug, Clone, PartialEq)]
pub enum VideoUrl {
    Content(Location),
    Player(Location),
    Both(Location, Location),
}

/// A video of a page.
#[derive(Debug, Clone, PartialEq)]
pub struct Video {
    pub title: String,
    pub description: String,
    pub link: VideoUrl,
}

impl VideoUrl {
    /// The location of the content alone.
    pub fn from_content(url: Location) -> (r: Self)
        ensures
            r == VideoUrl::Content(url),
    {
        VideoUrl::Content(url)
    }

    /// The location of a player alone.
    pub fn from_player(url: Location) -> (r: Self)
        ensures
            r == VideoUrl::Player(url),
    {
        VideoUrl::Player(url)
    }

    /// The locations of content and player.
    pub fn from_both(content: Location, player: Location) -> (r: Self)
        ensures
            r == VideoUrl::Both(content, player),
    {
        VideoUrl::Both(content, player)
    }

    /// The location of the content, if there is one.
    pub fn content(self) -> (r: Option<Location>)
        ensures
            r == match self {
                VideoUrl::Content(url) => Some(url),
                VideoUrl::Player(_) => None,
                VideoUrl::Both(url, _) => Some(url),
            },
    {
        match self {
            VideoUrl::Content(url) => Some(url),
            VideoUrl::Player(_) => None,
            VideoUrl::Both(url, _) => Some(url),
        }
    }

    /// The location of the player, if there is one.
    pub fn player(self) -> (r: Option<Location>)
        ensures
            r == match self {
                VideoUrl::Content(_) => None,
                VideoUrl::Player(url) => Some(url),
                VideoUrl::Both(_, url) => Some(url),
            },
    {
        match self {
            VideoUrl::Content(_) => None,
            VideoUrl::Player(url) => Some(url),
            VideoUrl::Both(_, url) => Some(url),
        }
    }
}

impl Video {
    /// Makes a video of its title, its description and where it is found.
    pub fn new(title: String, description: String, url: VideoUrl) -> (r: Self)
        ensures
            r == (Video { title, description, link: url }),
    {
        Video { title, description, link: url }
    }
}

} // verus!
