//! The ways of turning a channel into a podcast.

use crate::error::Error;
use crate::podcast::Podcast;
use vstd::prelude::*;

pub mod rss_piped;
pub mod rss_ytextract;
pub mod ytdlp;

pub use rss_piped::RssPiped;
pub use rss_ytextract::RssYtextract;
pub use ytdlp::Ytdlp;

verus! {

/// A way of making a podcast from what was fetched about a channel.
pub trait Harvestor {
    /// What has to be fetched about the channel.
    type Source;

    /// Makes the podcast of the channel `channel_id` from `source`.
    fn harvest(&mut self, channel_id: &str, source: Self::Source) -> Result<Podcast, Error>;
}

} // verus!
