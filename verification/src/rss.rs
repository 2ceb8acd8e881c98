//! What a channel's feed says about the channel and its videos.

use crate::atom::{Entry, Feed};
use crate::error::Error;
use crate::podcast::Thumbnail;
use crate::text::{join, joined_with};
use crate::util::feed_ext::{entry_description, entry_thumbnail, entry_video_id};
use crate::util::W;
use vstd::prelude::*;
use vstd::string::StringExecFns;

verus! {

/// A channel as its feed describes it.
pub struct RssChannel {
    pub title: String,
    pub updated: String,
    pub description: String,
    pub language: String,
    pub author: String,
    pub episodes: Vec<RssEpisode>,
}

/// A video as the feed describes it.
pub struct RssEpisode {
    pub video_id: String,
    pub title: String,
    pub description: String,
    pub thumbnail: Thumbnail,
    pub author: String,
}

/// Why no episode can be made from `entry`: what is missing of its
/// description, its picture and its video id, in this order. `None` where
/// nothing is.
pub open spec fn entry_fault(entry: Entry) -> Option<Seq<char>> {
    match entry_description(entry) {
        Err(why) => Some(why),
        Ok(_) => match entry_thumbnail(entry) {
            Err(why) => Some(why),
            Ok(_) => match entry_video_id(entry) {
                Err(why) => Some(why),
                Ok(_) => None,
            },
        },
    }
}

/// Whether `episode` says what `entry` says.
pub open spec fn describes(episode: RssEpisode, entry: Entry) -> bool {
    &&& entry_description(entry) == Ok::<Seq<char>, Seq<char>>(episode.description@)
    &&& entry_thumbnail(entry) == Ok::<(Seq<char>, u32, u32), Seq<char>>(
        (episode.thumbnail.url@, episode.thumbnail.width, episode.thumbnail.height),
    )
    &&& entry_video_id(entry) == Ok::<Seq<char>, Seq<char>>(episode.video_id@)
    &&& episode.title@ == entry.title@
    &&& episode.author@ == if entry.authors.len() > 0 {
        entry.authors[0]@
    } else {
        Seq::empty()
    }
}

/// The address of the feed of the channel `channel_id`.
pub open spec fn feed_address(channel_id: Seq<char>) -> Seq<char> {
    "https://www.youtube.com/feeds/videos.xml?channel_id="@ + channel_id
}

/// The address of the feed of the channel `channel_id`.
pub fn feed_url(channel_id: &str) -> (url: String)
    ensures
        url@ == feed_address(channel_id@),
{
    let mut url = String::from_str("https://www.youtube.com/feeds/videos.xml?channel_id=");
    url.append(channel_id);
    url
}

impl RssEpisode {
    /// Reads a video off an entry of the feed. Fails with
    /// `InvalidFeedEntry` where the entry lacks the description, the
    /// picture or the id of the video.
    pub fn from_entry(entry: &Entry) -> (r: Result<RssEpisode, Error>)
        ensures
            match r {
                Ok(episode) => describes(episode, *entry),
                Err(e) => entry_fault(*entry) matches Some(why) && e.is_invalid_entry(
                    entry.id@,
                    why,
                ),
            },
    {
        let description = match W(entry).description() {
            Ok(description) => description,
            Err(e) => {
                return Err(e);
            },
        };
        let thumbnail = match W(entry).thumbnail() {
            Ok(thumbnail) => thumbnail,
            Err(e) => {
                return Err(e);
            },
        };
        let video_id = match W(entry).video_id() {
            Ok(video_id) => video_id,
            Err(e) => {
                return Err(e);
            },
        };
        let author = if entry.authors.len() > 0 {
            entry.authors[0].clone()
        } else {
            String::new()
        };
        let title = entry.title.clone();
        Ok(RssEpisode { title, description, thumbnail, video_id, author })
    }
}

impl RssChannel {
    /// Reads a channel and its videos off its feed. Fails with the fault of
    /// the first entry from which no video can be read.
    pub fn from_feed(feed: Feed) -> (r: Result<RssChannel, Error>)
        ensures
            match r {
                Ok(channel) => {
                    &&& channel.title@ == feed.title@
                    &&& channel.updated@ == feed.updated.rfc2822()
                    &&& channel.description@ == match feed.subtitle {
                        Some(text) => text@,
                        None => Seq::empty(),
                    }
                    &&& channel.language@ == match feed.lang {
                        Some(text) => text@,
                        None => Seq::empty(),
                    }
                    &&& channel.author@ == joined_with(feed.authors.deep_view(), ", "@)
                    &&& channel.episodes.len() == feed.entries.len()
                    &&& forall|k: int|
                        0 <= k < feed.entries.len() ==> describes(
                            #[trigger] channel.episodes[k],
                            feed.entries[k],
                        )
                },
                Err(e) => exists|k: int|
                    0 <= k < feed.entries.len() && faulty_at(feed.entries@, k) && e.is_invalid_entry(
                        (#[trigger] feed.entries[k]).id@,
                        entry_fault(feed.entries[k])->0,
                    ),
            },
    {
        let title = feed.title.clone();
        let updated = feed.updated.to_rfc2822();
        let description = match &feed.subtitle {
            Some(text) => text.clone(),
            None => String::new(),
        };
        let language = match &feed.lang {
            Some(text) => text.clone(),
            None => String::new(),
        };
        let author = join(&feed.authors, ", ");
        let mut episodes: Vec<RssEpisode> = Vec::new();
        let mut i: usize = 0;
        while i < feed.entries.len()
            invariant
                i <= feed.entries.len(),
                episodes.len() == i,
                forall|k: int| 0 <= k < i ==> describes(#[trigger] episodes[k], feed.entries[k]),
                forall|k: int| 0 <= k < i ==> entry_fault(#[trigger] feed.entries[k]) is None,
            decreases feed.entries.len() - i,
        {
            match RssEpisode::from_entry(&feed.entries[i]) {
                Ok(episode) => {
                    episodes.push(episode);
                },
                Err(e) => {
                    assert(faulty_at(feed.entries@, i as int));
                    return Err(e);
                },
            }
            i = i + 1;
        }
        Ok(RssChannel { title, updated, description, language, author, episodes })
    }
}

/// Whether the entry at place `k` is the first from which no video can be
/// read.
pub open spec fn faulty_at(entries: Seq<Entry>, k: int) -> bool {
    &&& 0 <= k < entries.len()
    &&& entry_fault(entries[k]) is Some
    &&& forall|j: int| 0 <= j < k ==> entry_fault(#[trigger] entries[j]) is None
}

} // verus!
