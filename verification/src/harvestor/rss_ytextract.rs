//! A podcast from a channel's feed and from the pages of its videos.

use crate::date::Date;
use crate::error::Error;
use crate::harvestor::rss_piped::{channel_address, channel_page_url};
use crate::harvestor::Harvestor;
use crate::podcast::{Episode, Podcast, Thumbnail};
use crate::rss::RssChannel;
use crate::util::feed_ext::{audio_address, audio_url};
use vstd::prelude::*;
use vstd::string::StringExecFns;

verus! {

/// The number of uploads of a channel that are looked at.
pub const UPLOAD_LIMIT: usize = 30;

/// A picture as the page of a video or channel gives it.
pub struct Picture {
    pub url: String,
    pub width: u64,
    pub height: u64,
}

/// A video as its page describes it.
pub struct Video {
    pub id: String,
    pub title: String,
    pub description: String,
    /// The start of the day on which the video was published.
    pub date: Date,
    /// The length in whole seconds.
    pub duration: u64,
    pub thumbnails: Vec<Picture>,
}

/// The address of the page of the video `id`.
pub open spec fn video_address(id: Seq<char>) -> Seq<char> {
    "https://www.youtube.com/watch?v="@ + id
}

/// Whether `pick` is the widest of `pictures`, the last of them where
/// several are as wide.
pub open spec fn widest(pictures: Seq<Picture>, pick: int) -> bool {
    &&& 0 <= pick < pictures.len()
    &&& forall|j: int| 0 <= j < pictures.len() ==> (#[trigger] pictures[j]).width
        <= pictures[pick].width
    &&& forall|j: int| pick < j < pictures.len() ==> (#[trigger] pictures[j]).width
        < pictures[pick].width
}

/// Picks the widest picture, and of equally wide ones the last.
pub fn widest_picture(pictures: &Vec<Picture>) -> (r: Option<usize>)
    ensures
        match r {
            Some(pick) => widest(pictures@, pick as int),
            None => pictures.len() == 0,
        },
{
    if pictures.len() == 0 {
        return None;
    }
    let mut best: usize = 0;
    let mut i: usize = 1;
    assert(widest(pictures@.take(1), 0));
    while i < pictures.len()
        invariant
            1 <= i <= pictures.len(),
            best < i,
            widest(pictures@.take(i as int), best as int),
        decreases pictures.len() - i,
    {
        let ghost seen = pictures@.take(i as int);
        let ghost next = pictures@.take(i + 1);
        assert(forall|j: int| 0 <= j < i ==> next[j] == seen[j]);
        if pictures[best].width <= pictures[i].width {
            best = i;
        }
        i = i + 1;
    }
    assert(pictures@.take(pictures.len() as int) == pictures@);
    Some(best)
}

/// The low 32 bits of a size.
pub open spec fn low_bits(size: u64) -> u32 {
    (size % 0x1_0000_0000) as u32
}

/// Whether `episode` is the episode of `video`, served below `public_url`.
pub open spec fn episode_of(episode: Episode, video: Video, public_url: Seq<char>) -> bool {
    &&& episode.title@ == video.title@
    &&& episode.link@ == video_address(video.id@)
    &&& episode.description@ == video.description@
    &&& episode.pub_date@ == video.date.rfc2822()
    &&& episode.author@ == Seq::<char>::empty()
    &&& episode.guid@ == video.id@
    &&& episode.duration == video.duration
    &&& episode.audio_url@ == audio_address(public_url, video.id@)
    &&& if video.thumbnails.len() == 0 {
        episode.thumbnail.url@.len() == 0 && episode.thumbnail.width == 0
            && episode.thumbnail.height == 0
    } else {
        exists|pick: int|
            widest(video.thumbnails@, pick) && episode.thumbnail.url@ == (
            #[trigger] video.thumbnails[pick]).url@ && episode.thumbnail.width == low_bits(
                video.thumbnails[pick].width,
            ) && episode.thumbnail.height == low_bits(video.thumbnails[pick].height)
    }
}

/// Makes the episode of a video, served below `public_url`.
pub fn make_episode(video: Video, public_url: &str) -> (episode: Episode)
    ensures
        episode_of(episode, video, public_url@),
{
    let mut link = String::from_str("https://www.youtube.com/watch?v=");
    link.append(video.id.as_str());
    let audio_link = audio_url(public_url, video.id.as_str());
    let date = video.date.to_rfc2822();
    let thumbnail = match widest_picture(&video.thumbnails) {
        Some(pick) => Thumbnail {
            url: video.thumbnails[pick].url.clone(),
            width: (video.thumbnails[pick].width % 0x1_0000_0000) as u32,
            height: (video.thumbnails[pick].height % 0x1_0000_0000) as u32,
        },
        None => Thumbnail::none(),
    };
    Episode {
        title: video.title,
        link,
        description: video.description,
        pub_date: date,
        author: String::new(),
        guid: video.id,
        duration: video.duration,
        thumbnail,
        audio_url: audio_link,
    }
}

/// Gathers the uploads of a channel: all of them where every one could be
/// fetched, else the first failure.
pub fn gather_uploads(fetched: Vec<Result<Video, Error>>) -> (r: Result<Vec<Video>, Error>)
    ensures
        match r {
            Ok(videos) => all_fetched(fetched@, videos@),
            Err(e) => first_failure(fetched@, e),
        },
{
    let ghost all = fetched@;
    let mut videos: Vec<Video> = Vec::new();
    for result in it: fetched.into_iter()
        invariant
            it.seq() == all,
            all == fetched@,
            videos.len() == it.index(),
            forall|k: int| 0 <= k < it.index() ==> (#[trigger] all[k]) == Ok::<Video, Error>(
                videos[k],
            ),
    {
        match result {
            Ok(video) => {
                videos.push(video);
            },
            Err(e) => {
                assert(all[it.index() as int] == Err::<Video, Error>(e));
                return Err(e);
            },
        }
    }
    Ok(videos)
}

/// Whether `podcast` is the podcast of the channel `channel_id` made from
/// what its feed says, from its pictures and from its videos, served below
/// `public_url`: the channel is described as the feed says, its logo is the
/// widest picture, and its episodes are the videos in their order.
pub open spec fn made_from(
    podcast: Podcast,
    channel_id: Seq<char>,
    rss_channel: RssChannel,
    avatars: Seq<Picture>,
    yt_videos: Seq<Video>,
    public_url: Seq<char>,
) -> bool {
    &&& podcast.title == rss_channel.title
    &&& podcast.description == rss_channel.description
    &&& podcast.last_build_date == rss_channel.updated
    &&& podcast.language == rss_channel.language
    &&& podcast.author == rss_channel.author
    &&& podcast.categories.len() == 0
    &&& podcast.channel_url@ == channel_address(channel_id)
    &&& if avatars.len() == 0 {
        podcast.logo_url@.len() == 0
    } else {
        exists|pick: int|
            widest(avatars, pick) && podcast.logo_url@ == (#[trigger] avatars[pick]).url@
    }
    &&& podcast.episodes.len() == yt_videos.len()
    &&& forall|k: int|
        0 <= k < yt_videos.len() ==> episode_of(
            #[trigger] podcast.episodes[k],
            yt_videos[k],
            public_url,
        )
}

/// Whether `videos` are what was fetched, which holds no failure.
pub open spec fn all_fetched(fetched: Seq<Result<Video, Error>>, videos: Seq<Video>) -> bool {
    videos.len() == fetched.len() && forall|k: int|
        0 <= k < fetched.len() ==> (#[trigger] fetched[k]) == Ok::<Video, Error>(videos[k])
}

/// Whether `e` is the first failure among what was fetched.
pub open spec fn first_failure(fetched: Seq<Result<Video, Error>>, e: Error) -> bool {
    exists|k: int|
        0 <= k < fetched.len() && (#[trigger] fetched[k]) == Err::<Video, Error>(e) && forall|
            j: int,
        |
            0 <= j < k ==> (#[trigger] fetched[j]) is Ok
}

/// Makes the podcast of the channel `channel_id` from what its feed says
/// about it, from the pictures of the channel and from its videos.
pub fn make_podcast(
    channel_id: &str,
    rss_channel: RssChannel,
    avatars: &Vec<Picture>,
    yt_videos: Vec<Video>,
    public_url: &str,
) -> (podcast: Podcast)
    ensures
        made_from(podcast, channel_id@, rss_channel, avatars@, yt_videos@, public_url@),
{
    let channel_url = channel_page_url(channel_id);
    let logo_url = match widest_picture(avatars) {
        Some(pick) => avatars[pick].url.clone(),
        None => String::new(),
    };
    let ghost all = yt_videos@;
    let mut episodes: Vec<Episode> = Vec::new();
    for video in it: yt_videos.into_iter()
        invariant
            it.seq() == all,
            episodes.len() == it.index(),
            forall|k: int| 0 <= k < it.index() ==> episode_of(
                #[trigger] episodes[k],
                all[k],
                public_url@,
            ),
    {
        episodes.push(make_episode(video, public_url));
    }
    Podcast {
        title: rss_channel.title,
        description: rss_channel.description,
        last_build_date: rss_channel.updated,
        language: rss_channel.language,
        author: rss_channel.author,
        logo_url,
        categories: Vec::new(),
        channel_url,
        episodes,
    }
}

/// Makes podcasts from the feed of a channel and the pages of its videos.
pub struct RssYtextract;

/// What has been fetched about a channel: what its feed says, its
/// pictures, its latest uploads as far as they could be fetched, and the
/// address that the gateway is reached at.
pub struct RssYtextractSource {
    pub rss_channel: RssChannel,
    pub avatars: Vec<Picture>,
    pub uploads: Vec<Result<Video, Error>>,
    pub public_url: String,
}

impl RssYtextract {
    /// A harvestor.
    pub fn new() -> Self {
        RssYtextract
    }
}

impl Harvestor for RssYtextract {
    type Source = RssYtextractSource;

    /// Makes the podcast from what was fetched. Fails with the first
    /// failure among the uploads.
    fn harvest(&mut self, channel_id: &str, source: RssYtextractSource) -> (r: Result<
        Podcast,
        Error,
    >)
        ensures
            match r {
                Ok(podcast) => exists|videos: Seq<Video>|
                    #![trigger all_fetched(source.uploads@, videos)]
                    all_fetched(source.uploads@, videos) && made_from(
                        podcast,
                        channel_id@,
                        source.rss_channel,
                        source.avatars@,
                        videos,
                        source.public_url@,
                    ),
                Err(e) => first_failure(source.uploads@, e),
            },
    {
        let videos = match gather_uploads(source.uploads) {
            Ok(videos) => videos,
            Err(e) => {
                return Err(e);
            },
        };
        Ok(
            make_podcast(
                channel_id,
                source.rss_channel,
                &source.avatars,
                videos,
                source.public_url.as_str(),
            ),
        )
    }
}

} // verus!
