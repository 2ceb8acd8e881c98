//! A podcast from a channel's feed, its page and the mirror API.

use crate::atom::{Entry, Feed};
use crate::error::Error;
use crate::harvestor::Harvestor;
use crate::pattern::{regex_replace, replace};
use crate::piped::PipedInstance;
use crate::podcast::{Episode, Podcast};
use crate::rss::entry_fault;
use crate::text::{chars_of, join, joined_with, matches_at, same_text, string_of};
use crate::util::feed_ext::{
    audio_address, audio_url, entry_description, entry_thumbnail, entry_video_id,
};
use crate::util::W;
use crate::web::{html_values, select_attributes, LOGO_SELECTOR, TAG_SELECTOR};
use vstd::prelude::*;
use vstd::string::StringExecFns;

verus! {

/// The regular expression that finds the size in the address of a picture.
pub const WIDTH_PATTERN: &'static str = "=s\\d+";

/// The size that the logo is asked for in.
pub const LARGE_WIDTH: &'static str = "=s1400";

/// What precedes the id of a video in the addresses that the mirror API
/// lists.
pub const WATCH_PREFIX: &'static str = "/watch?v=";

/// A video of a channel as the mirror API lists it.
pub struct PipedStream {
    pub video_id: String,
    pub duration: u64,
    pub is_short: bool,
}

/// A channel as the mirror API describes it.
pub struct PipedChannel {
    pub description: Option<String>,
    pub related_streams: Vec<PipedStream>,
}

/// What the page of a channel adds to its feed.
pub struct ExtraInfo {
    pub logo_url: String,
    pub tags: Vec<String>,
}

/// `text` without `prefix` in front, `None` where it does not begin with
/// it.
pub open spec fn stripped(text: Seq<char>, prefix: Seq<char>) -> Option<Seq<char>> {
    if crate::text::begins_with(text, prefix) {
        Some(text.skip(prefix.len() as int))
    } else {
        None
    }
}

/// Takes `prefix` off the front of `text`.
pub fn strip_prefix(text: &str, prefix: &str) -> (r: Option<String>)
    ensures
        r.deep_view() == stripped(text@, prefix@),
{
    let chars = chars_of(text);
    let lead = chars_of(prefix);
    if matches_at(&chars, &lead, 0) {
        Some(string_of(&chars, lead.len(), chars.len()))
    } else {
        None
    }
}

/// The place of the first video of `streams` with the id `video_id`.
pub open spec fn stream_at(streams: Seq<PipedStream>, video_id: Seq<char>, at: int) -> bool {
    &&& 0 <= at < streams.len()
    &&& streams[at].video_id@ == video_id
    &&& forall|j: int| 0 <= j < at ==> (#[trigger] streams[j]).video_id@ != video_id
}

/// Whether no video of `streams` has the id `video_id`.
pub open spec fn no_stream(streams: Seq<PipedStream>, video_id: Seq<char>) -> bool {
    forall|j: int| 0 <= j < streams.len() ==> (#[trigger] streams[j]).video_id@ != video_id
}

impl PipedChannel {
    /// Whether the API listed every video with the address of a video.
    pub open spec fn lists_videos(self) -> bool {
        forall|k: int|
            0 <= k < self.related_streams.len() ==> stripped(
                (#[trigger] self.related_streams[k]).video_id@,
                WATCH_PREFIX@,
            ) is Some
    }

    /// Whether `listed` is this channel with each video listed by its id
    /// in place of its address.
    pub open spec fn with_ids(self, listed: PipedChannel) -> bool {
        &&& listed.description == self.description
        &&& listed.related_streams.len() == self.related_streams.len()
        &&& forall|k: int|
            0 <= k < self.related_streams.len() ==> {
                &&& stripped(self.related_streams[k].video_id@, WATCH_PREFIX@) == Some(
                    (#[trigger] listed.related_streams[k]).video_id@,
                )
                &&& listed.related_streams[k].duration == self.related_streams[k].duration
                &&& listed.related_streams[k].is_short == self.related_streams[k].is_short
            }
    }

    /// Reads the ids of the videos off the addresses that the API listed
    /// them with. Fails with `Invidious` where an address is not that of a
    /// video.
    pub fn with_video_ids(self) -> (r: Result<PipedChannel, Error>)
        ensures
            match r {
                Ok(channel) => self.with_ids(channel),
                Err(e) => e is Invidious && exists|k: int|
                    0 <= k < self.related_streams.len() && stripped(
                        (#[trigger] self.related_streams[k]).video_id@,
                        WATCH_PREFIX@,
                    ) is None,
            },
    {
        let mut streams: Vec<PipedStream> = Vec::new();
        let mut i: usize = 0;
        while i < self.related_streams.len()
            invariant
                i <= self.related_streams.len(),
                streams.len() == i,
                forall|k: int|
                    0 <= k < i ==> {
                        &&& stripped(self.related_streams[k].video_id@, WATCH_PREFIX@) == Some(
                            (#[trigger] streams[k]).video_id@,
                        )
                        &&& streams[k].duration == self.related_streams[k].duration
                        &&& streams[k].is_short == self.related_streams[k].is_short
                    },
            decreases self.related_streams.len() - i,
        {
            let stream = &self.related_streams[i];
            match strip_prefix(stream.video_id.as_str(), WATCH_PREFIX) {
                Some(video_id) => {
                    streams.push(
                        PipedStream {
                            video_id,
                            duration: stream.duration,
                            is_short: stream.is_short,
                        },
                    );
                },
                None => {
                    return Err(Error::Invidious("address of a stream is not that of a video"));
                },
            }
            i = i + 1;
        }
        Ok(PipedChannel { description: self.description, related_streams: streams })
    }

    /// The first of the channel's videos with the id `video_id`.
    pub fn get_stream(&self, video_id: &str) -> (r: Option<&PipedStream>)
        ensures
            match r {
                Some(stream) => exists|at: int|
                    stream_at(self.related_streams@, video_id@, at) && *stream
                        == #[trigger] self.related_streams[at],
                None => no_stream(self.related_streams@, video_id@),
            },
    {
        let mut i: usize = 0;
        while i < self.related_streams.len()
            invariant
                i <= self.related_streams.len(),
                forall|j: int| 0 <= j < i ==> (#[trigger] self.related_streams[j]).video_id@
                    != video_id@,
            decreases self.related_streams.len() - i,
        {
            if same_text(self.related_streams[i].video_id.as_str(), video_id) {
                assert(stream_at(self.related_streams@, video_id@, i as int));
                return Some(&self.related_streams[i]);
            }
            i = i + 1;
        }
        None
    }
}

/// The address of the page of the channel `channel_id`.
pub open spec fn channel_address(channel_id: Seq<char>) -> Seq<char> {
    "https://www.youtube.com/channel/"@ + channel_id
}

/// The address of the page of the channel `channel_id`.
pub fn channel_page_url(channel_id: &str) -> (url: String)
    ensures
        url@ == channel_address(channel_id@),
{
    let mut url = String::from_str("https://www.youtube.com/channel/");
    url.append(channel_id);
    url
}

/// The logo among what the nodes found in a page give as its picture: the
/// address that the first of them gives, asked for in a large size; or
/// what is missing.
pub open spec fn logo_of(found: Seq<Option<Option<Seq<char>>>>) -> Result<Seq<char>, Seq<char>> {
    if found.len() == 0 {
        Err("link[rel=image_src]"@)
    } else {
        match found[0] {
            Some(Some(href)) => Ok(regex_replace(WIDTH_PATTERN@, href, LARGE_WIDTH@)),
            Some(None) => Err("link[href]"@),
            None => Err("thumbnail"@),
        }
    }
}

/// Whether `r` is what comes of picking the logo from `found`.
pub open spec fn logo_result(found: Seq<Option<Option<Seq<char>>>>, r: Result<String, Error>) -> bool {
    match logo_of(found) {
        Ok(url) => r matches Ok(logo) && logo@ == url,
        Err(what) => r matches Err(e) && e.is_invalid_html(what),
    }
}

/// Whether `r` is what comes of reading the logo off the page `html`.
pub open spec fn page_logo_result(html: Seq<char>, r: Result<String, Error>) -> bool {
    match html_values(html, LOGO_SELECTOR@, "href"@) {
        Err(fault) => r matches Err(e) && e.is_parse_html(fault),
        Ok(None) => r matches Err(e) && e.is_invalid_html("link[rel=image_src]"@),
        Ok(Some(found)) => logo_result(found, r),
    }
}

/// Whether the logo can be read off the page `html`.
pub open spec fn page_has_logo(html: Seq<char>) -> bool {
    match html_values(html, LOGO_SELECTOR@, "href"@) {
        Ok(Some(found)) => logo_of(found) is Ok,
        _ => false,
    }
}

/// Whether the node at place `k` is the first that gives no value.
pub open spec fn first_without_value(found: Seq<Option<Option<Seq<char>>>>, k: int) -> bool {
    &&& 0 <= k < found.len()
    &&& !(found[k] matches Some(Some(_)))
    &&& forall|j: int| 0 <= j < k ==> (#[trigger] found[j]) matches Some(Some(_))
}

/// What is wrong with a node that gives no value.
pub open spec fn tag_fault(node: Option<Option<Seq<char>>>) -> Seq<char> {
    match node {
        None => "meta[property=og:video:tag]"@,
        _ => "meta[property=og:video:tag] content"@,
    }
}

/// Whether all of `found` give a value.
pub open spec fn all_tags(found: Seq<Option<Option<Seq<char>>>>) -> bool {
    forall|k: int| 0 <= k < found.len() ==> (#[trigger] found[k]) matches Some(Some(_))
}

/// Whether the tags can be read off the page `html`.
pub open spec fn page_has_tags(html: Seq<char>) -> bool {
    match html_values(html, TAG_SELECTOR@, "content"@) {
        Ok(Some(found)) => all_tags(found),
        _ => false,
    }
}

/// Whether `r` is what comes of picking the tags from `found`: all of
/// them in their order, or the fault of the first node that gives none.
pub open spec fn tags_result(
    found: Seq<Option<Option<Seq<char>>>>,
    r: Result<Vec<String>, Error>,
) -> bool {
    match r {
        Ok(tags) => tags.len() == found.len() && forall|k: int|
            0 <= k < found.len() ==> (#[trigger] found[k]) == Some(Some(tags[k]@)),
        Err(e) => exists|k: int|
            first_without_value(found, k) && e.is_invalid_html(tag_fault(#[trigger] found[k])),
    }
}

/// Whether `r` is what comes of reading the tags off the page `html`.
pub open spec fn page_tags_result(html: Seq<char>, r: Result<Vec<String>, Error>) -> bool {
    match html_values(html, TAG_SELECTOR@, "content"@) {
        Err(fault) => r matches Err(e) && e.is_parse_html(fault),
        Ok(None) => r matches Err(e) && e.is_invalid_html("meta[property=og:video:tag]"@),
        Ok(Some(found)) => tags_result(found, r),
    }
}

/// Picks the logo from what the nodes found in the page give as its
/// picture, and asks for it in a large size. Fails with `InvalidHTML` where
/// nothing was found, or the first node found is no tag or gives no
/// address.
pub fn logo_from(found: &Vec<Option<Option<String>>>) -> (r: Result<String, Error>)
    ensures
        logo_result(found.deep_view(), r),
{
    if found.len() == 0 {
        return Err(Error::InvalidHTML("link[rel=image_src]"));
    }
    assert(found.deep_view()[0] == found[0].deep_view());
    match &found[0] {
        Some(Some(href)) => Ok(replace(WIDTH_PATTERN, href.as_str(), LARGE_WIDTH)),
        Some(None) => Err(Error::InvalidHTML("link[href]")),
        None => Err(Error::InvalidHTML("thumbnail")),
    }
}

/// Picks the tags from what the nodes found in the page give. Fails with
/// `InvalidHTML` at the first node that is no tag or gives no content.
pub fn tags_from(found: Vec<Option<Option<String>>>) -> (r: Result<Vec<String>, Error>)
    ensures
        tags_result(found.deep_view(), r),
{
    let ghost all = found@;
    let ghost shown = found.deep_view();
    assert(forall|k: int| 0 <= k < all.len() ==> shown[k] == all[k].deep_view());
    let mut tags: Vec<String> = Vec::new();
    for tag in it: found.into_iter()
        invariant
            it.seq() == all,
            shown == found.deep_view(),
            all.len() == shown.len(),
            forall|k: int| 0 <= k < all.len() ==> shown[k] == (#[trigger] all[k]).deep_view(),
            tags.len() == it.index(),
            forall|k: int| 0 <= k < it.index() ==> (#[trigger] shown[k]) == Some(Some(tags[k]@)),
    {
        let ghost i = it.index() as int;
        assert(shown[i] == all[i].deep_view());
        match tag {
            Some(Some(tag)) => {
                tags.push(tag);
            },
            Some(None) => {
                assert(first_without_value(shown, i));
                return Err(Error::InvalidHTML("meta[property=og:video:tag] content"));
            },
            None => {
                assert(first_without_value(shown, i));
                return Err(Error::InvalidHTML("meta[property=og:video:tag]"));
            },
        }
    }
    Ok(tags)
}

/// Reads the logo of a channel off its page. Fails with `ParseHTML` where
/// the page cannot be parsed, and with `InvalidHTML` where it gives no
/// picture.
pub fn get_logo(html: &str) -> (r: Result<String, Error>)
    ensures
        page_logo_result(html@, r),
{
    match select_attributes(html, LOGO_SELECTOR, "href") {
        Ok(Some(found)) => logo_from(&found),
        Ok(None) => Err(Error::InvalidHTML("link[rel=image_src]")),
        Err(fault) => Err(Error::ParseHTML(fault)),
    }
}

/// Reads the tags of a channel off its page. Fails with `ParseHTML` where
/// the page cannot be parsed, and with `InvalidHTML` where a node found is
/// no tag or gives no content.
pub fn get_tags(html: &str) -> (r: Result<Vec<String>, Error>)
    ensures
        page_tags_result(html@, r),
{
    match select_attributes(html, TAG_SELECTOR, "content") {
        Ok(Some(found)) => tags_from(found),
        Ok(None) => Err(Error::InvalidHTML("meta[property=og:video:tag]")),
        Err(fault) => Err(Error::ParseHTML(fault)),
    }
}

/// Reads off the page of a channel what its feed does not say: the logo,
/// then the tags. Fails where either cannot be read.
pub fn get_extra_info(html: &str) -> (r: Result<ExtraInfo, Error>)
    ensures
        match r {
            Ok(info) => page_logo_result(html@, Ok(info.logo_url)) && page_tags_result(
                html@,
                Ok(info.tags),
            ),
            Err(e) => if page_has_logo(html@) {
                page_tags_result(html@, Err(e))
            } else {
                page_logo_result(html@, Err(e))
            },
        },
{
    let logo_url = match get_logo(html) {
        Ok(logo_url) => logo_url,
        Err(e) => {
            return Err(e);
        },
    };
    let tags = match get_tags(html) {
        Ok(tags) => tags,
        Err(e) => {
            return Err(e);
        },
    };
    Ok(ExtraInfo { logo_url, tags })
}

/// Whether the video of `entry` becomes an episode: the channel lists it,
/// and not as a short.
pub open spec fn listed_in_full(entry: Entry, streams: Seq<PipedStream>) -> bool {
    entry_video_id(entry) matches Ok(id) && exists|at: int|
        stream_at(streams, id, at) && !(#[trigger] streams[at]).is_short
}

/// Whether `episode` is the episode of the video of `entry`, which the
/// channel lists with `stream`, served below `public_url`.
pub open spec fn episode_of(
    episode: Episode,
    entry: Entry,
    stream: PipedStream,
    public_url: Seq<char>,
) -> bool {
    &&& entry_video_id(entry) matches Ok(id)
    &&& entry_description(entry) == Ok::<Seq<char>, Seq<char>>(episode.description@)
    &&& entry_thumbnail(entry) == Ok::<(Seq<char>, u32, u32), Seq<char>>(
        (episode.thumbnail.url@, episode.thumbnail.width, episode.thumbnail.height),
    )
    &&& episode.title@ == entry.title@
    &&& entry.links.len() > 0
    &&& episode.link@ == entry.links[0]@
    &&& episode.pub_date@ == entry.updated.rfc2822()
    &&& episode.author@ == if entry.authors.len() > 0 {
        entry.authors[0]@
    } else {
        Seq::empty()
    }
    &&& episode.guid@ == entry.id@
    &&& episode.audio_url@ == audio_address(public_url, id)
    &&& episode.duration == stream.duration
}

/// Why the video of `entry` cannot become an episode, though it ought to:
/// what the entry lacks of description, picture and video id, or, for a
/// video that the channel lists in full, the lack of a link. `None` where
/// nothing is in the way.
pub open spec fn episode_fault(entry: Entry, streams: Seq<PipedStream>) -> Option<Seq<char>> {
    match entry_fault(entry) {
        Some(why) => Some(why),
        None => if listed_in_full(entry, streams) && entry.links.len() == 0 {
            Some("no link found"@)
        } else {
            None
        },
    }
}

/// Whether `episode` is the episode of the video of `entry` as `streams`
/// list it, served below `public_url`.
pub open spec fn is_episode(
    episode: Episode,
    entry: Entry,
    streams: Seq<PipedStream>,
    public_url: Seq<char>,
) -> bool {
    exists|at: int|
        stream_at(streams, entry_video_id(entry)->Ok_0, at) && !(#[trigger] streams[at]).is_short
            && episode_of(episode, entry, streams[at], public_url)
}

/// Makes the episode of a video from its entry in the feed and from what
/// the mirror API lists for it. A video that the API does not list, or
/// lists as a short, gives no episode. Fails with `InvalidFeedEntry` where
/// the entry lacks what an episode needs.
pub fn make_episode(entry: Entry, piped_channel: &PipedChannel, public_url: &str) -> (r: Result<
    Option<Episode>,
    Error,
>)
    ensures
        match r {
            Ok(Some(episode)) => episode_fault(entry, piped_channel.related_streams@) is None
                && listed_in_full(entry, piped_channel.related_streams@) && is_episode(
                episode,
                entry,
                piped_channel.related_streams@,
                public_url@,
            ),
            Ok(None) => episode_fault(entry, piped_channel.related_streams@) is None
                && !listed_in_full(entry, piped_channel.related_streams@),
            Err(e) => episode_fault(entry, piped_channel.related_streams@) matches Some(why)
                && e.is_invalid_entry(entry.id@, why),
        },
{
    let description = match W(&entry).description() {
        Ok(description) => description,
        Err(e) => {
            return Err(e);
        },
    };
    let thumbnail = match W(&entry).thumbnail() {
        Ok(thumbnail) => thumbnail,
        Err(e) => {
            return Err(e);
        },
    };
    let video_id = match W(&entry).video_id() {
        Ok(video_id) => video_id,
        Err(e) => {
            return Err(e);
        },
    };
    let piped_stream = match piped_channel.get_stream(video_id.as_str()) {
        Some(piped_stream) => piped_stream,
        None => {
            assert(!listed_in_full(entry, piped_channel.related_streams@));
            return Ok(None);
        },
    };
    let ghost at = choose|at: int|
        stream_at(piped_channel.related_streams@, video_id@, at) && *piped_stream
            == #[trigger] piped_channel.related_streams[at];
    proof {
        assert forall|other: int|
            stream_at(piped_channel.related_streams@, video_id@, other) implies other == at by {}
    }
    if piped_stream.is_short {
        assert(!listed_in_full(entry, piped_channel.related_streams@));
        return Ok(None);
    }
    assert(listed_in_full(entry, piped_channel.related_streams@));
    let video_url = match W(&entry).link() {
        Ok(video_url) => video_url,
        Err(e) => {
            return Err(e);
        },
    };
    let author = if entry.authors.len() > 0 {
        entry.authors[0].clone()
    } else {
        String::new()
    };
    let episode = Episode {
        title: entry.title.clone(),
        link: video_url,
        description,
        pub_date: entry.updated.to_rfc2822(),
        author,
        guid: entry.id.clone(),
        duration: piped_stream.duration,
        thumbnail,
        audio_url: audio_url(public_url, video_id.as_str()),
    };
    assert(episode_of(episode, entry, piped_channel.related_streams[at], public_url@));
    Ok(Some(episode))
}

/// The entries among `entries` whose videos `streams` list in full, in
/// their order.
pub open spec fn full_listings(entries: Seq<Entry>, streams: Seq<PipedStream>) -> Seq<Entry>
    decreases entries.len(),
{
    if entries.len() == 0 {
        Seq::empty()
    } else if listed_in_full(entries.last(), streams) {
        full_listings(entries.drop_last(), streams).push(entries.last())
    } else {
        full_listings(entries.drop_last(), streams)
    }
}

/// Whether the entry at place `k` is the first whose video cannot become
/// an episode though it ought to.
pub open spec fn faulty_at(entries: Seq<Entry>, streams: Seq<PipedStream>, k: int) -> bool {
    &&& 0 <= k < entries.len()
    &&& episode_fault(entries[k], streams) is Some
    &&& forall|j: int| 0 <= j < k ==> episode_fault(#[trigger] entries[j], streams) is None
}

/// Whether `podcast` is the podcast made from a feed, from what the page of
/// the channel adds and from what the mirror API says, served below
/// `public_url`: the channel is described by the feed and the API, and the
/// episodes are those of the entries that the API lists in full, in the
/// order of the feed.
pub open spec fn made_from(
    podcast: Podcast,
    feed: Feed,
    extra_info: ExtraInfo,
    piped_channel: PipedChannel,
    public_url: Seq<char>,
) -> bool {
    let listings = full_listings(feed.entries@, piped_channel.related_streams@);
    &&& podcast.title@ == feed.title@
    &&& podcast.description@ == match piped_channel.description {
        Some(text) => text@,
        None => Seq::empty(),
    }
    &&& podcast.last_build_date@ == feed.updated.rfc2822()
    &&& podcast.language@ == match feed.lang {
        Some(text) => text@,
        None => Seq::empty(),
    }
    &&& podcast.author@ == joined_with(feed.authors.deep_view(), ", "@)
    &&& podcast.logo_url == extra_info.logo_url
    &&& podcast.categories == extra_info.tags
    &&& podcast.channel_url@ == if feed.links.len() > 0 {
        feed.links[0]@
    } else {
        Seq::empty()
    }
    &&& forall|k: int|
        0 <= k < feed.entries.len() ==> episode_fault(
            #[trigger] feed.entries[k],
            piped_channel.related_streams@,
        ) is None
    &&& podcast.episodes.len() == listings.len()
    &&& forall|k: int|
        0 <= k < listings.len() ==> is_episode(
            #[trigger] podcast.episodes[k],
            listings[k],
            piped_channel.related_streams@,
            public_url,
        )
}

/// Makes the podcast of a channel from its feed, from what its page adds
/// and from what the mirror API says about it. The episodes are those of
/// the entries of the feed, in their order, that the API lists in full.
/// Fails with the fault of the first entry whose video cannot become an
/// episode though it ought to.
pub fn make_podcast(
    feed: Feed,
    extra_info: ExtraInfo,
    piped_channel: PipedChannel,
    public_url: &str,
) -> (r: Result<Podcast, Error>)
    ensures
        match r {
            Ok(podcast) => made_from(podcast, feed, extra_info, piped_channel, public_url@),
            Err(e) => exists|k: int|
                faulty_at(feed.entries@, piped_channel.related_streams@, k) && e.is_invalid_entry(
                    (#[trigger] feed.entries[k]).id@,
                    episode_fault(feed.entries[k], piped_channel.related_streams@)->0,
                ),
        },
{
    let channel_url = if feed.links.len() > 0 {
        feed.links[0].clone()
    } else {
        String::new()
    };
    let title = feed.title.clone();
    let description = match &piped_channel.description {
        Some(text) => text.clone(),
        None => String::new(),
    };
    let last_build_date = feed.updated.to_rfc2822();
    let language = match &feed.lang {
        Some(text) => text.clone(),
        None => String::new(),
    };
    let author = join(&feed.authors, ", ");
    let ghost all = feed.entries@;
    let ghost streams = piped_channel.related_streams@;
    let mut episodes: Vec<Episode> = Vec::new();
    assert(all.take(0) == Seq::<Entry>::empty());
    for entry in it: feed.entries.into_iter()
        invariant
            it.seq() == all,
            all == feed.entries@,
            streams == piped_channel.related_streams@,
            forall|k: int| 0 <= k < it.index() ==> episode_fault(#[trigger] all[k], streams) is None,
            episodes.len() == full_listings(all.take(it.index() as int), streams).len(),
            forall|k: int|
                0 <= k < episodes.len() ==> is_episode(
                    #[trigger] episodes[k],
                    full_listings(all.take(it.index() as int), streams)[k],
                    streams,
                    public_url@,
                ),
    {
        let ghost i = it.index() as int;
        let ghost seen = full_listings(all.take(i), streams);
        assert(all.take(i + 1).drop_last() == all.take(i));
        assert(all.take(i + 1).last() == entry);
        let ghost listed = entry;
        match make_episode(entry, &piped_channel, public_url) {
            Ok(Some(episode)) => {
                episodes.push(episode);
                assert(full_listings(all.take(i + 1), streams) == seen.push(listed));
                assert forall|k: int| 0 <= k < episodes.len() implies is_episode(
                    #[trigger] episodes[k],
                    full_listings(all.take(i + 1), streams)[k],
                    streams,
                    public_url@,
                ) by {
                    if k < seen.len() {
                        assert(full_listings(all.take(i + 1), streams)[k] == seen[k]);
                    }
                }
            },
            Ok(None) => {
                assert(full_listings(all.take(i + 1), streams) == seen);
            },
            Err(e) => {
                assert(faulty_at(all, streams, i));
                return Err(e);
            },
        }
    }
    assert(all.take(all.len() as int) == all);
    let podcast = Podcast {
        title,
        description,
        last_build_date,
        language,
        author,
        logo_url: extra_info.logo_url,
        categories: extra_info.tags,
        channel_url,
        episodes,
    };
    Ok(podcast)
}

/// Makes podcasts from the feed of a channel, with the lengths of its
/// videos taken from an instance of the mirror API.
pub struct RssPiped {
    piped: PipedInstance,
}

/// What has been fetched about a channel: its feed, its page, what the
/// mirror API says about it, and the address that the gateway is reached
/// at.
pub struct RssPipedSource {
    pub feed: Feed,
    pub page: String,
    pub piped_channel: PipedChannel,
    pub public_url: String,
}

impl RssPiped {
    /// The instance that is asked.
    pub closed spec fn instance(&self) -> PipedInstance {
        self.piped
    }

    /// A harvestor that asks the instance `piped`.
    pub fn new(piped: PipedInstance) -> (r: Self)
        ensures
            r.instance() == piped,
    {
        RssPiped { piped }
    }

    /// The address at which the instance describes the channel
    /// `channel_id`.
    pub fn channel_request(&self, channel_id: &str) -> (url: String)
        ensures
            url@ == self.instance().api() + "/channel/"@ + channel_id@,
    {
        self.piped.channel_url(channel_id)
    }
}

impl Harvestor for RssPiped {
    type Source = RssPipedSource;

    /// Makes the podcast from what was fetched: reads the logo and the
    /// tags off the page and the ids of the videos off the listing of the
    /// API, then puts the podcast together. Fails where one of these steps
    /// does.
    fn harvest(&mut self, channel_id: &str, source: RssPipedSource) -> (r: Result<Podcast, Error>)
        ensures
            final(self).instance() == old(self).instance(),
            match r {
                Ok(podcast) => {
                    &&& page_logo_result(source.page@, Ok(podcast.logo_url))
                    &&& page_tags_result(source.page@, Ok(podcast.categories))
                    &&& exists|listed: PipedChannel|
                        #![trigger listed.related_streams]
                        source.piped_channel.with_ids(listed) && made_from(
                            podcast,
                            source.feed,
                            ExtraInfo { logo_url: podcast.logo_url, tags: podcast.categories },
                            listed,
                            source.public_url@,
                        )
                },
                Err(e) => if !page_has_logo(source.page@) {
                    page_logo_result(source.page@, Err(e))
                } else if !page_has_tags(source.page@) {
                    page_tags_result(source.page@, Err(e))
                } else if !source.piped_channel.lists_videos() {
                    e is Invidious
                } else {
                    exists|listed: PipedChannel, k: int|
                        #![trigger faulty_at(source.feed.entries@, listed.related_streams@, k)]
                        source.piped_channel.with_ids(listed) && faulty_at(
                            source.feed.entries@,
                            listed.related_streams@,
                            k,
                        ) && e.is_invalid_entry(
                            source.feed.entries[k].id@,
                            episode_fault(source.feed.entries[k], listed.related_streams@)->0,
                        )
                },
            },
    {
        let extra_info = match get_extra_info(source.page.as_str()) {
            Ok(extra_info) => extra_info,
            Err(e) => {
                return Err(e);
            },
        };
        assert(page_has_logo(source.page@));
        assert(page_has_tags(source.page@)) by {
            let found = html_values(source.page@, TAG_SELECTOR@, "content"@)->Ok_0->0;
            assert forall|k: int| 0 <= k < found.len() implies (#[trigger] found[k]) matches Some(
                Some(_),
            ) by {
                assert(found[k] == Some(Some(extra_info.tags[k]@)));
            }
        }
        let piped_channel = match source.piped_channel.with_video_ids() {
            Ok(piped_channel) => piped_channel,
            Err(e) => {
                return Err(e);
            },
        };
        assert(source.piped_channel.lists_videos()) by {
            assert forall|k: int| 0 <= k < source.piped_channel.related_streams.len() implies stripped(
                (#[trigger] source.piped_channel.related_streams[k]).video_id@,
                WATCH_PREFIX@,
            ) is Some by {
                assert(stripped(source.piped_channel.related_streams[k].video_id@, WATCH_PREFIX@)
                    == Some(piped_channel.related_streams[k].video_id@));
            }
        }
        let r = make_podcast(source.feed, extra_info, piped_channel, source.public_url.as_str());
        proof {
            if r is Ok {
                let podcast = r->Ok_0;
                assert(made_from(
                    podcast,
                    source.feed,
                    ExtraInfo { logo_url: podcast.logo_url, tags: podcast.categories },
                    piped_channel,
                    source.public_url@,
                ));
            } else {
                let e = r->Err_0;
                let k = choose|k: int|
                    faulty_at(source.feed.entries@, piped_channel.related_streams@, k)
                        && e.is_invalid_entry(
                        (#[trigger] source.feed.entries[k]).id@,
                        episode_fault(source.feed.entries[k], piped_channel.related_streams@)->0,
                    );
                assert(faulty_at(source.feed.entries@, piped_channel.related_streams@, k));
            }
        }
        r
    }
}

} // verus!
