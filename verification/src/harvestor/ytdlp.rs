//! A podcast from the command-line downloader's description of a channel.

use crate::date::{rfc2822_text, Date};
use crate::error::Error;
use crate::harvestor::Harvestor;
use crate::podcast::{Episode, Podcast};
use crate::text::same_text;
use crate::util::feed_ext::{audio_address, audio_url};
use vstd::prelude::*;
use vstd::string::StringExecFns;

verus! {

/// A picture as the downloader describes it; a size that it does not give
/// counts as zero.
pub struct Thumbnail {
    pub url: String,
    pub width: i32,
    pub height: i32,
}

/// A video of the channel as the downloader describes it.
pub struct Entry {
    pub id: String,
    pub title: String,
    pub url: String,
    pub description: Option<String>,
    pub thumbnails: Vec<Thumbnail>,
    /// The length in whole seconds.
    pub duration: u64,
}

/// A channel as the downloader describes it.
pub struct Channel {
    pub channel: String,
    pub channel_url: String,
    pub description: Option<String>,
    pub tags: Vec<String>,
    pub entries: Vec<Option<Entry>>,
    pub thumbnails: Vec<Thumbnail>,
    pub uploader_id: String,
}

/// The number that a size stands for where it is read as unsigned: itself,
/// or, where it is negative, what the same bits denote.
pub open spec fn unsigned(size: i32) -> u32 {
    if size >= 0 {
        size as u32
    } else {
        (size + 0x1_0000_0000) as u32
    }
}

fn to_unsigned(size: i32) -> (r: u32)
    ensures
        r == unsigned(size),
{
    if size >= 0 {
        size as u32
    } else {
        (size as i64 + 0x1_0000_0000) as u32
    }
}

/// Whether a picture is less square than another, or as square and less
/// wide.
pub open spec fn less_square(a: Thumbnail, b: Thumbnail) -> bool {
    let da = if a.width >= a.height {
        a.width - a.height
    } else {
        a.height - a.width
    };
    let db = if b.width >= b.height {
        b.width - b.height
    } else {
        b.height - b.width
    };
    da > db || (da == db && a.width < b.width)
}

/// Whether a picture has a size.
pub open spec fn sized(t: Thumbnail) -> bool {
    t.width > 0 && t.height > 0
}

/// Whether `pick` is the squarest of `thumbnails`: among those with a
/// size, none is squarer, or as square and wider; it is the first of its
/// kind.
pub open spec fn squarest(thumbnails: Seq<Thumbnail>, pick: int) -> bool {
    &&& 0 <= pick < thumbnails.len()
    &&& sized(thumbnails[pick])
    &&& forall|j: int|
        0 <= j < thumbnails.len() && sized(#[trigger] thumbnails[j]) ==> !less_square(
            thumbnails[pick],
            thumbnails[j],
        )
    &&& forall|j: int|
        0 <= j < pick && sized(#[trigger] thumbnails[j]) ==> less_square(
            thumbnails[j],
            thumbnails[pick],
        )
}

/// Whether `pick` is the widest of `thumbnails`, the last of them where
/// several are as wide.
pub open spec fn widest(thumbnails: Seq<Thumbnail>, pick: int) -> bool {
    &&& 0 <= pick < thumbnails.len()
    &&& forall|j: int| 0 <= j < thumbnails.len() ==> (#[trigger] thumbnails[j]).width
        <= thumbnails[pick].width
    &&& forall|j: int| pick < j < thumbnails.len() ==> (#[trigger] thumbnails[j]).width
        < thumbnails[pick].width
}

fn is_less_square(a: &Thumbnail, b: &Thumbnail) -> (r: bool)
    requires
        sized(*a),
        sized(*b),
    ensures
        r == less_square(*a, *b),
{
    let da = if a.width >= a.height {
        a.width - a.height
    } else {
        a.height - a.width
    };
    let db = if b.width >= b.height {
        b.width - b.height
    } else {
        b.height - b.width
    };
    da > db || (da == db && a.width < b.width)
}

/// Picks the logo of a channel: of the pictures that have a size, the one
/// closest to a square, and of equally square ones the widest.
pub fn squarest_thumbnail(thumbnails: &Vec<Thumbnail>) -> (r: Option<usize>)
    ensures
        match r {
            Some(pick) => squarest(thumbnails@, pick as int),
            None => forall|j: int| 0 <= j < thumbnails.len() ==> !sized(thumbnails[j]),
        },
{
    let mut best: Option<usize> = None;
    let mut i: usize = 0;
    while i < thumbnails.len()
        invariant
            i <= thumbnails.len(),
            match best {
                Some(pick) => pick < i && squarest(thumbnails@.take(i as int), pick as int),
                None => forall|j: int| 0 <= j < i ==> !sized(thumbnails[j]),
            },
        decreases thumbnails.len() - i,
    {
        let ghost seen = thumbnails@.take(i as int);
        let ghost next = thumbnails@.take(i + 1);
        assert(forall|j: int| 0 <= j < i ==> next[j] == seen[j]);
        let t = &thumbnails[i];
        if t.width > 0 && t.height > 0 {
            match best {
                Some(pick) => {
                    if is_less_square(&thumbnails[pick], t) {
                        best = Some(i);
                    }
                },
                None => {
                    best = Some(i);
                },
            }
        }
        i = i + 1;
    }
    assert(thumbnails@.take(thumbnails.len() as int) == thumbnails@);
    best
}

/// Picks the picture of an episode: the widest, and of equally wide ones
/// the last.
pub fn widest_thumbnail(thumbnails: &Vec<Thumbnail>) -> (r: Option<usize>)
    ensures
        match r {
            Some(pick) => widest(thumbnails@, pick as int),
            None => thumbnails.len() == 0,
        },
{
    if thumbnails.len() == 0 {
        return None;
    }
    let mut best: usize = 0;
    let mut i: usize = 1;
    assert(widest(thumbnails@.take(1), 0));
    while i < thumbnails.len()
        invariant
            1 <= i <= thumbnails.len(),
            best < i,
            widest(thumbnails@.take(i as int), best as int),
        decreases thumbnails.len() - i,
    {
        let ghost seen = thumbnails@.take(i as int);
        let ghost next = thumbnails@.take(i + 1);
        assert(forall|j: int| 0 <= j < i ==> next[j] == seen[j]);
        if thumbnails[best].width <= thumbnails[i].width {
            best = i;
        }
        i = i + 1;
    }
    assert(thumbnails@.take(thumbnails.len() as int) == thumbnails@);
    Some(best)
}

/// The date noted for `id`, the first where it is noted more than once.
pub open spec fn date_of(dates: Seq<(Seq<char>, int)>, id: Seq<char>) -> Option<int>
    decreases dates.len(),
{
    if dates.len() == 0 {
        None
    } else if dates[0].0 == id {
        Some(dates[0].1)
    } else {
        date_of(dates.drop_first(), id)
    }
}

/// Noting a date at the end changes nothing for the ids noted before, and
/// gives the new id its date where it was not noted.
pub proof fn noting_keeps_dates(dates: Seq<(Seq<char>, int)>, id: Seq<char>, date: int, other:
    Seq<char>)
    ensures
        date_of(dates, other) is Some ==> date_of(dates.push((id, date)), other) == date_of(
            dates,
            other,
        ),
        date_of(dates, other) is None ==> date_of(dates.push((id, date)), other) == if other
            == id {
            Some(date)
        } else {
            None
        },
    decreases dates.len(),
{
    let noted = dates.push((id, date));
    if dates.len() > 0 {
        assert(noted[0] == dates[0]);
        assert(noted.drop_first() == dates.drop_first().push((id, date)));
        noting_keeps_dates(dates.drop_first(), id, date, other);
    } else {
        assert(noted[0] == (id, date));
        assert(noted.drop_first() == Seq::<(Seq<char>, int)>::empty());
        assert(date_of(Seq::<(Seq<char>, int)>::empty(), other) is None);
    }
}

/// The day on which each video was first seen. The downloader's short
/// description of a channel does not date its videos, so a video is dated
/// by the moment it first shows up here.
pub struct EpisodeDateRegistry {
    dict: Vec<(String, Date)>,
}

impl EpisodeDateRegistry {
    /// The dates noted so far, each an id with the seconds from the start
    /// of 1970, in the order in which they were noted.
    pub closed spec fn dates(&self) -> Seq<(Seq<char>, int)> {
        self.dict@.map_values(|noted: (String, Date)| (noted.0@, noted.1.timestamp()))
    }

    /// A registry that has seen no video.
    pub fn new() -> (r: Self)
        ensures
            r.dates() == Seq::<(Seq<char>, int)>::empty(),
    {
        let r = EpisodeDateRegistry { dict: Vec::new() };
        assert(r.dates() == Seq::<(Seq<char>, int)>::empty());
        r
    }

    /// The date of the video `id`, in universal time: the one noted for it,
    /// or `now`, which is then noted.
    pub fn get(&mut self, id: &str, now: Date) -> (date: Date)
        ensures
            date.offset() == 0,
            match date_of(old(self).dates(), id@) {
                Some(noted) => date.timestamp() == noted && final(self).dates() == old(
                    self,
                ).dates(),
                None => date.timestamp() == now.timestamp() && final(self).dates() == old(
                    self,
                ).dates().push((id@, now.timestamp())),
            },
            date_of(final(self).dates(), id@) == Some(date.timestamp()),
    {
        let ghost dates = self.dates();
        let mut i: usize = 0;
        assert(dates.skip(0) == dates);
        while i < self.dict.len()
            invariant
                i <= self.dict.len(),
                dates == self.dates(),
                *self == *old(self),
                date_of(dates, id@) == date_of(dates.skip(i as int), id@),
            decreases self.dict.len() - i,
        {
            assert(dates.skip(i as int)[0] == dates[i as int]);
            assert(dates.skip(i as int).drop_first() == dates.skip(i + 1));
            if same_text(self.dict[i].0.as_str(), id) {
                return self.dict[i].1.to_utc();
            }
            i = i + 1;
        }
        let now = now.to_utc();
        self.dict.push((String::from_str(id), now));
        proof {
            assert(self.dates() == dates.push((id@, now.timestamp())));
            noting_keeps_dates(dates, id@, now.timestamp(), id@);
        }
        now
    }
}

/// Whether `episode` is the episode made from `entry`, dated `date` and
/// served below `public_url`.
pub open spec fn episode_of(episode: Episode, entry: Entry, date: int, public_url: Seq<char>) -> bool {
    &&& episode.title@ == entry.title@
    &&& episode.link@ == entry.url@
    &&& episode.description@ == match entry.description {
        Some(text) => text@,
        None => Seq::empty(),
    }
    &&& episode.author@ == Seq::<char>::empty()
    &&& episode.duration == entry.duration
    &&& episode.guid@ == entry.id@
    &&& episode.pub_date@ == rfc2822_text(date, 0)
    &&& episode.audio_url@ == audio_address(public_url, entry.id@)
    &&& if entry.thumbnails.len() == 0 {
        episode.thumbnail.url@.len() == 0 && episode.thumbnail.width == 0
            && episode.thumbnail.height == 0
    } else {
        exists|pick: int|
            widest(entry.thumbnails@, pick) && episode.thumbnail.url@ == (
            #[trigger] entry.thumbnails[pick]).url@ && episode.thumbnail.width == unsigned(
                entry.thumbnails[pick].width,
            ) && episode.thumbnail.height == unsigned(entry.thumbnails[pick].height)
    }
}

/// Whether `episode` is the episode made from `entry`, with the date that
/// `dates` notes for it, served below `public_url`.
pub open spec fn dated_episode(
    dates: Seq<(Seq<char>, int)>,
    episode: Episode,
    entry: Entry,
    public_url: Seq<char>,
) -> bool {
    match date_of(dates, entry.id@) {
        Some(date) => episode_of(episode, entry, date, public_url),
        None => false,
    }
}

/// Makes the episode of a video, dated `date` and served below
/// `public_url`.
pub fn make_episode(entry: Entry, date: Date, public_url: &str) -> (episode: Episode)
    ensures
        episode_of(episode, entry, date.timestamp(), public_url@),
{
    let date = date.to_utc();
    let thumbnail = match widest_thumbnail(&entry.thumbnails) {
        Some(pick) => crate::podcast::Thumbnail {
            url: entry.thumbnails[pick].url.clone(),
            width: to_unsigned(entry.thumbnails[pick].width),
            height: to_unsigned(entry.thumbnails[pick].height),
        },
        None => crate::podcast::Thumbnail::none(),
    };
    let audio_url = audio_url(public_url, entry.id.as_str());
    let description = match entry.description {
        Some(text) => text,
        None => String::new(),
    };
    Episode {
        title: entry.title,
        link: entry.url,
        description,
        pub_date: date.to_rfc2822(),
        author: String::new(),
        guid: entry.id,
        duration: entry.duration,
        thumbnail,
        audio_url,
    }
}

/// The videos among `entries`, in their order.
pub open spec fn videos(entries: Seq<Option<Entry>>) -> Seq<Entry>
    decreases entries.len(),
{
    if entries.len() == 0 {
        Seq::empty()
    } else {
        match entries.last() {
            Some(entry) => videos(entries.drop_last()).push(entry),
            None => videos(entries.drop_last()),
        }
    }
}

/// The latest of the dates noted in `dates` for `videos`, the start of
/// 1970 where there is none.
pub open spec fn latest_date(dates: Seq<(Seq<char>, int)>, videos: Seq<Entry>) -> int
    decreases videos.len(),
{
    if videos.len() == 0 {
        0
    } else {
        let before = latest_date(dates, videos.drop_last());
        match date_of(dates, videos.last().id@) {
            Some(date) => if videos.len() == 1 || date > before {
                date
            } else {
                before
            },
            None => before,
        }
    }
}

/// Lets the downloader describe a channel and dates its videos by the
/// moment they are first seen.
pub struct Ytdlp {
    registry: EpisodeDateRegistry,
}

/// What the downloader printed about a channel, `None` where that could
/// not be read, with the moment of the request and the address that the
/// gateway is reached at.
pub struct YtdlpSource {
    pub channel: Option<Channel>,
    pub now: Date,
    pub public_url: String,
}

/// The arguments that make the downloader describe the latest videos of
/// the channel `channel_id` in one piece, without fetching their pages.
pub open spec fn playlist_arguments(channel_id: Seq<char>) -> Seq<Seq<char>> {
    seq![
        "--flat-playlist"@,
        "--dump-single-json"@,
        "--playlist-end"@,
        "20"@,
        "https://youtube.com/channel/"@ + channel_id + "/videos"@,
    ]
}

impl Ytdlp {
    /// The dates that the harvestor has noted.
    pub closed spec fn dates(&self) -> Seq<(Seq<char>, int)> {
        self.registry.dates()
    }

    /// A harvestor that has seen no video.
    pub fn new() -> (r: Self)
        ensures
            r.dates() == Seq::<(Seq<char>, int)>::empty(),
    {
        Ytdlp { registry: EpisodeDateRegistry::new() }
    }

    /// The arguments to run the downloader with for the channel
    /// `channel_id`.
    pub fn command(&self, channel_id: &str) -> (arguments: Vec<String>)
        ensures
            arguments.deep_view() == playlist_arguments(channel_id@),
    {
        let mut url = String::from_str("https://youtube.com/channel/");
        url.append(channel_id);
        url.append("/videos");
        let mut arguments: Vec<String> = Vec::new();
        arguments.push(String::from_str("--flat-playlist"));
        arguments.push(String::from_str("--dump-single-json"));
        arguments.push(String::from_str("--playlist-end"));
        arguments.push(String::from_str("20"));
        arguments.push(url);
        assert(arguments.deep_view() == playlist_arguments(channel_id@));
        arguments
    }

    /// Notes the date of every video of `entries` that has none yet, and
    /// gives the latest of their dates.
    fn last_episode_date(&mut self, entries: &Vec<Option<Entry>>, now: Date) -> (latest: Date)
        ensures
            latest.offset() == 0,
            forall|k: int|
                0 <= k < videos(entries@).len() ==> date_of(
                    final(self).dates(),
                    (#[trigger] videos(entries@)[k]).id@,
                ) is Some,
            forall|id: Seq<char>|
                date_of(old(self).dates(), id) is Some ==> date_of(final(self).dates(), id)
                    == date_of(old(self).dates(), id),
            forall|id: Seq<char>|
                date_of(old(self).dates(), id) is None && date_of(final(self).dates(), id)
                    is Some ==> date_of(final(self).dates(), id) == Some(now.timestamp()),
            latest.timestamp() == latest_date(final(self).dates(), videos(entries@)),
    {
        let mut latest = Date::epoch();
        let mut any = false;
        let mut i: usize = 0;
        assert(entries@.take(0) == Seq::<Option<Entry>>::empty());
        while i < entries.len()
            invariant
                i <= entries.len(),
                latest.offset() == 0,
                any == (videos(entries@.take(i as int)).len() > 0),
                forall|k: int|
                    0 <= k < videos(entries@.take(i as int)).len() ==> date_of(
                        self.dates(),
                        (#[trigger] videos(entries@.take(i as int))[k]).id@,
                    ) is Some,
                forall|id: Seq<char>|
                    date_of(old(self).dates(), id) is Some ==> date_of(self.dates(), id)
                        == date_of(old(self).dates(), id),
                forall|id: Seq<char>|
                    date_of(old(self).dates(), id) is None && date_of(self.dates(), id) is Some
                        ==> date_of(self.dates(), id) == Some(now.timestamp()),
                latest.timestamp() == latest_date(self.dates(), videos(entries@.take(i as int))),
            decreases entries.len() - i,
        {
            let ghost seen = videos(entries@.take(i as int));
            let ghost before = self.dates();
            assert(entries@.take(i + 1).drop_last() == entries@.take(i as int));
            assert(entries@.take(i + 1).last() == entries@[i as int]);
            match &entries[i] {
                Some(entry) => {
                    let date = self.registry.get(entry.id.as_str(), now);
                    proof {
                        let after = self.dates();
                        assert forall|id: Seq<char>| date_of(before, id) is Some implies date_of(
                            after,
                            id,
                        ) == date_of(before, id) by {
                            noting_keeps_dates(before, entry.id@, now.timestamp(), id);
                        }
                        assert forall|id: Seq<char>|
                            date_of(before, id) is None && date_of(after, id) is Some implies date_of(
                            after,
                            id,
                        ) == Some(now.timestamp()) by {
                            noting_keeps_dates(before, entry.id@, now.timestamp(), id);
                        }
                        let next = videos(entries@.take(i + 1));
                        assert(next == seen.push(*entry));
                        assert(next.drop_last() == seen);
                        latest_date_ignores_news(before, after, seen);
                    }
                    if !any || date.seconds() > latest.seconds() {
                        latest = date;
                    }
                    any = true;
                },
                None => {},
            }
            i = i + 1;
        }
        assert(entries@.take(entries.len() as int) == entries@);
        latest
    }

    /// Makes the podcast of a channel from the downloader's description
    /// of it. Every video that has not been seen before is dated `now`.
    pub fn make_podcast(&mut self, c: Channel, now: Date, public_url: &str) -> (podcast: Podcast)
        ensures
            made_from(
                podcast,
                c,
                old(self).dates(),
                final(self).dates(),
                now.timestamp(),
                public_url@,
            ),
    {
        let logo_url = match squarest_thumbnail(&c.thumbnails) {
            Some(pick) => {
                proof {
                    squarest_is_unique(c.thumbnails@, pick as int);
                }
                c.thumbnails[pick].url.clone()
            },
            None => {
                proof {
                    none_is_squarest(c.thumbnails@);
                }
                String::new()
            },
        };
        let latest = self.last_episode_date(&c.entries, now);
        let ghost dates = self.dates();
        let ghost all = c.entries@;
        let mut episodes: Vec<Episode> = Vec::new();
        assert(all.take(0) == Seq::<Option<Entry>>::empty());
        for entry in it: c.entries.into_iter()
            invariant
                it.seq() == all,
                self.dates() == dates,
                forall|k: int|
                    0 <= k < videos(all).len() ==> date_of(dates, (#[trigger] videos(all)[k]).id@)
                        is Some,
                episodes.len() == videos(all.take(it.index() as int)).len(),
                forall|k: int|
                    0 <= k < episodes.len() ==> dated_episode(
                        dates,
                        #[trigger] episodes[k],
                        videos(all.take(it.index() as int))[k],
                        public_url@,
                    ),
        {
            let ghost i = it.index() as int;
            let ghost seen = videos(all.take(i));
            assert(all.take(i + 1).drop_last() == all.take(i));
            assert(all.take(i + 1).last() == entry);
            match entry {
                Some(entry) => {
                    proof {
                        videos_are_among(all, i);
                    }
                    let ghost video = entry;
                    let date = self.registry.get(entry.id.as_str(), now);
                    let episode = make_episode(entry, date, public_url);
                    episodes.push(episode);
                    assert(videos(all.take(i + 1)) == seen.push(video));
                    assert forall|k: int| 0 <= k < episodes.len() implies dated_episode(
                        dates,
                        #[trigger] episodes[k],
                        videos(all.take(i + 1))[k],
                        public_url@,
                    ) by {
                        if k < seen.len() {
                            assert(videos(all.take(i + 1))[k] == seen[k]);
                        }
                    }
                },
                None => {},
            }
        }
        assert(all.take(all.len() as int) == all);
        Podcast {
            title: c.channel,
            description: match c.description {
                Some(text) => text,
                None => String::new(),
            },
            last_build_date: latest.to_rfc2822(),
            language: String::from_str("en"),
            author: c.uploader_id,
            categories: c.tags,
            channel_url: c.channel_url,
            episodes,
            logo_url,
        }
    }
}

/// Whether `podcast` is the podcast made from the description `c` of a
/// channel by a harvestor whose dates were `before` and are `after`, at
/// the moment `now`, served below `public_url`: the channel is described as
/// `c` says, its logo is the squarest picture, its episodes are the videos
/// in their order, each dated by its first sight, and it was last built
/// when the latest of them was first seen.
pub open spec fn made_from(
    podcast: Podcast,
    c: Channel,
    before: Seq<(Seq<char>, int)>,
    after: Seq<(Seq<char>, int)>,
    now: int,
    public_url: Seq<char>,
) -> bool {
    &&& podcast.title@ == c.channel@
    &&& podcast.description@ == match c.description {
        Some(text) => text@,
        None => Seq::empty(),
    }
    &&& podcast.language@ == "en"@
    &&& podcast.author@ == c.uploader_id@
    &&& podcast.categories == c.tags
    &&& podcast.channel_url@ == c.channel_url@
    &&& podcast.last_build_date@ == rfc2822_text(latest_date(after, videos(c.entries@)), 0)
    &&& match squarest_pick(c.thumbnails@) {
        Some(pick) => podcast.logo_url@ == c.thumbnails[pick].url@,
        None => podcast.logo_url@.len() == 0,
    }
    &&& podcast.episodes.len() == videos(c.entries@).len()
    &&& forall|k: int|
        0 <= k < podcast.episodes.len() ==> dated_episode(
            after,
            #[trigger] podcast.episodes[k],
            videos(c.entries@)[k],
            public_url,
        )
    &&& forall|id: Seq<char>|
        date_of(before, id) is Some ==> date_of(after, id) == date_of(before, id)
    &&& forall|id: Seq<char>|
        date_of(before, id) is None && date_of(after, id) is Some ==> date_of(after, id) == Some(
            now,
        )
}

/// The squarest of `thumbnails`, `None` where none has a size.
pub open spec fn squarest_pick(thumbnails: Seq<Thumbnail>) -> Option<int> {
    if exists|pick: int| squarest(thumbnails, pick) {
        Some(choose|pick: int| squarest(thumbnails, pick))
    } else {
        None
    }
}

/// There is one squarest picture at most.
proof fn squarest_is_unique(thumbnails: Seq<Thumbnail>, pick: int)
    requires
        squarest(thumbnails, pick),
    ensures
        squarest_pick(thumbnails) == Some(pick),
{
    let other = choose|other: int| squarest(thumbnails, other);
    if other < pick {
        assert(less_square(thumbnails[other], thumbnails[pick]));
        assert(!less_square(thumbnails[other], thumbnails[pick]));
    } else if pick < other {
        assert(less_square(thumbnails[pick], thumbnails[other]));
        assert(!less_square(thumbnails[pick], thumbnails[other]));
    }
}

/// Where no picture has a size, none is the squarest.
proof fn none_is_squarest(thumbnails: Seq<Thumbnail>)
    requires
        forall|j: int| 0 <= j < thumbnails.len() ==> !sized(thumbnails[j]),
    ensures
        squarest_pick(thumbnails) is None,
{
}

/// The latest date of videos whose dates were noted before does not change
/// when more dates are noted.
proof fn latest_date_ignores_news(
    before: Seq<(Seq<char>, int)>,
    after: Seq<(Seq<char>, int)>,
    videos: Seq<Entry>,
)
    requires
        forall|k: int| 0 <= k < videos.len() ==> date_of(before, (#[trigger] videos[k]).id@) is Some,
        forall|id: Seq<char>|
            date_of(before, id) is Some ==> date_of(after, id) == date_of(before, id),
    ensures
        latest_date(after, videos) == latest_date(before, videos),
    decreases videos.len(),
{
    if videos.len() > 0 {
        let rest = videos.drop_last();
        assert forall|k: int| 0 <= k < rest.len() implies date_of(before, (#[trigger] rest[k]).id@)
            is Some by {
            assert(rest[k] == videos[k]);
        }
        latest_date_ignores_news(before, after, rest);
        assert(videos.last() == videos[videos.len() - 1]);
    }
}

/// The video at place `i` of `entries`, where there is one, is the last of
/// the videos up to there and one of all the videos.
proof fn videos_are_among(entries: Seq<Option<Entry>>, i: int)
    requires
        0 <= i < entries.len(),
        entries[i] is Some,
    ensures
        videos(entries.take(i)).len() < videos(entries).len(),
        videos(entries)[videos(entries.take(i)).len() as int] == entries[i]->0,
    decreases entries.len(),
{
    let shorter = entries.drop_last();
    if i == entries.len() - 1 {
        assert(entries.take(i) == shorter);
    } else {
        assert(shorter.take(i) == entries.take(i));
        videos_are_among(shorter, i);
    }
}

impl Harvestor for Ytdlp {
    type Source = YtdlpSource;

    /// Makes the podcast from the downloader's description. Fails with
    /// `Extraction` where the description could not be read.
    fn harvest(&mut self, channel_id: &str, source: YtdlpSource) -> (r: Result<Podcast, Error>)
        ensures
            match source.channel {
                Some(channel) => r matches Ok(podcast) && made_from(
                    podcast,
                    channel,
                    old(self).dates(),
                    final(self).dates(),
                    source.now.timestamp(),
                    source.public_url@,
                ),
                None => r matches Err(Error::Extraction) && final(self).dates() == old(
                    self,
                ).dates(),
            },
    {
        match source.channel {
            Some(channel) => Ok(self.make_podcast(channel, source.now, source.public_url.as_str())),
            None => Err(Error::Extraction),
        }
    }
}

} // verus!
