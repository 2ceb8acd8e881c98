use youtube_audio_feed::atom::{Element, Entry, Extension, Feed};
use youtube_audio_feed::date::Date;
use youtube_audio_feed::error::Error;
use youtube_audio_feed::harvestor::rss_piped;
use youtube_audio_feed::harvestor::rss_piped::{
    get_extra_info, get_logo, get_tags, logo_from, strip_prefix, tags_from, ExtraInfo,
    PipedChannel, PipedStream, RssPipedSource,
};
use youtube_audio_feed::web::{value_of_node, values_of_nodes};
use youtube_audio_feed::harvestor::rss_ytextract;
use youtube_audio_feed::harvestor::rss_ytextract::{
    gather_uploads, widest_picture, Picture, RssYtextractSource, Video,
};
use youtube_audio_feed::harvestor::ytdlp;
use youtube_audio_feed::harvestor::ytdlp::{
    squarest_thumbnail, widest_thumbnail, Channel, EpisodeDateRegistry, YtdlpSource,
};
use youtube_audio_feed::harvestor::{Harvestor, RssPiped, RssYtextract, Ytdlp};
use youtube_audio_feed::piped::PipedInstance;
use youtube_audio_feed::rss::RssChannel;

fn date(seconds: i64) -> Date {
    Date::from_timestamp(seconds).unwrap()
}

#[test]
fn test_episode_date_registry() {
    let mut registry = EpisodeDateRegistry::new();
    let date = registry.get("test", Date::from_timestamp(1_700_000_000).unwrap());
    assert_eq!(
        registry.get("test", Date::from_timestamp(1_700_000_999).unwrap()),
        date
    );
}

#[test]
fn registry_dates_each_video_by_its_first_sight() {
    let mut registry = EpisodeDateRegistry::new();
    assert_eq!(registry.get("a", date(100)), date(100));
    assert_eq!(registry.get("b", date(200)), date(200));
    assert_eq!(registry.get("a", date(300)), date(100));
    assert_eq!(registry.get("b", date(300)), date(200));
}

fn thumb(url: &str, width: i32, height: i32) -> ytdlp::Thumbnail {
    ytdlp::Thumbnail {
        url: url.to_string(),
        width,
        height,
    }
}

#[test]
fn logo_is_the_squarest_and_then_the_widest_picture() {
    let pictures = vec![
        thumb("banner", 2000, 300),
        thumb("nosize", 0, 0),
        thumb("small", 100, 100),
        thumb("large", 900, 900),
        thumb("large2", 900, 900),
        thumb("near", 901, 900),
    ];
    assert_eq!(squarest_thumbnail(&pictures), Some(3));
    assert_eq!(squarest_thumbnail(&vec![thumb("nosize", 0, 10)]), None);
    assert_eq!(squarest_thumbnail(&vec![]), None);
    let pictures = vec![thumb("tall", 100, 300), thumb("wide", 300, 100)];
    assert_eq!(squarest_thumbnail(&pictures), Some(1));
}

#[test]
fn episode_picture_is_the_last_of_the_widest() {
    let pictures = vec![thumb("a", 10, 1), thumb("b", 30, 1), thumb("c", 30, 2), thumb("d", 5, 1)];
    assert_eq!(widest_thumbnail(&pictures), Some(2));
    assert_eq!(widest_thumbnail(&vec![]), None);
}

fn video_entry(id: &str, thumbnails: Vec<ytdlp::Thumbnail>) -> ytdlp::Entry {
    ytdlp::Entry {
        id: id.to_string(),
        title: format!("Title {}", id),
        url: format!("https://www.youtube.com/watch?v={}", id),
        description: None,
        thumbnails,
        duration: 61,
    }
}

#[test]
fn downloader_channel_becomes_a_podcast() {
    let channel = Channel {
        channel: "Chan".to_string(),
        channel_url: "https://www.youtube.com/channel/UC1".to_string(),
        description: Some("about".to_string()),
        tags: vec!["science".to_string()],
        entries: vec![
            Some(video_entry("a", vec![thumb("t1", 10, 10), thumb("t2", 20, 10)])),
            None,
            Some(video_entry("b", vec![thumb("neg", -1, -2)])),
            Some(video_entry("c", vec![])),
        ],
        thumbnails: vec![thumb("banner", 2000, 300), thumb("logo", 900, 900)],
        uploader_id: "@chan".to_string(),
    };
    let mut harvestor = Ytdlp::new();
    let podcast = harvestor.make_podcast(channel, date(1_057_056_757), "http://g");
    assert_eq!(podcast.title, "Chan");
    assert_eq!(podcast.description, "about");
    assert_eq!(podcast.language, "en");
    assert_eq!(podcast.author, "@chan");
    assert_eq!(podcast.categories, vec!["science"]);
    assert_eq!(podcast.channel_url, "https://www.youtube.com/channel/UC1");
    assert_eq!(podcast.logo_url, "logo");
    assert_eq!(podcast.last_build_date, "Tue, 1 Jul 2003 10:52:37 +0000");
    assert_eq!(podcast.episodes.len(), 3);
    let first = &podcast.episodes[0];
    assert_eq!(first.title, "Title a");
    assert_eq!(first.link, "https://www.youtube.com/watch?v=a");
    assert_eq!(first.description, "");
    assert_eq!(first.author, "");
    assert_eq!(first.guid, "a");
    assert_eq!(first.duration, 61);
    assert_eq!(first.pub_date, "Tue, 1 Jul 2003 10:52:37 +0000");
    assert_eq!(first.audio_url, "http://g/audio/a");
    assert_eq!(first.thumbnail.url, "t2");
    assert_eq!(first.thumbnail.width, 20);
    assert_eq!(first.thumbnail.height, 10);
    let second = &podcast.episodes[1];
    assert_eq!(second.guid, "b");
    assert_eq!(second.thumbnail.width, u32::MAX);
    assert_eq!(second.thumbnail.height, u32::MAX - 1);
    let third = &podcast.episodes[2];
    assert_eq!(third.guid, "c");
    assert_eq!(third.thumbnail.url, "");
    assert_eq!(third.thumbnail.width, 0);
}

#[test]
fn videos_keep_the_date_of_their_first_sight() {
    let mut harvestor = Ytdlp::new();
    let channel = |ids: &[&str]| Channel {
        channel: "Chan".to_string(),
        channel_url: "u".to_string(),
        description: None,
        tags: vec![],
        entries: ids.iter().map(|id| Some(video_entry(id, vec![]))).collect(),
        thumbnails: vec![],
        uploader_id: "@chan".to_string(),
    };
    let first = harvestor.make_podcast(channel(&["a"]), date(0), "http://g");
    assert_eq!(first.last_build_date, "Thu, 1 Jan 1970 00:00:00 +0000");
    assert_eq!(first.logo_url, "");
    assert_eq!(first.description, "");
    let second = harvestor.make_podcast(channel(&["b", "a"]), date(1_057_056_757), "http://g");
    assert_eq!(second.last_build_date, "Tue, 1 Jul 2003 10:52:37 +0000");
    assert_eq!(second.episodes[0].pub_date, "Tue, 1 Jul 2003 10:52:37 +0000");
    assert_eq!(second.episodes[1].pub_date, "Thu, 1 Jan 1970 00:00:00 +0000");
    let third = harvestor.make_podcast(channel(&[]), date(1_057_056_757), "http://g");
    assert_eq!(third.last_build_date, "Thu, 1 Jan 1970 00:00:00 +0000");
    assert!(third.episodes.is_empty());
}

#[test]
fn downloader_harvest_needs_a_readable_description() {
    let mut harvestor = Ytdlp::new();
    assert_eq!(
        harvestor.command("UC1"),
        vec![
            "--flat-playlist",
            "--dump-single-json",
            "--playlist-end",
            "20",
            "https://youtube.com/channel/UC1/videos",
        ]
    );
    let source = YtdlpSource {
        channel: None,
        now: date(0),
        public_url: "http://g".to_string(),
    };
    assert!(matches!(
        harvestor.harvest("UC1", source),
        Err(Error::Extraction)
    ));
    let source = YtdlpSource {
        channel: Some(Channel {
            channel: "Chan".to_string(),
            channel_url: "u".to_string(),
            description: None,
            tags: vec![],
            entries: vec![],
            thumbnails: vec![],
            uploader_id: "@chan".to_string(),
        }),
        now: date(0),
        public_url: "http://g".to_string(),
    };
    assert_eq!(harvestor.harvest("UC1", source).unwrap().title, "Chan");
}

fn element(value: Option<&str>, attrs: &[(&str, &str)]) -> Element {
    Element {
        value: value.map(|v| v.to_string()),
        attrs: attrs
            .iter()
            .map(|(k, v)| (k.to_string(), v.to_string()))
            .collect(),
    }
}

fn entry(video_id: &str) -> Entry {
    Entry {
        id: format!("yt:video:{}", video_id),
        title: format!("Title of {}", video_id),
        updated: date(1_057_056_757),
        authors: vec!["Author".to_string()],
        links: vec![format!("https://www.youtube.com/watch?v={}", video_id)],
        extensions: vec![
            (
                "media".to_string(),
                vec![(
                    "group".to_string(),
                    vec![Extension {
                        value: None,
                        children: vec![
                            (
                                "description".to_string(),
                                vec![element(Some("about it"), &[])],
                            ),
                            (
                                "thumbnail".to_string(),
                                vec![element(
                                    None,
                                    &[("url", "https://i/1.jpg"), ("width", "480"), ("height", "360")],
                                )],
                            ),
                        ],
                    }],
                )],
            ),
            (
                "yt".to_string(),
                vec![(
                    "videoId".to_string(),
                    vec![Extension {
                        value: Some(video_id.to_string()),
                        children: vec![],
                    }],
                )],
            ),
        ],
    }
}

fn stream(video_id: &str, duration: u64, is_short: bool) -> PipedStream {
    PipedStream {
        video_id: video_id.to_string(),
        duration,
        is_short,
    }
}

fn feed(entries: Vec<Entry>) -> Feed {
    Feed {
        title: "Channel".to_string(),
        updated: date(1_057_056_757),
        subtitle: None,
        lang: Some("de".to_string()),
        authors: vec!["A".to_string(), "B".to_string()],
        links: vec!["https://www.youtube.com/channel/UC1".to_string()],
        entries,
    }
}

#[test]
fn prefix_is_taken_off() {
    assert_eq!(strip_prefix("/watch?v=abc", "/watch?v="), Some("abc".to_string()));
    assert_eq!(strip_prefix("/watch?v=", "/watch?v="), Some(String::new()));
    assert_eq!(strip_prefix("watch?v=abc", "/watch?v="), None);
    assert_eq!(strip_prefix("abc", ""), Some("abc".to_string()));
    assert_eq!(strip_prefix("", "a"), None);
}

#[test]
fn mirror_channel_lists_videos_by_id() {
    let channel = PipedChannel {
        description: Some("d".to_string()),
        related_streams: vec![stream("/watch?v=a", 10, false), stream("/watch?v=b", 20, true)],
    };
    let channel = channel.with_video_ids().unwrap();
    assert_eq!(channel.related_streams[0].video_id, "a");
    assert_eq!(channel.related_streams[1].video_id, "b");
    assert_eq!(channel.get_stream("b").unwrap().duration, 20);
    assert!(channel.get_stream("b").unwrap().is_short);
    assert!(channel.get_stream("c").is_none());
    let channel = PipedChannel {
        description: None,
        related_streams: vec![stream("/watch?v=a", 10, false), stream("/shorts/b", 20, true)],
    };
    assert!(matches!(channel.with_video_ids(), Err(Error::Invidious(_))));
}

#[test]
fn page_gives_logo_and_tags() {
    let page = "<html><head>\
        <link rel=\"image_src\" href=\"https://yt3.example/abc=s900-c-k\">\
        <meta property=\"og:video:tag\" content=\"science\">\
        <meta property=\"og:title\" content=\"T\">\
        <meta property=\"og:video:tag\" content=\"physics\">\
        </head></html>";
    assert_eq!(get_logo(page).unwrap(), "https://yt3.example/abc=s1400-c-k");
    assert_eq!(get_tags(page).unwrap(), vec!["science", "physics"]);
    let info = get_extra_info(page).unwrap();
    assert_eq!(info.logo_url, "https://yt3.example/abc=s1400-c-k");
    assert_eq!(info.tags, vec!["science", "physics"]);
    assert!(matches!(
        get_logo("<html></html>"),
        Err(Error::InvalidHTML("link[rel=image_src]"))
    ));
    assert!(get_tags("<html></html>").unwrap().is_empty());
    assert!(matches!(
        get_extra_info("<html></html>"),
        Err(Error::InvalidHTML("link[rel=image_src]"))
    ));
}

#[test]
fn page_with_a_valueless_picture_or_tag_is_refused() {
    assert!(matches!(
        get_logo("<link rel=\"image_src\" href>"),
        Err(Error::InvalidHTML("link[href]"))
    ));
    let page = "<meta property=\"og:video:tag\" content=\"a\">\
        <meta property=\"og:video:tag\" content>";
    assert!(matches!(
        get_tags(page),
        Err(Error::InvalidHTML("meta[property=og:video:tag] content"))
    ));
}

#[test]
fn found_nodes_are_judged_one_by_one() {
    let value = |v: &str| Some(Some(v.to_string()));
    assert_eq!(logo_from(&vec![value("https://l/x=s88"), None]).unwrap(), "https://l/x=s1400");
    assert!(matches!(
        logo_from(&vec![None, value("https://l/x=s88")]),
        Err(Error::InvalidHTML("thumbnail"))
    ));
    assert!(matches!(
        logo_from(&vec![Some(None)]),
        Err(Error::InvalidHTML("link[href]"))
    ));
    assert!(matches!(
        logo_from(&vec![]),
        Err(Error::InvalidHTML("link[rel=image_src]"))
    ));
    assert_eq!(tags_from(vec![value("a"), value("b")]).unwrap(), vec!["a", "b"]);
    assert!(matches!(
        tags_from(vec![value("a"), None, Some(None)]),
        Err(Error::InvalidHTML("meta[property=og:video:tag]"))
    ));
    assert!(matches!(
        tags_from(vec![value("a"), Some(None), None]),
        Err(Error::InvalidHTML("meta[property=og:video:tag] content"))
    ));
    assert!(tags_from(vec![]).unwrap().is_empty());
}

#[test]
fn nodes_give_a_value_no_value_or_no_tag() {
    assert_eq!(value_of_node(None), None);
    assert_eq!(value_of_node(Some(None)), None);
    assert_eq!(value_of_node(Some(Some(None))), Some(None));
    assert_eq!(value_of_node(Some(Some(Some(None)))), Some(None));
    assert_eq!(
        value_of_node(Some(Some(Some(Some("v".to_string()))))),
        Some(Some("v".to_string()))
    );
    assert_eq!(
        values_of_nodes(vec![Some(Some(Some(Some("v".to_string())))), Some(None)]),
        vec![Some(Some("v".to_string())), None]
    );
}

#[test]
fn feed_entry_and_mirror_listing_make_an_episode() {
    let channel = PipedChannel {
        description: None,
        related_streams: vec![stream("a", 95, false), stream("s", 30, true)],
    };
    let episode = rss_piped::make_episode(entry("a"), &channel, "http://g")
        .unwrap()
        .unwrap();
    assert_eq!(episode.title, "Title of a");
    assert_eq!(episode.link, "https://www.youtube.com/watch?v=a");
    assert_eq!(episode.description, "about it");
    assert_eq!(episode.pub_date, "Tue, 1 Jul 2003 10:52:37 +0000");
    assert_eq!(episode.author, "Author");
    assert_eq!(episode.guid, "yt:video:a");
    assert_eq!(episode.duration, 95);
    assert_eq!(episode.thumbnail.url, "https://i/1.jpg");
    assert_eq!(episode.audio_url, "http://g/audio/a");
    assert!(rss_piped::make_episode(entry("s"), &channel, "http://g")
        .unwrap()
        .is_none());
    assert!(rss_piped::make_episode(entry("x"), &channel, "http://g")
        .unwrap()
        .is_none());
    let mut bad = entry("a");
    bad.extensions.clear();
    assert!(matches!(
        rss_piped::make_episode(bad, &channel, "http://g"),
        Err(Error::InvalidFeedEntry(_, "not media extension"))
    ));
    let mut bad = entry("a");
    bad.links.clear();
    assert!(matches!(
        rss_piped::make_episode(bad, &channel, "http://g"),
        Err(Error::InvalidFeedEntry(_, "no link found"))
    ));
}

#[test]
fn feed_page_and_mirror_make_a_podcast() {
    let channel = PipedChannel {
        description: Some("from the mirror".to_string()),
        related_streams: vec![stream("a", 95, false), stream("s", 30, true), stream("b", 7, false)],
    };
    let extra = ExtraInfo {
        logo_url: "logo".to_string(),
        tags: vec!["t".to_string()],
    };
    let podcast = rss_piped::make_podcast(
        feed(vec![entry("a"), entry("s"), entry("x"), entry("b")]),
        extra,
        channel,
        "http://g",
    )
    .unwrap();
    assert_eq!(podcast.title, "Channel");
    assert_eq!(podcast.description, "from the mirror");
    assert_eq!(podcast.last_build_date, "Tue, 1 Jul 2003 10:52:37 +0000");
    assert_eq!(podcast.language, "de");
    assert_eq!(podcast.author, "A, B");
    assert_eq!(podcast.logo_url, "logo");
    assert_eq!(podcast.categories, vec!["t"]);
    assert_eq!(podcast.channel_url, "https://www.youtube.com/channel/UC1");
    assert_eq!(podcast.episodes.len(), 2);
    assert_eq!(podcast.episodes[0].guid, "yt:video:a");
    assert_eq!(podcast.episodes[1].guid, "yt:video:b");
}

#[test]
fn mirror_harvest_puts_the_pieces_together() {
    let instance = PipedInstance::new("https://api.example".to_string());
    let mut harvestor = RssPiped::new(instance);
    assert_eq!(
        harvestor.channel_request("UC1"),
        "https://api.example/channel/UC1"
    );
    let source = RssPipedSource {
        feed: feed(vec![entry("a")]),
        page: "<link rel=\"image_src\" href=\"https://l/x=s88\">".to_string(),
        piped_channel: PipedChannel {
            description: None,
            related_streams: vec![stream("/watch?v=a", 95, false)],
        },
        public_url: "http://g".to_string(),
    };
    let podcast = harvestor.harvest("UC1", source).unwrap();
    assert_eq!(podcast.logo_url, "https://l/x=s1400");
    assert_eq!(podcast.episodes.len(), 1);
    assert_eq!(podcast.episodes[0].duration, 95);
}

fn picture(url: &str, width: u64) -> Picture {
    Picture {
        url: url.to_string(),
        width,
        height: width / 2,
    }
}

fn video(id: &str) -> Video {
    Video {
        id: id.to_string(),
        title: format!("Title {}", id),
        description: "about".to_string(),
        date: date(1_057_017_600),
        duration: 125,
        thumbnails: vec![picture("small", 100), picture("big", 0x1_0000_0140), picture("mid", 200)],
    }
}

#[test]
fn page_of_a_video_makes_an_episode() {
    let episode = rss_ytextract::make_episode(video("abc"), "http://g");
    assert_eq!(episode.title, "Title abc");
    assert_eq!(episode.link, "https://www.youtube.com/watch?v=abc");
    assert_eq!(episode.description, "about");
    assert_eq!(episode.pub_date, "Tue, 1 Jul 2003 00:00:00 +0000");
    assert_eq!(episode.author, "");
    assert_eq!(episode.guid, "abc");
    assert_eq!(episode.duration, 125);
    assert_eq!(episode.audio_url, "http://g/audio/abc");
    assert_eq!(episode.thumbnail.url, "big");
    assert_eq!(episode.thumbnail.width, 0x140);
    assert_eq!(episode.thumbnail.height, 0x8000_00a0);
    assert_eq!(widest_picture(&vec![picture("a", 5), picture("b", 5)]), Some(1));
    assert_eq!(widest_picture(&vec![]), None);
}

#[test]
fn uploads_are_gathered_up_to_the_first_failure() {
    let videos = gather_uploads(vec![Ok(video("a")), Ok(video("b"))]).unwrap();
    assert_eq!(videos.len(), 2);
    assert_eq!(videos[1].id, "b");
    let r = gather_uploads(vec![
        Ok(video("a")),
        Err(Error::Ytextract("first".to_string())),
        Err(Error::Ytextract("second".to_string())),
    ]);
    assert!(matches!(r, Err(Error::Ytextract(text)) if text == "first"));
}

fn rss_channel() -> RssChannel {
    RssChannel {
        title: "Channel".to_string(),
        updated: "Tue, 1 Jul 2003 10:52:37 +0000".to_string(),
        description: "sub".to_string(),
        language: "en".to_string(),
        author: "A".to_string(),
        episodes: vec![],
    }
}

#[test]
fn feed_and_pages_make_a_podcast() {
    let avatars = vec![picture("small", 88), picture("large", 900)];
    let podcast = rss_ytextract::make_podcast(
        "UC1",
        rss_channel(),
        &avatars,
        vec![video("a"), video("b")],
        "http://g",
    );
    assert_eq!(podcast.title, "Channel");
    assert_eq!(podcast.description, "sub");
    assert_eq!(podcast.last_build_date, "Tue, 1 Jul 2003 10:52:37 +0000");
    assert_eq!(podcast.language, "en");
    assert_eq!(podcast.author, "A");
    assert_eq!(podcast.logo_url, "large");
    assert!(podcast.categories.is_empty());
    assert_eq!(podcast.channel_url, "https://www.youtube.com/channel/UC1");
    assert_eq!(podcast.episodes.len(), 2);
    assert_eq!(podcast.episodes[1].guid, "b");

    let mut harvestor = RssYtextract::new();
    let source = RssYtextractSource {
        rss_channel: rss_channel(),
        avatars: vec![],
        uploads: vec![Ok(video("a")), Err(Error::Ytextract("gone".to_string()))],
        public_url: "http://g".to_string(),
    };
    assert!(matches!(
        harvestor.harvest("UC1", source),
        Err(Error::Ytextract(_))
    ));
    let source = RssYtextractSource {
        rss_channel: rss_channel(),
        avatars: vec![],
        uploads: vec![Ok(video("a"))],
        public_url: "http://g".to_string(),
    };
    let podcast = harvestor.harvest("UC1", source).unwrap();
    assert_eq!(podcast.logo_url, "");
    assert_eq!(podcast.episodes.len(), 1);
}
