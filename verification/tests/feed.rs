use youtube_audio_feed::atom::{lookup, Element, Entry, Extension, Feed};
use youtube_audio_feed::date::Date;
use youtube_audio_feed::error::Error;
use youtube_audio_feed::extractor::piped::AudioStream;
use youtube_audio_feed::piped::PipedInstance;
use youtube_audio_feed::feed::{
    channel_id_from, channel_lookup, channel_podcast_url, channel_ref_from, client_name,
    extract_youtube_channel_ref, find_youtube_channel_id, ChannelLookup, ChannelRef,
};
use youtube_audio_feed::rss::{feed_url, RssChannel, RssEpisode};
use youtube_audio_feed::util::feed_ext::{
    audio_url, audio_url_from_query, find_query_value, translate_video_to_audio_url,
};
use youtube_audio_feed::util::W;

fn element(value: Option<&str>, attrs: &[(&str, &str)]) -> Element {
    Element {
        value: value.map(|v| v.to_string()),
        attrs: attrs
            .iter()
            .map(|(k, v)| (k.to_string(), v.to_string()))
            .collect(),
    }
}

fn entry(video_id: &str) -> Entry {
    Entry {
        id: format!("yt:video:{}", video_id),
        title: format!("Title of {}", video_id),
        updated: Date::from_timestamp(1_057_056_757).unwrap(),
        authors: vec!["Author".to_string(), "Other".to_string()],
        links: vec![format!("https://www.youtube.com/watch?v={}", video_id)],
        extensions: vec![
            (
                "media".to_string(),
                vec![(
                    "group".to_string(),
                    vec![Extension {
                        value: None,
                        children: vec![
                            (
                                "description".to_string(),
                                vec![element(Some("about it"), &[])],
                            ),
                            (
                                "thumbnail".to_string(),
                                vec![element(
                                    None,
                                    &[
                                        ("url", "https://i.example/1.jpg"),
                                        ("width", "480"),
                                        ("height", "360"),
                                    ],
                                )],
                            ),
                        ],
                    }],
                )],
            ),
            (
                "yt".to_string(),
                vec![(
                    "videoId".to_string(),
                    vec![Extension {
                        value: Some(video_id.to_string()),
                        children: vec![],
                    }],
                )],
            ),
        ],
    }
}

fn fault(r: Result<impl Sized, Error>) -> (String, &'static str) {
    match r {
        Err(Error::InvalidFeedEntry(id, why)) => (id, why),
        _ => panic!("an invalid entry was expected"),
    }
}

#[test]
fn entry_gives_what_an_episode_needs() {
    let e = entry("abc");
    assert_eq!(W(&e).description().unwrap(), "about it");
    let thumbnail = W(&e).thumbnail().unwrap();
    assert_eq!(thumbnail.url, "https://i.example/1.jpg");
    assert_eq!(thumbnail.width, 480);
    assert_eq!(thumbnail.height, 360);
    assert_eq!(W(&e).link().unwrap(), "https://www.youtube.com/watch?v=abc");
    assert_eq!(W(&e).video_id().unwrap(), "abc");
    let info = W(&e).audio_info("http://localhost:8080").unwrap();
    assert_eq!(info.url, "http://localhost:8080/audio/abc");
    assert_eq!(info.mime_type, "audio/mpeg");
}

#[test]
fn entry_without_media_is_refused() {
    let mut e = entry("abc");
    e.extensions.remove(0);
    assert_eq!(
        fault(W(&e).description()),
        ("yt:video:abc".to_string(), "not media extension")
    );
    assert_eq!(fault(W(&e).thumbnail()).1, "not media extension");

    let mut e = entry("abc");
    e.extensions[0].1[0].0 = "content".to_string();
    assert_eq!(fault(W(&e).description()).1, "not media group");

    let mut e = entry("abc");
    e.extensions[0].1[0].1.clear();
    assert_eq!(fault(W(&e).description()).1, "not media group");

    let mut e = entry("abc");
    e.extensions[0].1[0].1[0].children.remove(0);
    assert_eq!(fault(W(&e).description()).1, "no media group children");
    assert!(W(&e).thumbnail().is_ok());

    let mut e = entry("abc");
    e.extensions[0].1[0].1[0].children[0].1.clear();
    assert_eq!(fault(W(&e).description()).1, "no media group children");

    let mut e = entry("abc");
    e.extensions[0].1[0].1[0].children[0].1[0].value = None;
    assert_eq!(
        fault(W(&e).description()).1,
        "invalid description attribute"
    );
}

#[test]
fn thumbnail_size_that_is_no_number_counts_as_zero() {
    let mut e = entry("abc");
    e.extensions[0].1[0].1[0].children[1].1[0].attrs[1].1 = "wide".to_string();
    e.extensions[0].1[0].1[0].children[1].1[0].attrs[2].1 = "4294967296".to_string();
    let thumbnail = W(&e).thumbnail().unwrap();
    assert_eq!(thumbnail.width, 0);
    assert_eq!(thumbnail.height, 0);
    e.extensions[0].1[0].1[0].children[1].1[0].attrs[2].1 = "4294967295".to_string();
    assert_eq!(W(&e).thumbnail().unwrap().height, u32::MAX);
}

#[test]
fn thumbnail_without_an_attribute_is_refused() {
    let mut e = entry("abc");
    e.extensions[0].1[0].1[0].children[1].1[0].attrs.remove(0);
    assert_eq!(fault(W(&e).thumbnail()).1, "invalid thumbnail attribute");
}

#[test]
fn entry_without_video_id_is_refused() {
    let mut e = entry("abc");
    e.extensions.remove(1);
    assert_eq!(fault(W(&e).video_id()).1, "not yt extension");
    let mut e = entry("abc");
    e.extensions[1].1[0].0 = "channelId".to_string();
    assert_eq!(fault(W(&e).video_id()).1, "no yt:videoId found");
    let mut e = entry("abc");
    e.extensions[1].1[0].1.clear();
    assert_eq!(fault(W(&e).video_id()).1, "no yt:videoId value");
    let mut e = entry("abc");
    e.extensions[1].1[0].1[0].value = None;
    assert_eq!(fault(W(&e).video_id()).1, "no yt:videoId value");
}

#[test]
fn entry_without_link_is_refused() {
    let mut e = entry("abc");
    e.links.clear();
    assert_eq!(fault(W(&e).link()).1, "no link found");
    assert_eq!(fault(W(&e).audio_info("http://g")).1, "no link found");
}

#[test]
fn mirror_says_where_the_audio_is() {
    let e = entry("abc");
    let instance = PipedInstance::new("https://api.example".to_string());
    assert_eq!(
        W(&e).piped_audio_request(&instance).unwrap(),
        "https://api.example/streams/abc"
    );
    let streams = vec![
        AudioStream {
            url: "https://a".to_string(),
            mime_type: "audio/mp4".to_string(),
        },
        AudioStream {
            url: "https://b".to_string(),
            mime_type: "audio/webm".to_string(),
        },
    ];
    let info = W(&e).piped_audio_info(streams).unwrap();
    assert_eq!(info.url, "https://a");
    assert_eq!(info.mime_type, "audio/mp4");
    assert!(matches!(
        W(&e).piped_audio_info(vec![]),
        Err(Error::Extraction)
    ));
    let mut bad = entry("abc");
    bad.extensions.remove(1);
    assert_eq!(fault(W(&bad).piped_audio_info(vec![])).1, "not yt extension");
    assert_eq!(
        fault(W(&bad).piped_audio_request(&instance)).1,
        "not yt extension"
    );
}

#[test]
fn audio_address_is_made_from_the_video_parameter() {
    assert_eq!(audio_url("http://g", "abc"), "http://g/audio/abc");
    assert_eq!(
        translate_video_to_audio_url("https://www.youtube.com/watch?t=1&v=a%20b&v=c", "http://g")
            .unwrap(),
        "http://g/audio/a b"
    );
    match translate_video_to_audio_url("https://www.youtube.com/watch?x=1", "http://g") {
        Err(Error::UnsupportedURL(url, why)) => {
            assert_eq!(url, "https://www.youtube.com/watch?x=1");
            assert_eq!(why, "v parameter not found");
        }
        _ => panic!("a refusal was expected"),
    }
    match translate_video_to_audio_url("not a url", "http://g") {
        Err(Error::ParseURL(text)) => assert_eq!(text, "relative URL without a base"),
        _ => panic!("a parse failure was expected"),
    }
    let query = vec![
        ("t".to_string(), "1".to_string()),
        ("v".to_string(), "x".to_string()),
    ];
    assert_eq!(find_query_value(&query, "v"), Some("x"));
    assert_eq!(find_query_value(&query, "w"), None);
    assert_eq!(
        audio_url_from_query("u", &query, "http://g").unwrap(),
        "http://g/audio/x"
    );
    assert!(matches!(
        audio_url_from_query("u", &vec![], "http://g"),
        Err(Error::UnsupportedURL(_, "v parameter not found"))
    ));
}

#[test]
fn lookup_finds_the_first_of_a_name() {
    let items = vec![
        ("a".to_string(), 1),
        ("b".to_string(), 2),
        ("a".to_string(), 3),
    ];
    assert_eq!(lookup(&items, "a"), Some(&1));
    assert_eq!(lookup(&items, "b"), Some(&2));
    assert_eq!(lookup(&items, "c"), None);
}

#[test]
fn feed_episode_is_read_off_an_entry() {
    let e = entry("abc");
    let episode = RssEpisode::from_entry(&e).unwrap();
    assert_eq!(episode.video_id, "abc");
    assert_eq!(episode.title, "Title of abc");
    assert_eq!(episode.description, "about it");
    assert_eq!(episode.thumbnail.url, "https://i.example/1.jpg");
    assert_eq!(episode.author, "Author");
    let mut e = entry("abc");
    e.authors.clear();
    assert_eq!(RssEpisode::from_entry(&e).unwrap().author, "");
    let mut e = entry("abc");
    e.extensions.remove(1);
    assert_eq!(fault(RssEpisode::from_entry(&e)).1, "not yt extension");
}

fn feed(entries: Vec<Entry>) -> Feed {
    Feed {
        title: "Channel".to_string(),
        updated: Date::from_timestamp(1_057_056_757).unwrap(),
        subtitle: Some("sub".to_string()),
        lang: None,
        authors: vec!["A".to_string(), "B".to_string(), "C".to_string()],
        links: vec!["https://www.youtube.com/channel/UC1".to_string()],
        entries,
    }
}

#[test]
fn feed_channel_is_read_off_a_feed() {
    let channel = RssChannel::from_feed(feed(vec![entry("a"), entry("b")])).unwrap();
    assert_eq!(channel.title, "Channel");
    assert_eq!(channel.updated, "Tue, 1 Jul 2003 10:52:37 +0000");
    assert_eq!(channel.description, "sub");
    assert_eq!(channel.language, "");
    assert_eq!(channel.author, "A, B, C");
    assert_eq!(channel.episodes.len(), 2);
    assert_eq!(channel.episodes[0].video_id, "a");
    assert_eq!(channel.episodes[1].video_id, "b");

    let mut one = feed(vec![]);
    one.authors = vec!["A".to_string()];
    assert_eq!(RssChannel::from_feed(one).unwrap().author, "A");
    let mut none = feed(vec![]);
    none.authors.clear();
    assert_eq!(RssChannel::from_feed(none).unwrap().author, "");
}

#[test]
fn feed_with_a_faulty_entry_is_refused() {
    let mut bad = entry("b");
    bad.extensions.remove(0);
    let mut worse = entry("c");
    worse.extensions.clear();
    match RssChannel::from_feed(feed(vec![entry("a"), bad, worse])) {
        Err(Error::InvalidFeedEntry(id, why)) => {
            assert_eq!(id, "yt:video:b");
            assert_eq!(why, "not media extension");
        }
        _ => panic!("an invalid entry was expected"),
    }
}

#[test]
fn feed_address() {
    assert_eq!(
        feed_url("UC1"),
        "https://www.youtube.com/feeds/videos.xml?channel_id=UC1"
    );
}

#[test]
fn channel_is_named_by_id_name_or_handle() {
    match extract_youtube_channel_ref("https://www.youtube.com/channel/UC_x1/videos").unwrap() {
        ChannelRef::Id(id) => assert_eq!(id, "UC_x1"),
        _ => panic!("an id was expected"),
    }
    match extract_youtube_channel_ref("https://m.youtube.com/c/SciShow").unwrap() {
        ChannelRef::Name(name) => assert_eq!(name, "SciShow"),
        _ => panic!("a name was expected"),
    }
    match extract_youtube_channel_ref("https://www.youtube.com/@ComplexityExplorer").unwrap() {
        ChannelRef::Handle(handle) => assert_eq!(handle, "ComplexityExplorer"),
        _ => panic!("a handle was expected"),
    }
}

#[test]
fn address_that_names_no_channel_is_refused() {
    match extract_youtube_channel_ref("https://example.com/channel/UC1") {
        Err(Error::UnsupportedURL(url, why)) => {
            assert_eq!(url, "https://example.com/channel/UC1");
            assert_eq!(why, "not youtube domain");
        }
        _ => panic!("a refusal was expected"),
    }
    match extract_youtube_channel_ref("https://www.youtube.com/watch?v=abc") {
        Err(Error::UnsupportedURL(url, why)) => {
            assert_eq!(url, "https://www.youtube.com/watch?v=abc");
            assert_eq!(why, "invalid youtube url");
        }
        _ => panic!("a refusal was expected"),
    }
    match extract_youtube_channel_ref("https://www.youtube.com/@handle/videos") {
        Err(Error::UnsupportedURL(_, why)) => assert_eq!(why, "invalid youtube url"),
        _ => panic!("a refusal was expected"),
    }
    assert!(matches!(
        extract_youtube_channel_ref("youtube"),
        Err(Error::ParseURL(_))
    ));
    assert!(matches!(
        extract_youtube_channel_ref("mailto:x@www.youtube.com"),
        Err(Error::UnsupportedURL(_, "not youtube domain"))
    ));
}

#[test]
fn channel_reference_prefers_the_id() {
    let r = channel_ref_from(
        "u".to_string(),
        Some("www.youtube.com".to_string()),
        Some("id".to_string()),
        Some("name".to_string()),
        Some("handle".to_string()),
    );
    assert!(matches!(r, Ok(ChannelRef::Id(id)) if id == "id"));
    let r = channel_ref_from(
        "u".to_string(),
        Some("m.youtube.com".to_string()),
        None,
        Some("name".to_string()),
        Some("handle".to_string()),
    );
    assert!(matches!(r, Ok(ChannelRef::Name(name)) if name == "name"));
    let r = channel_ref_from("u".to_string(), None, Some("id".to_string()), None, None);
    assert!(matches!(r, Err(Error::UnsupportedURL(_, "not youtube domain"))));
}

#[test]
fn channel_id_is_known_or_stands_in_a_page() {
    match channel_lookup(ChannelRef::Id("UC1".to_string())) {
        ChannelLookup::Known(id) => assert_eq!(id, "UC1"),
        _ => panic!("a known id was expected"),
    }
    match channel_lookup(ChannelRef::Name("SciShow".to_string())) {
        ChannelLookup::Page(url) => assert_eq!(url, "https://www.youtube.com/c/SciShow"),
        _ => panic!("a page was expected"),
    }
    match channel_lookup(ChannelRef::Handle("h".to_string())) {
        ChannelLookup::Page(url) => assert_eq!(url, "https://www.youtube.com/@h"),
        _ => panic!("a page was expected"),
    }
}

#[test]
fn channel_id_is_read_off_the_page() {
    let page = "<html><head><link rel=\"canonical\" href=\"https://www.youtube.com/channel/UC1\"></head></html>";
    assert_eq!(find_youtube_channel_id(page).unwrap(), "UC1");
    let page = "<html><head><link rel=\"canonical\" href=\"https://example.com/x\"></head></html>";
    assert!(matches!(
        find_youtube_channel_id(page),
        Err(Error::InvalidHTML("link[rel=canonical] url prefix"))
    ));
    assert!(matches!(
        find_youtube_channel_id("<html></html>"),
        Err(Error::InvalidHTML("link[rel=canonical]"))
    ));
    assert!(matches!(
        channel_id_from(&vec![Some(None)]),
        Err(Error::InvalidHTML("link[rel=canonical]"))
    ));
    assert!(matches!(
        channel_id_from(&vec![None]),
        Err(Error::InvalidHTML("link[rel=canonical]"))
    ));
    assert_eq!(
        channel_id_from(&vec![
            Some(Some("https://www.youtube.com/channel/A".to_string())),
            Some(Some("https://www.youtube.com/channel/B".to_string())),
        ])
        .unwrap(),
        "A"
    );
}

#[test]
fn podcast_address_and_client_name() {
    assert_eq!(
        channel_podcast_url("http://localhost:8080", "UC1"),
        "http://localhost:8080/channel/UC1"
    );
    assert_eq!(client_name(Some("player/1")), "player/1");
    assert_eq!(client_name(None), "unknown");
}
