use youtube_audio_feed::date::Date;
use youtube_audio_feed::error::Error;
use youtube_audio_feed::piped::PipedInstance;
use youtube_audio_feed::podcast::{seconds_to_duration, Episode, Podcast, Thumbnail};
use youtube_audio_feed::text::{chars_of, find, matches_at, parse_word, push_decimal, same_text};

#[test]
fn statuses_of_failures() {
    assert_eq!(Error::RequestUpstream("x".to_string()).status_code(), 502);
    assert_eq!(Error::AtomFormat("x".to_string()).status_code(), 502);
    assert_eq!(Error::RSSFormat("x".to_string()).status_code(), 502);
    assert_eq!(Error::ParseHTML("x".to_string()).status_code(), 502);
    assert_eq!(Error::ParseURL("x".to_string()).status_code(), 502);
    assert_eq!(Error::InvalidHTML("x").status_code(), 502);
    assert_eq!(Error::HTTP("x".to_string()).status_code(), 502);
    assert_eq!(Error::UnsupportedURL("u".to_string(), "x").status_code(), 400);
    assert_eq!(Error::InvalidFeedEntry("e".to_string(), "x").status_code(), 500);
    assert_eq!(Error::IO("x".to_string()).status_code(), 500);
    assert_eq!(Error::Invidious("x").status_code(), 500);
    assert_eq!(Error::AudioStream("x".to_string()).status_code(), 500);
    assert_eq!(Error::Rustube("x".to_string()).status_code(), 500);
    assert_eq!(Error::Extraction.status_code(), 500);
    assert_eq!(Error::InvalidId("x".to_string()).status_code(), 500);
    assert_eq!(Error::Ytextract("x".to_string()).status_code(), 500);
}

#[test]
fn texts_of_failures() {
    assert_eq!(
        Error::RequestUpstream("timeout".to_string()).message(),
        "failed requesting upstream: timeout"
    );
    assert_eq!(
        Error::AtomFormat("eof".to_string()).message(),
        "atom feed format error: eof"
    );
    assert_eq!(
        Error::RSSFormat("eof".to_string()).message(),
        "rss feed format error: eof"
    );
    assert_eq!(
        Error::InvalidFeedEntry("yt:video:1".to_string(), "no link found").message(),
        "invalid feed: yt:video:1 (no link found)"
    );
    assert_eq!(
        Error::ParseHTML("bad".to_string()).message(),
        "parse html error: bad"
    );
    assert_eq!(
        Error::ParseURL("bad".to_string()).message(),
        "parse url error: bad"
    );
    assert_eq!(
        Error::InvalidHTML("thumbnail").message(),
        "info not found in html: thumbnail"
    );
    assert_eq!(
        Error::UnsupportedURL("http://x/".to_string(), "not youtube domain").message(),
        "unsupported url: http://x/ (not youtube domain)"
    );
    assert_eq!(Error::HTTP("bad".to_string()).message(), "http error: bad");
    assert_eq!(Error::IO("bad".to_string()).message(), "io error: bad");
    assert_eq!(
        Error::Invidious("bad").message(),
        "request invidious error: bad"
    );
    assert_eq!(
        Error::AudioStream("vid".to_string()).message(),
        "unable to get audio stream: vid"
    );
    assert_eq!(
        Error::Rustube("bad".to_string()).message(),
        "rustube error: bad"
    );
    assert_eq!(Error::Extraction.message(), "extraction error");
    assert_eq!(
        Error::InvalidId("x".to_string()).message(),
        "invalid id: x"
    );
    assert_eq!(
        Error::Ytextract("bad".to_string()).message(),
        "ytextract error: bad"
    );
}

#[test]
fn numbers_are_read_as_the_standard_library_reads_them() {
    for text in [
        "0",
        "7",
        "42",
        "+42",
        "007",
        "",
        "+",
        "-1",
        "4 2",
        " 42",
        "42 ",
        "4_2",
        "١٢",
        "18446744073709551615",
        "18446744073709551616",
        "99999999999999999999999999",
        "++1",
        "1+",
    ] {
        assert_eq!(parse_word(&chars_of(text)), text.parse::<usize>().ok(), "{:?}", text);
    }
}

#[test]
fn numbers_are_written_in_decimal() {
    for n in [0u128, 1, 9, 10, 11, 99, 100, 12345, u64::MAX as u128, u128::MAX] {
        let mut out = "n=".to_string();
        push_decimal(&mut out, n);
        assert_eq!(out, format!("n={}", n));
    }
}

#[test]
fn texts_are_compared_and_searched() {
    assert!(same_text("abc", "abc"));
    assert!(!same_text("abc", "abd"));
    assert!(!same_text("abc", "ab"));
    assert!(same_text("", ""));
    let hay = chars_of("hello world");
    assert_eq!(find(&hay, &chars_of("o")), Some(4));
    assert_eq!(find(&hay, &chars_of("world")), Some(6));
    assert_eq!(find(&hay, &chars_of("")), Some(0));
    assert_eq!(find(&hay, &chars_of("worlds")), None);
    assert_eq!(find(&chars_of(""), &chars_of("")), Some(0));
    assert!(matches_at(&hay, &chars_of("world"), 6));
    assert!(!matches_at(&hay, &chars_of("world"), 7));
    assert!(matches_at(&hay, &chars_of(""), 11));
    assert!(!matches_at(&hay, &chars_of(""), 12));
}

#[test]
fn instance_addresses() {
    let instance = PipedInstance::new("https://api.example".to_string());
    assert_eq!(instance.api_url(), "https://api.example");
    assert_eq!(
        instance.channel_url("UC123"),
        "https://api.example/channel/UC123"
    );
    assert_eq!(
        instance.stream_url("abc"),
        "https://api.example/streams/abc"
    );
}

#[test]
fn durations_are_written_with_two_digits() {
    assert_eq!(seconds_to_duration(0), "00:00");
    assert_eq!(seconds_to_duration(5), "00:05");
    assert_eq!(seconds_to_duration(65), "01:05");
    assert_eq!(seconds_to_duration(3599), "59:59");
    assert_eq!(seconds_to_duration(3600), "01:00:00");
    assert_eq!(seconds_to_duration(3661), "01:01:01");
    assert_eq!(seconds_to_duration(360000), "100:00:00");
}

fn episode() -> Episode {
    Episode {
        title: "T".to_string(),
        link: "https://v/1".to_string(),
        description: "about".to_string(),
        pub_date: "d".to_string(),
        author: "a".to_string(),
        guid: "g".to_string(),
        duration: 65,
        thumbnail: Thumbnail {
            url: "https://i/1.jpg".to_string(),
            width: 480,
            height: 360,
        },
        audio_url: "https://g/audio/1".to_string(),
    }
}

#[test]
fn episode_description_shows_picture_text_and_link() {
    assert_eq!(
        episode().description_html(),
        "<img loading=\"lazy\" class=\"size-thumbnail\"src=\"https://i/1.jpg\" width=\"480\" height=\"360\"/>\n<p>about</p>\n<p><a href=\"https://v/1\">https://v/1</a></p>\n"
    );
}

#[test]
fn episode_duration_is_shown_where_known() {
    let mut e = episode();
    assert_eq!(e.itunes_duration(), Some("01:05".to_string()));
    e.duration = 0;
    assert_eq!(e.itunes_duration(), None);
}

#[test]
fn podcast_language_is_shown_where_known() {
    let mut podcast = Podcast {
        title: String::new(),
        description: String::new(),
        last_build_date: String::new(),
        language: "en".to_string(),
        author: String::new(),
        logo_url: String::new(),
        categories: vec![],
        channel_url: String::new(),
        episodes: vec![],
    };
    assert_eq!(podcast.language_tag(), Some("en".to_string()));
    podcast.language = String::new();
    assert_eq!(podcast.language_tag(), None);
}

#[test]
fn dates_are_written_as_rfc_2822() {
    assert_eq!(Date::epoch().to_rfc2822(), "Thu, 1 Jan 1970 00:00:00 +0000");
    let date = Date::from_timestamp(1_057_056_757).unwrap();
    assert_eq!(date.to_rfc2822(), "Tue, 1 Jul 2003 10:52:37 +0000");
    assert_eq!(date.seconds(), 1_057_056_757);
    let first = Date::from_timestamp(-62_167_219_200).unwrap();
    assert_eq!(first.to_rfc2822(), "Sat, 1 Jan 0000 00:00:00 +0000");
    let last = Date::from_timestamp(253_402_300_799).unwrap();
    assert_eq!(last.to_rfc2822(), "Fri, 31 Dec 9999 23:59:59 +0000");
    assert!(Date::from_timestamp(-62_167_219_201).is_none());
    assert!(Date::from_timestamp(253_402_300_800).is_none());
}

#[test]
fn dates_keep_the_offset_of_their_clock() {
    let date = Date::with_offset(1_057_056_757, 7200).unwrap();
    assert_eq!(date.to_rfc2822(), "Tue, 1 Jul 2003 12:52:37 +0200");
    assert_eq!(date.seconds(), 1_057_056_757);
    assert_eq!(date.offset_seconds(), 7200);
    assert_eq!(date.to_utc().to_rfc2822(), "Tue, 1 Jul 2003 10:52:37 +0000");
    let date = Date::with_offset(0, -3600 * 5 - 1800).unwrap();
    assert_eq!(date.to_rfc2822(), "Wed, 31 Dec 1969 18:30:00 -0530");
    assert!(Date::with_offset(0, 86_400).is_none());
    assert!(Date::with_offset(0, -86_400).is_none());
    assert!(Date::with_offset(0, 86_399).is_some());
    assert!(Date::with_offset(253_402_300_799, 1).is_none());
    assert!(Date::with_offset(-62_167_219_200, -1).is_none());
    assert!(Date::with_offset(-62_167_219_200, 86_399).is_some());
}
