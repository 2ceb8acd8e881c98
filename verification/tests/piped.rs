use youtube_audio_feed::piped::{
    check_latency, from_flag_emoji, parse_instances, pull_latest, record_probe, PipedInstance,
    PipedInstanceRepo, PipedInstanceStat, RepoStep, DEFAULT_INTERVAL,
};
use youtube_audio_feed::text::{chars_of, lines, split, trim};
use youtube_audio_feed::util::ytdlp_concurrency;

const LIST: &str = "# Public instances\n\
\n\
Name | API | Locations | CDN | Status\n\
--- | --- | --- | --- | ---\n\
kavin.rocks (Official) | https://pipedapi.kavin.rocks | 🇺🇸, 🇮🇳 | Yes | up\n\
plain.example | http://pipedapi.plain.example | 🇩🇪 | No | up\n\
short | https://pipedapi.short.example | 🇫🇷 | No\n\
long | https://pipedapi.long.example | 🇫🇷 | No | up | more\n\
 spaced.example  |  https://pipedapi.spaced.example  |  🇩🇪  | No | up\r\n\
--- | --- | --- | --- | ---\n";

fn text(chars: &[char]) -> String {
    chars.iter().collect()
}

#[test]
fn instances_are_read_off_the_list() {
    let instances = parse_instances(LIST);
    assert_eq!(instances.len(), 2);
    assert_eq!(instances[0].name, "kavin.rocks (Official)");
    assert_eq!(instances[0].instance.api_url(), "https://pipedapi.kavin.rocks");
    assert_eq!(instances[0].countries, vec!["US", "IN"]);
    assert_eq!(instances[0].latency, None);
    assert_eq!(instances[1].name, "spaced.example");
    assert_eq!(
        instances[1].instance.api_url(),
        "https://pipedapi.spaced.example"
    );
    assert_eq!(instances[1].countries, vec!["DE"]);
}

#[test]
fn list_without_heading_has_no_instances() {
    assert!(parse_instances("a | https://x | y | z | w").is_empty());
    let below = parse_instances("  --- | --- | --- | --- and more\na | https://x | y | z | w");
    assert_eq!(below.len(), 1);
    assert_eq!(below[0].countries, vec!["y"]);
    assert!(parse_instances("").is_empty());
    assert!(parse_instances("--- | --- | --- | ---").is_empty());
}

#[test]
fn pulled_instances_are_those_of_the_list() {
    let mut names: Vec<String> = pull_latest(LIST).into_iter().map(|s| s.name).collect();
    names.sort();
    assert_eq!(names, vec!["kavin.rocks (Official)", "spaced.example"]);
}

#[test]
fn flags_become_letters() {
    assert_eq!(from_flag_emoji('\u{1f1e6}'), 'A');
    assert_eq!(from_flag_emoji('\u{1f1ff}'), 'Z');
    assert_eq!(from_flag_emoji('\u{1f1fa}'), 'U');
    assert_eq!(from_flag_emoji('a'), 'a');
    assert_eq!(from_flag_emoji('\u{1f1e5}'), '\u{1f1e5}');
    assert_eq!(from_flag_emoji('\u{1f600}'), '\u{45b}');
    assert_eq!(from_flag_emoji('\u{2c9a5}'), '\u{2c9a5}');
    assert_eq!(from_flag_emoji('\u{10ffff}'), '\u{f0e5a}');
}

fn stat(name: &str, latency: Option<u64>) -> PipedInstanceStat {
    PipedInstanceStat {
        instance: PipedInstance::new(format!("https://{}", name)),
        name: name.to_string(),
        countries: vec![],
        latency,
    }
}

#[test]
fn fastest_instance_comes_first() {
    let sorted = check_latency(vec![
        stat("slow", Some(900)),
        stat("dead", None),
        stat("fast", Some(20)),
        stat("mid", Some(300)),
    ]);
    let names: Vec<&str> = sorted.iter().map(|s| s.name.as_str()).collect();
    assert_eq!(names, vec!["fast", "mid", "slow", "dead"]);
    assert!(check_latency(vec![]).is_empty());
}

#[test]
fn probe_notes_the_time_of_an_answer() {
    assert_eq!(record_probe(stat("a", None), true, 42).latency, Some(42));
    assert_eq!(record_probe(stat("a", None), false, 42).latency, None);
    assert_eq!(record_probe(stat("a", Some(7)), false, 42).latency, Some(7));
    assert_eq!(
        record_probe(stat("a", None), true, (1u128 << 64) + 5).latency,
        Some(5)
    );
    assert_eq!(record_probe(stat("a", None), true, 1).name, "a");
}

#[test]
fn keeper_takes_the_first_instance() {
    let mut repo = PipedInstanceRepo::new(DEFAULT_INTERVAL);
    assert_eq!(repo.instance().api_url(), "https://pipedapi.leptons.xyz");
    assert_eq!(repo.interval(), 3600);
    assert!(repo.wiki_url().starts_with("https://raw.githubusercontent.com/TeamPiped/"));
    assert_eq!(repo.run(None), RepoStep::Retry);
    assert_eq!(repo.run(Some(vec![])), RepoStep::Retry);
    assert_eq!(repo.instance().api_url(), "https://pipedapi.leptons.xyz");
    assert_eq!(
        repo.run(Some(vec![stat("fast", Some(20)), stat("slow", Some(900))])),
        RepoStep::Rest
    );
    assert_eq!(repo.instance().api_url(), "https://fast");
    assert_eq!(repo.run(Some(vec![stat("dead", None)])), RepoStep::Rest);
    assert_eq!(repo.instance().api_url(), "https://dead");
}

#[test]
fn request_may_name_its_instance() {
    let repo = PipedInstanceRepo::new(60);
    let named = PipedInstance::from_query(Some("https://mine".to_string()), &repo);
    assert_eq!(named.api_url(), "https://mine");
    let current = PipedInstance::from_query(None, &repo);
    assert_eq!(current.api_url(), "https://pipedapi.leptons.xyz");
    assert_eq!(current.duplicate().api_url(), current.api_url());
}

#[test]
fn texts_are_split_as_the_standard_library_splits_them() {
    for sample in [
        "",
        "a",
        "a|b",
        "|",
        "a|",
        "|a",
        "a||b",
        "a | b | c | d | e",
        "no separator",
    ] {
        let pieces: Vec<String> = split(&chars_of(sample), '|')
            .iter()
            .map(|p| text(p))
            .collect();
        let expected: Vec<String> = sample.split('|').map(|p| p.to_string()).collect();
        assert_eq!(pieces, expected, "{:?}", sample);
    }
}

#[test]
fn texts_are_cut_into_lines_as_the_standard_library_cuts_them() {
    for sample in [
        "",
        "a",
        "a\n",
        "a\nb",
        "a\r\nb\r\n",
        "\n",
        "\n\n",
        "a\n\nb",
        "a\r",
        "a\r\n",
        "\r\n",
        "a\r\r\n",
        "a\rb\n",
    ] {
        let found: Vec<String> = lines(&chars_of(sample)).iter().map(|p| text(p)).collect();
        let expected: Vec<String> = sample.lines().map(|p| p.to_string()).collect();
        assert_eq!(found, expected, "{:?}", sample);
    }
}

#[test]
fn texts_are_trimmed_as_the_standard_library_trims_them() {
    for sample in [
        "",
        " ",
        "a",
        " a ",
        "\t a b \r\n",
        "\u{a0}a\u{3000}",
        "\u{85}\u{1680}\u{2000}\u{200a}\u{2028}\u{2029}\u{202f}\u{205f}x",
        "\u{200b}a",
        "\u{1c}a",
        "   ",
    ] {
        assert_eq!(text(&trim(&chars_of(sample))), sample.trim(), "{:?}", sample);
    }
    for code in 0..0x3100u32 {
        if let Some(c) = char::from_u32(code) {
            let sample = format!("{}x{}", c, c);
            assert_eq!(text(&trim(&chars_of(&sample))), sample.trim(), "{:?}", code);
        }
    }
}

#[test]
fn concurrency_is_read_off_the_setting() {
    assert_eq!(ytdlp_concurrency(None), 1);
    assert_eq!(ytdlp_concurrency(Some("4")), 4);
    assert_eq!(ytdlp_concurrency(Some("0")), 0);
    assert_eq!(ytdlp_concurrency(Some("many")), 1);
    assert_eq!(ytdlp_concurrency(Some("")), 1);
    assert_eq!(ytdlp_concurrency(Some("-2")), 1);
}
