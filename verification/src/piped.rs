//! The mirror API: which instance is asked, and how its addresses are made.

use crate::text::{
    begins_with, chars_of, lines, lines_of, matches_at, split, split_on, string_of, trim, trimmed,
    views,
};
use vstd::prelude::*;
use vstd::string::StringExecFns;

verus! {

/// The instance that is asked until another one has been chosen.
pub const DEFAULT_PIPED_INSTANCE: &'static str = "https://pipedapi.leptons.xyz";

/// One instance of the mirror API, known by the address of its API.
#[derive(Clone, Debug)]
pub struct PipedInstance {
    api_url: String,
}

impl PipedInstance {
    /// The address of the API.
    pub closed spec fn api(&self) -> Seq<char> {
        self.api_url@
    }

    /// The instance whose API lies at `domain`.
    pub fn new(domain: String) -> (r: Self)
        ensures
            r.api() == domain@,
    {
        PipedInstance { api_url: domain }
    }

    /// The address of the API.
    pub fn api_url(&self) -> (r: &str)
        ensures
            r@ == self.api(),
    {
        self.api_url.as_str()
    }

    /// Another value for the same instance.
    pub fn duplicate(&self) -> (r: Self)
        ensures
            r.api() == self.api(),
    {
        PipedInstance { api_url: self.api_url.clone() }
    }

    /// The instance that a request asks through: the one it names with
    /// `piped_instance`, else the current one of `repo`.
    pub fn from_query(piped_instance: Option<String>, repo: &PipedInstanceRepo) -> (r: Self)
        ensures
            r.api() == match piped_instance {
                Some(domain) => domain@,
                None => repo.current().api(),
            },
    {
        match piped_instance {
            Some(domain) => PipedInstance::new(domain),
            None => repo.instance(),
        }
    }

    /// The address that describes the channel `channel_id`.
    pub fn channel_url(&self, channel_id: &str) -> (r: String)
        ensures
            r@ == self.api() + "/channel/"@ + channel_id@,
    {
        let mut url = self.api_url.clone();
        url.append("/channel/");
        url.append(channel_id);
        url
    }

    /// The address that describes the streams of the video `video_id`.
    pub fn stream_url(&self, video_id: &str) -> (r: String)
        ensures
            r@ == self.api() + "/streams/"@ + video_id@,
    {
        let mut url = self.api_url.clone();
        url.append("/streams/");
        url.append(video_id);
        url
    }
}

/// Where the list of public instances is kept.
pub const PIPED_WIKI_URL: &'static str =
    "https://raw.githubusercontent.com/TeamPiped/documentation/refs/heads/main/content/docs/public-instances/index.md";

/// The number of seconds that an instance is given to answer a probe.
pub const PIPED_PROBE_TIMEOUT: u64 = 10;

/// The channel that instances are probed with.
pub const PIPED_TEST_CHANNEL: &'static str = "UC1yNl2E66ZzKApQdRuTQ4tw";

/// The line that stands above the rows of the list of instances.
pub const START_MARKER: &'static str = "--- | --- | --- | ---";

/// The number of seconds between two looks at the list of instances.
pub const DEFAULT_INTERVAL: u64 = 3600;

/// What is known about a public instance.
pub struct PipedInstanceStat {
    pub instance: PipedInstance,
    pub name: String,
    pub countries: Vec<String>,
    /// The milliseconds it took to answer the probe; `None` where it has
    /// not answered.
    pub latency: Option<u64>,
}

/// `char::from_u32`: the character with the code `code`, `None` where
/// there is none because `code` is a surrogate or lies past the last
/// character.
#[verifier::external_body]
fn char_of(code: u32) -> (r: Option<char>)
    ensures
        match r {
            Some(c) => c as u32 == code,
            None => (0xd800 <= code && code <= 0xdfff) || code > 0x10_ffff,
        },
{
    char::from_u32(code)
}

/// The first of the letters that flags are written with.
pub const FLAG_A: u32 = 0x1f1e6;

/// The letter that a character of a flag stands for: `A` for the first of
/// them, and so on. A character that lies before them, or for whose place
/// there is no character, stays as it is.
pub open spec fn flag_letter(c: char) -> char {
    let code = c as u32 - FLAG_A + 65;
    if c as u32 >= FLAG_A && !(0xd800 <= code <= 0xdfff) {
        (code as u32) as char
    } else {
        c
    }
}

/// Turns a character of a flag into the letter it stands for.
pub fn from_flag_emoji(flag_char: char) -> (r: char)
    ensures
        r == flag_letter(flag_char),
{
    let code = flag_char as u32;
    if code < FLAG_A {
        return flag_char;
    }
    match char_of(code - FLAG_A + 65) {
        Some(c) => {
            proof {
                vstd::utf8::char_u32_cast(c, (code - FLAG_A + 65) as u32);
            }
            c
        },
        None => flag_char,
    }
}

/// The letters that the flags of `text` stand for.
pub open spec fn flag_letters(text: Seq<char>) -> Seq<char> {
    text.map_values(|c: char| flag_letter(c))
}

/// The countries that a cell of the list names: the pieces between its
/// commas, each trimmed and with its flags turned into letters.
pub open spec fn countries_of(cell: Seq<char>) -> Seq<Seq<char>> {
    split_on(trimmed(cell), ',').map_values(|piece: Seq<char>| flag_letters(trimmed(piece)))
}

/// What a row of the list says about an instance: the address of its API,
/// its name and its countries. `None` where the line is no row of five
/// cells or the address is not secure.
pub open spec fn row_stat(line: Seq<char>) -> Option<(Seq<char>, Seq<char>, Seq<Seq<char>>)> {
    let cells = split_on(line, '|');
    if cells.len() == 5 && begins_with(trimmed(cells[1]), "https://"@) {
        Some((trimmed(cells[1]), trimmed(cells[0]), countries_of(cells[2])))
    } else {
        None
    }
}

/// The lines below the first line that begins, white space aside, with
/// `marker`.
pub open spec fn rows_below(lines: Seq<Seq<char>>, marker: Seq<char>) -> Seq<Seq<char>>
    decreases lines.len(),
{
    if lines.len() == 0 {
        lines
    } else if begins_with(trimmed(lines[0]), marker) {
        lines.drop_first()
    } else {
        rows_below(lines.drop_first(), marker)
    }
}

/// What the rows among `lines` say, in their order.
pub open spec fn stats_of(lines: Seq<Seq<char>>) -> Seq<(Seq<char>, Seq<char>, Seq<Seq<char>>)>
    decreases lines.len(),
{
    if lines.len() == 0 {
        Seq::empty()
    } else {
        match row_stat(lines.last()) {
            Some(stat) => stats_of(lines.drop_last()).push(stat),
            None => stats_of(lines.drop_last()),
        }
    }
}

/// What `stats` say, as plain values.
pub open spec fn shown(stats: Seq<PipedInstanceStat>) -> Seq<
    (Seq<char>, Seq<char>, Seq<Seq<char>>),
> {
    stats.map_values(
        |stat: PipedInstanceStat| (stat.instance.api(), stat.name@, stat.countries.deep_view()),
    )
}

fn countries_in(cell: &Vec<char>) -> (r: Vec<String>)
    ensures
        r.deep_view() == countries_of(cell@),
{
    let pieces = split(&trim(cell), ',');
    let mut out: Vec<String> = Vec::new();
    let mut i: usize = 0;
    while i < pieces.len()
        invariant
            i <= pieces.len(),
            views(pieces@) == split_on(trimmed(cell@), ','),
            out.len() == i,
            forall|k: int| 0 <= k < i ==> (#[trigger] out[k])@ == flag_letters(trimmed(pieces[k]@)),
        decreases pieces.len() - i,
    {
        let piece = trim(&pieces[i]);
        let mut letters: Vec<char> = Vec::new();
        let mut j: usize = 0;
        while j < piece.len()
            invariant
                j <= piece.len(),
                letters.len() == j,
                forall|k: int| 0 <= k < j ==> (#[trigger] letters[k]) == flag_letter(piece[k]),
            decreases piece.len() - j,
        {
            letters.push(from_flag_emoji(piece[j]));
            j = j + 1;
        }
        assert(letters@ == flag_letters(piece@));
        out.push(string_of(&letters, 0, letters.len()));
        assert(letters@.subrange(0, letters.len() as int) == letters@);
        i = i + 1;
    }
    assert(out.deep_view() == countries_of(cell@)) by {
        assert(out.deep_view().len() == countries_of(cell@).len());
        assert forall|k: int| 0 <= k < out.len() implies out.deep_view()[k] == countries_of(
            cell@,
        )[k] by {
            assert(views(pieces@)[k] == pieces[k]@);
        }
    }
    out
}

fn stat_of_row(line: &Vec<char>) -> (r: Option<PipedInstanceStat>)
    ensures
        match r {
            Some(stat) => row_stat(line@) == Some(
                (stat.instance.api(), stat.name@, stat.countries.deep_view()),
            ) && stat.latency is None,
            None => row_stat(line@) is None,
        },
{
    let cells = split(line, '|');
    if cells.len() != 5 {
        return None;
    }
    assert(views(cells@)[0] == cells[0]@);
    assert(views(cells@)[1] == cells[1]@);
    assert(views(cells@)[2] == cells[2]@);
    let name = trim(&cells[0]);
    let url = trim(&cells[1]);
    let secure = chars_of("https://");
    if !matches_at(&url, &secure, 0) {
        return None;
    }
    let countries = countries_in(&cells[2]);
    let name = string_of(&name, 0, name.len());
    let url = string_of(&url, 0, url.len());
    Some(PipedInstanceStat { instance: PipedInstance::new(url), name, countries, latency: None })
}

/// Reads the public instances off the list that documents them: every row
/// of five cells below the heading whose second cell is a secure address.
/// None of them has been probed.
pub fn parse_instances(markdown: &str) -> (r: Vec<PipedInstanceStat>)
    ensures
        shown(r@) == stats_of(rows_below(lines_of(markdown@), START_MARKER@)),
        forall|k: int| 0 <= k < r.len() ==> (#[trigger] r[k]).latency is None,
{
    let text = chars_of(markdown);
    let all = lines(&text);
    let marker = chars_of(START_MARKER);
    let mut start: usize = 0;
    assert(views(all@).skip(0) == views(all@));
    while start < all.len() && !matches_at(&trim(&all[start]), &marker, 0)
        invariant
            start <= all.len(),
            marker@ == START_MARKER@,
            rows_below(views(all@), marker@) == rows_below(views(all@).skip(start as int), marker@),
        decreases all.len() - start,
    {
        assert(views(all@).skip(start as int)[0] == all[start as int]@);
        assert(views(all@).skip(start as int).drop_first() == views(all@).skip(start + 1));
        start = start + 1;
    }
    let mut out: Vec<PipedInstanceStat> = Vec::new();
    if start >= all.len() {
        assert(views(all@).skip(start as int).len() == 0);
        assert(shown(out@) == stats_of(Seq::empty()));
        return out;
    }
    assert(views(all@).skip(start as int)[0] == all[start as int]@);
    let ghost rows = views(all@).skip(start + 1);
    assert(views(all@).skip(start as int).drop_first() == rows);
    let mut i: usize = start + 1;
    assert(rows.take(0) == Seq::<Seq<char>>::empty());
    assert(shown(out@) == stats_of(rows.take(0)));
    while i < all.len()
        invariant
            start < i <= all.len(),
            rows == views(all@).skip(start + 1),
            shown(out@) == stats_of(rows.take(i - start - 1)),
            forall|k: int| 0 <= k < out.len() ==> (#[trigger] out[k]).latency is None,
        decreases all.len() - i,
    {
        let ghost seen = rows.take(i - start - 1);
        let ghost next = rows.take(i - start);
        let ghost before = shown(out@);
        assert(next.drop_last() == seen);
        assert(next.last() == all[i as int]@);
        match stat_of_row(&all[i]) {
            Some(stat) => {
                out.push(stat);
                assert(shown(out@) == before.push(row_stat(all[i as int]@)->0));
            },
            None => {},
        }
        i = i + 1;
    }
    assert(rows.take(rows.len() as int) == rows);
    out
}

/// `SliceRandom::shuffle` with the generator of the thread: puts the
/// instances into an order that chance decides.
#[verifier::external_body]
fn shuffle(stats: &mut Vec<PipedInstanceStat>)
    ensures
        final(stats)@.to_multiset() == old(stats)@.to_multiset(),
{
    rand::seq::SliceRandom::shuffle(&mut stats[..], &mut rand::thread_rng())
}

/// Whether none of `stats` has been probed.
pub open spec fn unprobed(stats: Seq<PipedInstanceStat>) -> bool {
    forall|k: int| 0 <= k < stats.len() ==> (#[trigger] stats[k]).latency is None
}

/// Reads the public instances off the list that documents them, and puts
/// them into an order that chance decides, so that no instance is
/// preferred among equals. None of them has been probed.
pub fn pull_latest(markdown: &str) -> (r: Vec<PipedInstanceStat>)
    ensures
        exists|listed: Seq<PipedInstanceStat>|
            #![trigger shown(listed)]
            shown(listed) == stats_of(rows_below(lines_of(markdown@), START_MARKER@)) && unprobed(
                listed,
            ) && r@.to_multiset() == listed.to_multiset(),
        unprobed(r@),
{
    let mut instances = parse_instances(markdown);
    let ghost listed = instances@;
    assert(shown(listed) == stats_of(rows_below(lines_of(markdown@), START_MARKER@)));
    assert(unprobed(listed));
    shuffle(&mut instances);
    proof {
        assert forall|k: int| 0 <= k < instances.len() implies (#[trigger] instances[k]).latency
            is None by {
            instances@.to_multiset_ensures();
            listed.to_multiset_ensures();
            assert(instances@.contains(instances[k]));
            assert(listed.to_multiset().count(instances[k]) > 0);
            assert(listed.contains(instances[k]));
            let j = choose|j: int| 0 <= j < listed.len() && listed[j] == instances[k];
            assert(listed[j].latency is None);
        }
    }
    instances
}

/// The place of an instance in the order of preference: its latency, and
/// behind all that have answered where it has not.
pub open spec fn latency_key(stat: PipedInstanceStat) -> u64 {
    match stat.latency {
        Some(millis) => millis,
        None => u64::MAX,
    }
}

fn key_of(stat: &PipedInstanceStat) -> (key: u64)
    ensures
        key == latency_key(*stat),
{
    match stat.latency {
        Some(millis) => millis,
        None => u64::MAX,
    }
}

/// Whether `stats` stand in the order of preference.
pub open spec fn by_latency(stats: Seq<PipedInstanceStat>) -> bool {
    forall|i: int, j: int|
        0 <= i <= j < stats.len() ==> latency_key(#[trigger] stats[i]) <= latency_key(
            #[trigger] stats[j],
        )
}

/// The low 64 bits of a number of milliseconds.
pub open spec fn low_millis(millis: u128) -> u64 {
    (millis % 0x1_0000_0000_0000_0000) as u64
}

/// Notes how the probe of an instance went: the time it took where the
/// instance answered with success, nothing where it did not.
pub fn record_probe(stat: PipedInstanceStat, answered: bool, elapsed_millis: u128) -> (r:
    PipedInstanceStat)
    ensures
        r.instance == stat.instance,
        r.name == stat.name,
        r.countries == stat.countries,
        r.latency == if answered {
            Some(low_millis(elapsed_millis))
        } else {
            stat.latency
        },
{
    if answered {
        PipedInstanceStat {
            instance: stat.instance,
            name: stat.name,
            countries: stat.countries,
            latency: Some((elapsed_millis % 0x1_0000_0000_0000_0000) as u64),
        }
    } else {
        stat
    }
}

/// Puts the probed instances into the order of preference: the fastest
/// first, those that have not answered last.
pub fn check_latency(probed: Vec<PipedInstanceStat>) -> (r: Vec<PipedInstanceStat>)
    ensures
        r@.to_multiset() == probed@.to_multiset(),
        by_latency(r@),
{
    let ghost all = probed@;
    let mut output: Vec<PipedInstanceStat> = Vec::new();
    assert(all.take(0) == Seq::<PipedInstanceStat>::empty());
    for stat in it: probed.into_iter()
        invariant
            it.seq() == all,
            by_latency(output@),
            output@.to_multiset() == all.take(it.index() as int).to_multiset(),
    {
        let ghost i = it.index() as int;
        let ghost before = output@;
        let key = key_of(&stat);
        let mut at: usize = output.len();
        while at > 0 && key_of(&output[at - 1]) > key
            invariant
                at <= output.len(),
                output@ == before,
                key == latency_key(stat),
                forall|j: int| at <= j < output.len() ==> latency_key(#[trigger] output[j]) > key,
            decreases at,
        {
            at = at - 1;
        }
        output.insert(at, stat);
        proof {
            let after = output@;
            assert(after == before.insert(at as int, stat));
            assert forall|a: int, b: int| 0 <= a <= b < after.len() implies latency_key(
                #[trigger] after[a],
            ) <= latency_key(#[trigger] after[b]) by {
                let a0 = if a < at {
                    a
                } else {
                    a - 1
                };
                let b0 = if b < at {
                    b
                } else {
                    b - 1
                };
                if a != at {
                    assert(after[a] == before[a0]);
                }
                if b != at {
                    assert(after[b] == before[b0]);
                }
            }
            assert(after.remove(at as int) == before);
            vstd::seq_lib::to_multiset_remove(after, at as int);
            vstd::seq_lib::to_multiset_build(all.take(i), stat);
            assert(all.take(i + 1) == all.take(i).push(stat));
            after.to_multiset_ensures();
            assert(after.contains(stat)) by {
                assert(after[at as int] == stat);
            }
            assert(after.to_multiset() == before.to_multiset().insert(stat));
        }
    }
    assert(all.take(all.len() as int) == all);
    output
}

/// What the keeper of the current instance does next.
#[derive(Clone, Copy, Debug, PartialEq, Eq, Structural)]
pub enum RepoStep {
    /// Nothing was chosen: wait for the interval, then look at the list
    /// again.
    Retry,
    /// An instance was chosen: wait for the interval or for a request to
    /// refresh, whichever comes first, then look at the list again.
    Rest,
}

/// The keeper of the instance that is asked at present.
pub struct PipedInstanceRepo {
    wiki_url: String,
    current_instance: PipedInstance,
    interval: u64,
}

impl PipedInstanceRepo {
    /// The instance that is asked at present.
    pub closed spec fn current(&self) -> PipedInstance {
        self.current_instance
    }

    /// The number of seconds between two looks at the list.
    pub closed spec fn pause(&self) -> u64 {
        self.interval
    }

    /// Where the list of instances is kept.
    pub closed spec fn source(&self) -> Seq<char> {
        self.wiki_url@
    }

    /// A keeper that starts with the default instance and looks at the
    /// list every `interval` seconds.
    pub fn new(interval: u64) -> (r: Self)
        ensures
            r.current().api() == DEFAULT_PIPED_INSTANCE@,
            r.pause() == interval,
            r.source() == PIPED_WIKI_URL@,
    {
        PipedInstanceRepo {
            wiki_url: String::from_str(PIPED_WIKI_URL),
            current_instance: PipedInstance::new(String::from_str(DEFAULT_PIPED_INSTANCE)),
            interval,
        }
    }

    /// The instance that is asked at present.
    pub fn instance(&self) -> (r: PipedInstance)
        ensures
            r.api() == self.current().api(),
    {
        self.current_instance.duplicate()
    }

    /// Where the list of instances is kept.
    pub fn wiki_url(&self) -> (r: &str)
        ensures
            r@ == self.source(),
    {
        self.wiki_url.as_str()
    }

    /// The number of seconds between two looks at the list.
    pub fn interval(&self) -> (r: u64)
        ensures
            r == self.pause(),
    {
        self.interval
    }

    /// Takes the outcome of a look at the list: the instances in the order
    /// of preference, or `None` where the list could not be had. The first
    /// instance becomes the current one; where there is none, the current
    /// one stays.
    pub fn run(&mut self, probed: Option<Vec<PipedInstanceStat>>) -> (step: RepoStep)
        ensures
            final(self).pause() == old(self).pause(),
            final(self).source() == old(self).source(),
            match probed {
                Some(instances) => if instances.len() > 0 {
                    step == RepoStep::Rest && final(self).current() == instances[0].instance
                } else {
                    step == RepoStep::Retry && final(self).current() == old(self).current()
                },
                None => step == RepoStep::Retry && final(self).current() == old(self).current(),
            },
    {
        match probed {
            Some(instances) => {
                if instances.len() == 0 {
                    return RepoStep::Retry;
                }
                let mut instances = instances;
                let first = instances.swap_remove(0);
                self.current_instance = first.instance;
                RepoStep::Rest
            },
            None => RepoStep::Retry,
        }
    }
}

} // verus!
