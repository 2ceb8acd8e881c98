//! The cache of downloaded audio files: which entry stands for a video,
//! where its files lie, and which entries stay when the cache is full.

use crate::error::Error;
use crate::text::{chars_of, push_char};
use lru_time_cache::LruCache;
use vstd::prelude::*;
use vstd::string::StringExecFns;

verus! {

/// Where a cache entry stands between its allocation and its use.
#[derive(Clone, Copy, Debug, PartialEq, Eq, Structural)]
pub enum AudioFileState {
    /// Allocated; nobody has started the download.
    New,
    /// Someone is downloading the file.
    Downloading,
    /// The file lies complete at its final path.
    Ready,
    /// The download failed. The entry stays failed; a later request gets a
    /// fresh entry.
    Errored,
}

/// What a request does with the entry it was handed.
#[derive(Clone, Copy, Debug, PartialEq, Eq, Structural)]
pub enum FileStep {
    /// Run the download, then report how it ended.
    Download,
    /// Another request is downloading: look again later.
    Wait,
    /// Open the file at its final path.
    Open,
    /// Give up: the download has failed.
    Fail,
}

impl AudioFileState {
    /// The state after a request has looked at the entry.
    pub open spec fn requested(self) -> AudioFileState {
        match self {
            AudioFileState::New => AudioFileState::Downloading,
            other => other,
        }
    }

    /// What a request that finds the entry in this state does.
    pub open spec fn step(self) -> FileStep {
        match self {
            AudioFileState::New => FileStep::Download,
            AudioFileState::Downloading => FileStep::Wait,
            AudioFileState::Ready => FileStep::Open,
            AudioFileState::Errored => FileStep::Fail,
        }
    }

    /// The state after the one download of an entry has ended: `Ready` where
    /// the tool succeeded and the file lies at its final path, else
    /// `Errored`. An entry that nobody is downloading stays as it is.
    pub open spec fn downloaded(self, succeeded: bool, file_exists: bool) -> AudioFileState {
        match self {
            AudioFileState::Downloading => if succeeded && file_exists {
                AudioFileState::Ready
            } else {
                AudioFileState::Errored
            },
            other => other,
        }
    }

    /// Takes a request: says what it is to do and moves the entry on. Only
    /// the request that finds the entry `New` downloads.
    pub fn on_request(&mut self) -> (step: FileStep)
        ensures
            step == old(self).step(),
            *final(self) == old(self).requested(),
    {
        match *self {
            AudioFileState::New => {
                *self = AudioFileState::Downloading;
                FileStep::Download
            },
            AudioFileState::Downloading => FileStep::Wait,
            AudioFileState::Ready => FileStep::Open,
            AudioFileState::Errored => FileStep::Fail,
        }
    }

    /// Takes the end of the download.
    pub fn on_download(&mut self, succeeded: bool, file_exists: bool)
        ensures
            *final(self) == old(self).downloaded(succeeded, file_exists),
    {
        match *self {
            AudioFileState::Downloading => {
                if succeeded && file_exists {
                    *self = AudioFileState::Ready;
                } else {
                    *self = AudioFileState::Errored;
                }
            },
            _ => {},
        }
    }
}

/// One step in the life of an entry.
pub enum FileEvent {
    /// A request looked at the entry.
    Request,
    /// The download ended.
    Download { succeeded: bool, file_exists: bool },
}

/// The state after `event`.
pub open spec fn after_event(state: AudioFileState, event: FileEvent) -> AudioFileState {
    match event {
        FileEvent::Request => state.requested(),
        FileEvent::Download { succeeded, file_exists } => state.downloaded(succeeded, file_exists),
    }
}

/// The state after `events`, in order.
pub open spec fn after_events(state: AudioFileState, events: Seq<FileEvent>) -> AudioFileState
    decreases events.len(),
{
    if events.len() == 0 {
        state
    } else {
        after_event(after_events(state, events.drop_last()), events.last())
    }
}

/// The number of downloads that the requests among `events` start on an
/// entry in `state`.
pub open spec fn downloads_started(state: AudioFileState, events: Seq<FileEvent>) -> nat
    decreases events.len(),
{
    if events.len() == 0 {
        0
    } else {
        let before = events.drop_last();
        let started = downloads_started(state, before);
        if events.last() is Request && after_events(state, before).step() == FileStep::Download {
            started + 1
        } else {
            started
        }
    }
}

/// However many requests look at an entry, and whatever the downloads
/// report, at most one download is started for it, and the entry never
/// becomes `New` again.
pub proof fn one_download_per_entry(state: AudioFileState, events: Seq<FileEvent>)
    ensures
        downloads_started(state, events) <= 1,
        state != AudioFileState::New ==> downloads_started(state, events) == 0,
        downloads_started(state, events) == 1 ==> after_events(state, events)
            != AudioFileState::New,
        state != AudioFileState::New ==> after_events(state, events) != AudioFileState::New,
    decreases events.len(),
{
    if events.len() > 0 {
        one_download_per_entry(state, events.drop_last());
    }
}

/// An entry is `Ready` only after a download that succeeded and left the
/// file at its final path, unless it was `Ready` to begin with.
pub proof fn ready_only_after_download(state: AudioFileState, events: Seq<FileEvent>)
    requires
        state != AudioFileState::Ready,
        after_events(state, events) == AudioFileState::Ready,
    ensures
        exists|i: int|
            0 <= i < events.len() && #[trigger] events[i] == (FileEvent::Download {
                succeeded: true,
                file_exists: true,
            }),
    decreases events.len(),
{
    if events.len() > 0 {
        let before = events.drop_last();
        if after_events(state, before) == AudioFileState::Ready {
            ready_only_after_download(state, before);
            let i = choose|i: int|
                0 <= i < before.len() && #[trigger] before[i] == (FileEvent::Download {
                    succeeded: true,
                    file_exists: true,
                });
            assert(events[i] == before[i]);
        } else {
            assert(events[events.len() - 1] == events.last());
        }
    }
}

/// Whether `c` may stand in a file name made from a video id: a letter or
/// a digit of ASCII, `-` or `_`.
pub open spec fn safe_char(c: char) -> bool {
    ('a' <= c && c <= 'z') || ('A' <= c && c <= 'Z') || ('0' <= c && c <= '9') || c == '-' || c
        == '_'
}

/// The character that marks an escape in a file name made from a video id.
/// It is not safe itself, so that it never stands for itself.
pub const ESCAPE: char = '%';

/// The hexadecimal digit for `d`.
pub open spec fn hex_digit(d: nat) -> char {
    if d == 0 {
        '0'
    } else if d == 1 {
        '1'
    } else if d == 2 {
        '2'
    } else if d == 3 {
        '3'
    } else if d == 4 {
        '4'
    } else if d == 5 {
        '5'
    } else if d == 6 {
        '6'
    } else if d == 7 {
        '7'
    } else if d == 8 {
        '8'
    } else if d == 9 {
        '9'
    } else if d == 10 {
        'a'
    } else if d == 11 {
        'b'
    } else if d == 12 {
        'c'
    } else if d == 13 {
        'd'
    } else if d == 14 {
        'e'
    } else {
        'f'
    }
}

/// The escape of a character: the escape mark, then the code of the
/// character in six hexadecimal digits.
pub open spec fn escaped(c: char) -> Seq<char> {
    let code = c as u32 as nat;
    seq![
        ESCAPE,
        hex_digit(code / 0x10_0000 % 16),
        hex_digit(code / 0x1_0000 % 16),
        hex_digit(code / 0x1000 % 16),
        hex_digit(code / 0x100 % 16),
        hex_digit(code / 0x10 % 16),
        hex_digit(code % 16),
    ]
}

/// What stands for a character in a file name: the character itself where
/// it is safe, its escape else.
pub open spec fn safe_form(c: char) -> Seq<char> {
    if safe_char(c) {
        seq![c]
    } else {
        escaped(c)
    }
}

/// The file name that stands for a video id: every character that is not
/// safe, the escape mark among them, is escaped. No two ids get the same
/// name.
pub open spec fn safe_id(id: Seq<char>) -> Seq<char>
    decreases id.len(),
{
    if id.len() == 0 {
        Seq::empty()
    } else {
        safe_form(id[0]) + safe_id(id.drop_first())
    }
}

/// Whether `id` can be used as a file name as it is.
pub open spec fn is_safe_id(id: Seq<char>) -> bool {
    id.len() > 0 && forall|i: int| 0 <= i < id.len() ==> safe_char(#[trigger] id[i])
}

fn is_safe_char(c: char) -> (r: bool)
    ensures
        r == safe_char(c),
{
    ('a' <= c && c <= 'z') || ('A' <= c && c <= 'Z') || ('0' <= c && c <= '9') || c == '-' || c
        == '_'
}

fn hex_char(d: u32) -> (c: char)
    requires
        d < 16,
    ensures
        c == hex_digit(d as nat),
{
    if d == 0 {
        '0'
    } else if d == 1 {
        '1'
    } else if d == 2 {
        '2'
    } else if d == 3 {
        '3'
    } else if d == 4 {
        '4'
    } else if d == 5 {
        '5'
    } else if d == 6 {
        '6'
    } else if d == 7 {
        '7'
    } else if d == 8 {
        '8'
    } else if d == 9 {
        '9'
    } else if d == 10 {
        'a'
    } else if d == 11 {
        'b'
    } else if d == 12 {
        'c'
    } else if d == 13 {
        'd'
    } else if d == 14 {
        'e'
    } else {
        'f'
    }
}

/// Appends what stands for `c` in a file name.
fn push_safe_form(out: &mut String, c: char)
    ensures
        final(out)@ == old(out)@ + safe_form(c),
{
    if is_safe_char(c) {
        push_char(out, c);
        assert(out@ == old(out)@ + seq![c]);
    } else {
        let code: u32 = c as u32;
        push_char(out, ESCAPE);
        push_char(out, hex_char(code / 0x10_0000 % 16));
        push_char(out, hex_char(code / 0x1_0000 % 16));
        push_char(out, hex_char(code / 0x1000 % 16));
        push_char(out, hex_char(code / 0x100 % 16));
        push_char(out, hex_char(code / 0x10 % 16));
        push_char(out, hex_char(code % 16));
        assert(out@ == old(out)@ + escaped(c));
    }
}

/// Makes the file name that stands for a video id. An id that is safe
/// already is its own name; no two ids get the same name.
pub fn sanitize(id: &str) -> (r: String)
    ensures
        r@ == safe_id(id@),
        is_safe_id(id@) ==> r@ == id@,
{
    let chars = chars_of(id);
    let mut out = String::new();
    let mut i: usize = 0;
    assert(id@.skip(0) == id@);
    assert(out@ + safe_id(id@) == safe_id(id@));
    while i < chars.len()
        invariant
            i <= chars.len(),
            chars@ == id@,
            safe_id(id@) == out@ + safe_id(id@.skip(i as int)),
        decreases chars.len() - i,
    {
        let ghost before = out@;
        let ghost rest = id@.skip(i as int);
        assert(rest[0] == id@[i as int]);
        assert(rest.drop_first() == id@.skip(i + 1));
        push_safe_form(&mut out, chars[i]);
        assert(before + (safe_form(rest[0]) + safe_id(rest.drop_first())) == (before + safe_form(
            rest[0],
        )) + safe_id(rest.drop_first()));
        i = i + 1;
    }
    assert(id@.skip(chars.len() as int).len() == 0);
    assert(out@ + Seq::<char>::empty() == out@);
    proof {
        safe_id_of_safe(id@);
    }
    out
}

/// One video's place in the cache.
pub struct AudioFile {
    /// The video id as it was supplied.
    pub id: String,
    /// Where the finished file lies.
    pub path: String,
    /// Where the download is written until it is finished.
    pub temp_path: String,
    /// The number of entries that the cache had allocated before this one.
    /// No two entries of one cache share it.
    pub serial: u64,
}

/// The path of the finished file of the video `id` below `base_dir`.
pub open spec fn final_path(base_dir: Seq<char>, id: Seq<char>) -> Seq<char> {
    base_dir + "/"@ + safe_id(id) + ".m4a"@
}

/// The path that the download of the video `id` below `base_dir` is written
/// to.
pub open spec fn temp_path(base_dir: Seq<char>, id: Seq<char>) -> Seq<char> {
    base_dir + "/"@ + safe_id(id) + ".temp.m4a"@
}

/// An id that is safe is its own file name.
pub proof fn safe_id_of_safe(id: Seq<char>)
    ensures
        is_safe_id(id) ==> safe_id(id) == id,
        (forall|i: int| 0 <= i < id.len() ==> safe_char(#[trigger] id[i])) ==> safe_id(id) == id,
    decreases id.len(),
{
    if id.len() > 0 && forall|i: int| 0 <= i < id.len() ==> safe_char(#[trigger] id[i]) {
        let rest = id.drop_first();
        assert forall|i: int| 0 <= i < rest.len() implies safe_char(#[trigger] rest[i]) by {
            assert(rest[i] == id[i + 1]);
        }
        safe_id_of_safe(rest);
        assert(seq![id[0]] + rest == id);
    }
}

/// A file name made from an id holds safe characters and escape marks
/// only.
pub proof fn safe_id_holds_safe_characters(id: Seq<char>)
    ensures
        forall|k: int|
            0 <= k < safe_id(id).len() ==> safe_char(#[trigger] safe_id(id)[k]) || safe_id(id)[k]
                == ESCAPE,
    decreases id.len(),
{
    if id.len() > 0 {
        safe_id_holds_safe_characters(id.drop_first());
        let head = safe_form(id[0]);
        let tail = safe_id(id.drop_first());
        assert forall|k: int| 0 <= k < safe_id(id).len() implies safe_char(
            #[trigger] safe_id(id)[k],
        ) || safe_id(id)[k] == ESCAPE by {
            if k < head.len() {
                assert(safe_id(id)[k] == head[k]);
            } else {
                assert(safe_id(id)[k] == tail[k - head.len()]);
            }
        }
    }
}

/// A number below sixteen to the sixth is what its six hexadecimal digits
/// say.
proof fn code_of_digits(n: nat)
    requires
        n < 0x100_0000,
    ensures
        n == (n / 0x10_0000 % 16) * 0x10_0000 + (n / 0x1_0000 % 16) * 0x1_0000 + (n / 0x1000 % 16)
            * 0x1000 + (n / 0x100 % 16) * 0x100 + (n / 0x10 % 16) * 0x10 + n % 16,
{
    let q1 = n / 0x10;
    let q2 = q1 / 0x10;
    let q3 = q2 / 0x10;
    let q4 = q3 / 0x10;
    let q5 = q4 / 0x10;
    assert(n / 0x100 == q2);
    assert(n / 0x1000 == q3) by {
        assert(n / 0x100 == q2);
    }
    assert(n / 0x1_0000 == q4) by {
        assert(n / 0x1000 == q3);
    }
    assert(n / 0x10_0000 == q5) by {
        assert(n / 0x1_0000 == q4);
    }
    assert(q5 < 16);
    assert(n == q1 * 0x10 + n % 16);
    assert(q1 == q2 * 0x10 + q1 % 16);
    assert(q2 == q3 * 0x10 + q2 % 16);
    assert(q3 == q4 * 0x10 + q3 % 16);
    assert(q4 == q5 * 0x10 + q4 % 16);
    assert(q5 % 16 == q5);
}

/// Two characters with the same escape are one character.
proof fn escapes_differ(a: char, b: char)
    requires
        escaped(a) == escaped(b),
    ensures
        a == b,
{
    let x = a as u32 as nat;
    let y = b as u32 as nat;
    let ea = escaped(a);
    let eb = escaped(b);
    assert(ea[1] == eb[1]);
    assert(ea[2] == eb[2]);
    assert(ea[3] == eb[3]);
    assert(ea[4] == eb[4]);
    assert(ea[5] == eb[5]);
    assert(ea[6] == eb[6]);
    assert(x / 0x10_0000 % 16 == y / 0x10_0000 % 16);
    assert(x / 0x1_0000 % 16 == y / 0x1_0000 % 16);
    assert(x / 0x1000 % 16 == y / 0x1000 % 16);
    assert(x / 0x100 % 16 == y / 0x100 % 16);
    assert(x / 0x10 % 16 == y / 0x10 % 16);
    assert(x % 16 == y % 16);
    vstd::utf8::char_is_scalar(a);
    vstd::utf8::char_is_scalar(b);
    code_of_digits(x);
    code_of_digits(y);
    assert(x == y);
    vstd::utf8::char_u32_cast(a, a as u32);
    vstd::utf8::char_u32_cast(b, b as u32);
}

/// No two ids get the same file name.
pub proof fn safe_ids_differ(a: Seq<char>, b: Seq<char>)
    requires
        safe_id(a) == safe_id(b),
    ensures
        a == b,
    decreases a.len(),
{
    if a.len() == 0 {
        if b.len() > 0 {
            assert(safe_id(b).len() >= safe_form(b[0]).len());
        }
        assert(a == b);
    } else {
        assert(safe_id(a).len() >= safe_form(a[0]).len());
        assert(b.len() > 0);
        let name = safe_id(a);
        let fa = safe_form(a[0]);
        let fb = safe_form(b[0]);
        let ra = safe_id(a.drop_first());
        let rb = safe_id(b.drop_first());
        assert(name == fa + ra);
        assert(name == fb + rb);
        assert(name[0] == fa[0]);
        assert(name[0] == fb[0]);
        assert(!safe_char(ESCAPE));
        if safe_char(a[0]) {
            assert(safe_char(b[0]));
            assert(a[0] == b[0]);
        } else {
            assert(!safe_char(b[0]));
            assert(fa == name.subrange(0, 7));
            assert(fb == name.subrange(0, 7));
            escapes_differ(a[0], b[0]);
        }
        assert(ra == name.subrange(fa.len() as int, name.len() as int));
        assert(rb == name.subrange(fb.len() as int, name.len() as int));
        safe_ids_differ(a.drop_first(), b.drop_first());
        assert(a == seq![a[0]] + a.drop_first());
        assert(b == seq![b[0]] + b.drop_first());
    }
}

/// The files of a video lie right below the directory: each path is the
/// directory, a separator and a file name that is not empty and holds no
/// separator.
pub proof fn files_lie_in_the_directory(base_dir: Seq<char>, id: Seq<char>)
    ensures
        final_path(base_dir, id) == base_dir + "/"@ + (safe_id(id) + ".m4a"@),
        temp_path(base_dir, id) == base_dir + "/"@ + (safe_id(id) + ".temp.m4a"@),
        (safe_id(id) + ".m4a"@).len() > 0,
        (safe_id(id) + ".temp.m4a"@).len() > 0,
        forall|k: int|
            0 <= k < (safe_id(id) + ".m4a"@).len() ==> (#[trigger] (safe_id(id) + ".m4a"@)[k])
                != '/',
        forall|k: int|
            0 <= k < (safe_id(id) + ".temp.m4a"@).len() ==> (#[trigger] (safe_id(id)
                + ".temp.m4a"@)[k]) != '/',
{
    reveal_strlit(".m4a");
    reveal_strlit(".temp.m4a");
    safe_id_holds_safe_characters(id);
    let name = safe_id(id);
    assert(base_dir + "/"@ + name + ".m4a"@ == base_dir + "/"@ + (name + ".m4a"@));
    assert(base_dir + "/"@ + name + ".temp.m4a"@ == base_dir + "/"@ + (name + ".temp.m4a"@));
    assert(!safe_char('/'));
    assert forall|k: int| 0 <= k < (name + ".m4a"@).len() implies (#[trigger] (name + ".m4a"@)[k])
        != '/' by {
        if k < name.len() {
            assert((name + ".m4a"@)[k] == name[k]);
        } else {
            assert((name + ".m4a"@)[k] == ".m4a"@[k - name.len()]);
        }
    }
    assert forall|k: int| 0 <= k < (name + ".temp.m4a"@).len() implies (#[trigger] (name
        + ".temp.m4a"@)[k]) != '/' by {
        if k < name.len() {
            assert((name + ".temp.m4a"@)[k] == name[k]);
        } else {
            assert((name + ".temp.m4a"@)[k] == ".temp.m4a"@[k - name.len()]);
        }
    }
}

/// Two videos share no file, whatever their ids: their finished files
/// differ, their temporary files differ, and the finished file of the one
/// is not the temporary file of the other. Nor are the two files of one
/// video one file.
pub proof fn entries_share_no_file(base_dir: Seq<char>, a: Seq<char>, b: Seq<char>)
    ensures
        a != b ==> final_path(base_dir, a) != final_path(base_dir, b),
        a != b ==> temp_path(base_dir, a) != temp_path(base_dir, b),
        final_path(base_dir, a) != temp_path(base_dir, b),
{
    reveal_strlit(".m4a");
    reveal_strlit(".temp.m4a");
    let lead = base_dir + "/"@;
    let n = lead.len() as int;
    let na = safe_id(a);
    let nb = safe_id(b);
    assert(final_path(base_dir, a) == lead + na + ".m4a"@);
    assert(final_path(base_dir, b) == lead + nb + ".m4a"@);
    assert(temp_path(base_dir, a) == lead + na + ".temp.m4a"@);
    assert(temp_path(base_dir, b) == lead + nb + ".temp.m4a"@);
    assert(final_path(base_dir, a).len() == n + na.len() + 4);
    assert(final_path(base_dir, b).len() == n + nb.len() + 4);
    assert(temp_path(base_dir, a).len() == n + na.len() + 9);
    assert(temp_path(base_dir, b).len() == n + nb.len() + 9);
    if final_path(base_dir, a) == final_path(base_dir, b) {
        let p = final_path(base_dir, a);
        assert(na.len() == nb.len());
        assert(na == p.subrange(n, n + na.len()));
        assert(nb == p.subrange(n, n + nb.len()));
        safe_ids_differ(a, b);
    }
    if temp_path(base_dir, a) == temp_path(base_dir, b) {
        let p = temp_path(base_dir, a);
        assert(na.len() == nb.len());
        assert(na == p.subrange(n, n + na.len()));
        assert(nb == p.subrange(n, n + nb.len()));
        safe_ids_differ(a, b);
    }
    if final_path(base_dir, a) == temp_path(base_dir, b) {
        let p = final_path(base_dir, a);
        assert(na.len() == nb.len() + 5);
        assert(p[n + nb.len()] == na[nb.len() as int]);
        assert(temp_path(base_dir, b)[n + nb.len()] == ".temp.m4a"@[0]);
        assert(".temp.m4a"@[0] == '.');
        assert(!safe_char('.'));
        safe_id_holds_safe_characters(a);
    }
}

impl AudioFile {
    /// Whether this is the entry for the video `audio_id` below `base_dir`.
    pub open spec fn is_entry(&self, base_dir: Seq<char>, audio_id: Seq<char>) -> bool {
        &&& self.id@ == audio_id
        &&& self.path@ == final_path(base_dir, audio_id)
        &&& self.temp_path@ == temp_path(base_dir, audio_id)
    }

    /// The entry for the video `audio_id` below `base_dir`, allocated under
    /// the number `serial`. The entry keeps the id as it was supplied; its
    /// files are named by the file name that stands for the id.
    pub fn new(base_dir: &str, audio_id: &str, serial: u64) -> (r: Self)
        ensures
            r.is_entry(base_dir@, audio_id@),
            r.serial == serial,
    {
        let name = sanitize(audio_id);
        let mut path = String::from_str(base_dir);
        path.append("/");
        path.append(name.as_str());
        let mut temp_path = path.clone();
        path.append(".m4a");
        temp_path.append(".temp.m4a");
        AudioFile { id: String::from_str(audio_id), path, temp_path, serial }
    }

    /// The files that go when the last holder lets go of the entry: the
    /// temporary file and the finished file, in this order, whether or not
    /// the download has come so far as to write them.
    pub fn files_to_delete(&self) -> (paths: Vec<String>)
        ensures
            paths.deep_view() == seq![self.temp_path@, self.path@],
    {
        let mut paths: Vec<String> = Vec::new();
        paths.push(self.temp_path.clone());
        paths.push(self.path.clone());
        assert(paths.deep_view() == seq![self.temp_path@, self.path@]);
        paths
    }

    /// Whether this is the entry that a cache holds under this entry's id,
    /// where `held` is the allocation number that the cache's lookup of the
    /// id gave, `None` where it gave none.
    pub fn is_held_as(&self, held: Option<u64>) -> (r: bool)
        ensures
            r == (held == Some(self.serial)),
    {
        match held {
            Some(stamp) => stamp == self.serial,
            None => false,
        }
    }

    /// Judges the end of a download of this entry: the tool's failure is
    /// handed on; a download that left no file at the final path fails with
    /// `AudioStream` and the entry's id.
    pub fn check_download(&self, outcome: Result<(), Error>, file_exists: bool) -> (r: Result<
        (),
        Error,
    >)
        ensures
            match outcome {
                Err(e) => r == Err::<(), Error>(e),
                Ok(_) => if file_exists {
                    r is Ok
                } else {
                    r matches Err(e) && e.is_audio_stream(self.id@)
                },
            },
    {
        match outcome {
            Err(e) => Err(e),
            Ok(_) => {
                if file_exists {
                    Ok(())
                } else {
                    Err(Error::AudioStream(self.id.clone()))
                }
            },
        }
    }
}

/// The cache that orders its entries by their last use and drops those
/// that have not been used for a set time.
#[verifier::external_type_specification]
#[verifier::external_body]
#[verifier::reject_recursive_types(Key)]
#[verifier::reject_recursive_types(Value)]
pub struct ExLruCache<Key, Value>(LruCache<Key, Value>);

/// The entries of a cache, each a key with its value, the least recently
/// used first.
pub uninterp spec fn lru_entries(cache: LruCache<String, u64>) -> Seq<(Seq<char>, u64)>;

/// The number of entries that a cache was made to hold.
pub uninterp spec fn lru_capacity(cache: LruCache<String, u64>) -> nat;

/// Whether no key stands twice in `entries`.
pub open spec fn distinct_keys(entries: Seq<(Seq<char>, u64)>) -> bool {
    forall|i: int, j: int|
        0 <= i < j < entries.len() ==> (#[trigger] entries[i]).0 != (#[trigger] entries[j]).0
}

/// Whether `entries` holds an entry under `key`.
pub open spec fn holds_key(entries: Seq<(Seq<char>, u64)>, key: Seq<char>) -> bool {
    exists|i: int| 0 <= i < entries.len() && (#[trigger] entries[i]).0 == key
}

/// `entries` after the `expired` least recently used ones have been
/// dropped for their age.
pub open spec fn live(entries: Seq<(Seq<char>, u64)>, expired: int) -> Seq<(Seq<char>, u64)> {
    entries.skip(expired)
}

/// `entries` with room made for one more among `capacity`: where they fill
/// the capacity, the least recently used ones go.
pub open spec fn with_room(entries: Seq<(Seq<char>, u64)>, capacity: nat) -> Seq<
    (Seq<char>, u64),
> {
    if entries.len() >= capacity {
        entries.skip(entries.len() - capacity + 1)
    } else {
        entries
    }
}

/// What a lookup of `key` does where `expired` entries have outlived their
/// time: those are dropped; the entry under `key`, if it is left, becomes
/// the most recently used and its value is the result.
pub open spec fn looked_up(
    before: Seq<(Seq<char>, u64)>,
    after: Seq<(Seq<char>, u64)>,
    key: Seq<char>,
    result: Option<u64>,
    expired: int,
) -> bool {
    let left = live(before, expired);
    &&& 0 <= expired <= before.len()
    &&& forall|i: int|
        0 <= i < left.len() && (#[trigger] left[i]).0 == key ==> result == Some(left[i].1) && after
            == left.remove(i).push(left[i])
    &&& !holds_key(left, key) ==> result is None && after == left
}

/// What storing `value` under `key` does where `expired` entries have
/// outlived their time: those are dropped; an entry under `key` that is left
/// gets the new value and becomes the most recently used, its old value
/// being the result; else room is made and the new entry becomes the most
/// recently used.
pub open spec fn stored(
    before: Seq<(Seq<char>, u64)>,
    after: Seq<(Seq<char>, u64)>,
    capacity: nat,
    key: Seq<char>,
    value: u64,
    result: Option<u64>,
    expired: int,
) -> bool {
    let left = live(before, expired);
    &&& 0 <= expired <= before.len()
    &&& forall|i: int|
        0 <= i < left.len() && (#[trigger] left[i]).0 == key ==> result == Some(left[i].1) && after
            == left.remove(i).push((key, value))
    &&& !holds_key(left, key) ==> result is None && after == with_room(left, capacity).push(
        (key, value),
    )
}

/// What removing `key` does: the entry under it goes, and its value is the
/// result.
pub open spec fn removed(
    before: Seq<(Seq<char>, u64)>,
    after: Seq<(Seq<char>, u64)>,
    key: Seq<char>,
    result: Option<u64>,
) -> bool {
    &&& forall|i: int|
        0 <= i < before.len() && (#[trigger] before[i]).0 == key ==> result == Some(before[i].1)
            && after == before.remove(i)
    &&& !holds_key(before, key) ==> result is None && after == before
}

/// `LruCache::with_expiry_duration_and_capacity`: an empty cache for
/// `capacity` entries, each of which is dropped once it has not been used
/// for `ttl_secs` seconds.
#[verifier::external_body]
fn new_cache(ttl_secs: u64, capacity: usize) -> (cache: LruCache<String, u64>)
    requires
        ttl_secs <= 31_536_000,
        0 < capacity <= 4096,
    ensures
        lru_entries(cache) == Seq::<(Seq<char>, u64)>::empty(),
        lru_capacity(cache) == capacity,
{
    LruCache::with_expiry_duration_and_capacity(std::time::Duration::from_secs(ttl_secs), capacity)
}

/// `LruCache::get`: first drops, from the least recently used on, the
/// entries that have outlived their time; how many these are depends on the
/// clock. Then looks `key` up among the rest and makes it the most recently
/// used.
#[verifier::external_body]
fn cache_get(cache: &mut LruCache<String, u64>, key: &str) -> (r: Option<u64>)
    ensures
        lru_capacity(*final(cache)) == lru_capacity(*old(cache)),
        exists|expired: int| #[trigger]
            looked_up(lru_entries(*old(cache)), lru_entries(*final(cache)), key@, r, expired),
    no_unwind
{
    cache.get(key).copied()
}

/// `LruCache::insert`: first drops the entries that have outlived their
/// time, as `get` does. Then stores `value` under `key` as the most
/// recently used entry; where the key is new and the cache is full, the
/// least recently used entry goes. The outside function panics on a cache
/// made for no entries.
#[verifier::external_body]
fn cache_insert(cache: &mut LruCache<String, u64>, key: String, value: u64) -> (r: Option<u64>)
    requires
        lru_capacity(*old(cache)) > 0,
    ensures
        lru_capacity(*final(cache)) == lru_capacity(*old(cache)),
        exists|expired: int| #[trigger]
            stored(
                lru_entries(*old(cache)),
                lru_entries(*final(cache)),
                lru_capacity(*old(cache)),
                key@,
                value,
                r,
                expired,
            ),
    no_unwind
{
    cache.insert(key, value)
}

/// `LruCache::remove`: takes the entry under `key` out, whatever its age,
/// and leaves the others as they are.
#[verifier::external_body]
fn cache_remove(cache: &mut LruCache<String, u64>, key: &str) -> (r: Option<u64>)
    ensures
        lru_capacity(*final(cache)) == lru_capacity(*old(cache)),
        removed(lru_entries(*old(cache)), lru_entries(*final(cache)), key@, r),
    no_unwind
{
    cache.remove(key)
}

/// `LruCache::peek`: the value under `key`, unless the entry has outlived
/// its time. Changes nothing.
#[verifier::external_body]
fn cache_peek(cache: &LruCache<String, u64>, key: &str) -> (r: Option<u64>)
    ensures
        r matches Some(value) ==> lru_entries(*cache).contains((key@, value)),
        !holds_key(lru_entries(*cache), key@) ==> r is None,
{
    cache.peek(key).copied()
}

/// The number of entries that the cache holds at most.
pub const CAPACITY: usize = 30;

/// The number of seconds after which an entry that nobody has asked for is
/// dropped.
pub const IDLE_SECONDS: u64 = 600;

/// Whether `entries` can be the contents of a cache that has allocated
/// `allocated` entries so far: no key and no allocation number stands
/// twice, every entry was allocated, and the capacity is kept.
pub open spec fn well_kept(entries: Seq<(Seq<char>, u64)>, allocated: nat) -> bool {
    &&& entries.len() <= CAPACITY
    &&& distinct_keys(entries)
    &&& forall|i: int, j: int|
        0 <= i < j < entries.len() ==> (#[trigger] entries[i]).1 != (#[trigger] entries[j]).1
    &&& forall|i: int| 0 <= i < entries.len() ==> (#[trigger] entries[i]).1 < allocated
}

/// What asking for the entry under `key` does to a cache that has
/// allocated `counter` entries, where `expired` entries have outlived their
/// time: those are dropped; the entry under `key`, if it is left, becomes
/// the most recently used and is the answer; else a new entry is
/// allocated under the next number, with room made for it.
pub open spec fn allocated_in(
    before: Seq<(Seq<char>, u64)>,
    after: Seq<(Seq<char>, u64)>,
    counter: nat,
    counter_after: nat,
    key: Seq<char>,
    stamp: u64,
    expired: int,
) -> bool {
    let left = live(before, expired);
    &&& 0 <= expired <= before.len()
    &&& forall|i: int|
        0 <= i < left.len() && (#[trigger] left[i]).0 == key ==> stamp == left[i].1 && after
            == left.remove(i).push(left[i]) && counter_after == counter
    &&& !holds_key(left, key) ==> stamp == counter && counter_after == counter + 1 && after
        == with_room(left, CAPACITY as nat).push((key, stamp))
}

/// What dropping the entry under `key` does: it goes, and the others stay
/// as they are.
pub open spec fn dropped(
    before: Seq<(Seq<char>, u64)>,
    after: Seq<(Seq<char>, u64)>,
    key: Seq<char>,
) -> bool {
    &&& forall|i: int|
        0 <= i < before.len() && (#[trigger] before[i]).0 == key ==> after == before.remove(i)
    &&& !holds_key(before, key) ==> after == before
}

/// The table of cache entries, by video id.
pub struct AudioStore {
    base_dir: String,
    files: LruCache<String, u64>,
    allocated: u64,
}

impl AudioStore {
    #[verifier::type_invariant]
    spec fn kept(&self) -> bool {
        &&& lru_capacity(self.files) == CAPACITY
        &&& well_kept(lru_entries(self.files), self.allocated as nat)
    }

    /// The entries, each the id of a video as it was supplied with the
    /// number it was allocated under, the least recently used first.
    pub closed spec fn entries(&self) -> Seq<(Seq<char>, u64)> {
        lru_entries(self.files)
    }

    /// The number of entries allocated so far.
    pub closed spec fn allocated(&self) -> nat {
        self.allocated as nat
    }

    /// The directory that the files of the entries lie in.
    pub closed spec fn dir(&self) -> Seq<char> {
        self.base_dir@
    }

    /// An empty cache for files below `base_dir`.
    pub fn new(base_dir: String) -> (r: Self)
        ensures
            r.entries() == Seq::<(Seq<char>, u64)>::empty(),
            r.allocated() == 0,
            r.dir() == base_dir@,
    {
        AudioStore { base_dir, files: new_cache(IDLE_SECONDS, CAPACITY), allocated: 0 }
    }

    /// The number of entries allocated so far.
    pub fn allocations(&self) -> (n: u64)
        ensures
            n == self.allocated(),
    {
        self.allocated
    }

    /// The entry for the video `audio_id`: the one that the cache holds,
    /// which thereby becomes the most recently used, or a new one. Entries
    /// that nobody has asked for within `IDLE_SECONDS` are dropped first;
    /// where the cache is full, the least recently used entry makes room
    /// for a new one.
    pub fn get_or_allocate(&mut self, audio_id: &str) -> (file: AudioFile)
        requires
            old(self).allocated() < u64::MAX,
        ensures
            final(self).dir() == old(self).dir(),
            file.is_entry(old(self).dir(), audio_id@),
            exists|expired: int| #[trigger]
                allocated_in(
                    old(self).entries(),
                    final(self).entries(),
                    old(self).allocated(),
                    final(self).allocated(),
                    audio_id@,
                    file.serial,
                    expired,
                ),
            well_kept(old(self).entries(), old(self).allocated()),
            well_kept(final(self).entries(), final(self).allocated()),
            final(self).entries().len() > 0,
            final(self).entries().last() == (audio_id@, file.serial),
    {
        proof {
            use_type_invariant(&*self);
        }
        let ghost before = self.entries();
        let ghost counter = self.allocated as nat;
        let key = String::from_str(audio_id);
        let found = lookup(&mut self.files, key.as_str(), Ghost(counter));
        let ghost mid = lru_entries(self.files);
        match found {
            Some(stamp) => {
                proof {
                    let e1 = choose|expired: int| #[trigger]
                        looked_up(before, mid, key@, found, expired);
                    assert(allocated_in(
                        before,
                        self.entries(),
                        counter,
                        self.allocated(),
                        audio_id@,
                        stamp,
                        e1,
                    ));
                }
                AudioFile::new(self.base_dir.as_str(), audio_id, stamp)
            },
            None => {
                let stamp = self.allocated;
                self.allocated = stamp + 1;
                store_new(&mut self.files, key, stamp);
                proof {
                    let after = lru_entries(self.files);
                    let e1 = choose|expired: int| #[trigger]
                        looked_up(before, mid, key@, found, expired);
                    let e2 = choose|expired: int|
                        0 <= expired <= mid.len() && after == with_room(
                            #[trigger] live(mid, expired),
                            CAPACITY as nat,
                        ).push((key@, stamp));
                    let left = live(mid, e2);
                    assert(mid == live(before, e1));
                    assert(left == live(before, e1 + e2));
                    assert(!holds_key(left, key@)) by {
                        if holds_key(left, key@) {
                            let i = choose|i: int|
                                0 <= i < left.len() && (#[trigger] left[i]).0 == key@;
                            assert(mid[i + e2] == left[i]);
                        }
                    }
                    assert(allocated_in(
                        before,
                        self.entries(),
                        counter,
                        self.allocated(),
                        audio_id@,
                        stamp,
                        e1 + e2,
                    ));
                }
                AudioFile::new(self.base_dir.as_str(), audio_id, stamp)
            },
        }
    }

    /// Drops the entry for the video `audio_id`, whatever its state. The
    /// other entries stay as they are.
    pub fn remove(&mut self, audio_id: &str)
        ensures
            final(self).dir() == old(self).dir(),
            final(self).allocated() == old(self).allocated(),
            dropped(old(self).entries(), final(self).entries(), audio_id@),
            !holds_key(final(self).entries(), audio_id@),
            well_kept(final(self).entries(), final(self).allocated()),
    {
        proof {
            use_type_invariant(&*self);
        }
        let ghost before = self.entries();
        let key = String::from_str(audio_id);
        take_out(&mut self.files, key.as_str(), Ghost(self.allocated as nat));
    }

    /// Whether `file` may still be an entry of the cache. `false` says that
    /// it has been dropped or has outlived its time, so that its files can
    /// go once nobody reads them.
    pub fn is_cached(&self, file: &AudioFile) -> (r: bool)
        ensures
            r ==> self.entries().contains((file.id@, file.serial)),
            !holds_key(self.entries(), file.id@) ==> !r,
    {
        file.is_held_as(cache_peek(&self.files, file.id.as_str()))
    }
}

/// Asked twice for the same video, the cache answers with the same entry
/// and allocates nothing, unless every entry has outlived its time in
/// between: the entry asked for is the most recently used, so that it is
/// the last to go.
pub proof fn same_entry_while_cached(
    before: Seq<(Seq<char>, u64)>,
    between: Seq<(Seq<char>, u64)>,
    after: Seq<(Seq<char>, u64)>,
    counter: nat,
    counter_between: nat,
    counter_after: nat,
    key: Seq<char>,
    first: u64,
    second: u64,
    expired_first: int,
    expired_second: int,
)
    requires
        allocated_in(before, between, counter, counter_between, key, first, expired_first),
        allocated_in(between, after, counter_between, counter_after, key, second, expired_second),
        expired_second < between.len(),
    ensures
        second == first,
        counter_after == counter_between,
{
    let left = live(before, expired_first);
    if holds_key(left, key) {
        let i = choose|i: int| 0 <= i < left.len() && (#[trigger] left[i]).0 == key;
        assert(between.last() == left[i]);
    }
    assert(between.last() == (key, first));
    let again = live(between, expired_second);
    let j = again.len() - 1;
    assert(again[j] == between.last());
}

/// Two requests in a row for the same video: the second is answered with
/// the entry of the first and allocates nothing, or else the whole cache,
/// that entry with it, has outlived its time in between, and the second
/// allocates the next entry. It is never answered with another entry that
/// the cache held.
pub proof fn asked_twice_in_a_row(
    before: Seq<(Seq<char>, u64)>,
    between: Seq<(Seq<char>, u64)>,
    after: Seq<(Seq<char>, u64)>,
    counter: nat,
    counter_between: nat,
    counter_after: nat,
    key: Seq<char>,
    first: u64,
    second: u64,
)
    requires
        exists|expired: int| #[trigger]
            allocated_in(before, between, counter, counter_between, key, first, expired),
        exists|expired: int| #[trigger]
            allocated_in(between, after, counter_between, counter_after, key, second, expired),
    ensures
        (second == first && counter_after == counter_between) || (second == counter_between
            && counter_after == counter_between + 1 && after == seq![(key, second)]),
{
    let e1 = choose|expired: int| #[trigger]
        allocated_in(before, between, counter, counter_between, key, first, expired);
    let e2 = choose|expired: int| #[trigger]
        allocated_in(between, after, counter_between, counter_after, key, second, expired);
    if e2 < between.len() {
        same_entry_while_cached(
            before,
            between,
            after,
            counter,
            counter_between,
            counter_after,
            key,
            first,
            second,
            e1,
            e2,
        );
    } else {
        let left = live(between, e2);
        assert(left.len() == 0);
        assert(!holds_key(left, key));
        assert(with_room(left, CAPACITY as nat) == left);
        assert(after == left.push((key, second)));
        assert(after == seq![(key, second)]);
    }
}

/// A new video that comes to a full cache takes the place of the least
/// recently used entry: that one goes, the new entry is the most recently
/// used, and where nothing has outlived its time all the others stay.
pub proof fn full_cache_drops_least_recent(
    before: Seq<(Seq<char>, u64)>,
    after: Seq<(Seq<char>, u64)>,
    counter: nat,
    counter_after: nat,
    key: Seq<char>,
    stamp: u64,
    expired: int,
)
    requires
        well_kept(before, counter),
        before.len() == CAPACITY,
        !holds_key(before, key),
        allocated_in(before, after, counter, counter_after, key, stamp, expired),
    ensures
        !holds_key(after, before[0].0),
        after.len() <= CAPACITY,
        after.last() == (key, stamp),
        stamp == counter,
        counter_after == counter + 1,
        expired == 0 ==> after == before.skip(1).push((key, stamp)),
{
    let left = live(before, expired);
    assert(!holds_key(left, key)) by {
        if holds_key(left, key) {
            let i = choose|i: int| 0 <= i < left.len() && (#[trigger] left[i]).0 == key;
            assert(before[i + expired] == left[i]);
        }
    }
    let kept = with_room(left, CAPACITY as nat);
    if expired == 0 {
        assert(left == before);
    }
    assert(before[0].0 != key);
    assert(!holds_key(after, before[0].0)) by {
        if holds_key(after, before[0].0) {
            let j = choose|j: int| 0 <= j < after.len() && (#[trigger] after[j]).0 == before[0].0;
            if j < kept.len() {
                assert(after[j] == kept[j]);
                if left.len() >= CAPACITY {
                    assert(kept[j] == before[j + 1]);
                } else {
                    assert(kept[j] == before[j + expired]);
                }
            }
        }
    }
}

/// `ids` as entries, each allocated under its place in `ids`.
pub open spec fn numbered(ids: Seq<Seq<char>>) -> Seq<(Seq<char>, u64)> {
    Seq::new(ids.len(), |i: int| (ids[i], i as u64))
}

/// Whether `states` are the contents of a cache that starts empty, with
/// nothing allocated, and is asked for each of `ids` in turn, while nothing
/// outlives its time: `states[i]` is what it holds before `ids[i]` is asked
/// for, and `stamps[i]` is the number that the answer to it carries.
pub open spec fn asked_in_turn(
    ids: Seq<Seq<char>>,
    states: Seq<Seq<(Seq<char>, u64)>>,
    stamps: Seq<u64>,
) -> bool {
    &&& states.len() == ids.len() + 1
    &&& stamps.len() == ids.len()
    &&& states[0] == Seq::<(Seq<char>, u64)>::empty()
    &&& forall|i: int|
        0 <= i < ids.len() ==> allocated_in(
            #[trigger] states[i],
            states[i + 1],
            i as nat,
            (i + 1) as nat,
            ids[i],
            stamps[i],
            0,
        )
}

/// Whether no id stands twice in `ids`.
pub open spec fn distinct_ids(ids: Seq<Seq<char>>) -> bool {
    forall|i: int, j: int| 0 <= i < j < ids.len() ==> #[trigger] ids[i] != #[trigger] ids[j]
}

/// As long as the capacity is not used up, a cache that is asked for
/// different videos in turn holds all of them, in the order in which they
/// were asked for.
proof fn filling_keeps_all(
    ids: Seq<Seq<char>>,
    states: Seq<Seq<(Seq<char>, u64)>>,
    stamps: Seq<u64>,
    k: int,
)
    requires
        asked_in_turn(ids, states, stamps),
        distinct_ids(ids),
        0 <= k <= ids.len(),
        k <= CAPACITY,
    ensures
        states[k] == numbered(ids.take(k)),
        forall|i: int| 0 <= i < k ==> #[trigger] stamps[i] == i,
    decreases k,
{
    if k == 0 {
        assert(numbered(ids.take(0)) == Seq::<(Seq<char>, u64)>::empty());
    } else {
        filling_keeps_all(ids, states, stamps, k - 1);
        let before = states[k - 1];
        let held = numbered(ids.take(k - 1));
        assert(allocated_in(
            states[k - 1],
            states[k],
            (k - 1) as nat,
            k as nat,
            ids[k - 1],
            stamps[k - 1],
            0,
        ));
        assert(live(before, 0) == before);
        assert(!holds_key(before, ids[k - 1])) by {
            if holds_key(before, ids[k - 1]) {
                let i = choose|i: int|
                    0 <= i < before.len() && (#[trigger] before[i]).0 == ids[k - 1];
                assert(before[i] == (ids.take(k - 1)[i], i as u64));
                assert(ids[i] == ids[k - 1]);
            }
        }
        assert(with_room(before, CAPACITY as nat) == before);
        assert(states[k] == before.push((ids[k - 1], stamps[k - 1])));
        assert(states[k] == numbered(ids.take(k)));
    }
}

/// A cache that is asked for one video more than it holds, all of them
/// different and none outliving its time, drops the first of them and
/// holds exactly the others, in the order in which they were asked for. The
/// first is then not held any more, so that a later request for it gets an
/// entry under a new number.
pub proof fn one_more_than_the_capacity(
    ids: Seq<Seq<char>>,
    states: Seq<Seq<(Seq<char>, u64)>>,
    stamps: Seq<u64>,
)
    requires
        asked_in_turn(ids, states, stamps),
        distinct_ids(ids),
        ids.len() == CAPACITY + 1,
    ensures
        states[CAPACITY as int] == numbered(ids.take(CAPACITY as int)),
        states.last() == numbered(ids).skip(1),
        states.last().len() == CAPACITY,
        !holds_key(states.last(), ids[0]),
        forall|i: int| 1 <= i < ids.len() ==> holds_key(states.last(), #[trigger] ids[i]),
        forall|i: int| 0 <= i < ids.len() ==> #[trigger] stamps[i] == i,
{
    let n = CAPACITY as int;
    filling_keeps_all(ids, states, stamps, n);
    let full = states[n];
    assert(allocated_in(states[n], states[n + 1], n as nat, (n + 1) as nat, ids[n], stamps[n], 0));
    assert(live(full, 0) == full);
    assert(!holds_key(full, ids[n])) by {
        if holds_key(full, ids[n]) {
            let i = choose|i: int| 0 <= i < full.len() && (#[trigger] full[i]).0 == ids[n];
            assert(full[i] == (ids.take(n)[i], i as u64));
            assert(ids[i] == ids[n]);
        }
    }
    let last = states.last();
    assert(last == states[n + 1]);
    assert(with_room(full, CAPACITY as nat) == full.skip(1));
    assert(last == full.skip(1).push((ids[n], stamps[n])));
    assert(last == numbered(ids).skip(1));
    assert(!holds_key(last, ids[0])) by {
        if holds_key(last, ids[0]) {
            let i = choose|i: int| 0 <= i < last.len() && (#[trigger] last[i]).0 == ids[0];
            assert(last[i] == numbered(ids)[i + 1]);
            assert(ids[i + 1] == ids[0]);
        }
    }
    assert forall|i: int| 1 <= i < ids.len() implies holds_key(last, #[trigger] ids[i]) by {
        assert(last[i - 1] == numbered(ids)[i]);
        assert(last[i - 1].0 == ids[i]);
    }
}

/// Looks `key` up in a well kept cache, which stays well kept.
fn lookup(files: &mut LruCache<String, u64>, key: &str, Ghost(counter): Ghost<nat>) -> (found:
    Option<u64>)
    requires
        well_kept(lru_entries(*old(files)), counter),
    ensures
        lru_capacity(*final(files)) == lru_capacity(*old(files)),
        well_kept(lru_entries(*final(files)), counter),
        exists|expired: int| #[trigger]
            looked_up(lru_entries(*old(files)), lru_entries(*final(files)), key@, found, expired),
        found is None ==> !holds_key(lru_entries(*final(files)), key@),
    no_unwind
{
    let ghost before = lru_entries(*files);
    let found = cache_get(files, key);
    proof {
        let after = lru_entries(*files);
        let expired = choose|expired: int| #[trigger]
            looked_up(before, after, key@, found, expired);
        let left = live(before, expired);
        skipping_keeps(before, counter, expired);
        if holds_key(left, key@) {
            let i = choose|i: int| 0 <= i < left.len() && (#[trigger] left[i]).0 == key@;
            touching_keeps(left, counter, i);
        }
    }
    found
}

/// Stores the next entry under a key that a well kept cache does not hold.
fn store_new(files: &mut LruCache<String, u64>, key: String, stamp: u64)
    requires
        lru_capacity(*old(files)) == CAPACITY,
        well_kept(lru_entries(*old(files)), stamp as nat),
        !holds_key(lru_entries(*old(files)), key@),
        stamp < u64::MAX,
    ensures
        lru_capacity(*final(files)) == lru_capacity(*old(files)),
        well_kept(lru_entries(*final(files)), (stamp + 1) as nat),
        exists|expired: int|
            0 <= expired <= lru_entries(*old(files)).len() && lru_entries(*final(files))
                == with_room(
                #[trigger] live(lru_entries(*old(files)), expired),
                CAPACITY as nat,
            ).push((key@, stamp)),
    no_unwind
{
    let ghost before = lru_entries(*files);
    let ghost name = key@;
    let held = cache_insert(files, key, stamp);
    proof {
        let after = lru_entries(*files);
        let expired = choose|expired: int| #[trigger]
            stored(before, after, CAPACITY as nat, name, stamp, held, expired);
        let left = live(before, expired);
        assert(!holds_key(left, name)) by {
            if holds_key(left, name) {
                let i = choose|i: int| 0 <= i < left.len() && (#[trigger] left[i]).0 == name;
                assert(before[i + expired] == left[i]);
            }
        }
        skipping_keeps(before, stamp as nat, expired);
        making_room_keeps(left, stamp as nat);
        adding_keeps(with_room(left, CAPACITY as nat), stamp as nat, name);
    }
}

/// Takes the entry under `key` out of a well kept cache, which stays well
/// kept.
fn take_out(files: &mut LruCache<String, u64>, key: &str, Ghost(counter): Ghost<nat>)
    requires
        well_kept(lru_entries(*old(files)), counter),
    ensures
        lru_capacity(*final(files)) == lru_capacity(*old(files)),
        well_kept(lru_entries(*final(files)), counter),
        dropped(lru_entries(*old(files)), lru_entries(*final(files)), key@),
        !holds_key(lru_entries(*final(files)), key@),
    no_unwind
{
    let ghost before = lru_entries(*files);
    let _ = cache_remove(files, key);
    proof {
        let after = lru_entries(*files);
        if holds_key(before, key@) {
            let i = choose|i: int| 0 <= i < before.len() && (#[trigger] before[i]).0 == key@;
            removing_keeps(before, counter, i);
            assert(!holds_key(after, key@)) by {
                if holds_key(after, key@) {
                    let j = choose|j: int| 0 <= j < after.len() && (#[trigger] after[j]).0 == key@;
                    if j < i {
                        assert(after[j] == before[j]);
                    } else {
                        assert(after[j] == before[j + 1]);
                    }
                }
            }
        }
    }
}

/// Dropping the least recently used entries keeps a cache well kept.
proof fn skipping_keeps(entries: Seq<(Seq<char>, u64)>, allocated: nat, n: int)
    requires
        well_kept(entries, allocated),
        0 <= n <= entries.len(),
    ensures
        well_kept(entries.skip(n), allocated),
{
    let rest = entries.skip(n);
    assert forall|i: int, j: int| 0 <= i < j < rest.len() implies (#[trigger] rest[i]).0 != (
    #[trigger] rest[j]).0 && rest[i].1 != rest[j].1 by {
        assert(rest[i] == entries[i + n]);
        assert(rest[j] == entries[j + n]);
    }
    assert forall|i: int| 0 <= i < rest.len() implies (#[trigger] rest[i]).1 < allocated by {
        assert(rest[i] == entries[i + n]);
    }
}

/// Making room keeps a cache well kept and leaves a place free.
proof fn making_room_keeps(entries: Seq<(Seq<char>, u64)>, allocated: nat)
    requires
        well_kept(entries, allocated),
    ensures
        well_kept(with_room(entries, CAPACITY as nat), allocated),
        with_room(entries, CAPACITY as nat).len() < CAPACITY,
        forall|key: Seq<char>|
            !holds_key(entries, key) ==> !holds_key(with_room(entries, CAPACITY as nat), key),
{
    if entries.len() >= CAPACITY {
        let n = entries.len() - CAPACITY + 1;
        skipping_keeps(entries, allocated, n);
        let rest = entries.skip(n);
        assert forall|key: Seq<char>| !holds_key(entries, key) implies !holds_key(rest, key) by {
            if holds_key(rest, key) {
                let i = choose|i: int| 0 <= i < rest.len() && (#[trigger] rest[i]).0 == key;
                assert(entries[i + n] == rest[i]);
            }
        }
    }
}

/// Making an entry the most recently used keeps a cache well kept.
proof fn touching_keeps(entries: Seq<(Seq<char>, u64)>, allocated: nat, i: int)
    requires
        well_kept(entries, allocated),
        0 <= i < entries.len(),
    ensures
        well_kept(entries.remove(i).push(entries[i]), allocated),
{
    removing_keeps(entries, allocated, i);
    let rest = entries.remove(i);
    let after = rest.push(entries[i]);
    assert forall|a: int, b: int| 0 <= a < b < after.len() implies (#[trigger] after[a]).0 != (
    #[trigger] after[b]).0 && after[a].1 != after[b].1 by {
        if b == rest.len() {
            if a < i {
                assert(after[a] == entries[a]);
            } else {
                assert(after[a] == entries[a + 1]);
            }
        } else {
            assert(after[a] == rest[a]);
            assert(after[b] == rest[b]);
        }
    }
    assert forall|a: int| 0 <= a < after.len() implies (#[trigger] after[a]).1 < allocated by {
        if a < rest.len() {
            assert(after[a] == rest[a]);
        }
    }
}

/// Taking an entry out keeps a cache well kept.
proof fn removing_keeps(entries: Seq<(Seq<char>, u64)>, allocated: nat, i: int)
    requires
        well_kept(entries, allocated),
        0 <= i < entries.len(),
    ensures
        well_kept(entries.remove(i), allocated),
{
    let rest = entries.remove(i);
    assert forall|a: int| 0 <= a < rest.len() implies #[trigger] rest[a] == entries[if a < i {
        a
    } else {
        a + 1
    }] by {}
    assert forall|a: int, b: int| 0 <= a < b < rest.len() implies (#[trigger] rest[a]).0 != (
    #[trigger] rest[b]).0 && rest[a].1 != rest[b].1 by {
        let a0 = if a < i {
            a
        } else {
            a + 1
        };
        let b0 = if b < i {
            b
        } else {
            b + 1
        };
        assert(rest[a] == entries[a0]);
        assert(rest[b] == entries[b0]);
    }
    assert forall|a: int| 0 <= a < rest.len() implies (#[trigger] rest[a]).1 < allocated by {
        let a0 = if a < i {
            a
        } else {
            a + 1
        };
        assert(rest[a] == entries[a0]);
    }
}

/// Allocating the next entry under a key that is not held keeps a cache
/// well kept.
proof fn adding_keeps(entries: Seq<(Seq<char>, u64)>, allocated: nat, key: Seq<char>)
    requires
        well_kept(entries, allocated),
        entries.len() < CAPACITY,
        !holds_key(entries, key),
        allocated < u64::MAX,
    ensures
        well_kept(entries.push((key, allocated as u64)), allocated + 1),
{
    let after = entries.push((key, allocated as u64));
    assert forall|a: int, b: int| 0 <= a < b < after.len() implies (#[trigger] after[a]).0 != (
    #[trigger] after[b]).0 && after[a].1 != after[b].1 by {
        assert(after[a] == entries[a]);
        if b < entries.len() {
            assert(after[b] == entries[b]);
        }
    }
    assert forall|a: int| 0 <= a < after.len() implies (#[trigger] after[a]).1 < allocated + 1 by {
        if a < entries.len() {
            assert(after[a] == entries[a]);
        }
    }
}

} // verus!
