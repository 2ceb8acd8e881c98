use youtube_audio_feed::audio_store::{
    sanitize, AudioFile, AudioFileState, AudioStore, FileStep, CAPACITY,
};
use youtube_audio_feed::error::Error;

#[test]
fn two_requests_for_one_video_share_the_entry() {
    let mut store = AudioStore::new("/tmp/audio-store".to_string());
    let first = store.get_or_allocate("X");
    let second = store.get_or_allocate("X");
    assert_eq!(first.serial, second.serial);
    assert_eq!(first.id, second.id);
    assert_eq!(first.path, second.path);
    assert_eq!(store.allocations(), 1);
}

#[test]
fn different_videos_get_different_entries() {
    let mut store = AudioStore::new("/tmp/audio-store".to_string());
    let a = store.get_or_allocate("a");
    let b = store.get_or_allocate("b");
    assert_ne!(a.serial, b.serial);
    assert_ne!(a.path, b.path);
    assert_eq!(store.allocations(), 2);
    assert!(store.is_cached(&a));
    assert!(store.is_cached(&b));
}

#[test]
fn entry_lies_below_the_base_directory() {
    let mut store = AudioStore::new("/tmp/audio-store".to_string());
    let file = store.get_or_allocate("dQw4w9WgXcQ");
    assert_eq!(file.id, "dQw4w9WgXcQ");
    assert_eq!(file.path, "/tmp/audio-store/dQw4w9WgXcQ.m4a");
    assert_eq!(file.temp_path, "/tmp/audio-store/dQw4w9WgXcQ.temp.m4a");
    assert_eq!(file.serial, 0);
}

#[test]
fn full_cache_drops_the_least_recently_used_entry() {
    let mut store = AudioStore::new("/tmp/audio-store".to_string());
    let mut files = Vec::new();
    for i in 0..CAPACITY {
        files.push(store.get_or_allocate(&format!("video{}", i)));
    }
    for file in &files {
        assert!(store.is_cached(file));
    }
    let extra = store.get_or_allocate("one-more");
    assert!(store.is_cached(&extra));
    assert!(!store.is_cached(&files[0]));
    for file in &files[1..] {
        assert!(store.is_cached(file));
    }
    // the dropped video gets a fresh entry
    let again = store.get_or_allocate("video0");
    assert_ne!(again.serial, files[0].serial);
    assert_eq!(again.path, files[0].path);
}

#[test]
fn asking_for_an_entry_makes_it_the_most_recently_used() {
    let mut store = AudioStore::new("/tmp/audio-store".to_string());
    let mut files = Vec::new();
    for i in 0..CAPACITY {
        files.push(store.get_or_allocate(&format!("video{}", i)));
    }
    let touched = store.get_or_allocate("video0");
    assert_eq!(touched.serial, files[0].serial);
    store.get_or_allocate("one-more");
    assert!(store.is_cached(&files[0]));
    assert!(!store.is_cached(&files[1]));
}

#[test]
fn removed_entry_is_allocated_afresh() {
    let mut store = AudioStore::new("/tmp/audio-store".to_string());
    let first = store.get_or_allocate("X");
    store.remove("X");
    assert!(!store.is_cached(&first));
    let second = store.get_or_allocate("X");
    assert_ne!(first.serial, second.serial);
    assert!(store.is_cached(&second));
    assert!(!store.is_cached(&first));
    store.remove("never-there");
    assert!(store.is_cached(&second));
}

#[test]
fn ids_are_made_safe_for_the_file_system() {
    assert_eq!(sanitize("dQw4w9WgXcQ"), "dQw4w9WgXcQ");
    assert_eq!(sanitize("a-b_c"), "a-b_c");
    assert_eq!(sanitize("AZaz09-_"), "AZaz09-_");
    assert_eq!(
        sanitize("../etc/passwd"),
        "%00002e%00002e%00002fetc%00002fpasswd"
    );
    assert_eq!(sanitize("/abs"), "%00002fabs");
    assert_eq!(sanitize("a.b"), "a%00002eb");
    assert_eq!(sanitize("a/b"), "a%00002fb");
    assert_eq!(sanitize("a_b"), "a_b");
    assert_eq!(sanitize(""), "");
    assert_eq!(sanitize("é"), "%0000e9");
    assert_eq!(sanitize("%"), "%000025");
    assert_eq!(sanitize("%00002e"), "%00002500002e");
    assert_eq!(sanitize("\u{1f600}"), "%01f600");
    assert_eq!(sanitize("\u{10ffff}"), "%10ffff");
    assert_eq!(sanitize("\u{0}"), "%000000");
    assert_eq!(sanitize("a b"), "a%000020b");
}

#[test]
fn entry_keeps_the_id_and_lies_right_below_the_directory() {
    let file = AudioFile::new("/base", "../x", 3);
    assert_eq!(file.id, "../x");
    assert_eq!(file.path, "/base/%00002e%00002e%00002fx.m4a");
    assert_eq!(file.temp_path, "/base/%00002e%00002e%00002fx.temp.m4a");
    assert_eq!(file.serial, 3);
    for id in ["../x", "/etc/passwd", "a/b", "a.b", "", ".", "..", "a\\b", "x.temp"] {
        let file = AudioFile::new("/base", id, 0);
        for path in [&file.path, &file.temp_path] {
            let path = std::path::Path::new(path);
            assert_eq!(path.parent(), Some(std::path::Path::new("/base")), "{:?}", id);
            assert!(path.file_name().is_some(), "{:?}", id);
        }
        assert_ne!(file.path, file.temp_path);
    }
}

#[test]
fn different_ids_never_share_a_file() {
    let ids = [
        "a/b", "a.b", "a_b", "a%b", "a%00002fb", "a%00002eb", "", "_", "%", ".", "..", "x",
        "x.temp", "X", "a b", "a\u{e9}b", "a\u{1f600}b",
    ];
    let files: Vec<AudioFile> = ids.iter().map(|id| AudioFile::new("/base", id, 0)).collect();
    for (i, a) in files.iter().enumerate() {
        for (j, b) in files.iter().enumerate() {
            assert_ne!(a.path, b.temp_path, "{:?} {:?}", ids[i], ids[j]);
            if i != j {
                assert_ne!(a.path, b.path, "{:?} {:?}", ids[i], ids[j]);
                assert_ne!(a.temp_path, b.temp_path, "{:?} {:?}", ids[i], ids[j]);
            }
        }
    }
}

#[test]
fn ids_that_differ_in_unsafe_characters_get_entries_of_their_own() {
    let mut store = AudioStore::new("/base".to_string());
    let a = store.get_or_allocate("a/b");
    let b = store.get_or_allocate("a.b");
    let c = store.get_or_allocate("a_b");
    assert_ne!(a.serial, b.serial);
    assert_ne!(a.serial, c.serial);
    assert_ne!(b.serial, c.serial);
    assert_eq!(a.id, "a/b");
    assert_eq!(b.id, "a.b");
    assert_eq!(c.id, "a_b");
    assert_ne!(a.path, b.path);
    assert_ne!(a.path, c.path);
    store.remove("a/b");
    assert!(!store.is_cached(&a));
    assert!(store.is_cached(&b));
    assert!(store.is_cached(&c));
    let again = store.get_or_allocate("a.b");
    assert_eq!(again.serial, b.serial);
}

#[test]
fn only_the_first_request_downloads() {
    let mut state = AudioFileState::New;
    assert_eq!(state.on_request(), FileStep::Download);
    assert_eq!(state, AudioFileState::Downloading);
    assert_eq!(state.on_request(), FileStep::Wait);
    assert_eq!(state, AudioFileState::Downloading);
    state.on_download(true, true);
    assert_eq!(state, AudioFileState::Ready);
    assert_eq!(state.on_request(), FileStep::Open);
    assert_eq!(state, AudioFileState::Ready);
}

#[test]
fn failed_download_leaves_the_entry_failed() {
    let mut state = AudioFileState::New;
    assert_eq!(state.on_request(), FileStep::Download);
    state.on_download(false, false);
    assert_eq!(state, AudioFileState::Errored);
    assert_eq!(state.on_request(), FileStep::Fail);
    assert_eq!(state, AudioFileState::Errored);

    let mut state = AudioFileState::Downloading;
    state.on_download(true, false);
    assert_eq!(state, AudioFileState::Errored);
    let mut state = AudioFileState::Downloading;
    state.on_download(false, true);
    assert_eq!(state, AudioFileState::Errored);
}

#[test]
fn download_report_changes_only_a_downloading_entry() {
    let mut state = AudioFileState::New;
    state.on_download(true, true);
    assert_eq!(state, AudioFileState::New);
    let mut state = AudioFileState::Ready;
    state.on_download(false, false);
    assert_eq!(state, AudioFileState::Ready);
}

#[test]
fn download_without_a_file_fails() {
    let file = AudioFile::new("/base", "vid", 0);
    assert!(file.check_download(Ok(()), true).is_ok());
    match file.check_download(Ok(()), false) {
        Err(Error::AudioStream(id)) => assert_eq!(id, "vid"),
        _ => panic!("a failure was expected"),
    }
    match file.check_download(Err(Error::Extraction), true) {
        Err(Error::Extraction) => {}
        _ => panic!("the tool's failure was expected"),
    }
}

#[test]
fn entry_is_held_under_its_own_allocation_number_only() {
    let file = AudioFile::new("/base", "vid", 3);
    assert!(file.is_held_as(Some(3)));
    assert!(!file.is_held_as(Some(4)));
    assert!(!file.is_held_as(Some(0)));
    assert!(!file.is_held_as(None));
}

#[test]
fn both_files_of_an_entry_go_with_it() {
    let file = AudioFile::new("/base", "vid", 0);
    assert_eq!(
        file.files_to_delete(),
        vec!["/base/vid.temp.m4a", "/base/vid.m4a"]
    );
}
