use youtube_audio_feed::audio::{file_response, get_audio, Delivery};
use youtube_audio_feed::audio_store::{AudioFileState, AudioStore, FileStep};
use youtube_audio_feed::extractor::{Extraction, YtdlpFile};

/// One request for the audio of a video, served by the file extractor.
/// `downloads` counts the runs of the downloader, `states` holds the state
/// of each entry by its allocation number.
fn request(
    store: &mut AudioStore,
    states: &mut Vec<AudioFileState>,
    downloads: &mut usize,
    video_id: &str,
    file_len: usize,
) -> (u16, Vec<(String, String)>) {
    let extractor = YtdlpFile::new(None);
    let entry = store.get_or_allocate(video_id);
    let slot = entry.serial as usize;
    if states.len() <= slot {
        states.resize(slot + 1, AudioFileState::New);
    }
    let outcome = match states[slot].on_request() {
        FileStep::Download => {
            *downloads += 1;
            states[slot].on_download(true, true);
            entry.check_download(Ok(()), true).map(|_| entry.path.clone())
        }
        FileStep::Open => Ok(entry.path.clone()),
        _ => panic!("nothing is in the way of this download"),
    };
    let (found, evict) = extractor.conclude::<(), String>(outcome);
    assert!(!evict);
    let found: Extraction<(), String> = found.unwrap();
    match get_audio(found, http::HeaderMap::new()).unwrap() {
        Delivery::File {
            file,
            mime_type,
            range,
        } => {
            assert_eq!(file, entry.path);
            let answer = file_response(file_len, mime_type, range).unwrap();
            assert_eq!(answer.from, 0);
            assert_eq!(answer.content_len, file_len);
            (answer.status, answer.headers)
        }
        _ => panic!("a file was expected"),
    }
}

#[test]
fn second_request_is_served_from_the_cache() {
    let mut store = AudioStore::new("/tmp/audio-store".to_string());
    let mut states = Vec::new();
    let mut downloads = 0;

    let (status, headers) = request(&mut store, &mut states, &mut downloads, "abc", 4096);
    assert_eq!(status, 200);
    assert!(headers.contains(&("content-length".to_string(), "4096".to_string())));
    assert!(headers.contains(&("content-type".to_string(), "audio/mp4".to_string())));
    assert!(headers.contains(&("accept-ranges".to_string(), "bytes".to_string())));
    assert_eq!(downloads, 1);

    let (status, headers) = request(&mut store, &mut states, &mut downloads, "abc", 4096);
    assert_eq!(status, 200);
    assert!(headers.contains(&("content-length".to_string(), "4096".to_string())));
    assert_eq!(downloads, 1);
    assert_eq!(store.allocations(), 1);

    request(&mut store, &mut states, &mut downloads, "other", 10);
    assert_eq!(downloads, 2);
}

#[test]
fn failed_download_evicts_the_entry() {
    let mut store = AudioStore::new("/tmp/audio-store".to_string());
    let extractor = YtdlpFile::new(None);
    let entry = store.get_or_allocate("abc");
    let mut state = AudioFileState::New;
    assert_eq!(state.on_request(), FileStep::Download);
    let failure = youtube_audio_feed::extractor::ytdlp_file::detect_error(b"ERROR: gone");
    state.on_download(failure.is_ok(), false);
    assert_eq!(state, AudioFileState::Errored);
    let outcome = entry.check_download(failure, false).map(|_| ());
    let (found, evict) = extractor.conclude::<(), ()>(outcome);
    assert!(found.is_err());
    assert!(evict);
    store.remove("abc");
    assert!(!store.is_cached(&entry));
    let fresh = store.get_or_allocate("abc");
    assert_ne!(fresh.serial, entry.serial);
}
