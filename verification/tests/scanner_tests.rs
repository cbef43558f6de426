use songcache::entry::SongEntry;
use songcache::folder::classify;
use songcache::scanner::{
    build_entry, entry_with_checksum, relative_path, scan_folder, ScanOutcome, Scanner, SongFolder,
};
use songcache::text::{chars_of, string_of};

fn names(list: &[&str]) -> Vec<String> {
    list.iter().map(|s| s.to_string()).collect()
}

fn folder(path: &str, files: &[&str], ini: Option<&str>, chart: Option<&[u8]>) -> SongFolder {
    SongFolder {
        path: path.to_string(),
        files: names(files),
        ini: ini.map(|t| t.as_bytes().to_vec()),
        chart: chart.map(|b| b.to_vec()),
    }
}

const EXPERT_SINGLE: &str = "[ExpertSingle]\n{\n  0 = N 0 0\n}\n";
const EXPERT_DRUMS: &str = "[ExpertDrums]\n{\n  0 = N 0 0\n}\n";

fn vocals_midi() -> Vec<u8> {
    let mut bytes = Vec::new();
    bytes.extend_from_slice(b"MThd");
    bytes.extend_from_slice(&[0, 0, 0, 6, 0, 1, 0, 1, 1, 0xE0]);
    let mut track = Vec::new();
    track.extend_from_slice(&[0x00, 0xFF, 0x03, 11]);
    track.extend_from_slice(b"PART VOCALS");
    track.extend_from_slice(&[0x00, 0x90, 60, 100]);
    track.extend_from_slice(&[0x00, 0xFF, 0x2F, 0x00]);
    bytes.extend_from_slice(b"MTrk");
    bytes.extend_from_slice(&(track.len() as u32).to_be_bytes());
    bytes.extend_from_slice(&track);
    bytes
}

#[test]
fn one_folder_with_ini_and_chart() {
    let folders = vec![folder(
        "/songs/Foo",
        &["song.ini", "notes.chart"],
        Some("[song]\nname=Foo\nartist=Bar\n"),
        Some(EXPERT_SINGLE.as_bytes()),
    )];
    let songs = scan_folder("/songs", &folders, false);
    assert_eq!(songs.len(), 1);
    let song = &songs[0];
    assert_eq!(song.metadata[0], "Foo");
    assert_eq!(song.metadata[1], "Bar");
    assert_eq!(song.charts, 1 << 3);
    assert_eq!(song.checksum, md5::compute(EXPERT_SINGLE.as_bytes()).0);
    assert_eq!(song.chart_name, "notes.chart");
    assert_eq!(song.folder_path, "/songs/foo");
    assert_eq!(song.date_added, 0);
    assert!(!song.is_enc);
}

#[test]
fn identical_charts_give_one_entry_the_first() {
    let folders = vec![
        folder("/songs/A", &["song.ini", "notes.chart"], Some("[song]\nname=First\n"), Some(EXPERT_SINGLE.as_bytes())),
        folder("/songs/B", &["song.ini", "notes.chart"], Some("[song]\nname=Second\n"), Some(EXPERT_SINGLE.as_bytes())),
    ];
    let songs = scan_folder("/songs", &folders, false);
    assert_eq!(songs.len(), 1);
    assert_eq!(songs[0].metadata[0], "First");
}

#[test]
fn scanner_reports_duplicates() {
    let mut scanner = Scanner::new("/songs", false);
    let found = classify(&names(&["song.ini", "notes.chart"]));
    let first = scanner.scan_song("/songs/A", &found, Some("[song]\nname=A\n".as_bytes()), EXPERT_SINGLE.as_bytes());
    assert_eq!(first, ScanOutcome::Accepted);
    let second = scanner.scan_song("/songs/B", &found, Some("[song]\nname=B\n".as_bytes()), EXPERT_SINGLE.as_bytes());
    assert_eq!(second, ScanOutcome::Duplicate);
    let third = scanner.scan_song("/songs/C", &found, Some("[song]\nname=C\n".as_bytes()), EXPERT_DRUMS.as_bytes());
    assert_eq!(third, ScanOutcome::Accepted);
    assert_eq!(scanner.len(), 2);
    let songs = scanner.into_songs();
    assert_eq!(songs[0].metadata[0], "A");
    assert_eq!(songs[1].metadata[0], "C");
}

#[test]
fn a_folder_without_chart_file_gives_no_entry() {
    let mut scanner = Scanner::new("/songs", false);
    let found = classify(&names(&["song.ini"]));
    assert!(found.is_candidate());
    let outcome = scanner.scan_song("/songs/A", &found, Some("[song]\nname=A\n".as_bytes()), &[]);
    assert_eq!(outcome, ScanOutcome::NoChart);
    let outcome = scanner.scan_song("/songs/A", &found, Some("name=A\n".as_bytes()), &[]);
    assert_eq!(outcome, ScanOutcome::Invalid);
    let outcome = scanner.scan_song("/songs/A", &found, None, &[]);
    assert_eq!(outcome, ScanOutcome::Invalid);
    assert_eq!(scanner.len(), 0);
    let folders = vec![folder("/songs/A", &["song.ini"], Some("[song]\nname=A\n"), None)];
    assert!(scan_folder("/songs", &folders, false).is_empty());
}

#[test]
fn folders_that_are_no_candidates_are_passed_over() {
    let folders = vec![
        folder("/songs", &["Rock"], None, None),
        folder("/songs/Rock", &["readme.txt"], None, Some(b"whatever")),
        folder("/songs/Rock/Foo", &["notes.chart"], None, None),
    ];
    assert!(scan_folder("/songs", &folders, false).is_empty());
}

#[test]
fn midi_only_folder_with_vocals() {
    let midi = vocals_midi();
    let folders = vec![folder("/songs/Foo", &["notes.mid"], None, Some(&midi))];
    let songs = scan_folder("/songs", &folders, false);
    assert_eq!(songs.len(), 1);
    assert!(songs[0].lyrics);
    assert_eq!(songs[0].charts, 0);
    assert_eq!(songs[0].chart_name, "notes.mid");
    assert_eq!(songs[0].metadata[0], "Unknown Name");
    assert_eq!(songs[0].checksum, md5::compute(&midi).0);
}

#[test]
fn pro_drums_flag_of_the_ini_sets_both_rows() {
    let folders = vec![folder(
        "/songs/Foo",
        &["song.ini", "notes.chart"],
        Some("[song]\nname=Foo\npro_drums=true\n"),
        Some(EXPERT_DRUMS.as_bytes()),
    )];
    let songs = scan_folder("/songs", &folders, false);
    assert_eq!(songs.len(), 1);
    assert_eq!(songs[0].charts, (1 << (6 * 4 + 3)) | (1 << (9 * 4 + 3)));
    assert!(songs[0].force_pro_drums);
}

#[test]
fn playlist_comes_from_the_folder_path() {
    let folders = vec![folder(
        "/songs/Rock/Foo/",
        &["song.ini", "notes.chart"],
        Some("[song]\nname=Foo\n"),
        Some(EXPERT_SINGLE.as_bytes()),
    )];
    let songs = scan_folder("/songs/", &folders, false);
    assert_eq!(songs.len(), 1);
    assert_eq!(songs[0].top_level_playlist, "rock");
    assert_eq!(songs[0].metadata[6], "Rock");
    assert_eq!(songs[0].sub_playlist, "");
    assert_eq!(songs[0].folder_path, "/songs/rock/foo/");
}

#[test]
fn playlist_of_a_deeper_folder() {
    let found = classify(&names(&["notes.chart"]));
    let song = build_entry("C:\\Songs", "C:\\Songs\\Rock\\Classic\\Foo", false, &found, None, EXPERT_SINGLE.as_bytes());
    assert_eq!(song.metadata[6], "Rock\\Classic");
    assert_eq!(song.top_level_playlist, "rock");
    assert_eq!(song.folder_path, "c:\\songs\\rock\\classic\\foo");
}

#[test]
fn a_folder_right_below_the_root_has_no_playlist() {
    let found = classify(&names(&["notes.chart"]));
    let song = build_entry("/songs", "/songs/Foo", false, &found, None, EXPERT_SINGLE.as_bytes());
    assert_eq!(song.metadata[6], "");
    assert_eq!(song.top_level_playlist, "");
}

#[test]
fn playlist_of_the_ini_wins() {
    let found = classify(&names(&["song.ini", "notes.chart"]));
    let song = build_entry(
        "/songs",
        "/songs/Rock/Foo",
        false,
        &found,
        Some("[song]\nplaylist=Best Of\nsub_playlist=Vol 1\n".as_bytes()),
        EXPERT_SINGLE.as_bytes(),
    );
    assert_eq!(song.top_level_playlist, "best of");
    assert_eq!(song.sub_playlist, "vol 1");
    assert_eq!(song.metadata[6], "best of\\vol 1");
    let song = build_entry(
        "/songs",
        "/songs/Rock/Foo",
        false,
        &found,
        Some("[song]\nplaylist=Best Of\n".as_bytes()),
        EXPERT_SINGLE.as_bytes(),
    );
    assert_eq!(song.metadata[6], "best of");
}

#[test]
fn missing_metadata_gets_its_defaults() {
    let found = classify(&names(&["song.ini", "notes.chart"]));
    let song = build_entry(
        "/songs",
        "/songs/Foo",
        false,
        &found,
        Some("[song]\nname=   \nartist=Bar\n".as_bytes()),
        EXPERT_SINGLE.as_bytes(),
    );
    assert_eq!(song.metadata[0], "Unknown Name");
    assert_eq!(song.metadata[1], "Bar");
    assert_eq!(song.metadata[2], "Unknown Album");
    assert_eq!(song.metadata[3], "Unknown Genre");
    assert_eq!(song.metadata[4], "Unknown Year");
    assert_eq!(song.metadata[5], "Unknown Charter");
    assert_eq!(song.intensities[3], 0);
}

#[test]
fn an_invalid_ini_falls_back_on_the_chart() {
    let chart = "[Song]\n{\n  Name = \"From Chart\"\n  Artist = \"Someone\"\n}\n[ExpertSingle]\n{\n  0 = N 0 0\n}\n";
    let found = classify(&names(&["song.ini", "notes.chart"]));
    let song = build_entry("/songs", "/songs/Foo", false, &found, Some("nothing here".as_bytes()), chart.as_bytes());
    assert_eq!(song.metadata[0], "From Chart");
    assert_eq!(song.metadata[1], "Someone");
    assert_eq!(song.charts, 1 << 3);
    let song = build_entry("/songs", "/songs/Foo", false, &found, Some("[song]\nname=From Ini\n".as_bytes()), chart.as_bytes());
    assert_eq!(song.metadata[0], "From Ini");
    assert_eq!(song.metadata[1], "Unknown Artist");
}

#[test]
fn cloud_profile_stores_relative_path_and_file_names() {
    let found = classify(&names(&["song.ini", "notes.chart", "video.mp4", "album.png", "background.jpg", "guitar.ogg", "song.ogg"]));
    let song = build_entry(
        "C:\\Songs",
        "C:\\Songs\\Rock\\Foo",
        true,
        &found,
        Some("[song]\nname=Foo\n".as_bytes()),
        EXPERT_SINGLE.as_bytes(),
    );
    assert_eq!(song.folder_path, "/Rock/Foo");
    assert_eq!(song.audio_files, names(&["guitar.ogg", "song.ogg"]));
    assert_eq!(song.album_art_name, "album.png");
    assert!(song.image_background);
    assert_eq!(song.image_background_name, "background.jpg");
    assert_eq!(song.video_background_name, "video.mp4");
    assert!(song.video_background);
    assert_eq!(song.metadata[6], "Rock");
    assert_eq!(song.top_level_playlist, "rock");
}

#[test]
fn local_profile_leaves_cloud_fields_empty() {
    let found = classify(&names(&["song.ini", "notes.chart", "video.mp4", "album.png", "background.jpg", "guitar.ogg"]));
    let song = build_entry("/songs", "/songs/Foo", false, &found, Some("[song]\nname=Foo\n".as_bytes()), EXPERT_SINGLE.as_bytes());
    assert!(song.video_background);
    assert!(song.audio_files.is_empty());
    assert_eq!(song.album_art_name, "");
    assert!(!song.image_background);
    assert_eq!(song.image_background_name, "");
    assert_eq!(song.video_background_name, "");
}

#[test]
fn relative_path_strips_root_and_separators() {
    let rel = |folder: &str, root: &str| string_of(&relative_path(&chars_of(folder), root));
    assert_eq!(rel("/songs/Rock/Foo/", "/songs/"), "Rock/Foo");
    assert_eq!(rel("/songs/Rock/Foo", "/songs"), "Rock/Foo");
    assert_eq!(rel("/songs", "/songs"), "");
    assert_eq!(rel("/songs/", "/songs/"), "songs");
    assert_eq!(rel("/else/Foo", "/songs"), "else/Foo");
    assert_eq!(rel("", "/songs"), "");
}

#[test]
fn entries_keep_the_order_of_the_folders() {
    let folders = vec![
        folder("/s/B", &["notes.chart"], None, Some(b"[ExpertSingle]\n{\n0 = N 1 0\n}\n")),
        folder("/s/A", &["notes.chart"], None, Some(b"[ExpertSingle]\n{\n0 = N 2 0\n}\n")),
        folder("/s/C", &["notes.chart"], None, Some(b"[ExpertSingle]\n{\n0 = N 3 0\n}\n")),
    ];
    let songs: Vec<SongEntry> = scan_folder("/s", &folders, false);
    let paths: Vec<&str> = songs.iter().map(|s| s.folder_path.as_str()).collect();
    assert_eq!(paths, vec!["/s/b", "/s/a", "/s/c"]);
}

#[test]
fn add_song_goes_by_the_checksum_it_is_given() {
    let mut scanner = Scanner::new("/songs", false);
    let found = classify(&names(&["notes.chart"]));
    assert_eq!(scanner.add_song("/songs/A", &found, None, EXPERT_SINGLE.as_bytes(), [1; 16]), ScanOutcome::Accepted);
    assert_eq!(scanner.add_song("/songs/B", &found, None, EXPERT_DRUMS.as_bytes(), [1; 16]), ScanOutcome::Duplicate);
    assert_eq!(scanner.add_song("/songs/C", &found, None, EXPERT_SINGLE.as_bytes(), [2; 16]), ScanOutcome::Accepted);
    let none = classify(&names(&["song.ini"]));
    assert_eq!(scanner.add_song("/songs/D", &none, None, EXPERT_SINGLE.as_bytes(), [3; 16]), ScanOutcome::Invalid);
    let songs = scanner.into_songs();
    assert_eq!(songs.len(), 2);
    assert_eq!(songs[0].checksum, [1; 16]);
    assert_eq!(songs[1].checksum, [2; 16]);
    assert_eq!(songs[1].folder_path, "/songs/c");
}

#[test]
fn entry_with_checksum_stores_the_checksum() {
    let found = classify(&names(&["notes.chart"]));
    let song = entry_with_checksum("/songs", "/songs/A", false, &found, None, EXPERT_SINGLE.as_bytes(), [4; 16]);
    assert_eq!(song.checksum, [4; 16]);
    assert_eq!(song.charts, 1 << 3);
}
