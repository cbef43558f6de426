use songcache::folder::{classify, FolderContents};

fn names(list: &[&str]) -> Vec<String> {
    list.iter().map(|s| s.to_string()).collect()
}

#[test]
fn an_empty_folder_is_no_candidate() {
    let found = classify(&Vec::new());
    assert_eq!(found, FolderContents::new());
    assert!(!found.is_candidate());
}

#[test]
fn chart_and_ini_are_found() {
    let found = classify(&names(&["song.ini", "notes.chart", "readme.txt"]));
    assert!(found.ini && found.chart && !found.mid);
    assert_eq!(found.chart_name, "notes.chart");
    assert!(found.is_candidate());
}

#[test]
fn names_count_in_any_case_and_are_kept_as_they_are() {
    let found = classify(&names(&["Song.INI", "Notes.MID", "Video.MP4", "Album.PNG", "Background.JPG", "Guitar.OGG"]));
    assert!(found.ini && found.mid && found.video && found.image);
    assert_eq!(found.chart_name, "Notes.MID");
    assert_eq!(found.video_name, "Video.MP4");
    assert_eq!(found.album_art_name, "Album.PNG");
    assert_eq!(found.image_name, "Background.JPG");
    assert_eq!(found.audio_files, names(&["Guitar.OGG"]));
}

#[test]
fn the_midi_file_is_the_one_to_read_where_both_are_there() {
    let found = classify(&names(&["notes.mid", "notes.chart"]));
    assert!(found.mid && found.chart);
    assert_eq!(found.chart_name, "notes.mid");
    let found = classify(&names(&["notes.chart", "notes.mid"]));
    assert!(found.mid && found.chart);
    assert_eq!(found.chart_name, "notes.mid");
}

#[test]
fn each_kind_alone_makes_a_candidate() {
    assert!(classify(&names(&["notes.mid"])).is_candidate());
    assert!(classify(&names(&["notes.chart"])).is_candidate());
    assert!(classify(&names(&["song.ini"])).is_candidate());
    assert!(!classify(&names(&["video.mp4", "guitar.ogg", "album.png"])).is_candidate());
}

#[test]
fn video_extensions() {
    for ext in ["mp4", "avi", "webm", "vp8", "ogv", "mpeg"] {
        assert!(classify(&names(&[&format!("video.{}", ext)])).video, "{}", ext);
    }
    assert!(!classify(&names(&["video.mkv"])).video);
    assert!(!classify(&names(&["movie.mp4"])).video);
}

#[test]
fn image_extensions() {
    for ext in ["png", "jpg", "jpeg"] {
        let found = classify(&names(&[&format!("background.{}", ext), &format!("album.{}", ext)]));
        assert!(found.image, "{}", ext);
        assert_eq!(found.album_art_name, format!("album.{}", ext));
    }
    let found = classify(&names(&["background.gif", "cover.png"]));
    assert!(!found.image);
    assert_eq!(found.album_art_name, "");
}

#[test]
fn audio_stems_and_extensions() {
    let stems = [
        "guitar", "bass", "rhythm", "vocals", "vocals_1", "vocals_2", "drums", "drums_1", "drums_2",
        "drums_3", "drums_4", "keys", "song", "crowd",
    ];
    for stem in stems {
        for ext in ["ogg", "mp3", "wav", "opus"] {
            let file = format!("{}.{}", stem, ext);
            assert_eq!(classify(&names(&[&file])).audio_files, names(&[&file]));
        }
    }
    assert!(classify(&names(&["guitar.flac", "piano.ogg", "drums_5.ogg", "guitar"])).audio_files.is_empty());
}

#[test]
fn audio_files_keep_their_order() {
    let found = classify(&names(&["song.ogg", "guitar.ogg", "drums_1.ogg"]));
    assert_eq!(found.audio_files, names(&["song.ogg", "guitar.ogg", "drums_1.ogg"]));
}

#[test]
fn stem_and_extension_split_at_the_last_dot() {
    assert!(!classify(&names(&["notes.chart.bak"])).chart);
    assert!(!classify(&names(&["notes"])).chart);
    assert!(!classify(&names(&[".chart"])).chart);
    assert!(!classify(&names(&["song.ini."])).ini);
    assert!(classify(&names(&["song.ogg"])).audio_files.len() == 1);
}

#[test]
fn add_file_takes_one_file_at_a_time() {
    let mut found = FolderContents::new();
    found.add_file("notes.chart");
    assert!(found.chart && !found.ini);
    found.add_file("song.ini");
    assert!(found.chart && found.ini);
}

#[test]
fn add_parts_takes_stem_and_extension_as_given() {
    let chars = |s: &str| s.chars().collect::<Vec<char>>();
    let mut found = FolderContents::new();
    found.add_parts(&chars("Notes.MID"), &chars("notes"), &chars("mid"));
    assert!(found.mid);
    assert_eq!(found.chart_name, "Notes.MID");
    found.add_parts(&chars("x"), &chars("NOTES"), &chars("chart"));
    assert!(!found.chart);
    found.add_parts(&chars("Song.ini"), &chars("song"), &chars("ini"));
    assert!(found.ini);
    assert_eq!(found.ini_name, "Song.ini");
}

#[test]
fn the_configuration_file_keeps_its_spelling() {
    let found = classify(&names(&["SONG.Ini"]));
    assert!(found.ini);
    assert_eq!(found.ini_name, "SONG.Ini");
}
