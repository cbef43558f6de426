use songcache::entry::SongEntry;
use songcache::ini::{assign_key, ini_get_bool, read_ini, IniParser};

fn parse(text: &str) -> (SongEntry, bool) {
    let mut song = SongEntry::default();
    let valid = read_ini(&mut song, text.as_bytes());
    (song, valid)
}

#[test]
fn bool_words_are_read_in_any_case() {
    for word in ["true", "yes", "t", "y", "1", "on", "TRUE", "Yes", "ON"] {
        assert_eq!(ini_get_bool(word), Some(true), "{}", word);
    }
    for word in ["false", "no", "f", "n", "0", "off", "False", "NO", "Off"] {
        assert_eq!(ini_get_bool(word), Some(false), "{}", word);
    }
    for word in ["", "2", "maybe", " true", "tru"] {
        assert_eq!(ini_get_bool(word), None, "{:?}", word);
    }
}

#[test]
fn reads_text_keys() {
    let (song, valid) = parse(
        "[song]\nname = Foo\nartist=Bar\nalbum = Baz \ngenre=Rock\nyear=1999\ncharter=Me\nicon=MyIcon\nplaylist=Top\nsub_playlist=Sub\n",
    );
    assert!(valid);
    assert_eq!(song.metadata[0], "Foo");
    assert_eq!(song.metadata[1], "Bar");
    assert_eq!(song.metadata[2], "Baz");
    assert_eq!(song.metadata[3], "Rock");
    assert_eq!(song.metadata[4], "1999");
    assert_eq!(song.metadata[5], "Me");
    assert_eq!(song.metadata[6], "");
    assert_eq!(song.icon_name, "myicon");
    assert_eq!(song.top_level_playlist, "top");
    assert_eq!(song.sub_playlist, "sub");
}

#[test]
fn reads_number_keys() {
    let (song, valid) = parse(
        "[Song]\ndiff_band=1\ndiff_guitar=2\ndiff_rhythm=3\ndiff_bass=4\ndiff_drums=5\ndiff_drums_real=6\ndiff_keys=0\ndiff_guitarghl=-1\ndiff_bassghl=7\npreview_start_time=55000\nsong_length=180000\nalbum_track=3\nplaylist_track=9\n",
    );
    assert!(valid);
    assert_eq!(song.intensities, [2, 4, 3, 0, -1, 7, 5, 0, 1, 6]);
    assert_eq!(song.preview_start, 55000);
    assert_eq!(song.song_length, 180000);
    assert_eq!(song.album_track, 3);
    assert_eq!(song.playlist_track, 9);
}

#[test]
fn reads_flag_keys() {
    let (song, _) = parse("[song]\nmodchart=True\npro_drums = yes\nfive_lane_drums=1\n");
    assert!(song.modchart && song.force_pro_drums && song.force_five_lane);
    let (song, _) = parse("[song]\nmodchart=perhaps\npro_drums = no\nfive_lane_drums=\n");
    assert!(!song.modchart && !song.force_pro_drums && !song.force_five_lane);
}

#[test]
fn omitted_keys_keep_their_defaults() {
    let (song, valid) = parse("[song]\nname=Only\n");
    assert!(valid);
    assert_eq!(song.album_track, 16000);
    assert_eq!(song.playlist_track, 16000);
    assert_eq!(song.preview_start, -1);
    assert_eq!(song.song_length, 0);
    assert_eq!(song.intensities, [-1, -1, -1, 0, -1, -1, -1, -1, -1, -1]);
    assert!(!song.modchart && !song.force_pro_drums && !song.force_five_lane);
    assert_eq!(song.icon_name, "");
    assert_eq!(song.metadata[1], "");
}

#[test]
fn numbers_that_cannot_be_read_give_defaults() {
    let (song, _) = parse(
        "[song]\ndiff_guitar=lots\ndiff_bass=300\npreview_start_time=soon\nsong_length=long\nalbum_track=99999\nplaylist_track=x\n",
    );
    assert_eq!(song.intensities[0], -1);
    assert_eq!(song.intensities[1], -1);
    assert_eq!(song.preview_start, -1);
    assert_eq!(song.song_length, 0);
    assert_eq!(song.album_track, 16000);
    assert_eq!(song.playlist_track, 16000);
}

#[test]
fn guitar_coop_is_zero_and_pro_drums_follow_drums() {
    let (song, _) = parse("[song]\ndiff_drums=4\n");
    assert_eq!(song.intensities[3], 0);
    assert_eq!(song.intensities[6], 4);
    assert_eq!(song.intensities[9], 4);
    let (song, _) = parse("[song]\ndiff_drums_real=2\ndiff_drums=4\n");
    assert_eq!(song.intensities[9], 2);
}

#[test]
fn only_the_song_section_counts() {
    let (song, valid) = parse("name=Early\n[other]\nname=Other\n[song]\nartist=A\n[more]\nartist=B\n");
    assert!(valid);
    assert_eq!(song.metadata[0], "");
    assert_eq!(song.metadata[1], "A");
}

#[test]
fn without_a_song_section_the_file_is_invalid() {
    let (song, valid) = parse("[other]\nname=Foo\n");
    assert!(!valid);
    assert_eq!(song.metadata[0], "");
    let (_, valid) = parse("");
    assert!(!valid);
    let (_, valid) = parse("name=Foo\n");
    assert!(!valid);
}

#[test]
fn a_song_section_without_keys_is_valid() {
    let (_, valid) = parse("[song]\n");
    assert!(valid);
}

#[test]
fn keys_are_read_in_any_case_and_values_trimmed() {
    let (song, _) = parse("[SONG]\r\n  NAME   =   Foo Bar  \r\nArtist=\tA=B\r\n");
    assert_eq!(song.metadata[0], "Foo Bar");
    assert_eq!(song.metadata[1], "A=B");
}

#[test]
fn lines_without_equals_and_unknown_keys_are_passed_over() {
    let (song, valid) = parse("[song]\n; a comment\n\njust text\nunknown = 1\nname=Foo\n");
    assert!(valid);
    assert_eq!(song.metadata[0], "Foo");
}

#[test]
fn charter_outranks_frets_and_album_track_outranks_track() {
    let (song, _) = parse("[song]\ncharter=C\nfrets=F\nalbum_track=1\ntrack=2\n");
    assert_eq!(song.metadata[5], "C");
    assert_eq!(song.album_track, 1);
    let (song, _) = parse("[song]\nfrets=F\ncharter=C\ntrack=2\nalbum_track=1\n");
    assert_eq!(song.metadata[5], "C");
    assert_eq!(song.album_track, 1);
    let (song, _) = parse("[song]\nfrets=F\ntrack=2\n");
    assert_eq!(song.metadata[5], "F");
    assert_eq!(song.album_track, 2);
}

#[test]
fn a_header_without_closing_bracket_loses_its_last_character() {
    let (song, valid) = parse("[songs\nname=Foo\n");
    assert!(valid);
    assert_eq!(song.metadata[0], "Foo");
    let (_, valid) = parse("[\nname=Foo\n");
    assert!(!valid);
}

#[test]
fn reads_utf16_files() {
    let mut bytes = vec![0xFF, 0xFE];
    for unit in "[song]\nname=Fö\n".encode_utf16() {
        bytes.extend_from_slice(&unit.to_le_bytes());
    }
    let mut song = SongEntry::default();
    assert!(read_ini(&mut song, &bytes));
    assert_eq!(song.metadata[0], "Fö");
}

#[test]
fn assign_key_takes_one_pair() {
    let chars = |s: &str| s.chars().collect::<Vec<char>>();
    let mut song = SongEntry::default();
    let mut parser = IniParser::new();
    assign_key(&mut song, &mut parser, &chars("artist"), &chars("Bar"));
    assign_key(&mut song, &mut parser, &chars("diff_guitar"), &chars("3"));
    assign_key(&mut song, &mut parser, &chars("frets"), &chars("F"));
    assign_key(&mut song, &mut parser, &chars("charter"), &chars("C"));
    assign_key(&mut song, &mut parser, &chars("frets"), &chars("G"));
    assign_key(&mut song, &mut parser, &chars("Artist"), &chars("not lower case"));
    assert_eq!(song.metadata[1], "Bar");
    assert_eq!(song.intensities[0], 3);
    assert_eq!(song.metadata[5], "C");
    assert!(parser.charter && !parser.album_track && !parser.seen);
}
