use songcache::chart::{assign_value, close_section, enter_section, read_chart, ChartParser};
use songcache::entry::{Instrument, SongEntry};

fn parse(text: &str, full: bool) -> SongEntry {
    let mut song = SongEntry::default();
    read_chart(&mut song, text.as_bytes(), full);
    song
}

#[test]
fn expert_single_sets_exactly_bit_three() {
    let song = parse("[ExpertSingle]\n{\n  0 = N 0 0\n}\n", false);
    assert_eq!(song.charts, 1 << 3);
}

#[test]
fn every_instrument_and_difficulty_has_its_bit() {
    let stems = [
        ("Single", 0),
        ("DoubleBass", 1),
        ("DoubleRhythm", 2),
        ("DoubleGuitar", 3),
        ("GHLGuitar", 4),
        ("GHLBass", 5),
        ("Drums", 6),
        ("Keyboard", 7),
        ("Band", 8),
    ];
    let diffs = [("Easy", 0), ("Medium", 1), ("Hard", 2), ("Expert", 3)];
    for (stem, inst) in stems {
        for (word, diff) in diffs {
            let text = format!("[{}{}]\n{{\n0 = N 1 0\n}}\n", word, stem);
            let song = parse(&text, false);
            assert_eq!(song.charts, 1i64 << (inst * 4 + diff), "{}{}", word, stem);
        }
    }
}

#[test]
fn drums_with_a_pro_note_set_the_pro_drums_row_too() {
    for note in ["N 66 0", "N 5 0", "N 32 0", "N 67 0", "N 68 0"] {
        let text = format!("[HardDrums]\n{{\n0 = N 0 0\n10 = {}\n}}\n", note);
        let song = parse(&text, false);
        assert_eq!(song.charts, (1 << (6 * 4 + 2)) | (1 << (9 * 4 + 2)), "{}", note);
    }
    let song = parse("[HardDrums]\n{\n0 = N 0 0\n}\n", false);
    assert_eq!(song.charts, 1 << (6 * 4 + 2));
}

#[test]
fn a_pro_note_counts_for_drums_only() {
    let song = parse("[ExpertSingle]\n{\n0 = N 66 0\n}\n", false);
    assert_eq!(song.charts, 1 << 3);
}

#[test]
fn forced_drum_flags_set_the_pro_drums_row() {
    let mut song = SongEntry::default();
    song.force_pro_drums = true;
    read_chart(&mut song, "[ExpertDrums]\n{\n0 = N 0 0\n}\n".as_bytes(), false);
    assert_eq!(song.charts, (1 << 27) | (1 << 39));
    let mut song = SongEntry::default();
    song.force_five_lane = true;
    read_chart(&mut song, "[EasyDrums]\n{\n0 = N 0 0\n}\n".as_bytes(), false);
    assert_eq!(song.charts, (1 << 24) | (1 << 36));
}

#[test]
fn a_section_without_notes_sets_nothing() {
    let song = parse("[ExpertSingle]\n{\n0 = S 2 100\n}\n", false);
    assert_eq!(song.charts, 0);
}

#[test]
fn a_section_that_is_not_closed_sets_nothing() {
    let song = parse("[ExpertSingle]\n{\n0 = N 0 0\n", false);
    assert_eq!(song.charts, 0);
}

#[test]
fn unknown_sections_set_nothing() {
    let song = parse("[ExpertTuba]\n{\n0 = N 0 0\n}\n[SyncTrack]\n{\n0 = B 120000\n}\n", false);
    assert_eq!(song.charts, 0);
}

#[test]
fn several_sections_add_up() {
    let song = parse(
        "[EasySingle]\n{\n0 = N 0 0\n}\n[ExpertSingle]\n{\n0 = N 0 0\n}\n[MediumKeyboard]\n{\n0 = N 0 0\n}\n",
        false,
    );
    assert_eq!(song.charts, (1 << 0) | (1 << 3) | (1 << 29));
}

#[test]
fn lyric_events_set_the_lyrics_flag() {
    let song = parse("[Events]\n{\n0 = E \"lyric Hel\"\n}\n", false);
    assert!(song.lyrics);
    let song = parse("[Events]\n{\n0 = E \"section Intro\"\n}\n", false);
    assert!(!song.lyrics);
}

#[test]
fn metadata_is_taken_only_when_asked() {
    let text = "[Song]\n{\n  Name = \"Foo\"\n  Artist = \"Bar\"\n  Charter = \"Me\"\n  Album = \"Baz\"\n  Genre = \"rock\"\n  Year = \", 1999\"\n}\n";
    let song = parse(text, true);
    assert_eq!(song.metadata[0], "Foo");
    assert_eq!(song.metadata[1], "Bar");
    assert_eq!(song.metadata[2], "Baz");
    assert_eq!(song.metadata[3], "rock");
    assert_eq!(song.metadata[4], "1999");
    assert_eq!(song.metadata[5], "Me");
    let song = parse(text, false);
    assert!(song.metadata.iter().all(|m| m.is_empty()));
}

#[test]
fn placeholder_names_are_not_taken() {
    for name in ["TEMPO TRACK", "", "midi_export"] {
        let text = format!("[Song]\n{{\nName = \"{}\"\n}}\n", name);
        let song = parse(&text, true);
        assert_eq!(song.metadata[0], "", "{:?}", name);
    }
}

#[test]
fn other_fields_stay_as_they_are() {
    let mut song = SongEntry::default();
    song.album_track = 7;
    song.icon_name = String::from("x");
    song.checksum = [9; 16];
    read_chart(&mut song, "[ExpertSingle]\n{\n0 = N 0 0\n}\n".as_bytes(), true);
    assert_eq!(song.album_track, 7);
    assert_eq!(song.icon_name, "x");
    assert_eq!(song.checksum, [9; 16]);
    assert_eq!(song.intensities, [-1; 10]);
}

#[test]
fn the_parser_can_be_driven_line_by_line() {
    let chars = |s: &str| s.chars().collect::<Vec<char>>();
    let mut song = SongEntry::default();
    let mut parser = ChartParser::new();
    enter_section(&mut parser, chars("expertdrums"));
    assert_eq!(parser.diff, 3);
    assert_eq!(parser.inst, Instrument::Drums);
    assign_value(&mut song, &mut parser, &chars("0"), &chars("N 0 0"), false);
    assert!(parser.notes && !parser.drums);
    assign_value(&mut song, &mut parser, &chars("0"), &chars("N 67 0"), false);
    assert!(parser.drums);
    assert_eq!(song.charts, 0);
    close_section(&mut song, &mut parser);
    assert_eq!(song.charts, (1 << 27) | (1 << 39));
    assert_eq!(parser.diff, -1);
    assert_eq!(parser.inst, Instrument::Unset);
    assert!(!parser.notes && !parser.drums);
    enter_section(&mut parser, chars("song"));
    assert_eq!(parser.diff, -1);
    assign_value(&mut song, &mut parser, &chars("name"), &chars("Foo"), false);
    assert_eq!(song.metadata[0], "");
    assign_value(&mut song, &mut parser, &chars("name"), &chars("Foo"), true);
    assert_eq!(song.metadata[0], "Foo");
    enter_section(&mut parser, chars("mediumtuba"));
    assert_eq!(parser.diff, 1);
    assert_eq!(parser.inst, Instrument::Unset);
}
