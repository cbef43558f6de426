use midly::num::{u15, u28, u4, u7};
use midly::{Format, Header, MetaMessage, MidiMessage, Smf, Timing, TrackEvent, TrackEventKind};
use songcache::entry::SongEntry;
use songcache::midi::{read_midi, read_named_track, read_tracks, MidiEvent};

fn name(text: &'static str) -> TrackEvent<'static> {
    TrackEvent { delta: u28::from(0), kind: TrackEventKind::Meta(MetaMessage::TrackName(text.as_bytes())) }
}

fn note_on(key: u8) -> TrackEvent<'static> {
    TrackEvent {
        delta: u28::from(10),
        kind: TrackEventKind::Midi {
            channel: u4::from(0),
            message: MidiMessage::NoteOn { key: u7::from(key), vel: u7::from(100) },
        },
    }
}

fn note_off(key: u8) -> TrackEvent<'static> {
    TrackEvent {
        delta: u28::from(10),
        kind: TrackEventKind::Midi {
            channel: u4::from(0),
            message: MidiMessage::NoteOff { key: u7::from(key), vel: u7::from(0) },
        },
    }
}

fn end() -> TrackEvent<'static> {
    TrackEvent { delta: u28::from(0), kind: TrackEventKind::Meta(MetaMessage::EndOfTrack) }
}

fn file(tracks: Vec<Vec<TrackEvent<'static>>>) -> Vec<u8> {
    let mut smf = Smf::new(Header::new(Format::Parallel, Timing::Metrical(u15::from(480))));
    smf.tracks = tracks;
    let mut bytes = Vec::new();
    smf.write_std(&mut bytes).unwrap();
    bytes
}

fn parse(bytes: &[u8]) -> SongEntry {
    let mut song = SongEntry::default();
    read_midi(&mut song, bytes);
    song
}

#[test]
fn vocals_track_sets_lyrics_and_no_chart() {
    let song = parse(&file(vec![vec![name("PART VOCALS"), note_on(60), end()]]));
    assert!(song.lyrics);
    assert_eq!(song.charts, 0);
}

#[test]
fn guitar_track_sets_the_difficulties_it_has_notes_for() {
    let song = parse(&file(vec![vec![name("PART GUITAR"), note_on(60), note_on(96), end()]]));
    assert_eq!(song.charts, (1 << 0) | (1 << 3));
    assert!(!song.lyrics);
}

#[test]
fn each_track_name_has_its_instrument() {
    let names = [
        ("PART GUITAR", 0),
        ("T1 GEMS", 0),
        ("PART BASS", 1),
        ("PART RHYTHM", 2),
        ("PART GUITAR COOP", 3),
        ("PART GUITAR GHL", 4),
        ("PART BASS GHL", 5),
        ("PART DRUMS", 6),
        ("PART DRUM", 6),
        ("PART KEYS", 7),
    ];
    for (text, inst) in names {
        let song = parse(&file(vec![vec![name(text), note_on(70), end()]]));
        assert_eq!(song.charts, 1i64 << (inst * 4 + 1), "{}", text);
    }
}

#[test]
fn key_ranges_give_the_difficulties() {
    let cases = [
        (57, 0i64),
        (58, 1),
        (66, 1),
        (67, 0),
        (69, 0),
        (70, 2),
        (78, 2),
        (79, 0),
        (82, 4),
        (90, 4),
        (91, 0),
        (94, 8),
        (100, 8),
        (103, 0),
    ];
    for (key, charts) in cases {
        let song = parse(&file(vec![vec![name("part bass"), note_on(key), end()]]));
        assert_eq!(song.charts, charts << 4, "key {}", key);
    }
}

#[test]
fn drums_with_pro_notes_set_the_pro_drums_row() {
    for key in [110, 111, 112] {
        let song = parse(&file(vec![vec![name("PART DRUMS"), note_on(84), note_on(key), end()]]));
        assert_eq!(song.charts, (1 << 26) | (1 << 38), "key {}", key);
    }
    let song = parse(&file(vec![vec![name("PART DRUMS"), note_on(101), end()]]));
    assert_eq!(song.charts, (1 << 27) | (1 << 39));
    let song = parse(&file(vec![vec![name("PART DRUMS"), note_on(84), note_on(109), end()]]));
    assert_eq!(song.charts, 1 << 26);
    let song = parse(&file(vec![vec![name("PART GUITAR"), note_on(84), note_on(110), end()]]));
    assert_eq!(song.charts, 1 << 2);
}

#[test]
fn tracks_without_notes_or_with_other_names_set_nothing() {
    let song = parse(&file(vec![
        vec![name("PART GUITAR"), note_off(60), end()],
        vec![name("EVENTS"), note_on(60), end()],
        vec![note_on(60), end()],
    ]));
    assert_eq!(song.charts, 0);
    assert!(!song.lyrics);
}

#[test]
fn several_tracks_add_up() {
    let song = parse(&file(vec![
        vec![name("tempo"), end()],
        vec![name("PART GUITAR"), note_on(96), end()],
        vec![name("PART VOCALS"), end()],
        vec![name("PART KEYS"), note_on(60), end()],
    ]));
    assert_eq!(song.charts, (1 << 3) | (1 << 28));
    assert!(song.lyrics);
}

#[test]
fn bytes_that_are_no_midi_file_change_nothing() {
    let mut song = SongEntry::default();
    song.charts = 5;
    read_midi(&mut song, b"this is not a midi file");
    assert_eq!(song, {
        let mut same = SongEntry::default();
        same.charts = 5;
        same
    });
    read_midi(&mut song, &[]);
    assert_eq!(song.charts, 5);
}

#[test]
fn only_the_first_track_name_counts() {
    let mut song = SongEntry::default();
    let track = vec![
        MidiEvent::NoteOn(60),
        MidiEvent::TrackName(b"PART BASS".to_vec()),
        MidiEvent::TrackName(b"PART VOCALS".to_vec()),
        MidiEvent::Other,
        MidiEvent::NoteOn(95),
    ];
    read_tracks(&mut song, &vec![track]);
    assert_eq!(song.charts, (1 << 4) | (1 << 7));
    assert!(!song.lyrics);
}

#[test]
fn forced_drum_flags_count_for_midi_drums() {
    let mut song = SongEntry::default();
    song.force_pro_drums = true;
    read_tracks(
        &mut song,
        &vec![vec![MidiEvent::TrackName(b"part drums".to_vec()), MidiEvent::NoteOn(58)]],
    );
    assert_eq!(song.charts, (1 << 24) | (1 << 36));
}

#[test]
fn no_tracks_change_nothing() {
    let mut song = SongEntry::default();
    read_tracks(&mut song, &Vec::new());
    assert_eq!(song, SongEntry::default());
}

#[test]
fn a_named_track_is_read_by_its_lower_case_name() {
    let chars = |s: &str| s.chars().collect::<Vec<char>>();
    let events = vec![MidiEvent::NoteOn(60), MidiEvent::NoteOn(75), MidiEvent::Other];
    let mut song = SongEntry::default();
    read_named_track(&mut song, &events, &chars("part keys"));
    assert_eq!(song.charts, (1 << 28) | (1 << 29));
    let mut song = SongEntry::default();
    read_named_track(&mut song, &events, &chars("PART KEYS"));
    assert_eq!(song.charts, 0);
    read_named_track(&mut song, &events, &chars("part vocals"));
    assert!(song.lyrics);
    assert_eq!(song.charts, 0);
}
