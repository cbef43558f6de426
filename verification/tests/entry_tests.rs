use songcache::entry::{apply_charts, Instrument, SongEntry};

#[test]
fn default_entry_has_documented_defaults() {
    let song = SongEntry::default();
    assert_eq!(song.album_track, 16000);
    assert_eq!(song.playlist_track, 16000);
    assert_eq!(song.preview_start, -1);
    assert_eq!(song.intensities, [-1i8; 10]);
    assert_eq!(song.charts, 0);
    assert_eq!(song.checksum, [0u8; 16]);
    assert!(song.metadata.iter().all(|m| m.is_empty()));
    assert!(!song.lyrics && !song.is_enc && !song.modchart);
    assert!(song.audio_files.is_empty());
}

#[test]
fn drums_with_hint_sets_both_rows() {
    let mut song = SongEntry::default();
    apply_charts(&mut song, Instrument::Drums, true, 3);
    assert_eq!(song.charts, (1i64 << 27) | (1i64 << 39));
}

#[test]
fn each_instrument_has_its_row() {
    let rows = [
        (Instrument::Unset, -1),
        (Instrument::Guitar, 0),
        (Instrument::Bass, 1),
        (Instrument::Rhythm, 2),
        (Instrument::GuitarCoop, 3),
        (Instrument::GHLGuitar, 4),
        (Instrument::GHLBass, 5),
        (Instrument::Drums, 6),
        (Instrument::Keys, 7),
        (Instrument::Band, 8),
        (Instrument::ProDrums, 9),
    ];
    for (inst, row) in rows {
        assert_eq!(inst.index(), row);
    }
}

#[test]
fn apply_charts_sets_one_bit_and_keeps_the_others() {
    let mut song = SongEntry::default();
    apply_charts(&mut song, Instrument::Guitar, false, 0);
    assert_eq!(song.charts, 1);
    apply_charts(&mut song, Instrument::Band, true, 2);
    assert_eq!(song.charts, 1 | (1 << 34));
    apply_charts(&mut song, Instrument::Guitar, false, 0);
    assert_eq!(song.charts, 1 | (1 << 34));
    apply_charts(&mut song, Instrument::ProDrums, false, 3);
    assert_eq!(song.charts, 1 | (1 << 34) | (1 << 39));
}

#[test]
fn drums_without_hint_set_only_their_own_row() {
    let mut song = SongEntry::default();
    apply_charts(&mut song, Instrument::Drums, false, 1);
    assert_eq!(song.charts, 1 << 25);
    song.force_five_lane = true;
    apply_charts(&mut song, Instrument::Drums, false, 0);
    assert_eq!(song.charts, (1 << 25) | (1 << 24) | (1 << 36));
}

#[test]
fn setters_change_one_slot() {
    let mut song = SongEntry::default();
    song.set_metadata(6, String::from("Rock"));
    song.set_intensity(9, 5);
    let mut expected = SongEntry::default();
    expected.metadata[6] = String::from("Rock");
    expected.intensities[9] = 5;
    assert_eq!(song, expected);
}
