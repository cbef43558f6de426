use songcache::cache::ReadError;
use songcache::entry::SongEntry;
use songcache::reader::read_cache;
use songcache::wire::{put_string, put_varint, Reader};
use songcache::writer::{write_cache, WriteError};
use songcache::VERSION;

fn entry(n: u8) -> SongEntry {
    let mut e = SongEntry::default();
    e.folder_path = format!("/songs/rock/song {}", n);
    e.chart_name = String::from("notes.chart");
    e.metadata = [
        format!("Name {}", n),
        String::from("Artist"),
        format!("Album {}", n % 2),
        String::from("Genre"),
        String::from("1999"),
        String::from("Charter"),
        String::from("Rock"),
    ];
    e.intensities = [1, 2, 3, 0, 4, 5, 6, -1, 7, n as i8];
    e.charts = (1 << 3) | (1 << 27) | (1i64 << 39);
    e.lyrics = n % 2 == 0;
    e.preview_start = 1000 * n as i32;
    e.icon_name = String::from("icon");
    e.album_track = n as i16;
    e.playlist_track = -(n as i16);
    e.modchart = true;
    e.video_background = n % 2 == 1;
    e.force_pro_drums = true;
    e.force_five_lane = false;
    e.song_length = 123456;
    e.date_added = -5;
    e.top_level_playlist = String::from("rock");
    e.sub_playlist = String::from("");
    e.checksum = [n; 16];
    e
}

fn cloud_entry(n: u8) -> SongEntry {
    let mut e = entry(n);
    e.folder_path = format!("/Rock/Song {}", n);
    e.audio_files = vec![String::from("guitar.ogg"), String::from("song.ogg")];
    e.album_art_name = String::from("album.png");
    e.image_background = true;
    e.image_background_name = String::from("background.jpg");
    e.video_background_name = String::from("video.mp4");
    e
}

fn write(list: Vec<SongEntry>, cloud: bool) -> Vec<u8> {
    let mut bytes = Vec::new();
    assert_eq!(write_cache(list, &mut bytes, cloud), Ok(()));
    bytes
}

#[test]
fn three_entries_round_trip() {
    let list = vec![entry(1), entry(2), entry(3)];
    let bytes = write(list.clone(), false);
    let cache = read_cache(&bytes, false).unwrap();
    assert_eq!(cache.entries, list);
    let mut sums = Vec::new();
    for e in &list {
        sums.extend_from_slice(&e.checksum);
    }
    assert_eq!(cache.checksum, md5::compute(&sums).0);
    assert_eq!(&bytes[4..20], &md5::compute(&sums).0);
}

#[test]
fn cloud_entries_round_trip() {
    let list = vec![cloud_entry(1), cloud_entry(2)];
    let bytes = write(list.clone(), true);
    let cache = read_cache(&bytes, true).unwrap();
    assert_eq!(cache.entries, list);
}

#[test]
fn an_empty_list_round_trips() {
    let bytes = write(Vec::new(), false);
    let cache = read_cache(&bytes, false).unwrap();
    assert!(cache.entries.is_empty());
    assert_eq!(cache.checksum, md5::compute(&[] as &[u8]).0);
    assert_eq!(bytes.len(), 4 + 16 + 7 * 5 + 4);
}

#[test]
fn writing_twice_gives_the_same_bytes() {
    let list = vec![entry(1), entry(2), entry(3)];
    assert_eq!(write(list.clone(), false), write(list, false));
}

#[test]
fn the_file_begins_with_the_version() {
    let bytes = write(vec![entry(1)], false);
    assert_eq!(&bytes[0..4], &20220812i32.to_le_bytes());
    assert_eq!(VERSION, 20220812);
}

#[test]
fn writing_appends_to_the_sink() {
    let mut bytes = vec![1, 2, 3];
    assert_eq!(write_cache(vec![entry(1)], &mut bytes, false), Ok(()));
    assert_eq!(&bytes[0..3], &[1, 2, 3]);
    assert_eq!(&bytes[3..], &write(vec![entry(1)], false)[..]);
}

#[test]
fn tables_hold_each_value_once_in_first_seen_order() {
    let bytes = write(vec![entry(1), entry(2), entry(3)], false);
    let mut reader = Reader::new(&bytes[20..]);
    let mut tables: Vec<Vec<String>> = Vec::new();
    for slot in 0..7u8 {
        assert_eq!(reader.take_u8(), Some(slot));
        let count = reader.take_i32().unwrap();
        let mut table = Vec::new();
        for _ in 0..count {
            table.push(reader.take_string().unwrap());
        }
        tables.push(table);
    }
    assert_eq!(tables[0], vec!["Name 1", "Name 2", "Name 3"]);
    assert_eq!(tables[1], vec!["Artist"]);
    assert_eq!(tables[2], vec!["Album 1", "Album 0"]);
    assert_eq!(tables[6], vec!["Rock"]);
    assert_eq!(reader.take_i32(), Some(3));
}

#[test]
fn intensities_are_written_in_the_fixed_order() {
    let e = entry(9);
    let bytes = write(vec![e.clone()], false);
    let mut reader = Reader::new(&bytes[20..]);
    for _ in 0..7 {
        reader.take_u8().unwrap();
        let count = reader.take_i32().unwrap();
        for _ in 0..count {
            reader.take_string().unwrap();
        }
    }
    assert_eq!(reader.take_i32(), Some(1));
    assert_eq!(reader.take_string().unwrap(), e.folder_path);
    assert_eq!(reader.take_i64(), Some(0));
    assert_eq!(reader.take_i64(), Some(0));
    assert_eq!(reader.take_string().unwrap(), e.chart_name);
    assert_eq!(reader.take_bool(), Some(false));
    for _ in 0..7 {
        assert_eq!(reader.take_i32(), Some(0));
    }
    assert_eq!(reader.take_i64(), Some(e.charts));
    assert_eq!(reader.take_bool(), Some(e.lyrics));
    let block = reader.take_bytes(9).unwrap();
    let slots = [8, 0, 2, 1, 6, 9, 7, 4, 5];
    let expected: Vec<u8> = slots.iter().map(|&s| e.intensities[s] as u8).collect();
    assert_eq!(block, &expected[..]);
    assert_eq!(reader.take_i32(), Some(e.preview_start));
}

#[test]
fn another_version_is_refused() {
    let mut bytes = write(vec![entry(1)], false);
    bytes[0] ^= 1;
    assert_eq!(read_cache(&bytes, false), Err(ReadError::VersionMismatch { found: 20220812 ^ 1 }));
    assert_eq!(read_cache(&[1, 0, 0, 0], false), Err(ReadError::VersionMismatch { found: 1 }));
}

#[test]
fn a_file_that_ends_early_is_refused() {
    let bytes = write(vec![entry(1), entry(2)], false);
    for cut in [0, 3, 4, 19, 20, 30, bytes.len() / 2, bytes.len() - 1] {
        assert_eq!(read_cache(&bytes[..cut], false), Err(ReadError::Format), "cut at {}", cut);
    }
    assert!(read_cache(&bytes, false).is_ok());
}

#[test]
fn bytes_behind_the_last_entry_are_not_looked_at() {
    let mut bytes = write(vec![entry(1)], false);
    bytes.extend_from_slice(&[1, 2, 3]);
    assert_eq!(read_cache(&bytes, false).unwrap().entries, vec![entry(1)]);
}

#[test]
fn a_local_file_is_no_cloud_file() {
    let bytes = write(vec![entry(1)], false);
    assert_eq!(read_cache(&bytes, true), Err(ReadError::Format));
}

fn header() -> Vec<u8> {
    let mut bytes = Vec::new();
    bytes.extend_from_slice(&VERSION.to_le_bytes());
    bytes.extend_from_slice(&[7u8; 16]);
    bytes
}

fn table(bytes: &mut Vec<u8>, slot: u8, items: &[&str]) {
    bytes.push(slot);
    bytes.extend_from_slice(&(items.len() as i32).to_le_bytes());
    for item in items {
        put_string(bytes, item);
    }
}

fn plain_entry(bytes: &mut Vec<u8>, indices: [i32; 7]) {
    put_string(bytes, "path");
    bytes.extend_from_slice(&[0u8; 16]);
    put_string(bytes, "notes.mid");
    bytes.push(2);
    for index in indices {
        bytes.extend_from_slice(&index.to_le_bytes());
    }
    bytes.extend_from_slice(&5i64.to_le_bytes());
    bytes.push(0);
    bytes.extend_from_slice(&[1, 2, 3, 4, 5, 6, 7, 8, 9]);
    bytes.extend_from_slice(&(-1i32).to_le_bytes());
    put_string(bytes, "");
    bytes.extend_from_slice(&16000i16.to_le_bytes());
    bytes.extend_from_slice(&16000i16.to_le_bytes());
    bytes.extend_from_slice(&[0, 255, 0, 1]);
    bytes.extend_from_slice(&0i32.to_le_bytes());
    bytes.extend_from_slice(&0i64.to_le_bytes());
    put_string(bytes, "");
    put_string(bytes, "");
    bytes.extend_from_slice(&[3u8; 16]);
}

#[test]
fn tables_may_come_in_any_order() {
    let mut bytes = header();
    for slot in [6u8, 5, 4, 3, 2, 1, 0] {
        let first = format!("a{}", slot);
        let second = format!("b{}", slot);
        table(&mut bytes, slot, &[&first, &second]);
    }
    bytes.extend_from_slice(&1i32.to_le_bytes());
    plain_entry(&mut bytes, [1, 0, 1, 0, 1, 0, 1]);
    let cache = read_cache(&bytes, false).unwrap();
    assert_eq!(cache.checksum, [7u8; 16]);
    assert_eq!(cache.entries.len(), 1);
    let e = &cache.entries[0];
    assert_eq!(e.metadata, ["b0", "a1", "b2", "a3", "b4", "a5", "b6"].map(String::from));
    assert_eq!(e.folder_path, "path");
    assert_eq!(e.chart_name, "notes.mid");
    assert!(e.is_enc);
    assert_eq!(e.charts, 5);
    assert_eq!(e.intensities, [2, 4, 3, 0, 8, 9, 5, 7, 1, 6]);
    assert!(!e.modchart && e.video_background && !e.force_pro_drums && e.force_five_lane);
    assert_eq!(e.checksum, [3u8; 16]);
}

#[test]
fn a_table_slot_that_is_not_there_is_refused() {
    let mut bytes = header();
    for slot in [0u8, 1, 2, 3, 4, 5, 7] {
        table(&mut bytes, slot, &["x"]);
    }
    bytes.extend_from_slice(&0i32.to_le_bytes());
    assert_eq!(read_cache(&bytes, false), Err(ReadError::Format));
}

#[test]
fn an_index_that_is_not_in_its_table_is_refused() {
    for bad in [1, -1, i32::MAX] {
        let mut bytes = header();
        for slot in 0..7u8 {
            table(&mut bytes, slot, &["x"]);
        }
        bytes.extend_from_slice(&1i32.to_le_bytes());
        plain_entry(&mut bytes, [0, 0, 0, bad, 0, 0, 0]);
        assert_eq!(read_cache(&bytes, false), Err(ReadError::Format), "index {}", bad);
    }
}

#[test]
fn a_slot_named_twice_collects_both_tables() {
    let mut bytes = header();
    table(&mut bytes, 0, &["x"]);
    table(&mut bytes, 0, &["y"]);
    for slot in 1..6u8 {
        table(&mut bytes, slot, &["z"]);
    }
    bytes.extend_from_slice(&0i32.to_le_bytes());
    assert!(read_cache(&bytes, false).unwrap().entries.is_empty());
}

#[test]
fn counts_below_one_stand_for_nothing() {
    let mut bytes = header();
    for slot in 0..7u8 {
        bytes.push(slot);
        bytes.extend_from_slice(&(-3i32).to_le_bytes());
    }
    bytes.extend_from_slice(&(-1i32).to_le_bytes());
    assert!(read_cache(&bytes, false).unwrap().entries.is_empty());
}

#[test]
fn long_strings_have_lengths_of_several_bytes() {
    let mut e = entry(1);
    e.folder_path = "x".repeat(200);
    e.icon_name = "é".repeat(9000);
    let bytes = write(vec![e.clone()], false);
    assert_eq!(read_cache(&bytes, false).unwrap().entries, vec![e]);
}

#[test]
fn lengths_are_written_seven_bits_to_a_byte() {
    let cases: [(usize, &[u8]); 7] = [
        (0, &[0]),
        (1, &[1]),
        (127, &[0x7f]),
        (128, &[0x80, 0x01]),
        (300, &[0xac, 0x02]),
        (16384, &[0x80, 0x80, 0x01]),
        (0x7fff_ffff, &[0xff, 0xff, 0xff, 0xff, 0x07]),
    ];
    for (n, expected) in cases {
        let mut bytes = Vec::new();
        put_varint(&mut bytes, n);
        assert_eq!(bytes, expected, "{}", n);
        let mut reader = Reader::new(&bytes);
        assert_eq!(reader.take_varint(), Some(n));
        assert_eq!(reader.remaining(), 0);
    }
}

#[test]
fn lengths_of_more_than_31_bits_are_refused() {
    for bad in [
        &[0xffu8, 0xff, 0xff, 0xff, 0x08][..],
        &[0x80, 0x80, 0x80, 0x80, 0x80, 0x01][..],
        &[0x80][..],
        &[][..],
    ] {
        let mut reader = Reader::new(bad);
        assert_eq!(reader.take_varint(), None);
        assert_eq!(reader.remaining(), bad.len());
    }
}

#[test]
fn strings_with_invalid_utf8_are_read_with_replacements() {
    let bytes = [3u8, b'a', 0xff, b'b', 9];
    let mut reader = Reader::new(&bytes);
    assert_eq!(reader.take_string().unwrap(), "a\u{fffd}b");
    assert_eq!(reader.take_u8(), Some(9));
    let mut reader = Reader::new(&[5u8, b'a']);
    assert_eq!(reader.take_string(), None);
}

#[test]
fn integers_are_little_endian() {
    let mut bytes = Vec::new();
    songcache::wire::put_i16(&mut bytes, -2);
    songcache::wire::put_i32(&mut bytes, 0x01020304);
    songcache::wire::put_i64(&mut bytes, -1);
    songcache::wire::put_i8(&mut bytes, -1);
    songcache::wire::put_bool(&mut bytes, true);
    songcache::wire::put_bool(&mut bytes, false);
    assert_eq!(
        bytes,
        vec![0xfe, 0xff, 4, 3, 2, 1, 0xff, 0xff, 0xff, 0xff, 0xff, 0xff, 0xff, 0xff, 0xff, 1, 0]
    );
    let mut reader = Reader::new(&bytes);
    assert_eq!(reader.take_i16(), Some(-2));
    assert_eq!(reader.take_i32(), Some(0x01020304));
    assert_eq!(reader.take_i64(), Some(-1));
    assert_eq!(reader.take_i8(), Some(-1));
    assert_eq!(reader.take_bool(), Some(true));
    assert_eq!(reader.take_bool(), Some(false));
    assert_eq!(reader.take_bool(), None);
}

#[test]
fn too_many_audio_files_cannot_be_written() {
    let mut e = cloud_entry(1);
    e.audio_files = (0..128).map(|i| format!("song{}.ogg", i)).collect();
    let mut bytes = vec![9];
    assert_eq!(write_cache(vec![e.clone()], &mut bytes, true), Err(WriteError::TooLarge));
    assert_eq!(bytes, vec![9]);
    assert_eq!(write_cache(vec![e.clone()], &mut bytes, false), Ok(()));
    e.audio_files.pop();
    let bytes = write(vec![e.clone()], true);
    assert_eq!(read_cache(&bytes, true).unwrap().entries, vec![e]);
}

#[test]
fn the_guitar_coop_intensity_is_not_stored() {
    let mut e = entry(1);
    e.intensities[3] = 5;
    let bytes = write(vec![e.clone()], false);
    let read = read_cache(&bytes, false).unwrap().entries;
    e.intensities[3] = 0;
    assert_eq!(read, vec![e]);
}
