//! The layout of a cache file, as functions from a list of records to bytes
//! and from bytes back to a list of records, and the proof that the second
//! undoes the first.

use crate::entry::{default_entry, with_metadata, EntryView};
use crate::hash::md5_digest;
use crate::VERSION;
use crate::wire::{
    byte_of, fits, i8_of, parse_bool, parse_bytes, parse_i16,
    parse_i32, parse_i64, parse_i8, parse_string, parse_u8, ser_bool, ser_i16, ser_i32, ser_i64,
    ser_i8, ser_string,
};
use vstd::prelude::*;

verus! {

/// Why a cache file was not read.
#[derive(Clone, Copy, Debug, PartialEq, Eq, Structural)]
pub enum ReadError {
    /// The file begins with another version than this library writes.
    VersionMismatch { found: i32 },
    /// The file ends too early, holds a length of more than 31 bits, or
    /// refers to a table or a table entry that is not there.
    Format,
}

/// What a cache file holds.
pub struct CacheView {
    /// The 16 bytes after the version.
    pub checksum: Seq<u8>,
    /// The records, in the order of the file.
    pub entries: Seq<EntryView>,
}

/// The index of the first `value` in `table`, or the length of `table`.
pub open spec fn position(table: Seq<Seq<char>>, value: Seq<char>) -> int
    decreases table.len(),
{
    if table.len() == 0 || table[0] == value {
        0
    } else {
        1 + position(table.drop_first(), value)
    }
}

/// `table` with `value` at its end, unless it holds `value` already.
pub open spec fn interned(table: Seq<Seq<char>>, value: Seq<char>) -> Seq<Seq<char>> {
    if position(table, value) < table.len() {
        table
    } else {
        table.push(value)
    }
}

/// The table of metadata slot `slot`: the values that the entries have in
/// that slot, each once, in the order in which they first occur.
pub open spec fn table_of(entries: Seq<EntryView>, slot: int) -> Seq<Seq<char>>
    decreases entries.len(),
{
    if entries.len() == 0 {
        Seq::empty()
    } else {
        interned(table_of(entries.drop_last(), slot), entries.last().metadata[slot])
    }
}

/// The seven tables of a list of entries.
pub open spec fn tables_of(entries: Seq<EntryView>) -> Seq<Seq<Seq<char>>> {
    Seq::new(7, |slot: int| table_of(entries, slot))
}

/// The checksums of the entries, one after the other.
pub open spec fn checksums_of(entries: Seq<EntryView>) -> Seq<u8>
    decreases entries.len(),
{
    if entries.len() == 0 {
        Seq::empty()
    } else {
        checksums_of(entries.drop_last()) + entries.last().checksum
    }
}

/// The bytes of a list of texts, one after the other.
pub open spec fn ser_strings(items: Seq<Seq<char>>) -> Seq<u8>
    decreases items.len(),
{
    if items.len() == 0 {
        Seq::empty()
    } else {
        ser_string(items[0]) + ser_strings(items.drop_first())
    }
}

/// The bytes of one table: its slot, the number of its texts, the texts.
pub open spec fn ser_table(slot: int, table: Seq<Seq<char>>) -> Seq<u8> {
    seq![slot as u8] + ser_i32(table.len() as i32) + ser_strings(table)
}

/// The bytes of the tables from slot `from` on, in the order of the slots.
pub open spec fn ser_tables(tables: Seq<Seq<Seq<char>>>, from: int) -> Seq<u8>
    decreases 7 - from,
{
    if from < 0 || from >= 7 {
        Seq::empty()
    } else {
        ser_table(from, tables[from]) + ser_tables(tables, from + 1)
    }
}

/// The order in which the intensities are written: the slot of each of the
/// nine bytes. Slot 3 is not written.
pub open spec fn intensity_order() -> Seq<int> {
    seq![8, 0, 2, 1, 6, 9, 7, 4, 5]
}

/// The nine bytes of the intensities.
pub open spec fn ser_intensities(v: Seq<i8>) -> Seq<u8> {
    Seq::new(9, |k: int| byte_of(v[intensity_order()[k]]))
}

/// The ten intensities that nine bytes stand for; slot 3 is 0.
pub open spec fn intensities_of(block: Seq<u8>) -> Seq<i8> {
    seq![
        i8_of(block[1]),
        i8_of(block[3]),
        i8_of(block[2]),
        0i8,
        i8_of(block[7]),
        i8_of(block[8]),
        i8_of(block[4]),
        i8_of(block[6]),
        i8_of(block[0]),
        i8_of(block[5]),
    ]
}

/// The first fields of an entry: path, two reserved zeros, chart name, the
/// reserved flag.
pub open spec fn ser_head(e: EntryView) -> Seq<u8> {
    ser_string(e.folder_path) + ser_i64(0) + ser_i64(0) + ser_string(e.chart_name) + ser_bool(
        e.is_enc,
    )
}

/// The indices of the entry's metadata in the tables, from slot `from` on.
pub open spec fn ser_indices(e: EntryView, tables: Seq<Seq<Seq<char>>>, from: int) -> Seq<u8>
    decreases 7 - from,
{
    if from < 0 || from >= 7 {
        Seq::empty()
    } else {
        ser_i32(position(tables[from], e.metadata[from]) as i32) + ser_indices(e, tables, from + 1)
    }
}

/// Charts, lyrics flag, intensities, preview start.
pub open spec fn ser_body(e: EntryView) -> Seq<u8> {
    ser_i64(e.charts) + ser_bool(e.lyrics) + ser_intensities(e.intensities) + ser_i32(
        e.preview_start,
    )
}

/// Icon, the two track numbers, and the first two flags.
pub open spec fn ser_tracks(e: EntryView) -> Seq<u8> {
    ser_string(e.icon_name) + ser_i16(e.album_track) + ser_i16(e.playlist_track) + ser_bool(
        e.modchart,
    ) + ser_bool(e.video_background)
}

/// The two drum flags, the length and the date.
pub open spec fn ser_times(e: EntryView) -> Seq<u8> {
    ser_bool(e.force_pro_drums) + ser_bool(e.force_five_lane) + ser_i32(e.song_length) + ser_i64(
        e.date_added,
    )
}

/// The two playlists and the checksum.
pub open spec fn ser_lists(e: EntryView) -> Seq<u8> {
    ser_string(e.top_level_playlist) + ser_string(e.sub_playlist) + e.checksum
}

/// The fields that only the cloud profile stores.
pub open spec fn ser_cloud(e: EntryView) -> Seq<u8> {
    ser_i8(e.audio_files.len() as i8) + ser_strings(e.audio_files) + ser_string(e.album_art_name)
        + ser_bool(e.image_background) + ser_string(e.image_background_name) + ser_string(
        e.video_background_name,
    )
}

/// The bytes of one entry, whose metadata is stored as indices into `tables`.
#[verifier::opaque]
pub open spec fn ser_entry(e: EntryView, tables: Seq<Seq<Seq<char>>>, cloud_format: bool) -> Seq<
    u8,
> {
    ser_head(e) + ser_indices(e, tables, 0) + ser_body(e) + ser_tracks(e) + ser_times(e)
        + ser_lists(e) + if cloud_format {
        ser_cloud(e)
    } else {
        Seq::empty()
    }
}

/// The bytes of the entries, one after the other.
pub open spec fn ser_entries(
    entries: Seq<EntryView>,
    tables: Seq<Seq<Seq<char>>>,
    cloud_format: bool,
) -> Seq<u8>
    decreases entries.len(),
{
    if entries.len() == 0 {
        Seq::empty()
    } else {
        ser_entry(entries[0], tables, cloud_format) + ser_entries(
            entries.drop_first(),
            tables,
            cloud_format,
        )
    }
}

/// The bytes of a cache file: the version, the MD5 of the entries'
/// checksums, the seven tables, the number of entries, the entries.
pub open spec fn ser_cache(entries: Seq<EntryView>, cloud_format: bool) -> Seq<u8> {
    ser_i32(VERSION) + md5_digest(checksums_of(entries))@ + ser_tables(tables_of(entries), 0)
        + ser_i32(entries.len() as i32) + ser_entries(entries, tables_of(entries), cloud_format)
}

/// Whether an entry can be written: its texts fit, and in the cloud profile
/// it names 127 audio files at most.
pub open spec fn storable(e: EntryView, cloud_format: bool) -> bool {
    &&& e.metadata.len() == 7
    &&& e.intensities.len() == 10
    &&& e.checksum.len() == 16
    &&& fits(e.folder_path)
    &&& fits(e.chart_name)
    &&& fits(e.icon_name)
    &&& fits(e.top_level_playlist)
    &&& fits(e.sub_playlist)
    &&& forall|slot: int| 0 <= slot < 7 ==> fits(#[trigger] e.metadata[slot])
    &&& cloud_format ==> {
        &&& e.audio_files.len() <= 127
        &&& forall|i: int| 0 <= i < e.audio_files.len() ==> fits(#[trigger] e.audio_files[i])
        &&& fits(e.album_art_name)
        &&& fits(e.image_background_name)
        &&& fits(e.video_background_name)
    }
}

/// Whether a list of entries can be written.
pub open spec fn all_storable(entries: Seq<EntryView>, cloud_format: bool) -> bool {
    &&& entries.len() <= 0x7fff_ffff
    &&& forall|i: int| 0 <= i < entries.len() ==> storable(#[trigger] entries[i], cloud_format)
}

/// Whether an entry is read back as it was written: it can be written, its
/// guitar-coop intensity is 0 (that slot is not stored), and outside the
/// cloud profile it has nothing in the fields that only that profile stores.
pub open spec fn faithful(e: EntryView, cloud_format: bool) -> bool {
    &&& storable(e, cloud_format)
    &&& e.intensities[3] == 0
    &&& !cloud_format ==> {
        &&& e.audio_files == Seq::<Seq<char>>::empty()
        &&& e.album_art_name == Seq::<char>::empty()
        &&& !e.image_background
        &&& e.image_background_name == Seq::<char>::empty()
        &&& e.video_background_name == Seq::<char>::empty()
    }
}

/// Whether a list of entries is read back as it was written.
pub open spec fn all_faithful(entries: Seq<EntryView>, cloud_format: bool) -> bool {
    &&& entries.len() <= 0x7fff_ffff
    &&& forall|i: int| 0 <= i < entries.len() ==> faithful(#[trigger] entries[i], cloud_format)
}

/// `count` texts at the front of `s`, and what follows them. A count below
/// one stands for no text.
pub open spec fn parse_strings(s: Seq<u8>, count: int) -> Option<(Seq<Seq<char>>, Seq<u8>)>
    decreases count,
{
    if count <= 0 {
        Some((Seq::empty(), s))
    } else {
        match parse_string(s) {
            None => None,
            Some((first, s)) => match parse_strings(s, count - 1) {
                None => None,
                Some((others, s)) => Some((seq![first] + others, s)),
            },
        }
    }
}

/// One table at the front of `s`: its texts are added to the table of the
/// slot it names.
pub open spec fn parse_table(tables: Seq<Seq<Seq<char>>>, s: Seq<u8>) -> Option<
    (Seq<Seq<Seq<char>>>, Seq<u8>),
> {
    match parse_u8(s) {
        None => None,
        Some((slot, s)) => if slot >= 7 {
            None
        } else {
            match parse_i32(s) {
                None => None,
                Some((count, s)) => match parse_strings(s, count as int) {
                    None => None,
                    Some((items, s)) => Some(
                        (tables.update(slot as int, tables[slot as int] + items), s),
                    ),
                },
            }
        },
    }
}

/// `count` tables at the front of `s`.
pub open spec fn parse_tables(tables: Seq<Seq<Seq<char>>>, s: Seq<u8>, count: int) -> Option<
    (Seq<Seq<Seq<char>>>, Seq<u8>),
>
    decreases count,
{
    if count <= 0 {
        Some((tables, s))
    } else {
        match parse_table(tables, s) {
            None => None,
            Some((tables, s)) => parse_tables(tables, s, count - 1),
        }
    }
}

/// Seven tables without a text.
pub open spec fn empty_tables() -> Seq<Seq<Seq<char>>> {
    Seq::new(7, |slot: int| Seq::<Seq<char>>::empty())
}

/// `song` with the first fields of an entry, read at the front of `s`.
#[verifier::opaque]
pub open spec fn parse_head(song: EntryView, s: Seq<u8>) -> Option<(EntryView, Seq<u8>)> {
    match parse_string(s) {
        None => None,
        Some((folder_path, s)) => match parse_i64(s) {
            None => None,
            Some((_, s)) => match parse_i64(s) {
                None => None,
                Some((_, s)) => match parse_string(s) {
                    None => None,
                    Some((chart_name, s)) => match parse_bool(s) {
                        None => None,
                        Some((is_enc, s)) => Some(
                            (EntryView { folder_path, chart_name, is_enc, ..song }, s),
                        ),
                    },
                },
            },
        },
    }
}

/// `song` with the metadata from slot `from` on, each read at the front of
/// `s` as an index into the table of its slot.
pub open spec fn parse_indices(
    song: EntryView,
    tables: Seq<Seq<Seq<char>>>,
    s: Seq<u8>,
    from: int,
) -> Option<(EntryView, Seq<u8>)>
    decreases 7 - from,
{
    if from < 0 || from >= 7 {
        Some((song, s))
    } else {
        match parse_i32(s) {
            None => None,
            Some((index, s)) => if 0 <= index < tables[from].len() {
                parse_indices(with_metadata(song, from, tables[from][index as int]), tables, s, from + 1)
            } else {
                None
            },
        }
    }
}

/// `song` with charts, lyrics flag, intensities and preview start.
#[verifier::opaque]
pub open spec fn parse_body(song: EntryView, s: Seq<u8>) -> Option<(EntryView, Seq<u8>)> {
    match parse_i64(s) {
        None => None,
        Some((charts, s)) => match parse_bool(s) {
            None => None,
            Some((lyrics, s)) => match parse_bytes(s, 9) {
                None => None,
                Some((block, s)) => match parse_i32(s) {
                    None => None,
                    Some((preview_start, s)) => Some(
                        (
                            EntryView {
                                charts,
                                lyrics,
                                intensities: intensities_of(block),
                                preview_start,
                                ..song
                            },
                            s,
                        ),
                    ),
                },
            },
        },
    }
}

/// `song` with icon, track numbers and the first two flags.
#[verifier::opaque]
pub open spec fn parse_tracks(song: EntryView, s: Seq<u8>) -> Option<(EntryView, Seq<u8>)> {
    match parse_string(s) {
        None => None,
        Some((icon_name, s)) => match parse_i16(s) {
            None => None,
            Some((album_track, s)) => match parse_i16(s) {
                None => None,
                Some((playlist_track, s)) => match parse_bool(s) {
                    None => None,
                    Some((modchart, s)) => match parse_bool(s) {
                        None => None,
                        Some((video_background, s)) => Some(
                            (
                                EntryView {
                                    icon_name,
                                    album_track,
                                    playlist_track,
                                    modchart,
                                    video_background,
                                    ..song
                                },
                                s,
                            ),
                        ),
                    },
                },
            },
        },
    }
}

/// `song` with the two drum flags, the length and the date.
#[verifier::opaque]
pub open spec fn parse_times(song: EntryView, s: Seq<u8>) -> Option<(EntryView, Seq<u8>)> {
    match parse_bool(s) {
        None => None,
        Some((force_pro_drums, s)) => match parse_bool(s) {
            None => None,
            Some((force_five_lane, s)) => match parse_i32(s) {
                None => None,
                Some((song_length, s)) => match parse_i64(s) {
                    None => None,
                    Some((date_added, s)) => Some(
                        (
                            EntryView {
                                force_pro_drums,
                                force_five_lane,
                                song_length,
                                date_added,
                                ..song
                            },
                            s,
                        ),
                    ),
                },
            },
        },
    }
}

/// `song` with the two playlists and the checksum.
#[verifier::opaque]
pub open spec fn parse_lists(song: EntryView, s: Seq<u8>) -> Option<(EntryView, Seq<u8>)> {
    match parse_string(s) {
        None => None,
        Some((top_level_playlist, s)) => match parse_string(s) {
            None => None,
            Some((sub_playlist, s)) => match parse_bytes(s, 16) {
                None => None,
                Some((checksum, s)) => Some(
                    (EntryView { top_level_playlist, sub_playlist, checksum, ..song }, s),
                ),
            },
        },
    }
}

/// `song` with the fields that only the cloud profile stores.
#[verifier::opaque]
pub open spec fn parse_cloud(song: EntryView, s: Seq<u8>) -> Option<(EntryView, Seq<u8>)> {
    match parse_i8(s) {
        None => None,
        Some((count, s)) => match parse_strings(s, count as int) {
            None => None,
            Some((audio_files, s)) => match parse_string(s) {
                None => None,
                Some((album_art_name, s)) => match parse_bool(s) {
                    None => None,
                    Some((image_background, s)) => match parse_string(s) {
                        None => None,
                        Some((image_background_name, s)) => match parse_string(s) {
                            None => None,
                            Some((video_background_name, s)) => Some(
                                (
                                    EntryView {
                                        audio_files,
                                        album_art_name,
                                        image_background,
                                        image_background_name,
                                        video_background_name,
                                        ..song
                                    },
                                    s,
                                ),
                            ),
                        },
                    },
                },
            },
        },
    }
}

/// The entry at the front of `s`, and what follows it.
#[verifier::opaque]
pub open spec fn parse_entry(tables: Seq<Seq<Seq<char>>>, cloud_format: bool, s: Seq<u8>)
    -> Option<(EntryView, Seq<u8>)> {
    match parse_head(default_entry(), s) {
        None => None,
        Some((song, s)) => match parse_indices(song, tables, s, 0) {
            None => None,
            Some((song, s)) => match parse_body(song, s) {
                None => None,
                Some((song, s)) => match parse_tracks(song, s) {
                    None => None,
                    Some((song, s)) => match parse_times(song, s) {
                        None => None,
                        Some((song, s)) => match parse_lists(song, s) {
                            None => None,
                            Some((song, s)) => if cloud_format {
                                parse_cloud(song, s)
                            } else {
                                Some((song, s))
                            },
                        },
                    },
                },
            },
        },
    }
}

/// `count` entries at the front of `s`, and what follows them. A count
/// below one stands for no entry.
pub open spec fn parse_entries(
    tables: Seq<Seq<Seq<char>>>,
    cloud_format: bool,
    s: Seq<u8>,
    count: int,
) -> Option<(Seq<EntryView>, Seq<u8>)>
    decreases count,
{
    if count <= 0 {
        Some((Seq::empty(), s))
    } else {
        match parse_entry(tables, cloud_format, s) {
            None => None,
            Some((first, s)) => match parse_entries(tables, cloud_format, s, count - 1) {
                None => None,
                Some((others, s)) => Some((seq![first] + others, s)),
            },
        }
    }
}

/// What is behind the version of a cache file: the checksum, the tables,
/// the number of entries and the entries. Bytes behind the last entry are
/// not looked at.
pub open spec fn parse_contents(s: Seq<u8>, cloud_format: bool) -> Option<CacheView> {
    match parse_bytes(s, 16) {
        None => None,
        Some((checksum, s)) => match parse_tables(empty_tables(), s, 7) {
            None => None,
            Some((tables, s)) => match parse_i32(s) {
                None => None,
                Some((count, s)) => match parse_entries(tables, cloud_format, s, count as int) {
                    None => None,
                    Some((entries, _)) => Some(CacheView { checksum, entries }),
                },
            },
        },
    }
}

/// What a cache file holds, or why it cannot be read.
pub open spec fn parse_cache(s: Seq<u8>, cloud_format: bool) -> Result<CacheView, ReadError> {
    match parse_i32(s) {
        None => Err(ReadError::Format),
        Some((found, s)) => if found != VERSION {
            Err(ReadError::VersionMismatch { found })
        } else {
            match parse_contents(s, cloud_format) {
                None => Err(ReadError::Format),
                Some(cache) => Ok(cache),
            }
        },
    }
}

} // verus!
