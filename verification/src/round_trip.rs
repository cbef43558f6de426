//! Reading undoes writing: the proof that a cache file, read back, gives the
//! list of entries it was written from.

use crate::cache::{
    all_faithful, checksums_of, empty_tables, faithful, intensities_of, parse_body, parse_cache,
    parse_cloud, parse_entries, parse_entry, parse_head, parse_indices, parse_lists, parse_strings,
    parse_table, parse_tables, parse_times, parse_tracks, position, ser_body, ser_cache, ser_cloud,
    ser_entries, ser_entry, ser_head, ser_indices, ser_intensities, ser_lists, ser_strings,
    ser_table, ser_tables, ser_times, ser_tracks, storable, table_of, tables_of, CacheView,
    ReadError,
};
use crate::entry::{default_entry, with_metadata, EntryView};
use crate::hash::md5_digest;
use crate::wire::{
    byte_of, fits, lemma_int_round_trip, lemma_pow256, parse_bytes, parse_i16, parse_i32, parse_i64,
    lemma_bool_round_trip, lemma_i16_round_trip, lemma_i32_round_trip, lemma_i64_round_trip,
    lemma_i8_round_trip, lemma_string_round_trip, parse_bool, parse_i8, parse_string, ser_bool,
    ser_i16, ser_i32, ser_i64, ser_i8, ser_string,
};
use crate::VERSION;
use vstd::prelude::*;

verus! {

/// Putting three runs of bytes together gives the same whichever two are
/// joined first.
pub proof fn lemma_concat_assoc(a: Seq<u8>, b: Seq<u8>, c: Seq<u8>)
    ensures
        (a + b) + c == a + (b + c),
{
    assert((a + b) + c =~= a + (b + c));
}

/// `position` returns the least index that holds the value.
pub proof fn lemma_position(table: Seq<Seq<char>>, value: Seq<char>)
    ensures
        0 <= position(table, value) <= table.len(),
        position(table, value) < table.len() ==> table[position(table, value)] == value,
        forall|j: int| 0 <= j < position(table, value) ==> table[j] != value,
    decreases table.len(),
{
    if table.len() == 0 || table[0] == value {
    } else {
        lemma_position(table.drop_first(), value);
        assert forall|j: int| 0 <= j < position(table, value) implies table[j] != value by {
            if j > 0 {
                assert(table[j] == table.drop_first()[j - 1]);
            }
        }
    }
}

/// Reading the bytes of a list of texts gives the list back.
pub proof fn lemma_strings_round_trip(items: Seq<Seq<char>>, rest: Seq<u8>)
    requires
        forall|i: int| 0 <= i < items.len() ==> fits(#[trigger] items[i]),
    ensures
        parse_strings(ser_strings(items) + rest, items.len() as int) == Some((items, rest)),
    decreases items.len(),
{
    if items.len() == 0 {
        assert(ser_strings(items) + rest =~= rest);
        assert(items =~= Seq::<Seq<char>>::empty());
    } else {
        let tail = items.drop_first();
        let behind = ser_strings(tail) + rest;
        assert(ser_strings(items) + rest =~= ser_string(items[0]) + behind);
        assert(fits(items[0]));
        lemma_string_round_trip(items[0], behind);
        assert forall|i: int| 0 <= i < tail.len() implies fits(#[trigger] tail[i]) by {
            assert(tail[i] == items[i + 1]);
        }
        lemma_strings_round_trip(tail, rest);
        assert(seq![items[0]] + tail =~= items);
    }
}

/// The values that the entries have in one metadata slot, in their order.
pub open spec fn values_of(entries: Seq<EntryView>, slot: int) -> Seq<Seq<char>> {
    Seq::new(entries.len(), |i: int| entries[i].metadata[slot])
}

/// The position of a value does not change when a text is put at the end of
/// a table that holds the value.
pub proof fn lemma_position_push(table: Seq<Seq<char>>, last: Seq<char>, value: Seq<char>)
    ensures
        position(table, value) < table.len() ==> position(table.push(last), value) == position(
            table,
            value,
        ),
        position(table, value) >= table.len() && last == value ==> position(
            table.push(last),
            value,
        ) == table.len(),
    decreases table.len(),
{
    lemma_position(table, value);
    if table.len() == 0 {
    } else if table[0] == value {
    } else {
        lemma_position_push(table.drop_first(), last, value);
        assert(table.push(last).drop_first() =~= table.drop_first().push(last));
    }
}

/// The table of a slot holds each value of that slot once, in the order in
/// which the values first occur among the entries; and the position of an
/// entry's value in the table is an index at which the table holds it.
pub proof fn lemma_interning(entries: Seq<EntryView>, slot: int)
    ensures
        table_of(entries, slot).no_duplicates(),
        table_of(entries, slot).len() <= entries.len(),
        forall|i: int|
            0 <= i < entries.len() ==> {
                let at = position(table_of(entries, slot), #[trigger] entries[i].metadata[slot]);
                0 <= at < table_of(entries, slot).len() && table_of(entries, slot)[at]
                    == entries[i].metadata[slot]
            },
        forall|k: int|
            0 <= k < table_of(entries, slot).len() ==> position(
                values_of(entries, slot),
                #[trigger] table_of(entries, slot)[k],
            ) < entries.len(),
        forall|k: int, l: int|
            0 <= k < l < table_of(entries, slot).len() ==> position(
                values_of(entries, slot),
                #[trigger] table_of(entries, slot)[k],
            ) < position(values_of(entries, slot), #[trigger] table_of(entries, slot)[l]),
    decreases entries.len(),
{
    let table = table_of(entries, slot);
    let values = values_of(entries, slot);
    if entries.len() == 0 {
    } else {
        let front = entries.drop_last();
        let before = table_of(front, slot);
        let seen = values_of(front, slot);
        let value = entries.last().metadata[slot];
        lemma_interning(front, slot);
        lemma_position(before, value);
        assert(values =~= seen.push(value));
        assert forall|i: int| 0 <= i < front.len() implies front[i] == entries[i] by {}
        assert forall|k: int| 0 <= k < before.len() implies position(values, #[trigger] before[k])
            == position(seen, before[k]) by {
            lemma_position_push(seen, value, before[k]);
        }
        if position(before, value) < before.len() {
            assert(table == before);
            assert forall|i: int| 0 <= i < entries.len() implies {
                let at = position(table, #[trigger] entries[i].metadata[slot]);
                0 <= at < table.len() && table[at] == entries[i].metadata[slot]
            } by {
                if i < front.len() {
                    assert(front[i].metadata[slot] == entries[i].metadata[slot]);
                }
            }
        } else {
            assert(table == before.push(value));
            assert forall|i: int| 0 <= i < front.len() implies seen[i] != value by {
                let at = position(before, front[i].metadata[slot]);
                assert(before[at] == front[i].metadata[slot]);
            }
            assert(position(seen, value) >= seen.len()) by {
                lemma_position(seen, value);
            }
            lemma_position_push(seen, value, value);
            assert forall|i: int| 0 <= i < entries.len() implies {
                let at = position(table, #[trigger] entries[i].metadata[slot]);
                0 <= at < table.len() && table[at] == entries[i].metadata[slot]
            } by {
                lemma_position_push(before, value, entries[i].metadata[slot]);
                if i < front.len() {
                    assert(front[i].metadata[slot] == entries[i].metadata[slot]);
                }
            }
            assert forall|k: int, l: int| 0 <= k < l < table.len() implies table[k] != table[l] by {
                if l < before.len() {
                    assert(before[k] != before[l]);
                }
            }
            assert forall|k: int| 0 <= k < table.len() implies position(values, #[trigger] table[k])
                < entries.len() by {
                if k < before.len() {
                    assert(table[k] == before[k]);
                }
            }
            assert forall|k: int, l: int| 0 <= k < l < table.len() implies position(
                values,
                #[trigger] table[k],
            ) < position(values, #[trigger] table[l]) by {
                assert(table[k] == before[k]);
                if l < before.len() {
                    assert(table[l] == before[l]);
                }
            }
        }
    }
}

/// Reading the bytes of one table adds its texts to the table of its slot.
pub proof fn lemma_table_round_trip(
    tables: Seq<Seq<Seq<char>>>,
    slot: int,
    table: Seq<Seq<char>>,
    rest: Seq<u8>,
)
    requires
        0 <= slot < 7,
        table.len() <= 0x7fff_ffff,
        forall|i: int| 0 <= i < table.len() ==> fits(#[trigger] table[i]),
    ensures
        parse_table(tables, ser_table(slot, table) + rest) == Some(
            (tables.update(slot, tables[slot] + table), rest),
        ),
{
    let s = ser_table(slot, table) + rest;
    let count = table.len() as i32;
    let behind_count = ser_strings(table) + rest;
    let behind_slot = ser_i32(count) + behind_count;
    assert(s =~= seq![slot as u8] + behind_slot);
    assert(s.skip(1) =~= behind_slot);
    assert(s[0] == slot as u8);
    lemma_i32_round_trip(count, behind_count);
    lemma_strings_round_trip(table, rest);
}

/// The tables of which those of the slots before `from` are read already.
pub open spec fn tables_before(tables: Seq<Seq<Seq<char>>>, from: int) -> Seq<Seq<Seq<char>>> {
    Seq::new(
        7,
        |slot: int|
            if slot < from {
                tables[slot]
            } else {
                Seq::<Seq<char>>::empty()
            },
    )
}

/// Reading the bytes of the tables from slot `from` on gives the tables.
pub proof fn lemma_tables_round_trip(tables: Seq<Seq<Seq<char>>>, from: int, rest: Seq<u8>)
    requires
        0 <= from <= 7,
        tables.len() == 7,
        forall|slot: int| 0 <= slot < 7 ==> (#[trigger] tables[slot]).len() <= 0x7fff_ffff,
        forall|slot: int, i: int|
            0 <= slot < 7 && 0 <= i < tables[slot].len() ==> fits(#[trigger] tables[slot][i]),
    ensures
        parse_tables(tables_before(tables, from), ser_tables(tables, from) + rest, 7 - from)
            == Some((tables, rest)),
    decreases 7 - from,
{
    if from == 7 {
        assert(ser_tables(tables, from) + rest =~= rest);
        assert(tables_before(tables, from) =~= tables);
    } else {
        let behind = ser_tables(tables, from + 1) + rest;
        assert(ser_tables(tables, from) + rest =~= ser_table(from, tables[from]) + behind);
        lemma_table_round_trip(tables_before(tables, from), from, tables[from], behind);
        assert(tables_before(tables, from).update(
            from,
            tables_before(tables, from)[from] + tables[from],
        ) =~= tables_before(tables, from + 1)) by {
            assert(Seq::<Seq<char>>::empty() + tables[from] =~= tables[from]);
        }
        lemma_tables_round_trip(tables, from + 1, rest);
    }
}

/// Reading the first fields of an entry gives them back.
pub proof fn lemma_head_round_trip(song: EntryView, e: EntryView, rest: Seq<u8>)
    requires
        fits(e.folder_path),
        fits(e.chart_name),
    ensures
        parse_head(song, ser_head(e) + rest) == Some(
            (
                EntryView {
                    folder_path: e.folder_path,
                    chart_name: e.chart_name,
                    is_enc: e.is_enc,
                    ..song
                },
                rest,
            ),
        ),
{
    let r4 = ser_bool(e.is_enc) + rest;
    let r3 = ser_string(e.chart_name) + r4;
    let r2 = ser_i64(0) + r3;
    let r1 = ser_i64(0) + r2;
    let s = ser_head(e) + rest;
    assert(s == ser_string(e.folder_path) + r1) by {
        let x1 = ser_string(e.folder_path);
        let x2 = x1 + ser_i64(0);
        let x3 = x2 + ser_i64(0);
        let x4 = x3 + ser_string(e.chart_name);
        lemma_concat_assoc(x4, ser_bool(e.is_enc), rest);
        lemma_concat_assoc(x3, ser_string(e.chart_name), r4);
        lemma_concat_assoc(x2, ser_i64(0), r3);
        lemma_concat_assoc(x1, ser_i64(0), r2);
    }
    assert(parse_string(s) == Some((e.folder_path, r1))) by {
        lemma_string_round_trip(e.folder_path, r1);
    }
    assert(parse_i64(r1) == Some((0i64, r2))) by {
        lemma_i64_round_trip(0, r2);
    }
    assert(parse_i64(r2) == Some((0i64, r3))) by {
        lemma_i64_round_trip(0, r3);
    }
    assert(parse_string(r3) == Some((e.chart_name, r4))) by {
        lemma_string_round_trip(e.chart_name, r4);
    }
    assert(parse_bool(r4) == Some((e.is_enc, rest))) by {
        lemma_bool_round_trip(e.is_enc, rest);
    }
    reveal(parse_head);
}

/// `song` with the metadata of `e` in the slots before `from`.
pub open spec fn with_metadata_before(song: EntryView, e: EntryView, from: int) -> EntryView {
    EntryView {
        metadata: Seq::new(
            7,
            |slot: int|
                if slot < from {
                    e.metadata[slot]
                } else {
                    song.metadata[slot]
                },
        ),
        ..song
    }
}

/// Reading the indices of an entry's metadata gives the metadata back,
/// where each table holds the entry's value.
pub proof fn lemma_indices_round_trip(
    song: EntryView,
    e: EntryView,
    tables: Seq<Seq<Seq<char>>>,
    from: int,
    rest: Seq<u8>,
)
    requires
        0 <= from <= 7,
        song.metadata.len() == 7,
        e.metadata.len() == 7,
        tables.len() == 7,
        forall|slot: int| 0 <= slot < 7 ==> (#[trigger] tables[slot]).len() <= 0x7fff_ffff,
        forall|slot: int|
            0 <= slot < 7 ==> position(#[trigger] tables[slot], e.metadata[slot])
                < tables[slot].len(),
    ensures
        parse_indices(
            with_metadata_before(song, e, from),
            tables,
            ser_indices(e, tables, from) + rest,
            from,
        ) == Some((with_metadata_before(song, e, 7), rest)),
    decreases 7 - from,
{
    if from == 7 {
        assert(ser_indices(e, tables, from) + rest =~= rest);
    } else {
        let at = position(tables[from], e.metadata[from]);
        lemma_position(tables[from], e.metadata[from]);
        let behind = ser_indices(e, tables, from + 1) + rest;
        assert(ser_indices(e, tables, from) + rest =~= ser_i32(at as i32) + behind);
        lemma_i32_round_trip(at as i32, behind);
        assert(with_metadata(with_metadata_before(song, e, from), from, tables[from][at]).metadata
            =~= with_metadata_before(song, e, from + 1).metadata);
        lemma_indices_round_trip(song, e, tables, from + 1, rest);
    }
}

/// The intensities that are read from the nine bytes of ten intensities are
/// those ten, where the guitar-coop intensity is 0.
pub proof fn lemma_intensities_round_trip(v: Seq<i8>)
    requires
        v.len() == 10,
        v[3] == 0,
    ensures
        intensities_of(ser_intensities(v)) == v,
        ser_intensities(v).len() == 9,
{
    assert(intensities_of(ser_intensities(v)) =~= v);
}

/// Reading charts, lyrics flag, intensities and preview start gives them back.
pub proof fn lemma_body_round_trip(song: EntryView, e: EntryView, rest: Seq<u8>)
    requires
        e.intensities.len() == 10,
        e.intensities[3] == 0,
    ensures
        parse_body(song, ser_body(e) + rest) == Some(
            (
                EntryView {
                    charts: e.charts,
                    lyrics: e.lyrics,
                    intensities: e.intensities,
                    preview_start: e.preview_start,
                    ..song
                },
                rest,
            ),
        ),
{
    let r3 = ser_i32(e.preview_start) + rest;
    let r2 = ser_intensities(e.intensities) + r3;
    let r1 = ser_bool(e.lyrics) + r2;
    let s = ser_body(e) + rest;
    assert(s == ser_i64(e.charts) + r1) by {
        let x1 = ser_i64(e.charts);
        let x2 = x1 + ser_bool(e.lyrics);
        let x3 = x2 + ser_intensities(e.intensities);
        lemma_concat_assoc(x3, ser_i32(e.preview_start), rest);
        lemma_concat_assoc(x2, ser_intensities(e.intensities), r3);
        lemma_concat_assoc(x1, ser_bool(e.lyrics), r2);
    }
    assert(parse_i64(s) == Some((e.charts, r1))) by {
        lemma_i64_round_trip(e.charts, r1);
    }
    assert(parse_bool(r1) == Some((e.lyrics, r2))) by {
        lemma_bool_round_trip(e.lyrics, r2);
    }
    assert(parse_bytes(r2, 9) == Some((ser_intensities(e.intensities), r3))) by {
        assert(r2.take(9) =~= ser_intensities(e.intensities));
        assert(r2.skip(9) =~= r3);
    }
    assert(intensities_of(ser_intensities(e.intensities)) == e.intensities) by {
        lemma_intensities_round_trip(e.intensities);
    }
    assert(parse_i32(r3) == Some((e.preview_start, rest))) by {
        lemma_i32_round_trip(e.preview_start, rest);
    }
    reveal(parse_body);
}

/// Reading icon, track numbers and the first two flags gives them back.
pub proof fn lemma_tracks_round_trip(song: EntryView, e: EntryView, rest: Seq<u8>)
    requires
        fits(e.icon_name),
    ensures
        parse_tracks(song, ser_tracks(e) + rest) == Some(
            (
                EntryView {
                    icon_name: e.icon_name,
                    album_track: e.album_track,
                    playlist_track: e.playlist_track,
                    modchart: e.modchart,
                    video_background: e.video_background,
                    ..song
                },
                rest,
            ),
        ),
{
    let r4 = ser_bool(e.video_background) + rest;
    let r3 = ser_bool(e.modchart) + r4;
    let r2 = ser_i16(e.playlist_track) + r3;
    let r1 = ser_i16(e.album_track) + r2;
    let s = ser_tracks(e) + rest;
    assert(s == ser_string(e.icon_name) + r1) by {
        let x1 = ser_string(e.icon_name);
        let x2 = x1 + ser_i16(e.album_track);
        let x3 = x2 + ser_i16(e.playlist_track);
        let x4 = x3 + ser_bool(e.modchart);
        lemma_concat_assoc(x4, ser_bool(e.video_background), rest);
        lemma_concat_assoc(x3, ser_bool(e.modchart), r4);
        lemma_concat_assoc(x2, ser_i16(e.playlist_track), r3);
        lemma_concat_assoc(x1, ser_i16(e.album_track), r2);
    }
    assert(parse_string(s) == Some((e.icon_name, r1))) by {
        lemma_string_round_trip(e.icon_name, r1);
    }
    assert(parse_i16(r1) == Some((e.album_track, r2))) by {
        lemma_i16_round_trip(e.album_track, r2);
    }
    assert(parse_i16(r2) == Some((e.playlist_track, r3))) by {
        lemma_i16_round_trip(e.playlist_track, r3);
    }
    assert(parse_bool(r3) == Some((e.modchart, r4))) by {
        lemma_bool_round_trip(e.modchart, r4);
    }
    assert(parse_bool(r4) == Some((e.video_background, rest))) by {
        lemma_bool_round_trip(e.video_background, rest);
    }
    reveal(parse_tracks);
}

/// Reading the drum flags, the length and the date gives them back.
pub proof fn lemma_times_round_trip(song: EntryView, e: EntryView, rest: Seq<u8>)
    ensures
        parse_times(song, ser_times(e) + rest) == Some(
            (
                EntryView {
                    force_pro_drums: e.force_pro_drums,
                    force_five_lane: e.force_five_lane,
                    song_length: e.song_length,
                    date_added: e.date_added,
                    ..song
                },
                rest,
            ),
        ),
{
    let r3 = ser_i64(e.date_added) + rest;
    let r2 = ser_i32(e.song_length) + r3;
    let r1 = ser_bool(e.force_five_lane) + r2;
    let s = ser_times(e) + rest;
    assert(s == ser_bool(e.force_pro_drums) + r1) by {
        let x1 = ser_bool(e.force_pro_drums);
        let x2 = x1 + ser_bool(e.force_five_lane);
        let x3 = x2 + ser_i32(e.song_length);
        lemma_concat_assoc(x3, ser_i64(e.date_added), rest);
        lemma_concat_assoc(x2, ser_i32(e.song_length), r3);
        lemma_concat_assoc(x1, ser_bool(e.force_five_lane), r2);
    }
    assert(parse_bool(s) == Some((e.force_pro_drums, r1))) by {
        lemma_bool_round_trip(e.force_pro_drums, r1);
    }
    assert(parse_bool(r1) == Some((e.force_five_lane, r2))) by {
        lemma_bool_round_trip(e.force_five_lane, r2);
    }
    assert(parse_i32(r2) == Some((e.song_length, r3))) by {
        lemma_i32_round_trip(e.song_length, r3);
    }
    assert(parse_i64(r3) == Some((e.date_added, rest))) by {
        lemma_i64_round_trip(e.date_added, rest);
    }
    reveal(parse_times);
}

/// Reading the playlists and the checksum gives them back.
pub proof fn lemma_lists_round_trip(song: EntryView, e: EntryView, rest: Seq<u8>)
    requires
        fits(e.top_level_playlist),
        fits(e.sub_playlist),
        e.checksum.len() == 16,
    ensures
        parse_lists(song, ser_lists(e) + rest) == Some(
            (
                EntryView {
                    top_level_playlist: e.top_level_playlist,
                    sub_playlist: e.sub_playlist,
                    checksum: e.checksum,
                    ..song
                },
                rest,
            ),
        ),
{
    let r2 = e.checksum + rest;
    let r1 = ser_string(e.sub_playlist) + r2;
    let s = ser_lists(e) + rest;
    assert(s == ser_string(e.top_level_playlist) + r1) by {
        let x1 = ser_string(e.top_level_playlist);
        let x2 = x1 + ser_string(e.sub_playlist);
        lemma_concat_assoc(x2, e.checksum, rest);
        lemma_concat_assoc(x1, ser_string(e.sub_playlist), r2);
    }
    assert(parse_string(s) == Some((e.top_level_playlist, r1))) by {
        lemma_string_round_trip(e.top_level_playlist, r1);
    }
    assert(parse_string(r1) == Some((e.sub_playlist, r2))) by {
        lemma_string_round_trip(e.sub_playlist, r2);
    }
    assert(parse_bytes(r2, 16) == Some((e.checksum, rest))) by {
        assert(r2.take(16) =~= e.checksum);
        assert(r2.skip(16) =~= rest);
    }
    reveal(parse_lists);
}

/// Reading the fields of the cloud profile gives them back.
pub proof fn lemma_cloud_round_trip(song: EntryView, e: EntryView, rest: Seq<u8>)
    requires
        e.audio_files.len() <= 127,
        forall|i: int| 0 <= i < e.audio_files.len() ==> fits(#[trigger] e.audio_files[i]),
        fits(e.album_art_name),
        fits(e.image_background_name),
        fits(e.video_background_name),
    ensures
        parse_cloud(song, ser_cloud(e) + rest) == Some(
            (
                EntryView {
                    audio_files: e.audio_files,
                    album_art_name: e.album_art_name,
                    image_background: e.image_background,
                    image_background_name: e.image_background_name,
                    video_background_name: e.video_background_name,
                    ..song
                },
                rest,
            ),
        ),
{
    let count = e.audio_files.len() as i8;
    let r5 = ser_string(e.video_background_name) + rest;
    let r4 = ser_string(e.image_background_name) + r5;
    let r3 = ser_bool(e.image_background) + r4;
    let r2 = ser_string(e.album_art_name) + r3;
    let r1 = ser_strings(e.audio_files) + r2;
    let s = ser_cloud(e) + rest;
    assert(s == ser_i8(count) + r1) by {
        let x1 = ser_i8(count);
        let x2 = x1 + ser_strings(e.audio_files);
        let x3 = x2 + ser_string(e.album_art_name);
        let x4 = x3 + ser_bool(e.image_background);
        let x5 = x4 + ser_string(e.image_background_name);
        lemma_concat_assoc(x5, ser_string(e.video_background_name), rest);
        lemma_concat_assoc(x4, ser_string(e.image_background_name), r5);
        lemma_concat_assoc(x3, ser_bool(e.image_background), r4);
        lemma_concat_assoc(x2, ser_string(e.album_art_name), r3);
        lemma_concat_assoc(x1, ser_strings(e.audio_files), r2);
    }
    assert(parse_i8(s) == Some((count, r1))) by {
        lemma_i8_round_trip(count, r1);
    }
    assert(parse_strings(r1, count as int) == Some((e.audio_files, r2))) by {
        lemma_strings_round_trip(e.audio_files, r2);
    }
    assert(parse_string(r2) == Some((e.album_art_name, r3))) by {
        lemma_string_round_trip(e.album_art_name, r3);
    }
    assert(parse_bool(r3) == Some((e.image_background, r4))) by {
        lemma_bool_round_trip(e.image_background, r4);
    }
    assert(parse_string(r4) == Some((e.image_background_name, r5))) by {
        lemma_string_round_trip(e.image_background_name, r5);
    }
    assert(parse_string(r5) == Some((e.video_background_name, rest))) by {
        lemma_string_round_trip(e.video_background_name, rest);
    }
    reveal(parse_cloud);
}

/// Whether each of the seven tables holds the entry's value of its slot,
/// and is not longer than a 32-bit count can say.
pub open spec fn tables_hold(tables: Seq<Seq<Seq<char>>>, e: EntryView) -> bool {
    &&& tables.len() == 7
    &&& forall|slot: int| 0 <= slot < 7 ==> (#[trigger] tables[slot]).len() <= 0x7fff_ffff
    &&& forall|slot: int|
        0 <= slot < 7 ==> position(#[trigger] tables[slot], e.metadata[slot]) < tables[slot].len()
}

/// Whether an entry is read back as it was written into a file with the
/// given tables.
#[verifier::opaque]
pub open spec fn readable(e: EntryView, tables: Seq<Seq<Seq<char>>>, cloud_format: bool) -> bool {
    faithful(e, cloud_format) && tables_hold(tables, e)
}

/// Reading the bytes of an entry gives the entry back.
pub proof fn lemma_entry_round_trip(
    e: EntryView,
    tables: Seq<Seq<Seq<char>>>,
    cloud_format: bool,
    rest: Seq<u8>,
)
    requires
        readable(e, tables, cloud_format),
    ensures
        parse_entry(tables, cloud_format, ser_entry(e, tables, cloud_format) + rest) == Some(
            (e, rest),
        ),
{
    let r6 = if cloud_format {
        ser_cloud(e) + rest
    } else {
        rest
    };
    let r5 = ser_lists(e) + r6;
    let r4 = ser_times(e) + r5;
    let r3 = ser_tracks(e) + r4;
    let r2 = ser_body(e) + r3;
    let r1 = ser_indices(e, tables, 0) + r2;
    let s = ser_entry(e, tables, cloud_format) + rest;
    assert(s == ser_head(e) + r1) by {
        reveal(ser_entry);
        let last = if cloud_format {
            ser_cloud(e)
        } else {
            Seq::<u8>::empty()
        };
        let x1 = ser_head(e);
        let x2 = x1 + ser_indices(e, tables, 0);
        let x3 = x2 + ser_body(e);
        let x4 = x3 + ser_tracks(e);
        let x5 = x4 + ser_times(e);
        let x6 = x5 + ser_lists(e);
        assert(last + rest == r6) by {
            assert(Seq::<u8>::empty() + rest =~= rest);
        }
        lemma_concat_assoc(x6, last, rest);
        lemma_concat_assoc(x5, ser_lists(e), r6);
        lemma_concat_assoc(x4, ser_times(e), r5);
        lemma_concat_assoc(x3, ser_tracks(e), r4);
        lemma_concat_assoc(x2, ser_body(e), r3);
        lemma_concat_assoc(x1, ser_indices(e, tables, 0), r2);
    }
    let s0 = default_entry();
    let s1 = EntryView {
        folder_path: e.folder_path,
        chart_name: e.chart_name,
        is_enc: e.is_enc,
        ..s0
    };
    let s2 = EntryView { metadata: e.metadata, ..s1 };
    let s3 = EntryView {
        charts: e.charts,
        lyrics: e.lyrics,
        intensities: e.intensities,
        preview_start: e.preview_start,
        ..s2
    };
    let s4 = EntryView {
        icon_name: e.icon_name,
        album_track: e.album_track,
        playlist_track: e.playlist_track,
        modchart: e.modchart,
        video_background: e.video_background,
        ..s3
    };
    let s5 = EntryView {
        force_pro_drums: e.force_pro_drums,
        force_five_lane: e.force_five_lane,
        song_length: e.song_length,
        date_added: e.date_added,
        ..s4
    };
    let s6 = EntryView {
        top_level_playlist: e.top_level_playlist,
        sub_playlist: e.sub_playlist,
        checksum: e.checksum,
        ..s5
    };
    assert(parse_head(s0, s) == Some((s1, r1))) by {
        reveal(readable);
        lemma_head_round_trip(s0, e, r1);
    }
    assert(parse_indices(s1, tables, r1, 0) == Some((s2, r2))) by {
        reveal(readable);
        assert(with_metadata_before(s1, e, 0).metadata =~= s1.metadata);
        assert(with_metadata_before(s1, e, 0) == s1);
        lemma_indices_round_trip(s1, e, tables, 0, r2);
        assert(with_metadata_before(s1, e, 7).metadata =~= e.metadata);
    }
    assert(parse_body(s2, r2) == Some((s3, r3))) by {
        reveal(readable);
        lemma_body_round_trip(s2, e, r3);
    }
    assert(parse_tracks(s3, r3) == Some((s4, r4))) by {
        reveal(readable);
        lemma_tracks_round_trip(s3, e, r4);
    }
    assert(parse_times(s4, r4) == Some((s5, r5))) by {
        lemma_times_round_trip(s4, e, r5);
    }
    assert(parse_lists(s5, r5) == Some((s6, r6))) by {
        reveal(readable);
        lemma_lists_round_trip(s5, e, r6);
    }
    if cloud_format {
        assert(parse_cloud(s6, r6) == Some((e, rest))) by {
            reveal(readable);
            lemma_cloud_round_trip(s6, e, rest);
        }
    } else {
        assert(s6 == e) by {
            reveal(readable);
        }
    }
    reveal(parse_entry);
}

/// Reading the bytes of a list of entries gives the list back.
pub proof fn lemma_entries_round_trip(
    entries: Seq<EntryView>,
    tables: Seq<Seq<Seq<char>>>,
    cloud_format: bool,
    rest: Seq<u8>,
)
    requires
        forall|i: int| 0 <= i < entries.len() ==> readable(#[trigger] entries[i], tables, cloud_format),
    ensures
        parse_entries(
            tables,
            cloud_format,
            ser_entries(entries, tables, cloud_format) + rest,
            entries.len() as int,
        ) == Some((entries, rest)),
    decreases entries.len(),
{
    if entries.len() == 0 {
        assert(ser_entries(entries, tables, cloud_format) + rest =~= rest);
        assert(entries =~= Seq::<EntryView>::empty());
    } else {
        let tail = entries.drop_first();
        let behind = ser_entries(tail, tables, cloud_format) + rest;
        assert(ser_entries(entries, tables, cloud_format) + rest =~= ser_entry(
            entries[0],
            tables,
            cloud_format,
        ) + behind);
        assert(readable(entries[0], tables, cloud_format));
        lemma_entry_round_trip(entries[0], tables, cloud_format, behind);
        assert forall|i: int| 0 <= i < tail.len() implies readable(
            #[trigger] tail[i],
            tables,
            cloud_format,
        ) by {
            assert(tail[i] == entries[i + 1]);
        }
        lemma_entries_round_trip(tail, tables, cloud_format, rest);
        assert(seq![entries[0]] + tail =~= entries);
    }
}

/// Every text of the table of a slot is the value of an entry in that slot.
pub proof fn lemma_table_values(entries: Seq<EntryView>, slot: int)
    ensures
        forall|k: int|
            0 <= k < table_of(entries, slot).len() ==> exists|i: int|
                0 <= i < entries.len() && entries[i].metadata[slot] == #[trigger] table_of(
                    entries,
                    slot,
                )[k],
{
    lemma_interning(entries, slot);
    let table = table_of(entries, slot);
    let values = values_of(entries, slot);
    assert forall|k: int| 0 <= k < table.len() implies exists|i: int|
        0 <= i < entries.len() && entries[i].metadata[slot] == #[trigger] table[k] by {
        let i = position(values, table[k]);
        lemma_position(values, table[k]);
        assert(values[i] == table[k]);
        assert(entries[i].metadata[slot] == table[k]);
    }
}

/// A cache file written from a list of entries is read back as that list,
/// with the MD5 of the entries' checksums as its checksum: for every list of
/// entries that can be written, whose guitar-coop intensities are 0, and
/// which outside the cloud profile hold nothing in the fields of that profile.
pub proof fn lemma_round_trip(entries: Seq<EntryView>, cloud_format: bool)
    requires
        all_faithful(entries, cloud_format),
    ensures
        parse_cache(ser_cache(entries, cloud_format), cloud_format) == Ok::<CacheView, ReadError>(
            CacheView { checksum: md5_digest(checksums_of(entries))@, entries },
        ),
{
    let tables = tables_of(entries);
    let digest = md5_digest(checksums_of(entries))@;
    let empty = Seq::<u8>::empty();
    let r3 = ser_entries(entries, tables, cloud_format) + empty;
    let r2 = ser_i32(entries.len() as i32) + r3;
    let r1 = ser_tables(tables, 0) + r2;
    let r0 = digest + r1;
    assert(ser_cache(entries, cloud_format) =~= ser_i32(VERSION) + r0);
    lemma_i32_round_trip(VERSION, r0);
    assert(digest.len() == 16);
    assert(r0.take(16) =~= digest);
    assert(r0.skip(16) =~= r1);
    assert forall|slot: int| 0 <= slot < 7 implies (#[trigger] tables[slot]).len() <= 0x7fff_ffff
        && (forall|i: int| 0 <= i < tables[slot].len() ==> fits(#[trigger] tables[slot][i])) by {
        lemma_interning(entries, slot);
        lemma_table_values(entries, slot);
        assert forall|i: int| 0 <= i < tables[slot].len() implies fits(
            #[trigger] tables[slot][i],
        ) by {
            let j = choose|j: int|
                0 <= j < entries.len() && entries[j].metadata[slot] == table_of(entries, slot)[i];
            assert(storable(entries[j], cloud_format));
            assert(fits(entries[j].metadata[slot]));
        }
    }
    assert(tables_before(tables, 0) =~= empty_tables());
    lemma_tables_round_trip(tables, 0, r2);
    lemma_i32_round_trip(entries.len() as i32, r3);
    assert forall|i: int| 0 <= i < entries.len() implies readable(
        #[trigger] entries[i],
        tables,
        cloud_format,
    ) by {
        reveal(readable);
        assert forall|slot: int| 0 <= slot < 7 implies position(
            #[trigger] tables[slot],
            entries[i].metadata[slot],
        ) < tables[slot].len() by {
            lemma_interning(entries, slot);
        }
    }
    lemma_entries_round_trip(entries, tables, cloud_format, empty);
}

/// A cache file begins with the version and, behind it, the MD5 of the
/// entries' checksums put one after the other.
pub proof fn lemma_header(entries: Seq<EntryView>, cloud_format: bool)
    ensures
        ser_cache(entries, cloud_format).len() >= 20,
        ser_cache(entries, cloud_format).subrange(0, 4) == ser_i32(VERSION),
        ser_cache(entries, cloud_format).subrange(4, 20) == md5_digest(checksums_of(entries))@,
{
    lemma_pow256();
    lemma_int_round_trip(VERSION as int, 4, Seq::empty());
    let digest = md5_digest(checksums_of(entries))@;
    let bytes = ser_cache(entries, cloud_format);
    assert(ser_i32(VERSION).len() == 4);
    assert(digest.len() == 16);
    assert(bytes.subrange(0, 4) =~= ser_i32(VERSION));
    assert(bytes.subrange(4, 20) =~= digest);
}

/// The bytes of a cache file are settled by the records alone: two lists
/// that hold the same records in the same order give the same file.
pub proof fn lemma_same_entries_same_bytes(
    first: Seq<EntryView>,
    second: Seq<EntryView>,
    cloud_format: bool,
)
    requires
        first.len() == second.len(),
        forall|i: int| 0 <= i < first.len() ==> first[i] == second[i],
    ensures
        ser_cache(first, cloud_format) == ser_cache(second, cloud_format),
{
    assert(first =~= second);
}


/// The intensities stand in an entry behind charts and lyrics flag, as nine
/// bytes in the order of the slots 8, 0, 2, 1, 6, 9, 7, 4, 5.
pub proof fn lemma_intensity_block(e: EntryView)
    ensures
        ser_body(e).len() == 22,
        ser_body(e).subrange(9, 18) == ser_intensities(e.intensities),
        ser_intensities(e.intensities) == seq![
            byte_of(e.intensities[8]),
            byte_of(e.intensities[0]),
            byte_of(e.intensities[2]),
            byte_of(e.intensities[1]),
            byte_of(e.intensities[6]),
            byte_of(e.intensities[9]),
            byte_of(e.intensities[7]),
            byte_of(e.intensities[4]),
            byte_of(e.intensities[5]),
        ],
{
    lemma_pow256();
    lemma_int_round_trip(e.charts as int, 8, Seq::empty());
    lemma_int_round_trip(e.preview_start as int, 4, Seq::empty());
    assert(ser_intensities(e.intensities).len() == 9);
    assert(ser_body(e).subrange(9, 18) =~= ser_intensities(e.intensities));
    assert(ser_intensities(e.intensities) =~= seq![
        byte_of(e.intensities[8]),
        byte_of(e.intensities[0]),
        byte_of(e.intensities[2]),
        byte_of(e.intensities[1]),
        byte_of(e.intensities[6]),
        byte_of(e.intensities[9]),
        byte_of(e.intensities[7]),
        byte_of(e.intensities[4]),
        byte_of(e.intensities[5]),
    ]);
}

} // verus!
