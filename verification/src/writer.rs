//! Writing a cache file.

use crate::cache::{
    all_storable, checksums_of, interned, position, ser_body, ser_cache, ser_cloud, ser_entries,
    ser_entry, ser_head, ser_indices, ser_intensities, ser_lists, ser_strings, ser_table,
    ser_tables, ser_times, ser_tracks, storable, table_of, tables_of,
};
use crate::entry::{entry_views, EntryView, SongEntry};
use crate::hash::md5_of;
use crate::text::string_views;
use crate::wire::{
    fits, put_bool, put_bytes, put_i16, put_i32, put_i64, put_i8, put_string, string_fits,
};
use crate::VERSION;
use vstd::prelude::*;

verus! {

/// Why a list of entries was not written.
#[derive(Clone, Copy, Debug, PartialEq, Eq, Structural)]
pub enum WriteError {
    /// A text, the list itself, or in the cloud profile a list of audio
    /// files is longer than the format can say.
    TooLarge,
}

/// The tables that a sequence of vectors of strings holds.
pub open spec fn table_views(tables: Seq<Vec<String>>) -> Seq<Seq<Seq<char>>> {
    Seq::new(tables.len(), |slot: int| string_views(tables[slot]@))
}

fn position_of(table: &Vec<String>, value: &String) -> (at: usize)
    ensures
        at == position(string_views(table@), value@),
        at <= table@.len(),
{
    let ghost all = string_views(table@);
    let mut i: usize = 0;
    assert(all.skip(0) =~= all);
    while i < table.len() && table[i] != *value
        invariant
            i <= table.len(),
            all == string_views(table@),
            i + position(all.skip(i as int), value@) == position(all, value@),
        decreases table.len() - i,
    {
        assert(all.skip(i as int).drop_first() =~= all.skip(i + 1));
        assert(all.skip(i as int)[0] == table@[i as int]@);
        i += 1;
    }
    proof {
        if i < table.len() {
            assert(all.skip(i as int)[0] == table@[i as int]@);
        }
    }
    i
}

fn build_table(list: &Vec<SongEntry>, slot: usize) -> (table: Vec<String>)
    requires
        slot < 7,
    ensures
        string_views(table@) == table_of(entry_views(list@), slot as int),
{
    let ghost all = entry_views(list@);
    let mut table: Vec<String> = Vec::new();
    let mut i: usize = 0;
    assert(string_views(table@) =~= Seq::<Seq<char>>::empty());
    assert(all.take(0) =~= Seq::<EntryView>::empty());
    while i < list.len()
        invariant
            i <= list.len(),
            slot < 7,
            all == entry_views(list@),
            string_views(table@) == table_of(all.take(i as int), slot as int),
        decreases list.len() - i,
    {
        assert(all.take(i + 1).drop_last() =~= all.take(i as int));
        assert(all.take(i + 1).last() == list@[i as int]@);
        let value = &list[i].metadata[slot];
        assert(value@ == list@[i as int]@.metadata[slot as int]);
        if position_of(&table, value) >= table.len() {
            let ghost before = string_views(table@);
            table.push(value.clone());
            assert(string_views(table@) =~= before.push(value@));
        }
        i += 1;
    }
    assert(all.take(list@.len() as int) =~= all);
    table
}

fn build_tables(list: &Vec<SongEntry>) -> (tables: Vec<Vec<String>>)
    ensures
        tables@.len() == 7,
        table_views(tables@) == tables_of(entry_views(list@)),
{
    let mut tables: Vec<Vec<String>> = Vec::new();
    let mut slot: usize = 0;
    while slot < 7
        invariant
            slot <= 7,
            tables@.len() == slot,
            forall|j: int|
                0 <= j < slot ==> string_views(#[trigger] tables@[j]@) == table_of(
                    entry_views(list@),
                    j,
                ),
        decreases 7 - slot,
    {
        tables.push(build_table(list, slot));
        slot += 1;
    }
    assert(table_views(tables@) =~= tables_of(entry_views(list@)));
    tables
}

fn all_checksums(list: &Vec<SongEntry>) -> (bytes: Vec<u8>)
    ensures
        bytes@ == checksums_of(entry_views(list@)),
{
    let ghost all = entry_views(list@);
    let mut bytes: Vec<u8> = Vec::new();
    let mut i: usize = 0;
    assert(all.take(0) =~= Seq::<EntryView>::empty());
    while i < list.len()
        invariant
            i <= list.len(),
            all == entry_views(list@),
            bytes@ == checksums_of(all.take(i as int)),
        decreases list.len() - i,
    {
        assert(all.take(i + 1).drop_last() =~= all.take(i as int));
        assert(all.take(i + 1).last() == list@[i as int]@);
        put_bytes(&mut bytes, list[i].checksum.as_slice());
        i += 1;
    }
    assert(all.take(list@.len() as int) =~= all);
    bytes
}

fn all_fit(items: &Vec<String>) -> (yes: bool)
    ensures
        yes == (forall|i: int| 0 <= i < items@.len() ==> fits(#[trigger] string_views(items@)[i])),
{
    let mut i: usize = 0;
    while i < items.len()
        invariant
            i <= items.len(),
            forall|j: int| 0 <= j < i ==> fits(#[trigger] string_views(items@)[j]),
        decreases items.len() - i,
    {
        if !string_fits(items[i].as_str()) {
            assert(!fits(string_views(items@)[i as int]));
            return false;
        }
        i += 1;
    }
    true
}

fn can_store(song: &SongEntry, cloud_format: bool) -> (yes: bool)
    ensures
        yes == storable(song@, cloud_format),
{
    if !(string_fits(song.folder_path.as_str()) && string_fits(song.chart_name.as_str())
        && string_fits(song.icon_name.as_str()) && string_fits(song.top_level_playlist.as_str())
        && string_fits(song.sub_playlist.as_str())) {
        return false;
    }
    let mut slot: usize = 0;
    while slot < 7
        invariant
            slot <= 7,
            forall|j: int| 0 <= j < slot ==> fits(#[trigger] song@.metadata[j]),
        decreases 7 - slot,
    {
        if !string_fits(song.metadata[slot].as_str()) {
            assert(!fits(song@.metadata[slot as int]));
            return false;
        }
        slot += 1;
    }
    if cloud_format {
        assert(song@.audio_files =~= string_views(song.audio_files@));
        song.audio_files.len() <= 127 && all_fit(&song.audio_files) && string_fits(
            song.album_art_name.as_str(),
        ) && string_fits(song.image_background_name.as_str()) && string_fits(
            song.video_background_name.as_str(),
        )
    } else {
        true
    }
}

fn can_store_all(list: &Vec<SongEntry>, cloud_format: bool) -> (yes: bool)
    ensures
        yes == all_storable(entry_views(list@), cloud_format),
{
    if list.len() > 0x7fff_ffff {
        return false;
    }
    let mut i: usize = 0;
    while i < list.len()
        invariant
            i <= list.len(),
            forall|j: int| 0 <= j < i ==> storable(#[trigger] entry_views(list@)[j], cloud_format),
        decreases list.len() - i,
    {
        if !can_store(&list[i], cloud_format) {
            assert(!storable(entry_views(list@)[i as int], cloud_format));
            return false;
        }
        i += 1;
    }
    true
}

fn put_strings(out: &mut Vec<u8>, items: &Vec<String>)
    ensures
        final(out)@ == old(out)@ + ser_strings(string_views(items@)),
{
    let ghost all = string_views(items@);
    let mut i: usize = 0;
    assert(all.skip(0) =~= all);
    while i < items.len()
        invariant
            i <= items.len(),
            all == string_views(items@),
            out@ + ser_strings(all.skip(i as int)) == old(out)@ + ser_strings(all),
        decreases items.len() - i,
    {
        let ghost before = out@;
        assert(all.skip(i as int).drop_first() =~= all.skip(i + 1));
        assert(all.skip(i as int)[0] == items@[i as int]@);
        put_string(out, items[i].as_str());
        assert(out@ + ser_strings(all.skip(i + 1)) =~= before + ser_strings(all.skip(i as int)));
        i += 1;
    }
    assert(out@ + Seq::<u8>::empty() =~= out@);
}

fn put_tables(out: &mut Vec<u8>, tables: &Vec<Vec<String>>)
    requires
        tables@.len() == 7,
    ensures
        final(out)@ == old(out)@ + ser_tables(table_views(tables@), 0),
{
    let ghost all = table_views(tables@);
    let mut slot: usize = 0;
    while slot < 7
        invariant
            slot <= 7,
            tables@.len() == 7,
            all == table_views(tables@),
            out@ + ser_tables(all, slot as int) == old(out)@ + ser_tables(all, 0),
        decreases 7 - slot,
    {
        let ghost before = out@;
        out.push(slot as u8);
        put_i32(out, tables[slot].len() as i32);
        put_strings(out, &tables[slot]);
        assert(out@ =~= before + ser_table(slot as int, all[slot as int]));
        assert(out@ + ser_tables(all, slot + 1) =~= before + ser_tables(all, slot as int));
        slot += 1;
    }
    assert(out@ + Seq::<u8>::empty() =~= out@);
}

fn put_head(out: &mut Vec<u8>, song: &SongEntry)
    ensures
        final(out)@ == old(out)@ + ser_head(song@),
{
    put_string(out, song.folder_path.as_str());
    put_i64(out, 0);
    put_i64(out, 0);
    put_string(out, song.chart_name.as_str());
    put_bool(out, song.is_enc);
    assert(out@ =~= old(out)@ + ser_head(song@));
}

fn put_indices(out: &mut Vec<u8>, song: &SongEntry, tables: &Vec<Vec<String>>)
    requires
        tables@.len() == 7,
    ensures
        final(out)@ == old(out)@ + ser_indices(song@, table_views(tables@), 0),
{
    let ghost all = table_views(tables@);
    let mut slot: usize = 0;
    while slot < 7
        invariant
            slot <= 7,
            tables@.len() == 7,
            all == table_views(tables@),
            out@ + ser_indices(song@, all, slot as int) == old(out)@ + ser_indices(song@, all, 0),
        decreases 7 - slot,
    {
        let ghost before = out@;
        let at = position_of(&tables[slot], &song.metadata[slot]);
        put_i32(out, at as i32);
        assert(out@ + ser_indices(song@, all, slot + 1) =~= before + ser_indices(
            song@,
            all,
            slot as int,
        ));
        slot += 1;
    }
    assert(out@ + Seq::<u8>::empty() =~= out@);
}

fn put_intensities(out: &mut Vec<u8>, song: &SongEntry)
    ensures
        final(out)@ == old(out)@ + ser_intensities(song@.intensities),
{
    put_i8(out, song.intensities[8]);
    put_i8(out, song.intensities[0]);
    put_i8(out, song.intensities[2]);
    put_i8(out, song.intensities[1]);
    put_i8(out, song.intensities[6]);
    put_i8(out, song.intensities[9]);
    put_i8(out, song.intensities[7]);
    put_i8(out, song.intensities[4]);
    put_i8(out, song.intensities[5]);
    assert(out@ =~= old(out)@ + ser_intensities(song@.intensities));
}

fn put_body(out: &mut Vec<u8>, song: &SongEntry)
    ensures
        final(out)@ == old(out)@ + ser_body(song@),
{
    put_i64(out, song.charts);
    put_bool(out, song.lyrics);
    put_intensities(out, song);
    put_i32(out, song.preview_start);
    assert(out@ =~= old(out)@ + ser_body(song@));
}

fn put_tracks(out: &mut Vec<u8>, song: &SongEntry)
    ensures
        final(out)@ == old(out)@ + ser_tracks(song@),
{
    put_string(out, song.icon_name.as_str());
    put_i16(out, song.album_track);
    put_i16(out, song.playlist_track);
    put_bool(out, song.modchart);
    put_bool(out, song.video_background);
    assert(out@ =~= old(out)@ + ser_tracks(song@));
}

fn put_times(out: &mut Vec<u8>, song: &SongEntry)
    ensures
        final(out)@ == old(out)@ + ser_times(song@),
{
    put_bool(out, song.force_pro_drums);
    put_bool(out, song.force_five_lane);
    put_i32(out, song.song_length);
    put_i64(out, song.date_added);
    assert(out@ =~= old(out)@ + ser_times(song@));
}

fn put_lists(out: &mut Vec<u8>, song: &SongEntry)
    ensures
        final(out)@ == old(out)@ + ser_lists(song@),
{
    put_string(out, song.top_level_playlist.as_str());
    put_string(out, song.sub_playlist.as_str());
    put_bytes(out, song.checksum.as_slice());
    assert(out@ =~= old(out)@ + ser_lists(song@));
}

fn put_cloud(out: &mut Vec<u8>, song: &SongEntry)
    ensures
        final(out)@ == old(out)@ + ser_cloud(song@),
{
    assert(song@.audio_files =~= string_views(song.audio_files@));
    put_i8(out, song.audio_files.len() as i8);
    put_strings(out, &song.audio_files);
    put_string(out, song.album_art_name.as_str());
    put_bool(out, song.image_background);
    put_string(out, song.image_background_name.as_str());
    put_string(out, song.video_background_name.as_str());
    assert(out@ =~= old(out)@ + ser_cloud(song@));
}

fn put_entry(out: &mut Vec<u8>, song: &SongEntry, tables: &Vec<Vec<String>>, cloud_format: bool)
    requires
        tables@.len() == 7,
    ensures
        final(out)@ == old(out)@ + ser_entry(song@, table_views(tables@), cloud_format),
{
    reveal(ser_entry);
    put_head(out, song);
    put_indices(out, song, tables);
    put_body(out, song);
    put_tracks(out, song);
    put_times(out, song);
    put_lists(out, song);
    if cloud_format {
        put_cloud(out, song);
    }
    assert(out@ =~= old(out)@ + ser_entry(song@, table_views(tables@), cloud_format));
}

fn put_entries(
    out: &mut Vec<u8>,
    list: &Vec<SongEntry>,
    tables: &Vec<Vec<String>>,
    cloud_format: bool,
)
    requires
        tables@.len() == 7,
    ensures
        final(out)@ == old(out)@ + ser_entries(
            entry_views(list@),
            table_views(tables@),
            cloud_format,
        ),
{
    let ghost all = entry_views(list@);
    let ghost shown = table_views(tables@);
    let mut i: usize = 0;
    assert(all.skip(0) =~= all);
    while i < list.len()
        invariant
            i <= list.len(),
            tables@.len() == 7,
            all == entry_views(list@),
            shown == table_views(tables@),
            out@ + ser_entries(all.skip(i as int), shown, cloud_format) == old(out)@ + ser_entries(
                all,
                shown,
                cloud_format,
            ),
        decreases list.len() - i,
    {
        let ghost before = out@;
        assert(all.skip(i as int).drop_first() =~= all.skip(i + 1));
        assert(all.skip(i as int)[0] == list@[i as int]@);
        put_entry(out, &list[i], tables, cloud_format);
        assert(out@ + ser_entries(all.skip(i + 1), shown, cloud_format) =~= before + ser_entries(
            all.skip(i as int),
            shown,
            cloud_format,
        ));
        i += 1;
    }
    assert(out@ + Seq::<u8>::empty() =~= out@);
}

/// Appends the cache file of `list` to `f`: version, checksum of the
/// entries' checksums, the tables of interned metadata, the entries. Where
/// an entry cannot be written nothing is appended.
pub fn write_cache(list: Vec<SongEntry>, f: &mut Vec<u8>, cloud_format: bool) -> (done: Result<
    (),
    WriteError,
>)
    ensures
        match done {
            Ok(_) => all_storable(entry_views(list@), cloud_format) && final(f)@ == old(f)@
                + ser_cache(entry_views(list@), cloud_format),
            Err(e) => !all_storable(entry_views(list@), cloud_format) && e == WriteError::TooLarge
                && final(f)@ == old(f)@,
        },
{
    if !can_store_all(&list, cloud_format) {
        return Err(WriteError::TooLarge);
    }
    let tables = build_tables(&list);
    let sums = all_checksums(&list);
    let digest = md5_of(sums.as_slice());
    put_i32(f, VERSION);
    put_bytes(f, digest.as_slice());
    put_tables(f, &tables);
    put_i32(f, list.len() as i32);
    put_entries(f, &list, &tables, cloud_format);
    assert(f@ =~= old(f)@ + ser_cache(entry_views(list@), cloud_format));
    Ok(())
}

} // verus!
