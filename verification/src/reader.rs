//! Reading a cache file.

use crate::cache::{
    empty_tables, intensities_of, parse_body, parse_cache, parse_cloud, parse_contents,
    parse_entries, parse_entry, parse_head, parse_indices, parse_lists, parse_strings, parse_table,
    parse_tables, parse_times, parse_tracks, CacheView, ReadError,
};
use crate::entry::{entry_views, EntryView, SongEntry};
use crate::text::string_views;
use crate::wire::{byte_i8, Reader};
use crate::writer::table_views;
use crate::VERSION;
use vstd::prelude::*;

verus! {

/// What was read from a cache file.
#[derive(Debug, Clone, PartialEq, Eq)]
pub struct Cache {
    /// The 16 bytes after the version: the checksum that the writer put
    /// there. It is handed on as it was found.
    pub checksum: [u8; 16],
    /// The entries, in the order of the file.
    pub entries: Vec<SongEntry>,
}

impl View for Cache {
    type V = CacheView;

    open spec fn view(&self) -> CacheView {
        CacheView { checksum: self.checksum@, entries: entry_views(self.entries@) }
    }
}

/// `found` with `items` in front of the texts in it.
spec fn after_strings(
    items: Seq<Seq<char>>,
    found: Option<(Seq<Seq<char>>, Seq<u8>)>,
) -> Option<(Seq<Seq<char>>, Seq<u8>)> {
    match found {
        Some((others, s)) => Some((items + others, s)),
        None => None,
    }
}

/// `found` with `items` in front of the entries in it.
spec fn after_entries(items: Seq<EntryView>, found: Option<(Seq<EntryView>, Seq<u8>)>)
    -> Option<(Seq<EntryView>, Seq<u8>)> {
    match found {
        Some((others, s)) => Some((items + others, s)),
        None => None,
    }
}

/// Reads `count` strings and puts them at the end of `into`.
fn read_strings(reader: &mut Reader, count: i32, into: &mut Vec<String>) -> (ok: bool)
    requires
        old(reader).wf(),
    ensures
        final(reader).wf(),
        match parse_strings(old(reader).rest(), count as int) {
            Some((items, s)) => ok && string_views(final(into)@) == string_views(old(into)@)
                + items && final(reader).rest() == s,
            None => !ok,
        },
{
    let ghost start = reader.rest();
    let ghost base = string_views(into@);
    let ghost mut read: Seq<Seq<char>> = Seq::empty();
    let mut left: i32 = count;
    assert(base + read =~= base);
    assert(parse_strings(start, count as int) matches Some((items, s)) ==> read + items
        =~= items);
    while left > 0
        invariant
            reader.wf(),
            start == old(reader).rest(),
            base == string_views(old(into)@),
            string_views(into@) == base + read,
            parse_strings(start, count as int) == after_strings(
                read,
                parse_strings(reader.rest(), left as int),
            ),
        decreases left,
    {
        let ghost before = into@;
        match reader.take_string() {
            Some(text) => {
                into.push(text);
                proof {
                    let next = read.push(text@);
                    match parse_strings(reader.rest(), left - 1) {
                        Some((others, s)) => {
                            assert(read + (seq![text@] + others) =~= next + others);
                        },
                        None => {},
                    }
                    assert(into@ == before.push(text));
                    assert(string_views(before).len() == before.len());
                    assert(string_views(into@) =~= string_views(before).push(text@));
                    assert((base + read).push(text@) =~= base + next);
                    read = next;
                }
            },
            None => {
                return false;
            },
        }
        left = left - 1;
    }
    proof {
        assert(read + Seq::<Seq<char>>::empty() =~= read);
    }
    true
}

fn read_table(reader: &mut Reader, tables: &mut Vec<Vec<String>>) -> (ok: bool)
    requires
        old(reader).wf(),
        old(tables)@.len() == 7,
    ensures
        final(reader).wf(),
        final(tables)@.len() == 7,
        match parse_table(table_views(old(tables)@), old(reader).rest()) {
            Some((found, s)) => ok && table_views(final(tables)@) == found && final(reader).rest() == s,
            None => !ok,
        },
{
    let slot = match reader.take_u8() {
        Some(slot) => slot as usize,
        None => {
            return false;
        },
    };
    if slot >= 7 {
        return false;
    }
    let count = match reader.take_i32() {
        Some(count) => count,
        None => {
            return false;
        },
    };
    let ok = read_strings(reader, count, &mut tables[slot]);
    proof {
        if ok {
            let items = parse_strings(old(reader).rest().skip(1).skip(4), count as int).unwrap().0;
            assert(table_views(tables@) =~= table_views(old(tables)@).update(
                slot as int,
                table_views(old(tables)@)[slot as int] + items,
            ));
        }
    }
    ok
}

fn read_tables(reader: &mut Reader) -> (tables: Option<Vec<Vec<String>>>)
    requires
        old(reader).wf(),
    ensures
        final(reader).wf(),
        match parse_tables(empty_tables(), old(reader).rest(), 7) {
            Some((found, s)) => tables matches Some(t) && t@.len() == 7 && table_views(t@)
                == found && final(reader).rest() == s,
            None => tables is None,
        },
{
    let mut tables: Vec<Vec<String>> = Vec::new();
    let mut slot: usize = 0;
    while slot < 7
        invariant
            slot <= 7,
            tables@.len() == slot,
            forall|j: int| 0 <= j < slot ==> (#[trigger] tables@[j])@.len() == 0,
        decreases 7 - slot,
    {
        tables.push(Vec::new());
        slot += 1;
    }
    assert forall|j: int| 0 <= j < 7 implies table_views(tables@)[j] == empty_tables()[j] by {
        assert(string_views(tables@[j]@) =~= Seq::<Seq<char>>::empty());
    }
    assert(table_views(tables@) =~= empty_tables());
    let ghost start = reader.rest();
    let mut n: usize = 0;
    while n < 7
        invariant
            n <= 7,
            reader.wf(),
            tables@.len() == 7,
            start == old(reader).rest(),
            parse_tables(empty_tables(), start, 7) == parse_tables(
                table_views(tables@),
                reader.rest(),
                7 - n,
            ),
        decreases 7 - n,
    {
        if !read_table(reader, &mut tables) {
            return None;
        }
        n += 1;
    }
    Some(tables)
}

fn read_head(reader: &mut Reader, song: &mut SongEntry) -> (ok: bool)
    requires
        old(reader).wf(),
    ensures
        final(reader).wf(),
        match parse_head(old(song)@, old(reader).rest()) {
            Some((found, s)) => ok && final(song)@ == found && final(reader).rest() == s,
            None => !ok,
        },
{
    reveal(parse_head);
    let folder_path = match reader.take_string() {
        Some(v) => v,
        None => {
            return false;
        },
    };
    if reader.take_i64().is_none() {
        return false;
    }
    if reader.take_i64().is_none() {
        return false;
    }
    let chart_name = match reader.take_string() {
        Some(v) => v,
        None => {
            return false;
        },
    };
    let is_enc = match reader.take_bool() {
        Some(v) => v,
        None => {
            return false;
        },
    };
    song.folder_path = folder_path;
    song.chart_name = chart_name;
    song.is_enc = is_enc;
    true
}

fn read_indices(reader: &mut Reader, song: &mut SongEntry, tables: &Vec<Vec<String>>) -> (ok: bool)
    requires
        old(reader).wf(),
        tables@.len() == 7,
    ensures
        final(reader).wf(),
        match parse_indices(old(song)@, table_views(tables@), old(reader).rest(), 0) {
            Some((found, s)) => ok && final(song)@ == found && final(reader).rest() == s,
            None => !ok,
        },
{
    let ghost shown = table_views(tables@);
    let ghost goal = parse_indices(song@, shown, reader.rest(), 0);
    let mut slot: usize = 0;
    while slot < 7
        invariant
            slot <= 7,
            reader.wf(),
            tables@.len() == 7,
            shown == table_views(tables@),
            goal == parse_indices(old(song)@, shown, old(reader).rest(), 0),
            parse_indices(song@, shown, reader.rest(), slot as int) == goal,
        decreases 7 - slot,
    {
        let index = match reader.take_i32() {
            Some(v) => v,
            None => {
                return false;
            },
        };
        if index < 0 || index as usize >= tables[slot].len() {
            return false;
        }
        let value = tables[slot][index as usize].clone();
        assert(value@ == shown[slot as int][index as int]);
        song.set_metadata(slot, value);
        slot += 1;
    }
    true
}

fn read_body(reader: &mut Reader, song: &mut SongEntry) -> (ok: bool)
    requires
        old(reader).wf(),
    ensures
        final(reader).wf(),
        match parse_body(old(song)@, old(reader).rest()) {
            Some((found, s)) => ok && final(song)@ == found && final(reader).rest() == s,
            None => !ok,
        },
{
    reveal(parse_body);
    let charts = match reader.take_i64() {
        Some(v) => v,
        None => {
            return false;
        },
    };
    let lyrics = match reader.take_bool() {
        Some(v) => v,
        None => {
            return false;
        },
    };
    let block = match reader.take_bytes(9) {
        Some(v) => v,
        None => {
            return false;
        },
    };
    let preview_start = match reader.take_i32() {
        Some(v) => v,
        None => {
            return false;
        },
    };
    song.charts = charts;
    song.lyrics = lyrics;
    song.intensities = [
        byte_i8(block[1]),
        byte_i8(block[3]),
        byte_i8(block[2]),
        0,
        byte_i8(block[7]),
        byte_i8(block[8]),
        byte_i8(block[4]),
        byte_i8(block[6]),
        byte_i8(block[0]),
        byte_i8(block[5]),
    ];
    song.preview_start = preview_start;
    assert(song@.intensities =~= intensities_of(block@));
    true
}

fn read_tracks(reader: &mut Reader, song: &mut SongEntry) -> (ok: bool)
    requires
        old(reader).wf(),
    ensures
        final(reader).wf(),
        match parse_tracks(old(song)@, old(reader).rest()) {
            Some((found, s)) => ok && final(song)@ == found && final(reader).rest() == s,
            None => !ok,
        },
{
    reveal(parse_tracks);
    let icon_name = match reader.take_string() {
        Some(v) => v,
        None => {
            return false;
        },
    };
    let album_track = match reader.take_i16() {
        Some(v) => v,
        None => {
            return false;
        },
    };
    let playlist_track = match reader.take_i16() {
        Some(v) => v,
        None => {
            return false;
        },
    };
    let modchart = match reader.take_bool() {
        Some(v) => v,
        None => {
            return false;
        },
    };
    let video_background = match reader.take_bool() {
        Some(v) => v,
        None => {
            return false;
        },
    };
    song.icon_name = icon_name;
    song.album_track = album_track;
    song.playlist_track = playlist_track;
    song.modchart = modchart;
    song.video_background = video_background;
    true
}

fn read_times(reader: &mut Reader, song: &mut SongEntry) -> (ok: bool)
    requires
        old(reader).wf(),
    ensures
        final(reader).wf(),
        match parse_times(old(song)@, old(reader).rest()) {
            Some((found, s)) => ok && final(song)@ == found && final(reader).rest() == s,
            None => !ok,
        },
{
    reveal(parse_times);
    let force_pro_drums = match reader.take_bool() {
        Some(v) => v,
        None => {
            return false;
        },
    };
    let force_five_lane = match reader.take_bool() {
        Some(v) => v,
        None => {
            return false;
        },
    };
    let song_length = match reader.take_i32() {
        Some(v) => v,
        None => {
            return false;
        },
    };
    let date_added = match reader.take_i64() {
        Some(v) => v,
        None => {
            return false;
        },
    };
    song.force_pro_drums = force_pro_drums;
    song.force_five_lane = force_five_lane;
    song.song_length = song_length;
    song.date_added = date_added;
    true
}

fn digest_of(bytes: &[u8]) -> (digest: [u8; 16])
    requires
        bytes@.len() == 16,
    ensures
        digest@ == bytes@,
{
    let mut digest = [0u8; 16];
    let mut i: usize = 0;
    while i < 16
        invariant
            i <= 16,
            bytes@.len() == 16,
            forall|j: int| 0 <= j < i ==> digest@[j] == bytes@[j],
        decreases 16 - i,
    {
        digest[i] = bytes[i];
        i += 1;
    }
    assert(digest@ =~= bytes@);
    digest
}

fn read_lists(reader: &mut Reader, song: &mut SongEntry) -> (ok: bool)
    requires
        old(reader).wf(),
    ensures
        final(reader).wf(),
        match parse_lists(old(song)@, old(reader).rest()) {
            Some((found, s)) => ok && final(song)@ == found && final(reader).rest() == s,
            None => !ok,
        },
{
    reveal(parse_lists);
    let top_level_playlist = match reader.take_string() {
        Some(v) => v,
        None => {
            return false;
        },
    };
    let sub_playlist = match reader.take_string() {
        Some(v) => v,
        None => {
            return false;
        },
    };
    let checksum = match reader.take_bytes(16) {
        Some(v) => v,
        None => {
            return false;
        },
    };
    song.top_level_playlist = top_level_playlist;
    song.sub_playlist = sub_playlist;
    song.checksum = digest_of(checksum);
    true
}

fn read_cloud(reader: &mut Reader, song: &mut SongEntry) -> (ok: bool)
    requires
        old(reader).wf(),
    ensures
        final(reader).wf(),
        match parse_cloud(old(song)@, old(reader).rest()) {
            Some((found, s)) => ok && final(song)@ == found && final(reader).rest() == s,
            None => !ok,
        },
{
    reveal(parse_cloud);
    let count = match reader.take_i8() {
        Some(v) => v,
        None => {
            return false;
        },
    };
    let mut audio_files: Vec<String> = Vec::new();
    assert(string_views(audio_files@) =~= Seq::<Seq<char>>::empty());
    if !read_strings(reader, count as i32, &mut audio_files) {
        return false;
    }
    let album_art_name = match reader.take_string() {
        Some(v) => v,
        None => {
            return false;
        },
    };
    let image_background = match reader.take_bool() {
        Some(v) => v,
        None => {
            return false;
        },
    };
    let image_background_name = match reader.take_string() {
        Some(v) => v,
        None => {
            return false;
        },
    };
    let video_background_name = match reader.take_string() {
        Some(v) => v,
        None => {
            return false;
        },
    };
    proof {
        let items = parse_strings(old(reader).rest().skip(1), count as int).unwrap().0;
        assert(string_views(audio_files@) =~= items);
    }
    song.audio_files = audio_files;
    song.album_art_name = album_art_name;
    song.image_background = image_background;
    song.image_background_name = image_background_name;
    song.video_background_name = video_background_name;
    assert(song@.audio_files =~= string_views(song.audio_files@));
    true
}

fn read_entry(reader: &mut Reader, tables: &Vec<Vec<String>>, cloud_format: bool) -> (entry: Option<
    SongEntry,
>)
    requires
        old(reader).wf(),
        tables@.len() == 7,
    ensures
        final(reader).wf(),
        match parse_entry(table_views(tables@), cloud_format, old(reader).rest()) {
            Some((found, s)) => entry matches Some(song) && song@ == found && final(reader).rest() == s,
            None => entry is None,
        },
{
    reveal(parse_entry);
    let mut song = SongEntry::default();
    if !read_head(reader, &mut song) {
        return None;
    }
    if !read_indices(reader, &mut song, tables) {
        return None;
    }
    if !read_body(reader, &mut song) {
        return None;
    }
    if !read_tracks(reader, &mut song) {
        return None;
    }
    if !read_times(reader, &mut song) {
        return None;
    }
    if !read_lists(reader, &mut song) {
        return None;
    }
    if cloud_format {
        if !read_cloud(reader, &mut song) {
            return None;
        }
    }
    Some(song)
}

fn read_entries(
    reader: &mut Reader,
    tables: &Vec<Vec<String>>,
    cloud_format: bool,
    count: i32,
) -> (entries: Option<Vec<SongEntry>>)
    requires
        old(reader).wf(),
        tables@.len() == 7,
    ensures
        final(reader).wf(),
        match parse_entries(table_views(tables@), cloud_format, old(reader).rest(), count as int) {
            Some((found, s)) => entries matches Some(list) && entry_views(list@) == found
                && final(reader).rest() == s,
            None => entries is None,
        },
{
    let ghost shown = table_views(tables@);
    let ghost start = reader.rest();
    let mut list: Vec<SongEntry> = Vec::new();
    let mut left: i32 = count;
    assert(entry_views(list@) =~= Seq::<EntryView>::empty());
    assert(parse_entries(shown, cloud_format, start, count as int) matches Some((items, s))
        ==> entry_views(list@) + items =~= items);
    while left > 0
        invariant
            reader.wf(),
            tables@.len() == 7,
            shown == table_views(tables@),
            start == old(reader).rest(),
            parse_entries(shown, cloud_format, start, count as int) == after_entries(
                entry_views(list@),
                parse_entries(shown, cloud_format, reader.rest(), left as int),
            ),
        decreases left,
    {
        match read_entry(reader, tables, cloud_format) {
            Some(song) => {
                proof {
                    let read = entry_views(list@);
                    let next = read.push(song@);
                    match parse_entries(shown, cloud_format, reader.rest(), left - 1) {
                        Some((others, s)) => {
                            assert(read + (seq![song@] + others) =~= next + others);
                        },
                        None => {},
                    }
                    assert(entry_views(list@.push(song)) =~= next);
                }
                list.push(song);
            },
            None => {
                return None;
            },
        }
        left = left - 1;
    }
    proof {
        assert(entry_views(list@) + Seq::<EntryView>::empty() =~= entry_views(list@));
    }
    Some(list)
}

fn read_contents(reader: &mut Reader, cloud_format: bool) -> (cache: Option<Cache>)
    requires
        old(reader).wf(),
    ensures
        match parse_contents(old(reader).rest(), cloud_format) {
            Some(found) => cache matches Some(c) && c@ == found,
            None => cache is None,
        },
{
    let checksum = match reader.take_bytes(16) {
        Some(bytes) => digest_of(bytes),
        None => {
            return None;
        },
    };
    let tables = match read_tables(reader) {
        Some(tables) => tables,
        None => {
            return None;
        },
    };
    let count = match reader.take_i32() {
        Some(count) => count,
        None => {
            return None;
        },
    };
    match read_entries(reader, &tables, cloud_format, count) {
        Some(entries) => Some(Cache { checksum, entries }),
        None => None,
    }
}

/// Reads a cache file from its bytes. A file of another version is refused
/// before anything else of it is read; the checksum behind the version is
/// handed on, not checked.
pub fn read_cache(f: &[u8], cloud_format: bool) -> (cache: Result<Cache, ReadError>)
    ensures
        match cache {
            Ok(c) => parse_cache(f@, cloud_format) == Ok::<CacheView, ReadError>(c@),
            Err(e) => parse_cache(f@, cloud_format) == Err::<CacheView, ReadError>(e),
        },
{
    let mut reader = Reader::new(f);
    let found = match reader.take_i32() {
        Some(found) => found,
        None => {
            return Err(ReadError::Format);
        },
    };
    if found != VERSION {
        return Err(ReadError::VersionMismatch { found });
    }
    match read_contents(&mut reader, cloud_format) {
        Some(cache) => Ok(cache),
        None => Err(ReadError::Format),
    }
}

} // verus!
