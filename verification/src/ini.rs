//! The song configuration file: tolerant INI, of which only the `song`
//! section is read.

use crate::entry::{with_intensity, with_metadata, EntryView, SongEntry};
use crate::text::{
    chars_of, file_text, find, find_char, is_text, lines, lowercase, lowered, parse_decimal,
    parse_int, split_at_first, split_lines, split_once, string_from_file, string_of, texts,
    to_lowercase, trim, trimmed,
};
use vstd::slice::slice_subrange;
use vstd::prelude::*;

verus! {

/// The truth value that a word of the configuration stands for, whatever its
/// case: `true`, `yes`, `t`, `y`, `1`, `on`, or `false`, `no`, `f`, `n`, `0`, `off`.
pub open spec fn bool_word(word: Seq<char>) -> Option<bool> {
    let w = lowercase(word);
    if w == "true"@ || w == "yes"@ || w == "t"@ || w == "y"@ || w == "1"@ || w == "on"@ {
        Some(true)
    } else if w == "false"@ || w == "no"@ || w == "f"@ || w == "n"@ || w == "0"@ || w == "off"@ {
        Some(false)
    } else {
        None
    }
}

/// Reads a truth value of the configuration.
pub fn ini_get_bool(v: &str) -> (value: Option<bool>)
    ensures
        value == bool_word(v@),
{
    let lower = to_lowercase(v);
    let w = chars_of(lower.as_str());
    if is_text(&w, "true") || is_text(&w, "yes") || is_text(&w, "t") || is_text(&w, "y")
        || is_text(&w, "1") || is_text(&w, "on") {
        Some(true)
    } else if is_text(&w, "false") || is_text(&w, "no") || is_text(&w, "f") || is_text(&w, "n")
        || is_text(&w, "0") || is_text(&w, "off") {
        Some(false)
    } else {
        None
    }
}

/// What the parser knows between two lines.
pub struct IniState {
    /// The record as filled so far.
    pub song: EntryView,
    /// The name of the section the parser is in; empty before the first.
    pub section: Seq<char>,
    /// Whether a `song` section has been opened.
    pub seen: bool,
    /// Whether the key `charter` has been read: `frets` no longer counts.
    pub charter: bool,
    /// Whether the key `album_track` has been read: `track` no longer counts.
    pub album_track: bool,
}

/// The integer that `val` writes between `min` and `max`, or `default`.
pub open spec fn int_or(val: Seq<char>, min: int, max: int, default: int) -> int {
    match parse_int(val, min, max) {
        Some(v) => v,
        None => default,
    }
}

/// The metadata slot that a key fills: name, artist, album, genre, year.
pub open spec fn metadata_slot(key: Seq<char>) -> Option<int> {
    if key == "name"@ {
        Some(0)
    } else if key == "artist"@ {
        Some(1)
    } else if key == "album"@ {
        Some(2)
    } else if key == "genre"@ {
        Some(3)
    } else if key == "year"@ {
        Some(4)
    } else {
        None
    }
}

/// The intensity slot that a difficulty key fills.
pub open spec fn intensity_slot(key: Seq<char>) -> Option<int> {
    if key == "diff_band"@ {
        Some(8)
    } else if key == "diff_guitar"@ {
        Some(0)
    } else if key == "diff_rhythm"@ {
        Some(2)
    } else if key == "diff_bass"@ {
        Some(1)
    } else if key == "diff_drums"@ {
        Some(6)
    } else if key == "diff_drums_real"@ {
        Some(9)
    } else if key == "diff_keys"@ {
        Some(7)
    } else if key == "diff_guitarghl"@ {
        Some(4)
    } else if key == "diff_bassghl"@ {
        Some(5)
    } else {
        None
    }
}

/// The record after a key of the `song` section that is neither a metadata
/// nor a difficulty key. Unknown keys change nothing.
pub open spec fn assign_other(song: EntryView, key: Seq<char>, val: Seq<char>) -> EntryView {
    if key == "preview_start_time"@ {
        EntryView {
            preview_start: int_or(val, i32::MIN as int, i32::MAX as int, -1) as i32,
            ..song
        }
    } else if key == "icon"@ {
        EntryView { icon_name: lowercase(val), ..song }
    } else if key == "playlist_track"@ {
        EntryView {
            playlist_track: int_or(val, i16::MIN as int, i16::MAX as int, 16000) as i16,
            ..song
        }
    } else if key == "modchart"@ {
        EntryView { modchart: bool_word(val) == Some(true), ..song }
    } else if key == "song_length"@ {
        EntryView {
            song_length: int_or(val, i32::MIN as int, i32::MAX as int, 0) as i32,
            ..song
        }
    } else if key == "pro_drums"@ {
        EntryView { force_pro_drums: bool_word(val) == Some(true), ..song }
    } else if key == "five_lane_drums"@ {
        EntryView { force_five_lane: bool_word(val) == Some(true), ..song }
    } else if key == "playlist"@ {
        EntryView { top_level_playlist: lowercase(val), ..song }
    } else if key == "sub_playlist"@ {
        EntryView { sub_playlist: lowercase(val), ..song }
    } else {
        song
    }
}

/// The state after the line `key = val` of the `song` section; `key` is in
/// lower case, and both are trimmed. `charter` outranks `frets`, and
/// `album_track` outranks `track`, in whatever order they stand.
pub open spec fn ini_assign(st: IniState, key: Seq<char>, val: Seq<char>) -> IniState {
    if metadata_slot(key) is Some {
        IniState { song: with_metadata(st.song, metadata_slot(key)->0, val), ..st }
    } else if key == "charter"@ {
        IniState { song: with_metadata(st.song, 5, val), charter: true, ..st }
    } else if key == "frets"@ {
        if st.charter {
            st
        } else {
            IniState { song: with_metadata(st.song, 5, val), ..st }
        }
    } else if intensity_slot(key) is Some {
        IniState {
            song: with_intensity(
                st.song,
                intensity_slot(key)->0,
                int_or(val, i8::MIN as int, i8::MAX as int, -1) as i8,
            ),
            ..st
        }
    } else if key == "album_track"@ {
        IniState {
            song: EntryView {
                album_track: int_or(val, i16::MIN as int, i16::MAX as int, 16000) as i16,
                ..st.song
            },
            album_track: true,
            ..st
        }
    } else if key == "track"@ {
        if st.album_track {
            st
        } else {
            IniState {
                song: EntryView {
                    album_track: int_or(val, i16::MIN as int, i16::MAX as int, 16000) as i16,
                    ..st.song
                },
                ..st
            }
        }
    } else {
        IniState { song: assign_other(st.song, key, val), ..st }
    }
}

/// The section that a header line opens: the text between the `[` at its
/// front and its first `]`, in lower case. A header without `]` is read up
/// to its last character.
pub open spec fn ini_section(line: Seq<char>) -> Seq<char> {
    let close = find(line, ']');
    let end = if close < line.len() {
        close
    } else {
        line.len() - 1
    };
    if end >= 1 {
        lowercase(line.subrange(1, end))
    } else {
        lowercase(Seq::empty())
    }
}

/// The state after one more line. A line that begins with `[` opens a
/// section; `key = value`, split at the first `=`, counts in the `song`
/// section; every other line is passed over.
pub open spec fn ini_step(st: IniState, raw: Seq<char>) -> IniState {
    let line = trim(raw);
    if line.len() > 0 && line[0] == '[' {
        IniState {
            section: ini_section(line),
            seen: st.seen || ini_section(line) == "song"@,
            ..st
        }
    } else {
        match split_once(line, '=') {
            Some((key, val)) => if st.section == "song"@ {
                ini_assign(st, lowercase(trim(key)), trim(val))
            } else {
                st
            },
            None => st,
        }
    }
}

/// The state after all of `rows`, read in order.
pub open spec fn ini_run(st: IniState, rows: Seq<Seq<char>>) -> IniState
    decreases rows.len(),
{
    if rows.len() == 0 {
        st
    } else {
        ini_run(ini_step(st, rows[0]), rows.drop_first())
    }
}

/// The record once the file is read: the guitar-coop intensity is 0, and an
/// unspecified pro-drums intensity is that of the drums.
pub open spec fn ini_finish(song: EntryView) -> EntryView {
    let fixed = song.intensities.update(3, 0i8);
    EntryView {
        intensities: if fixed[9] == -1i8 {
            fixed.update(9, fixed[6])
        } else {
            fixed
        },
        ..song
    }
}

/// The state before the first line.
pub open spec fn ini_start(song: EntryView) -> IniState {
    IniState { song, section: Seq::empty(), seen: false, charter: false, album_track: false }
}

/// What reading the configuration text `text` makes of `song`, and whether
/// the text opened a `song` section.
pub open spec fn ini_outcome(song: EntryView, text: Seq<char>) -> (EntryView, bool) {
    let st = ini_run(ini_start(song), lines(text));
    (ini_finish(st.song), st.seen)
}

/// The parser's variables, beside the record.
pub struct IniParser {
    /// The name of the section the parser is in, in lower case.
    pub section: Vec<char>,
    /// Whether a `song` section has been opened.
    pub seen: bool,
    /// Whether the key `charter` has been read.
    pub charter: bool,
    /// Whether the key `album_track` has been read.
    pub album_track: bool,
}

impl IniParser {
    /// The state that the record and the parser's variables make together.
    pub open spec fn state(self, song: EntryView) -> IniState {
        IniState {
            song,
            section: self.section@,
            seen: self.seen,
            charter: self.charter,
            album_track: self.album_track,
        }
    }

    /// A parser that has read nothing yet.
    pub fn new() -> (parser: IniParser)
        ensures
            forall|song: EntryView| #[trigger] parser.state(song) == ini_start(song),
    {
        IniParser { section: Vec::new(), seen: false, charter: false, album_track: false }
    }
}

fn metadata_key(key: &[char]) -> (slot: Option<usize>)
    ensures
        match slot {
            Some(n) => metadata_slot(key@) == Some(n as int) && n < 7,
            None => metadata_slot(key@) is None,
        },
{
    if is_text(key, "name") {
        Some(0)
    } else if is_text(key, "artist") {
        Some(1)
    } else if is_text(key, "album") {
        Some(2)
    } else if is_text(key, "genre") {
        Some(3)
    } else if is_text(key, "year") {
        Some(4)
    } else {
        None
    }
}

fn intensity_key(key: &[char]) -> (slot: Option<usize>)
    ensures
        match slot {
            Some(n) => intensity_slot(key@) == Some(n as int) && n < 10,
            None => intensity_slot(key@) is None,
        },
{
    if is_text(key, "diff_band") {
        Some(8)
    } else if is_text(key, "diff_guitar") {
        Some(0)
    } else if is_text(key, "diff_rhythm") {
        Some(2)
    } else if is_text(key, "diff_bass") {
        Some(1)
    } else if is_text(key, "diff_drums") {
        Some(6)
    } else if is_text(key, "diff_drums_real") {
        Some(9)
    } else if is_text(key, "diff_keys") {
        Some(7)
    } else if is_text(key, "diff_guitarghl") {
        Some(4)
    } else if is_text(key, "diff_bassghl") {
        Some(5)
    } else {
        None
    }
}

fn decimal_or(val: &[char], min: i64, max: i64, default: i64) -> (v: i64)
    requires
        -0x8000_0000 <= min <= 0 <= max <= 0x7fff_ffff,
        min <= default <= max,
    ensures
        v == int_or(val@, min as int, max as int, default as int),
        min <= v <= max,
{
    match parse_decimal(val, min, max) {
        Some(v) => v,
        None => default,
    }
}

fn truth_of(val: &[char]) -> (b: bool)
    ensures
        b == (bool_word(val@) == Some(true)),
{
    let text = string_of(val);
    match ini_get_bool(text.as_str()) {
        Some(b) => b,
        None => false,
    }
}

fn set_other(song: &mut SongEntry, key: &[char], val: &[char])
    ensures
        final(song)@ == assign_other(old(song)@, key@, val@),
{
    if is_text(key, "preview_start_time") {
        song.preview_start = decimal_or(val, -0x8000_0000, 0x7fff_ffff, -1) as i32;
    } else if is_text(key, "icon") {
        song.icon_name = string_of(&lowered(val));
    } else if is_text(key, "playlist_track") {
        song.playlist_track = decimal_or(val, -0x8000, 0x7fff, 16000) as i16;
    } else if is_text(key, "modchart") {
        song.modchart = truth_of(val);
    } else if is_text(key, "song_length") {
        song.song_length = decimal_or(val, -0x8000_0000, 0x7fff_ffff, 0) as i32;
    } else if is_text(key, "pro_drums") {
        song.force_pro_drums = truth_of(val);
    } else if is_text(key, "five_lane_drums") {
        song.force_five_lane = truth_of(val);
    } else if is_text(key, "playlist") {
        song.top_level_playlist = string_of(&lowered(val));
    } else if is_text(key, "sub_playlist") {
        song.sub_playlist = string_of(&lowered(val));
    }
}

/// Takes one line `key = val` of the `song` section into the record; `key`
/// is in lower case, and both are trimmed.
pub fn assign_key(song: &mut SongEntry, parser: &mut IniParser, key: &[char], val: &[char])
    ensures
        final(parser).state(final(song)@) == ini_assign(old(parser).state(old(song)@), key@, val@),
{
    let slot = metadata_key(key);
    let rating = intensity_key(key);
    if slot.is_some() {
        song.set_metadata(slot.unwrap(), string_of(val));
    } else if is_text(key, "charter") {
        song.set_metadata(5, string_of(val));
        parser.charter = true;
    } else if is_text(key, "frets") {
        if !parser.charter {
            song.set_metadata(5, string_of(val));
        }
    } else if rating.is_some() {
        song.set_intensity(rating.unwrap(), decimal_or(val, -0x80, 0x7f, -1) as i8);
    } else if is_text(key, "album_track") {
        song.album_track = decimal_or(val, -0x8000, 0x7fff, 16000) as i16;
        parser.album_track = true;
    } else if is_text(key, "track") {
        if !parser.album_track {
            song.album_track = decimal_or(val, -0x8000, 0x7fff, 16000) as i16;
        }
    } else {
        set_other(song, key, val);
    }
}

fn section_of(line: &[char]) -> (name: Vec<char>)
    requires
        line@.len() > 0,
    ensures
        name@ == ini_section(line@),
{
    let close = find_char(line, ']');
    let end: usize = if close < line.len() {
        close
    } else {
        line.len() - 1
    };
    if end >= 1 {
        let inner = slice_subrange(line, 1, end);
        lowered(inner)
    } else {
        let none: Vec<char> = Vec::new();
        assert(none@ =~= Seq::<char>::empty());
        lowered(&none)
    }
}

fn step(song: &mut SongEntry, parser: &mut IniParser, raw: &[char])
    ensures
        final(parser).state(final(song)@) == ini_step(old(parser).state(old(song)@), raw@),
{
    let line = trimmed(raw);
    if line.len() > 0 && line[0] == '[' {
        let name = section_of(&line);
        if is_text(&name, "song") {
            parser.seen = true;
        }
        parser.section = name;
    } else {
        match split_at_first(&line, '=') {
            Some((key, val)) => {
                if is_text(&parser.section, "song") {
                    let key = lowered(&trimmed(&key));
                    let val = trimmed(&val);
                    assign_key(song, parser, &key, &val);
                }
            },
            None => {},
        }
    }
}

/// Reads the song configuration from the bytes of `song.ini` into `song`.
/// Returns whether the file opened a `song` section; lines that cannot be
/// read are passed over.
pub fn read_ini(song: &mut SongEntry, bytes: &[u8]) -> (valid: bool)
    ensures
        final(song)@ == ini_outcome(old(song)@, file_text(bytes@)).0,
        valid == ini_outcome(old(song)@, file_text(bytes@)).1,
{
    let text = string_from_file(bytes);
    let chars = chars_of(text.as_str());
    let rows = split_lines(&chars);
    let mut parser = IniParser::new();
    let ghost goal = ini_run(ini_start(song@), lines(chars@));
    assert(texts(rows@).skip(0) =~= texts(rows@));
    let mut i: usize = 0;
    while i < rows.len()
        invariant
            i <= rows.len(),
            ini_run(parser.state(song@), texts(rows@).skip(i as int)) == goal,
        decreases rows.len() - i,
    {
        assert(texts(rows@).skip(i as int).drop_first() =~= texts(rows@).skip(i + 1));
        assert(texts(rows@).skip(i as int)[0] == rows@[i as int]@);
        step(song, &mut parser, &rows[i]);
        i += 1;
    }
    song.set_intensity(3, 0);
    if song.intensities[9] == -1 {
        let drums = song.intensities[6];
        song.set_intensity(9, drums);
    }
    assert(song@.intensities =~= ini_finish(goal.song).intensities);
    parser.seen
}

/// What reading a configuration keeps of a record: the fields that no key
/// stands for; seven pieces of metadata stay seven, ten intensities ten.
pub open spec fn ini_keeps(before: EntryView, after: EntryView) -> bool {
    &&& after == (EntryView {
        metadata: after.metadata,
        intensities: after.intensities,
        preview_start: after.preview_start,
        icon_name: after.icon_name,
        playlist_track: after.playlist_track,
        modchart: after.modchart,
        song_length: after.song_length,
        force_pro_drums: after.force_pro_drums,
        force_five_lane: after.force_five_lane,
        top_level_playlist: after.top_level_playlist,
        sub_playlist: after.sub_playlist,
        album_track: after.album_track,
        ..before
    })
    &&& before.metadata.len() == 7 ==> after.metadata.len() == 7
    &&& before.intensities.len() == 10 ==> after.intensities.len() == 10
}

/// The key of a line, in lower case: none for a header and for a line
/// without `=`.
pub open spec fn line_key(raw: Seq<char>) -> Option<Seq<char>> {
    let line = trim(raw);
    if line.len() > 0 && line[0] == '[' {
        None
    } else {
        match split_once(line, '=') {
            Some((key, _)) => Some(lowercase(trim(key))),
            None => None,
        }
    }
}

/// The keys that the lines `rows` name.
pub open spec fn named_keys(rows: Seq<Seq<char>>) -> Set<Seq<char>> {
    Set::new(
        |key: Seq<char>|
            exists|i: int| 0 <= i < rows.len() && line_key(#[trigger] rows[i]) == Some(key),
    )
}

/// Whether `after` has the value of `before` in every field whose keys are
/// not among `named`.
pub open spec fn keeps_unnamed(named: Set<Seq<char>>, before: EntryView, after: EntryView) -> bool {
    &&& !named.contains("name"@) ==> after.metadata[0] == before.metadata[0]
    &&& !named.contains("artist"@) ==> after.metadata[1] == before.metadata[1]
    &&& !named.contains("album"@) ==> after.metadata[2] == before.metadata[2]
    &&& !named.contains("genre"@) ==> after.metadata[3] == before.metadata[3]
    &&& !named.contains("year"@) ==> after.metadata[4] == before.metadata[4]
    &&& !named.contains("charter"@) && !named.contains("frets"@) ==> after.metadata[5]
        == before.metadata[5]
    &&& after.metadata[6] == before.metadata[6]
    &&& !named.contains("diff_guitar"@) ==> after.intensities[0] == before.intensities[0]
    &&& !named.contains("diff_bass"@) ==> after.intensities[1] == before.intensities[1]
    &&& !named.contains("diff_rhythm"@) ==> after.intensities[2] == before.intensities[2]
    &&& after.intensities[3] == before.intensities[3]
    &&& !named.contains("diff_guitarghl"@) ==> after.intensities[4] == before.intensities[4]
    &&& !named.contains("diff_bassghl"@) ==> after.intensities[5] == before.intensities[5]
    &&& !named.contains("diff_drums"@) ==> after.intensities[6] == before.intensities[6]
    &&& !named.contains("diff_keys"@) ==> after.intensities[7] == before.intensities[7]
    &&& !named.contains("diff_band"@) ==> after.intensities[8] == before.intensities[8]
    &&& !named.contains("diff_drums_real"@) ==> after.intensities[9] == before.intensities[9]
    &&& !named.contains("preview_start_time"@) ==> after.preview_start == before.preview_start
    &&& !named.contains("icon"@) ==> after.icon_name == before.icon_name
    &&& !named.contains("playlist_track"@) ==> after.playlist_track == before.playlist_track
    &&& !named.contains("modchart"@) ==> after.modchart == before.modchart
    &&& !named.contains("song_length"@) ==> after.song_length == before.song_length
    &&& !named.contains("pro_drums"@) ==> after.force_pro_drums == before.force_pro_drums
    &&& !named.contains("five_lane_drums"@) ==> after.force_five_lane == before.force_five_lane
    &&& !named.contains("playlist"@) ==> after.top_level_playlist == before.top_level_playlist
    &&& !named.contains("sub_playlist"@) ==> after.sub_playlist == before.sub_playlist
    &&& !named.contains("album_track"@) && !named.contains("track"@) ==> after.album_track
        == before.album_track
}

proof fn lemma_other_keeps(song: EntryView, key: Seq<char>, val: Seq<char>)
    ensures
        ini_keeps(song, assign_other(song, key, val)),
        assign_other(song, key, val).metadata == song.metadata,
        assign_other(song, key, val).intensities == song.intensities,
        assign_other(song, key, val).album_track == song.album_track,
        keeps_unnamed(set![key], song, assign_other(song, key, val)),
{
}

proof fn lemma_assign_keeps(st: IniState, key: Seq<char>, val: Seq<char>)
    requires
        st.song.metadata.len() == 7,
        st.song.intensities.len() == 10,
    ensures
        ini_keeps(st.song, ini_assign(st, key, val).song),
        keeps_unnamed(set![key], st.song, ini_assign(st, key, val).song),
{
    lemma_other_keeps(st.song, key, val);
}

proof fn lemma_step_keeps(st: IniState, raw: Seq<char>)
    requires
        st.song.metadata.len() == 7,
        st.song.intensities.len() == 10,
    ensures
        ini_keeps(st.song, ini_step(st, raw).song),
        forall|named: Set<Seq<char>>|
            (line_key(raw) matches Some(key) ==> named.contains(key)) ==> #[trigger] keeps_unnamed(
                named,
                st.song,
                ini_step(st, raw).song,
            ),
{
    let line = trim(raw);
    if line.len() > 0 && line[0] == '[' {
    } else {
        match split_once(line, '=') {
            Some((key, val)) => {
                lemma_assign_keeps(st, lowercase(trim(key)), trim(val));
            },
            None => {},
        }
    }
}

proof fn lemma_run_keeps(st: IniState, rows: Seq<Seq<char>>)
    requires
        st.song.metadata.len() == 7,
        st.song.intensities.len() == 10,
    ensures
        ini_keeps(st.song, ini_run(st, rows).song),
        keeps_unnamed(named_keys(rows), st.song, ini_run(st, rows).song),
    decreases rows.len(),
{
    if rows.len() > 0 {
        let next = ini_step(st, rows[0]);
        let tail = rows.drop_first();
        let named = named_keys(rows);
        lemma_step_keeps(st, rows[0]);
        lemma_run_keeps(next, tail);
        assert(keeps_unnamed(named, st.song, next.song));
        assert forall|key: Seq<char>| named_keys(tail).contains(key) implies named.contains(key) by {
            let i = choose|i: int| 0 <= i < tail.len() && line_key(#[trigger] tail[i]) == Some(key);
            assert(rows[i + 1] == tail[i]);
        }
    }
}

/// Reading a configuration leaves the fields that no key stands for, and
/// the fields whose keys the text does not name, as they were; the
/// intensities are then settled: guitar-coop is 0, and unspecified pro drums
/// follow the drums.
pub proof fn lemma_ini_keeps(song: EntryView, text: Seq<char>)
    requires
        song.metadata.len() == 7,
        song.intensities.len() == 10,
    ensures
        ini_outcome(song, text).0 == ini_finish(ini_run(ini_start(song), lines(text)).song),
        ini_keeps(song, ini_run(ini_start(song), lines(text)).song),
        keeps_unnamed(named_keys(lines(text)), song, ini_run(ini_start(song), lines(text)).song),
        ini_keeps(song, ini_outcome(song, text).0),
        ini_outcome(song, text).0.intensities[3] == 0,
{
    lemma_run_keeps(ini_start(song), lines(text));
}

} // verus!
