//! The `.chart` text format: sections in brackets, each followed by a block
//! in braces of `key = value` lines. The parser finds which instruments have
//! notes at which difficulty, whether the song has lyrics, and, when asked,
//! the song's metadata.

use crate::entry::{
    apply_charts, charts_with, lemma_charts_with, valid_charts, with_metadata, EntryView,
    Instrument, SongEntry,
};
use crate::text::{
    chars_of, file_text, is_text, lines, lowercase, lowered, remove_char, remove_text,
    split_at_first, split_lines, split_once, starts_with, string_from_file, string_of, texts,
    trim, trimmed, without_char, without_text,
};
use vstd::prelude::*;
use vstd::slice::slice_subrange;

verus! {

/// What the parser knows between two lines.
pub struct ChartState {
    /// The record as filled so far.
    pub song: EntryView,
    /// The name of the section the parser is in, in lower case.
    pub section: Seq<char>,
    /// The instrument of the section, `Unset` where it names none.
    pub inst: Instrument,
    /// The difficulty of the section, -1 where it names none.
    pub diff: int,
    /// Whether a note has been read since the last closing brace.
    pub notes: bool,
    /// Whether a pro-drums note has been read since the last closing brace.
    pub drums: bool,
}

/// The difficulty that a section name begins with: `easy` 0, `medium` 1,
/// `hard` 2, `expert` 3.
pub open spec fn section_difficulty(section: Seq<char>) -> Option<int> {
    if "easy"@.is_prefix_of(section) {
        Some(0)
    } else if "medium"@.is_prefix_of(section) {
        Some(1)
    } else if "hard"@.is_prefix_of(section) {
        Some(2)
    } else if "expert"@.is_prefix_of(section) {
        Some(3)
    } else {
        None
    }
}

/// The rest of a section name after its difficulty.
pub open spec fn section_stem(section: Seq<char>) -> Seq<char> {
    match section_difficulty(section) {
        Some(d) => if d == 0 || d == 2 {
            section.skip(4)
        } else {
            section.skip(6)
        },
        None => section,
    }
}

/// The instrument that the stem of a section name stands for.
pub open spec fn stem_instrument(stem: Seq<char>) -> Instrument {
    if stem == "single"@ {
        Instrument::Guitar
    } else if stem == "doublebass"@ {
        Instrument::Bass
    } else if stem == "doublerhythm"@ {
        Instrument::Rhythm
    } else if stem == "doubleguitar"@ {
        Instrument::GuitarCoop
    } else if stem == "ghlguitar"@ {
        Instrument::GHLGuitar
    } else if stem == "ghlbass"@ {
        Instrument::GHLBass
    } else if stem == "drums"@ {
        Instrument::Drums
    } else if stem == "keyboard"@ {
        Instrument::Keys
    } else if stem == "band"@ {
        Instrument::Band
    } else {
        Instrument::Unset
    }
}

/// The name of the section that a header line opens: the line without its
/// first and its last character, in lower case.
pub open spec fn chart_section(line: Seq<char>) -> Seq<char> {
    if line.len() >= 2 {
        lowercase(line.subrange(1, line.len() - 1))
    } else {
        lowercase(Seq::empty())
    }
}

/// The state after a header line. A section that names a difficulty sets
/// difficulty and instrument; any other section leaves them as they are.
pub open spec fn chart_open(st: ChartState, line: Seq<char>) -> ChartState {
    chart_enter(st, chart_section(line))
}

/// The state on entering the section `section`, a name in lower case.
pub open spec fn chart_enter(st: ChartState, section: Seq<char>) -> ChartState {
    match section_difficulty(section) {
        Some(d) => ChartState {
            section,
            diff: d,
            inst: stem_instrument(section_stem(section)),
            ..st
        },
        None => ChartState { section, ..st },
    }
}

/// The state after a closing brace: a section with an instrument, a
/// difficulty and at least one note is recorded as a playable chart.
pub open spec fn chart_close(st: ChartState) -> ChartState {
    ChartState {
        song: if st.inst != Instrument::Unset && st.diff >= 0 && st.notes {
            EntryView {
                charts: charts_with(
                    st.song.charts,
                    st.inst,
                    st.diff,
                    st.drums,
                    st.song.force_pro_drums,
                    st.song.force_five_lane,
                ),
                ..st.song
            }
        } else {
            st.song
        },
        inst: Instrument::Unset,
        diff: -1,
        notes: false,
        drums: false,
        ..st
    }
}

/// The record after the line `key = val` of the `song` section.
pub open spec fn chart_metadata(song: EntryView, key: Seq<char>, val: Seq<char>) -> EntryView {
    if key == "charter"@ {
        with_metadata(song, 5, val)
    } else if key == "artist"@ {
        with_metadata(song, 1, val)
    } else if key == "genre"@ {
        with_metadata(song, 3, val)
    } else if key == "album"@ {
        with_metadata(song, 2, val)
    } else if key == "year"@ {
        with_metadata(song, 4, without_text(val, ", "@))
    } else if key == "name"@ {
        if val != "TEMPO TRACK"@ && val != ""@ && val != "midi_export"@ {
            with_metadata(song, 0, val)
        } else {
            song
        }
    } else {
        song
    }
}

/// Whether a value is a note that only pro drums have.
pub open spec fn is_pro_drums_note(val: Seq<char>) -> bool {
    "N 5"@.is_prefix_of(val) || "N 32"@.is_prefix_of(val) || "N 66"@.is_prefix_of(val)
        || "N 67"@.is_prefix_of(val) || "N 68"@.is_prefix_of(val)
}

/// The state after the line `key = val`; `key` is in lower case, `val` is
/// without double quotes, and both are trimmed.
pub open spec fn chart_assign(st: ChartState, key: Seq<char>, val: Seq<char>, full: bool)
    -> ChartState {
    if st.section == "song"@ {
        if full {
            ChartState { song: chart_metadata(st.song, key, val), ..st }
        } else {
            st
        }
    } else if st.section == "events"@ {
        ChartState {
            song: EntryView {
                lyrics: st.song.lyrics || "E lyric"@.is_prefix_of(val),
                ..st.song
            },
            ..st
        }
    } else if "N"@.is_prefix_of(val) {
        ChartState {
            notes: true,
            drums: st.drums || (st.inst == Instrument::Drums && is_pro_drums_note(val)),
            ..st
        }
    } else {
        st
    }
}

/// The state after one more line.
pub open spec fn chart_step(st: ChartState, raw: Seq<char>, full: bool) -> ChartState {
    let line = trim(raw);
    if line == "{"@ {
        st
    } else if line.len() > 0 && line[0] == '[' {
        chart_open(st, line)
    } else {
        let st = if line == "}"@ {
            chart_close(st)
        } else {
            st
        };
        match split_once(line, '=') {
            Some((key, val)) => chart_assign(
                st,
                lowercase(trim(key)),
                trim(without_char(val, '"')),
                full,
            ),
            None => st,
        }
    }
}

/// The state after all of `rows`, read in order.
pub open spec fn chart_run(st: ChartState, rows: Seq<Seq<char>>, full: bool) -> ChartState
    decreases rows.len(),
{
    if rows.len() == 0 {
        st
    } else {
        chart_run(chart_step(st, rows[0], full), rows.drop_first(), full)
    }
}

/// The state before the first line.
pub open spec fn chart_start(song: EntryView) -> ChartState {
    ChartState {
        song,
        section: Seq::empty(),
        inst: Instrument::Unset,
        diff: -1,
        notes: false,
        drums: false,
    }
}

/// What reading the chart text `text` makes of `song`; with `full` the
/// metadata of its `song` section is taken too.
pub open spec fn chart_outcome(song: EntryView, text: Seq<char>, full: bool) -> EntryView {
    chart_run(chart_start(song), lines(text), full).song
}

/// The parser's variables, beside the record.
pub struct ChartParser {
    /// The name of the section the parser is in, in lower case.
    pub section: Vec<char>,
    /// The instrument of the section.
    pub inst: Instrument,
    /// The difficulty of the section, -1 where it names none.
    pub diff: i64,
    /// Whether a note has been read since the last closing brace.
    pub notes: bool,
    /// Whether a pro-drums note has been read since the last closing brace.
    pub drums: bool,
}

impl ChartParser {
    /// What the parser's variables must satisfy: the difficulty is one of
    /// the four, or -1.
    pub open spec fn wf(self) -> bool {
        -1 <= self.diff <= 3
    }

    /// The state that the record and the parser's variables make together.
    pub open spec fn state(self, song: EntryView) -> ChartState {
        ChartState {
            song,
            section: self.section@,
            inst: self.inst,
            diff: self.diff as int,
            notes: self.notes,
            drums: self.drums,
        }
    }

    /// A parser that has read nothing yet.
    pub fn new() -> (parser: ChartParser)
        ensures
            parser.wf(),
            forall|song: EntryView| #[trigger] parser.state(song) == chart_start(song),
    {
        ChartParser {
            section: Vec::new(),
            inst: Instrument::Unset,
            diff: -1,
            notes: false,
            drums: false,
        }
    }
}

fn difficulty_of(section: &[char]) -> (diff: Option<i64>)
    ensures
        match diff {
            Some(d) => section_difficulty(section@) == Some(d as int) && 0 <= d <= 3,
            None => section_difficulty(section@) is None,
        },
{
    if starts_with(section, "easy") {
        Some(0)
    } else if starts_with(section, "medium") {
        Some(1)
    } else if starts_with(section, "hard") {
        Some(2)
    } else if starts_with(section, "expert") {
        Some(3)
    } else {
        None
    }
}

fn instrument_of(stem: &[char]) -> (inst: Instrument)
    ensures
        inst == stem_instrument(stem@),
{
    if is_text(stem, "single") {
        Instrument::Guitar
    } else if is_text(stem, "doublebass") {
        Instrument::Bass
    } else if is_text(stem, "doublerhythm") {
        Instrument::Rhythm
    } else if is_text(stem, "doubleguitar") {
        Instrument::GuitarCoop
    } else if is_text(stem, "ghlguitar") {
        Instrument::GHLGuitar
    } else if is_text(stem, "ghlbass") {
        Instrument::GHLBass
    } else if is_text(stem, "drums") {
        Instrument::Drums
    } else if is_text(stem, "keyboard") {
        Instrument::Keys
    } else if is_text(stem, "band") {
        Instrument::Band
    } else {
        Instrument::Unset
    }
}

fn open_section(parser: &mut ChartParser, line: &[char])
    requires
        old(parser).wf(),
    ensures
        final(parser).wf(),
        forall|song: EntryView| #[trigger]
            final(parser).state(song) == chart_open(old(parser).state(song), line@),
{
    let section = if line.len() >= 2 {
        lowered(slice_subrange(line, 1, line.len() - 1))
    } else {
        let none: Vec<char> = Vec::new();
        assert(none@ =~= Seq::<char>::empty());
        lowered(&none)
    };
    enter_section(parser, section);
}

/// Enters the section `section`, a name in lower case.
pub fn enter_section(parser: &mut ChartParser, section: Vec<char>)
    requires
        old(parser).wf(),
    ensures
        final(parser).wf(),
        forall|song: EntryView| #[trigger]
            final(parser).state(song) == chart_enter(old(parser).state(song), section@),
{
    match difficulty_of(&section) {
        Some(d) => {
            proof {
                reveal_strlit("easy");
                reveal_strlit("medium");
                reveal_strlit("hard");
                reveal_strlit("expert");
            }
            let width: usize = if d == 0 || d == 2 {
                4
            } else {
                6
            };
            let stem = slice_subrange(&section, width, section.len());
            assert(stem@ =~= section_stem(section@));
            parser.inst = instrument_of(stem);
            parser.diff = d;
        },
        None => {},
    }
    parser.section = section;
}

/// Leaves a section at its closing brace: a section with an instrument, a
/// difficulty and at least one note is recorded as a playable chart.
pub fn close_section(song: &mut SongEntry, parser: &mut ChartParser)
    requires
        old(parser).wf(),
    ensures
        final(parser).wf(),
        final(parser).state(final(song)@) == chart_close(old(parser).state(old(song)@)),
{
    if parser.inst != Instrument::Unset && parser.diff >= 0 && parser.notes {
        apply_charts(song, parser.inst, parser.drums, parser.diff);
    }
    parser.inst = Instrument::Unset;
    parser.diff = -1;
    parser.notes = false;
    parser.drums = false;
}

fn set_metadata(song: &mut SongEntry, key: &[char], val: &[char])
    ensures
        final(song)@ == chart_metadata(old(song)@, key@, val@),
{
    if is_text(key, "charter") {
        song.set_metadata(5, string_of(val));
    } else if is_text(key, "artist") {
        song.set_metadata(1, string_of(val));
    } else if is_text(key, "genre") {
        song.set_metadata(3, string_of(val));
    } else if is_text(key, "album") {
        song.set_metadata(2, string_of(val));
    } else if is_text(key, "year") {
        proof {
            reveal_strlit(", ");
        }
        song.set_metadata(4, string_of(&remove_text(val, ", ")));
    } else if is_text(key, "name") {
        if !is_text(val, "TEMPO TRACK") && !is_text(val, "") && !is_text(val, "midi_export") {
            song.set_metadata(0, string_of(val));
        }
    }
}

fn pro_drums_note(val: &[char]) -> (pro: bool)
    ensures
        pro == is_pro_drums_note(val@),
{
    starts_with(val, "N 5") || starts_with(val, "N 32") || starts_with(val, "N 66") || starts_with(
        val,
        "N 67",
    ) || starts_with(val, "N 68")
}

/// Takes one line `key = val` of the current section; `key` is in lower
/// case, `val` is without double quotes, and both are trimmed.
pub fn assign_value(
    song: &mut SongEntry,
    parser: &mut ChartParser,
    key: &[char],
    val: &[char],
    full: bool,
)
    requires
        old(parser).wf(),
    ensures
        final(parser).wf(),
        final(parser).state(final(song)@) == chart_assign(
            old(parser).state(old(song)@),
            key@,
            val@,
            full,
        ),
{
    if is_text(&parser.section, "song") {
        if full {
            set_metadata(song, key, val);
        }
    } else if is_text(&parser.section, "events") {
        if !song.lyrics && starts_with(val, "E lyric") {
            song.lyrics = true;
        }
    } else if starts_with(val, "N") {
        parser.notes = true;
        if parser.inst == Instrument::Drums && !parser.drums && pro_drums_note(val) {
            parser.drums = true;
        }
    }
}

fn step(song: &mut SongEntry, parser: &mut ChartParser, raw: &[char], full: bool)
    requires
        old(parser).wf(),
    ensures
        final(parser).wf(),
        final(parser).state(final(song)@) == chart_step(old(parser).state(old(song)@), raw@, full),
{
    let line = trimmed(raw);
    if is_text(&line, "{") {
        return ;
    }
    if line.len() > 0 && line[0] == '[' {
        open_section(parser, &line);
        return ;
    }
    if is_text(&line, "}") {
        close_section(song, parser);
    }
    match split_at_first(&line, '=') {
        Some((key, val)) => {
            let key = lowered(&trimmed(&key));
            let val = trimmed(&remove_char(&val, '"'));
            assign_value(song, parser, &key, &val, full);
        },
        None => {},
    }
}

/// Reads the bytes of a `.chart` file into `song`: the playable charts,
/// the lyrics flag and, with `full`, the metadata of the `song` section.
/// Lines that cannot be read are passed over.
pub fn read_chart(song: &mut SongEntry, buf: &[u8], full: bool)
    ensures
        final(song)@ == chart_outcome(old(song)@, file_text(buf@), full),
{
    let text = string_from_file(buf);
    let chars = chars_of(text.as_str());
    let rows = split_lines(&chars);
    let mut parser = ChartParser::new();
    let ghost goal = chart_run(chart_start(song@), lines(chars@), full);
    assert(texts(rows@).skip(0) =~= texts(rows@));
    let mut i: usize = 0;
    while i < rows.len()
        invariant
            i <= rows.len(),
            parser.wf(),
            chart_run(parser.state(song@), texts(rows@).skip(i as int), full) == goal,
        decreases rows.len() - i,
    {
        assert(texts(rows@).skip(i as int).drop_first() =~= texts(rows@).skip(i + 1));
        assert(texts(rows@).skip(i as int)[0] == rows@[i as int]@);
        step(song, &mut parser, &rows[i], full);
        i += 1;
    }
}

/// What reading a chart keeps of a record: every field but the charts, the
/// lyrics flag and the metadata; a valid bitmask stays valid, a set lyrics
/// flag stays set, and seven pieces of metadata stay seven.
pub open spec fn chart_keeps(before: EntryView, after: EntryView) -> bool {
    &&& after == (EntryView {
        charts: after.charts,
        lyrics: after.lyrics,
        metadata: after.metadata,
        ..before
    })
    &&& before.metadata.len() == 7 ==> after.metadata.len() == 7
    &&& valid_charts(before.charts) ==> valid_charts(after.charts)
    &&& before.lyrics ==> after.lyrics
}

proof fn lemma_keeps_twice(a: EntryView, b: EntryView, c: EntryView)
    requires
        chart_keeps(a, b),
        chart_keeps(b, c),
    ensures
        chart_keeps(a, c),
{
}

proof fn lemma_metadata_keeps(song: EntryView, key: Seq<char>, val: Seq<char>)
    ensures
        chart_keeps(song, chart_metadata(song, key, val)),
{
}

proof fn lemma_assign_keeps(st: ChartState, key: Seq<char>, val: Seq<char>, full: bool)
    ensures
        chart_assign(st, key, val, full).diff == st.diff,
        chart_keeps(st.song, chart_assign(st, key, val, full).song),
        !full ==> chart_assign(st, key, val, full).song.metadata == st.song.metadata,
{
    lemma_metadata_keeps(st.song, key, val);
}

proof fn lemma_close_keeps(st: ChartState)
    requires
        -1 <= st.diff <= 3,
    ensures
        chart_close(st).diff == -1,
        chart_keeps(st.song, chart_close(st).song),
        chart_close(st).song.metadata == st.song.metadata,
{
    if st.inst != Instrument::Unset && st.diff >= 0 && st.notes {
        lemma_charts_with(
            st.song.charts,
            st.inst,
            st.diff,
            st.drums,
            st.song.force_pro_drums,
            st.song.force_five_lane,
        );
    }
}

proof fn lemma_open_keeps(st: ChartState, line: Seq<char>)
    requires
        -1 <= st.diff <= 3,
    ensures
        -1 <= chart_open(st, line).diff <= 3,
        chart_open(st, line).song == st.song,
{
}

proof fn lemma_step_keeps(st: ChartState, raw: Seq<char>, full: bool)
    requires
        -1 <= st.diff <= 3,
    ensures
        -1 <= chart_step(st, raw, full).diff <= 3,
        chart_keeps(st.song, chart_step(st, raw, full).song),
        !full ==> chart_step(st, raw, full).song.metadata == st.song.metadata,
{
    let line = trim(raw);
    if line == "{"@ {
    } else if line.len() > 0 && line[0] == '[' {
        lemma_open_keeps(st, line);
    } else {
        let closed = if line == "}"@ {
            chart_close(st)
        } else {
            st
        };
        if line == "}"@ {
            lemma_close_keeps(st);
        }
        match split_once(line, '=') {
            Some((key, val)) => {
                let k = lowercase(trim(key));
                let v = trim(without_char(val, '"'));
                lemma_assign_keeps(closed, k, v, full);
                lemma_keeps_twice(st.song, closed.song, chart_assign(closed, k, v, full).song);
            },
            None => {},
        }
    }
}

proof fn lemma_run_keeps(st: ChartState, rows: Seq<Seq<char>>, full: bool)
    requires
        -1 <= st.diff <= 3,
    ensures
        chart_keeps(st.song, chart_run(st, rows, full).song),
        !full ==> chart_run(st, rows, full).song.metadata == st.song.metadata,
    decreases rows.len(),
{
    if rows.len() > 0 {
        let next = chart_step(st, rows[0], full);
        lemma_step_keeps(st, rows[0], full);
        lemma_run_keeps(next, rows.drop_first(), full);
        lemma_keeps_twice(st.song, next.song, chart_run(next, rows.drop_first(), full).song);
    }
}

/// Reading a chart changes nothing of a record but the charts, the lyrics
/// flag and, with `full`, the metadata; and it keeps a valid bitmask valid.
pub proof fn lemma_chart_keeps(song: EntryView, text: Seq<char>, full: bool)
    ensures
        chart_keeps(song, chart_outcome(song, text, full)),
        !full ==> chart_outcome(song, text, full).metadata == song.metadata,
{
    lemma_run_keeps(chart_start(song), lines(text), full);
}

} // verus!
