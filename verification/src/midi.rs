//! Standard MIDI Files: which instrument tracks a song has, at which
//! difficulties they have notes, and whether there is a vocals track.

use crate::entry::{
    apply_charts, charts_with, lemma_charts_with, valid_charts, EntryView, Instrument, SongEntry,
};
use crate::text::{chars_of, from_utf8_lossy, is_text, lowercase, lowered, utf8_text};
use midly::{MetaMessage, MidiMessage, Smf, TrackEvent, TrackEventKind};
use vstd::prelude::*;

verus! {

/// What the parser reads of one event of a track.
#[derive(Debug, Clone, PartialEq, Eq)]
pub enum MidiEvent {
    /// The meta event that names the track, with the bytes of the name.
    TrackName(Vec<u8>),
    /// A note-on message, with its key.
    NoteOn(u8),
    /// Any other event.
    Other,
}

/// The mathematical content of a [`MidiEvent`].
pub enum MidiEventView {
    TrackName(Seq<u8>),
    NoteOn(u8),
    Other,
}

impl View for MidiEvent {
    type V = MidiEventView;

    open spec fn view(&self) -> MidiEventView {
        match self {
            MidiEvent::TrackName(name) => MidiEventView::TrackName(name@),
            MidiEvent::NoteOn(key) => MidiEventView::NoteOn(*key),
            MidiEvent::Other => MidiEventView::Other,
        }
    }
}

/// The events of one track, as mathematical values.
pub open spec fn event_views(events: Seq<MidiEvent>) -> Seq<MidiEventView> {
    Seq::new(events.len(), |i: int| events[i]@)
}

/// The tracks of a file, as mathematical values.
pub open spec fn track_views(tracks: Seq<Vec<MidiEvent>>) -> Seq<Seq<MidiEventView>> {
    Seq::new(tracks.len(), |i: int| event_views(tracks[i]@))
}

/// What `Smf::parse` of midly makes of the bytes of a file: its tracks, each
/// the sequence of its events, or nothing where the bytes are not a MIDI file.
pub uninterp spec fn smf_tracks(buf: Seq<u8>) -> Option<Seq<Seq<MidiEventView>>>;

/// `Smf::parse` of midly. Trusted: the result is only named. Of each event
/// the wrapper keeps the track name or the key of a note-on message.
#[verifier::external_body]
pub(crate) fn parse_smf(buf: &[u8]) -> (tracks: Option<Vec<Vec<MidiEvent>>>)
    ensures
        match tracks {
            Some(found) => smf_tracks(buf@) == Some(track_views(found@)),
            None => smf_tracks(buf@) is None,
        },
{
    let pick = |event: &TrackEvent| match event.kind {
        TrackEventKind::Meta(MetaMessage::TrackName(name)) => MidiEvent::TrackName(name.to_vec()),
        TrackEventKind::Midi { message: MidiMessage::NoteOn { key, .. }, .. } => {
            MidiEvent::NoteOn(key.as_int())
        },
        _ => MidiEvent::Other,
    };
    match Smf::parse(buf) {
        Ok(smf) => Some(smf.tracks.iter().map(|track| track.iter().map(pick).collect()).collect()),
        Err(_) => None,
    }
}

/// The name of a track: that of its first track-name event.
pub open spec fn track_name(events: Seq<MidiEventView>) -> Option<Seq<u8>>
    decreases events.len(),
{
    if events.len() == 0 {
        None
    } else {
        match events[0] {
            MidiEventView::TrackName(name) => Some(name),
            _ => track_name(events.drop_first()),
        }
    }
}

/// Whether the track has a note-on message with a key from `low` to `high`.
pub open spec fn has_note(events: Seq<MidiEventView>, low: u8, high: u8) -> bool {
    exists|i: int|
        0 <= i < events.len() && (#[trigger] events[i] matches MidiEventView::NoteOn(key) && low
            <= key <= high)
}

/// The instrument that a track name, in lower case, stands for.
pub open spec fn name_instrument(name: Seq<char>) -> Instrument {
    if name == "part guitar"@ || name == "t1 gems"@ {
        Instrument::Guitar
    } else if name == "part bass"@ {
        Instrument::Bass
    } else if name == "part rhythm"@ {
        Instrument::Rhythm
    } else if name == "part guitar coop"@ {
        Instrument::GuitarCoop
    } else if name == "part guitar ghl"@ {
        Instrument::GHLGuitar
    } else if name == "part bass ghl"@ {
        Instrument::GHLBass
    } else if name == "part drums"@ || name == "part drum"@ {
        Instrument::Drums
    } else if name == "part keys"@ {
        Instrument::Keys
    } else {
        Instrument::Unset
    }
}

/// The lowest and the highest key of the notes of a difficulty.
pub open spec fn difficulty_keys(diff: int) -> (u8, u8) {
    if diff == 0 {
        (58, 66)
    } else if diff == 1 {
        (70, 78)
    } else if diff == 2 {
        (82, 90)
    } else {
        (94, 102)
    }
}

/// Whether the track has a note that only pro drums have: a key from 110 to
/// 112, or the key 101.
pub open spec fn has_pro_note(events: Seq<MidiEventView>) -> bool {
    has_note(events, 110, 112) || has_note(events, 101, 101)
}

/// The record after the track's notes at difficulty `diff`, if it has any,
/// are recorded for `inst`.
pub open spec fn with_notes(
    song: EntryView,
    inst: Instrument,
    events: Seq<MidiEventView>,
    diff: int,
) -> EntryView {
    if has_note(events, difficulty_keys(diff).0, difficulty_keys(diff).1) {
        EntryView {
            charts: charts_with(
                song.charts,
                inst,
                diff,
                has_pro_note(events),
                song.force_pro_drums,
                song.force_five_lane,
            ),
            ..song
        }
    } else {
        song
    }
}

/// What a track with the name `name`, in lower case, makes of `song`. A
/// track named `part vocals` sets the lyrics flag; a track named for an
/// instrument records a chart at each difficulty it has notes for; any other
/// track changes nothing.
pub open spec fn named_track_outcome(
    song: EntryView,
    events: Seq<MidiEventView>,
    name: Seq<char>,
) -> EntryView {
    let inst = name_instrument(name);
    if name == "part vocals"@ {
        EntryView { lyrics: true, ..song }
    } else if inst == Instrument::Unset {
        song
    } else {
        with_notes(
            with_notes(with_notes(with_notes(song, inst, events, 0), inst, events, 1), inst, events, 2),
            inst,
            events,
            3,
        )
    }
}

/// What one track makes of `song`: what its name and notes give, where it
/// has a name; nothing otherwise.
pub open spec fn track_outcome(song: EntryView, events: Seq<MidiEventView>) -> EntryView {
    match track_name(events) {
        None => song,
        Some(bytes) => named_track_outcome(song, events, lowercase(utf8_text(bytes))),
    }
}

/// What the tracks of a file, read in order, make of `song`.
pub open spec fn midi_outcome(song: EntryView, tracks: Seq<Seq<MidiEventView>>) -> EntryView
    decreases tracks.len(),
{
    if tracks.len() == 0 {
        song
    } else {
        midi_outcome(track_outcome(song, tracks[0]), tracks.drop_first())
    }
}

fn find_track_name(events: &Vec<MidiEvent>) -> (at: Option<usize>)
    ensures
        match at {
            Some(i) => i < events@.len() && (events@[i as int] matches MidiEvent::TrackName(name)
                && track_name(event_views(events@)) == Some(name@)),
            None => track_name(event_views(events@)) is None,
        },
{
    let ghost all = event_views(events@);
    let mut i: usize = 0;
    assert(all.skip(0) =~= all);
    while i < events.len()
        invariant
            i <= events.len(),
            all == event_views(events@),
            track_name(all.skip(i as int)) == track_name(all),
        decreases events.len() - i,
    {
        assert(all.skip(i as int).drop_first() =~= all.skip(i + 1));
        assert(all.skip(i as int)[0] == events@[i as int]@);
        match &events[i] {
            MidiEvent::TrackName(_) => {
                return Some(i);
            },
            _ => {},
        }
        i += 1;
    }
    None
}

fn instrument_of(name: &[char]) -> (inst: Instrument)
    ensures
        inst == name_instrument(name@),
{
    if is_text(name, "part guitar") || is_text(name, "t1 gems") {
        Instrument::Guitar
    } else if is_text(name, "part bass") {
        Instrument::Bass
    } else if is_text(name, "part rhythm") {
        Instrument::Rhythm
    } else if is_text(name, "part guitar coop") {
        Instrument::GuitarCoop
    } else if is_text(name, "part guitar ghl") {
        Instrument::GHLGuitar
    } else if is_text(name, "part bass ghl") {
        Instrument::GHLBass
    } else if is_text(name, "part drums") || is_text(name, "part drum") {
        Instrument::Drums
    } else if is_text(name, "part keys") {
        Instrument::Keys
    } else {
        Instrument::Unset
    }
}

fn any_note(events: &Vec<MidiEvent>, low: u8, high: u8) -> (found: bool)
    ensures
        found == has_note(event_views(events@), low, high),
{
    let ghost all = event_views(events@);
    let mut i: usize = 0;
    while i < events.len()
        invariant
            i <= events.len(),
            all == event_views(events@),
            forall|j: int|
                0 <= j < i ==> !(#[trigger] all[j] matches MidiEventView::NoteOn(key) && low <= key
                    <= high),
        decreases events.len() - i,
    {
        match &events[i] {
            MidiEvent::NoteOn(key) => {
                if low <= *key && *key <= high {
                    assert(all[i as int] matches MidiEventView::NoteOn(k) && low <= k <= high);
                    return true;
                }
            },
            _ => {},
        }
        i += 1;
    }
    false
}

fn record_notes(
    song: &mut SongEntry,
    events: &Vec<MidiEvent>,
    inst: Instrument,
    pro: bool,
    diff: i64,
    low: u8,
    high: u8,
)
    requires
        inst != Instrument::Unset,
        0 <= diff <= 3,
        (low, high) == difficulty_keys(diff as int),
        pro == has_pro_note(event_views(events@)),
    ensures
        final(song)@ == with_notes(old(song)@, inst, event_views(events@), diff as int),
{
    if any_note(events, low, high) {
        apply_charts(song, inst, pro, diff);
    }
}

fn read_track(song: &mut SongEntry, events: &Vec<MidiEvent>)
    ensures
        final(song)@ == track_outcome(old(song)@, event_views(events@)),
{
    let at = match find_track_name(events) {
        Some(i) => i,
        None => {
            return ;
        },
    };
    let name = match &events[at] {
        MidiEvent::TrackName(bytes) => {
            let text = from_utf8_lossy(bytes.as_slice());
            lowered(&chars_of(text.as_str()))
        },
        _ => {
            return ;
        },
    };
    read_named_track(song, events, &name);
}

/// Reads the notes of a track whose name, in lower case, is `name`.
pub fn read_named_track(song: &mut SongEntry, events: &Vec<MidiEvent>, name: &[char])
    ensures
        final(song)@ == named_track_outcome(old(song)@, event_views(events@), name@),
{
    if is_text(name, "part vocals") {
        song.lyrics = true;
        return ;
    }
    let inst = instrument_of(name);
    if inst == Instrument::Unset {
        return ;
    }
    let pro = any_note(events, 110, 112) || any_note(events, 101, 101);
    record_notes(song, events, inst, pro, 0, 58, 66);
    record_notes(song, events, inst, pro, 1, 70, 78);
    record_notes(song, events, inst, pro, 2, 82, 90);
    record_notes(song, events, inst, pro, 3, 94, 102);
}

/// Reads the tracks of a MIDI file into `song`, in order.
pub fn read_tracks(song: &mut SongEntry, tracks: &Vec<Vec<MidiEvent>>)
    ensures
        final(song)@ == midi_outcome(old(song)@, track_views(tracks@)),
{
    let ghost all = track_views(tracks@);
    let ghost goal = midi_outcome(song@, all);
    let mut i: usize = 0;
    assert(all.skip(0) =~= all);
    while i < tracks.len()
        invariant
            i <= tracks.len(),
            all == track_views(tracks@),
            midi_outcome(song@, all.skip(i as int)) == goal,
        decreases tracks.len() - i,
    {
        assert(all.skip(i as int).drop_first() =~= all.skip(i + 1));
        assert(all.skip(i as int)[0] == event_views(tracks@[i as int]@));
        read_track(song, &tracks[i]);
        i += 1;
    }
}

/// What reading the bytes of a MIDI file makes of `song`. Bytes that are not
/// a MIDI file change nothing.
pub open spec fn midi_file_outcome(song: EntryView, buf: Seq<u8>) -> EntryView {
    match smf_tracks(buf) {
        Some(tracks) => midi_outcome(song, tracks),
        None => song,
    }
}

/// Reads the bytes of a MIDI file into `song`: the playable charts and the
/// lyrics flag. Bytes that are not a MIDI file leave `song` as it is.
pub fn read_midi(song: &mut SongEntry, buf: &[u8])
    ensures
        final(song)@ == midi_file_outcome(old(song)@, buf@),
{
    match parse_smf(buf) {
        Some(tracks) => {
            read_tracks(song, &tracks);
        },
        None => {},
    }
}


/// What reading a MIDI file keeps of a record: every field but the charts
/// and the lyrics flag; a valid bitmask stays valid, and a set lyrics flag
/// stays set.
pub open spec fn midi_keeps(before: EntryView, after: EntryView) -> bool {
    &&& after == (EntryView { charts: after.charts, lyrics: after.lyrics, ..before })
    &&& valid_charts(before.charts) ==> valid_charts(after.charts)
    &&& before.lyrics ==> after.lyrics
}

proof fn lemma_notes_keep(
    song: EntryView,
    inst: Instrument,
    events: Seq<MidiEventView>,
    diff: int,
)
    requires
        inst != Instrument::Unset,
        0 <= diff <= 3,
    ensures
        midi_keeps(song, with_notes(song, inst, events, diff)),
        with_notes(song, inst, events, diff).lyrics == song.lyrics,
{
    lemma_charts_with(
        song.charts,
        inst,
        diff,
        has_pro_note(events),
        song.force_pro_drums,
        song.force_five_lane,
    );
}

proof fn lemma_track_keeps(song: EntryView, events: Seq<MidiEventView>)
    ensures
        midi_keeps(song, track_outcome(song, events)),
{
    match track_name(events) {
        None => {},
        Some(bytes) => {
            let name = lowercase(utf8_text(bytes));
            let inst = name_instrument(name);
            if name != "part vocals"@ && inst != Instrument::Unset {
                let easy = with_notes(song, inst, events, 0);
                let medium = with_notes(easy, inst, events, 1);
                let hard = with_notes(medium, inst, events, 2);
                lemma_notes_keep(song, inst, events, 0);
                lemma_notes_keep(easy, inst, events, 1);
                lemma_notes_keep(medium, inst, events, 2);
                lemma_notes_keep(hard, inst, events, 3);
            }
        },
    }
}

/// Reading the tracks of a MIDI file changes nothing of a record but the
/// charts and the lyrics flag, and keeps a valid bitmask valid.
pub proof fn lemma_midi_keeps(song: EntryView, tracks: Seq<Seq<MidiEventView>>)
    ensures
        midi_keeps(song, midi_outcome(song, tracks)),
    decreases tracks.len(),
{
    if tracks.len() > 0 {
        lemma_track_keeps(song, tracks[0]);
        lemma_midi_keeps(track_outcome(song, tracks[0]), tracks.drop_first());
    }
}

} // verus!
