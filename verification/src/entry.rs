//! The song record, its defaults, and the bitmask of playable charts.

use vstd::prelude::*;

verus! {

/// One song of the library.
#[derive(Debug, Clone, PartialEq, Eq)]
pub struct SongEntry {
    pub album_track: i16,
    pub chart_name: String,
    pub charts: i64,
    pub checksum: [u8; 16],
    pub date_added: i64,
    pub folder_path: String,
    pub force_five_lane: bool,
    pub force_pro_drums: bool,
    pub icon_name: String,
    pub intensities: [i8; 10],
    pub is_enc: bool,
    pub lyrics: bool,
    pub metadata: [String; 7],
    pub modchart: bool,
    pub playlist_track: i16,
    pub preview_start: i32,
    pub song_length: i32,
    pub sub_playlist: String,
    pub top_level_playlist: String,
    pub video_background: bool,
    /// Cloud profile only: the audio stems found in the folder.
    pub audio_files: Vec<String>,
    /// Cloud profile only.
    pub album_art_name: String,
    /// Cloud profile only.
    pub image_background: bool,
    /// Cloud profile only.
    pub image_background_name: String,
    /// Cloud profile only.
    pub video_background_name: String,
}

/// The mathematical content of a [`SongEntry`]: text as sequences of
/// characters, arrays as sequences of fixed length.
pub struct EntryView {
    pub album_track: i16,
    pub chart_name: Seq<char>,
    pub charts: i64,
    pub checksum: Seq<u8>,
    pub date_added: i64,
    pub folder_path: Seq<char>,
    pub force_five_lane: bool,
    pub force_pro_drums: bool,
    pub icon_name: Seq<char>,
    pub intensities: Seq<i8>,
    pub is_enc: bool,
    pub lyrics: bool,
    pub metadata: Seq<Seq<char>>,
    pub modchart: bool,
    pub playlist_track: i16,
    pub preview_start: i32,
    pub song_length: i32,
    pub sub_playlist: Seq<char>,
    pub top_level_playlist: Seq<char>,
    pub video_background: bool,
    pub audio_files: Seq<Seq<char>>,
    pub album_art_name: Seq<char>,
    pub image_background: bool,
    pub image_background_name: Seq<char>,
    pub video_background_name: Seq<char>,
}

impl View for SongEntry {
    type V = EntryView;

    open spec fn view(&self) -> EntryView {
        EntryView {
            album_track: self.album_track,
            chart_name: self.chart_name@,
            charts: self.charts,
            checksum: self.checksum@,
            date_added: self.date_added,
            folder_path: self.folder_path@,
            force_five_lane: self.force_five_lane,
            force_pro_drums: self.force_pro_drums,
            icon_name: self.icon_name@,
            intensities: self.intensities@,
            is_enc: self.is_enc,
            lyrics: self.lyrics,
            metadata: self.metadata.deep_view(),
            modchart: self.modchart,
            playlist_track: self.playlist_track,
            preview_start: self.preview_start,
            song_length: self.song_length,
            sub_playlist: self.sub_playlist@,
            top_level_playlist: self.top_level_playlist@,
            video_background: self.video_background,
            audio_files: self.audio_files.deep_view(),
            album_art_name: self.album_art_name@,
            image_background: self.image_background,
            image_background_name: self.image_background_name@,
            video_background_name: self.video_background_name@,
        }
    }
}

/// The records that a sequence of entries holds.
pub open spec fn entry_views(songs: Seq<SongEntry>) -> Seq<EntryView> {
    Seq::new(songs.len(), |i: int| songs[i]@)
}

/// The record every scan starts from: track numbers 16000, every intensity
/// and the preview start unspecified (-1), everything else zero, empty or false.
pub open spec fn default_entry() -> EntryView {
    EntryView {
        album_track: 16000,
        chart_name: Seq::empty(),
        charts: 0,
        checksum: Seq::new(16, |i: int| 0u8),
        date_added: 0,
        folder_path: Seq::empty(),
        force_five_lane: false,
        force_pro_drums: false,
        icon_name: Seq::empty(),
        intensities: Seq::new(10, |i: int| -1i8),
        is_enc: false,
        lyrics: false,
        metadata: Seq::new(7, |i: int| Seq::<char>::empty()),
        modchart: false,
        playlist_track: 16000,
        preview_start: -1i32,
        song_length: 0,
        sub_playlist: Seq::empty(),
        top_level_playlist: Seq::empty(),
        video_background: false,
        audio_files: Seq::empty(),
        album_art_name: Seq::empty(),
        image_background: false,
        image_background_name: Seq::empty(),
        video_background_name: Seq::empty(),
    }
}

impl SongEntry {
    pub fn default() -> (song: SongEntry)
        ensures
            song@ == default_entry(),
    {
        let song = SongEntry {
            album_track: 16000,
            chart_name: String::new(),
            charts: 0,
            checksum: [0u8; 16],
            date_added: 0,
            folder_path: String::new(),
            force_five_lane: false,
            force_pro_drums: false,
            icon_name: String::new(),
            intensities: [-1i8; 10],
            is_enc: false,
            lyrics: false,
            metadata: [
                String::new(),
                String::new(),
                String::new(),
                String::new(),
                String::new(),
                String::new(),
                String::new(),
            ],
            modchart: false,
            playlist_track: 16000,
            preview_start: -1,
            song_length: 0,
            sub_playlist: String::new(),
            top_level_playlist: String::new(),
            video_background: false,
            audio_files: Vec::new(),
            album_art_name: String::new(),
            image_background: false,
            image_background_name: String::new(),
            video_background_name: String::new(),
        };
        assert(song@.checksum =~= default_entry().checksum);
        assert(song@.intensities =~= default_entry().intensities);
        assert(song@.metadata =~= default_entry().metadata);
        assert(song@.audio_files =~= default_entry().audio_files);
        song
    }
}


/// The instruments a chart can be written for. `Unset` stands for a section or
/// track that names no instrument.
#[derive(Clone, Copy, Debug, PartialEq, Eq, Structural)]
pub enum Instrument {
    Unset,
    Guitar,
    Bass,
    Rhythm,
    GuitarCoop,
    GHLGuitar,
    GHLBass,
    Drums,
    Keys,
    Band,
    ProDrums,
}

impl Instrument {
    /// The row of the instrument in the chart bitmask; -1 for `Unset`.
    pub open spec fn row(self) -> int {
        match self {
            Instrument::Unset => -1,
            Instrument::Guitar => 0,
            Instrument::Bass => 1,
            Instrument::Rhythm => 2,
            Instrument::GuitarCoop => 3,
            Instrument::GHLGuitar => 4,
            Instrument::GHLBass => 5,
            Instrument::Drums => 6,
            Instrument::Keys => 7,
            Instrument::Band => 8,
            Instrument::ProDrums => 9,
        }
    }

    /// The row of the instrument in the chart bitmask; -1 for `Unset`.
    pub fn index(self) -> (r: i64)
        ensures
            r == self.row(),
    {
        match self {
            Instrument::Unset => -1,
            Instrument::Guitar => 0,
            Instrument::Bass => 1,
            Instrument::Rhythm => 2,
            Instrument::GuitarCoop => 3,
            Instrument::GHLGuitar => 4,
            Instrument::GHLBass => 5,
            Instrument::Drums => 6,
            Instrument::Keys => 7,
            Instrument::Band => 8,
            Instrument::ProDrums => 9,
        }
    }
}

/// Number of difficulties per instrument: easy, medium, hard, expert.
pub const DIFFICULTIES: i64 = 4;

/// The mask with the single bit at position `pos`.
pub open spec fn bit(pos: u64) -> i64 {
    1i64 << pos
}

/// The bit of instrument `inst` at difficulty `diff` (0 = easy .. 3 = expert).
pub open spec fn chart_bit(inst: Instrument, diff: int) -> i64 {
    bit((inst.row() * 4 + diff) as u64)
}

/// Whether the bitmask `charts` records a chart of `inst` at `diff`.
pub open spec fn has_chart(charts: i64, inst: Instrument, diff: int) -> bool {
    charts & chart_bit(inst, diff) != 0
}

/// A bitmask that sets no bit outside the ten instruments' four difficulties.
pub open spec fn valid_charts(charts: i64) -> bool {
    0 <= charts < 0x100_0000_0000
}

/// The bits that one playable chart contributes: its own, and for a drums
/// chart with a pro-drums hint the bit of the pro-drums row as well.
pub open spec fn chart_mask(inst: Instrument, diff: int, pro: bool) -> i64 {
    if inst == Instrument::Drums && pro {
        chart_bit(inst, diff) | chart_bit(Instrument::ProDrums, diff)
    } else {
        chart_bit(inst, diff)
    }
}

/// The bitmask `charts` after a chart of `inst` at `diff` has been recorded.
/// `hint` says that pro-drums notes were seen; the two flags are those of the
/// song's configuration.
pub open spec fn charts_with(
    charts: i64,
    inst: Instrument,
    diff: int,
    hint: bool,
    force_pro_drums: bool,
    force_five_lane: bool,
) -> i64 {
    charts | chart_mask(inst, diff, hint || force_pro_drums || force_five_lane)
}

/// Setting a chart bit keeps a valid bitmask valid, sets the bit asked for and
/// changes no bit of any other instrument and difficulty.
pub proof fn lemma_set_bit(charts: i64, pos: u64)
    requires
        pos < 40,
    ensures
        (charts | bit(pos)) & bit(pos) != 0,
        valid_charts(charts) ==> valid_charts(charts | bit(pos)),
        forall|other: u64|
            other < 40 && other != pos ==> (#[trigger] ((charts | bit(pos)) & bit(other)))
                == charts & bit(other),
{
    assert((charts | (1i64 << pos)) & (1i64 << pos) != 0) by (bit_vector)
        requires
            pos < 40,
    ;
    assert(0 <= charts < 0x100_0000_0000 ==> 0 <= (charts | (1i64 << pos)) < 0x100_0000_0000)
        by (bit_vector)
        requires
            pos < 40,
    ;
    assert forall|other: u64| other < 40 && other != pos implies (#[trigger] ((charts | bit(pos))
        & bit(other))) == charts & bit(other) by {
        assert(((charts | (1i64 << pos)) & (1i64 << other)) == charts & (1i64 << other))
            by (bit_vector)
            requires
                pos < 40,
                other < 40,
                other != pos,
        ;
    }
}

/// Records a playable chart of `inst` at difficulty `diff`. For drums the
/// pro-drums row gets the same difficulty when `flag` (a pro-drums hint) or
/// one of the song's two drum flags is set.
pub fn apply_charts(song: &mut SongEntry, inst: Instrument, flag: bool, diff: i64)
    requires
        inst != Instrument::Unset,
        0 <= diff <= 3,
    ensures
        final(song)@ == (EntryView {
            charts: charts_with(
                old(song).charts,
                inst,
                diff as int,
                flag,
                old(song).force_pro_drums,
                old(song).force_five_lane,
            ),
            ..old(song)@
        }),
        has_chart(final(song).charts, inst, diff as int),
        inst == Instrument::Drums && (flag || old(song).force_pro_drums || old(song).force_five_lane)
            ==> has_chart(final(song).charts, Instrument::ProDrums, diff as int),
        valid_charts(old(song).charts) ==> valid_charts(final(song).charts),
{
    let ghost before = song.charts;
    let pro = inst == Instrument::Drums && (flag || song.force_pro_drums || song.force_five_lane);
    if pro {
        let high: u64 = (Instrument::ProDrums.index() * DIFFICULTIES + diff) as u64;
        proof {
            lemma_set_bit(song.charts, high);
        }
        song.charts = song.charts | (1i64 << high);
    }
    let pos: u64 = (inst.index() * DIFFICULTIES + diff) as u64;
    proof {
        lemma_set_bit(song.charts, pos);
        if pro {
            let high = (36 + diff) as u64;
            assert(((before | (1i64 << high)) | (1i64 << pos)) == (before | ((1i64 << pos) | (1i64
                << high)))) by (bit_vector);
            assert(((before | (1i64 << high)) | (1i64 << pos)) & (1i64 << high) != 0)
                by (bit_vector)
                requires
                    high < 40,
            ;
        }
    }
    song.charts = song.charts | (1i64 << pos);
}


/// `song` with the text `value` in metadata slot `slot`.
pub open spec fn with_metadata(song: EntryView, slot: int, value: Seq<char>) -> EntryView {
    EntryView { metadata: song.metadata.update(slot, value), ..song }
}

/// `song` with the rating `value` in intensity slot `slot`.
pub open spec fn with_intensity(song: EntryView, slot: int, value: i8) -> EntryView {
    EntryView { intensities: song.intensities.update(slot, value), ..song }
}

impl SongEntry {
    /// Stores a text in one of the seven metadata slots.
    pub fn set_metadata(&mut self, slot: usize, value: String)
        requires
            slot < 7,
        ensures
            final(self)@ == with_metadata(old(self)@, slot as int, value@),
    {
        self.metadata[slot] = value;
        assert(self@.metadata =~= old(self)@.metadata.update(slot as int, value@));
    }

    /// Stores a rating in one of the ten intensity slots.
    pub fn set_intensity(&mut self, slot: usize, value: i8)
        requires
            slot < 10,
        ensures
            final(self)@ == with_intensity(old(self)@, slot as int, value),
    {
        self.intensities[slot] = value;
        assert(self@.intensities =~= old(self)@.intensities.update(slot as int, value));
    }
}


/// Recording a chart keeps a valid bitmask valid, sets the bit of the chart
/// (and, for drums with a hint or a forced flag, that of the pro-drums row at
/// the same difficulty), and changes the bit of no other instrument and
/// difficulty.
pub proof fn lemma_charts_with(
    charts: i64,
    inst: Instrument,
    diff: int,
    hint: bool,
    force_pro_drums: bool,
    force_five_lane: bool,
)
    requires
        inst != Instrument::Unset,
        0 <= diff <= 3,
    ensures
        valid_charts(charts) ==> valid_charts(
            charts_with(charts, inst, diff, hint, force_pro_drums, force_five_lane),
        ),
        has_chart(
            charts_with(charts, inst, diff, hint, force_pro_drums, force_five_lane),
            inst,
            diff,
        ),
        inst == Instrument::Drums && (hint || force_pro_drums || force_five_lane) ==> has_chart(
            charts_with(charts, inst, diff, hint, force_pro_drums, force_five_lane),
            Instrument::ProDrums,
            diff,
        ),
        forall|other: Instrument, level: int|
            other != Instrument::Unset && 0 <= level <= 3 && !(other == inst && level == diff) && !(
            other == Instrument::ProDrums && level == diff && inst == Instrument::Drums && (hint
                || force_pro_drums || force_five_lane)) ==> #[trigger] has_chart(
                charts_with(charts, inst, diff, hint, force_pro_drums, force_five_lane),
                other,
                level,
            ) == has_chart(charts, other, level),
{
    let pos = (inst.row() * 4 + diff) as u64;
    let high = (36 + diff) as u64;
    let pro = inst == Instrument::Drums && (hint || force_pro_drums || force_five_lane);
    let after = charts_with(charts, inst, diff, hint, force_pro_drums, force_five_lane);
    lemma_set_bit(charts, pos);
    lemma_set_bit(charts | bit(pos), high);
    assert((charts | ((1i64 << pos) | (1i64 << high))) == ((charts | (1i64 << pos)) | (1i64 << high)))
        by (bit_vector);
    assert(((charts | (1i64 << pos)) | (1i64 << high)) & (1i64 << pos) != 0) by (bit_vector)
        requires
            pos < 40,
    ;
    assert forall|other: Instrument, level: int|
        other != Instrument::Unset && 0 <= level <= 3 && !(other == inst && level == diff) && !(
        other == Instrument::ProDrums && level == diff && pro) implies #[trigger] has_chart(
        after,
        other,
        level,
    ) == has_chart(charts, other, level) by {
        let at = (other.row() * 4 + level) as u64;
        assert(at != pos);
        assert(((charts | bit(pos)) & bit(at)) == charts & bit(at));
        if pro {
            assert(at != high);
            assert((((charts | bit(pos)) | bit(high)) & bit(at)) == (charts | bit(pos)) & bit(at));
        }
    }
}

} // verus!
