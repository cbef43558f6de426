//! The scanner: from what a song folder holds to the record of its song,
//! and from a list of folders to the list of their songs without duplicates.

use crate::cache::{faithful, storable};
use crate::chart::{chart_keeps, chart_outcome, lemma_chart_keeps, read_chart};
use crate::entry::{default_entry, entry_views, valid_charts, EntryView, SongEntry};
use crate::folder::{classified, classify, empty_folder, is_candidate, FolderContents, FolderView};
use crate::hash::{md5_digest, md5_of};
use crate::ini::{ini_outcome, lemma_ini_keeps, read_ini};
use crate::midi::{lemma_midi_keeps, midi_file_outcome, read_midi, smf_tracks};
use crate::text::{
    chars_of, copy_range, file_text, lemma_trim_shorter, lowercase, lowered, starts_with, string_of,
    string_views, trim, trimmed,
};
use vstd::prelude::*;
use vstd::slice::slice_subrange;

verus! {

/// Whether `c` separates the parts of a path: `/` or `\`.
pub open spec fn is_separator(c: char) -> bool {
    c == '/' || c == '\\'
}

/// The index of the first separator in `s`, or the length of `s`.
pub open spec fn first_separator(s: Seq<char>) -> int
    decreases s.len(),
{
    if s.len() == 0 || is_separator(s[0]) {
        0
    } else {
        1 + first_separator(s.drop_first())
    }
}

/// The index of the last separator in `s`, or -1.
pub open spec fn last_separator(s: Seq<char>) -> int
    decreases s.len(),
{
    if s.len() == 0 {
        -1
    } else if is_separator(s.last()) {
        s.len() - 1
    } else {
        last_separator(s.drop_last())
    }
}

/// The path of a folder below the scan root: the folder's path without one
/// separator at its end, without the root at its front, and without one
/// separator at the front of what is left.
pub open spec fn relative_folder(folder: Seq<char>, root: Seq<char>) -> Seq<char> {
    let whole = if folder.len() > 0 && is_separator(folder.last()) {
        folder.drop_last()
    } else {
        folder
    };
    let below = if root.is_prefix_of(whole) {
        whole.skip(root.len() as int)
    } else {
        whole
    };
    if below.len() > 0 && is_separator(below[0]) {
        below.drop_first()
    } else {
        below
    }
}

/// `s` with every `\` turned into `/`.
pub open spec fn with_slashes(s: Seq<char>) -> Seq<char> {
    Seq::new(
        s.len(),
        |i: int|
            if s[i] == '\\' {
                '/'
            } else {
                s[i]
            },
    )
}

/// The path that the record of a song stores. Local profile: the folder's
/// path in lower case. Cloud profile: the path below the root, with forward
/// slashes and a `/` in front, in the case it has on disk.
pub open spec fn stored_path(folder: Seq<char>, root: Seq<char>, cloud_format: bool) -> Seq<char> {
    if cloud_format {
        seq!['/'] + with_slashes(relative_folder(folder, root))
    } else {
        lowercase(folder)
    }
}

/// The text that stands in for a missing piece of metadata.
pub open spec fn default_metadata(slot: int) -> Seq<char> {
    if slot == 0 {
        "Unknown Name"@
    } else if slot == 1 {
        "Unknown Artist"@
    } else if slot == 2 {
        "Unknown Album"@
    } else if slot == 3 {
        "Unknown Genre"@
    } else if slot == 4 {
        "Unknown Year"@
    } else if slot == 5 {
        "Unknown Charter"@
    } else {
        "Unknown Playlist"@
    }
}

/// Whether a text is empty but for whitespace.
pub open spec fn is_blank(s: Seq<char>) -> bool {
    trim(s).len() == 0
}

/// The seven pieces of metadata, each blank one replaced by its default.
pub open spec fn filled_metadata(metadata: Seq<Seq<char>>) -> Seq<Seq<char>> {
    Seq::new(
        7,
        |i: int|
            if is_blank(metadata[i]) {
                default_metadata(i)
            } else {
                metadata[i]
            },
    )
}

/// The playlist that the path of a folder below the root gives: the path up
/// to its last separator, empty where it has none.
pub open spec fn folder_playlist(relative: Seq<char>) -> Seq<char> {
    if last_separator(relative) < 0 {
        Seq::empty()
    } else {
        relative.take(last_separator(relative))
    }
}

/// The record with its playlist fields settled. Where the configuration
/// names no playlist, the folder's path gives it: the playlist label keeps
/// the case of the path, the top-level playlist is its first part in lower
/// case. Where it names one, the label is that playlist and, after a `\`,
/// the sub-playlist if there is one.
pub open spec fn with_playlist(song: EntryView, relative: Seq<char>) -> EntryView {
    if song.top_level_playlist.len() == 0 {
        let label = folder_playlist(relative);
        EntryView {
            metadata: song.metadata.update(6, label),
            top_level_playlist: if label.len() > 0 {
                lowercase(label.take(first_separator(label)))
            } else {
                song.top_level_playlist
            },
            sub_playlist: Seq::empty(),
            ..song
        }
    } else {
        EntryView {
            metadata: song.metadata.update(
                6,
                if song.sub_playlist.len() > 0 {
                    song.top_level_playlist + seq!['\\'] + song.sub_playlist
                } else {
                    song.top_level_playlist
                },
            ),
            ..song
        }
    }
}

/// The record with what the folder's files tell: video, chart name, and in
/// the cloud profile the names of audio, art and backgrounds.
pub open spec fn with_contents(song: EntryView, found: FolderView, cloud_format: bool)
    -> EntryView {
    let plain = EntryView {
        video_background: found.video,
        chart_name: found.chart_name,
        date_added: 0,
        ..song
    };
    if cloud_format {
        EntryView {
            album_art_name: found.album_art_name,
            audio_files: found.audio_files,
            image_background: found.image,
            image_background_name: found.image_name,
            video_background_name: found.video_name,
            ..plain
        }
    } else {
        plain
    }
}

/// The record after the chart file has been read: a MIDI file where the
/// folder has one, else the `.chart` file, whose metadata counts only when
/// the configuration was not valid.
pub open spec fn with_chart(song: EntryView, found: FolderView, chart: Seq<u8>, valid: bool)
    -> EntryView {
    if found.mid {
        midi_file_outcome(song, chart)
    } else if found.chart {
        chart_outcome(song, file_text(chart), !valid)
    } else {
        song
    }
}

/// The record of the song in a folder as its files give it, before defaults
/// and playlist are settled: `ini` holds the bytes of its `song.ini` (none
/// where the file is missing), `chart` those of its chart file.
pub open spec fn parsed_entry(
    root: Seq<char>,
    folder: Seq<char>,
    cloud_format: bool,
    found: FolderView,
    ini: Seq<u8>,
    chart: Seq<u8>,
) -> EntryView {
    let start = EntryView {
        folder_path: stored_path(folder, root, cloud_format),
        ..default_entry()
    };
    let configured = ini_outcome(start, file_text(ini));
    let charted = with_chart(configured.0, found, chart, configured.1);
    with_contents(charted, found, cloud_format)
}

/// The record of the song in a folder: what its files give, with a default
/// for every blank piece of metadata, the playlist settled, and `checksum`,
/// the MD5 of the chart file, as checksum.
pub open spec fn scanned_entry(
    root: Seq<char>,
    folder: Seq<char>,
    cloud_format: bool,
    found: FolderView,
    ini: Seq<u8>,
    chart: Seq<u8>,
    checksum: Seq<u8>,
) -> EntryView {
    let described = parsed_entry(root, folder, cloud_format, found, ini, chart);
    let filled = EntryView { metadata: filled_metadata(described.metadata), ..described };
    let placed = with_playlist(filled, relative_folder(folder, root));
    EntryView { checksum, ..placed }
}

/// The bytes of a file that may be missing: none for a missing one.
pub open spec fn bytes_or_none(file: Option<&[u8]>) -> Seq<u8> {
    match file {
        Some(bytes) => bytes@,
        None => Seq::empty(),
    }
}

fn find_first_separator(s: &[char]) -> (at: usize)
    ensures
        at == first_separator(s@),
        at <= s@.len(),
{
    let mut i: usize = 0;
    assert(s@.skip(0) =~= s@);
    while i < s.len() && !(s[i] == '/' || s[i] == '\\')
        invariant
            i <= s.len(),
            i + first_separator(s@.skip(i as int)) == first_separator(s@),
        decreases s.len() - i,
    {
        assert(s@.skip(i as int).drop_first() =~= s@.skip(i + 1));
        i += 1;
    }
    i
}

fn find_last_separator(s: &[char]) -> (at: Option<usize>)
    ensures
        match at {
            Some(i) => last_separator(s@) == i as int && i < s@.len(),
            None => last_separator(s@) == -1,
        },
{
    let mut i: usize = s.len();
    assert(s@.take(i as int) =~= s@);
    while i > 0
        invariant
            i <= s.len(),
            last_separator(s@.take(i as int)) == last_separator(s@),
        decreases i,
    {
        if s[i - 1] == '/' || s[i - 1] == '\\' {
            return Some(i - 1);
        }
        assert(s@.take(i as int).drop_last() =~= s@.take(i - 1));
        i -= 1;
    }
    None
}

/// The path of a folder below the scan root.
pub fn relative_path(folder: &[char], root: &str) -> (below: Vec<char>)
    ensures
        below@ == relative_folder(folder@, root@),
{
    let mut to: usize = folder.len();
    if to > 0 && (folder[to - 1] == '/' || folder[to - 1] == '\\') {
        to -= 1;
    }
    let whole = slice_subrange(folder, 0, to);
    assert(to < folder.len() ==> whole@ =~= folder@.drop_last());
    assert(to == folder.len() ==> whole@ =~= folder@);
    let mut from: usize = 0;
    if starts_with(whole, root) {
        from = chars_of(root).len();
    }
    let below = slice_subrange(whole, from, whole.len());
    assert(below@ =~= whole@.skip(from as int));
    if below.len() > 0 && (below[0] == '/' || below[0] == '\\') {
        copy_range(below, 1, below.len())
    } else {
        copy_range(below, 0, below.len())
    }
}

fn slashed(s: &[char]) -> (out: Vec<char>)
    ensures
        out@ == seq!['/'] + with_slashes(s@),
{
    let mut out: Vec<char> = Vec::new();
    out.push('/');
    let mut i: usize = 0;
    while i < s.len()
        invariant
            i <= s.len(),
            out@.len() == i + 1,
            out@[0] == '/',
            forall|j: int| 0 <= j < i ==> out@[j + 1] == with_slashes(s@)[j],
        decreases s.len() - i,
    {
        if s[i] == '\\' {
            out.push('/');
        } else {
            out.push(s[i]);
        }
        i += 1;
    }
    assert(out@ =~= seq!['/'] + with_slashes(s@));
    out
}

fn default_text(slot: usize) -> (text: String)
    ensures
        text@ == default_metadata(slot as int),
{
    if slot == 0 {
        "Unknown Name".to_owned()
    } else if slot == 1 {
        "Unknown Artist".to_owned()
    } else if slot == 2 {
        "Unknown Album".to_owned()
    } else if slot == 3 {
        "Unknown Genre".to_owned()
    } else if slot == 4 {
        "Unknown Year".to_owned()
    } else if slot == 5 {
        "Unknown Charter".to_owned()
    } else {
        "Unknown Playlist".to_owned()
    }
}

fn fill_defaults(song: &mut SongEntry)
    ensures
        final(song)@ == (EntryView { metadata: filled_metadata(old(song)@.metadata), ..old(song)@ }),
{
    let mut slot: usize = 0;
    while slot < 7
        invariant
            slot <= 7,
            song@.metadata.len() == 7,
            song@ == (EntryView { metadata: song@.metadata, ..old(song)@ }),
            forall|i: int|
                0 <= i < slot ==> song@.metadata[i] == filled_metadata(old(song)@.metadata)[i],
            forall|i: int| slot <= i < 7 ==> song@.metadata[i] == old(song)@.metadata[i],
        decreases 7 - slot,
    {
        let blank = trimmed(&chars_of(song.metadata[slot].as_str())).len() == 0;
        if blank {
            song.set_metadata(slot, default_text(slot));
        }
        slot += 1;
    }
    assert(song@.metadata =~= filled_metadata(old(song)@.metadata));
}

fn copy_strings(names: &Vec<String>) -> (out: Vec<String>)
    ensures
        string_views(out@) == string_views(names@),
{
    let mut out: Vec<String> = Vec::new();
    let mut i: usize = 0;
    while i < names.len()
        invariant
            i <= names.len(),
            out@.len() == i,
            forall|j: int| 0 <= j < i ==> out@[j]@ == names@[j]@,
        decreases names.len() - i,
    {
        out.push(names[i].clone());
        i += 1;
    }
    assert(string_views(out@) =~= string_views(names@));
    out
}

fn describe(song: &mut SongEntry, found: &FolderContents, cloud_format: bool)
    ensures
        final(song)@ == with_contents(old(song)@, found@, cloud_format),
{
    song.video_background = found.video;
    song.chart_name = found.chart_name.clone();
    song.date_added = 0;
    if cloud_format {
        song.album_art_name = found.album_art_name.clone();
        song.audio_files = copy_strings(&found.audio_files);
        song.image_background = found.image;
        song.image_background_name = found.image_name.clone();
        song.video_background_name = found.video_name.clone();
        assert(song@.audio_files =~= found@.audio_files);
    }
}

fn place(song: &mut SongEntry, relative: &[char])
    ensures
        final(song)@ == with_playlist(old(song)@, relative@),
{
    if song.top_level_playlist.as_str().is_empty() {
        let label: Vec<char> = match find_last_separator(relative) {
            Some(at) => copy_range(relative, 0, at),
            None => Vec::new(),
        };
        assert(label@ =~= folder_playlist(relative@));
        if label.len() > 0 {
            let first = find_first_separator(&label);
            let top = slice_subrange(&label, 0, first);
            assert(top@ =~= label@.take(first as int));
            song.top_level_playlist = string_of(&lowered(top));
        }
        song.set_metadata(6, string_of(&label));
        song.sub_playlist = String::new();
    } else {
        let mut label = chars_of(song.top_level_playlist.as_str());
        let sub = chars_of(song.sub_playlist.as_str());
        if sub.len() > 0 {
            label.push('\\');
            let mut i: usize = 0;
            while i < sub.len()
                invariant
                    i <= sub.len(),
                    label@ == song.top_level_playlist@ + seq!['\\'] + sub@.take(i as int),
                decreases sub.len() - i,
            {
                label.push(sub[i]);
                assert(sub@.take(i + 1) =~= sub@.take(i as int).push(sub@[i as int]));
                i += 1;
            }
            assert(sub@.take(sub@.len() as int) =~= sub@);
        }
        song.set_metadata(6, string_of(&label));
    }
}

fn begin(path: &[char], relative: &[char], cloud_format: bool) -> (song: SongEntry)
    ensures
        song@ == (EntryView {
            folder_path: if cloud_format {
                seq!['/'] + with_slashes(relative@)
            } else {
                lowercase(path@)
            },
            ..default_entry()
        }),
{
    let mut song = SongEntry::default();
    if cloud_format {
        song.folder_path = string_of(&slashed(relative));
    } else {
        song.folder_path = string_of(&lowered(path));
    }
    song
}

fn configure(song: &mut SongEntry, ini: Option<&[u8]>) -> (valid: bool)
    ensures
        final(song)@ == ini_outcome(old(song)@, file_text(bytes_or_none(ini))).0,
        valid == ini_outcome(old(song)@, file_text(bytes_or_none(ini))).1,
{
    match ini {
        Some(bytes) => read_ini(song, bytes),
        None => {
            let none: Vec<u8> = Vec::new();
            assert(none@ =~= Seq::<u8>::empty());
            read_ini(song, none.as_slice())
        },
    }
}

fn read_notes(song: &mut SongEntry, found: &FolderContents, chart: &[u8], valid: bool)
    ensures
        final(song)@ == with_chart(old(song)@, found@, chart@, valid),
{
    if found.mid {
        read_midi(song, chart);
    } else if found.chart {
        read_chart(song, chart, !valid);
    }
}

fn finish(song: &mut SongEntry, relative: &[char], digest: [u8; 16])
    ensures
        final(song)@ == (EntryView {
            checksum: digest@,
            ..with_playlist(
                EntryView { metadata: filled_metadata(old(song)@.metadata), ..old(song)@ },
                relative@,
            )
        }),
{
    fill_defaults(song);
    place(song, relative);
    song.checksum = digest;
}

/// Builds the record of the song in the folder `folder` below `root`:
/// `found` tells what the folder holds, `ini` is the contents of its
/// `song.ini` where it has one, `chart` the contents of its chart file, and
/// `checksum` the MD5 of the latter.
pub fn entry_with_checksum(
    root: &str,
    folder: &str,
    cloud_format: bool,
    found: &FolderContents,
    ini: Option<&[u8]>,
    chart: &[u8],
    checksum: [u8; 16],
) -> (song: SongEntry)
    ensures
        song@ == scanned_entry(
            root@,
            folder@,
            cloud_format,
            found@,
            bytes_or_none(ini),
            chart@,
            checksum@,
        ),
{
    let path = chars_of(folder);
    let relative = relative_path(&path, root);
    let mut song = begin(&path, &relative, cloud_format);
    let valid = configure(&mut song, ini);
    read_notes(&mut song, found, chart, valid);
    describe(&mut song, found, cloud_format);
    finish(&mut song, &relative, checksum);
    song
}

/// Builds the record of the song in the folder `folder` below `root`, with
/// the MD5 of the chart file as its checksum.
pub fn build_entry(
    root: &str,
    folder: &str,
    cloud_format: bool,
    found: &FolderContents,
    ini: Option<&[u8]>,
    chart: &[u8],
) -> (song: SongEntry)
    ensures
        song@ == scanned_entry(
            root@,
            folder@,
            cloud_format,
            found@,
            bytes_or_none(ini),
            chart@,
            md5_digest(chart@)@,
        ),
{
    entry_with_checksum(root, folder, cloud_format, found, ini, chart, md5_of(chart))
}

/// Whether one of `entries` has the checksum `digest`.
pub open spec fn has_checksum(entries: Seq<EntryView>, digest: Seq<u8>) -> bool {
    exists|i: int| 0 <= i < entries.len() && (#[trigger] entries[i]).checksum == digest
}

/// Whether no two of `entries` have the same checksum.
pub open spec fn distinct_checksums(entries: Seq<EntryView>) -> bool {
    forall|i: int, j: int|
        0 <= i < entries.len() && 0 <= j < entries.len() && i != j ==> (#[trigger] entries[i]).checksum
            != (#[trigger] entries[j]).checksum
}

/// What became of a folder that was handed to the scanner.
#[derive(Clone, Copy, Debug, PartialEq, Eq, Structural)]
pub enum ScanOutcome {
    /// Its song was added to the list.
    Accepted,
    /// A song with the same chart file is in the list already.
    Duplicate,
    /// The folder has neither `notes.mid` nor `notes.chart`, though its
    /// configuration is valid.
    NoChart,
    /// The folder has neither `notes.mid` nor `notes.chart`, and no valid
    /// configuration either: it is no song folder.
    Invalid,
}

/// Whether the bytes of a `song.ini` make a valid configuration: whether
/// the text opens a `song` section.
pub open spec fn valid_ini(ini: Seq<u8>) -> bool {
    ini_outcome(default_entry(), file_text(ini)).1
}

/// The list of songs after one more folder, of whose chart file `checksum`
/// is the MD5: a folder without a chart file, and one whose checksum a song
/// of the list has already, leave the list as it is; any other adds its
/// record at the end.
pub open spec fn scan_step(
    entries: Seq<EntryView>,
    root: Seq<char>,
    cloud_format: bool,
    folder: Seq<char>,
    found: FolderView,
    ini: Seq<u8>,
    chart: Seq<u8>,
    checksum: Seq<u8>,
) -> Seq<EntryView> {
    if !(found.mid || found.chart) || has_checksum(entries, checksum) {
        entries
    } else {
        entries.push(scanned_entry(root, folder, cloud_format, found, ini, chart, checksum))
    }
}

/// The state of a scan: the songs accepted so far, in the order in which
/// their folders came.
pub struct Scanner {
    root: String,
    cloud_format: bool,
    songs: Vec<SongEntry>,
}

/// What becomes of a folder without a chart file.
fn without_chart(ini: Option<&[u8]>) -> (outcome: ScanOutcome)
    ensures
        outcome == if valid_ini(bytes_or_none(ini)) {
            ScanOutcome::NoChart
        } else {
            ScanOutcome::Invalid
        },
{
    let mut scratch = SongEntry::default();
    if configure(&mut scratch, ini) {
        ScanOutcome::NoChart
    } else {
        ScanOutcome::Invalid
    }
}

fn same_digest(a: &[u8; 16], b: &[u8; 16]) -> (same: bool)
    ensures
        same == (a@ == b@),
{
    let mut i: usize = 0;
    while i < 16
        invariant
            i <= 16,
            forall|j: int| 0 <= j < i ==> a@[j] == b@[j],
        decreases 16 - i,
    {
        if a[i] != b[i] {
            return false;
        }
        i += 1;
    }
    assert(a@ =~= b@);
    true
}

impl Scanner {
    /// The records accepted so far.
    pub closed spec fn entries(&self) -> Seq<EntryView> {
        entry_views(self.songs@)
    }

    /// The root of the scan.
    pub closed spec fn root(&self) -> Seq<char> {
        self.root@
    }

    /// Whether the scan writes records for the cloud profile.
    pub closed spec fn cloud_format(&self) -> bool {
        self.cloud_format
    }

    /// What every scanner keeps: no two accepted songs share a checksum.
    pub closed spec fn wf(&self) -> bool {
        distinct_checksums(entry_views(self.songs@))
    }

    /// A scan of the tree below `root` that has accepted nothing yet.
    pub fn new(root: &str, cloud_format: bool) -> (scanner: Scanner)
        ensures
            scanner.wf(),
            scanner.entries() == Seq::<EntryView>::empty(),
            scanner.root() == root@,
            scanner.cloud_format() == cloud_format,
    {
        let scanner = Scanner { root: root.to_owned(), cloud_format, songs: Vec::new() };
        assert(entry_views(scanner.songs@) =~= Seq::<EntryView>::empty());
        scanner
    }

    fn knows(&self, digest: &[u8; 16]) -> (known: bool)
        ensures
            known == has_checksum(self.entries(), digest@),
    {
        let mut i: usize = 0;
        while i < self.songs.len()
            invariant
                i <= self.songs.len(),
                forall|j: int| 0 <= j < i ==> (#[trigger] self.entries()[j]).checksum != digest@,
            decreases self.songs.len() - i,
        {
            if same_digest(&self.songs[i].checksum, digest) {
                assert(self.entries()[i as int].checksum == digest@);
                return true;
            }
            i += 1;
        }
        false
    }

    /// Hands one folder to the scanner: `found` tells what it holds, `ini`
    /// is the contents of its `song.ini` where it has one, `chart` the
    /// contents of its chart file, `checksum` the MD5 of the latter. The
    /// song is added unless the folder has no chart file or an accepted song
    /// has the same checksum.
    pub fn add_song(
        &mut self,
        folder: &str,
        found: &FolderContents,
        ini: Option<&[u8]>,
        chart: &[u8],
        checksum: [u8; 16],
    ) -> (outcome: ScanOutcome)
        requires
            old(self).wf(),
        ensures
            final(self).wf(),
            final(self).root() == old(self).root(),
            final(self).cloud_format() == old(self).cloud_format(),
            final(self).entries() == scan_step(
                old(self).entries(),
                old(self).root(),
                old(self).cloud_format(),
                folder@,
                found@,
                bytes_or_none(ini),
                chart@,
                checksum@,
            ),
            outcome == ScanOutcome::NoChart <==> !(found.mid || found.chart) && valid_ini(
                bytes_or_none(ini),
            ),
            outcome == ScanOutcome::Invalid <==> !(found.mid || found.chart) && !valid_ini(
                bytes_or_none(ini),
            ),
            outcome == ScanOutcome::Duplicate <==> (found.mid || found.chart) && has_checksum(
                old(self).entries(),
                checksum@,
            ),
            outcome == ScanOutcome::Accepted ==> final(self).entries().len() == old(self).entries().len()
                + 1,
    {
        if !(found.mid || found.chart) {
            return without_chart(ini);
        }
        if self.knows(&checksum) {
            return ScanOutcome::Duplicate;
        }
        let song = entry_with_checksum(
            self.root.as_str(),
            folder,
            self.cloud_format,
            found,
            ini,
            chart,
            checksum,
        );
        let ghost before = self.entries();
        self.songs.push(song);
        proof {
            assert(self.entries() =~= before.push(song@));
            assert forall|i: int, j: int|
                0 <= i < self.entries().len() && 0 <= j < self.entries().len() && i
                    != j implies (#[trigger] self.entries()[i]).checksum != (
            #[trigger] self.entries()[j]).checksum by {
                if i < before.len() && j < before.len() {
                    assert(before[i].checksum != before[j].checksum);
                }
            }
        }
        ScanOutcome::Accepted
    }

    /// Hands one folder to the scanner, as [`Scanner::add_song`] does, with
    /// the MD5 of the chart file as checksum. A folder without a chart file
    /// is passed over without its checksum being taken.
    pub fn scan_song(
        &mut self,
        folder: &str,
        found: &FolderContents,
        ini: Option<&[u8]>,
        chart: &[u8],
    ) -> (outcome: ScanOutcome)
        requires
            old(self).wf(),
        ensures
            final(self).wf(),
            final(self).root() == old(self).root(),
            final(self).cloud_format() == old(self).cloud_format(),
            final(self).entries() == scan_step(
                old(self).entries(),
                old(self).root(),
                old(self).cloud_format(),
                folder@,
                found@,
                bytes_or_none(ini),
                chart@,
                md5_digest(chart@)@,
            ),
            outcome == ScanOutcome::NoChart <==> !(found.mid || found.chart) && valid_ini(
                bytes_or_none(ini),
            ),
            outcome == ScanOutcome::Invalid <==> !(found.mid || found.chart) && !valid_ini(
                bytes_or_none(ini),
            ),
            outcome == ScanOutcome::Duplicate <==> (found.mid || found.chart) && has_checksum(
                old(self).entries(),
                md5_digest(chart@)@,
            ),
            outcome == ScanOutcome::Accepted ==> final(self).entries().len() == old(self).entries().len()
                + 1,
    {
        if !(found.mid || found.chart) {
            return without_chart(ini);
        }
        self.add_song(folder, found, ini, chart, md5_of(chart))
    }

    /// The number of songs accepted so far.
    pub fn len(&self) -> (n: usize)
        ensures
            n == self.entries().len(),
    {
        self.songs.len()
    }

    /// Ends the scan and hands out the songs, in the order they were accepted.
    pub fn into_songs(self) -> (songs: Vec<SongEntry>)
        requires
            self.wf(),
        ensures
            entry_views(songs@) == self.entries(),
            distinct_checksums(entry_views(songs@)),
    {
        self.songs
    }
}

/// One folder of the tree, as read from disk.
#[derive(Debug, Clone, PartialEq, Eq)]
pub struct SongFolder {
    /// The path of the folder.
    pub path: String,
    /// The names of the files in it.
    pub files: Vec<String>,
    /// The contents of its `song.ini`, where it has one that could be read.
    pub ini: Option<Vec<u8>>,
    /// The contents of its chart file, where it has one that could be read.
    pub chart: Option<Vec<u8>>,
}

/// The bytes of a file that may be missing: none for a missing one.
pub open spec fn contents_or_none(file: Option<Vec<u8>>) -> Seq<u8> {
    match file {
        Some(bytes) => bytes@,
        None => Seq::empty(),
    }
}

/// The list of songs after the folder `folder`: a folder that is no
/// candidate, or whose chart file could not be read, leaves it as it is.
pub open spec fn scan_folder_step(
    entries: Seq<EntryView>,
    root: Seq<char>,
    cloud_format: bool,
    folder: SongFolder,
) -> Seq<EntryView> {
    let found = classified(empty_folder(), string_views(folder.files@));
    if is_candidate(found) && folder.chart is Some {
        scan_step(
            entries,
            root,
            cloud_format,
            folder.path@,
            found,
            contents_or_none(folder.ini),
            contents_or_none(folder.chart),
            md5_digest(contents_or_none(folder.chart))@,
        )
    } else {
        entries
    }
}

/// The list of songs after the folders `folders`, taken in order.
pub open spec fn scan_all(
    entries: Seq<EntryView>,
    root: Seq<char>,
    cloud_format: bool,
    folders: Seq<SongFolder>,
) -> Seq<EntryView>
    decreases folders.len(),
{
    if folders.len() == 0 {
        entries
    } else {
        scan_all(
            scan_folder_step(entries, root, cloud_format, folders[0]),
            root,
            cloud_format,
            folders.drop_first(),
        )
    }
}

/// Scans the folders of a tree below `root`, given in the order of the
/// traversal: each candidate folder with a chart file yields a song, unless
/// an earlier folder had the same chart file.
pub fn scan_folder(root: &str, folders: &Vec<SongFolder>, cloud_format: bool) -> (songs: Vec<
    SongEntry,
>)
    ensures
        entry_views(songs@) == scan_all(Seq::empty(), root@, cloud_format, folders@),
        distinct_checksums(entry_views(songs@)),
{
    let mut scanner = Scanner::new(root, cloud_format);
    let mut i: usize = 0;
    assert(folders@.skip(0) =~= folders@);
    while i < folders.len()
        invariant
            i <= folders.len(),
            scanner.wf(),
            scanner.root() == root@,
            scanner.cloud_format() == cloud_format,
            scan_all(scanner.entries(), root@, cloud_format, folders@.skip(i as int)) == scan_all(
                Seq::empty(),
                root@,
                cloud_format,
                folders@,
            ),
        decreases folders.len() - i,
    {
        assert(folders@.skip(i as int).drop_first() =~= folders@.skip(i + 1));
        let folder = &folders[i];
        let found = classify(&folder.files);
        if found.is_candidate() {
            match &folder.chart {
                Some(chart) => {
                    let ini: Option<&[u8]> = match &folder.ini {
                        Some(bytes) => Some(bytes.as_slice()),
                        None => None,
                    };
                    scanner.scan_song(folder.path.as_str(), &found, ini, chart.as_slice());
                },
                None => {},
            }
        }
        i += 1;
    }
    scanner.into_songs()
}

/// Every default text has a character.
pub proof fn lemma_default_metadata(slot: int)
    ensures
        default_metadata(slot).len() > 0,
{
    reveal_strlit("Unknown Name");
    reveal_strlit("Unknown Artist");
    reveal_strlit("Unknown Album");
    reveal_strlit("Unknown Genre");
    reveal_strlit("Unknown Year");
    reveal_strlit("Unknown Charter");
    reveal_strlit("Unknown Playlist");
}

/// After the defaults are filled in, each of the seven pieces of metadata
/// has a character: a blank one has become its default.
pub proof fn lemma_filled_metadata(metadata: Seq<Seq<char>>)
    ensures
        filled_metadata(metadata).len() == 7,
        forall|slot: int| 0 <= slot < 7 ==> (#[trigger] filled_metadata(metadata)[slot]).len() > 0,
        forall|slot: int|
            0 <= slot < 7 && is_blank(metadata[slot]) ==> #[trigger] filled_metadata(metadata)[slot]
                == default_metadata(slot),
        forall|slot: int|
            0 <= slot < 7 && !is_blank(metadata[slot]) ==> #[trigger] filled_metadata(
                metadata,
            )[slot] == metadata[slot],
{
    assert forall|slot: int| 0 <= slot < 7 implies (#[trigger] filled_metadata(
        metadata,
    )[slot]).len() > 0 by {
        lemma_default_metadata(slot);
        lemma_trim_shorter(metadata[slot]);
    }
}

/// What the chart file does to a record, whichever kind it is: it changes
/// the charts, the lyrics flag and the metadata at most.
proof fn lemma_with_chart(song: EntryView, found: FolderView, chart: Seq<u8>, valid: bool)
    ensures
        chart_keeps(song, with_chart(song, found, chart, valid)),
{
    if found.mid {
        match smf_tracks(chart) {
            Some(tracks) => {
                lemma_midi_keeps(song, tracks);
            },
            None => {},
        }
    } else if found.chart {
        lemma_chart_keeps(song, file_text(chart), !valid);
    }
}

/// What holds of the record of every scanned song: its checksum is the one
/// that was taken of its chart file; name, artist, album, genre, year and charter are not
/// empty, each being what the files gave or, where that was blank, its
/// default; the guitar-coop intensity is 0; the chart bitmask sets no bit
/// outside the ten instruments' four difficulties; and where it can be
/// written to a cache file, it is read back as it was.
pub proof fn lemma_scanned_entry(
    root: Seq<char>,
    folder: Seq<char>,
    cloud_format: bool,
    found: FolderView,
    ini: Seq<u8>,
    chart: Seq<u8>,
    checksum: Seq<u8>,
)
    requires
        checksum.len() == 16,
    ensures
        ({
            let e = scanned_entry(root, folder, cloud_format, found, ini, chart, checksum);
            &&& e.checksum == checksum
            &&& e.metadata.len() == 7
            &&& forall|slot: int| 0 <= slot < 6 ==> (#[trigger] e.metadata[slot]).len() > 0
            &&& forall|slot: int|
                0 <= slot < 6 ==> #[trigger] e.metadata[slot] == if is_blank(
                    parsed_entry(root, folder, cloud_format, found, ini, chart).metadata[slot],
                ) {
                    default_metadata(slot)
                } else {
                    parsed_entry(root, folder, cloud_format, found, ini, chart).metadata[slot]
                }
            &&& e.intensities.len() == 10
            &&& e.intensities[3] == 0
            &&& valid_charts(e.charts)
            &&& !e.is_enc
            &&& e.date_added == 0
            &&& e.chart_name == found.chart_name
            &&& storable(e, cloud_format) ==> faithful(e, cloud_format)
        }),
{
    let start = EntryView {
        folder_path: stored_path(folder, root, cloud_format),
        ..default_entry()
    };
    let configured = ini_outcome(start, file_text(ini));
    let charted = with_chart(configured.0, found, chart, configured.1);
    let described = with_contents(charted, found, cloud_format);
    let filled = EntryView { metadata: filled_metadata(described.metadata), ..described };
    let placed = with_playlist(filled, relative_folder(folder, root));
    let e = EntryView { checksum, ..placed };
    assert(e == scanned_entry(root, folder, cloud_format, found, ini, chart, checksum));
    lemma_ini_keeps(start, file_text(ini));
    lemma_with_chart(configured.0, found, chart, configured.1);
    lemma_filled_metadata(described.metadata);
    assert(charted.intensities == configured.0.intensities);
    assert(e.intensities == charted.intensities);
    assert(valid_charts(start.charts));
    assert(e.charts == charted.charts);
    assert forall|slot: int| 0 <= slot < 6 implies (#[trigger] e.metadata[slot]).len() > 0
        && e.metadata[slot] == filled_metadata(described.metadata)[slot] by {
        assert(e.metadata[slot] == filled.metadata[slot]);
    }
    if !cloud_format {
        assert(e.audio_files == start.audio_files);
        assert(e.audio_files =~= Seq::<Seq<char>>::empty());
    }
}

/// One more folder never removes or reorders the songs accepted before, and
/// never makes two songs share a checksum; and once a folder with a chart
/// file has been handed in, a song with the checksum of that file is in the
/// list, so that a later folder whose chart file has the same checksum adds
/// nothing.
pub proof fn lemma_scan_step(
    entries: Seq<EntryView>,
    root: Seq<char>,
    cloud_format: bool,
    folder: Seq<char>,
    found: FolderView,
    ini: Seq<u8>,
    chart: Seq<u8>,
    checksum: Seq<u8>,
)
    requires
        distinct_checksums(entries),
    ensures
        ({
            let after = scan_step(entries, root, cloud_format, folder, found, ini, chart, checksum);
            &&& distinct_checksums(after)
            &&& entries.is_prefix_of(after)
            &&& found.mid || found.chart ==> has_checksum(after, checksum)
            &&& forall|
                later: Seq<char>,
                later_found: FolderView,
                later_ini: Seq<u8>,
                later_chart: Seq<u8>,
            |
                found.mid || found.chart ==> #[trigger] scan_step(
                    after,
                    root,
                    cloud_format,
                    later,
                    later_found,
                    later_ini,
                    later_chart,
                    checksum,
                ) == after
        }),
{
    let after = scan_step(entries, root, cloud_format, folder, found, ini, chart, checksum);
    if !(found.mid || found.chart) || has_checksum(entries, checksum) {
        assert(entries =~= after.subrange(0, entries.len() as int));
    } else {
        let e = scanned_entry(root, folder, cloud_format, found, ini, chart, checksum);
        assert(after == entries.push(e));
        assert(after[entries.len() as int].checksum == checksum);
        assert(entries =~= after.subrange(0, entries.len() as int));
        assert forall|i: int, j: int|
            0 <= i < after.len() && 0 <= j < after.len() && i != j implies (#[trigger] after[i]).checksum
            != (#[trigger] after[j]).checksum by {
            if i < entries.len() && j < entries.len() {
                assert(entries[i].checksum != entries[j].checksum);
            } else if i < entries.len() {
                assert(entries[i].checksum != checksum);
            } else {
                assert(entries[j].checksum != checksum);
            }
        }
    }
}

/// A scan never removes or reorders the songs accepted before it, and never
/// makes two songs share a checksum: of the folders with one chart file the
/// first stays.
pub proof fn lemma_scan_all(
    entries: Seq<EntryView>,
    root: Seq<char>,
    cloud_format: bool,
    folders: Seq<SongFolder>,
)
    requires
        distinct_checksums(entries),
    ensures
        distinct_checksums(scan_all(entries, root, cloud_format, folders)),
        entries.is_prefix_of(scan_all(entries, root, cloud_format, folders)),
    decreases folders.len(),
{
    if folders.len() > 0 {
        let first = folders[0];
        let found = classified(empty_folder(), string_views(first.files@));
        let next = scan_folder_step(entries, root, cloud_format, first);
        if is_candidate(found) && first.chart is Some {
            lemma_scan_step(
                entries,
                root,
                cloud_format,
                first.path@,
                found,
                contents_or_none(first.ini),
                contents_or_none(first.chart),
                md5_digest(contents_or_none(first.chart))@,
            );
        } else {
            assert(entries =~= next.subrange(0, entries.len() as int));
        }
        lemma_scan_all(next, root, cloud_format, folders.drop_first());
        let last = scan_all(next, root, cloud_format, folders.drop_first());
        assert(entries =~= last.subrange(0, entries.len() as int));
    }
}

} // verus!
