//! What a song folder holds, told from the names of its files.

use crate::text::{chars_of, is_text, lowercase, lowered, string_of, string_views};
use vstd::prelude::*;
use vstd::slice::slice_subrange;

verus! {

/// The index of the last `.` in `name`, or -1 where there is none.
pub open spec fn last_dot(name: Seq<char>) -> int
    decreases name.len(),
{
    if name.len() == 0 {
        -1
    } else if name.last() == '.' {
        name.len() - 1
    } else {
        last_dot(name.drop_last())
    }
}

/// The stem of a file name: the part before its last `.`, or the whole name
/// where it has no `.` but at its front.
pub open spec fn file_stem(name: Seq<char>) -> Seq<char> {
    if last_dot(name) <= 0 {
        name
    } else {
        name.take(last_dot(name))
    }
}

/// The extension of a file name: the part after its last `.`, or nothing
/// where it has no `.` but at its front.
pub open spec fn file_extension(name: Seq<char>) -> Seq<char> {
    if last_dot(name) <= 0 {
        Seq::empty()
    } else {
        name.skip(last_dot(name) + 1)
    }
}

/// Whether a lower-case extension is that of a video.
pub open spec fn is_video_ext(ext: Seq<char>) -> bool {
    ext == "mp4"@ || ext == "avi"@ || ext == "webm"@ || ext == "vp8"@ || ext == "ogv"@ || ext
        == "mpeg"@
}

/// Whether a lower-case extension is that of an image.
pub open spec fn is_image_ext(ext: Seq<char>) -> bool {
    ext == "png"@ || ext == "jpg"@ || ext == "jpeg"@
}

/// Whether a lower-case extension is that of an audio file.
pub open spec fn is_audio_ext(ext: Seq<char>) -> bool {
    ext == "ogg"@ || ext == "mp3"@ || ext == "wav"@ || ext == "opus"@
}

/// Whether a lower-case stem is one of the audio stems of a song.
pub open spec fn is_audio_stem(stem: Seq<char>) -> bool {
    stem == "guitar"@ || stem == "bass"@ || stem == "rhythm"@ || stem == "vocals"@ || stem
        == "vocals_1"@ || stem == "vocals_2"@ || stem == "drums"@ || stem == "drums_1"@ || stem
        == "drums_2"@ || stem == "drums_3"@ || stem == "drums_4"@ || stem == "keys"@ || stem
        == "song"@ || stem == "crowd"@
}

/// What a folder holds of a song.
#[derive(Debug, Clone, PartialEq, Eq)]
pub struct FolderContents {
    /// A file `notes.mid` is there.
    pub mid: bool,
    /// A file `notes.chart` is there.
    pub chart: bool,
    /// A file `song.ini` is there.
    pub ini: bool,
    /// A video file named `video` is there.
    pub video: bool,
    /// The name of the chart file to read: `notes.mid` where there is one,
    /// else `notes.chart`; empty where there is neither.
    pub chart_name: String,
    /// The name of the configuration file, as it is spelled in the folder.
    pub ini_name: String,
    /// The name of the image file named `album`.
    pub album_art_name: String,
    /// The names of the audio stems, in the order they were listed.
    pub audio_files: Vec<String>,
    /// An image file named `background` is there.
    pub image: bool,
    /// The name of that image file.
    pub image_name: String,
    /// The name of the video file.
    pub video_name: String,
}

/// The mathematical content of a [`FolderContents`].
pub struct FolderView {
    pub mid: bool,
    pub chart: bool,
    pub ini: bool,
    pub video: bool,
    pub chart_name: Seq<char>,
    pub ini_name: Seq<char>,
    pub album_art_name: Seq<char>,
    pub audio_files: Seq<Seq<char>>,
    pub image: bool,
    pub image_name: Seq<char>,
    pub video_name: Seq<char>,
}

impl View for FolderContents {
    type V = FolderView;

    open spec fn view(&self) -> FolderView {
        FolderView {
            mid: self.mid,
            chart: self.chart,
            ini: self.ini,
            video: self.video,
            chart_name: self.chart_name@,
            ini_name: self.ini_name@,
            album_art_name: self.album_art_name@,
            audio_files: string_views(self.audio_files@),
            image: self.image,
            image_name: self.image_name@,
            video_name: self.video_name@,
        }
    }
}

/// A folder in which nothing has been found.
pub open spec fn empty_folder() -> FolderView {
    FolderView {
        mid: false,
        chart: false,
        ini: false,
        video: false,
        chart_name: Seq::empty(),
        ini_name: Seq::empty(),
        album_art_name: Seq::empty(),
        audio_files: Seq::empty(),
        image: false,
        image_name: Seq::empty(),
        video_name: Seq::empty(),
    }
}

/// What is known of a folder after one more file name. Stem and extension
/// count in lower case.
pub open spec fn classify_step(found: FolderView, file: Seq<char>) -> FolderView {
    classify_parts(found, file, lowercase(file_stem(file)), lowercase(file_extension(file)))
}

/// What is known of a folder after the file `file`, of which `stem` and
/// `ext` are stem and extension in lower case. Where both `notes.mid` and
/// `notes.chart` are there, the MIDI file is the one to read.
pub open spec fn classify_parts(
    found: FolderView,
    file: Seq<char>,
    stem: Seq<char>,
    ext: Seq<char>,
) -> FolderView {
    if stem == "notes"@ {
        if ext == "mid"@ {
            FolderView { mid: true, chart_name: file, ..found }
        } else if ext == "chart"@ {
            FolderView {
                chart: true,
                chart_name: if found.mid {
                    found.chart_name
                } else {
                    file
                },
                ..found
            }
        } else {
            found
        }
    } else if stem == "song"@ && ext == "ini"@ {
        FolderView { ini: true, ini_name: file, ..found }
    } else if stem == "video"@ && is_video_ext(ext) {
        FolderView { video: true, video_name: file, ..found }
    } else if is_image_ext(ext) {
        if stem == "background"@ {
            FolderView { image: true, image_name: file, ..found }
        } else if stem == "album"@ {
            FolderView { album_art_name: file, ..found }
        } else {
            found
        }
    } else if is_audio_stem(stem) && is_audio_ext(ext) {
        FolderView { audio_files: found.audio_files.push(file), ..found }
    } else {
        found
    }
}

/// What is known of a folder after the file names `files`, taken in order.
pub open spec fn classified(found: FolderView, files: Seq<Seq<char>>) -> FolderView
    decreases files.len(),
{
    if files.len() == 0 {
        found
    } else {
        classified(classify_step(found, files[0]), files.drop_first())
    }
}

/// Whether a folder may hold a song: it has a chart file or a configuration.
pub open spec fn is_candidate(found: FolderView) -> bool {
    found.mid || found.chart || found.ini
}

fn find_last_dot(name: &[char]) -> (at: Option<usize>)
    ensures
        match at {
            Some(i) => last_dot(name@) == i as int && i < name@.len(),
            None => last_dot(name@) == -1,
        },
{
    let mut i: usize = name.len();
    assert(name@.take(i as int) =~= name@);
    while i > 0
        invariant
            i <= name.len(),
            last_dot(name@.take(i as int)) == last_dot(name@),
        decreases i,
    {
        if name[i - 1] == '.' {
            return Some(i - 1);
        }
        assert(name@.take(i as int).drop_last() =~= name@.take(i - 1));
        i -= 1;
    }
    None
}

/// Stem and extension of a file name, both in lower case.
fn stem_and_extension(name: &[char]) -> (parts: (Vec<char>, Vec<char>))
    ensures
        parts.0@ == lowercase(file_stem(name@)),
        parts.1@ == lowercase(file_extension(name@)),
{
    match find_last_dot(name) {
        Some(at) => {
            if at > 0 && at < name.len() {
                let stem = slice_subrange(name, 0, at);
                let ext = slice_subrange(name, at + 1, name.len());
                assert(stem@ =~= name@.take(at as int));
                assert(ext@ =~= name@.skip(at + 1));
                return (lowered(stem), lowered(ext));
            }
        },
        None => {},
    }
    let none: Vec<char> = Vec::new();
    assert(none@ =~= Seq::<char>::empty());
    (lowered(name), lowered(&none))
}

fn video_ext(ext: &[char]) -> (yes: bool)
    ensures
        yes == is_video_ext(ext@),
{
    is_text(ext, "mp4") || is_text(ext, "avi") || is_text(ext, "webm") || is_text(ext, "vp8")
        || is_text(ext, "ogv") || is_text(ext, "mpeg")
}

fn image_ext(ext: &[char]) -> (yes: bool)
    ensures
        yes == is_image_ext(ext@),
{
    is_text(ext, "png") || is_text(ext, "jpg") || is_text(ext, "jpeg")
}

fn audio_ext(ext: &[char]) -> (yes: bool)
    ensures
        yes == is_audio_ext(ext@),
{
    is_text(ext, "ogg") || is_text(ext, "mp3") || is_text(ext, "wav") || is_text(ext, "opus")
}

fn audio_stem(stem: &[char]) -> (yes: bool)
    ensures
        yes == is_audio_stem(stem@),
{
    is_text(stem, "guitar") || is_text(stem, "bass") || is_text(stem, "rhythm") || is_text(
        stem,
        "vocals",
    ) || is_text(stem, "vocals_1") || is_text(stem, "vocals_2") || is_text(stem, "drums")
        || is_text(stem, "drums_1") || is_text(stem, "drums_2") || is_text(stem, "drums_3")
        || is_text(stem, "drums_4") || is_text(stem, "keys") || is_text(stem, "song") || is_text(
        stem,
        "crowd",
    )
}

impl FolderContents {
    /// A folder in which nothing has been found.
    pub fn new() -> (found: FolderContents)
        ensures
            found@ == empty_folder(),
    {
        let found = FolderContents {
            mid: false,
            chart: false,
            ini: false,
            video: false,
            chart_name: String::new(),
            ini_name: String::new(),
            album_art_name: String::new(),
            audio_files: Vec::new(),
            image: false,
            image_name: String::new(),
            video_name: String::new(),
        };
        assert(found@.audio_files =~= empty_folder().audio_files);
        found
    }

    /// Takes note of one more file of the folder.
    pub fn add_file(&mut self, file: &str)
        ensures
            final(self)@ == classify_step(old(self)@, file@),
    {
        let name = chars_of(file);
        let (stem, ext) = stem_and_extension(&name);
        self.add_parts(&name, &stem, &ext);
    }

    /// Takes note of the file `name`, of which `stem` and `ext` are stem and
    /// extension in lower case.
    pub fn add_parts(&mut self, name: &[char], stem: &[char], ext: &[char])
        ensures
            final(self)@ == classify_parts(old(self)@, name@, stem@, ext@),
    {
        if is_text(stem, "notes") {
            if is_text(ext, "mid") {
                self.mid = true;
                self.chart_name = string_of(name);
            } else if is_text(ext, "chart") {
                self.chart = true;
                if !self.mid {
                    self.chart_name = string_of(name);
                }
            }
        } else if is_text(stem, "song") && is_text(ext, "ini") {
            self.ini = true;
            self.ini_name = string_of(name);
        } else if is_text(stem, "video") && video_ext(ext) {
            self.video = true;
            self.video_name = string_of(name);
        } else if image_ext(ext) {
            if is_text(stem, "background") {
                self.image = true;
                self.image_name = string_of(name);
            } else if is_text(stem, "album") {
                self.album_art_name = string_of(name);
            }
        } else if audio_stem(stem) && audio_ext(ext) {
            self.audio_files.push(string_of(name));
            assert(self@.audio_files =~= old(self)@.audio_files.push(name@));
        }
    }

    /// Whether the folder may hold a song.
    pub fn is_candidate(&self) -> (yes: bool)
        ensures
            yes == is_candidate(self@),
    {
        self.mid || self.chart || self.ini
    }
}

/// Tells what a folder holds from the names of its files.
pub fn classify(files: &Vec<String>) -> (found: FolderContents)
    ensures
        found@ == classified(empty_folder(), string_views(files@)),
{
    let mut found = FolderContents::new();
    let ghost all = string_views(files@);
    let mut i: usize = 0;
    assert(all.skip(0) =~= all);
    while i < files.len()
        invariant
            i <= files.len(),
            all == string_views(files@),
            classified(found@, all.skip(i as int)) == classified(empty_folder(), all),
        decreases files.len() - i,
    {
        assert(all.skip(i as int).drop_first() =~= all.skip(i + 1));
        assert(all.skip(i as int)[0] == files@[i as int]@);
        found.add_file(files[i].as_str());
        i += 1;
    }
    found
}

} // verus!
