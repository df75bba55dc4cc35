//! File organizer: classifies files that appear in Downloads and suggests
//! where they should live. Nothing moves without the user's approval; the
//! state here only keeps the pending suggestions.

use vstd::prelude::*;

use crate::paths::{
    extension_of, file_name_of, join_path, join_spec, opt_view, or_default, path_extension,
    path_file_name, path_starts_with, starts_with_path,
};
use crate::text::{short_tag, chars_eq_str, chars_of, concat_str, string_of, contains_str, has_prefix, has_substring, lower_text, starts_with_str, to_lowercase};

verus! {

/// A suggestion for where a file should be moved.
#[derive(Debug)]
pub struct MoveSuggestion {
    pub from: String,
    pub to: String,
    pub reason: String,
}

/// A pending move suggestion waiting for user approval.
#[derive(Debug)]
pub struct PendingSuggestion {
    pub suggestion: MoveSuggestion,
}

/// Organizer state.
#[derive(Debug)]
pub struct OrganizerState {
    /// Suggestions waiting for user approval.
    pub pending: Vec<PendingSuggestion>,
}

/// `(from, to, reason)` of a suggestion.
pub type SuggestionView = (Seq<char>, Seq<char>, Seq<char>);

impl View for MoveSuggestion {
    type V = SuggestionView;

    open spec fn view(&self) -> SuggestionView {
        (self.from@, self.to@, self.reason@)
    }
}

pub open spec fn pending_views(v: Seq<PendingSuggestion>) -> Seq<SuggestionView> {
    v.map_values(|p: PendingSuggestion| p.suggestion@)
}

impl View for OrganizerState {
    type V = Seq<SuggestionView>;

    open spec fn view(&self) -> Seq<SuggestionView> {
        pending_views(self.pending@)
    }
}

/// The user's folders as text; `None` where the platform names none.
pub struct UserDirs {
    pub home: String,
    pub downloads: Option<String>,
    pub pictures: Option<String>,
    pub videos: Option<String>,
    pub music: Option<String>,
    pub documents: Option<String>,
}

pub struct DirsView {
    pub home: Seq<char>,
    pub downloads: Option<Seq<char>>,
    pub pictures: Option<Seq<char>>,
    pub videos: Option<Seq<char>>,
    pub music: Option<Seq<char>>,
    pub documents: Option<Seq<char>>,
}

impl View for UserDirs {
    type V = DirsView;

    open spec fn view(&self) -> DirsView {
        DirsView {
            home: self.home@,
            downloads: opt_view(self.downloads),
            pictures: opt_view(self.pictures),
            videos: opt_view(self.videos),
            music: opt_view(self.music),
            documents: opt_view(self.documents),
        }
    }
}

/// What an extension says about a file.
#[derive(Clone, Copy, Debug, PartialEq, Eq, Structural)]
pub enum FileClass {
    Image,
    Video,
    Audio,
    Document,
    AppImage,
    /// Archives stay in Downloads: they need to be extracted.
    Archive,
    Other,
}

pub open spec fn class_of(ext: Seq<char>) -> FileClass {
    if ext == "jpg"@ || ext == "jpeg"@ || ext == "png"@ || ext == "gif"@ || ext == "webp"@
        || ext == "svg"@ || ext == "bmp"@ || ext == "tiff"@ || ext == "heic"@ {
        FileClass::Image
    } else if ext == "mp4"@ || ext == "mkv"@ || ext == "avi"@ || ext == "mov"@ || ext == "wmv"@
        || ext == "flv"@ || ext == "webm"@ {
        FileClass::Video
    } else if ext == "mp3"@ || ext == "flac"@ || ext == "wav"@ || ext == "ogg"@ || ext == "aac"@
        || ext == "m4a"@ {
        FileClass::Audio
    } else if ext == "pdf"@ || ext == "doc"@ || ext == "docx"@ || ext == "odt"@ || ext == "rtf"@
        || ext == "txt"@ || ext == "md"@ || ext == "xls"@ || ext == "xlsx"@ || ext == "ods"@
        || ext == "csv"@ || ext == "ppt"@ || ext == "pptx"@ || ext == "odp"@ {
        FileClass::Document
    } else if ext == "appimage"@ {
        FileClass::AppImage
    } else if ext == "zip"@ || ext == "tar"@ || ext == "gz"@ || ext == "xz"@ || ext == "bz2"@
        || ext == "7z"@ || ext == "rar"@ {
        FileClass::Archive
    } else {
        FileClass::Other
    }
}

/// A platform folder, or the named folder in home when there is none.
pub open spec fn dir_or_home(d: Option<Seq<char>>, home: Seq<char>, name: Seq<char>) -> Seq<char> {
    or_default(d, join_spec(home, name))
}

pub open spec fn pictures_dir(d: DirsView) -> Seq<char> {
    dir_or_home(d.pictures, d.home, "Pictures"@)
}

/// The folder a file belongs in by its extension, if any.
pub open spec fn dest_by_class(c: FileClass, d: DirsView) -> Option<Seq<char>> {
    match c {
        FileClass::Image => Some(pictures_dir(d)),
        FileClass::Video => Some(dir_or_home(d.videos, d.home, "Videos"@)),
        FileClass::Audio => Some(dir_or_home(d.music, d.home, "Music"@)),
        FileClass::Document => Some(dir_or_home(d.documents, d.home, "Documents"@)),
        FileClass::AppImage => Some(join_spec(d.home, "Applications"@)),
        _ => None,
    }
}

/// The folder a file belongs in by its (lowercased) name, if any.
pub open spec fn dest_by_name(name: Seq<char>, d: DirsView) -> Option<Seq<char>> {
    if has_substring(name, "resume"@) || has_substring(name, "cv"@) || has_substring(
        name,
        "curriculum"@,
    ) {
        Some(join_spec(join_spec(d.home, "Documents"@), "Career"@))
    } else if has_substring(name, "invoice"@) || has_substring(name, "receipt"@) || has_substring(
        name,
        "tax"@,
    ) {
        Some(join_spec(join_spec(d.home, "Documents"@), "Finance"@))
    } else if has_substring(name, "screenshot"@) || has_prefix(name, "screen"@) {
        Some(join_spec(pictures_dir(d), "Screenshots"@))
    } else {
        None
    }
}

/// Where a file should go, given its lowercased name and extension and
/// whether it lies in Downloads: by extension first, then by name; archives
/// and files outside Downloads stay put.
pub open spec fn dest_for(lname: Seq<char>, lext: Seq<char>, in_downloads: bool, d: DirsView) -> Option<Seq<char>> {
    let c = class_of(lext);
    if !in_downloads {
        None
    } else if c == FileClass::Archive {
        None
    } else if dest_by_class(c, d) is Some {
        dest_by_class(c, d)
    } else {
        dest_by_name(lname, d)
    }
}

/// The Downloads folder: the platform's, or `Downloads` in home.
pub open spec fn downloads_dir(d: DirsView) -> Seq<char> {
    dir_or_home(d.downloads, d.home, "Downloads"@)
}

/// Where a file in Downloads should go, by its path.
pub open spec fn destination(path: Seq<char>, d: DirsView) -> Option<Seq<char>> {
    match (path_file_name(path), path_extension(path)) {
        (Some(fname), Some(ext)) => dest_for(
            lower_text(fname),
            lower_text(ext),
            path_starts_with(path, downloads_dir(d)),
            d,
        ),
        _ => None,
    }
}

/// The suggestion for the file at `path` named `fname`: move it into its
/// destination, saying why.
pub open spec fn placed(
    path: Seq<char>,
    fname: Seq<char>,
    lname: Seq<char>,
    lext: Seq<char>,
    in_downloads: bool,
    d: DirsView,
) -> Option<SuggestionView> {
    match dest_for(lname, lext, in_downloads, d) {
        Some(dest) => Some((path, join_spec(dest, fname), fname + " looks like it belongs in "@ + dest)),
        None => None,
    }
}

/// The suggestion for a file, by its path.
pub open spec fn suggestion_for(path: Seq<char>, d: DirsView) -> Option<SuggestionView> {
    match (path_file_name(path), path_extension(path)) {
        (Some(fname), Some(ext)) => placed(
            path,
            fname,
            lower_text(fname),
            lower_text(ext),
            path_starts_with(path, downloads_dir(d)),
            d,
        ),
        _ => None,
    }
}

pub open spec fn suggestion_view(o: Option<MoveSuggestion>) -> Option<SuggestionView> {
    match o {
        Some(s) => Some(s@),
        None => None,
    }
}

fn dir_or_home_exec(d: &Option<String>, home: &str, name: &str) -> (r: String)
    ensures
        r@ == dir_or_home(opt_view(*d), home@, name@),
{
    match d {
        Some(p) => p.clone(),
        None => join_path(home, name),
    }
}

fn class_of_exec(e: &[char]) -> (c: FileClass)
    ensures
        c == class_of(e@),
{
    if chars_eq_str(e, "jpg") || chars_eq_str(e, "jpeg") || chars_eq_str(e, "png")
        || chars_eq_str(e, "gif") || chars_eq_str(e, "webp") || chars_eq_str(e, "svg")
        || chars_eq_str(e, "bmp") || chars_eq_str(e, "tiff") || chars_eq_str(e, "heic") {
        FileClass::Image
    } else if chars_eq_str(e, "mp4") || chars_eq_str(e, "mkv") || chars_eq_str(e, "avi")
        || chars_eq_str(e, "mov") || chars_eq_str(e, "wmv") || chars_eq_str(e, "flv")
        || chars_eq_str(e, "webm") {
        FileClass::Video
    } else if chars_eq_str(e, "mp3") || chars_eq_str(e, "flac") || chars_eq_str(e, "wav")
        || chars_eq_str(e, "ogg") || chars_eq_str(e, "aac") || chars_eq_str(e, "m4a") {
        FileClass::Audio
    } else if chars_eq_str(e, "pdf") || chars_eq_str(e, "doc") || chars_eq_str(e, "docx")
        || chars_eq_str(e, "odt") || chars_eq_str(e, "rtf") || chars_eq_str(e, "txt")
        || chars_eq_str(e, "md") || chars_eq_str(e, "xls") || chars_eq_str(e, "xlsx")
        || chars_eq_str(e, "ods") || chars_eq_str(e, "csv") || chars_eq_str(e, "ppt")
        || chars_eq_str(e, "pptx") || chars_eq_str(e, "odp") {
        FileClass::Document
    } else if chars_eq_str(e, "appimage") {
        FileClass::AppImage
    } else if chars_eq_str(e, "zip") || chars_eq_str(e, "tar") || chars_eq_str(e, "gz")
        || chars_eq_str(e, "xz") || chars_eq_str(e, "bz2") || chars_eq_str(e, "7z")
        || chars_eq_str(e, "rar") {
        FileClass::Archive
    } else {
        FileClass::Other
    }
}

fn dest_by_class_exec(c: FileClass, dirs: &UserDirs) -> (r: Option<String>)
    ensures
        opt_view(r) == dest_by_class(c, dirs@),
{
    match c {
        FileClass::Image => Some(dir_or_home_exec(&dirs.pictures, dirs.home.as_str(), "Pictures")),
        FileClass::Video => Some(dir_or_home_exec(&dirs.videos, dirs.home.as_str(), "Videos")),
        FileClass::Audio => Some(dir_or_home_exec(&dirs.music, dirs.home.as_str(), "Music")),
        FileClass::Document => Some(
            dir_or_home_exec(&dirs.documents, dirs.home.as_str(), "Documents"),
        ),
        FileClass::AppImage => Some(join_path(dirs.home.as_str(), "Applications")),
        _ => None,
    }
}

fn dest_by_name_exec(name: &[char], dirs: &UserDirs) -> (r: Option<String>)
    ensures
        opt_view(r) == dest_by_name(name@, dirs@),
{
    if contains_str(name, "resume") || contains_str(name, "cv") || contains_str(name, "curriculum") {
        let docs = join_path(dirs.home.as_str(), "Documents");
        Some(join_path(docs.as_str(), "Career"))
    } else if contains_str(name, "invoice") || contains_str(name, "receipt") || contains_str(
        name,
        "tax",
    ) {
        let docs = join_path(dirs.home.as_str(), "Documents");
        Some(join_path(docs.as_str(), "Finance"))
    } else if contains_str(name, "screenshot") || starts_with_str(name, "screen") {
        let pics = dir_or_home_exec(&dirs.pictures, dirs.home.as_str(), "Pictures");
        Some(join_path(pics.as_str(), "Screenshots"))
    } else {
        None
    }
}

/// The suggestion for the file at `path`, from what the path questions
/// gave: its file name, its lowercased name and extension, and whether it
/// lies in the Downloads folder.
pub fn place_file(
    path: &str,
    file_name: &str,
    lower_name: &str,
    lower_ext: &str,
    in_downloads: bool,
    dirs: &UserDirs,
) -> (r: Option<MoveSuggestion>)
    ensures
        suggestion_view(r) == placed(path@, file_name@, lower_name@, lower_ext@, in_downloads, dirs@),
{
    if !in_downloads {
        return None;
    }
    let ec = chars_of(lower_ext);
    let class = class_of_exec(ec.as_slice());
    if class == FileClass::Archive {
        return None;
    }
    let nc = chars_of(lower_name);
    let dest = match dest_by_class_exec(class, dirs) {
        Some(d) => d,
        None => match dest_by_name_exec(nc.as_slice(), dirs) {
            Some(d) => d,
            None => return None,
        },
    };
    let to = join_path(dest.as_str(), file_name);
    let head = concat_str(file_name, " looks like it belongs in ");
    let reason = concat_str(head.as_str(), dest.as_str());
    Some(MoveSuggestion { from: path.to_owned(), to, reason })
}

/// Classify a file and suggest where it should live, given the user's
/// folders. Returns None if no rule matches.
pub fn suggest_in(path: &str, dirs: &UserDirs) -> (r: Option<MoveSuggestion>)
    ensures
        suggestion_view(r) == suggestion_for(path@, dirs@),
{
    let fname = match file_name_of(path) {
        Some(n) => n,
        None => return None,
    };
    let fc = chars_of(fname.as_str());
    let name = string_of(to_lowercase(fc.as_slice()).as_slice());
    let ext_raw = match extension_of(path) {
        Some(e) => e,
        None => return None,
    };
    let ec = chars_of(ext_raw.as_str());
    let ext = string_of(to_lowercase(ec.as_slice()).as_slice());
    let downloads = dir_or_home_exec(&dirs.downloads, dirs.home.as_str(), "Downloads");
    let in_downloads = starts_with_path(path, downloads.as_str());
    place_file(path, fname.as_str(), name.as_str(), ext.as_str(), in_downloads, dirs)
}

/// The suggestion for a file, given the user's folders as the caller read
/// them; none without a home folder.
pub open spec fn suggestion_with(path: Seq<char>, dirs: Option<DirsView>) -> Option<SuggestionView> {
    match dirs {
        Some(d) => suggestion_for(path, d),
        None => None,
    }
}

/// Classify a file and suggest where it should live, among the user's
/// folders (`None` when the session has no home folder). Returns None if
/// no rule matches or there is no home directory.
pub fn suggest(path: &str, dirs: Option<&UserDirs>) -> (r: Option<MoveSuggestion>)
    ensures
        suggestion_view(r) == suggestion_with(
            path@,
            match dirs {
                Some(d) => Some(d@),
                None => None,
            },
        ),
{
    match dirs {
        Some(d) => suggest_in(path, d),
        None => None,
    }
}

// ---------------------------------------------------------------------------
// Pending suggestions
// ---------------------------------------------------------------------------

/// The pending list with entry `idx` removed; unchanged when out of range.
pub open spec fn without_entry(p: Seq<SuggestionView>, idx: int) -> Seq<SuggestionView> {
    if 0 <= idx < p.len() {
        p.remove(idx)
    } else {
        p
    }
}

/// What the organizer is told.
pub enum OrganizerMessage {
    /// A new file appeared in Downloads.
    FileDetected(String),
    /// User approved a move suggestion.
    ApproveSuggestion(usize),
    /// User dismissed a suggestion.
    DismissSuggestion(usize),
}

/// What the caller has to do after an update.
pub enum OrganizerAction {
    Nothing,
    /// Create the destination's folder and move the file.
    Move(MoveSuggestion),
}

impl OrganizerState {
    pub fn new() -> (s: Self)
        ensures
            s@ == Seq::<SuggestionView>::empty(),
    {
        let s = OrganizerState { pending: Vec::new() };
        assert(s@ =~= Seq::<SuggestionView>::empty());
        s
    }

    /// Queue a suggestion, if there is one.
    pub fn push(&mut self, suggestion: Option<MoveSuggestion>)
        ensures
            final(self)@ == match suggestion_view(suggestion) {
                Some(v) => old(self)@.push(v),
                None => old(self)@,
            },
    {
        if let Some(s) = suggestion {
            let ghost before = self@;
            let ghost v = s@;
            self.pending.push(PendingSuggestion { suggestion: s });
            assert(self@ =~= before.push(v));
        }
    }

    /// Take suggestion `idx` out of the queue for the move to be made.
    pub fn approve(&mut self, idx: usize) -> (r: Option<MoveSuggestion>)
        ensures
            final(self)@ == without_entry(old(self)@, idx as int),
            match r {
                Some(s) => idx < old(self)@.len() && s@ == old(self)@[idx as int],
                None => idx >= old(self)@.len(),
            },
    {
        if idx < self.pending.len() {
            let ghost before = self.pending@;
            let p = self.pending.remove(idx);
            assert(self@ =~= pending_views(before).remove(idx as int));
            Some(p.suggestion)
        } else {
            None
        }
    }

    /// Drop suggestion `idx`; out-of-range indices change nothing.
    pub fn dismiss(&mut self, idx: usize)
        ensures
            final(self)@ == without_entry(old(self)@, idx as int),
    {
        if idx < self.pending.len() {
            let ghost before = self.pending@;
            self.pending.remove(idx);
            assert(self@ =~= pending_views(before).remove(idx as int));
        }
    }

    /// Handle one message: queue a suggestion for a new file, hand an
    /// approved suggestion back to be carried out, or drop a dismissed one.
    /// `dirs` are the user's folders as the caller read them, `None` when
    /// the session has no home folder.
    pub fn update(&mut self, msg: OrganizerMessage, dirs: Option<&UserDirs>) -> (action: OrganizerAction)
        ensures
            match msg {
                OrganizerMessage::FileDetected(path) => {
                    &&& action is Nothing
                    &&& final(self)@ == match suggestion_with(
                        path@,
                        match dirs {
                            Some(d) => Some(d@),
                            None => None,
                        },
                    ) {
                        Some(v) => old(self)@.push(v),
                        None => old(self)@,
                    }
                },
                OrganizerMessage::ApproveSuggestion(idx) => {
                    &&& final(self)@ == without_entry(old(self)@, idx as int)
                    &&& match action {
                        OrganizerAction::Move(s) => idx < old(self)@.len() && s@ == old(self)@[idx as int],
                        OrganizerAction::Nothing => idx >= old(self)@.len(),
                    }
                },
                OrganizerMessage::DismissSuggestion(idx) => {
                    &&& action is Nothing
                    &&& final(self)@ == without_entry(old(self)@, idx as int)
                },
            },
    {
        match msg {
            OrganizerMessage::FileDetected(path) => {
                let s = suggest(path.as_str(), dirs);
                self.push(s);
                OrganizerAction::Nothing
            },
            OrganizerMessage::ApproveSuggestion(idx) => match self.approve(idx) {
                Some(s) => OrganizerAction::Move(s),
                None => OrganizerAction::Nothing,
            },
            OrganizerMessage::DismissSuggestion(idx) => {
                self.dismiss(idx);
                OrganizerAction::Nothing
            },
        }
    }
}

/// Approving and dismissing the same entry leave the same queue; only
/// approval hands the suggestion back.
pub proof fn law_approve_dismiss_agree(p: Seq<SuggestionView>, idx: int)
    ensures
        without_entry(p, idx).len() == if 0 <= idx < p.len() {
            p.len() - 1
        } else {
            p.len() as int
        },
        forall|j: int| 0 <= j < idx && j < p.len() ==> #[trigger] without_entry(p, idx)[j] == p[j],
        forall|j: int| 0 <= idx <= j && j + 1 < p.len() ==> #[trigger] without_entry(p, idx)[j] == p[j + 1],
{
}

/// Extensions (lowercased) of pictures, videos, music, documents and
/// archives.
pub open spec fn picture_exts() -> Seq<Seq<char>> {
    seq!["jpg"@, "jpeg"@, "png"@, "gif"@, "webp"@, "svg"@, "bmp"@, "tiff"@, "heic"@]
}

pub open spec fn video_exts() -> Seq<Seq<char>> {
    seq!["mp4"@, "mkv"@, "avi"@, "mov"@, "wmv"@, "flv"@, "webm"@]
}

pub open spec fn music_exts() -> Seq<Seq<char>> {
    seq!["mp3"@, "flac"@, "wav"@, "ogg"@, "aac"@, "m4a"@]
}

pub open spec fn document_exts() -> Seq<Seq<char>> {
    seq![
        "pdf"@, "doc"@, "docx"@, "odt"@, "rtf"@, "txt"@, "md"@, "xls"@, "xlsx"@, "ods"@, "csv"@,
        "ppt"@, "pptx"@, "odp"@,
    ]
}

pub open spec fn archive_exts() -> Seq<Seq<char>> {
    seq!["zip"@, "tar"@, "gz"@, "xz"@, "bz2"@, "7z"@, "rar"@]
}

/// A file in Downloads goes by its extension: pictures to the pictures
/// folder, videos to the videos folder, music to the music folder,
/// documents, spreadsheets and slides to the documents folder (each the
/// platform's, else the named folder in home), AppImages to
/// `~/Applications`; archives stay. A file outside Downloads stays.
pub proof fn law_destination_by_extension(lname: Seq<char>, lext: Seq<char>, d: DirsView)
    ensures
        picture_exts().contains(lext) ==> dest_for(lname, lext, true, d) == Some(
            or_default(d.pictures, join_spec(d.home, "Pictures"@)),
        ),
        video_exts().contains(lext) ==> dest_for(lname, lext, true, d) == Some(
            or_default(d.videos, join_spec(d.home, "Videos"@)),
        ),
        music_exts().contains(lext) ==> dest_for(lname, lext, true, d) == Some(
            or_default(d.music, join_spec(d.home, "Music"@)),
        ),
        document_exts().contains(lext) ==> dest_for(lname, lext, true, d) == Some(
            or_default(d.documents, join_spec(d.home, "Documents"@)),
        ),
        lext == "appimage"@ ==> dest_for(lname, lext, true, d) == Some(join_spec(d.home, "Applications"@)),
        archive_exts().contains(lext) ==> dest_for(lname, lext, true, d) is None,
        dest_for(lname, lext, false, d) is None,
{
    reveal_strlit("jpg");
    reveal_strlit("jpeg");
    reveal_strlit("png");
    reveal_strlit("gif");
    reveal_strlit("webp");
    reveal_strlit("svg");
    reveal_strlit("bmp");
    reveal_strlit("tiff");
    reveal_strlit("heic");
    reveal_strlit("mp4");
    reveal_strlit("mkv");
    reveal_strlit("avi");
    reveal_strlit("mov");
    reveal_strlit("wmv");
    reveal_strlit("flv");
    reveal_strlit("webm");
    reveal_strlit("mp3");
    reveal_strlit("flac");
    reveal_strlit("wav");
    reveal_strlit("ogg");
    reveal_strlit("aac");
    reveal_strlit("m4a");
    reveal_strlit("pdf");
    reveal_strlit("doc");
    reveal_strlit("docx");
    reveal_strlit("odt");
    reveal_strlit("rtf");
    reveal_strlit("txt");
    reveal_strlit("md");
    reveal_strlit("xls");
    reveal_strlit("xlsx");
    reveal_strlit("ods");
    reveal_strlit("csv");
    reveal_strlit("ppt");
    reveal_strlit("pptx");
    reveal_strlit("odp");
    reveal_strlit("appimage");
    reveal_strlit("zip");
    reveal_strlit("tar");
    reveal_strlit("gz");
    reveal_strlit("xz");
    reveal_strlit("bz2");
    reveal_strlit("7z");
    reveal_strlit("rar");
    assert(short_tag("jpg"@) == 7247984408397475);
    assert(short_tag("jpeg"@) == 15200124223983590573732);
    assert(short_tag("png"@) == 7247984341288707);
    assert(short_tag("gif"@) == 7177615429338739);
    assert(short_tag("webp"@) == 16528289586184076658548);
    assert(short_tag("svg"@) == 7247984609724211);
    assert(short_tag("bmp"@) == 7881303005333027);
    assert(short_tag("tiff"@) == 15052550341762423457604);
    assert(short_tag("heic"@) == 14609828695099492533892);
    assert(short_tag("mp4"@) == 3659178455336659);
    assert(short_tag("mkv"@) == 8303515403290323);
    assert(short_tag("avi"@) == 7388722098079251);
    assert(short_tag("mov"@) == 8303515537508051);
    assert(short_tag("wmv"@) == 8303515470399347);
    assert(short_tag("flv"@) == 8303515436844643);
    assert(short_tag("webm"@) == 16085567728415047419764);
    assert(short_tag("mp3"@) == 3588809711158995);
    assert(short_tag("flac"@) == 14609828132149773993572);
    assert(short_tag("wav"@) == 8303515067746163);
    assert(short_tag("ogg"@) == 7247984106407667);
    assert(short_tag("aac"@) == 6966508928370195);
    assert(short_tag("m4a"@) == 6825769930065619);
    assert(short_tag("pdf"@) == 7177615261566723);
    assert(short_tag("doc"@) == 6966509398132291);
    assert(short_tag("docx"@) == 17708881277270567683652);
    assert(short_tag("odt"@) == 8162777680054003);
    assert(short_tag("rtf"@) == 7177615798437667);
    assert(short_tag("txt"@) == 8162778351142723);
    assert(short_tag("md"@) == 3355444946);
    assert(short_tag("xls"@) == 8092409204311939);
    assert(short_tag("xlsx"@) == 17708882403170373863300);
    assert(short_tag("ods"@) == 8092408935876339);
    assert(short_tag("csv"@) == 8303515671725619);
    assert(short_tag("ppt"@) == 8162778082707203);
    assert(short_tag("pptx"@) == 17708882473539252258564);
    assert(short_tag("odp"@) == 7881302703343347);
    assert(short_tag("appimage"@) == 288304174123002024033564329089931727415940220440);
    assert(short_tag("zip"@) == 7881302871115683);
    assert(short_tag("tar"@) == 8022040091035459);
    assert(short_tag("gz"@) == 4093642354);
    assert(short_tag("xz"@) == 4093642626);
    assert(short_tag("bz2"@) == 3518441302525475);
    assert(short_tag("7z"@) == 4093641586);
    assert(short_tag("rar"@) == 8022040091035427);
    let e = lext;
    if picture_exts().contains(e) {
        let k = choose|k: int| 0 <= k < picture_exts().len() && picture_exts()[k] == e;
        if k == 0 {
            assert(e == "jpg"@);
            assert(short_tag(e) == 7247984408397475);
        }
        if k == 1 {
            assert(e == "jpeg"@);
            assert(short_tag(e) == 15200124223983590573732);
        }
        if k == 2 {
            assert(e == "png"@);
            assert(short_tag(e) == 7247984341288707);
        }
        if k == 3 {
            assert(e == "gif"@);
            assert(short_tag(e) == 7177615429338739);
        }
        if k == 4 {
            assert(e == "webp"@);
            assert(short_tag(e) == 16528289586184076658548);
        }
        if k == 5 {
            assert(e == "svg"@);
            assert(short_tag(e) == 7247984609724211);
        }
        if k == 6 {
            assert(e == "bmp"@);
            assert(short_tag(e) == 7881303005333027);
        }
        if k == 7 {
            assert(e == "tiff"@);
            assert(short_tag(e) == 15052550341762423457604);
        }
        if k == 8 {
            assert(e == "heic"@);
            assert(short_tag(e) == 14609828695099492533892);
        }
        assert(class_of(e) == FileClass::Image);
    }
    if video_exts().contains(e) {
        let k = choose|k: int| 0 <= k < video_exts().len() && video_exts()[k] == e;
        if k == 0 {
            assert(e == "mp4"@);
            assert(short_tag(e) == 3659178455336659);
        }
        if k == 1 {
            assert(e == "mkv"@);
            assert(short_tag(e) == 8303515403290323);
        }
        if k == 2 {
            assert(e == "avi"@);
            assert(short_tag(e) == 7388722098079251);
        }
        if k == 3 {
            assert(e == "mov"@);
            assert(short_tag(e) == 8303515537508051);
        }
        if k == 4 {
            assert(e == "wmv"@);
            assert(short_tag(e) == 8303515470399347);
        }
        if k == 5 {
            assert(e == "flv"@);
            assert(short_tag(e) == 8303515436844643);
        }
        if k == 6 {
            assert(e == "webm"@);
            assert(short_tag(e) == 16085567728415047419764);
        }
        assert(class_of(e) == FileClass::Video);
    }
    if music_exts().contains(e) {
        let k = choose|k: int| 0 <= k < music_exts().len() && music_exts()[k] == e;
        if k == 0 {
            assert(e == "mp3"@);
            assert(short_tag(e) == 3588809711158995);
        }
        if k == 1 {
            assert(e == "flac"@);
            assert(short_tag(e) == 14609828132149773993572);
        }
        if k == 2 {
            assert(e == "wav"@);
            assert(short_tag(e) == 8303515067746163);
        }
        if k == 3 {
            assert(e == "ogg"@);
            assert(short_tag(e) == 7247984106407667);
        }
        if k == 4 {
            assert(e == "aac"@);
            assert(short_tag(e) == 6966508928370195);
        }
        if k == 5 {
            assert(e == "m4a"@);
            assert(short_tag(e) == 6825769930065619);
        }
        assert(class_of(e) == FileClass::Audio);
    }
    if document_exts().contains(e) {
        let k = choose|k: int| 0 <= k < document_exts().len() && document_exts()[k] == e;
        if k == 0 {
            assert(e == "pdf"@);
            assert(short_tag(e) == 7177615261566723);
        }
        if k == 1 {
            assert(e == "doc"@);
            assert(short_tag(e) == 6966509398132291);
        }
        if k == 2 {
            assert(e == "docx"@);
            assert(short_tag(e) == 17708881277270567683652);
        }
        if k == 3 {
            assert(e == "odt"@);
            assert(short_tag(e) == 8162777680054003);
        }
        if k == 4 {
            assert(e == "rtf"@);
            assert(short_tag(e) == 7177615798437667);
        }
        if k == 5 {
            assert(e == "txt"@);
            assert(short_tag(e) == 8162778351142723);
        }
        if k == 6 {
            assert(e == "md"@);
            assert(short_tag(e) == 3355444946);
        }
        if k == 7 {
            assert(e == "xls"@);
            assert(short_tag(e) == 8092409204311939);
        }
        if k == 8 {
            assert(e == "xlsx"@);
            assert(short_tag(e) == 17708882403170373863300);
        }
        if k == 9 {
            assert(e == "ods"@);
            assert(short_tag(e) == 8092408935876339);
        }
        if k == 10 {
            assert(e == "csv"@);
            assert(short_tag(e) == 8303515671725619);
        }
        if k == 11 {
            assert(e == "ppt"@);
            assert(short_tag(e) == 8162778082707203);
        }
        if k == 12 {
            assert(e == "pptx"@);
            assert(short_tag(e) == 17708882473539252258564);
        }
        if k == 13 {
            assert(e == "odp"@);
            assert(short_tag(e) == 7881302703343347);
        }
        assert(class_of(e) == FileClass::Document);
    }
    if archive_exts().contains(e) {
        let k = choose|k: int| 0 <= k < archive_exts().len() && archive_exts()[k] == e;
        if k == 0 {
            assert(e == "zip"@);
            assert(short_tag(e) == 7881302871115683);
        }
        if k == 1 {
            assert(e == "tar"@);
            assert(short_tag(e) == 8022040091035459);
        }
        if k == 2 {
            assert(e == "gz"@);
            assert(short_tag(e) == 4093642354);
        }
        if k == 3 {
            assert(e == "xz"@);
            assert(short_tag(e) == 4093642626);
        }
        if k == 4 {
            assert(e == "bz2"@);
            assert(short_tag(e) == 3518441302525475);
        }
        if k == 5 {
            assert(e == "7z"@);
            assert(short_tag(e) == 4093641586);
        }
        if k == 6 {
            assert(e == "rar"@);
            assert(short_tag(e) == 8022040091035427);
        }
        assert(class_of(e) == FileClass::Archive);
    }
    if e == "appimage"@ {
        assert(short_tag(e) == 288304174123002024033564329089931727415940220440);
        assert(class_of(e) == FileClass::AppImage);
    }
}

/// A file of no listed kind goes by its name: resumes and CVs to
/// `Documents/Career`, invoices, receipts and taxes to
/// `Documents/Finance`, screenshots to `Screenshots` in the pictures
/// folder; anything else stays.
pub proof fn law_destination_by_name(lname: Seq<char>, lext: Seq<char>, d: DirsView)
    requires
        !picture_exts().contains(lext),
        !video_exts().contains(lext),
        !music_exts().contains(lext),
        !document_exts().contains(lext),
        !archive_exts().contains(lext),
        lext != "appimage"@,
    ensures
        (has_substring(lname, "resume"@) || has_substring(lname, "cv"@) || has_substring(lname, "curriculum"@))
            ==> dest_for(lname, lext, true, d) == Some(join_spec(join_spec(d.home, "Documents"@), "Career"@)),
        !(has_substring(lname, "resume"@) || has_substring(lname, "cv"@) || has_substring(lname, "curriculum"@))
            && (has_substring(lname, "invoice"@) || has_substring(lname, "receipt"@) || has_substring(lname, "tax"@))
            ==> dest_for(lname, lext, true, d) == Some(join_spec(join_spec(d.home, "Documents"@), "Finance"@)),
        !(has_substring(lname, "resume"@) || has_substring(lname, "cv"@) || has_substring(lname, "curriculum"@))
            && !(has_substring(lname, "invoice"@) || has_substring(lname, "receipt"@) || has_substring(lname, "tax"@))
            && (has_substring(lname, "screenshot"@) || has_prefix(lname, "screen"@))
            ==> dest_for(lname, lext, true, d) == Some(
            join_spec(or_default(d.pictures, join_spec(d.home, "Pictures"@)), "Screenshots"@),
        ),
        !has_substring(lname, "resume"@) && !has_substring(lname, "cv"@) && !has_substring(lname, "curriculum"@)
            && !has_substring(lname, "invoice"@) && !has_substring(lname, "receipt"@) && !has_substring(lname, "tax"@)
            && !has_substring(lname, "screenshot"@) && !has_prefix(lname, "screen"@)
            ==> dest_for(lname, lext, true, d) is None,
{
    reveal_strlit("jpg");
    reveal_strlit("jpeg");
    reveal_strlit("png");
    reveal_strlit("gif");
    reveal_strlit("webp");
    reveal_strlit("svg");
    reveal_strlit("bmp");
    reveal_strlit("tiff");
    reveal_strlit("heic");
    reveal_strlit("mp4");
    reveal_strlit("mkv");
    reveal_strlit("avi");
    reveal_strlit("mov");
    reveal_strlit("wmv");
    reveal_strlit("flv");
    reveal_strlit("webm");
    reveal_strlit("mp3");
    reveal_strlit("flac");
    reveal_strlit("wav");
    reveal_strlit("ogg");
    reveal_strlit("aac");
    reveal_strlit("m4a");
    reveal_strlit("pdf");
    reveal_strlit("doc");
    reveal_strlit("docx");
    reveal_strlit("odt");
    reveal_strlit("rtf");
    reveal_strlit("txt");
    reveal_strlit("md");
    reveal_strlit("xls");
    reveal_strlit("xlsx");
    reveal_strlit("ods");
    reveal_strlit("csv");
    reveal_strlit("ppt");
    reveal_strlit("pptx");
    reveal_strlit("odp");
    reveal_strlit("appimage");
    reveal_strlit("zip");
    reveal_strlit("tar");
    reveal_strlit("gz");
    reveal_strlit("xz");
    reveal_strlit("bz2");
    reveal_strlit("7z");
    reveal_strlit("rar");
    assert(short_tag("jpg"@) == 7247984408397475);
    assert(short_tag("jpeg"@) == 15200124223983590573732);
    assert(short_tag("png"@) == 7247984341288707);
    assert(short_tag("gif"@) == 7177615429338739);
    assert(short_tag("webp"@) == 16528289586184076658548);
    assert(short_tag("svg"@) == 7247984609724211);
    assert(short_tag("bmp"@) == 7881303005333027);
    assert(short_tag("tiff"@) == 15052550341762423457604);
    assert(short_tag("heic"@) == 14609828695099492533892);
    assert(short_tag("mp4"@) == 3659178455336659);
    assert(short_tag("mkv"@) == 8303515403290323);
    assert(short_tag("avi"@) == 7388722098079251);
    assert(short_tag("mov"@) == 8303515537508051);
    assert(short_tag("wmv"@) == 8303515470399347);
    assert(short_tag("flv"@) == 8303515436844643);
    assert(short_tag("webm"@) == 16085567728415047419764);
    assert(short_tag("mp3"@) == 3588809711158995);
    assert(short_tag("flac"@) == 14609828132149773993572);
    assert(short_tag("wav"@) == 8303515067746163);
    assert(short_tag("ogg"@) == 7247984106407667);
    assert(short_tag("aac"@) == 6966508928370195);
    assert(short_tag("m4a"@) == 6825769930065619);
    assert(short_tag("pdf"@) == 7177615261566723);
    assert(short_tag("doc"@) == 6966509398132291);
    assert(short_tag("docx"@) == 17708881277270567683652);
    assert(short_tag("odt"@) == 8162777680054003);
    assert(short_tag("rtf"@) == 7177615798437667);
    assert(short_tag("txt"@) == 8162778351142723);
    assert(short_tag("md"@) == 3355444946);
    assert(short_tag("xls"@) == 8092409204311939);
    assert(short_tag("xlsx"@) == 17708882403170373863300);
    assert(short_tag("ods"@) == 8092408935876339);
    assert(short_tag("csv"@) == 8303515671725619);
    assert(short_tag("ppt"@) == 8162778082707203);
    assert(short_tag("pptx"@) == 17708882473539252258564);
    assert(short_tag("odp"@) == 7881302703343347);
    assert(short_tag("appimage"@) == 288304174123002024033564329089931727415940220440);
    assert(short_tag("zip"@) == 7881302871115683);
    assert(short_tag("tar"@) == 8022040091035459);
    assert(short_tag("gz"@) == 4093642354);
    assert(short_tag("xz"@) == 4093642626);
    assert(short_tag("bz2"@) == 3518441302525475);
    assert(short_tag("7z"@) == 4093641586);
    assert(short_tag("rar"@) == 8022040091035427);
    let e = lext;
    assert(class_of(e) == FileClass::Other) by {
        assert(!picture_exts().contains(e));
        assert(picture_exts()[0] == "jpg"@);
        assert(picture_exts()[1] == "jpeg"@);
        assert(picture_exts()[2] == "png"@);
        assert(picture_exts()[3] == "gif"@);
        assert(picture_exts()[4] == "webp"@);
        assert(picture_exts()[5] == "svg"@);
        assert(picture_exts()[6] == "bmp"@);
        assert(picture_exts()[7] == "tiff"@);
        assert(picture_exts()[8] == "heic"@);
        assert(video_exts()[0] == "mp4"@);
        assert(video_exts()[1] == "mkv"@);
        assert(video_exts()[2] == "avi"@);
        assert(video_exts()[3] == "mov"@);
        assert(video_exts()[4] == "wmv"@);
        assert(video_exts()[5] == "flv"@);
        assert(video_exts()[6] == "webm"@);
        assert(music_exts()[0] == "mp3"@);
        assert(music_exts()[1] == "flac"@);
        assert(music_exts()[2] == "wav"@);
        assert(music_exts()[3] == "ogg"@);
        assert(music_exts()[4] == "aac"@);
        assert(music_exts()[5] == "m4a"@);
        assert(document_exts()[0] == "pdf"@);
        assert(document_exts()[1] == "doc"@);
        assert(document_exts()[2] == "docx"@);
        assert(document_exts()[3] == "odt"@);
        assert(document_exts()[4] == "rtf"@);
        assert(document_exts()[5] == "txt"@);
        assert(document_exts()[6] == "md"@);
        assert(document_exts()[7] == "xls"@);
        assert(document_exts()[8] == "xlsx"@);
        assert(document_exts()[9] == "ods"@);
        assert(document_exts()[10] == "csv"@);
        assert(document_exts()[11] == "ppt"@);
        assert(document_exts()[12] == "pptx"@);
        assert(document_exts()[13] == "odp"@);
        assert(archive_exts()[0] == "zip"@);
        assert(archive_exts()[1] == "tar"@);
        assert(archive_exts()[2] == "gz"@);
        assert(archive_exts()[3] == "xz"@);
        assert(archive_exts()[4] == "bz2"@);
        assert(archive_exts()[5] == "7z"@);
        assert(archive_exts()[6] == "rar"@);
    }
}

} // verus!
