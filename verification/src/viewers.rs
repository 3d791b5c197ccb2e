//! Which kind of file a path is, and which external viewer opens it.

use vstd::prelude::*;
use crate::config::ViewerConfig;
use crate::path::{extension, path_extension};
use crate::text::{str_eq, to_lowercase, lowercase};

verus! {

/// The kinds of file that the viewers tell apart.
#[derive(Debug, Clone, Copy, PartialEq, Eq, Structural)]
pub enum FileType {
    Image,
    Video,
    Pdf,
    Document,
    Directory,
    Other,
}

/// The (lowercase) extensions of images.
pub open spec fn is_image_extension(e: Seq<char>) -> bool {
    e == "jpg"@ || e == "jpeg"@ || e == "png"@ || e == "gif"@ || e == "webp"@ || e == "bmp"@
        || e == "svg"@ || e == "tiff"@ || e == "tif"@ || e == "ico"@ || e == "avif"@
}

/// The (lowercase) extensions of videos.
pub open spec fn is_video_extension(e: Seq<char>) -> bool {
    e == "mp4"@ || e == "mkv"@ || e == "avi"@ || e == "mov"@ || e == "wmv"@ || e == "flv"@
        || e == "webm"@ || e == "m4v"@ || e == "mpg"@ || e == "mpeg"@
}

/// The kind of a file: a directory as such, else by its extension in
/// lowercase; a file without extension is `Other`, one with an unknown
/// extension a `Document`.
pub open spec fn file_type_of(is_dir: bool, ext: Option<Seq<char>>) -> FileType {
    if is_dir {
        FileType::Directory
    } else {
        match ext {
            Some(e) => {
                let l = lowercase(e);
                if is_image_extension(l) {
                    FileType::Image
                } else if is_video_extension(l) {
                    FileType::Video
                } else if l == "pdf"@ {
                    FileType::Pdf
                } else {
                    FileType::Document
                }
            },
            None => FileType::Other,
        }
    }
}

/// A file (not a directory) whose lowercase extension is one of jpg, jpeg,
/// png, gif, webp, bmp, svg, tiff, tif, ico or avif is an image, and only
/// such a file is.
pub proof fn lemma_image_files(is_dir: bool, ext: Option<Seq<char>>)
    ensures
        file_type_of(is_dir, ext) == FileType::Image <==> !is_dir && ext is Some && set![
            "jpg"@, "jpeg"@, "png"@, "gif"@, "webp"@, "bmp"@, "svg"@, "tiff"@, "tif"@, "ico"@, "avif"@,
        ].contains(lowercase(ext->0)),
{
}

fn image_extension(e: &str) -> (r: bool)
    ensures
        r == is_image_extension(e@),
{
    str_eq(e, "jpg") || str_eq(e, "jpeg") || str_eq(e, "png") || str_eq(e, "gif") || str_eq(e, "webp")
        || str_eq(e, "bmp") || str_eq(e, "svg") || str_eq(e, "tiff") || str_eq(e, "tif") || str_eq(e, "ico")
        || str_eq(e, "avif")
}

fn video_extension(e: &str) -> (r: bool)
    ensures
        r == is_video_extension(e@),
{
    str_eq(e, "mp4") || str_eq(e, "mkv") || str_eq(e, "avi") || str_eq(e, "mov") || str_eq(e, "wmv")
        || str_eq(e, "flv") || str_eq(e, "webm") || str_eq(e, "m4v") || str_eq(e, "mpg") || str_eq(e, "mpeg")
}

/// The kind of the file at `path`, given whether it is a directory.
pub fn detect_file_type(path: &str, is_dir: bool) -> (r: FileType)
    ensures
        r == file_type_of(is_dir, path_extension(path@)),
{
    if is_dir {
        return FileType::Directory;
    }
    match extension(path) {
        Some(e) => {
            let l = to_lowercase(e.as_str());
            let l = l.as_str();
            if image_extension(l) {
                FileType::Image
            } else if video_extension(l) {
                FileType::Video
            } else if str_eq(l, "pdf") {
                FileType::Pdf
            } else {
                FileType::Document
            }
        },
        None => FileType::Other,
    }
}

/// The view of an optional string slice.
pub open spec fn opt_str_view(o: Option<&str>) -> Option<Seq<char>> {
    match o {
        Some(s) => Some(s@),
        None => None,
    }
}

/// The configured viewer of images, videos and PDFs; none for the other
/// kinds.
pub open spec fn configured_viewer(file_type: FileType, config: ViewerConfig) -> Option<Seq<char>> {
    match file_type {
        FileType::Image => Some(config.image_viewer@),
        FileType::Video => Some(config.video_viewer@),
        FileType::Pdf => Some(config.pdf_viewer@),
        _ => None,
    }
}

/// The configured viewer of images, videos and PDFs; none for the other
/// kinds.
pub fn get_viewer(file_type: FileType, config: &ViewerConfig) -> (r: Option<&str>)
    ensures
        opt_str_view(r) == configured_viewer(file_type, *config),
{
    match file_type {
        FileType::Image => Some(config.image_viewer.as_str()),
        FileType::Video => Some(config.video_viewer.as_str()),
        FileType::Pdf => Some(config.pdf_viewer.as_str()),
        _ => None,
    }
}

/// The viewer that opens a file of the given kind, or the message shown
/// when there is none.
pub fn viewer_or_error(file_type: FileType, config: &ViewerConfig) -> (r: Result<&str, String>)
    ensures
        match r {
            Ok(v) => configured_viewer(file_type, *config) == Some(v@),
            Err(e) => configured_viewer(file_type, *config) is None
                && e@ == "No viewer available for this file type"@,
        },
{
    match get_viewer(file_type, config) {
        Some(v) => Ok(v),
        None => Err(String::from_str("No viewer available for this file type")),
    }
}

/// How starting a viewer's process went.
pub enum SpawnOutcome {
    /// The process started.
    Started,
    /// No program of the viewer's name was found.
    NotFound,
    /// Starting failed for another reason, given as text.
    Failed(String),
}

/// What opening a file in `viewer` reports, from how starting the viewer
/// went.
pub fn launch_result(viewer: &str, outcome: SpawnOutcome) -> (r: Result<(), String>)
    ensures
        match outcome {
            SpawnOutcome::Started => r is Ok,
            SpawnOutcome::NotFound => match r {
                Ok(_) => false,
                Err(e) => e@ == "Viewer not found: "@ + viewer@,
            },
            SpawnOutcome::Failed(why) => match r {
                Ok(_) => false,
                Err(e) => e@ == "Failed to launch "@ + viewer@ + ": "@ + why@,
            },
        },
{
    match outcome {
        SpawnOutcome::Started => Ok(()),
        SpawnOutcome::NotFound => {
            let mut e = String::from_str("Viewer not found: ");
            e.append(viewer);
            Err(e)
        },
        SpawnOutcome::Failed(why) => {
            let mut e = String::from_str("Failed to launch ");
            e.append(viewer);
            e.append(": ");
            e.append(why.as_str());
            Err(e)
        },
    }
}

} // verus!
