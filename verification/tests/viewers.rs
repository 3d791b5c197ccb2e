use felix::archive::virtual_fs::is_archive;
use felix::config::ViewerConfig;
use felix::fs::operations::resolve_dst;
use felix::viewers::{detect_file_type, get_viewer, launch_result, viewer_or_error, FileType, SpawnOutcome};

#[test]
fn file_types() {
    assert_eq!(detect_file_type("/x/photo.JPG", false), FileType::Image);
    assert_eq!(detect_file_type("/x/clip.webm", false), FileType::Video);
    assert_eq!(detect_file_type("/x/paper.Pdf", false), FileType::Pdf);
    assert_eq!(detect_file_type("/x/notes.txt", false), FileType::Document);
    assert_eq!(detect_file_type("/x/Makefile", false), FileType::Other);
    assert_eq!(detect_file_type("/x/photo.jpg", true), FileType::Directory);
    assert_eq!(detect_file_type("/x/.bashrc", false), FileType::Other);
}

#[test]
fn viewers_by_type() {
    let cfg = ViewerConfig { image_viewer: "feh".into(), video_viewer: "mpv".into(), pdf_viewer: "zathura".into() };
    assert_eq!(get_viewer(FileType::Image, &cfg), Some("feh"));
    assert_eq!(get_viewer(FileType::Video, &cfg), Some("mpv"));
    assert_eq!(get_viewer(FileType::Pdf, &cfg), Some("zathura"));
    assert_eq!(get_viewer(FileType::Document, &cfg), None);
    assert_eq!(get_viewer(FileType::Directory, &cfg), None);
    assert_eq!(get_viewer(FileType::Other, &cfg), None);
}

#[test]
fn archives() {
    assert!(is_archive("a.zip"));
    assert!(is_archive("/x/b.tar"));
    assert!(is_archive("c.tar.gz"));
    assert!(is_archive("d.7z"));
    assert!(!is_archive("e.ZIP"));
    assert!(!is_archive("zip"));
    assert!(!is_archive("f.rar"));
}

#[test]
fn destinations() {
    assert_eq!(resolve_dst("/a/file.txt", "/b", true), "/b/file.txt");
    assert_eq!(resolve_dst("/a/file.txt", "/b/new.txt", false), "/b/new.txt");
    assert_eq!(resolve_dst("/", "/b", true), "/b/");
    assert_eq!(resolve_dst("a/b/", "/", true), "/b");
    assert_eq!(resolve_dst("./x.txt", "", true), "x.txt");
    assert_eq!(resolve_dst("x/..", "/b", true), "/b/");
}

#[test]
fn viewer_choice_and_launch_messages() {
    let cfg = ViewerConfig { image_viewer: "feh".into(), video_viewer: "mpv".into(), pdf_viewer: "zathura".into() };
    assert_eq!(viewer_or_error(FileType::Pdf, &cfg), Ok("zathura"));
    assert_eq!(viewer_or_error(FileType::Image, &cfg), Ok("feh"));
    assert_eq!(viewer_or_error(FileType::Other, &cfg), Err("No viewer available for this file type".to_string()));
    assert_eq!(launch_result("feh", SpawnOutcome::Started), Ok(()));
    assert_eq!(launch_result("feh", SpawnOutcome::NotFound), Err("Viewer not found: feh".to_string()));
    assert_eq!(
        launch_result("mpv", SpawnOutcome::Failed("permission denied".to_string())),
        Err("Failed to launch mpv: permission denied".to_string())
    );
}
