use webgenr::util::PathExt;
use webgenr::util::get_ext;
use webgenr::util::get_mimetype;
use webgenr::util::path::has_extension;
use webgenr::util::path::is_hidden_path;
use webgenr::util::path::is_visible_below;
use webgenr::util::path::mirror;

#[test]
fn mod_test_get_ext_png() {
    let result = get_ext("foo.png");
    assert_eq!(result, "png".to_string());
}

#[test]
fn mod_test_get_ext_empty() {
    let result = get_ext("");
    assert_eq!(result, "".to_string());
}

#[test]
fn path_test_get_ext_png() {
    let result = "foo.png".get_ext().unwrap();
    assert_eq!(result, "png".to_string());
}

#[test]
fn path_test_get_ext_empty() {
    let result = "".get_ext();
    assert_eq!(result, None);
}

#[test]
fn test_get_mimetype_png() {
    let result = get_mimetype("png");
    assert_eq!(result, "image/png".to_string());
}

#[test]
fn test_get_mimetype_empty() {
    let result = get_mimetype("");
    assert_eq!(result, "application/octet-stream".to_string());
}

#[test]
fn get_ext_lower_cases() {
    assert_eq!(webgenr::util::get_ext("dir.d/Song.MP3"), "mp3");
    assert_eq!(webgenr::util::get_ext("archive.tar.GZ"), "gz");
    assert_eq!(webgenr::util::get_ext("noext"), "");
    assert_eq!(webgenr::util::get_ext(".hidden"), "");
    assert_eq!(webgenr::util::get_ext("dir.d/noext"), "");
}

#[test]
fn get_mimetype_table() {
    let table = [
        ("mp3", "audio/mpeg"),
        ("mp4", "video/mp4"),
        ("m4a", "audio/mp4"),
        ("wav", "audio/wav"),
        ("ogg", "audio/ogg"),
        ("jpg", "image/jpeg"),
        ("jpeg", "image/jpeg"),
        ("png", "image/png"),
        ("gif", "image/gif"),
        ("svg", "image/svg+xml"),
        ("webp", "image/webp"),
        ("pdf", "application/pdf"),
        ("zip", "application/zip"),
        ("gz", "application/gzip"),
        ("tar", "application/x-tar"),
        ("txt", "text/plain"),
        ("md", "text/markdown"),
        ("html", "text/html"),
        ("css", "text/css"),
        ("js", "text/javascript"),
        ("json", "application/json"),
        ("xml", "application/xml"),
        ("yaml", "text/yaml"),
        ("yml", "text/yaml"),
        ("PNG", "application/octet-stream"),
        ("markdown", "application/octet-stream"),
    ];
    for (ext, mime) in table {
        assert_eq!(get_mimetype(ext), mime);
    }
}

#[test]
fn path_mimetype_goes_by_lower_cased_extension() {
    assert_eq!("a/b/Photo.JPG".mimetype(), "image/jpeg");
    assert_eq!("a/b/none".mimetype(), "application/octet-stream");
    assert_eq!("style.css".mimetype(), "text/css");
}

#[test]
fn path_is_markdown_by_exact_extension() {
    assert!("a.md".is_markdown());
    assert!("dir/a.markdown".is_markdown());
    assert!(!"a.MD".is_markdown());
    assert!(!"a.mkd".is_markdown());
    assert!(!"md".is_markdown());
    assert!(!".md".is_markdown());
    assert!(!"a.md.txt".is_markdown());
}

#[test]
fn is_audio_file_by_extension() {
    for url in ["a.mp3", "a.MP4", "x/y.m4a", "b.Wav", "c.ogg"] {
        assert!(webgenr::util::is_audio_file(url));
    }
    for url in ["a.flac", "mp3", "a.mp3.txt", ""] {
        assert!(!webgenr::util::is_audio_file(url));
    }
}

#[test]
fn visible_below_root() {
    assert!(is_visible_below("root/a/b.md", "root"));
    assert!(is_visible_below("root", "root"));
    assert!(!is_visible_below("root/.a/b.md", "root"));
    assert!(!is_visible_below("root/a/.b.md", "root"));
    assert!(!is_visible_below("other/a", "root"));
    assert!(is_visible_below(".config/site/a.md", ".config/site"));
    assert!(is_hidden_path(".x"));
    assert!(is_hidden_path("a/.x/b"));
    assert!(!is_hidden_path("a/b.x/c."));
    assert!(!is_hidden_path(""));
    assert_eq!(mirror("in/a/b", "in", "out"), Some("out/a/b".to_string()));
    assert_eq!(mirror("in/a/b", "in/", "out/"), Some("out/a/b".to_string()));
    assert_eq!(mirror("elsewhere/a", "in", "out"), None);
}

#[test]
fn has_extension_is_exact() {
    assert!(has_extension("t/page.hbs", "hbs"));
    assert!(!has_extension("t/page.HBS", "hbs"));
    assert!(!has_extension("t/hbs", "hbs"));
    assert!(!has_extension("t/.hbs", "hbs"));
    assert!(!has_extension("t/page.hbs.txt", "hbs"));
    assert!(!has_extension("t/page", ""));
}
