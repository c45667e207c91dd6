//! Paths held as text. What a path's parts are is decided by `std::path`; this
//! module gives each of its answers a name and builds the library's own rules
//! on them.

use crate::text::str_eq;
use crate::util::dir_entry::hidden_name;
use crate::util::dir_entry::is_hidden_name;
use vstd::prelude::*;

verus! {

/// What `std::path::Path::extension` gives for the path written as `path`.
pub uninterp spec fn path_extension(path: Seq<char>) -> Option<Seq<char>>;

/// What `std::path::Path::file_stem` gives for the path written as `path`.
pub uninterp spec fn path_file_stem(path: Seq<char>) -> Option<Seq<char>>;

/// What `std::path::Path::file_name` gives for the path written as `path`.
pub uninterp spec fn path_file_name(path: Seq<char>) -> Option<Seq<char>>;

/// What `std::path::Path::strip_prefix` gives for `path` and the prefix `base`.
pub uninterp spec fn path_strip_prefix(path: Seq<char>, base: Seq<char>) -> Option<Seq<char>>;

/// What `std::path::Path::join` gives for `base` and `path`.
pub uninterp spec fn path_join(base: Seq<char>, path: Seq<char>) -> Seq<char>;

/// What `std::path::Path::with_extension` gives for `path` and `ext`.
pub uninterp spec fn path_with_extension(path: Seq<char>, ext: Seq<char>) -> Seq<char>;

/// The components that `std::path::Path::components` walks through, in order.
pub uninterp spec fn path_components(path: Seq<char>) -> Seq<Seq<char>>;

/// What `str::to_lowercase` gives for `s`.
pub uninterp spec fn lowercase(s: Seq<char>) -> Seq<char>;

/// Calls `std::path::Path::extension` on the path written as `path` and hands
/// the extension back as text. The contract only names the result.
#[verifier::external_body]
pub(crate) fn extension(path: &str) -> (r: Option<String>)
    ensures
        r matches Some(e) ==> path_extension(path@) == Some(e@),
        r is None ==> path_extension(path@) is None,
{
    std::path::Path::new(path).extension().map(|e| e.to_string_lossy().into_owned())
}

/// Calls `std::path::Path::file_stem` on the path written as `path`. The
/// contract only names the result.
#[verifier::external_body]
pub(crate) fn file_stem(path: &str) -> (r: Option<String>)
    ensures
        r matches Some(s) ==> path_file_stem(path@) == Some(s@),
        r is None ==> path_file_stem(path@) is None,
{
    std::path::Path::new(path).file_stem().map(|s| s.to_string_lossy().into_owned())
}

/// Calls `std::path::Path::file_name` on the path written as `path`. The
/// contract only names the result.
#[verifier::external_body]
pub(crate) fn file_name(path: &str) -> (r: Option<String>)
    ensures
        r matches Some(s) ==> path_file_name(path@) == Some(s@),
        r is None ==> path_file_name(path@) is None,
{
    std::path::Path::new(path).file_name().map(|s| s.to_string_lossy().into_owned())
}

/// Calls `std::path::Path::strip_prefix`; `None` stands for its error, which
/// says no more than that `base` is no prefix of `path`. The contract only
/// names the result.
#[verifier::external_body]
pub(crate) fn strip_prefix(path: &str, base: &str) -> (r: Option<String>)
    ensures
        r matches Some(s) ==> path_strip_prefix(path@, base@) == Some(s@),
        r is None ==> path_strip_prefix(path@, base@) is None,
{
    std::path::Path::new(path).strip_prefix(base).ok().map(|p| p.to_string_lossy().into_owned())
}

/// Calls `std::path::Path::join`. The contract only names the result.
#[verifier::external_body]
pub(crate) fn join(base: &str, path: &str) -> (r: String)
    ensures
        r@ == path_join(base@, path@),
{
    std::path::Path::new(base).join(path).to_string_lossy().into_owned()
}

/// No character of `ext` separates path components on any platform.
pub open spec fn no_separator(ext: Seq<char>) -> bool {
    forall|i: int| 0 <= i < ext.len() ==> ext[i] != '/' && ext[i] != '\\'
}

/// Calls `std::path::Path::with_extension`, which panics on an extension that
/// holds a path separator. The contract only names the result.
#[verifier::external_body]
pub(crate) fn with_extension(path: &str, ext: &str) -> (r: String)
    requires
        no_separator(ext@),
    ensures
        r@ == path_with_extension(path@, ext@),
{
    std::path::Path::new(path).with_extension(ext).to_string_lossy().into_owned()
}

/// Calls `std::path::Path::components` and hands each component back as text.
/// The contract only names the result.
#[verifier::external_body]
pub(crate) fn components(path: &str) -> (r: Vec<String>)
    ensures
        r@.len() == path_components(path@).len(),
        forall|i: int| 0 <= i < r@.len() ==> (#[trigger] r@[i])@ == path_components(path@)[i],
{
    std::path::Path::new(path).components().map(|c| c.as_os_str().to_string_lossy().into_owned()).collect()
}

/// Calls `str::to_lowercase`. The contract only names the result.
#[verifier::external_body]
pub(crate) fn to_lowercase(s: &str) -> (r: String)
    ensures
        r@ == lowercase(s@),
{
    s.to_lowercase()
}

/// The media type that this library assigns to a file extension.
pub open spec fn mimetype_of(ext: Seq<char>) -> Seq<char> {
    if ext == "mp3"@ {
        "audio/mpeg"@
    } else if ext == "mp4"@ {
        "video/mp4"@
    } else if ext == "m4a"@ {
        "audio/mp4"@
    } else if ext == "wav"@ {
        "audio/wav"@
    } else if ext == "ogg"@ {
        "audio/ogg"@
    } else if ext == "jpg"@ {
        "image/jpeg"@
    } else if ext == "jpeg"@ {
        "image/jpeg"@
    } else if ext == "png"@ {
        "image/png"@
    } else if ext == "gif"@ {
        "image/gif"@
    } else if ext == "svg"@ {
        "image/svg+xml"@
    } else if ext == "webp"@ {
        "image/webp"@
    } else if ext == "pdf"@ {
        "application/pdf"@
    } else if ext == "zip"@ {
        "application/zip"@
    } else if ext == "gz"@ {
        "application/gzip"@
    } else if ext == "tar"@ {
        "application/x-tar"@
    } else if ext == "txt"@ {
        "text/plain"@
    } else if ext == "md"@ {
        "text/markdown"@
    } else if ext == "html"@ {
        "text/html"@
    } else if ext == "css"@ {
        "text/css"@
    } else if ext == "js"@ {
        "text/javascript"@
    } else if ext == "json"@ {
        "application/json"@
    } else if ext == "xml"@ {
        "application/xml"@
    } else if ext == "yaml"@ {
        "text/yaml"@
    } else if ext == "yml"@ {
        "text/yaml"@
    } else {
        "application/octet-stream"@
    }
}

/// The media type of a file with the extension `ext`; an extension that the
/// table does not hold is a stream of bytes.
pub fn get_mimetype(ext: &str) -> (r: &'static str)
    ensures
        r@ == mimetype_of(ext@),
{
    if str_eq(ext, "mp3") {
        "audio/mpeg"
    } else if str_eq(ext, "mp4") {
        "video/mp4"
    } else if str_eq(ext, "m4a") {
        "audio/mp4"
    } else if str_eq(ext, "wav") {
        "audio/wav"
    } else if str_eq(ext, "ogg") {
        "audio/ogg"
    } else if str_eq(ext, "jpg") {
        "image/jpeg"
    } else if str_eq(ext, "jpeg") {
        "image/jpeg"
    } else if str_eq(ext, "png") {
        "image/png"
    } else if str_eq(ext, "gif") {
        "image/gif"
    } else if str_eq(ext, "svg") {
        "image/svg+xml"
    } else if str_eq(ext, "webp") {
        "image/webp"
    } else if str_eq(ext, "pdf") {
        "application/pdf"
    } else if str_eq(ext, "zip") {
        "application/zip"
    } else if str_eq(ext, "gz") {
        "application/gzip"
    } else if str_eq(ext, "tar") {
        "application/x-tar"
    } else if str_eq(ext, "txt") {
        "text/plain"
    } else if str_eq(ext, "md") {
        "text/markdown"
    } else if str_eq(ext, "html") {
        "text/html"
    } else if str_eq(ext, "css") {
        "text/css"
    } else if str_eq(ext, "js") {
        "text/javascript"
    } else if str_eq(ext, "json") {
        "application/json"
    } else if str_eq(ext, "xml") {
        "application/xml"
    } else if str_eq(ext, "yaml") {
        "text/yaml"
    } else if str_eq(ext, "yml") {
        "text/yaml"
    } else {
        "application/octet-stream"
    }
}

/// The extension of the path written as `path` in lower case, empty where it
/// has none.
pub open spec fn ext_of(path: Seq<char>) -> Seq<char> {
    match path_extension(path) {
        Some(e) => lowercase(e),
        None => Seq::empty(),
    }
}

/// A path counts as markdown when its extension is exactly `md` or `markdown`.
pub open spec fn markdown_path(path: Seq<char>) -> bool {
    path_extension(path) == Some("md"@) || path_extension(path) == Some("markdown"@)
}

/// Whether the extension of `path` is exactly `ext`.
pub fn has_extension(path: &str, ext: &str) -> (r: bool)
    ensures
        r == (path_extension(path@) == Some(ext@)),
{
    match extension(path) {
        Some(e) => str_eq(e.as_str(), ext),
        None => false,
    }
}

/// Some component of the path written as `path` is hidden.
pub open spec fn has_hidden_part(path: Seq<char>) -> bool {
    exists|i: int|
        0 <= i < path_components(path).len() && hidden_name(#[trigger] path_components(path)[i])
}

/// `path` lies under `root`, and no component of it below `root` is hidden.
pub open spec fn visible_below(path: Seq<char>, root: Seq<char>) -> bool {
    match path_strip_prefix(path, root) {
        Some(rel) => !has_hidden_part(rel),
        None => false,
    }
}

/// Whether some component of `path` is hidden.
pub fn is_hidden_path(path: &str) -> (r: bool)
    ensures
        r == has_hidden_part(path@),
{
    let parts = components(path);
    let mut i: usize = 0;
    while i < parts.len()
        invariant
            i <= parts.len(),
            parts@.len() == path_components(path@).len(),
            forall|k: int| 0 <= k < parts@.len() ==> (#[trigger] parts@[k])@ == path_components(path@)[k],
            forall|k: int| 0 <= k < i ==> !hidden_name(#[trigger] path_components(path@)[k]),
        decreases parts.len() - i,
    {
        if is_hidden_name(parts[i].as_str()) {
            assert(hidden_name(path_components(path@)[i as int]));
            return true;
        }
        i += 1;
    }
    false
}

/// Whether `path` lies under `root` with no hidden component below it.
pub fn is_visible_below(path: &str, root: &str) -> (r: bool)
    ensures
        r == visible_below(path@, root@),
{
    match strip_prefix(path, root) {
        Some(rel) => !is_hidden_path(rel.as_str()),
        None => false,
    }
}

/// The part of `path` below `root`, where `path` lies under `root` with no
/// hidden component below it.
pub fn visible_part(path: &str, root: &str) -> (r: Option<String>)
    ensures
        match r {
            Some(rel) => visible_below(path@, root@) && path_strip_prefix(path@, root@) == Some(
                rel@,
            ),
            None => !visible_below(path@, root@),
        },
{
    match strip_prefix(path, root) {
        Some(rel) => {
            if is_hidden_path(rel.as_str()) {
                None
            } else {
                Some(rel)
            }
        },
        None => None,
    }
}

/// Where the file at `path` under `root` goes under `out`: the same place
/// relative to the new root. A path that is not under `root` goes nowhere.
pub open spec fn mirrored(path: Seq<char>, root: Seq<char>, out: Seq<char>) -> Option<Seq<char>> {
    match path_strip_prefix(path, root) {
        Some(rel) => Some(path_join(out, rel)),
        None => None,
    }
}

/// Where the file at `path` under `root` goes under `out`.
pub fn mirror(path: &str, root: &str, out: &str) -> (r: Option<String>)
    ensures
        match mirrored(path@, root@, out@) {
            Some(to) => r matches Some(s) && s@ == to,
            None => r is None,
        },
{
    match strip_prefix(path, root) {
        Some(rel) => Some(join(out, rel.as_str())),
        None => None,
    }
}

/// What this library asks of a path held as text.
pub trait PathExt {
    /// The path as text.
    spec fn path_text(&self) -> Seq<char>;

    /// The path's extension in lower case, if it has one.
    fn get_ext(&self) -> (r: Option<String>)
        ensures
            match path_extension(self.path_text()) {
                Some(e) => r matches Some(x) && x@ == lowercase(e),
                None => r is None,
            },
    ;

    /// The media type that the path's extension stands for.
    fn mimetype(&self) -> (r: &'static str)
        ensures
            r@ == mimetype_of(ext_of(self.path_text())),
    ;

    /// Whether the path names a markdown file.
    fn is_markdown(&self) -> (r: bool)
        ensures
            r == markdown_path(self.path_text()),
    ;
}

impl PathExt for str {
    open spec fn path_text(&self) -> Seq<char> {
        self@
    }

    fn get_ext(&self) -> (r: Option<String>) {
        match extension(self) {
            Some(e) => Some(to_lowercase(e.as_str())),
            None => None,
        }
    }

    fn mimetype(&self) -> (r: &'static str) {
        match self.get_ext() {
            Some(e) => get_mimetype(e.as_str()),
            None => {
                proof {
                    reveal_strlit("");
                }
                assert(""@ =~= Seq::<char>::empty());
                get_mimetype("")
            },
        }
    }

    fn is_markdown(&self) -> (r: bool) {
        match extension(self) {
            Some(e) => str_eq(e.as_str(), "md") || str_eq(e.as_str(), "markdown"),
            None => false,
        }
    }
}

} // verus!
