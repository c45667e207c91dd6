//! Helpers on paths, file extensions and directory entries.

pub mod dir_entry;
pub mod path;

pub use self::dir_entry::DirEntry;
pub use self::dir_entry::DirEntryExt;
pub use self::path::get_mimetype;
pub use self::path::PathExt;

use crate::text::str_eq;
use crate::util::path::ext_of;
use crate::util::path::path_extension;
use vstd::prelude::*;

verus! {

/// The extension of `url` in lower case, or the empty string where it has none.
pub fn get_ext(url: &str) -> (r: String)
    ensures
        r@ == ext_of(url@),
{
    match url.get_ext() {
        Some(e) => e,
        None => String::new(),
    }
}

/// The lower-case extensions that count as audio.
pub open spec fn audio_ext(ext: Seq<char>) -> bool {
    ||| ext == "mp3"@
    ||| ext == "mp4"@
    ||| ext == "m4a"@
    ||| ext == "wav"@
    ||| ext == "ogg"@
}

/// Whether `url` carries one of the audio extensions, in any letter case.
pub fn is_audio_file(url: &str) -> (r: bool)
    ensures
        r == (path_extension(url@) is Some && audio_ext(ext_of(url@))),
{
    match url.get_ext() {
        Some(e) => {
            let ext = e.as_str();
            str_eq(ext, "mp3") || str_eq(ext, "mp4") || str_eq(ext, "m4a") || str_eq(ext, "wav")
                || str_eq(ext, "ogg")
        },
        None => false,
    }
}

} // verus!
