//! Turns a tree of documents into a website or into a book.
//!
//! The documents are markdown texts, which may open with front matter, and
//! files of any other kind. A `Web` holds them in the order in which the
//! source tree was walked, together with the page templates. From it come the
//! actions that build the site, one for each document, and the book that packs
//! the same documents as cover, title page and numbered chapters.
//!
//! Nothing here touches the file system: paths are held as text, file contents
//! are handed in, and what is to be written is handed back.

pub mod book;
pub mod document;
pub mod error;
pub mod front_matter;
pub mod markdown;
pub mod template;
pub mod text;
pub mod util;
pub mod web;

pub use self::document::Document;
pub use self::document::DocumentInfo;
pub use self::front_matter::FrontMatter;
pub use self::web::Web;
