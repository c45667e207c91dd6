//! The ways in which building a document, a site or a book can fail.

use vstd::prelude::*;
use vstd::string::*;

verus! {

/// Why a single document could not be built or rendered.
#[derive(Debug, PartialEq, Eq)]
pub enum DocumentError {
    /// The text opens a front-matter block and never closes it.
    UnclosedFrontMatter,
    /// The front-matter block is not a YAML mapping from strings to strings;
    /// the parser's message is kept.
    Yaml(String),
    /// The path names a markdown file, and its text was not supplied.
    Unread,
    /// The path has no file name.
    NoFileName,
    /// The path does not lie under the root it is to be mirrored from.
    OutsideRoot,
    /// The HTML writer failed; its message is kept. The writer writes into
    /// memory, where no write is refused, so no function here ends in this.
    Io(String),
    /// The rendered HTML is not valid UTF-8.
    Encoding,
    /// The template engine failed; its message is kept.
    Render(String),
    /// Only markdown documents can be rendered to a page.
    NotMarkdown,
}

impl DocumentError {
    /// The error in words.
    pub open spec fn message_text(self) -> Seq<char> {
        match self {
            DocumentError::UnclosedFrontMatter => "front matter is opened and never closed"@,
            DocumentError::Yaml(message) => "front matter does not parse: "@ + message@,
            DocumentError::Unread => "the text of the markdown file was not read"@,
            DocumentError::NoFileName => "unexpected empty file name"@,
            DocumentError::OutsideRoot => "the file does not lie under the source directory"@,
            DocumentError::Io(message) => "the HTML could not be written: "@ + message@,
            DocumentError::Encoding => "the HTML is not valid UTF-8"@,
            DocumentError::Render(message) => "the page could not be rendered: "@ + message@,
            DocumentError::NotMarkdown => "only a markdown document has a page"@,
        }
    }

    /// The error in words.
    pub fn message(&self) -> (r: String)
        ensures
            r@ == self.message_text(),
    {
        match self {
            DocumentError::UnclosedFrontMatter => "front matter is opened and never closed".to_owned(),
            DocumentError::Yaml(message) => {
                let mut s = "front matter does not parse: ".to_owned();
                s.append(message.as_str());
                s
            },
            DocumentError::Unread => "the text of the markdown file was not read".to_owned(),
            DocumentError::NoFileName => "unexpected empty file name".to_owned(),
            DocumentError::OutsideRoot => "the file does not lie under the source directory".to_owned(),
            DocumentError::Io(message) => {
                let mut s = "the HTML could not be written: ".to_owned();
                s.append(message.as_str());
                s
            },
            DocumentError::Encoding => "the HTML is not valid UTF-8".to_owned(),
            DocumentError::Render(message) => {
                let mut s = "the page could not be rendered: ".to_owned();
                s.append(message.as_str());
                s
            },
            DocumentError::NotMarkdown => "only a markdown document has a page".to_owned(),
        }
    }
}

/// Why a site or a book could not be built.
#[derive(Debug, PartialEq, Eq)]
pub enum WebError {
    /// The source directory holds no document.
    NoFiles,
    /// A template does not compile; the engine's message is kept.
    Template { name: String, message: String },
    /// A template calls a partial without writing out its name, or defines
    /// a partial of its own, so that the templates that it calls cannot be
    /// read off it.
    Partial { name: String },
    /// Templates call one another as partials in a circle.
    PartialCircle,
    /// The document at `path` could not be built or rendered.
    Document { path: String, cause: DocumentError },
    /// The bytes of the file at `path` are needed and were not supplied.
    MissingContent { path: String },
    /// The book could not be packed; `step` says what was being done, and the
    /// packer's message is kept.
    Book { step: String, message: String },
}

impl WebError {
    /// The error in words.
    pub open spec fn message_text(self) -> Seq<char> {
        match self {
            WebError::NoFiles => "please add files to the source directory"@,
            WebError::Template { name, message } => "template "@ + name@ + ": "@ + message@,
            WebError::Partial { name } => "template "@ + name@
                + ": a partial is called without a written name, or defined"@,
            WebError::PartialCircle => "templates call one another in a circle"@,
            WebError::Document { path, cause } => path@ + ": "@ + cause.message_text(),
            WebError::MissingContent { path } => path@ + ": the content of the file is missing"@,
            WebError::Book { step, message } => step@ + ": "@ + message@,
        }
    }

    /// The error in words.
    pub fn message(&self) -> (r: String)
        ensures
            r@ == self.message_text(),
    {
        match self {
            WebError::NoFiles => "please add files to the source directory".to_owned(),
            WebError::Template { name, message } => {
                let mut s = "template ".to_owned();
                s.append(name.as_str());
                s.append(": ");
                s.append(message.as_str());
                s
            },
            WebError::Partial { name } => {
                let mut s = "template ".to_owned();
                s.append(name.as_str());
                s.append(": a partial is called without a written name, or defined");
                s
            },
            WebError::PartialCircle => "templates call one another in a circle".to_owned(),
            WebError::Document { path, cause } => {
                let mut s = path.clone();
                s.append(": ");
                s.append(cause.message().as_str());
                s
            },
            WebError::MissingContent { path } => {
                let mut s = path.clone();
                s.append(": the content of the file is missing");
                s
            },
            WebError::Book { step, message } => {
                let mut s = step.clone();
                s.append(": ");
                s.append(message.as_str());
                s
            },
        }
    }
}

} // verus!
