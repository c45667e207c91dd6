//! One source file: a markdown text with its front matter, or any other file.

use crate::error::DocumentError;
use crate::front_matter::Framing;
use crate::front_matter::FrontMatter;
use crate::front_matter::framing;
use crate::front_matter::split_body;
use crate::front_matter::yaml_vars;
use crate::markdown::html_of;
use crate::markdown::markdown_events;
use crate::markdown::rewritten;
use crate::template::render_error_text;
use crate::template::rendered_page;
use crate::text::string_from_utf8;
use crate::util::path::PathExt;
use crate::util::path::file_stem;
use crate::util::path::markdown_path;
use crate::util::path::mirror;
use crate::util::path::mirrored;
use crate::util::path::path_file_stem;
use crate::util::path::path_with_extension;
use crate::util::path::with_extension;
use crate::web::Web;
use vstd::prelude::*;
use vstd::utf8::decode_utf8;
use vstd::utf8::valid_utf8;

verus! {

/// What a document holds.
#[derive(Debug)]
pub enum DocumentInfo {
    /// A markdown text, split into its front matter and the text after it.
    Markdown { front_matter: Option<FrontMatter>, text: String },
    /// A file of any other kind; its content is not read.
    Other,
}

/// One file of the source tree.
#[derive(Debug)]
pub struct Document {
    /// Where the file lies, the root of the source tree included.
    pub source_path: String,
    /// What was read of it.
    pub info: DocumentInfo,
}

/// What is to be done with a document to put it into the site.
#[derive(Debug, PartialEq, Eq)]
pub enum SiteAction {
    /// Copy the file at `from` to `to`, byte for byte.
    Copy { from: String, to: String },
    /// Write the page `html` to `to`.
    Write { to: String, html: String },
}

/// The model of a `SiteAction`.
pub enum SiteActionView {
    Copy { from: Seq<char>, to: Seq<char> },
    Write { to: Seq<char>, html: Seq<char> },
}

impl View for SiteAction {
    type V = SiteActionView;

    open spec fn view(&self) -> SiteActionView {
        match self {
            SiteAction::Copy { from, to } => SiteActionView::Copy { from: from@, to: to@ },
            SiteAction::Write { to, html } => SiteActionView::Write { to: to@, html: html@ },
        }
    }
}

/// The variables of a document's front matter; none where it has no front matter.
pub open spec fn vars_of(front_matter: Option<FrontMatter>) -> Map<Seq<char>, Seq<char>> {
    match front_matter {
        Some(fm) => fm@,
        None => Map::empty(),
    }
}

/// The HTML of a markdown text, as bytes.
pub open spec fn html_bytes(text: Seq<char>) -> Seq<u8> {
    html_of(rewritten(markdown_events(text)))
}

/// The variables that a page is rendered from: those of the front matter,
/// and `body`, which is always the HTML of the text whatever the front matter
/// says of it.
pub open spec fn page_vars(front_matter: Option<FrontMatter>, text: Seq<char>) -> Map<
    Seq<char>,
    Seq<char>,
> {
    vars_of(front_matter).insert("body"@, decode_utf8(html_bytes(text)))
}

/// The variable `body` of a page is the HTML of the text, whatever the
/// front matter defines under that name; every other variable is as the front
/// matter defines it.
pub proof fn lemma_body_is_rendered(front_matter: Option<FrontMatter>, text: Seq<char>)
    ensures
        page_vars(front_matter, text).contains_key("body"@),
        page_vars(front_matter, text)["body"@] == decode_utf8(html_bytes(text)),
        forall|key: Seq<char>|
            key != "body"@ ==> (#[trigger] page_vars(front_matter, text).contains_key(key)
                == vars_of(front_matter).contains_key(key)),
        forall|key: Seq<char>|
            key != "body"@ && vars_of(front_matter).contains_key(key) ==> #[trigger] page_vars(
                front_matter,
                text,
            )[key] == vars_of(front_matter)[key],
{
}

/// The page that the template `default` among `templates` renders `doc` to,
/// if `doc` is a markdown text whose HTML is valid UTF-8 and the template
/// renders it.
pub open spec fn page_of(templates: Map<Seq<char>, Seq<char>>, doc: Document) -> Option<Seq<char>> {
    match doc.info {
        DocumentInfo::Markdown { front_matter, text } => if valid_utf8(html_bytes(text@)) {
            rendered_page(templates, false, "default"@, page_vars(front_matter, text@))
        } else {
            None
        },
        DocumentInfo::Other => None,
    }
}

/// The text of an optional string.
pub open spec fn text_view(text: Option<String>) -> Option<Seq<char>> {
    match text {
        Some(t) => Some(t@),
        None => None,
    }
}

impl Document {
    /// No document can be built from `path` and `text`: the path names a
    /// markdown file, and the text is missing, opens a front-matter block
    /// that it does not close, or holds one that does not parse.
    pub open spec fn unbuildable(path: Seq<char>, text: Option<Seq<char>>) -> bool {
        markdown_path(path) && match text {
            None => true,
            Some(t) => match framing(t) {
                Framing::Absent => false,
                Framing::Unclosed => true,
                Framing::Block { yaml, body } => yaml_vars(yaml) is None,
            },
        }
    }

    /// This document is the one built from `path` and `text`.
    pub open spec fn built_from(&self, path: Seq<char>, text: Option<Seq<char>>) -> bool {
        &&& self.source_path@ == path
        &&& !Self::unbuildable(path, text)
        &&& if markdown_path(path) {
            &&& self.info matches DocumentInfo::Markdown { front_matter, text: body }
            &&& body@ == split_body(text->0)
            &&& match framing(text->0) {
                Framing::Block { yaml, body } => front_matter matches Some(fm) && yaml_vars(yaml)
                    == Some(fm@),
                _ => front_matter is None,
            }
        } else {
            self.info is Other
        }
    }

    /// `e` is the error that building a document from `path` and `text` ends in.
    pub open spec fn build_failure(path: Seq<char>, text: Option<Seq<char>>, e: DocumentError) -> bool {
        Self::unbuildable(path, text) && match text {
            None => e is Unread,
            Some(t) => match framing(t) {
                Framing::Unclosed => e is UnclosedFrontMatter,
                _ => e is Yaml,
            },
        }
    }

    /// The document is a markdown text whose HTML is valid UTF-8 and which
    /// the template `default` among `templates` renders to `page`.
    pub open spec fn renders_to(&self, templates: Map<Seq<char>, Seq<char>>, page: Seq<char>) -> bool {
        page_of(templates, *self) == Some(page)
    }

    /// The document has its place in the site `web`, and a page if it is a
    /// markdown text.
    pub open spec fn has_site_action(&self, web: crate::web::WebView) -> bool {
        mirrored(self.source_path@, web.in_path, web.out_path) is Some && (self.info is Other
            || page_of(web.templates, *self) is Some)
    }

    /// `e` is the error that rendering this document with `templates` ends in.
    pub open spec fn fails_with(&self, templates: Map<Seq<char>, Seq<char>>, e: DocumentError) -> bool {
        match self.info {
            DocumentInfo::Other => e is NotMarkdown,
            DocumentInfo::Markdown { front_matter, text } => match e {
                DocumentError::Encoding => !valid_utf8(html_bytes(text@)),
                DocumentError::Render(_) => valid_utf8(html_bytes(text@)) && rendered_page(
                    templates,
                    false,
                    "default"@,
                    page_vars(front_matter, text@),
                ) is None,
                _ => false,
            },
        }
    }

    /// Builds the document for the file at `source_path`.
    ///
    /// A path with the extension `md` or `markdown` names a markdown file:
    /// its text is needed, and its front matter is split off. Any other file
    /// becomes `Other`, and `text` is not looked at.
    pub fn new(source_path: &str, text: Option<String>) -> (r: Result<Document, DocumentError>)
        ensures
            match r {
                Ok(doc) => doc.built_from(source_path@, text_view(text)),
                Err(e) => Self::build_failure(source_path@, text_view(text), e),
            },
    {
        if source_path.is_markdown() {
            match text {
                None => Err(DocumentError::Unread),
                Some(t) => {
                    let mut markdown = t;
                    match FrontMatter::split_yml_from_string(&mut markdown) {
                        Ok(front_matter) => Ok(
                            Document {
                                source_path: source_path.to_owned(),
                                info: DocumentInfo::Markdown { front_matter, text: markdown },
                            },
                        ),
                        Err(e) => Err(e),
                    }
                },
            }
        } else {
            Ok(Document { source_path: source_path.to_owned(), info: DocumentInfo::Other })
        }
    }

    /// The stem of the file's name: the name without its extension.
    pub fn file_stem(&self) -> (r: Result<String, DocumentError>)
        ensures
            match path_file_stem(self.source_path@) {
                Some(stem) => r matches Ok(s) && s@ == stem,
                None => r matches Err(DocumentError::NoFileName),
            },
    {
        match file_stem(self.source_path.as_str()) {
            Some(stem) => Ok(stem),
            None => Err(DocumentError::NoFileName),
        }
    }

    /// Where the document goes under `out_dir`, given that it lies under `root`.
    pub fn outpath(&self, root: &str, out_dir: &str) -> (r: Result<String, DocumentError>)
        ensures
            match mirrored(self.source_path@, root@, out_dir@) {
                Some(to) => r matches Ok(s) && s@ == to,
                None => r matches Err(DocumentError::OutsideRoot),
            },
    {
        match mirror(self.source_path.as_str(), root, out_dir) {
            Some(to) => Ok(to),
            None => Err(DocumentError::OutsideRoot),
        }
    }

    /// Whether the document is a markdown text.
    pub fn is_markdown(&self) -> (r: bool)
        ensures
            r == (self.info is Markdown),
    {
        match self.info {
            DocumentInfo::Markdown { .. } => true,
            _ => false,
        }
    }

    /// Whether the front matter defines `body`, which rendering overrides.
    pub fn body_overridden(&self) -> (r: bool)
        ensures
            r == (self.info matches DocumentInfo::Markdown { front_matter: Some(fm), .. }
                && fm@.contains_key("body"@)),
    {
        match &self.info {
            DocumentInfo::Markdown { front_matter: Some(fm), .. } => fm.contains_key("body"),
            _ => false,
        }
    }

    /// Writes `markdown` out as HTML; see `markdown::write_html`.
    pub fn write_html(markdown: &String) -> (r: Result<Vec<u8>, DocumentError>)
        ensures
            r matches Ok(bytes) && bytes@ == html_bytes(markdown@),
    {
        crate::markdown::write_html(markdown)
    }

    /// Renders the document to a page with the template `default` of `context`.
    ///
    /// The text is turned into HTML, which becomes the variable `body`
    /// beside those of the front matter, and the template is rendered from
    /// them. Only a markdown document has a page.
    pub fn gen_html(&self, context: &Web) -> (r: Result<String, DocumentError>)
        ensures
            match page_of(context@.templates, *self) {
                Some(p) => r matches Ok(page) && page@ == p,
                None => r matches Err(e) && self.fails_with(context@.templates, e),
            },
    {
        match &self.info {
            DocumentInfo::Markdown { front_matter, text } => {
                let html = match Self::write_html(text) {
                    Ok(bytes) => bytes,
                    Err(e) => {
                        return Err(e);
                    },
                };
                let html_string = match string_from_utf8(html) {
                    Some(s) => s,
                    None => {
                        return Err(DocumentError::Encoding);
                    },
                };
                let mut template_vars = match front_matter {
                    Some(fm) => fm.copy(),
                    None => FrontMatter::new(),
                };
                template_vars.insert("body", html_string.as_str());
                proof {
                    vstd::utf8::encode_utf8_decode_utf8(html_string@);
                }
                match context.render("default", &template_vars) {
                    Ok(page) => Ok(page),
                    Err(e) => Err(DocumentError::Render(render_error_text(&e))),
                }
            },
            DocumentInfo::Other => Err(DocumentError::NotMarkdown),
        }
    }

    /// What putting the document into the site of `context` takes.
    ///
    /// The document keeps its place relative to the root. A markdown
    /// document is rendered and its page takes the extension `html`; any
    /// other file is copied.
    pub fn webgen(&self, context: &Web) -> (r: Result<SiteAction, DocumentError>)
        ensures
            self.has_site_action(context@) <==> r is Ok,
            match r {
                Ok(action) => self.site_action(context@, action),
                Err(e) => self.site_failure(context@, e),
            },
    {
        let in_path = context.in_path();
        let out_path = context.out_path();
        let outpath = match self.outpath(in_path.as_str(), out_path.as_str()) {
            Ok(p) => p,
            Err(e) => {
                return Err(e);
            },
        };
        match &self.info {
            DocumentInfo::Other => Ok(SiteAction::Copy { from: self.source_path.clone(), to: outpath }),
            DocumentInfo::Markdown { .. } => {
                proof {
                    reveal_strlit("html");
                }
                let to = with_extension(outpath.as_str(), "html");
                match self.gen_html(context) {
                    Ok(html) => Ok(SiteAction::Write { to, html }),
                    Err(e) => Err(e),
                }
            },
        }
    }

    /// `action` is what putting this document into the site `web` takes.
    pub open spec fn site_action(&self, web: crate::web::WebView, action: SiteAction) -> bool {
        match mirrored(self.source_path@, web.in_path, web.out_path) {
            None => false,
            Some(out) => match action {
                SiteAction::Copy { from, to } => self.info is Other && from@ == self.source_path@
                    && to@ == out,
                SiteAction::Write { to, html } => to@ == path_with_extension(out, "html"@)
                    && self.renders_to(web.templates, html@),
            },
        }
    }

    /// `e` is the error that putting this document into the site `web` ends in.
    pub open spec fn site_failure(&self, web: crate::web::WebView, e: DocumentError) -> bool {
        match mirrored(self.source_path@, web.in_path, web.out_path) {
            None => e is OutsideRoot,
            Some(out) => self.info is Markdown && self.fails_with(web.templates, e),
        }
    }
}

/// What building a site takes is settled by the documents, the roots and the
/// templates: two actions for one document of one site are the same action.
/// Built twice from the same input, a site is the same both times.
pub proof fn lemma_site_action_unique(
    doc: Document,
    web: crate::web::WebView,
    first: SiteAction,
    second: SiteAction,
)
    requires
        doc.site_action(web, first),
        doc.site_action(web, second),
    ensures
        first@ == second@,
{
}

} // verus!
