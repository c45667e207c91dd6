//! Packing the documents of a site into one book. The packing itself is done
//! by epub-builder; this module decides what goes into the book, under which
//! name and title, and says what the builder then holds.

use crate::document::Document;
use crate::document::page_of;
use crate::error::DocumentError;
use crate::error::WebError;
use crate::text::decimal;
use crate::text::decimal_string;
use crate::text::str_eq;
use crate::util::path::PathExt;
use crate::util::path::ext_of;
use crate::util::path::has_extension;
use crate::util::path::file_name;
use crate::util::path::mimetype_of;
use crate::util::path::path_extension;
use crate::util::path::path_file_name;
use crate::util::path::path_file_stem;
use crate::util::path::path_join;
use crate::util::path::path_strip_prefix;
use crate::util::path::visible_below;
use crate::util::path::visible_part;
use crate::web::Web;
use crate::web::WebView;
use epub_builder::EpubBuilder;
use epub_builder::EpubContent;
use epub_builder::ReferenceType;
use epub_builder::ZipLibrary;
use vstd::prelude::*;
use vstd::string::*;
use vstd::utf8::encode_utf8;

verus! {

/// epub-builder's writer of zip archives in memory.
#[verifier::external_type_specification]
#[verifier::external_body]
pub struct ExZipLibrary(ZipLibrary);

/// The error that epub-builder reports.
#[verifier::external_type_specification]
#[verifier::external_body]
pub struct ExReport(eyre::Report);

/// A book in the making: epub-builder's builder, which writes into memory.
/// The builder is generic over a trait that its crate keeps to itself, so it
/// is held here behind a type of this library.
#[verifier::external_body]
pub struct Book {
    epub: EpubBuilder<ZipLibrary>,
}

/// What a page of the book is to its reader.
#[derive(PartialEq, Eq, Structural, Clone, Copy, Debug)]
pub enum PageKind {
    /// The title page.
    TitlePage,
    /// A part of the text.
    Text,
}

/// One file in a book.
pub enum Packed {
    /// A file that the pages may refer to, such as a stylesheet.
    Resource { path: Seq<char>, mime: Seq<char>, content: Seq<u8> },
    /// The cover image.
    Cover { path: Seq<char>, mime: Seq<char>, content: Seq<u8> },
    /// A page, listed in the table of contents under `title`.
    Page { name: Seq<char>, title: Seq<char>, kind: PageKind, content: Seq<u8> },
}

/// The files that were added to a book, in the order in which they were added.
pub uninterp spec fn book_files(book: Book) -> Seq<Packed>;

/// The title that a book was given; empty where it was given none.
pub uninterp spec fn book_title(book: Book) -> Seq<char>;

/// The authors that a book was given, in the order in which they were added.
pub uninterp spec fn book_authors(book: Book) -> Seq<Seq<char>>;

/// The model of a `Book`.
pub struct BookView {
    pub title: Seq<char>,
    pub authors: Seq<Seq<char>>,
    pub files: Seq<Packed>,
}

impl View for Book {
    type V = BookView;

    open spec fn view(&self) -> BookView {
        BookView {
            title: book_title(*self),
            authors: book_authors(*self),
            files: book_files(*self),
        }
    }
}

/// Whether the packer takes `file` into a book that holds `files`. It
/// writes into memory and refuses a file only for its size, or for the size
/// of what the book holds already.
pub uninterp spec fn packer_takes(files: Seq<Packed>, file: Packed) -> bool;

/// Calls `ZipLibrary::new`, which starts an archive in memory and writes the
/// file `mimetype` into it. Nothing that it writes can be refused, so the
/// call succeeds.
#[verifier::external_body]
fn new_zip() -> (r: Result<ZipLibrary, eyre::Report>)
    ensures
        r is Ok,
{
    ZipLibrary::new()
}

/// Calls `EpubBuilder::new` on a fresh archive: a book without title,
/// authors or files of its user's. It writes two small files of its own,
/// which a fresh archive in memory takes, so the call succeeds.
#[verifier::external_body]
fn new_book(zip: ZipLibrary) -> (r: Result<Book, eyre::Report>)
    ensures
        r is Ok,
        r matches Ok(book) ==> book_files(book).len() == 0 && book_title(book).len() == 0
            && book_authors(book).len() == 0,
{
    match EpubBuilder::new(zip) {
        Ok(epub) => Ok(Book { epub }),
        Err(e) => Err(e),
    }
}

/// Calls `EpubBuilder::add_author`, which adds one author and changes
/// nothing else.
#[verifier::external_body]
fn add_author(book: &mut Book, author: &str)
    ensures
        book_authors(*final(book)) == book_authors(*old(book)).push(author@),
        book_title(*final(book)) == book_title(*old(book)),
        book_files(*final(book)) == book_files(*old(book)),
{
    book.epub.add_author(author)
}

/// Calls `EpubBuilder::set_title`, which sets the title and changes nothing
/// else.
#[verifier::external_body]
fn set_title(book: &mut Book, title: &str)
    ensures
        book_title(*final(book)) == title@,
        book_authors(*final(book)) == book_authors(*old(book)),
        book_files(*final(book)) == book_files(*old(book)),
{
    book.epub.set_title(title)
}

/// Calls `EpubBuilder::add_resource`. Where the packer takes the file, it
/// is the last of the book's files, and title and authors stay. Where it
/// does not, the book is used up with the error: what is left of it is not
/// packed any further.
#[verifier::external_body]
fn add_resource(book: Book, path: &str, content: &[u8], mime: &str) -> (r: Result<
    Book,
    eyre::Report,
>)
    ensures
        r is Ok <==> packer_takes(
            book_files(book),
            (Packed::Resource { path: path@, mime: mime@, content: content@ }),
        ),
        r matches Ok(after) ==> book_files(after) == book_files(book).push(
            (Packed::Resource { path: path@, mime: mime@, content: content@ }),
        ) && book_title(after) == book_title(book) && book_authors(after) == book_authors(book),
{
    let mut book = book;
    let outcome = book.epub.add_resource(path, content, mime).map(|_| ());
    match outcome {
        Ok(()) => Ok(book),
        Err(e) => Err(e),
    }
}

/// Calls `EpubBuilder::add_cover_image`. Where the packer takes the image,
/// it is the last of the book's files, and title and authors stay. Where it
/// does not, the book is used up with the error.
#[verifier::external_body]
fn add_cover_image(book: Book, path: &str, content: &[u8], mime: &str) -> (r: Result<
    Book,
    eyre::Report,
>)
    ensures
        r is Ok <==> packer_takes(
            book_files(book),
            (Packed::Cover { path: path@, mime: mime@, content: content@ }),
        ),
        r matches Ok(after) ==> book_files(after) == book_files(book).push(
            (Packed::Cover { path: path@, mime: mime@, content: content@ }),
        ) && book_title(after) == book_title(book) && book_authors(after) == book_authors(book),
{
    let mut book = book;
    let outcome = book.epub.add_cover_image(path, content, mime).map(|_| ());
    match outcome {
        Ok(()) => Ok(book),
        Err(e) => Err(e),
    }
}

/// Calls `EpubBuilder::add_content` with content made by `EpubContent::new`,
/// `title` and `reftype`. Where the packer takes the page, it is the last of
/// the book's files, and title and authors stay. Where it does not, the book
/// is used up with the error.
#[verifier::external_body]
fn add_content(book: Book, name: &str, content: &[u8], title: &str, kind: PageKind) -> (r: Result<
    Book,
    eyre::Report,
>)
    ensures
        r is Ok <==> packer_takes(
            book_files(book),
            (Packed::Page { name: name@, title: title@, kind: kind, content: content@ }),
        ),
        r matches Ok(after) ==> book_files(after) == book_files(book).push(
            (Packed::Page { name: name@, title: title@, kind: kind, content: content@ }),
        ) && book_title(after) == book_title(book) && book_authors(after) == book_authors(book),
{
    let mut book = book;
    let reftype = match kind {
        PageKind::TitlePage => ReferenceType::TitlePage,
        PageKind::Text => ReferenceType::Text,
    };
    let page = EpubContent::new(name, content).title(title).reftype(reftype);
    let outcome = book.epub.add_content(page).map(|_| ());
    match outcome {
        Ok(()) => Ok(book),
        Err(e) => Err(e),
    }
}

/// The bytes begin as an EPUB file does: with the entry of a zip archive for
/// the file `mimetype`, stored as it is and without an extra field, which
/// holds `application/epub+zip`.
pub open spec fn opens_as_epub(bytes: Seq<u8>) -> bool {
    &&& bytes.len() >= 58
    &&& bytes.subrange(0, 4) == seq![0x50u8, 0x4b, 0x03, 0x04]
    &&& bytes.subrange(8, 10) == seq![0u8, 0]
    &&& bytes.subrange(26, 30) == seq![8u8, 0, 0, 0]
    &&& bytes.subrange(30, 38) == encode_utf8("mimetype"@)
    &&& bytes.subrange(38, 58) == encode_utf8("application/epub+zip"@)
}

/// The path that a file of a book was handed to the packer with.
pub open spec fn packed_path(file: Packed) -> Seq<char> {
    match file {
        Packed::Resource { path, mime, content } => path,
        Packed::Cover { path, mime, content } => path,
        Packed::Page { name, title, kind, content } => name,
    }
}

/// The name under which a file of a book stands in the archive: its path,
/// joined to the directory `OEBPS`.
pub open spec fn archive_name(file: Packed) -> Seq<char> {
    path_join("OEBPS"@, packed_path(file))
}

/// `text` with a slash in the place of each backslash.
pub open spec fn slashed(text: Seq<char>) -> Seq<char> {
    text.map_values(
        |c: char|
            if c == '\\' {
                '/'
            } else {
                c
            },
    )
}

/// `part` stands in `bytes` at index `k`.
pub open spec fn bytes_at(bytes: Seq<u8>, part: Seq<u8>, k: int) -> bool {
    &&& 0 <= k
    &&& k + part.len() <= bytes.len()
    &&& bytes.subrange(k, k + part.len()) == part
}

/// At index `k` of `bytes` stands the name of `file` in the archive, as it
/// is or, where the platform writes paths with backslashes, with slashes in
/// their place.
pub open spec fn named_at(bytes: Seq<u8>, file: Packed, k: int) -> bool {
    bytes_at(bytes, encode_utf8(archive_name(file)), k) || bytes_at(
        bytes,
        encode_utf8(slashed(archive_name(file))),
        k,
    )
}

/// The archive `bytes` holds an entry for each of `files`: the name of each
/// stands in it.
pub open spec fn holds_files(bytes: Seq<u8>, files: Seq<Packed>) -> bool {
    forall|i: int|
        0 <= i < files.len() ==> exists|k: int| named_at(bytes, #[trigger] files[i], k)
}

/// Calls `EpubBuilder::generate` with a vector of bytes to write into, and
/// uses the book up. The bytes hold the time of the call and an identifier
/// drawn at random, so the contract gives them no name. What it states holds
/// of every book. `ZipLibrary::new` has put the file `mimetype` at the
/// beginning of the archive, uncompressed. Each file of the book was written
/// under its path joined to `OEBPS`, and the archive holds that name as it
/// was written. The bytes handed back are the archive.
#[verifier::external_body]
fn generate(book: Book) -> (r: Result<Vec<u8>, eyre::Report>)
    ensures
        r matches Ok(bytes) ==> opens_as_epub(bytes@) && holds_files(bytes@, book_files(book)),
{
    let mut book = book;
    let mut out: Vec<u8> = Vec::new();
    match book.epub.generate(&mut out) {
        Ok(()) => Ok(out),
        Err(e) => Err(e),
    }
}

/// The text of an `eyre::Report` with its causes, as its alternate `Debug`
/// writes it.
#[verifier::external_body]
fn report_text(e: &eyre::Report) -> (r: String) {
    format!("{:#?}", e)
}

/// The part that a document plays in a book.
#[derive(PartialEq, Eq, Structural, Clone, Copy, Debug)]
pub enum Role {
    /// The cover image.
    Cover,
    /// The title page.
    TitlePage,
    /// A numbered chapter.
    Chapter,
}

/// The role of a document, by the stem of its file name.
pub open spec fn role_of(stem: Seq<char>) -> Role {
    if stem == "cover"@ || stem == "_cover"@ {
        Role::Cover
    } else if stem == "title"@ || stem == "_title"@ {
        Role::TitlePage
    } else {
        Role::Chapter
    }
}

/// The role of a document, by the stem of its file name.
pub fn book_role(stem: &str) -> (r: Role)
    ensures
        r == role_of(stem@),
{
    if str_eq(stem, "cover") || str_eq(stem, "_cover") {
        Role::Cover
    } else if str_eq(stem, "title") || str_eq(stem, "_title") {
        Role::TitlePage
    } else {
        Role::Chapter
    }
}

/// The document at `path` is a chapter.
pub open spec fn is_chapter(path: Seq<char>) -> bool {
    path_file_stem(path) matches Some(stem) && role_of(stem) == Role::Chapter
}

/// How many of the first `i` documents are chapters.
pub open spec fn chapters_before(docs: Seq<Document>, i: int) -> nat
    decreases i,
{
    if i <= 0 {
        0
    } else {
        chapters_before(docs, i - 1) + if is_chapter(docs[i - 1].source_path@) {
            1nat
        } else {
            0nat
        }
    }
}

/// The number of the chapter that the document at index `i` is, if it is one:
/// chapters count from 1, and covers and title pages are not counted.
pub open spec fn chapter_number(docs: Seq<Document>, i: int) -> nat {
    chapters_before(docs, i) + 1
}

/// No more chapters come before an index than documents do.
pub proof fn lemma_chapters_before_bound(docs: Seq<Document>, i: int)
    requires
        0 <= i,
    ensures
        chapters_before(docs, i) <= i,
    decreases i,
{
    if i > 0 {
        lemma_chapters_before_bound(docs, i - 1);
    }
}

/// Where no chapter lies between two indices, as many chapters come before
/// the one as before the other.
pub proof fn lemma_chapters_before_gap(docs: Seq<Document>, i: int, j: int)
    requires
        0 <= i <= j,
        forall|k: int| i <= k < j ==> !is_chapter(#[trigger] docs[k].source_path@),
    ensures
        chapters_before(docs, j) == chapters_before(docs, i),
    decreases j - i,
{
    if i < j {
        lemma_chapters_before_gap(docs, i, j - 1);
    }
}

/// Chapters are numbered in sequence from 1: a chapter that no chapter comes
/// before has the number 1, and of two chapters with no chapter between them
/// the later has the number that follows that of the earlier. Covers and
/// title pages take no number.
pub proof fn lemma_chapter_numbers(docs: Seq<Document>, i: int, j: int)
    requires
        0 <= i <= j < docs.len(),
        is_chapter(docs[j].source_path@),
        forall|k: int| i < k < j ==> !is_chapter(#[trigger] docs[k].source_path@),
    ensures
        i < j && is_chapter(docs[i].source_path@) ==> chapter_number(docs, j) == chapter_number(
            docs,
            i,
        ) + 1,
        i == 0 && !is_chapter(docs[i].source_path@) ==> chapter_number(docs, j) == 1,
        i == 0 && i == j ==> chapter_number(docs, j) == 1,
{
    if i < j {
        lemma_chapters_before_gap(docs, i + 1, j);
        assert(chapters_before(docs, i + 1) == chapters_before(docs, i) + if is_chapter(
            docs[i].source_path@,
        ) {
            1nat
        } else {
            0nat
        });
    }
    if i == 0 {
        assert(chapters_before(docs, 0) == 0);
    }
}

/// What a document becomes in a book.
#[derive(Debug, PartialEq, Eq)]
pub enum BookEntry {
    /// The cover image, packed under the document's own path.
    Cover { path: String, mime: String },
    /// The title page, packed under the document's file name.
    TitlePage { name: String },
    /// A chapter, packed under `name` and listed under `title`.
    Chapter { name: String, title: String },
}

/// The model of a `BookEntry`.
pub enum BookEntryView {
    Cover { path: Seq<char>, mime: Seq<char> },
    TitlePage { name: Seq<char> },
    Chapter { name: Seq<char>, title: Seq<char> },
}

impl View for BookEntry {
    type V = BookEntryView;

    open spec fn view(&self) -> BookEntryView {
        match self {
            BookEntry::Cover { path, mime } => BookEntryView::Cover { path: path@, mime: mime@ },
            BookEntry::TitlePage { name } => BookEntryView::TitlePage { name: name@ },
            BookEntry::Chapter { name, title } => BookEntryView::Chapter {
                name: name@,
                title: title@,
            },
        }
    }
}

/// The title of the chapter with the number `number`.
pub open spec fn chapter_title(number: nat) -> Seq<char> {
    "Chapter "@ + decimal(number)
}

/// What the document at `path` becomes in a book, where `number` is the
/// number that it has if it is a chapter. A path without a file name becomes
/// nothing.
///
/// The media type of a cover is made of `image/` and the stem of the file
/// name, not its extension: `cover.png` is packed as `image/cover`.
pub open spec fn entry_of(path: Seq<char>, number: nat) -> Option<BookEntryView> {
    match path_file_stem(path) {
        None => None,
        Some(stem) => match role_of(stem) {
            Role::Cover => Some(BookEntryView::Cover { path: path, mime: "image/"@ + stem }),
            Role::TitlePage => match path_file_name(path) {
                Some(name) => Some(BookEntryView::TitlePage { name: name }),
                None => None,
            },
            Role::Chapter => Some(
                BookEntryView::Chapter {
                    name: stem + ".xhtml"@,
                    title: chapter_title(number),
                },
            ),
        },
    }
}

/// What `doc` becomes in a book, where `number` is the number that it has
/// if it is a chapter.
pub fn book_entry(doc: &Document, number: u64) -> (r: Result<BookEntry, DocumentError>)
    ensures
        match entry_of(doc.source_path@, number as nat) {
            Some(entry) => r matches Ok(e) && e@ == entry,
            None => r matches Err(DocumentError::NoFileName),
        },
{
    let stem = match doc.file_stem() {
        Ok(stem) => stem,
        Err(e) => {
            return Err(e);
        },
    };
    match book_role(stem.as_str()) {
        Role::Cover => {
            let mut mime = "image/".to_owned();
            mime.append(stem.as_str());
            Ok(BookEntry::Cover { path: doc.source_path.clone(), mime })
        },
        Role::TitlePage => match file_name(doc.source_path.as_str()) {
            Some(name) => Ok(BookEntry::TitlePage { name }),
            None => Err(DocumentError::NoFileName),
        },
        Role::Chapter => {
            let mut name = stem;
            name.append(".xhtml");
            let mut title = "Chapter ".to_owned();
            title.append(decimal_string(number).as_str());
            Ok(BookEntry::Chapter { name, title })
        },
    }
}

/// A file's bytes, for packing.
#[derive(Debug, PartialEq, Eq)]
pub struct BookFile {
    /// Where the file lies.
    pub path: String,
    /// What the file holds.
    pub content: Vec<u8>,
}

/// The bytes of the first of `files` that lies at `path`.
pub open spec fn content_of(files: Seq<BookFile>, path: Seq<char>) -> Option<Seq<u8>>
    decreases files.len(),
{
    if files.len() == 0 {
        None
    } else if files[0].path@ == path {
        Some(files[0].content@)
    } else {
        content_of(files.skip(1), path)
    }
}

/// The bytes of the first of `files` that lies at `path`.
pub fn find_content<'b>(files: &'b Vec<BookFile>, path: &str) -> (r: Option<&'b Vec<u8>>)
    ensures
        match content_of(files@, path@) {
            Some(content) => r matches Some(found) && found@ == content,
            None => r is None,
        },
{
    let mut i: usize = 0;
    assert(files@.skip(0) =~= files@);
    while i < files.len()
        invariant
            i <= files.len(),
            content_of(files@, path@) == content_of(files@.skip(i as int), path@),
        decreases files.len() - i,
    {
        assert(files@.skip(i as int)[0] == files@[i as int]);
        assert(files@.skip(i as int).skip(1) =~= files@.skip(i + 1));
        if str_eq(files[i].path.as_str(), path) {
            return Some(&files[i].content);
        }
        i += 1;
    }
    None
}

/// The bytes that are packed for `doc` as `entry`: those of the file itself
/// for a cover and for a document that is not markdown, and the rendered
/// page for a markdown document that is a title page or a chapter.
pub open spec fn entry_content(
    web: WebView,
    doc: Document,
    entry: BookEntryView,
    contents: Seq<BookFile>,
) -> Option<Seq<u8>> {
    if entry is Cover || doc.info is Other {
        content_of(contents, doc.source_path@)
    } else {
        match page_of(web.templates, doc) {
            Some(page) => Some(encode_utf8(page)),
            None => None,
        }
    }
}

/// The bytes of the file at `doc`'s path are what a book packs for it: the
/// document is a cover, or it is not markdown.
pub open spec fn packed_raw(doc: Document) -> bool {
    doc.info is Other || (path_file_stem(doc.source_path@) matches Some(stem) && role_of(stem)
        == Role::Cover)
}

/// Whether a book packs the bytes of the file itself for `doc`, so that they
/// have to be among the contents handed to `gen_book`.
pub fn needs_content(doc: &Document) -> (r: bool)
    ensures
        r == packed_raw(*doc),
{
    if !doc.is_markdown() {
        return true;
    }
    match doc.file_stem() {
        Ok(stem) => match book_role(stem.as_str()) {
            Role::Cover => true,
            _ => false,
        },
        Err(_) => false,
    }
}

/// The file that `entry` is in a book, given its bytes.
pub open spec fn packed_of(entry: BookEntryView, content: Seq<u8>) -> Packed {
    match entry {
        BookEntryView::Cover { path, mime } => Packed::Cover { path, mime, content },
        BookEntryView::TitlePage { name } => Packed::Page {
            name,
            title: "Title Page"@,
            kind: PageKind::TitlePage,
            content,
        },
        BookEntryView::Chapter { name, title } => Packed::Page {
            name,
            title,
            kind: PageKind::Text,
            content,
        },
    }
}

/// The file that the document at index `i` of the site `web` is in a book;
/// nothing where the document has no file name or its bytes cannot be had.
pub open spec fn doc_packed(web: WebView, i: int, contents: Seq<BookFile>) -> Option<Packed> {
    match entry_of(web.docs[i].source_path@, chapter_number(web.docs, i)) {
        None => None,
        Some(entry) => match entry_content(web, web.docs[i], entry, contents) {
            None => None,
            Some(content) => Some(packed_of(entry, content)),
        },
    }
}

/// The files that the first `n` documents of the site `web` are in a book.
pub open spec fn packed_documents(web: WebView, n: int, contents: Seq<BookFile>) -> Seq<Packed> {
    Seq::new(n as nat, |i: int| doc_packed(web, i, contents)->0)
}

/// A file of the template directory goes into a book as a resource when it
/// lies under the directory with no hidden component below it and is not a
/// template itself.
pub open spec fn is_resource(root: Seq<char>, file: BookFile) -> bool {
    visible_below(file.path@, root) && path_extension(file.path@) != Some("hbs"@)
}

/// The resource that a file under `root` is in a book: it keeps its place
/// relative to `root`, and its media type goes by its extension.
pub open spec fn resource_of(root: Seq<char>, file: BookFile) -> Packed {
    Packed::Resource {
        path: path_strip_prefix(file.path@, root)->0,
        mime: mimetype_of(ext_of(path_strip_prefix(file.path@, root)->0)),
        content: file.content@,
    }
}

/// The resources that the files of the template directory `root` are in a book.
pub open spec fn packed_resources(root: Seq<char>, files: Seq<BookFile>) -> Seq<Packed>
    decreases files.len(),
{
    if files.len() == 0 {
        Seq::empty()
    } else if is_resource(root, files.last()) {
        packed_resources(root, files.drop_last()).push(resource_of(root, files.last()))
    } else {
        packed_resources(root, files.drop_last())
    }
}

/// The place in the book of `file`, where it goes into a book as a resource
/// of the template directory `root`.
pub fn book_resource(root: &str, file: &BookFile) -> (r: Option<String>)
    ensures
        match r {
            Some(rel) => is_resource(root@, *file) && path_strip_prefix(file.path@, root@) == Some(
                rel@,
            ),
            None => !is_resource(root@, *file),
        },
{
    let rel = match visible_part(file.path.as_str(), root) {
        Some(rel) => rel,
        None => {
            return None;
        },
    };
    if has_extension(file.path.as_str(), "hbs") {
        None
    } else {
        Some(rel)
    }
}

/// The packer takes each of `files` in turn into a book that holds `start`
/// to begin with.
pub open spec fn takes_all(start: Seq<Packed>, files: Seq<Packed>) -> bool
    decreases files.len(),
{
    files.len() == 0 || (takes_all(start, files.drop_last()) && packer_takes(
        start + files.drop_last(),
        files.last(),
    ))
}

/// If the packer takes a run of files, it takes those that come first in it.
pub proof fn lemma_takes_all_prefix(start: Seq<Packed>, first: Seq<Packed>, rest: Seq<Packed>)
    requires
        takes_all(start, first + rest),
    ensures
        takes_all(start, first),
    decreases rest.len(),
{
    if rest.len() > 0 {
        assert((first + rest).drop_last() =~= first + rest.drop_last());
        lemma_takes_all_prefix(start, first, rest.drop_last());
    } else {
        assert(first + rest =~= first);
    }
}

/// The resources of the first `k` files are the first of the resources of
/// all the files; what follows them is handed back.
pub proof fn lemma_packed_resources_split(root: Seq<char>, files: Seq<BookFile>, k: int) -> (rest:
    Seq<Packed>)
    requires
        0 <= k <= files.len(),
    ensures
        packed_resources(root, files) == packed_resources(root, files.subrange(0, k)) + rest,
    decreases files.len(),
{
    let head = packed_resources(root, files.subrange(0, k));
    if k == files.len() {
        assert(files.subrange(0, k) =~= files);
        assert(head + Seq::<Packed>::empty() =~= head);
        Seq::empty()
    } else {
        assert(files.drop_last().subrange(0, k) =~= files.subrange(0, k));
        let before = lemma_packed_resources_split(root, files.drop_last(), k);
        if is_resource(root, files.last()) {
            let rest = before.push(resource_of(root, files.last()));
            assert((head + before).push(resource_of(root, files.last())) =~= head + rest);
            rest
        } else {
            before
        }
    }
}

/// What the packer was doing when it refused `file`.
pub open spec fn packing_step(file: Packed) -> Seq<char> {
    match file {
        Packed::Resource { .. } => "adding epub stylesheets"@,
        Packed::Cover { .. } => "adding cover image"@,
        Packed::Page { name, title, kind, content } => if kind == PageKind::TitlePage {
            "adding title page to epub"@
        } else {
            "adding content to epub"@
        },
    }
}

impl Book {
    /// A book without title, authors or files.
    pub fn new() -> (r: Result<Book, WebError>)
        ensures
            r matches Ok(book) && book@.title.len() == 0 && book@.authors.len() == 0
                && book@.files.len() == 0,
    {
        let zip = match new_zip() {
            Ok(zip) => zip,
            Err(e) => {
                return Err(
                    WebError::Book { step: "initializing zip".to_owned(), message: report_text(&e) },
                );
            },
        };
        match new_book(zip) {
            Ok(book) => Ok(book),
            Err(e) => Err(
                WebError::Book { step: "initializing epub".to_owned(), message: report_text(&e) },
            ),
        }
    }

    /// Writes the book out as an EPUB file.
    ///
    /// The bytes are a zip archive that begins with the file `mimetype`, by
    /// which an EPUB file is known, and that has an entry for each file of
    /// the book, under its path in the directory `OEBPS`. The archive also
    /// holds the moment of writing and an identifier drawn by chance, so its
    /// bytes are not stated further. Where the packer fails, the error says
    /// that the book was being generated, and keeps the packer's message.
    pub fn generate(self) -> (r: Result<Vec<u8>, WebError>)
        ensures
            match r {
                Ok(bytes) => opens_as_epub(bytes@) && holds_files(bytes@, self@.files),
                Err(e) => e matches WebError::Book { step, message } && step@
                    == "generating epub"@,
            },
    {
        match generate(self) {
            Ok(bytes) => Ok(bytes),
            Err(e) => Err(
                WebError::Book { step: "generating epub".to_owned(), message: report_text(&e) },
            ),
        }
    }
}

/// Each of the first `n` documents of the site `web` has a file in a book.
pub open spec fn packed_before(web: WebView, n: int, contents: Seq<BookFile>) -> bool {
    forall|k: int| 0 <= k < n ==> (#[trigger] doc_packed(web, k, contents)) is Some
}

/// The book of the site `web` can be packed: every document has a file in a
/// book, and the packer takes the resources and then those files in turn.
pub open spec fn packs(web: WebView, resources: Seq<BookFile>, contents: Seq<BookFile>) -> bool {
    &&& packed_before(web, web.docs.len() as int, contents)
    &&& takes_all(Seq::empty(), packed_resources(web.template_dir_path, resources))
    &&& takes_all(
        packed_resources(web.template_dir_path, resources),
        packed_documents(web, web.docs.len() as int, contents),
    )
}

/// `e` is the error for the document at index `i` of the site `web`, which
/// has no file in a book: it has no file name, or its bytes are missing, or
/// it cannot be rendered.
pub open spec fn unpacked_failure(web: WebView, i: int, e: WebError) -> bool {
    match entry_of(web.docs[i].source_path@, chapter_number(web.docs, i)) {
        None => e matches WebError::Document { path, cause } && path@ == web.docs[i].source_path@
            && cause is NoFileName,
        Some(entry) => if entry is Cover || web.docs[i].info is Other {
            e matches WebError::MissingContent { path } && path@ == web.docs[i].source_path@
        } else {
            e matches WebError::Document { path, cause } && path@ == web.docs[i].source_path@
                && web.docs[i].fails_with(web.templates, cause)
        },
    }
}

/// Packing the book of the site `web` stops at the document at index `i`
/// with the error `e`: the documents before it have been packed, and this
/// one has no file in a book, or the packer does not take its file.
pub open spec fn stops_at(
    web: WebView,
    resources: Seq<BookFile>,
    contents: Seq<BookFile>,
    i: int,
    e: WebError,
) -> bool {
    &&& 0 <= i < web.docs.len()
    &&& packed_before(web, i, contents)
    &&& takes_all(
        packed_resources(web.template_dir_path, resources),
        packed_documents(web, i, contents),
    )
    &&& match doc_packed(web, i, contents) {
        None => unpacked_failure(web, i, e),
        Some(file) => {
            &&& !packer_takes(
                packed_resources(web.template_dir_path, resources) + packed_documents(
                    web,
                    i,
                    contents,
                ),
                file,
            )
            &&& e matches WebError::Book { step, message }
            &&& step@ == packing_step(file)
        },
    }
}

/// `e` is the error that packing the book of the site `web` ends in: the
/// packer does not take the resources, or the packing stops at the first
/// document that cannot be packed.
pub open spec fn packing_failure(
    web: WebView,
    resources: Seq<BookFile>,
    contents: Seq<BookFile>,
    e: WebError,
) -> bool {
    if !takes_all(Seq::empty(), packed_resources(web.template_dir_path, resources)) {
        e matches WebError::Book { step, message } && step@ == "adding epub stylesheets"@
    } else {
        exists|i: int| #[trigger] stops_at(web, resources, contents, i, e)
    }
}

/// Where packing stops at a document, the book cannot be packed.
pub proof fn lemma_stops_at(
    web: WebView,
    resources: Seq<BookFile>,
    contents: Seq<BookFile>,
    i: int,
    e: WebError,
)
    requires
        stops_at(web, resources, contents, i, e),
    ensures
        !packs(web, resources, contents),
{
    let first = packed_resources(web.template_dir_path, resources);
    let n = web.docs.len() as int;
    if packs(web, resources, contents) {
        let file = doc_packed(web, i, contents)->0;
        let all = packed_documents(web, n, contents);
        let upto = packed_documents(web, i + 1, contents);
        assert(all =~= upto + all.subrange(i + 1, n));
        lemma_takes_all_prefix(first, upto, all.subrange(i + 1, n));
        assert(upto.drop_last() =~= packed_documents(web, i, contents));
        assert(upto.last() == file);
    }
}

impl<'a> Web<'a> {
    /// What each document becomes in a book, in the order of the documents.
    ///
    /// Chapters are numbered from 1 in that order; covers and title pages
    /// are passed over in the count. A document without a file name ends the
    /// work with an error.
    pub fn book_plan(&self) -> (r: Result<Vec<BookEntry>, WebError>)
        ensures
            match r {
                Ok(plan) => {
                    &&& plan@.len() == self@.docs.len()
                    &&& forall|i: int|
                        0 <= i < plan@.len() ==> entry_of(
                            self@.docs[i].source_path@,
                            chapter_number(self@.docs, i),
                        ) == Some((#[trigger] plan@[i])@)
                    &&& forall|i: int|
                        0 <= i < plan@.len() ==> visible_below(
                            (#[trigger] self@.docs[i]).source_path@,
                            self@.in_path,
                        )
                },
                Err(e) => e matches WebError::Document { path, cause } && cause is NoFileName
                    && exists|i: int|
                    0 <= i < self@.docs.len() && (#[trigger] self@.docs[i]).source_path@ == path@
                        && entry_of(path@, chapter_number(self@.docs, i)) is None,
            },
    {
        let docs = self.documents();
        let mut plan: Vec<BookEntry> = Vec::new();
        let mut count: u64 = 0;
        let mut i: usize = 0;
        while i < docs.len()
            invariant
                i <= docs.len(),
                docs@ == self@.docs,
                count == chapters_before(docs@, i as int),
                plan@.len() == i,
                forall|k: int|
                    0 <= k < i ==> entry_of(docs@[k].source_path@, chapter_number(docs@, k))
                        == Some((#[trigger] plan@[k])@),
            decreases docs.len() - i,
        {
            proof {
                lemma_chapters_before_bound(docs@, i as int);
            }
            let doc = &docs[i];
            match book_entry(doc, count + 1) {
                Ok(entry) => {
                    match &entry {
                        BookEntry::Chapter { .. } => {
                            count += 1;
                        },
                        _ => {},
                    }
                    plan.push(entry);
                },
                Err(cause) => {
                    return Err(WebError::Document { path: doc.source_path.clone(), cause });
                },
            }
            i += 1;
        }
        Ok(plan)
    }

    /// Adds to `epub` the files of the template directory that are
    /// resources, in their order: each keeps its place relative to the
    /// directory, and its media type goes by its extension. The work
    /// succeeds where the packer takes every one of them.
    pub fn add_template_stylesheet_files(&self, epub: Book, resources: &Vec<BookFile>) -> (r: Result<
        Book,
        WebError,
    >)
        ensures
            r is Ok <==> takes_all(
                epub@.files,
                packed_resources(self@.template_dir_path, resources@),
            ),
            match r {
                Ok(book) => {
                    &&& book@.title == epub@.title
                    &&& book@.authors == epub@.authors
                    &&& book@.files == epub@.files + packed_resources(
                        self@.template_dir_path,
                        resources@,
                    )
                },
                Err(e) => e matches WebError::Book { step, message } && step@
                    == "adding epub stylesheets"@,
            },
    {
        let mut book = epub;
        let root = self.template_dir_path();
        let ghost start = epub@.files;
        let mut i: usize = 0;
        proof {
            assert(resources@.subrange(0, 0) =~= Seq::<BookFile>::empty());
            assert(start + Seq::<Packed>::empty() =~= start);
        }
        while i < resources.len()
            invariant
                i <= resources.len(),
                root@ == self@.template_dir_path,
                book@.title == epub@.title,
                book@.authors == epub@.authors,
                start == epub@.files,
                book@.files == start + packed_resources(root@, resources@.subrange(0, i as int)),
                takes_all(start, packed_resources(root@, resources@.subrange(0, i as int))),
            decreases resources.len() - i,
        {
            let file = &resources[i];
            let ghost done = packed_resources(root@, resources@.subrange(0, i as int));
            proof {
                let before = resources@.subrange(0, i as int);
                assert(resources@.subrange(0, i + 1).drop_last() =~= before);
                assert(resources@.subrange(0, i + 1).last() == resources@[i as int]);
            }
            match book_resource(root.as_str(), file) {
                Some(rel) => {
                    let mime = rel.as_str().mimetype();
                    let ghost added = resource_of(root@, *file);
                    assert(done.push(added).drop_last() =~= done);
                    match add_resource(book, rel.as_str(), file.content.as_slice(), mime) {
                        Ok(after) => {
                            book = after;
                            assert(book@.files =~= start + done.push(added));
                        },
                        Err(e) => {
                            proof {
                                let rest = lemma_packed_resources_split(
                                    root@,
                                    resources@,
                                    i + 1,
                                );
                                if takes_all(start, packed_resources(root@, resources@)) {
                                    lemma_takes_all_prefix(start, done.push(added), rest);
                                }
                            }
                            return Err(
                                WebError::Book {
                                    step: "adding epub stylesheets".to_owned(),
                                    message: report_text(&e),
                                },
                            );
                        },
                    }
                },
                None => {},
            }
            i += 1;
        }
        assert(resources@.subrange(0, i as int) =~= resources@);
        Ok(book)
    }

    /// Packs the book: the resources of the template directory, then the
    /// author and the title, then the documents in their order.
    ///
    /// `resources` are the files found in the template directory, and
    /// `contents` the files of the source tree whose bytes are packed as
    /// they are: the cover, and every document that is not markdown. A
    /// markdown document that is a title page or a chapter is rendered.
    ///
    /// The work succeeds where every document has a file in a book and the
    /// packer takes every file. Else it ends with the error of the resources
    /// or of the first document that cannot be packed.
    pub fn make_book_internal(
        &self,
        author: &str,
        title: &str,
        resources: &Vec<BookFile>,
        contents: &Vec<BookFile>,
    ) -> (r: Result<Book, WebError>)
        ensures
            r is Ok <==> packs(self@, resources@, contents@),
            match r {
                Ok(book) => {
                    &&& book@.title == title@
                    &&& book@.authors == seq![author@]
                    &&& book@.files == packed_resources(self@.template_dir_path, resources@)
                        + packed_documents(self@, self@.docs.len() as int, contents@)
                },
                Err(e) => packing_failure(self@, resources@, contents@, e),
            },
    {
        let book = match Book::new() {
            Ok(book) => book,
            Err(e) => {
                return Err(e);
            },
        };
        assert(book@.files =~= Seq::<Packed>::empty());
        let ghost first = packed_resources(self@.template_dir_path, resources@);
        let mut book = match self.add_template_stylesheet_files(book, resources) {
            Ok(book) => book,
            Err(e) => {
                return Err(e);
            },
        };
        add_author(&mut book, author);
        set_title(&mut book, title);
        assert(book@.authors =~= seq![author@]);
        assert(book@.files =~= first);
        let docs = self.documents();
        let mut count: u64 = 0;
        let mut i: usize = 0;
        assert(first + packed_documents(self@, 0, contents@) =~= first);
        while i < docs.len()
            invariant
                i <= docs.len(),
                docs@ == self@.docs,
                count == chapters_before(docs@, i as int),
                book@.title == title@,
                book@.authors == seq![author@],
                first == packed_resources(self@.template_dir_path, resources@),
                takes_all(Seq::empty(), first),
                packed_before(self@, i as int, contents@),
                takes_all(first, packed_documents(self@, i as int, contents@)),
                book@.files == first + packed_documents(self@, i as int, contents@),
            decreases docs.len() - i,
        {
            proof {
                lemma_chapters_before_bound(docs@, i as int);
            }
            let doc = &docs[i];
            let ghost before = packed_documents(self@, i as int, contents@);
            let entry = match book_entry(doc, count + 1) {
                Ok(entry) => entry,
                Err(cause) => {
                    let e = WebError::Document { path: doc.source_path.clone(), cause };
                    proof {
                        assert(stops_at(self@, resources@, contents@, i as int, e));
                        lemma_stops_at(self@, resources@, contents@, i as int, e);
                    }
                    return Err(e);
                },
            };
            let rendered = match &entry {
                BookEntry::Cover { .. } => None,
                _ => {
                    if doc.is_markdown() {
                        match doc.gen_html(self) {
                            Ok(page) => Some(page),
                            Err(cause) => {
                                let e = WebError::Document {
                                    path: doc.source_path.clone(),
                                    cause,
                                };
                                proof {
                                    assert(stops_at(self@, resources@, contents@, i as int, e));
                                    lemma_stops_at(self@, resources@, contents@, i as int, e);
                                }
                                return Err(e);
                            },
                        }
                    } else {
                        None
                    }
                },
            };
            let bytes: &[u8] = match &rendered {
                Some(page) => page.as_str().as_bytes(),
                None => match find_content(contents, doc.source_path.as_str()) {
                    Some(content) => content.as_slice(),
                    None => {
                        let e = WebError::MissingContent { path: doc.source_path.clone() };
                        proof {
                            assert(stops_at(self@, resources@, contents@, i as int, e));
                            lemma_stops_at(self@, resources@, contents@, i as int, e);
                        }
                        return Err(e);
                    },
                },
            };
            assert(entry_content(self@, *doc, entry@, contents@) == Some(bytes@));
            let ghost added = packed_of(entry@, bytes@);
            assert(doc_packed(self@, i as int, contents@) == Some(added));
            let (outcome, step) = match &entry {
                BookEntry::Cover { path, mime } => (
                    add_cover_image(book, path.as_str(), bytes, mime.as_str()),
                    "adding cover image",
                ),
                BookEntry::TitlePage { name } => (
                    add_content(book, name.as_str(), bytes, "Title Page", PageKind::TitlePage),
                    "adding title page to epub",
                ),
                BookEntry::Chapter { name, title } => (
                    add_content(book, name.as_str(), bytes, title.as_str(), PageKind::Text),
                    "adding content to epub",
                ),
            };
            match outcome {
                Ok(after) => {
                    book = after;
                },
                Err(report) => {
                    let e = WebError::Book { step: step.to_owned(), message: report_text(&report) };
                    proof {
                        assert(stops_at(self@, resources@, contents@, i as int, e));
                        lemma_stops_at(self@, resources@, contents@, i as int, e);
                    }
                    return Err(e);
                },
            }
            match &entry {
                BookEntry::Chapter { .. } => {
                    count += 1;
                },
                _ => {},
            }
            proof {
                let after = packed_documents(self@, i + 1, contents@);
                assert(after =~= before.push(added));
                assert(after.drop_last() =~= before);
                assert(book@.files =~= first + after);
            }
            i += 1;
        }
        Ok(book)
    }

    /// Packs the documents into a book by "Author Name", called "My Book",
    /// and writes it out as an EPUB file. A book needs at least one document.
    ///
    /// Without a document the work ends with `NoFiles`. Where the book
    /// cannot be packed, it ends with the error of the packing. Where it
    /// can, the bytes are those of `Book::generate`, whose own failure is the
    /// one error left.
    pub fn gen_book(&self, resources: &Vec<BookFile>, contents: &Vec<BookFile>) -> (r: Result<
        Vec<u8>,
        WebError,
    >)
        ensures
            self@.docs.len() == 0 <==> r matches Err(WebError::NoFiles),
            match r {
                Ok(bytes) => self@.docs.len() > 0 && packs(self@, resources@, contents@)
                    && opens_as_epub(bytes@) && holds_files(
                    bytes@,
                    packed_resources(self@.template_dir_path, resources@) + packed_documents(
                        self@,
                        self@.docs.len() as int,
                        contents@,
                    ),
                ),
                Err(e) => if self@.docs.len() == 0 {
                    e is NoFiles
                } else if packs(self@, resources@, contents@) {
                    e matches WebError::Book { step, message } && step@ == "generating epub"@
                } else {
                    packing_failure(self@, resources@, contents@, e)
                },
            },
    {
        match self.source_directory_has_files() {
            Ok(_) => {},
            Err(e) => {
                return Err(e);
            },
        }
        let book = match self.make_book_internal("Author Name", "My Book", resources, contents) {
            Ok(book) => book,
            Err(e) => {
                proof {
                    if e is NoFiles {
                        let first = packed_resources(self@.template_dir_path, resources@);
                        if takes_all(Seq::empty(), first) {
                            let i = choose|i: int|
                                #[trigger] stops_at(self@, resources@, contents@, i, e);
                        }
                    }
                }
                return Err(e);
            },
        };
        book.generate()
    }
}

} // verus!
