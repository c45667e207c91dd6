use std::io::Read;
use webgenr::Web;
use webgenr::book::Book;
use webgenr::book::BookEntry;
use webgenr::book::BookFile;
use webgenr::book::Role;
use webgenr::book::book_entry;
use webgenr::book::book_role;
use webgenr::book::find_content;
use webgenr::book::needs_content;
use webgenr::document::Document;
use webgenr::error::DocumentError;
use webgenr::error::WebError;
use webgenr::web::SourceFile;
use webgenr::web::TemplateSource;

fn file(path: &str, text: Option<&str>) -> SourceFile {
    SourceFile { path: path.to_string(), text: text.map(|t| t.to_string()) }
}

fn bytes(path: &str, content: &[u8]) -> BookFile {
    BookFile { path: path.to_string(), content: content.to_vec() }
}

fn site(files: &Vec<SourceFile>) -> Web<'static> {
    let templates =
        vec![TemplateSource { name: "default".to_string(), source: "<html>{{body}}</html>".to_string() }];
    Web::new("markdown", "_website", "templates", &templates, files).unwrap()
}

fn unpack(epub: Vec<u8>) -> Vec<(String, Vec<u8>)> {
    let mut archive = zip::ZipArchive::new(std::io::Cursor::new(epub)).unwrap();
    let mut out = Vec::new();
    for i in 0..archive.len() {
        let mut entry = archive.by_index(i).unwrap();
        let mut content = Vec::new();
        entry.read_to_end(&mut content).unwrap();
        out.push((entry.name().to_string(), content));
    }
    out
}

fn content_of<'a>(files: &'a Vec<(String, Vec<u8>)>, name: &str) -> &'a [u8] {
    &files.iter().find(|f| f.0 == name).unwrap().1
}

#[test]
fn roles_by_stem() {
    assert_eq!(book_role("cover"), Role::Cover);
    assert_eq!(book_role("_cover"), Role::Cover);
    assert_eq!(book_role("title"), Role::TitlePage);
    assert_eq!(book_role("_title"), Role::TitlePage);
    assert_eq!(book_role("Cover"), Role::Chapter);
    assert_eq!(book_role("cover2"), Role::Chapter);
    assert_eq!(book_role(""), Role::Chapter);
    assert_eq!(book_role("a"), Role::Chapter);
}

#[test]
fn chapter_numbering_skips_cover_and_title() {
    let web = site(&vec![
        file("markdown/cover.png", None),
        file("markdown/title.md", Some("# T")),
        file("markdown/a.md", Some("a")),
        file("markdown/b.md", Some("b")),
    ]);
    assert_eq!(
        web.book_plan().unwrap(),
        vec![
            BookEntry::Cover { path: "markdown/cover.png".to_string(), mime: "image/cover".to_string() },
            BookEntry::TitlePage { name: "title.md".to_string() },
            BookEntry::Chapter { name: "a.xhtml".to_string(), title: "Chapter 1".to_string() },
            BookEntry::Chapter { name: "b.xhtml".to_string(), title: "Chapter 2".to_string() },
        ]
    );
}

#[test]
fn chapter_numbering_goes_by_order_and_past_nine() {
    let mut files = Vec::new();
    for i in 0..12 {
        files.push(file(&format!("markdown/c{}.txt", i), None));
        if i == 4 {
            files.push(file("markdown/sub/_title.txt", None));
            files.push(file("markdown/_cover.jpg", None));
        }
    }
    let web = site(&files);
    let plan = web.book_plan().unwrap();
    assert_eq!(plan.len(), 14);
    assert_eq!(plan[0], BookEntry::Chapter { name: "c0.xhtml".to_string(), title: "Chapter 1".to_string() });
    assert_eq!(plan[4], BookEntry::Chapter { name: "c4.xhtml".to_string(), title: "Chapter 5".to_string() });
    assert_eq!(plan[5], BookEntry::TitlePage { name: "_title.txt".to_string() });
    assert_eq!(
        plan[6],
        BookEntry::Cover { path: "markdown/_cover.jpg".to_string(), mime: "image/_cover".to_string() }
    );
    assert_eq!(plan[7], BookEntry::Chapter { name: "c5.xhtml".to_string(), title: "Chapter 6".to_string() });
    assert_eq!(plan[13], BookEntry::Chapter { name: "c11.xhtml".to_string(), title: "Chapter 12".to_string() });
}

#[test]
fn book_entry_of_single_document() {
    let doc = Document::new("x/notes.final.md", Some("".to_string())).unwrap();
    assert_eq!(
        book_entry(&doc, 120),
        Ok(BookEntry::Chapter { name: "notes.final.xhtml".to_string(), title: "Chapter 120".to_string() })
    );
    let max = book_entry(&doc, u64::MAX).unwrap();
    assert_eq!(
        max,
        BookEntry::Chapter {
            name: "notes.final.xhtml".to_string(),
            title: "Chapter 18446744073709551615".to_string()
        }
    );
    let nameless = Document::new("..", None).unwrap();
    assert_eq!(book_entry(&nameless, 1), Err(DocumentError::NoFileName));
}

#[test]
fn find_content_takes_first_match() {
    let files = vec![bytes("a", b"1"), bytes("b", b"2"), bytes("a", b"3")];
    assert_eq!(find_content(&files, "a"), Some(&b"1".to_vec()));
    assert_eq!(find_content(&files, "b"), Some(&b"2".to_vec()));
    assert_eq!(find_content(&files, "c"), None);
    assert_eq!(find_content(&vec![], "a"), None);
}

#[test]
fn gen_book_needs_files() {
    let web = site(&vec![]);
    assert_eq!(web.gen_book(&vec![], &vec![]).err(), Some(WebError::NoFiles));
}

#[test]
fn gen_book_needs_the_bytes_of_other_files() {
    let web = site(&vec![file("markdown/a.md", Some("a")), file("markdown/raw.txt", None)]);
    assert_eq!(
        web.gen_book(&vec![], &vec![]).err(),
        Some(WebError::MissingContent { path: "markdown/raw.txt".to_string() })
    );
}

#[test]
fn gen_book_packs_everything() {
    let web = site(&vec![
        file("markdown/cover.png", None),
        file("markdown/title.md", Some("# The Title")),
        file("markdown/a.md", Some("first")),
        file("markdown/raw.txt", None),
    ]);
    let resources = vec![
        bytes("templates/default.hbs", b"<html>{{body}}</html>"),
        bytes("templates/css/style.css", b"p { margin: 0 }"),
        bytes("templates/.hidden", b"no"),
    ];
    let contents = vec![bytes("markdown/cover.png", b"\x89PNG"), bytes("markdown/raw.txt", b"raw text")];
    let epub = web.gen_book(&resources, &contents).unwrap();
    let files = unpack(epub);
    let names: Vec<&str> = files.iter().map(|f| f.0.as_str()).collect();
    assert_eq!(names[0], "mimetype");
    assert_eq!(content_of(&files, "mimetype"), b"application/epub+zip");
    let packed: Vec<&str> = names
        .iter()
        .filter(|n| n.starts_with("OEBPS/") && !n.ends_with(".opf") && !n.ends_with(".ncx"))
        .copied()
        .collect();
    assert_eq!(
        packed,
        vec![
            "OEBPS/css/style.css",
            "OEBPS/markdown/cover.png",
            "OEBPS/title.md",
            "OEBPS/a.xhtml",
            "OEBPS/raw.xhtml",
            "OEBPS/stylesheet.css",
            "OEBPS/nav.xhtml",
        ]
    );
    assert_eq!(content_of(&files, "OEBPS/css/style.css"), b"p { margin: 0 }");
    assert_eq!(content_of(&files, "OEBPS/markdown/cover.png"), b"\x89PNG");
    assert_eq!(content_of(&files, "OEBPS/title.md"), b"<html><h1>The Title</h1>\n</html>");
    assert_eq!(content_of(&files, "OEBPS/a.xhtml"), b"<html><p>first</p>\n</html>");
    assert_eq!(content_of(&files, "OEBPS/raw.xhtml"), b"raw text");
    let opf = String::from_utf8(content_of(&files, "OEBPS/content.opf").to_vec()).unwrap();
    assert!(opf.contains("My Book"));
    assert!(opf.contains("Author Name"));
    assert!(opf.contains("media-type=\"image/cover\""));
    assert!(opf.contains("media-type=\"text/css\""));
    let toc = String::from_utf8(content_of(&files, "OEBPS/toc.ncx").to_vec()).unwrap();
    assert!(toc.contains("Title Page"));
    assert!(toc.contains("Chapter 1"));
    assert!(toc.contains("Chapter 2"));
    assert!(!toc.contains("Chapter 3"));
}

#[test]
fn cover_in_markdown_is_packed_raw() {
    let web = site(&vec![file("markdown/cover.md", Some("# not rendered"))]);
    let contents = vec![bytes("markdown/cover.md", b"# as it is")];
    let files = unpack(web.gen_book(&vec![], &contents).unwrap());
    assert_eq!(content_of(&files, "OEBPS/markdown/cover.md"), b"# as it is");
}

#[test]
fn book_resources_keep_their_place() {
    let web = site(&vec![]);
    let resources = vec![
        bytes("templates/a.css", b"a"),
        bytes("templates/page.hbs", b"t"),
        bytes("elsewhere/b.css", b"b"),
        bytes("templates/img/c.png", b"c"),
        bytes("templates/.git/d", b"d"),
    ];
    let book = web.add_template_stylesheet_files(Book::new().unwrap(), &resources).unwrap();
    let files = unpack(book.generate().unwrap());
    let names: Vec<&str> = files.iter().map(|f| f.0.as_str()).collect();
    assert!(names.contains(&"OEBPS/a.css"));
    assert!(names.contains(&"OEBPS/img/c.png"));
    assert!(!names.iter().any(|n| n.contains("hbs") || n.contains("b.css") || n.contains(".git")));
    assert_eq!(content_of(&files, "OEBPS/img/c.png"), b"c");
    let opf = String::from_utf8(content_of(&files, "OEBPS/content.opf").to_vec()).unwrap();
    assert!(opf.contains("media-type=\"image/png\""));
    assert!(opf.contains("media-type=\"text/css\""));
}

#[test]
fn make_book_sets_author_and_title() {
    let web = site(&vec![file("markdown/a.md", Some("a"))]);
    let book = web.make_book_internal("Ann Author", "The Work", &vec![], &vec![]).unwrap();
    let files = unpack(book.generate().unwrap());
    let opf = String::from_utf8(content_of(&files, "OEBPS/content.opf").to_vec()).unwrap();
    assert!(opf.contains("<dc:title>The Work</dc:title>"));
    assert!(opf.contains("Ann Author"));
    assert!(!opf.contains("My Book"));
}

#[test]
fn render_failure_stops_the_book() {
    let templates = vec![TemplateSource { name: "other".to_string(), source: "x".to_string() }];
    let web = Web::new("markdown", "_website", "templates", &templates, &vec![file("markdown/a.md", Some("a"))])
        .unwrap();
    match web.gen_book(&vec![], &vec![]) {
        Err(WebError::Document { path, cause }) => {
            assert_eq!(path, "markdown/a.md");
            assert!(matches!(cause, DocumentError::Render(_)));
        }
        _ => panic!("render error expected"),
    }
}

#[test]
fn needs_content_for_covers_and_other_files() {
    let md = |path: &str| Document::new(path, Some("".to_string())).unwrap();
    let other = |path: &str| Document::new(path, None).unwrap();
    assert!(needs_content(&other("m/cover.png")));
    assert!(needs_content(&other("m/notes.txt")));
    assert!(needs_content(&other("m/title.html")));
    assert!(needs_content(&md("m/cover.md")));
    assert!(needs_content(&md("m/_cover.markdown")));
    assert!(!needs_content(&md("m/title.md")));
    assert!(!needs_content(&md("m/chapter.md")));
    assert!(needs_content(&other("..")));
}

fn assert_opens_as_epub(bytes: &[u8]) {
    assert!(bytes.len() >= 58);
    assert_eq!(&bytes[0..4], &[0x50u8, 0x4b, 0x03, 0x04][..]);
    assert_eq!(&bytes[8..10], &[0u8, 0][..]);
    assert_eq!(&bytes[26..30], &[8u8, 0, 0, 0][..]);
    assert_eq!(&bytes[30..38], &b"mimetype"[..]);
    assert_eq!(&bytes[38..58], &b"application/epub+zip"[..]);
}

#[test]
fn generated_book_opens_with_mimetype() {
    assert_opens_as_epub(&Book::new().unwrap().generate().unwrap());
    let web = site(&vec![
        file("markdown/cover.png", None),
        file("markdown/a.md", Some("first")),
    ]);
    let resources = vec![bytes("templates/style.css", b"p { margin: 0 }")];
    let contents = vec![bytes("markdown/cover.png", &[0u8; 4096])];
    assert_opens_as_epub(&web.gen_book(&resources, &contents).unwrap());
    let book = web.make_book_internal("A", "T", &resources, &contents).unwrap();
    assert_opens_as_epub(&book.generate().unwrap());
}

fn holds(bytes: &[u8], part: &[u8]) -> bool {
    bytes.windows(part.len()).any(|w| w == part)
}

#[test]
fn generated_book_names_every_file() {
    let web = site(&vec![
        file("markdown/cover.png", None),
        file("markdown/title.md", Some("# T")),
        file("markdown/a.md", Some("first")),
        file("markdown/raw.txt", None),
    ]);
    let resources = vec![bytes("templates/css/style.css", b"p { margin: 0 }")];
    let contents = vec![bytes("markdown/cover.png", b"\x89PNG"), bytes("markdown/raw.txt", b"raw")];
    let epub = web.gen_book(&resources, &contents).unwrap();
    for name in [
        "OEBPS/css/style.css",
        "OEBPS/markdown/cover.png",
        "OEBPS/title.md",
        "OEBPS/a.xhtml",
        "OEBPS/raw.xhtml",
    ] {
        assert!(holds(&epub, name.as_bytes()), "{}", name);
    }
    let empty = Book::new().unwrap().generate().unwrap();
    assert!(!holds(&empty, b"OEBPS/a.xhtml"));
    assert!(!holds(&empty, b"OEBPS/css/style.css"));
}
