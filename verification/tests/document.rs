use webgenr::document::Document;
use webgenr::document::DocumentInfo;
use webgenr::error::DocumentError;
use webgenr::front_matter::Frame;
use webgenr::front_matter::FrontMatter;
use webgenr::front_matter::frame;
use webgenr::markdown::LinkClass;
use webgenr::markdown::MediaType;
use webgenr::markdown::audio_html_of;
use webgenr::markdown::classify_link;
use webgenr::markdown::html_target_of;

const HELLO_MD: &str = "hello world...";
const HELLO_HTML: &str = "<p>hello world...</p>\n";

const EMPTY_BUF: &[u8] = b"";

fn html(md: &str) -> String {
    let markdown: String = md.to_string();
    let output = Document::write_html(&markdown).unwrap();
    String::from_utf8(output).unwrap()
}

#[test]
fn test_write_html_empty() {
    let markdown = "".to_string();
    let output = Document::write_html(&markdown).unwrap();
    assert_eq!(&output, EMPTY_BUF);
}

#[test]
fn test_write_html_simple_string() {
    let markdown: String = HELLO_MD.to_string();
    let output = Document::write_html(&markdown).unwrap();
    let output_str = std::str::from_utf8(&output).unwrap();
    assert_eq!(output_str, HELLO_HTML);
}

#[test]
fn test_write_html_cmark_basics() {
    // basic text
    assert_eq!(html("hello"), "<p>hello</p>\n");
    // unordered list
    assert_eq!(html("* one\n* two"), "<ul>\n<li>one</li>\n<li>two</li>\n</ul>\n");
    // simple link
    assert_eq!(
        html("link: [thing](https://example.com/thing)"),
        "<p>link: <a href=\"https://example.com/thing\">thing</a></p>\n"
    );
    // link with mis-matched quote in title
    assert_eq!(
        html(r#"link: ["thing](https://example.com/thing)"#),
        "<p>link: <a href=\"https://example.com/thing\">&quot;thing</a></p>\n"
    );
}

#[test]
fn test_write_html_link_to_markdown() {
    assert_eq!(
        html("link: [thing](https://example.com/thing.md)"),
        "<p>link: <a href=\"https://example.com/thing.html\">thing</a></p>\n"
    );
}

#[test]
fn write_html_strikethrough_is_on() {
    assert_eq!(html("~~gone~~"), "<p><del>gone</del></p>\n");
}

#[test]
fn write_html_link_to_markdown_keeps_title() {
    assert_eq!(
        html("[text](foo.md \"a title\")"),
        "<p><a href=\"foo.html\" title=\"a title\">text</a></p>\n"
    );
}

#[test]
fn write_html_link_with_long_markdown_extension() {
    assert_eq!(html("[text](notes.markdown)"), "<p><a href=\"notes.html\">text</a></p>\n");
}

#[test]
fn write_html_link_to_other_file_is_unchanged() {
    assert_eq!(html("[pic](a.png)"), "<p><a href=\"a.png\">pic</a></p>\n");
    assert_eq!(html("[page](a.html)"), "<p><a href=\"a.html\">page</a></p>\n");
}

#[test]
fn write_html_link_without_known_type_is_unchanged() {
    assert_eq!(html("[plain](somewhere)"), "<p><a href=\"somewhere\">plain</a></p>\n");
    assert_eq!(html("[odd](file.zzzunknown)"), "<p><a href=\"file.zzzunknown\">odd</a></p>\n");
}

#[test]
fn write_html_audio_link_becomes_player() {
    assert_eq!(
        html("[song](a.mp3)"),
        "<p><audio controls><source src=\"a.mp3\" type=\"audio/mpeg\">Your browser does not support the audio element. <a href=\"a.mp3\" title=\"\" class=\"audio\"><span class=\"fa-solid fa-play\">song</span></a></audio></p>\n"
    );
}

#[test]
fn write_html_audio_link_with_title_and_upper_case_extension() {
    assert_eq!(
        html("before [clip](sound/clip.WAV \"listen\") after"),
        "<p>before <audio controls><source src=\"sound/clip.WAV\" type=\"audio/wav\">Your browser does not support the audio element. <a href=\"sound/clip.WAV\" title=\"listen\" class=\"audio\"><span class=\"fa-solid fa-play\">clip</span></a></audio> after</p>\n"
    );
}

#[test]
fn write_html_audio_link_without_text_gets_placeholder() {
    assert_eq!(
        html("[](a.ogg)"),
        "<p><audio controls><source src=\"a.ogg\" type=\"audio/ogg\">Your browser does not support the audio element. <a href=\"a.ogg\" title=\"\" class=\"audio\"><span class=\"fa-solid fa-play\">#</span></a></audio></p>\n"
    );
}

#[test]
fn write_html_audio_link_with_markup_inside() {
    // no text comes first: the caption is the placeholder, what stands inside the
    // link stays, and the closing event of the link is dropped
    assert_eq!(
        html("[**bold**](a.mp3)"),
        "<p><audio controls><source src=\"a.mp3\" type=\"audio/mpeg\">Your browser does not support the audio element. <a href=\"a.mp3\" title=\"\" class=\"audio\"><span class=\"fa-solid fa-play\">#</span></a></audio><strong>bold</strong></p>\n"
    );
    // a text comes first: it is the caption; what follows it inside the link stays
    assert_eq!(
        html("[a *b*](x.mp3)"),
        "<p><audio controls><source src=\"x.mp3\" type=\"audio/mpeg\">Your browser does not support the audio element. <a href=\"x.mp3\" title=\"\" class=\"audio\"><span class=\"fa-solid fa-play\">a </span></a></audio><em>b</em></p>\n"
    );
}

#[test]
fn write_html_links_after_an_audio_link_keep_their_closing_event() {
    assert_eq!(
        html("[one](a.mp3) and [two](b.png) and [three](c.md)"),
        "<p><audio controls><source src=\"a.mp3\" type=\"audio/mpeg\">Your browser does not support the audio element. <a href=\"a.mp3\" title=\"\" class=\"audio\"><span class=\"fa-solid fa-play\">one</span></a></audio> and <a href=\"b.png\">two</a> and <a href=\"c.html\">three</a></p>\n"
    );
    assert_eq!(
        html("[two](b.png)[one](a.wav)"),
        "<p><a href=\"b.png\">two</a><audio controls><source src=\"a.wav\" type=\"audio/wav\">Your browser does not support the audio element. <a href=\"a.wav\" title=\"\" class=\"audio\"><span class=\"fa-solid fa-play\">one</span></a></audio></p>\n"
    );
}

#[test]
fn write_html_image_is_not_a_link() {
    assert_eq!(html("![alt](foo.md)"), "<p><img src=\"foo.md\" alt=\"alt\" /></p>\n");
}

#[test]
fn write_html_reference_link_to_markdown() {
    assert_eq!(
        html("[x][ref]\n\n[ref]: other.md \"T\""),
        "<p><a href=\"other.html\" title=\"T\">x</a></p>\n"
    );
}

#[test]
fn html_target_replaces_last_extension_only() {
    assert_eq!(html_target_of("foo.md"), "foo.html");
    assert_eq!(html_target_of("a.b/foo.MD"), "a.b/foo.html");
    assert_eq!(html_target_of("foo.md.md"), "foo.md.html");
    assert_eq!(html_target_of("nodot"), "nodot.html");
    assert_eq!(html_target_of(""), ".html");
    assert_eq!(html_target_of("."), ".html");
}

#[test]
fn audio_html_exact() {
    assert_eq!(
        audio_html_of("u", "t", "audio/x", "c"),
        "<audio controls><source src=\"u\" type=\"audio/x\">Your browser does not support the audio element. <a href=\"u\" title=\"t\" class=\"audio\"><span class=\"fa-solid fa-play\">c</span></a></audio>"
    );
}

fn media(kind: &str, subtype: &str) -> Option<MediaType> {
    Some(MediaType {
        kind: kind.to_string(),
        subtype: subtype.to_string(),
        text: format!("{}/{}", kind, subtype),
    })
}

#[test]
fn classify_link_by_media_type() {
    assert_eq!(classify_link(&None), LinkClass::Plain);
    assert_eq!(classify_link(&media("text", "markdown")), LinkClass::Markdown);
    assert_eq!(classify_link(&media("text", "x-markdown")), LinkClass::Plain);
    assert_eq!(classify_link(&media("text", "plain")), LinkClass::Plain);
    assert_eq!(classify_link(&media("audio", "mpeg")), LinkClass::Audio);
    assert_eq!(classify_link(&media("audio", "markdown")), LinkClass::Audio);
    assert_eq!(classify_link(&media("video", "mp4")), LinkClass::Plain);
}

#[test]
fn frame_without_opening_delimiter() {
    assert_eq!(frame(""), Frame::Absent);
    assert_eq!(frame("hello\n---\nx: y\n---\n"), Frame::Absent);
    assert_eq!(frame("--- \ntitle: x\n---\n"), Frame::Absent);
    assert_eq!(frame("----\ntitle: x\n----\n"), Frame::Absent);
    assert_eq!(frame("---"), Frame::Absent);
}

#[test]
fn frame_block_with_line_feeds() {
    assert_eq!(
        frame("---\ntitle: \"My Website\"\n---\nhello\n"),
        Frame::Block { yaml: "title: \"My Website\"\n".to_string(), body: "hello\n".to_string() }
    );
}

#[test]
fn frame_block_with_carriage_returns() {
    assert_eq!(
        frame("---\r\ntitle: x\r\n---\r\nbody"),
        Frame::Block { yaml: "title: x\r\n".to_string(), body: "body".to_string() }
    );
}

#[test]
fn frame_closes_at_first_later_delimiter() {
    assert_eq!(
        frame("---\na: b\n---\nmid\n---\nend"),
        Frame::Block { yaml: "a: b\n".to_string(), body: "mid\n---\nend".to_string() }
    );
    assert_eq!(
        frame("---\n---\n"),
        Frame::Block { yaml: "".to_string(), body: "".to_string() }
    );
}

#[test]
fn frame_with_mixed_delimiters_is_unclosed() {
    assert_eq!(frame("---\ntitle: x\r\n---\r\nbody"), Frame::Unclosed);
    assert_eq!(frame("---\ntitle: x\n"), Frame::Unclosed);
    assert_eq!(frame("---\n"), Frame::Unclosed);
}

#[test]
fn frame_counts_characters_not_bytes() {
    assert_eq!(
        frame("---\nname: \"Zoë – ünï\"\n---\nçà et là"),
        Frame::Block { yaml: "name: \"Zoë – ünï\"\n".to_string(), body: "çà et là".to_string() }
    );
}

#[test]
fn split_without_front_matter_leaves_text() {
    let mut input = "just text\n---\n".to_string();
    let r = FrontMatter::split_yml_from_string(&mut input).unwrap();
    assert!(r.is_none());
    assert_eq!(input, "just text\n---\n");
}

#[test]
fn split_parses_pairs_and_removes_block() {
    let mut input = "---\ntitle: \"My Website\"\nauthor: \"Someone\"\n---\n# Heading\n".to_string();
    let fm = FrontMatter::split_yml_from_string(&mut input).unwrap().unwrap();
    assert_eq!(input, "# Heading\n");
    assert_eq!(fm.get("title"), Some("My Website".to_string()));
    assert_eq!(fm.get("author"), Some("Someone".to_string()));
    assert_eq!(fm.get("body"), None);
    assert!(fm.contains_key("title"));
    assert!(!fm.contains_key("Title"));
}

#[test]
fn split_unclosed_block_is_an_error() {
    let mut input = "---\ntitle: x\n".to_string();
    let r = FrontMatter::split_yml_from_string(&mut input);
    assert_eq!(r.err(), Some(DocumentError::UnclosedFrontMatter));
    assert_eq!(input, "---\ntitle: x\n");
}

#[test]
fn split_malformed_yaml_is_an_error() {
    let mut input = "---\ntitle: [unclosed\n---\nbody".to_string();
    let r = FrontMatter::split_yml_from_string(&mut input);
    assert!(matches!(r, Err(DocumentError::Yaml(_))));
    assert_eq!(input, "body");
}

#[test]
fn split_value_that_is_no_string_is_an_error() {
    let mut input = "---\ntags:\n  - a\n  - b\n---\nbody".to_string();
    let r = FrontMatter::split_yml_from_string(&mut input);
    assert!(matches!(r, Err(DocumentError::Yaml(_))));
}

#[test]
fn front_matter_insert_replaces() {
    let mut fm = FrontMatter::new();
    assert_eq!(fm.get("k"), None);
    fm.insert("k", "one");
    fm.insert("other", "x");
    fm.insert("k", "two");
    assert_eq!(fm.get("k"), Some("two".to_string()));
    assert_eq!(fm.get("other"), Some("x".to_string()));
    let copy = fm.copy();
    assert_eq!(copy.get("k"), Some("two".to_string()));
}

#[test]
fn new_document_markdown_with_front_matter() {
    let doc = Document::new("src/page.md", Some("---\ntitle: T\n---\ntext".to_string())).unwrap();
    assert_eq!(doc.source_path, "src/page.md");
    assert!(doc.is_markdown());
    match &doc.info {
        DocumentInfo::Markdown { front_matter, text } => {
            assert_eq!(text, "text");
            assert_eq!(front_matter.as_ref().unwrap().get("title"), Some("T".to_string()));
        }
        DocumentInfo::Other => panic!("markdown expected"),
    }
}

#[test]
fn new_document_markdown_without_front_matter() {
    let doc = Document::new("page.markdown", Some("text".to_string())).unwrap();
    match &doc.info {
        DocumentInfo::Markdown { front_matter, text } => {
            assert_eq!(text, "text");
            assert!(front_matter.is_none());
        }
        DocumentInfo::Other => panic!("markdown expected"),
    }
    assert!(!doc.body_overridden());
}

#[test]
fn new_document_other() {
    let doc = Document::new("img/cover.png", None).unwrap();
    assert!(!doc.is_markdown());
    assert!(matches!(doc.info, DocumentInfo::Other));
    // the extension decides, letter for letter
    let upper = Document::new("page.MD", Some("---\nnever closed".to_string())).unwrap();
    assert!(!upper.is_markdown());
}

#[test]
fn new_document_errors() {
    assert_eq!(Document::new("a.md", None).err(), Some(DocumentError::Unread));
    assert_eq!(
        Document::new("a.md", Some("---\nx: y\n".to_string())).err(),
        Some(DocumentError::UnclosedFrontMatter)
    );
    assert!(matches!(
        Document::new("a.md", Some("---\n- x\n---\n".to_string())),
        Err(DocumentError::Yaml(_))
    ));
}

#[test]
fn document_file_stem() {
    let doc = Document::new("dir/chapter.one.md", Some("".to_string())).unwrap();
    assert_eq!(doc.file_stem(), Ok("chapter.one".to_string()));
    let none = Document::new("..", None).unwrap();
    assert_eq!(none.file_stem(), Err(DocumentError::NoFileName));
}

#[test]
fn document_outpath() {
    let doc = Document::new("markdown/sub/page.md", Some("".to_string())).unwrap();
    assert_eq!(doc.outpath("markdown", "_website"), Ok("_website/sub/page.md".to_string()));
    assert_eq!(doc.outpath("elsewhere", "_website"), Err(DocumentError::OutsideRoot));
}
