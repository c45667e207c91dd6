use webgenr::Web;
use webgenr::document::SiteAction;
use webgenr::error::DocumentError;
use webgenr::error::WebError;
use webgenr::util::DirEntry;
use webgenr::util::DirEntryExt;
use webgenr::web::CopyAction;
use webgenr::template::partial_names;
use webgenr::web::SiteFailure;
use webgenr::web::SourceFile;
use webgenr::web::TemplateSource;
use webgenr::web::copy_files;
use webgenr::web::new_doc_list;

fn template(name: &str, source: &str) -> TemplateSource {
    TemplateSource { name: name.to_string(), source: source.to_string() }
}

fn file(path: &str, text: Option<&str>) -> SourceFile {
    SourceFile { path: path.to_string(), text: text.map(|t| t.to_string()) }
}

fn default_templates() -> Vec<TemplateSource> {
    vec![template("default", "<title>{{title}}</title><body>{{body}}</body>")]
}

#[test]
fn test_new_web() {
    let web = Web::new("markdown", "_website", "templates", &vec![], &vec![]).expect("new web");
    assert_eq!(web.in_path(), "markdown");
    assert_eq!(web.out_path(), "_website");
    assert_eq!(web.template_dir_path(), "templates");
}

#[test]
fn new_web_keeps_walk_order() {
    let files = vec![
        file("markdown/z.md", Some("z")),
        file("markdown/a.png", None),
        file("markdown/sub/m.md", Some("m")),
    ];
    let web = Web::new("markdown", "_website", "templates", &default_templates(), &files).unwrap();
    let paths: Vec<&str> = web.documents().iter().map(|d| d.source_path.as_str()).collect();
    assert_eq!(paths, vec!["markdown/z.md", "markdown/a.png", "markdown/sub/m.md"]);
}

#[test]
fn new_web_template_error() {
    let templates = vec![template("default", "ok"), template("broken", "{{#if x}}never closed")];
    let r = Web::new("markdown", "_website", "templates", &templates, &vec![]);
    match r {
        Err(WebError::Template { name, message }) => {
            assert_eq!(name, "broken");
            assert!(!message.is_empty());
        }
        _ => panic!("template error expected"),
    }
}

#[test]
fn new_web_document_error_names_the_file() {
    let files = vec![file("markdown/ok.md", Some("fine")), file("markdown/bad.md", None)];
    let r = Web::new("markdown", "_website", "templates", &default_templates(), &files);
    assert_eq!(
        r.err(),
        Some(WebError::Document { path: "markdown/bad.md".to_string(), cause: DocumentError::Unread })
    );
}

#[test]
fn hidden_files_never_become_documents() {
    let files = vec![
        file("markdown/.hidden.md", Some("no")),
        file("markdown/seen.md", Some("yes")),
        file("markdown/.git/config", None),
        file("markdown/deep/.secret/page.md", Some("no")),
        file("markdown/deep/shown.txt", None),
        file("elsewhere/page.md", Some("no")),
        file("markdown/not.hidden.md", Some("yes")),
    ];
    let docs = new_doc_list("markdown", &files).unwrap();
    let paths: Vec<&str> = docs.iter().map(|d| d.source_path.as_str()).collect();
    assert_eq!(paths, vec!["markdown/seen.md", "markdown/deep/shown.txt", "markdown/not.hidden.md"]);
}

#[test]
fn hidden_files_never_reach_the_site_or_the_book() {
    let files = vec![
        file("markdown/.draft.md", Some("draft")),
        file("markdown/a.md", Some("a")),
        file("markdown/.cache/b.md", Some("b")),
    ];
    let web = Web::new("markdown", "_website", "templates", &default_templates(), &files).unwrap();
    let actions = web.gen_website().unwrap();
    assert_eq!(actions.len(), 1);
    match &actions[0] {
        SiteAction::Write { to, .. } => assert_eq!(to, "_website/a.html"),
        _ => panic!("page expected"),
    }
    let plan = web.book_plan().unwrap();
    assert_eq!(plan.len(), 1);
}

#[test]
fn hidden_file_that_does_not_parse_is_passed_over() {
    let files = vec![file("markdown/.broken.md", None), file("markdown/a.md", Some("a"))];
    let docs = new_doc_list("markdown", &files).unwrap();
    assert_eq!(docs.len(), 1);
}

#[test]
fn gen_website_needs_files() {
    let web = Web::new("markdown", "_website", "templates", &default_templates(), &vec![]).unwrap();
    assert_eq!(
        web.gen_website().err(),
        Some(SiteFailure { done: vec![], error: WebError::NoFiles })
    );
    assert_eq!(web.source_directory_has_files().err(), Some(WebError::NoFiles));
}

#[test]
fn gen_website_mirrors_the_tree() {
    let files = vec![
        file("markdown/index.md", Some("---\ntitle: Home\n---\nhello")),
        file("markdown/img/logo.png", None),
        file("markdown/sub/page.markdown", Some("*hi*")),
    ];
    let web = Web::new("markdown", "_website", "templates", &default_templates(), &files).unwrap();
    assert_eq!(web.source_directory_has_files(), Ok(3));
    let actions = web.gen_website().unwrap();
    assert_eq!(
        actions,
        vec![
            SiteAction::Write {
                to: "_website/index.html".to_string(),
                html: "<title>Home</title><body><p>hello</p>\n</body>".to_string(),
            },
            SiteAction::Copy {
                from: "markdown/img/logo.png".to_string(),
                to: "_website/img/logo.png".to_string(),
            },
            SiteAction::Write {
                to: "_website/sub/page.html".to_string(),
                html: "<title></title><body><p><em>hi</em></p>\n</body>".to_string(),
            },
        ]
    );
}

#[test]
fn gen_website_twice_gives_the_same() {
    let files = vec![
        file("markdown/index.md", Some("---\ntitle: Home\nz: last\na: first\n---\n[x](y.md)")),
        file("markdown/data.bin", None),
    ];
    let templates = vec![template("default", "{{a}}{{z}}{{title}}{{body}}")];
    let first = Web::new("markdown", "_website", "templates", &templates, &files).unwrap();
    let second = Web::new("markdown", "_website", "templates", &templates, &files).unwrap();
    let once = first.gen_website().unwrap();
    assert_eq!(once, first.gen_website().unwrap());
    assert_eq!(once, second.gen_website().unwrap());
}

#[test]
fn values_are_not_escaped() {
    let files = vec![file("markdown/a.md", Some("---\ntitle: \"<b>&</b>\"\n---\n1 < 2"))];
    let web = Web::new("markdown", "_website", "templates", &default_templates(), &files).unwrap();
    let page = web.documents()[0].gen_html(&web).unwrap();
    assert_eq!(page, "<title><b>&</b></title><body><p>1 &lt; 2</p>\n</body>");
}

#[test]
fn body_in_front_matter_is_overridden() {
    let files = vec![file("markdown/a.md", Some("---\nbody: \"literal\"\ntitle: T\n---\nreal *text*"))];
    let web = Web::new("markdown", "_website", "templates", &default_templates(), &files).unwrap();
    let doc = &web.documents()[0];
    assert!(doc.body_overridden());
    let page = doc.gen_html(&web).unwrap();
    assert_eq!(page, "<title>T</title><body><p>real <em>text</em></p>\n</body>");
    assert!(!page.contains("literal"));
}

#[test]
fn gen_html_needs_the_default_template() {
    let files = vec![file("markdown/a.md", Some("text"))];
    let templates = vec![template("other", "{{body}}")];
    let web = Web::new("markdown", "_website", "templates", &templates, &files).unwrap();
    assert!(matches!(web.documents()[0].gen_html(&web), Err(DocumentError::Render(_))));
    match web.gen_website() {
        Err(SiteFailure { done, error: WebError::Document { path, cause } }) => {
            assert!(done.is_empty());
            assert_eq!(path, "markdown/a.md");
            assert!(matches!(cause, DocumentError::Render(_)));
        }
        _ => panic!("render error expected"),
    }
}

#[test]
fn gen_html_of_other_file_is_refused() {
    let files = vec![file("markdown/a.png", None)];
    let web = Web::new("markdown", "_website", "templates", &default_templates(), &files).unwrap();
    assert_eq!(web.documents()[0].gen_html(&web), Err(DocumentError::NotMarkdown));
}

#[test]
fn later_template_of_one_name_counts() {
    let files = vec![file("markdown/a.md", Some("x"))];
    let templates = vec![template("default", "first {{body}}"), template("default", "second {{body}}")];
    let web = Web::new("markdown", "_website", "templates", &templates, &files).unwrap();
    assert_eq!(web.documents()[0].gen_html(&web).unwrap(), "second <p>x</p>\n");
}

#[test]
fn web_outpath() {
    let files = vec![file("in/a/b.txt", None)];
    let web = Web::new("in", "out", "templates", &default_templates(), &files).unwrap();
    assert_eq!(web.outpath(&web.documents()[0]), Ok("out/a/b.txt".to_string()));
}

fn entry(path: &str, is_dir: bool) -> DirEntry {
    let file_name = path.rsplit('/').next().unwrap().to_string();
    DirEntry { path: path.to_string(), file_name, is_dir }
}

#[test]
fn dir_entry_is_hidden() {
    assert!(entry("a/.git", true).is_hidden());
    assert!(entry(".", true).is_hidden());
    assert!(!entry("a/b.c", false).is_hidden());
    assert!(!entry("a/b.", false).is_hidden());
    let nameless = DirEntry { path: "".to_string(), file_name: "".to_string(), is_dir: false };
    assert!(!nameless.is_hidden());
}

#[test]
fn copy_files_plan() {
    let entries = vec![
        entry("templates", true),
        entry("templates/default.hbs", false),
        entry("templates/style.css", false),
        entry("templates/js", true),
        entry("templates/js/app.js", false),
        entry("templates/.DS_Store", false),
        entry("templates/js/partial.hbs", false),
    ];
    let plan = copy_files("templates", "_website", "hbs", &entries);
    assert_eq!(
        plan,
        vec![
            CopyAction::MakeDir { path: "_website/".to_string() },
            CopyAction::CopyFile {
                from: "templates/style.css".to_string(),
                to: "_website/style.css".to_string(),
            },
            CopyAction::MakeDir { path: "_website/js".to_string() },
            CopyAction::CopyFile {
                from: "templates/js/app.js".to_string(),
                to: "_website/js/app.js".to_string(),
            },
        ]
    );
}

#[test]
fn copy_files_omits_by_exact_extension() {
    let entries = vec![entry("t/a.HBS", false), entry("t/b.hbs", false), entry("t/hbs", false)];
    let plan = copy_files("t", "o", "hbs", &entries);
    assert_eq!(
        plan,
        vec![
            CopyAction::CopyFile { from: "t/a.HBS".to_string(), to: "o/a.HBS".to_string() },
            CopyAction::CopyFile { from: "t/hbs".to_string(), to: "o/hbs".to_string() },
        ]
    );
}

#[test]
fn error_messages() {
    assert_eq!(DocumentError::UnclosedFrontMatter.message(), "front matter is opened and never closed");
    assert_eq!(DocumentError::Yaml("bad".to_string()).message(), "front matter does not parse: bad");
    assert_eq!(DocumentError::Unread.message(), "the text of the markdown file was not read");
    assert_eq!(DocumentError::NoFileName.message(), "unexpected empty file name");
    assert_eq!(DocumentError::OutsideRoot.message(), "the file does not lie under the source directory");
    assert_eq!(DocumentError::Io("disk".to_string()).message(), "the HTML could not be written: disk");
    assert_eq!(DocumentError::Encoding.message(), "the HTML is not valid UTF-8");
    assert_eq!(DocumentError::Render("why".to_string()).message(), "the page could not be rendered: why");
    assert_eq!(DocumentError::NotMarkdown.message(), "only a markdown document has a page");
    assert_eq!(WebError::NoFiles.message(), "please add files to the source directory");
    assert_eq!(
        WebError::Template { name: "default".to_string(), message: "m".to_string() }.message(),
        "template default: m"
    );
    assert_eq!(
        WebError::Document { path: "a.md".to_string(), cause: DocumentError::Unread }.message(),
        "a.md: the text of the markdown file was not read"
    );
    assert_eq!(
        WebError::MissingContent { path: "a.png".to_string() }.message(),
        "a.png: the content of the file is missing"
    );
    assert_eq!(
        WebError::Book { step: "adding cover image".to_string(), message: "m".to_string() }.message(),
        "adding cover image: m"
    );
}

#[test]
fn gen_website_hands_back_what_was_done_before_a_failure() {
    let files = vec![
        file("markdown/img/logo.png", None),
        file("markdown/page.md", Some("text")),
        file("markdown/later.txt", None),
    ];
    let templates = vec![template("other", "{{body}}")];
    let web = Web::new("markdown", "_website", "templates", &templates, &files).unwrap();
    let failure = web.gen_website().err().unwrap();
    assert_eq!(
        failure.done,
        vec![SiteAction::Copy {
            from: "markdown/img/logo.png".to_string(),
            to: "_website/img/logo.png".to_string(),
        }]
    );
    match failure.error {
        WebError::Document { path, cause } => {
            assert_eq!(path, "markdown/page.md");
            assert!(matches!(cause, DocumentError::Render(_)));
        }
        _ => panic!("document error expected"),
    }
}

#[test]
fn partial_names_are_read_off_the_source() {
    let names = |source: &str| partial_names(source);
    let some = |list: &[&str]| Some(list.iter().map(|n| n.to_string()).collect::<Vec<String>>());
    assert_eq!(names(""), some(&[]));
    assert_eq!(names("plain {{title}} > {{body}}"), some(&[]));
    assert_eq!(names("{{#if a}}>{{/if}} {{a > b}} { {> x}} {{"), some(&[]));
    assert_eq!(names("{{> header}}"), some(&["header"]));
    assert_eq!(names("a {{>header}} b {{~> foot/er.x ~}}"), some(&["header", "foot/er.x"]));
    assert_eq!(names("{{#> layout}}x{{/layout}}"), some(&["layout"]));
    assert_eq!(names("{{~#>layout_2 a=b}}x{{/layout_2}}"), some(&["layout_2"]));
    assert_eq!(names("{{\n\t>\r\n h\u{e9}llo-1}}"), some(&["h\u{e9}llo-1"]));
    assert_eq!(names("{{> a}}{{> a}}"), some(&["a", "a"]));
    assert_eq!(names("{{{> header}}}"), some(&["header"]));
    for source in [
        "{{> (lookup . \"x\")}}",
        "{{> @partial-block}}",
        "{{> 'quoted'}}",
        "{{> [bracketed]}}",
        "{{>}}",
        "{{>",
        "{{#*inline \"x\"}}y{{/inline}}",
        "{{*decorator}}",
        "{{~ * x}}",
        "{{> fine}} and {{> }}",
    ] {
        assert_eq!(names(source), None, "{}", source);
    }
}

#[test]
fn a_template_may_call_another() {
    let templates = vec![
        template("default", "<body>{{> header}}{{body}}{{> foot}}</body>"),
        template("foot", "<hr>"),
        template("header", "<h1>{{title}}</h1>{{> foot}}"),
    ];
    let files = vec![file("markdown/a.md", Some("---\ntitle: T\n---\nx"))];
    let web = Web::new("markdown", "_website", "templates", &templates, &files).unwrap();
    assert_eq!(
        web.documents()[0].gen_html(&web).unwrap(),
        "<body><h1>T</h1><hr><p>x</p>\n<hr></body>"
    );
}

#[test]
fn a_call_of_a_template_that_is_not_there_renders_nothing() {
    let templates = vec![template("default", "[{{> missing}}]{{body}}")];
    let files = vec![file("markdown/a.md", Some("x"))];
    let web = Web::new("markdown", "_website", "templates", &templates, &files).unwrap();
    assert_eq!(web.documents()[0].gen_html(&web).unwrap(), "[]<p>x</p>\n");
}

#[test]
fn templates_that_call_one_another_in_a_circle_are_refused() {
    let circle = vec![
        template("default", "<body>{{body}}</body>"),
        template("a", "{{> b}}"),
        template("b", "x {{> c}}"),
        template("c", "{{#> a}}y{{/a}}"),
    ];
    let r = Web::new("markdown", "_website", "templates", &circle, &vec![]);
    assert_eq!(r.err(), Some(WebError::PartialCircle));
    let own = vec![template("default", "{{> default}}")];
    let r = Web::new("markdown", "_website", "templates", &own, &vec![]);
    assert_eq!(r.err(), Some(WebError::PartialCircle));
    let chain = vec![
        template("c", "{{> d}}"),
        template("a", "{{> b}}{{> c}}"),
        template("d", "end"),
        template("b", "{{> c}}{{> d}}"),
    ];
    assert!(Web::new("markdown", "_website", "templates", &chain, &vec![]).is_ok());
    assert_eq!(WebError::PartialCircle.message(), "templates call one another in a circle");
}

#[test]
fn templates_with_calls_that_cannot_be_read_are_refused() {
    let templates = vec![
        template("default", "<body>{{body}}</body>"),
        template("a", "{{> (lookup . \"which\")}}"),
    ];
    let r = Web::new("markdown", "_website", "templates", &templates, &vec![]);
    assert_eq!(r.err(), Some(WebError::Partial { name: "a".to_string() }));
    let inline = vec![template("p", "{{#*inline \"x\"}}{{> x}}{{/inline}}{{> x}}")];
    let r = Web::new("markdown", "_website", "templates", &inline, &vec![]);
    assert_eq!(r.err(), Some(WebError::Partial { name: "p".to_string() }));
    assert_eq!(
        WebError::Partial { name: "a".to_string() }.message(),
        "template a: a partial is called without a written name, or defined"
    );
}

#[test]
fn an_unread_call_is_reported_before_a_later_template_that_does_not_compile() {
    let templates = vec![template("p", "{{> @partial-block}}"), template("broken", "{{#if x}}")];
    let r = Web::new("markdown", "_website", "templates", &templates, &vec![]);
    assert_eq!(r.err(), Some(WebError::Partial { name: "p".to_string() }));
    let templates = vec![template("broken", "{{#if x}}"), template("p", "{{> @partial-block}}")];
    let r = Web::new("markdown", "_website", "templates", &templates, &vec![]);
    assert!(matches!(r, Err(WebError::Template { .. })));
    let templates = vec![template("a", "{{> a}}"), template("broken", "{{#if x}}")];
    let r = Web::new("markdown", "_website", "templates", &templates, &vec![]);
    assert!(matches!(r, Err(WebError::Template { .. })));
}
