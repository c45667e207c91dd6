//! Markdown to HTML. The text is parsed into events by pulldown-cmark, the
//! link events are rewritten by the rules of this module, and the resulting
//! events are written out as HTML by pulldown-cmark again.

use crate::error::DocumentError;
use crate::text::chars_of;
use pulldown_cmark::Event;
use pulldown_cmark::LinkType;
use pulldown_cmark::Options;
use pulldown_cmark::Parser;
use pulldown_cmark::Tag;
use vstd::prelude::*;
use vstd::string::*;

verus! {

/// pulldown-cmark's event, carried through unread.
#[verifier::external_type_specification]
#[verifier::external_body]
pub struct ExEvent<'a>(Event<'a>);

/// pulldown-cmark's parser, an iterator over events.
#[verifier::external_type_specification]
#[verifier::external_body]
pub struct ExParser<'a, 'b>(Parser<'a, 'b>);

/// pulldown-cmark's kind of link, carried through unread.
#[verifier::external_type_specification]
#[verifier::external_body]
pub struct ExLinkType(LinkType);

/// The error of `std::io`.
#[verifier::external_type_specification]
#[verifier::external_body]
pub struct ExIoError(std::io::Error);

/// A media type as guessed from a file extension.
#[derive(Debug, PartialEq, Eq)]
pub struct MediaType {
    /// The top-level type, such as `audio`.
    pub kind: String,
    /// The subtype, such as `mpeg`.
    pub subtype: String,
    /// The media type written out, such as `audio/mpeg`.
    pub text: String,
}

/// The model of a `MediaType`.
pub struct MediaTypeView {
    pub kind: Seq<char>,
    pub subtype: Seq<char>,
    pub text: Seq<char>,
}

impl View for MediaType {
    type V = MediaTypeView;

    open spec fn view(&self) -> MediaTypeView {
        MediaTypeView { kind: self.kind@, subtype: self.subtype@, text: self.text@ }
    }
}

/// A parser event, with the parts that the rewriting reads laid open.
pub enum MdEvent<'a> {
    /// The start of a link.
    LinkStart { link_type: LinkType, url: String, title: String },
    /// The end of a link: the parser's own event, carried through unread.
    LinkEnd(Event<'a>),
    /// A run of text.
    Text(String),
    /// A piece of HTML, written out as it is.
    Html(String),
    /// Any other event.
    Other(Event<'a>),
}

/// The model of an `MdEvent`.
pub enum MdEventView<'a> {
    LinkStart { link_type: LinkType, url: Seq<char>, title: Seq<char> },
    LinkEnd(Event<'a>),
    Text(Seq<char>),
    Html(Seq<char>),
    Other(Event<'a>),
}

impl<'a> View for MdEvent<'a> {
    type V = MdEventView<'a>;

    open spec fn view(&self) -> MdEventView<'a> {
        match self {
            MdEvent::LinkStart { link_type, url, title } => MdEventView::LinkStart {
                link_type: *link_type,
                url: url@,
                title: title@,
            },
            MdEvent::LinkEnd(e) => MdEventView::LinkEnd(*e),
            MdEvent::Text(t) => MdEventView::Text(t@),
            MdEvent::Html(h) => MdEventView::Html(h@),
            MdEvent::Other(e) => MdEventView::Other(*e),
        }
    }
}

/// The models of a list of events.
pub open spec fn views<'a>(events: Seq<MdEvent<'a>>) -> Seq<MdEventView<'a>> {
    events.map_values(|e: MdEvent<'a>| e@)
}

/// The media type that `mime_guess::from_path` puts first for the path
/// written as `path`, or `None` where it has no guess.
pub uninterp spec fn guessed_mime(path: Seq<char>) -> Option<MediaTypeView>;

/// The events that pulldown-cmark parses `text` into, with the
/// strikethrough extension switched as `strikethrough` says and no other
/// extension.
pub uninterp spec fn parsed_events(text: Seq<char>, strikethrough: bool) -> Seq<MdEventView<'static>>;

/// The events of a markdown text: CommonMark, with strikethrough.
pub open spec fn markdown_events(text: Seq<char>) -> Seq<MdEventView<'static>> {
    parsed_events(text, true)
}

/// The events that a parser has not handed out yet.
pub uninterp spec fn parser_rest(parser: Parser<'_, '_>) -> Seq<MdEventView<'static>>;

/// The HTML that `pulldown_cmark::html::write_html` writes for a list of events.
pub uninterp spec fn html_of(events: Seq<MdEventView<'static>>) -> Seq<u8>;

/// Calls `mime_guess::from_path` and takes the first guess, which goes by the
/// path's extension alone. Of the `Mime` it copies the type, the subtype and
/// the whole text. The contract only names the result.
#[verifier::external_body]
pub(crate) fn guess_mime(path: &str) -> (r: Option<MediaType>)
    ensures
        r matches Some(m) ==> guessed_mime(path@) == Some(m@),
        r is None ==> guessed_mime(path@) is None,
{
    mime_guess::from_path(path).first().map(|m| MediaType {
        kind: m.type_().as_str().to_string(),
        subtype: m.subtype().as_str().to_string(),
        text: m.to_string(),
    })
}

/// Calls `pulldown_cmark::Parser::new_ext` with options that hold the
/// strikethrough extension or nothing. The contract names the events that
/// the parser will hand out.
#[verifier::external_body]
fn new_parser<'a>(text: &'a str, strikethrough: bool) -> (parser: Parser<'a, 'a>)
    ensures
        parser_rest(parser) == parsed_events(text@, strikethrough),
{
    let mut options = Options::empty();
    options.set(Options::ENABLE_STRIKETHROUGH, strikethrough);
    Parser::new_ext(text, options)
}

/// Calls the parser's `next`: it hands out the first of the events that are
/// left and keeps the others, or hands out nothing when none is left. A link
/// start, a text and a piece of HTML are laid open, the end of a link is
/// marked as such, and any other event is passed on as it is.
#[verifier::external_body]
fn next_event<'a>(parser: &mut Parser<'a, 'a>) -> (r: Option<MdEvent<'a>>)
    ensures
        parser_rest(*old(parser)).len() == 0 ==> r is None && parser_rest(*final(parser))
            == parser_rest(*old(parser)),
        parser_rest(*old(parser)).len() > 0 ==> r is Some && r->0@ == parser_rest(*old(parser))[0]
            && parser_rest(*final(parser)) == parser_rest(*old(parser)).skip(1),
{
    match parser.next() {
        Some(Event::Start(Tag::Link(link_type, url, title))) => Some(
            MdEvent::LinkStart { link_type, url: url.to_string(), title: title.to_string() },
        ),
        Some(Event::End(Tag::Link(a, b, c))) => Some(MdEvent::LinkEnd(Event::End(Tag::Link(a, b, c)))),
        Some(Event::Text(text)) => Some(MdEvent::Text(text.to_string())),
        Some(Event::Html(html)) => Some(MdEvent::Html(html.to_string())),
        Some(event) => Some(MdEvent::Other(event)),
        None => None,
    }
}

/// Calls `pulldown_cmark::html::write_html` on the events, each turned back
/// into pulldown-cmark's own, with a vector of bytes to write into. The call
/// fails only where the writer that it is handed fails, and a vector of
/// bytes takes whatever is written to it: so the call succeeds, and the
/// contract names the bytes written.
#[verifier::external_body]
fn render_html<'a>(events: Vec<MdEvent<'a>>) -> (r: Result<Vec<u8>, std::io::Error>)
    ensures
        r is Ok,
        r matches Ok(bytes) ==> bytes@ == html_of(views(events@)),
{
    let mut out: Vec<u8> = Vec::new();
    let events = events.into_iter().map(|event| match event {
        MdEvent::LinkStart { link_type, url, title } => Event::Start(Tag::Link(link_type, url.into(), title.into())),
        MdEvent::Text(text) => Event::Text(text.into()),
        MdEvent::Html(html) => Event::Html(html.into()),
        MdEvent::LinkEnd(event) => event,
        MdEvent::Other(event) => event,
    });
    match pulldown_cmark::html::write_html(&mut out, events) {
        Ok(()) => Ok(out),
        Err(e) => Err(e),
    }
}

/// The message of a `std::io::Error`, as its `Display` writes it.
#[verifier::external_body]
fn io_error_text(e: &std::io::Error) -> (r: String) {
    e.to_string()
}

/// What a link's target is taken to be.
#[derive(PartialEq, Eq, Structural, Clone, Copy, Debug)]
pub enum LinkClass {
    /// A markdown document.
    Markdown,
    /// An audio file.
    Audio,
    /// Anything else, a target without a known media type included.
    Plain,
}

/// The class of a link by the media type guessed for its target.
pub open spec fn link_class(mime: Option<MediaTypeView>) -> LinkClass {
    match mime {
        None => LinkClass::Plain,
        Some(m) => if m.kind == "text"@ && m.subtype == "markdown"@ {
            LinkClass::Markdown
        } else if m.kind == "audio"@ {
            LinkClass::Audio
        } else {
            LinkClass::Plain
        },
    }
}

/// The class of a link by the media type guessed for its target.
pub fn classify_link(mime: &Option<MediaType>) -> (r: LinkClass)
    ensures
        r == link_class(
            match mime {
                Some(m) => Some(m@),
                None => None,
            },
        ),
{
    match mime {
        None => LinkClass::Plain,
        Some(m) => {
            if crate::text::str_eq(m.kind.as_str(), "text") && crate::text::str_eq(
                m.subtype.as_str(),
                "markdown",
            ) {
                LinkClass::Markdown
            } else if crate::text::str_eq(m.kind.as_str(), "audio") {
                LinkClass::Audio
            } else {
                LinkClass::Plain
            }
        },
    }
}

/// The index of the last dot in `url`, if it holds one.
pub open spec fn last_dot(url: Seq<char>) -> Option<int>
    decreases url.len(),
{
    if url.len() == 0 {
        None
    } else if url.last() == '.' {
        Some(url.len() - 1)
    } else {
        last_dot(url.drop_last())
    }
}

/// The target of a link to a markdown document once that document has become
/// a page: the URL with its trailing extension, from the last dot on,
/// replaced by `.html`.
pub open spec fn html_target(url: Seq<char>) -> Seq<char> {
    match last_dot(url) {
        Some(i) => url.subrange(0, i) + ".html"@,
        None => url + ".html"@,
    }
}

/// A text without a dot has no last dot.
proof fn lemma_last_dot_none(url: Seq<char>)
    requires
        forall|j: int| 0 <= j < url.len() ==> url[j] != '.',
    ensures
        last_dot(url) is None,
    decreases url.len(),
{
    if url.len() > 0 {
        lemma_last_dot_none(url.drop_last());
    }
}

/// A dot that no dot follows is the last dot.
proof fn lemma_last_dot_is(url: Seq<char>, i: int)
    requires
        0 <= i < url.len(),
        url[i] == '.',
        forall|j: int| i < j < url.len() ==> url[j] != '.',
    ensures
        last_dot(url) == Some(i),
    decreases url.len(),
{
    if i < url.len() - 1 {
        lemma_last_dot_is(url.drop_last(), i);
    }
}

/// A URL that ends in a dot and an extension is pointed at the same name
/// with the extension `html`: `foo.md` becomes `foo.html`.
pub proof fn lemma_html_target_of_extension(stem: Seq<char>, ext: Seq<char>)
    requires
        forall|i: int| 0 <= i < ext.len() ==> ext[i] != '.',
    ensures
        html_target(stem + "."@ + ext) == stem + ".html"@,
{
    reveal_strlit(".");
    let url = stem + "."@ + ext;
    let dot = stem.len() as int;
    assert(url[dot] == '.');
    lemma_last_dot_is(url, dot);
    assert(url.subrange(0, dot) =~= stem);
}

/// The target of a link to a markdown document once that document has become
/// a page.
pub fn html_target_of(url: &str) -> (r: String)
    ensures
        r@ == html_target(url@),
{
    let chars = chars_of(url);
    let mut i: usize = chars.len();
    while i > 0 && chars[i - 1] != '.'
        invariant
            i <= chars.len(),
            chars@ == url@,
            forall|j: int| i <= j < chars.len() ==> chars@[j] != '.',
        decreases i,
    {
        i -= 1;
    }
    if i > 0 {
        proof {
            lemma_last_dot_is(url@, i - 1);
        }
        let mut s = url.substring_char(0, i - 1).to_owned();
        s.append(".html");
        s
    } else {
        proof {
            lemma_last_dot_none(url@);
        }
        let mut s = url.to_owned();
        s.append(".html");
        s
    }
}

/// The anchor that stands in for the player where audio is not supported.
pub open spec fn audio_link(url: Seq<char>, title: Seq<char>, caption: Seq<char>) -> Seq<char> {
    "<a href=\""@ + url + "\" title=\""@ + title
        + "\" class=\"audio\"><span class=\"fa-solid fa-play\">"@ + caption + "</span></a>"@
}

/// The HTML that takes the place of a link to an audio file: a player for
/// the file at `url`, of media type `mime`, around the fallback anchor.
pub open spec fn audio_html(
    url: Seq<char>,
    title: Seq<char>,
    mime: Seq<char>,
    caption: Seq<char>,
) -> Seq<char> {
    "<audio controls><source src=\""@ + url + "\" type=\""@ + mime
        + "\">Your browser does not support the audio element. "@ + audio_link(url, title, caption)
        + "</audio>"@
}

/// The HTML that takes the place of a link to an audio file is an `audio`
/// element whose source is the URL of the link.
pub proof fn lemma_audio_html_refers_to_url(
    url: Seq<char>,
    title: Seq<char>,
    mime: Seq<char>,
    caption: Seq<char>,
)
    ensures
        crate::text::occurs_at(
            audio_html(url, title, mime, caption),
            "<audio controls><source src=\""@ + url + "\" type=\""@ + mime + "\">"@,
            0,
        ),
{
    reveal_strlit("\">Your browser does not support the audio element. ");
    reveal_strlit("\">");
    let head = "<audio controls><source src=\""@ + url + "\" type=\""@ + mime;
    let open = head + "\">"@;
    let whole = audio_html(url, title, mime, caption);
    assert(whole.subrange(0, open.len() as int) =~= open);
}

/// The HTML that takes the place of a link to an audio file.
pub fn audio_html_of(url: &str, title: &str, mime: &str, caption: &str) -> (r: String)
    ensures
        r@ == audio_html(url@, title@, mime@, caption@),
{
    let mut link = "<a href=\"".to_owned();
    link.append(url);
    link.append("\" title=\"");
    link.append(title);
    link.append("\" class=\"audio\"><span class=\"fa-solid fa-play\">");
    link.append(caption);
    link.append("</span></a>");
    let mut s = "<audio controls><source src=\"".to_owned();
    s.append(url);
    s.append("\" type=\"");
    s.append(mime);
    s.append("\">Your browser does not support the audio element. ");
    s.append(link.as_str());
    s.append("</audio>");
    s
}

/// The caption of an audio link, read off the events that follow its start:
/// the text where a text comes first, `#` where another event does, and
/// nothing where the events end.
pub open spec fn audio_caption(rest: Seq<MdEventView>) -> Seq<char> {
    if rest.len() == 0 {
        ""@
    } else {
        match rest[0] {
            MdEventView::Text(t) => t,
            _ => "#"@,
        }
    }
}

/// How many of the events that follow the start of an audio link are its
/// caption: the text that comes first, if a text does.
pub open spec fn caption_span(rest: Seq<MdEventView>) -> int {
    if rest.len() > 0 && rest[0] is Text {
        1
    } else {
        0
    }
}

/// The events after the link rules have been applied, where `closing` says
/// that an audio link is open, whose closing event is still to come.
///
/// A link to a markdown document is pointed at the page made from that
/// document. A link to an audio file becomes a piece of HTML that plays it:
/// the text that follows its start is its caption and goes into that HTML,
/// and the event that closes the link is dropped. Every other event stays as
/// it is.
pub open spec fn rewritten_from(events: Seq<MdEventView>, closing: bool) -> Seq<MdEventView>
    decreases events.len(),
{
    if events.len() == 0 {
        Seq::empty()
    } else {
        let rest = events.skip(1);
        match events[0] {
            MdEventView::LinkStart { link_type, url, title } => match link_class(
                guessed_mime(url),
            ) {
                LinkClass::Markdown => seq![
                    MdEventView::LinkStart { link_type, url: html_target(url), title },
                ] + rewritten_from(rest, closing),
                LinkClass::Audio => seq![
                    MdEventView::Html(
                        audio_html(url, title, guessed_mime(url)->0.text, audio_caption(rest)),
                    ),
                ] + rewritten_from(rest.skip(caption_span(rest)), true),
                LinkClass::Plain => seq![events[0]] + rewritten_from(rest, closing),
            },
            MdEventView::LinkEnd(_) => if closing {
                rewritten_from(rest, false)
            } else {
                seq![events[0]] + rewritten_from(rest, false)
            },
            _ => seq![events[0]] + rewritten_from(rest, closing),
        }
    }
}

/// The events after the link rules have been applied.
pub open spec fn rewritten(events: Seq<MdEventView>) -> Seq<MdEventView> {
    rewritten_from(events, false)
}

/// An event is untouched by the link rules: it is no start of a link to a
/// markdown document or to an audio file.
pub open spec fn is_plain(event: MdEventView) -> bool {
    match event {
        MdEventView::LinkStart { link_type, url, title } => link_class(guessed_mime(url))
            == LinkClass::Plain,
        _ => true,
    }
}

/// Where no link points at a markdown document or at an audio file, the link
/// rules change nothing.
pub proof fn lemma_rewritten_plain(events: Seq<MdEventView>)
    requires
        forall|i: int| 0 <= i < events.len() ==> is_plain(#[trigger] events[i]),
    ensures
        rewritten(events) == events,
    decreases events.len(),
{
    if events.len() > 0 {
        let rest = events.skip(1);
        assert forall|i: int| 0 <= i < rest.len() implies is_plain(#[trigger] rest[i]) by {
            assert(rest[i] == events[i + 1]);
        }
        lemma_rewritten_plain(rest);
        assert(seq![events[0]] + rest =~= events);
    } else {
        assert(events =~= Seq::empty());
    }
}

/// The link rules come to every event that is no text, whatever stands
/// before it: the events from it on are rewritten by themselves, behind what
/// the events before it have become. Handed back are what those have become,
/// and whether an audio link is open where they end.
pub proof fn lemma_rewritten_reaches<'a>(
    before: Seq<MdEventView<'a>>,
    rest: Seq<MdEventView<'a>>,
    closing: bool,
) -> (r: (Seq<MdEventView<'a>>, bool))
    requires
        rest.len() > 0,
        !(rest[0] is Text),
    ensures
        rewritten_from(before + rest, closing) == r.0 + rewritten_from(rest, r.1),
    decreases before.len(),
{
    let all = before + rest;
    if before.len() == 0 {
        assert(all =~= rest);
        assert(Seq::<MdEventView>::empty() + rewritten_from(rest, closing) =~= rewritten_from(
            rest,
            closing,
        ));
        (Seq::empty(), closing)
    } else {
        let tail = before.skip(1);
        assert(all[0] == before[0]);
        assert(all.skip(1) =~= tail + rest);
        let audio = before[0] matches MdEventView::LinkStart { link_type, url, title }
            && link_class(guessed_mime(url)) == LinkClass::Audio;
        if audio {
            let n = caption_span(tail + rest);
            if tail.len() > 0 {
                assert((tail + rest)[0] == tail[0]);
            } else {
                assert((tail + rest)[0] == rest[0]);
            }
            assert((tail + rest).skip(n) =~= tail.skip(n) + rest);
            let (behind, open) = lemma_rewritten_reaches(tail.skip(n), rest, true);
            let head = rewritten_from(all, closing).subrange(0, 1);
            assert(rewritten_from(all, closing) =~= head + rewritten_from(
                tail.skip(n) + rest,
                true,
            ));
            assert(head + (behind + rewritten_from(rest, open)) =~= (head + behind)
                + rewritten_from(rest, open));
            (head + behind, open)
        } else if before[0] is LinkEnd {
            let (behind, open) = lemma_rewritten_reaches(tail, rest, false);
            if closing {
                (behind, open)
            } else {
                let head = seq![before[0]];
                assert(rewritten_from(all, closing) =~= head + rewritten_from(tail + rest, false));
                assert(head + (behind + rewritten_from(rest, open)) =~= (head + behind)
                    + rewritten_from(rest, open));
                (head + behind, open)
            }
        } else {
            let (behind, open) = lemma_rewritten_reaches(tail, rest, closing);
            let head = rewritten_from(all, closing).subrange(0, 1);
            assert(rewritten_from(all, closing) =~= head + rewritten_from(tail + rest, closing));
            assert(head + (behind + rewritten_from(rest, open)) =~= (head + behind)
                + rewritten_from(rest, open));
            (head + behind, open)
        }
    }
}

/// Wherever a link to an audio file stands, it becomes the player for its
/// URL, of the media type guessed for it and with its caption: the events
/// come out as what the events before the link have become, then the player,
/// then the events behind the caption, rewritten with the audio link open.
pub proof fn lemma_audio_link_anywhere<'a>(
    before: Seq<MdEventView<'a>>,
    link_type: LinkType,
    url: Seq<char>,
    title: Seq<char>,
    rest: Seq<MdEventView<'a>>,
) -> (prefix: Seq<MdEventView<'a>>)
    requires
        link_class(guessed_mime(url)) == LinkClass::Audio,
    ensures
        rewritten(before + seq![MdEventView::LinkStart { link_type, url, title }] + rest)
            == prefix + seq![
            MdEventView::Html(
                audio_html(url, title, guessed_mime(url)->0.text, audio_caption(rest)),
            ),
        ] + rewritten_from(rest.skip(caption_span(rest)), true),
{
    let link = MdEventView::LinkStart { link_type, url, title };
    let from = seq![link] + rest;
    assert(before + seq![link] + rest =~= before + from);
    assert(from[0] == link);
    assert(from.skip(1) =~= rest);
    let (prefix, open) = lemma_rewritten_reaches(before, from, false);
    let player = MdEventView::Html(
        audio_html(url, title, guessed_mime(url)->0.text, audio_caption(rest)),
    );
    let behind = rewritten_from(rest.skip(caption_span(rest)), true);
    assert(rewritten_from(from, open) == seq![player] + behind);
    assert(prefix + (seq![player] + behind) =~= prefix + seq![player] + behind);
    prefix
}

/// An event is neither the start nor the end of a link.
pub open spec fn is_inside(event: MdEventView) -> bool {
    !(event is LinkStart) && !(event is LinkEnd)
}

/// While an audio link is open, what stands inside the link stays as it is,
/// and the event that closes the link is dropped: no closing tag is left
/// behind the player.
pub proof fn lemma_closing_event_dropped(
    inside: Seq<MdEventView>,
    end: Event<'static>,
    rest: Seq<MdEventView>,
)
    requires
        forall|i: int| 0 <= i < inside.len() ==> is_inside(#[trigger] inside[i]),
    ensures
        rewritten_from(inside + seq![MdEventView::LinkEnd(end)] + rest, true) == inside
            + rewritten_from(rest, false),
    decreases inside.len(),
{
    let all = inside + seq![MdEventView::LinkEnd(end)] + rest;
    if inside.len() == 0 {
        assert(all[0] == MdEventView::LinkEnd(end));
        assert(all.skip(1) =~= rest);
        assert(inside + rewritten_from(rest, false) =~= rewritten_from(rest, false));
    } else {
        let tail = inside.skip(1);
        assert forall|i: int| 0 <= i < tail.len() implies is_inside(#[trigger] tail[i]) by {
            assert(tail[i] == inside[i + 1]);
        }
        lemma_closing_event_dropped(tail, end, rest);
        assert(all[0] == inside[0]);
        assert(is_inside(inside[0]));
        assert(all.skip(1) =~= tail + seq![MdEventView::LinkEnd(end)] + rest);
        assert(seq![inside[0]] + (tail + rewritten_from(rest, false)) =~= inside
            + rewritten_from(rest, false));
    }
}

/// Wherever a link to a markdown document stands, it is pointed at the page
/// made from that document, and nothing else of it changes: the events come
/// out as what the events before the link have become, then the link with
/// its new target, then the events behind it, rewritten. Handed back are
/// what the events before the link have become, and whether an audio link
/// is open where the link stands.
pub proof fn lemma_markdown_link_anywhere<'a>(
    before: Seq<MdEventView<'a>>,
    link_type: LinkType,
    url: Seq<char>,
    title: Seq<char>,
    rest: Seq<MdEventView<'a>>,
) -> (r: (Seq<MdEventView<'a>>, bool))
    requires
        link_class(guessed_mime(url)) == LinkClass::Markdown,
    ensures
        rewritten(before + seq![MdEventView::LinkStart { link_type, url, title }] + rest) == r.0
            + seq![MdEventView::LinkStart { link_type, url: html_target(url), title }]
            + rewritten_from(rest, r.1),
{
    let link = MdEventView::LinkStart { link_type, url, title };
    let from = seq![link] + rest;
    assert(before + seq![link] + rest =~= before + from);
    assert(from[0] == link);
    assert(from.skip(1) =~= rest);
    let (prefix, open) = lemma_rewritten_reaches(before, from, false);
    let target = MdEventView::LinkStart { link_type, url: html_target(url), title };
    let behind = rewritten_from(rest, open);
    assert(rewritten_from(from, open) == seq![target] + behind);
    assert(prefix + (seq![target] + behind) =~= prefix + seq![target] + behind);
    (prefix, open)
}

/// The event that was taken from the parser and is still to be dealt with.
pub open spec fn waiting<'a>(pending: Option<MdEvent<'a>>) -> Seq<MdEventView<'a>> {
    match pending {
        Some(event) => seq![event@],
        None => Seq::empty(),
    }
}

/// The events of `markdown`, with the link rules applied.
pub fn rewritten_events<'a>(markdown: &'a str) -> (out: Vec<MdEvent<'a>>)
    ensures
        views(out@) == rewritten(markdown_events(markdown@)),
{
    let mut parser = new_parser(markdown, true);
    let mut out: Vec<MdEvent<'a>> = Vec::new();
    let mut pending: Option<MdEvent<'a>> = None;
    let mut closing = false;
    assert(views(out@) =~= Seq::empty());
    assert(waiting(pending) + parser_rest(parser) =~= parser_rest(parser));
    loop
        invariant
            views(out@) + rewritten_from(waiting(pending) + parser_rest(parser), closing)
                == rewritten(markdown_events(markdown@)),
        ensures
            views(out@) == rewritten(markdown_events(markdown@)),
        decreases waiting(pending).len() + parser_rest(parser).len(),
    {
        let ghost before = waiting(pending) + parser_rest(parser);
        let ghost done = views(out@);
        let ghost was_closing = closing;
        let taken = pending;
        pending = None;
        let next = match taken {
            Some(event) => {
                assert(before[0] == event@);
                assert(before.skip(1) =~= parser_rest(parser));
                Some(event)
            },
            None => {
                assert(before =~= parser_rest(parser));
                next_event(&mut parser)
            },
        };
        let ghost rest = parser_rest(parser);
        match next {
            None => {
                assert(done + Seq::<MdEventView>::empty() =~= done);
                break ;
            },
            Some(MdEvent::LinkStart { link_type, url, title }) => {
                assert(before.skip(1) =~= rest);
                let mime = guess_mime(url.as_str());
                match (classify_link(&mime), mime) {
                    (LinkClass::Markdown, _) => {
                        let target = html_target_of(url.as_str());
                        out.push(MdEvent::LinkStart { link_type, url: target, title });
                    },
                    (LinkClass::Audio, Some(mime)) => {
                        let caption = match next_event(&mut parser) {
                            Some(MdEvent::Text(text)) => text,
                            Some(event) => {
                                pending = Some(event);
                                "#".to_owned()
                            },
                            None => "".to_owned(),
                        };
                        closing = true;
                        proof {
                            assert(rest.skip(0) =~= rest);
                            if rest.len() > 0 && !(rest[0] is Text) {
                                assert(waiting(pending) + parser_rest(parser) =~= rest);
                            }
                            assert(waiting(pending) + parser_rest(parser) =~= rest.skip(
                                caption_span(rest),
                            ));
                        }
                        let html = audio_html_of(
                            url.as_str(),
                            title.as_str(),
                            mime.text.as_str(),
                            caption.as_str(),
                        );
                        out.push(MdEvent::Html(html));
                    },
                    _ => {
                        out.push(MdEvent::LinkStart { link_type, url, title });
                    },
                }
                proof {
                    let added = views(out@).last();
                    let after = rewritten_from(waiting(pending) + parser_rest(parser), closing);
                    assert(views(out@) =~= done.push(added));
                    assert(rewritten_from(before, was_closing) =~= seq![added] + after);
                    assert(done.push(added) + after =~= done + (seq![added] + after));
                }
            },
            Some(MdEvent::LinkEnd(event)) => {
                assert(before.skip(1) =~= rest);
                assert(waiting(pending) + rest =~= rest);
                if closing {
                    closing = false;
                } else {
                    out.push(MdEvent::LinkEnd(event));
                    proof {
                        let added = views(out@).last();
                        let after = rewritten_from(rest, false);
                        assert(views(out@) =~= done.push(added));
                        assert(done.push(added) + after =~= done + (seq![added] + after));
                    }
                }
            },
            Some(event) => {
                assert(before.skip(1) =~= rest);
                assert(waiting(pending) + rest =~= rest);
                out.push(event);
                proof {
                    let added = views(out@).last();
                    let after = rewritten_from(rest, closing);
                    assert(views(out@) =~= done.push(added));
                    assert(rewritten_from(before, was_closing) =~= seq![added] + after);
                    assert(done.push(added) + after =~= done + (seq![added] + after));
                }
            },
        }
    }
    out
}

/// Writes `markdown` out as HTML, in UTF-8.
///
/// The text is read as CommonMark with strikethrough, the link rules of
/// `rewritten` are applied to its events, and the HTML writer does the rest.
/// The HTML is written into memory, so that no text is refused.
pub fn write_html(markdown: &String) -> (r: Result<Vec<u8>, DocumentError>)
    ensures
        r matches Ok(bytes) && bytes@ == html_of(rewritten(markdown_events(markdown@))),
{
    let events = rewritten_events(markdown.as_str());
    match render_html(events) {
        Ok(bytes) => Ok(bytes),
        Err(e) => Err(DocumentError::Io(io_error_text(&e))),
    }
}

} // verus!
