//! Page templates. The templates are kept and rendered by a handlebars
//! registry; this module gives the registry's state and its answers names.

use crate::front_matter::vars_map;
use crate::text::chars_of;
use handlebars::Handlebars;
use handlebars::RenderError;
use handlebars::TemplateError;
use std::collections::HashMap;
use vstd::prelude::*;

verus! {

/// The handlebars registry.
#[verifier::external_type_specification]
#[verifier::external_body]
pub struct ExHandlebars<'reg>(Handlebars<'reg>);

/// The handlebars crate's error on rendering.
#[verifier::external_type_specification]
#[verifier::external_body]
pub struct ExRenderError(RenderError);

/// The handlebars crate's error on compiling a template.
#[verifier::external_type_specification]
#[verifier::external_body]
pub struct ExTemplateError(TemplateError);

/// The templates that a registry holds: for each name the source text that
/// was registered under it last.
pub uninterp spec fn registry_templates(registry: Handlebars<'_>) -> Map<Seq<char>, Seq<char>>;

/// Whether a registry escapes the values that it puts into a page for HTML.
pub uninterp spec fn registry_escapes(registry: Handlebars<'_>) -> bool;

/// Whether handlebars takes `source` for a template: its syntax is in order.
pub uninterp spec fn template_compiles(source: Seq<char>) -> bool;

/// The page that a registry with the templates `templates`, and with
/// escaping switched as `escapes` says, renders from the template `name` and
/// the variables `vars`; `None` where it reports an error.
pub uninterp spec fn rendered_page(
    templates: Map<Seq<char>, Seq<char>>,
    escapes: bool,
    name: Seq<char>,
    vars: Map<Seq<char>, Seq<char>>,
) -> Option<Seq<char>>;

/// A character that may stand between the braces that open a tag and the
/// sign that says what the tag is: white space, the sign that trims white
/// space, and the sign that opens a block.
pub open spec fn before_sign(c: char) -> bool {
    c == ' ' || c == '\t' || c == '\n' || c == '\r' || c == '~' || c == '#'
}

/// White space.
pub open spec fn is_space(c: char) -> bool {
    c == ' ' || c == '\t' || c == '\n' || c == '\r'
}

/// A character of a partial's name where the name is written out: a letter
/// or digit of ASCII, one of `-`, `_`, `/` and `.`, or any character beyond
/// ASCII.
pub open spec fn name_char(c: char) -> bool {
    ||| 0x30 <= c as u32 <= 0x39
    ||| 0x41 <= c as u32 <= 0x5a
    ||| 0x61 <= c as u32 <= 0x7a
    ||| c == '-'
    ||| c == '_'
    ||| c == '/'
    ||| c == '.'
    ||| c as u32 >= 0x80
}

/// The first index at or after `i` at which no character stands that may
/// come before a tag's sign.
pub open spec fn sign_index(text: Seq<char>, i: int) -> int
    decreases text.len() - i,
{
    if 0 <= i < text.len() && before_sign(text[i]) {
        sign_index(text, i + 1)
    } else {
        i
    }
}

/// The first index at or after `i` at which no white space stands.
pub open spec fn past_space(text: Seq<char>, i: int) -> int
    decreases text.len() - i,
{
    if 0 <= i < text.len() && is_space(text[i]) {
        past_space(text, i + 1)
    } else {
        i
    }
}

/// The first index at or after `i` at which no character of a name stands.
pub open spec fn name_end(text: Seq<char>, i: int) -> int
    decreases text.len() - i,
{
    if 0 <= i < text.len() && name_char(text[i]) {
        name_end(text, i + 1)
    } else {
        i
    }
}

/// At index `i` of `text` a tag with the sign `sign` may open: two opening
/// braces, followed by the sign with nothing but white space, `~` and `#`
/// between.
pub open spec fn tag_at(text: Seq<char>, i: int, sign: char) -> bool {
    &&& 0 <= i
    &&& i + 2 <= text.len()
    &&& text[i] == '{'
    &&& text[i + 1] == '{'
    &&& sign_index(text, i + 2) < text.len()
    &&& text[sign_index(text, i + 2)] == sign
}

/// At index `i` of `text` stands what may be a call of a partial. Every call
/// of a partial looks so; what looks so may be escaped or raw text and call
/// none.
pub open spec fn partial_call_at(text: Seq<char>, i: int) -> bool {
    tag_at(text, i, '>')
}

/// The name that the call of a partial at index `i` of `text` writes out:
/// the characters of a name that follow the sign and white space. It is
/// empty where the call gives its name in another way.
pub open spec fn called_at(text: Seq<char>, i: int) -> Seq<char> {
    text.subrange(
        past_space(text, sign_index(text, i + 2) + 1),
        name_end(text, past_space(text, sign_index(text, i + 2) + 1)),
    )
}

/// The template source `text` may call the partial `name`.
pub open spec fn calls_name(text: Seq<char>, name: Seq<char>) -> bool {
    exists|i: int| partial_call_at(text, i) && #[trigger] called_at(text, i) == name
}

/// The template source `text` may call a partial without writing out its
/// name, or may define a partial of its own: which templates it calls cannot
/// be read off it.
pub open spec fn open_calls(text: Seq<char>) -> bool {
    exists|i: int| open_call_at(text, i)
}

/// At index `i` of `text` a partial may be defined, or called without its
/// name written out.
pub open spec fn open_call_at(text: Seq<char>, i: int) -> bool {
    tag_at(text, i, '*') || (partial_call_at(text, i) && called_at(text, i).len() == 0)
}

/// `name` is among `names`.
pub open spec fn named_among(names: Seq<String>, name: Seq<char>) -> bool {
    exists|k: int| 0 <= k < names.len() && (#[trigger] names[k])@ == name
}

/// `names` are the names of the partials that `text` may call.
pub open spec fn names_of(text: Seq<char>, names: Seq<String>) -> bool {
    &&& forall|i: int| #[trigger] partial_call_at(text, i) ==> named_among(names, called_at(text, i))
    &&& forall|k: int| 0 <= k < names.len() ==> calls_name(text, (#[trigger] names[k])@)
}

fn scan_sign(text: &Vec<char>, from: usize) -> (r: usize)
    requires
        from <= text.len(),
    ensures
        r == sign_index(text@, from as int),
        from <= r <= text.len(),
{
    let mut j: usize = from;
    while j < text.len() && (text[j] == ' ' || text[j] == '\t' || text[j] == '\n' || text[j]
        == '\r' || text[j] == '~' || text[j] == '#')
        invariant
            from <= j <= text.len(),
            sign_index(text@, from as int) == sign_index(text@, j as int),
        decreases text.len() - j,
    {
        j += 1;
    }
    j
}

fn scan_space(text: &Vec<char>, from: usize) -> (r: usize)
    requires
        from <= text.len(),
    ensures
        r == past_space(text@, from as int),
        from <= r <= text.len(),
{
    let mut j: usize = from;
    while j < text.len() && (text[j] == ' ' || text[j] == '\t' || text[j] == '\n' || text[j]
        == '\r')
        invariant
            from <= j <= text.len(),
            past_space(text@, from as int) == past_space(text@, j as int),
        decreases text.len() - j,
    {
        j += 1;
    }
    j
}

fn is_name_char(c: char) -> (r: bool)
    ensures
        r == name_char(c),
{
    let n = c as u32;
    (0x30 <= n && n <= 0x39) || (0x41 <= n && n <= 0x5a) || (0x61 <= n && n <= 0x7a) || c == '-'
        || c == '_' || c == '/' || c == '.' || n >= 0x80
}

fn scan_name(text: &Vec<char>, from: usize) -> (r: usize)
    requires
        from <= text.len(),
    ensures
        r == name_end(text@, from as int),
        from <= r <= text.len(),
{
    let mut j: usize = from;
    while j < text.len() && is_name_char(text[j])
        invariant
            from <= j <= text.len(),
            name_end(text@, from as int) == name_end(text@, j as int),
        decreases text.len() - j,
    {
        j += 1;
    }
    j
}

/// The names of the partials that the template source `source` may call;
/// nothing where they cannot be read off it.
pub fn partial_names(source: &str) -> (r: Option<Vec<String>>)
    ensures
        match r {
            Some(names) => !open_calls(source@) && names_of(source@, names@),
            None => open_calls(source@),
        },
{
    let text = chars_of(source);
    let mut names: Vec<String> = Vec::new();
    let mut i: usize = 0;
    while i < text.len()
        invariant
            text@ == source@,
            forall|k: int| 0 <= k < i ==> !open_call_at(text@, k),
            forall|k: int|
                0 <= k < i && #[trigger] partial_call_at(text@, k) ==> named_among(
                    names@,
                    called_at(text@, k),
                ),
            forall|m: int| 0 <= m < names@.len() ==> calls_name(text@, (#[trigger] names@[m])@),
        decreases text.len() - i,
    {
        if text[i] == '{' && i + 1 < text.len() && text[i + 1] == '{' {
            let at = scan_sign(&text, i + 2);
            if at < text.len() && text[at] == '*' {
                assert(open_call_at(text@, i as int));
                return None;
            }
            if at < text.len() && text[at] == '>' {
                let start = scan_space(&text, at + 1);
                let end = scan_name(&text, start);
                assert(partial_call_at(text@, i as int));
                assert(called_at(text@, i as int) == text@.subrange(start as int, end as int));
                if end == start {
                    assert(open_call_at(text@, i as int));
                    return None;
                }
                let ghost before = names@;
                let name = source.substring_char(start, end).to_owned();
                names.push(name);
                assert(names@[before.len() as int]@ == called_at(text@, i as int));
                assert forall|m: int| 0 <= m < names@.len() implies calls_name(
                    text@,
                    (#[trigger] names@[m])@,
                ) by {
                    if m < before.len() {
                        assert(names@[m] == before[m]);
                    }
                }
                assert forall|k: int|
                    0 <= k < i + 1 && #[trigger] partial_call_at(text@, k) implies named_among(
                    names@,
                    called_at(text@, k),
                ) by {
                    if k < i {
                        let m = choose|m: int|
                            0 <= m < before.len() && (#[trigger] before[m])@ == called_at(text@, k);
                        assert(names@[m] == before[m]);
                    }
                }
            }
        }
        i += 1;
    }
    proof {
        assert(!open_calls(source@)) by {
            if open_calls(source@) {
                let k = choose|k: int| open_call_at(source@, k);
                assert(0 <= k < text@.len());
            }
        }
        assert forall|k: int| #[trigger] partial_call_at(source@, k) implies named_among(
            names@,
            called_at(source@, k),
        ) by {
            assert(0 <= k < text@.len());
        }
    }
    Some(names)
}

/// With the partials `rank` goes down from each template to the templates
/// that it may call.
pub open spec fn map_ranked(templates: Map<Seq<char>, Seq<char>>, rank: Map<Seq<char>, nat>) -> bool {
    forall|a: Seq<char>, b: Seq<char>|
        templates.contains_key(a) && templates.contains_key(b) && #[trigger] calls_name(
            templates[a],
            b,
        ) ==> rank[b] < rank[a]
}

/// Rendering with `templates` comes to an end: the partials that each
/// template calls can be read off it, and no templates call one another in a
/// circle.
pub open spec fn partials_end(templates: Map<Seq<char>, Seq<char>>) -> bool {
    &&& forall|name: Seq<char>|
        templates.contains_key(name) ==> !open_calls(#[trigger] templates[name])
    &&& exists|rank: Map<Seq<char>, nat>| map_ranked(templates, rank)
}

/// The state of a registry that holds no template.
pub open spec fn no_templates() -> Map<Seq<char>, Seq<char>> {
    Map::empty()
}

/// Calls `Handlebars::new`: a registry without templates, which escapes.
#[verifier::external_body]
pub(crate) fn new_registry<'reg>() -> (r: Handlebars<'reg>)
    ensures
        registry_templates(r) == no_templates(),
        registry_escapes(r),
{
    Handlebars::new()
}

/// Calls `Handlebars::register_escape_fn` with `handlebars::no_escape`, after
/// which values are put into a page as they are. The templates stay.
#[verifier::external_body]
pub(crate) fn disable_escaping(registry: &mut Handlebars<'_>)
    ensures
        !registry_escapes(*final(registry)),
        registry_templates(*final(registry)) == registry_templates(*old(registry)),
{
    registry.register_escape_fn(handlebars::no_escape)
}

/// Calls `Handlebars::register_template_string`. A source that compiles is
/// kept under `name`, in place of what that name held; one that does not is
/// an error and changes nothing. Whether a source compiles goes by the source
/// alone, and the contract names it.
#[verifier::external_body]
pub(crate) fn register_template(registry: &mut Handlebars<'_>, name: &str, source: &str) -> (r:
    Result<(), TemplateError>)
    ensures
        registry_escapes(*final(registry)) == registry_escapes(*old(registry)),
        r is Ok <==> template_compiles(source@),
        r is Ok ==> registry_templates(*final(registry)) == registry_templates(
            *old(registry),
        ).insert(name@, source@),
        r is Err ==> registry_templates(*final(registry)) == registry_templates(*old(registry)),
{
    registry.register_template_string(name, source)
}

/// Calls `Handlebars::render` with the variables as a mapping from strings to
/// strings. The contract names the page. Templates that call one another as
/// partials in a circle make the engine run without end, so the templates of
/// the registry must not do so, and must write out the names of the
/// partials that they call.
#[verifier::external_body]
pub(crate) fn render(registry: &Handlebars<'_>, name: &str, vars: &Vec<(String, String)>) -> (r:
    Result<String, RenderError>)
    requires
        partials_end(registry_templates(*registry)),
    ensures
        r matches Ok(page) ==> rendered_page(
            registry_templates(*registry),
            registry_escapes(*registry),
            name@,
            vars_map(vars@),
        ) == Some(page@),
        r is Err ==> rendered_page(
            registry_templates(*registry),
            registry_escapes(*registry),
            name@,
            vars_map(vars@),
        ) is None,
{
    let data: HashMap<&str, &str> = vars.iter().map(|pair| (pair.0.as_str(), pair.1.as_str())).collect();
    registry.render(name, &data)
}

/// The message of a `TemplateError`, as its `Display` writes it.
#[verifier::external_body]
pub(crate) fn template_error_text(e: &TemplateError) -> (r: String) {
    e.to_string()
}

/// The message of a `RenderError`, as its `Display` writes it.
#[verifier::external_body]
pub(crate) fn render_error_text(e: &RenderError) -> (r: String) {
    e.to_string()
}

} // verus!
