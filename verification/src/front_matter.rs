//! The optional YAML block at the head of a markdown text.

use crate::error::DocumentError;
use crate::text::chars_of;
use crate::text::find_from;
use crate::text::first_from;
use crate::text::lemma_first_from;
use crate::text::occurs;
use crate::text::occurs_at;
use crate::text::str_eq;
use std::collections::HashMap;
use vstd::prelude::*;
use vstd::string::*;

verus! {

/// The mapping that a list of pairs stands for; of two pairs with one key the
/// later one counts.
pub open spec fn vars_map(pairs: Seq<(String, String)>) -> Map<Seq<char>, Seq<char>>
    decreases pairs.len(),
{
    if pairs.len() == 0 {
        Map::empty()
    } else {
        vars_map(pairs.drop_last()).insert(pairs.last().0@, pairs.last().1@)
    }
}

/// Adding a pair at the end inserts it into the mapping.
pub proof fn lemma_vars_map_push(pairs: Seq<(String, String)>, pair: (String, String))
    ensures
        vars_map(pairs.push(pair)) == vars_map(pairs).insert(pair.0@, pair.1@),
{
    assert(pairs.push(pair).drop_last() =~= pairs);
}

/// The serde_yaml crate's error.
#[verifier::external_type_specification]
#[verifier::external_body]
pub struct ExYamlError(serde_yaml::Error);

/// What `serde_yaml::from_str` makes of `text` when asked for a mapping from
/// strings to strings: the mapping, or `None` where it reports an error.
pub uninterp spec fn yaml_vars(text: Seq<char>) -> Option<Map<Seq<char>, Seq<char>>>;

/// Calls `serde_yaml::from_str` for a `HashMap<String, String>` and hands its
/// entries back as pairs, in no particular order. The contract names the
/// mapping that was parsed; a hash map holds each key once, so the pairs stand
/// for that mapping whatever their order.
#[verifier::external_body]
fn parse_yaml(text: &str) -> (r: Result<Vec<(String, String)>, serde_yaml::Error>)
    ensures
        r matches Ok(pairs) ==> yaml_vars(text@) == Some(vars_map(pairs@)),
        r is Err ==> yaml_vars(text@) is None,
{
    match serde_yaml::from_str::<HashMap<String, String>>(text) {
        Ok(map) => Ok(map.into_iter().collect()),
        Err(e) => Err(e),
    }
}

/// The message of a `serde_yaml::Error`, as its `Display` writes it.
#[verifier::external_body]
fn yaml_error_text(e: &serde_yaml::Error) -> (r: String) {
    e.to_string()
}

/// The delimiter line that ends in a line feed.
pub open spec fn delimiter_lf() -> Seq<char> {
    "---\n"@
}

/// The delimiter line that ends in a carriage return and a line feed.
pub open spec fn delimiter_crlf() -> Seq<char> {
    "---\r\n"@
}

/// The delimiter that `text` begins with, if it begins with one.
pub open spec fn opening(text: Seq<char>) -> Option<Seq<char>> {
    if occurs_at(text, delimiter_crlf(), 0) {
        Some(delimiter_crlf())
    } else if occurs_at(text, delimiter_lf(), 0) {
        Some(delimiter_lf())
    } else {
        None
    }
}

/// How a text is framed.
pub enum Framing {
    /// The text does not begin with a delimiter.
    Absent,
    /// The text begins with a delimiter that does not occur again.
    Unclosed,
    /// The text begins with a delimiter, and `yaml` lies between it and its
    /// next occurrence, after which `body` follows.
    Block { yaml: Seq<char>, body: Seq<char> },
}

/// The framing of `text`: the block runs from the opening delimiter to the
/// first later occurrence of the same delimiter.
pub open spec fn framing(text: Seq<char>) -> Framing {
    match opening(text) {
        None => Framing::Absent,
        Some(d) => match first_from(text, d, d.len() as int) {
            None => Framing::Unclosed,
            Some(k) => Framing::Block {
                yaml: text.subrange(d.len() as int, k),
                body: text.subrange(k + d.len(), text.len() as int),
            },
        },
    }
}

/// A text split at its front-matter delimiters.
#[derive(Debug, PartialEq, Eq)]
pub enum Frame {
    /// The text does not begin with a delimiter.
    Absent,
    /// The text begins with a delimiter that does not occur again.
    Unclosed,
    /// The block between the delimiters, and the text after the closing one.
    Block { yaml: String, body: String },
}

impl View for Frame {
    type V = Framing;

    open spec fn view(&self) -> Framing {
        match self {
            Frame::Absent => Framing::Absent,
            Frame::Unclosed => Framing::Unclosed,
            Frame::Block { yaml, body } => Framing::Block { yaml: yaml@, body: body@ },
        }
    }
}

/// Splits `text` at its front-matter delimiters.
pub fn frame(text: &str) -> (r: Frame)
    ensures
        r@ == framing(text@),
{
    let chars = chars_of(text);
    let crlf = chars_of("---\r\n");
    let lf = chars_of("---\n");
    let delimiter = if occurs(&chars, &crlf, 0) {
        crlf
    } else if occurs(&chars, &lf, 0) {
        lf
    } else {
        return Frame::Absent;
    };
    assert(opening(text@) == Some(delimiter@));
    proof {
        lemma_first_from(chars@, delimiter@, delimiter@.len() as int);
    }
    match find_from(&chars, &delimiter, delimiter.len()) {
        None => Frame::Unclosed,
        Some(k) => {
            assert(k + delimiter@.len() <= chars@.len() == chars.len());
            let yaml = text.substring_char(delimiter.len(), k);
            let body = text.substring_char(k + delimiter.len(), chars.len());
            Frame::Block { yaml: yaml.to_owned(), body: body.to_owned() }
        },
    }
}

/// A text that begins with neither delimiter has no front matter, and taking
/// the front matter off leaves it as it is.
pub proof fn lemma_framing_absent(text: Seq<char>)
    requires
        !occurs_at(text, delimiter_lf(), 0),
        !occurs_at(text, delimiter_crlf(), 0),
    ensures
        framing(text) == Framing::Absent,
        split_body(text) == text,
{
}

/// Text that opens with a delimiter, holds `yaml`, repeats the delimiter and
/// goes on with `body` is framed as exactly that block and that body,
/// provided the delimiter does not already occur before the place where it is
/// repeated.
pub proof fn lemma_framing_of_block(delimiter: Seq<char>, yaml: Seq<char>, body: Seq<char>)
    requires
        delimiter == delimiter_lf() || delimiter == delimiter_crlf(),
        forall|j: int| 0 <= j < yaml.len() ==> !occurs_at(yaml + delimiter, delimiter, j),
    ensures
        framing(delimiter + yaml + delimiter + body) == (Framing::Block { yaml, body }),
{
    reveal_strlit("---\n");
    reveal_strlit("---\r\n");
    let text = delimiter + yaml + delimiter + body;
    let n = delimiter.len() as int;
    assert(text.subrange(0, n) =~= delimiter);
    if delimiter == delimiter_lf() {
        assert(!occurs_at(text, delimiter_crlf(), 0)) by {
            if occurs_at(text, delimiter_crlf(), 0) {
                assert(text.subrange(0, 5)[3] == '\r');
                assert(text[3] == delimiter[3]);
            }
        }
    }
    assert(opening(text) == Some(delimiter));
    let k = n + yaml.len();
    assert(text.subrange(k, k + n) =~= delimiter);
    assert forall|j: int| n <= j < k implies !occurs_at(text, delimiter, j) by {
        if occurs_at(text, delimiter, j) {
            assert((yaml + delimiter).subrange(j - n, j - n + n) =~= text.subrange(j, j + n));
            assert(occurs_at(yaml + delimiter, delimiter, j - n));
        }
    }
    crate::text::lemma_first_from_is(text, delimiter, n, k);
    assert(text.subrange(n, k) =~= yaml);
    assert(text.subrange(k + n, text.len() as int) =~= body);
}

/// The variables that a document's front matter defines: a mapping from names
/// to values.
#[derive(Debug)]
pub struct FrontMatter {
    vars: Vec<(String, String)>,
}

impl View for FrontMatter {
    type V = Map<Seq<char>, Seq<char>>;

    closed spec fn view(&self) -> Map<Seq<char>, Seq<char>> {
        vars_map(self.vars@)
    }
}

/// What `split_yml_from_string` leaves in the buffer.
pub open spec fn split_body(text: Seq<char>) -> Seq<char> {
    match framing(text) {
        Framing::Block { yaml, body } => body,
        _ => text,
    }
}

/// The value that the last pair with the key `key` holds.
pub open spec fn lookup(pairs: Seq<(String, String)>, key: Seq<char>) -> Option<Seq<char>>
    decreases pairs.len(),
{
    if pairs.len() == 0 {
        None
    } else if pairs.last().0@ == key {
        Some(pairs.last().1@)
    } else {
        lookup(pairs.drop_last(), key)
    }
}

/// The mapping of a list of pairs defines a key exactly when `lookup` finds
/// it, and with the value that `lookup` finds.
pub proof fn lemma_vars_map_lookup(pairs: Seq<(String, String)>, key: Seq<char>)
    ensures
        match lookup(pairs, key) {
            Some(value) => vars_map(pairs).contains_key(key) && vars_map(pairs)[key] == value,
            None => !vars_map(pairs).contains_key(key),
        },
    decreases pairs.len(),
{
    if pairs.len() > 0 {
        lemma_vars_map_lookup(pairs.drop_last(), key);
    }
}

impl FrontMatter {
    /// Front matter without variables.
    pub fn new() -> (r: FrontMatter)
        ensures
            r@ == Map::<Seq<char>, Seq<char>>::empty(),
    {
        FrontMatter { vars: Vec::new() }
    }

    /// Sets the variable `key` to `value`, in place of what it held.
    pub fn insert(&mut self, key: &str, value: &str)
        ensures
            final(self)@ == old(self)@.insert(key@, value@),
    {
        let pair = (key.to_owned(), value.to_owned());
        proof {
            lemma_vars_map_push(self.vars@, pair);
        }
        self.vars.push(pair);
    }

    /// Whether the variable `key` is defined.
    pub fn contains_key(&self, key: &str) -> (r: bool)
        ensures
            r == self@.contains_key(key@),
    {
        self.get(key).is_some()
    }

    /// The value of the variable `key`, if it is defined.
    pub fn get(&self, key: &str) -> (r: Option<String>)
        ensures
            match r {
                Some(value) => self@.contains_key(key@) && self@[key@] == value@,
                None => !self@.contains_key(key@),
            },
    {
        proof {
            lemma_vars_map_lookup(self.vars@, key@);
        }
        let mut i: usize = self.vars.len();
        assert(self.vars@.subrange(0, i as int) =~= self.vars@);
        while i > 0
            invariant
                i <= self.vars.len(),
                lookup(self.vars@, key@) == lookup(self.vars@.subrange(0, i as int), key@),
            decreases i,
        {
            let ghost upto = self.vars@.subrange(0, i as int);
            assert(upto.last() == self.vars@[i - 1]);
            assert(upto.drop_last() =~= self.vars@.subrange(0, i - 1));
            i -= 1;
            if str_eq(self.vars[i].0.as_str(), key) {
                assert(lookup(upto, key@) == Some(self.vars@[i as int].1@));
                proof {
                    lemma_vars_map_lookup(self.vars@, key@);
                }
                return Some(self.vars[i].1.clone());
            }
        }
        None
    }

    /// A copy of these variables.
    pub fn copy(&self) -> (r: FrontMatter)
        ensures
            r@ == self@,
    {
        let mut vars: Vec<(String, String)> = Vec::new();
        let mut i: usize = 0;
        while i < self.vars.len()
            invariant
                i <= self.vars.len(),
                vars@ == self.vars@.subrange(0, i as int),
            decreases self.vars.len() - i,
        {
            vars.push((self.vars[i].0.clone(), self.vars[i].1.clone()));
            assert(vars@ =~= self.vars@.subrange(0, i + 1));
            i += 1;
        }
        assert(vars@ =~= self.vars@);
        FrontMatter { vars }
    }

    /// The pairs that stand for these variables.
    pub(crate) fn pairs(&self) -> (r: &Vec<(String, String)>)
        ensures
            vars_map(r@) == self@,
    {
        &self.vars
    }

    /// Takes the front matter off the head of `input`.
    ///
    /// A text that does not begin with a delimiter line has none and is left
    /// as it is. Otherwise the block up to the next occurrence of the same
    /// delimiter is cut off together with both delimiters, and parsed as a
    /// YAML mapping from strings to strings; the cut is made whether or not
    /// the block parses. A block that is never closed is an error and leaves
    /// the text as it is.
    pub fn split_yml_from_string(input: &mut String) -> (r: Result<
        Option<FrontMatter>,
        DocumentError,
    >)
        ensures
            final(input)@ == split_body(old(input)@),
            match framing(old(input)@) {
                Framing::Absent => r matches Ok(None),
                Framing::Unclosed => r matches Err(DocumentError::UnclosedFrontMatter),
                Framing::Block { yaml, body } => match yaml_vars(yaml) {
                    Some(vars) => r matches Ok(Some(fm)) && fm@ == vars,
                    None => r matches Err(DocumentError::Yaml(_)),
                },
            },
    {
        match frame(input.as_str()) {
            Frame::Absent => Ok(None),
            Frame::Unclosed => Err(DocumentError::UnclosedFrontMatter),
            Frame::Block { yaml, body } => {
                *input = body;
                match parse_yaml(yaml.as_str()) {
                    Ok(vars) => Ok(Some(FrontMatter { vars })),
                    Err(e) => Err(DocumentError::Yaml(yaml_error_text(&e))),
                }
            },
        }
    }
}

} // verus!
