//! The site: the source tree's documents, in the order of the walk, and the
//! templates that their pages are rendered with.

use crate::document::Document;
use crate::document::SiteAction;
use crate::document::text_view;
use crate::error::DocumentError;
use crate::error::WebError;
use crate::front_matter::FrontMatter;
use crate::template::disable_escaping;
use crate::template::new_registry;
use crate::template::register_template;
use crate::template::registry_escapes;
use crate::template::registry_templates;
use crate::template::rendered_page;
use crate::template::calls_name;
use crate::template::map_ranked;
use crate::template::named_among;
use crate::template::names_of;
use crate::template::open_calls;
use crate::template::partial_names;
use crate::template::partials_end;
use crate::template::template_compiles;
use crate::template::template_error_text;
use crate::text::str_eq;
use crate::util::dir_entry::DirEntry;
use crate::util::path::has_extension;
use crate::util::path::has_hidden_part;
use crate::util::path::is_visible_below;
use crate::util::path::join;
use crate::util::path::path_extension;
use crate::util::path::path_join;
use crate::util::path::path_strip_prefix;
use crate::util::path::path_with_extension;
use crate::util::path::visible_below;
use crate::util::path::visible_part;
use handlebars::Handlebars;
use handlebars::RenderError;
use vstd::prelude::*;

verus! {

/// A file found in the source tree.
#[derive(Debug, PartialEq, Eq)]
pub struct SourceFile {
    /// Where the file lies, the root of the source tree included.
    pub path: String,
    /// The file's text, which is needed where `path` names a markdown file.
    pub text: Option<String>,
}

/// A template: its name and its source text.
#[derive(Debug, PartialEq, Eq)]
pub struct TemplateSource {
    /// The name that the template is registered under.
    pub name: String,
    /// The template's text.
    pub source: String,
}

/// The templates that a list of sources defines, by name; of two sources
/// with one name the later one counts.
pub open spec fn templates_map(templates: Seq<TemplateSource>) -> Map<Seq<char>, Seq<char>>
    decreases templates.len(),
{
    if templates.len() == 0 {
        Map::empty()
    } else {
        templates_map(templates.drop_last()).insert(
            templates.last().name@,
            templates.last().source@,
        )
    }
}

/// A template is taken when the partials that it calls can be read off it
/// and it compiles.
pub open spec fn template_fits(source: Seq<char>) -> bool {
    !open_calls(source) && template_compiles(source)
}

/// Every one of `templates` is taken.
pub open spec fn all_compile(templates: Seq<TemplateSource>) -> bool {
    forall|i: int| 0 <= i < templates.len() ==> template_fits((#[trigger] templates[i]).source@)
}

/// Among `templates`, the first that is not taken has the name `name`; the
/// partials that it calls cannot be read off it if `partial` says so, and
/// else it does not compile.
pub open spec fn first_broken_template(
    templates: Seq<TemplateSource>,
    name: Seq<char>,
    partial: bool,
) -> bool {
    exists|i: int|
        0 <= i < templates.len() && (#[trigger] templates[i]).name@ == name && !template_fits(
            templates[i].source@,
        ) && partial == open_calls(templates[i].source@) && all_compile(
            templates.subrange(0, i),
        )
}

/// The template at index `i` may call the template at index `j` as a partial.
pub open spec fn calls_template(templates: Seq<TemplateSource>, i: int, j: int) -> bool {
    calls_name(templates[i].source@, templates[j].name@)
}

/// `rank` goes down from each template to the templates that it may call.
pub open spec fn ranked(templates: Seq<TemplateSource>, rank: Seq<nat>) -> bool {
    &&& rank.len() == templates.len()
    &&& forall|i: int, j: int|
        0 <= i < templates.len() && 0 <= j < templates.len() && #[trigger] calls_template(
            templates,
            i,
            j,
        ) ==> rank[j] < rank[i]
}

/// No templates call one another in a circle: they can be ranked so that
/// each calls only templates of lower rank.
pub open spec fn no_circle(templates: Seq<TemplateSource>) -> bool {
    exists|rank: Seq<nat>| ranked(templates, rank)
}

/// The index of the last of `templates` that has the name `name`, or -1.
pub open spec fn last_named(templates: Seq<TemplateSource>, name: Seq<char>) -> int
    decreases templates.len(),
{
    if templates.len() == 0 {
        -1
    } else if templates.last().name@ == name {
        templates.len() - 1
    } else {
        last_named(templates.drop_last(), name)
    }
}

/// The templates by name hold, for each name, the source of the last
/// template of that name.
pub proof fn lemma_templates_map_lookup(templates: Seq<TemplateSource>, name: Seq<char>)
    ensures
        -1 <= last_named(templates, name) < templates.len(),
        templates_map(templates).contains_key(name) <==> last_named(templates, name) >= 0,
        last_named(templates, name) >= 0 ==> templates[last_named(templates, name)].name@ == name
            && templates_map(templates)[name] == templates[last_named(
            templates,
            name,
        )].source@,
    decreases templates.len(),
{
    if templates.len() > 0 {
        lemma_templates_map_lookup(templates.drop_last(), name);
        if templates.last().name@ != name {
            let i = last_named(templates.drop_last(), name);
            if i >= 0 {
                assert(templates.drop_last()[i] == templates[i]);
            }
        }
    }
}

/// Templates that are taken and do not call one another in a circle make a
/// registry whose rendering comes to an end.
pub proof fn lemma_partials_end(templates: Seq<TemplateSource>)
    requires
        forall|i: int| 0 <= i < templates.len() ==> !open_calls((#[trigger] templates[i]).source@),
        no_circle(templates),
    ensures
        partials_end(templates_map(templates)),
{
    let by_name = templates_map(templates);
    let rank = choose|rank: Seq<nat>| ranked(templates, rank);
    let rank_of = Map::<Seq<char>, nat>::new(
        |name: Seq<char>| true,
        |name: Seq<char>|
            if last_named(templates, name) >= 0 {
                rank[last_named(templates, name)]
            } else {
                0nat
            },
    );
    assert forall|name: Seq<char>| by_name.contains_key(name) implies !open_calls(
        #[trigger] by_name[name],
    ) by {
        lemma_templates_map_lookup(templates, name);
    }
    assert forall|a: Seq<char>, b: Seq<char>|
        by_name.contains_key(a) && by_name.contains_key(b) && #[trigger] calls_name(
            by_name[a],
            b,
        ) implies rank_of[b] < rank_of[a] by {
        lemma_templates_map_lookup(templates, a);
        lemma_templates_map_lookup(templates, b);
        assert(calls_template(templates, last_named(templates, a), last_named(templates, b)));
    }
    assert(map_ranked(by_name, rank_of));
}

/// How many of `rank` are 0: the templates that have no rank yet.
pub open spec fn unranked(rank: Seq<usize>) -> nat
    decreases rank.len(),
{
    if rank.len() == 0 {
        0
    } else {
        unranked(rank.drop_last()) + if rank.last() == 0 {
            1nat
        } else {
            0nat
        }
    }
}

proof fn lemma_unranked_bound(rank: Seq<usize>)
    ensures
        unranked(rank) <= rank.len(),
    decreases rank.len(),
{
    if rank.len() > 0 {
        lemma_unranked_bound(rank.drop_last());
    }
}

proof fn lemma_unranked_positive(rank: Seq<usize>, i: int)
    requires
        0 <= i < rank.len(),
        rank[i] == 0,
    ensures
        unranked(rank) >= 1,
    decreases rank.len(),
{
    if i < rank.len() - 1 {
        assert(rank.drop_last()[i] == rank[i]);
        lemma_unranked_positive(rank.drop_last(), i);
    }
}

proof fn lemma_unranked_update(rank: Seq<usize>, i: int, v: usize)
    requires
        0 <= i < rank.len(),
        rank[i] == 0,
        v != 0,
    ensures
        unranked(rank.update(i, v)) + 1 == unranked(rank),
    decreases rank.len(),
{
    if i == rank.len() - 1 {
        assert(rank.update(i, v).drop_last() =~= rank.drop_last());
    } else {
        assert(rank.update(i, v).drop_last() =~= rank.drop_last().update(i, v));
        lemma_unranked_update(rank.drop_last(), i, v);
    }
}

/// Every template without a rank may call a template without a rank.
pub open spec fn stuck(templates: Seq<TemplateSource>, rank: Seq<usize>) -> bool {
    forall|i: int|
        0 <= i < templates.len() && #[trigger] rank[i] == 0 ==> exists|j: int|
            0 <= j < templates.len() && #[trigger] calls_template(templates, i, j) && rank[j] == 0
}

/// Where every template without a rank may call another such template, none
/// of them can have a rank that goes down along the calls.
proof fn lemma_stuck(
    templates: Seq<TemplateSource>,
    rank: Seq<usize>,
    down: Seq<nat>,
    i: int,
    n: nat,
)
    requires
        rank.len() == templates.len(),
        stuck(templates, rank),
        0 <= i < templates.len(),
        rank[i] == 0,
    ensures
        ranked(templates, down) ==> down[i] > n,
    decreases n,
{
    if ranked(templates, down) {
        let j = choose|j: int|
            0 <= j < templates.len() && #[trigger] calls_template(templates, i, j) && rank[j]
                == 0;
        if n > 0 {
            lemma_stuck(templates, rank, down, j, (n - 1) as nat);
        }
    }
}

fn holds_name(names: &Vec<String>, name: &str) -> (r: bool)
    ensures
        r == named_among(names@, name@),
{
    let mut k: usize = 0;
    while k < names.len()
        invariant
            k <= names.len(),
            forall|m: int| 0 <= m < k ==> (#[trigger] names@[m])@ != name@,
        decreases names.len() - k,
    {
        if str_eq(names[k].as_str(), name) {
            return true;
        }
        k += 1;
    }
    false
}

/// All of `calls` are the names that the templates at their indices may call.
pub open spec fn calls_of(templates: Seq<TemplateSource>, calls: Seq<Vec<String>>) -> bool {
    &&& calls.len() == templates.len()
    &&& forall|i: int|
        0 <= i < templates.len() ==> names_of(templates[i].source@, (#[trigger] calls[i])@)
}

fn may_call(templates: &Vec<TemplateSource>, calls: &Vec<Vec<String>>, i: usize, j: usize) -> (r:
    bool)
    requires
        calls_of(templates@, calls@),
        i < templates.len(),
        j < templates.len(),
    ensures
        r == calls_template(templates@, i as int, j as int),
{
    let names = &calls[i];
    let found = holds_name(names, templates[j].name.as_str());
    proof {
        let source = templates@[i as int].source@;
        let name = templates@[j as int].name@;
        assert(names_of(source, names@));
        if calls_name(source, name) {
            let at = choose|at: int|
                crate::template::partial_call_at(source, at) && #[trigger] crate::template::called_at(
                    source,
                    at,
                ) == name;
            assert(found);
        }
    }
    found
}

fn is_ready(templates: &Vec<TemplateSource>, calls: &Vec<Vec<String>>, rank: &Vec<usize>, i: usize) -> (r:
    bool)
    requires
        calls_of(templates@, calls@),
        rank.len() == templates.len(),
        i < templates.len(),
    ensures
        r == forall|j: int|
            0 <= j < templates.len() && #[trigger] calls_template(templates@, i as int, j)
                ==> rank@[j] != 0,
{
    let mut j: usize = 0;
    while j < templates.len()
        invariant
            j <= templates.len(),
            calls_of(templates@, calls@),
            rank.len() == templates.len(),
            i < templates.len(),
            forall|k: int|
                0 <= k < j && #[trigger] calls_template(templates@, i as int, k) ==> rank@[k] != 0,
        decreases templates.len() - j,
    {
        if rank[j] == 0 && may_call(templates, calls, i, j) {
            return false;
        }
        j += 1;
    }
    true
}

fn find_ready(templates: &Vec<TemplateSource>, calls: &Vec<Vec<String>>, rank: &Vec<usize>) -> (r:
    Option<usize>)
    requires
        calls_of(templates@, calls@),
        rank.len() == templates.len(),
    ensures
        match r {
            Some(i) => i < templates.len() && rank@[i as int] == 0 && forall|j: int|
                0 <= j < templates.len() && #[trigger] calls_template(templates@, i as int, j)
                    ==> rank@[j] != 0,
            None => stuck(templates@, rank@),
        },
{
    let mut i: usize = 0;
    while i < templates.len()
        invariant
            i <= templates.len(),
            calls_of(templates@, calls@),
            rank.len() == templates.len(),
            forall|k: int|
                0 <= k < i && #[trigger] rank@[k] == 0 ==> exists|j: int|
                    0 <= j < templates.len() && #[trigger] calls_template(templates@, k, j)
                        && rank@[j] == 0,
        decreases templates.len() - i,
    {
        if rank[i] == 0 && is_ready(templates, calls, rank, i) {
            return Some(i);
        }
        i += 1;
    }
    None
}

/// Whether no templates call one another in a circle. A template that calls
/// only templates with a rank is given the next rank, until none is left
/// that can be given one.
pub fn calls_end(templates: &Vec<TemplateSource>, calls: &Vec<Vec<String>>) -> (r: bool)
    requires
        calls_of(templates@, calls@),
    ensures
        r == no_circle(templates@),
{
    let mut rank: Vec<usize> = Vec::new();
    while rank.len() < templates.len()
        invariant
            rank.len() <= templates.len(),
            forall|k: int| 0 <= k < rank@.len() ==> rank@[k] == 0,
        decreases templates.len() - rank.len(),
    {
        rank.push(0);
    }
    let mut step: usize = 0;
    let mut going = true;
    proof {
        lemma_unranked_bound(rank@);
    }
    while going
        invariant
            calls_of(templates@, calls@),
            rank.len() == templates.len(),
            step + unranked(rank@) <= templates.len(),
            forall|i: int| 0 <= i < rank@.len() ==> #[trigger] rank@[i] <= step,
            forall|i: int, j: int|
                0 <= i < templates.len() && 0 <= j < templates.len() && rank@[i] != 0
                    && #[trigger] calls_template(templates@, i, j) ==> rank@[j] != 0 && rank@[j]
                    < rank@[i],
            !going ==> stuck(templates@, rank@),
        decreases unranked(rank@) + if going { 1nat } else { 0nat },
    {
        match find_ready(templates, calls, &rank) {
            Some(i) => {
                proof {
                    lemma_unranked_positive(rank@, i as int);
                    lemma_unranked_update(rank@, i as int, (step + 1) as usize);
                }
                step += 1;
                rank.set(i, step);
            },
            None => {
                going = false;
            },
        }
    }
    let mut z: usize = 0;
    while z < rank.len()
        invariant
            z <= rank.len(),
            rank.len() == templates.len(),
            stuck(templates@, rank@),
            forall|k: int| 0 <= k < z ==> rank@[k] != 0,
        decreases rank.len() - z,
    {
        if rank[z] == 0 {
            proof {
                if no_circle(templates@) {
                    let down = choose|down: Seq<nat>| ranked(templates@, down);
                    lemma_stuck(templates@, rank@, down, z as int, down[z as int]);
                }
            }
            return false;
        }
        z += 1;
    }
    proof {
        let down = Seq::new(rank@.len(), |i: int| rank@[i] as nat);
        assert(ranked(templates@, down));
    }
    true
}

/// The files among `files` that lie under `root` with no hidden component
/// below it, in their order.
pub open spec fn kept(root: Seq<char>, files: Seq<SourceFile>) -> Seq<SourceFile> {
    files.filter(|f: SourceFile| visible_below(f.path@, root))
}

/// `docs` are the documents of the files kept of `files`, one for one.
pub open spec fn documents_of(root: Seq<char>, files: Seq<SourceFile>, docs: Seq<Document>) -> bool {
    &&& docs.len() == kept(root, files).len()
    &&& forall|i: int|
        0 <= i < docs.len() ==> (#[trigger] docs[i]).built_from(
            kept(root, files)[i].path@,
            text_view(kept(root, files)[i].text),
        )
}

/// No hidden file becomes a document: every document of a walk lies under
/// the root, and no component of its path below the root is hidden.
pub proof fn lemma_documents_visible(root: Seq<char>, files: Seq<SourceFile>, docs: Seq<Document>)
    requires
        documents_of(root, files, docs),
    ensures
        forall|i: int| 0 <= i < docs.len() ==> visible_below((#[trigger] docs[i]).source_path@, root),
{
    let pred = |f: SourceFile| visible_below(f.path@, root);
    assert forall|i: int| 0 <= i < docs.len() implies visible_below(
        (#[trigger] docs[i]).source_path@,
        root,
    ) by {
        files.lemma_filter_pred(pred, i);
    }
}

/// No hidden file reaches the site: what a visible document takes goes to
/// the site's root joined with the document's path below the source root,
/// of which no component is hidden; a page has the extension `html` put on.
pub proof fn lemma_site_action_place(doc: Document, web: WebView, action: SiteAction)
    requires
        doc.site_action(web, action),
        visible_below(doc.source_path@, web.in_path),
    ensures
        path_strip_prefix(doc.source_path@, web.in_path) matches Some(rel) && !has_hidden_part(rel)
            && match action {
            SiteAction::Copy { from, to } => to@ == path_join(web.out_path, rel),
            SiteAction::Write { to, html } => to@ == path_with_extension(
                path_join(web.out_path, rel),
                "html"@,
            ),
        },
{
}

/// Among `files`, the first that no document can be built from lies at
/// `path`, and `cause` is the error that building it ends in.
pub open spec fn first_unbuildable(files: Seq<SourceFile>, path: Seq<char>, cause: DocumentError) -> bool {
    exists|i: int|
        0 <= i < files.len() && (#[trigger] files[i]).path@ == path && Document::build_failure(
            files[i].path@,
            text_view(files[i].text),
            cause,
        ) && forall|k: int|
            0 <= k < i ==> !Document::unbuildable(
                (#[trigger] files[k]).path@,
                text_view(files[k].text),
            )
}

/// Builds the documents of a walk of the tree under `root`.
///
/// Files outside `root`, and files with a hidden component below it, are
/// passed over. The first file that no document can be built from ends the
/// work with its error.
pub fn new_doc_list(root: &str, files: &Vec<SourceFile>) -> (r: Result<Vec<Document>, WebError>)
    ensures
        match r {
            Ok(docs) => documents_of(root@, files@, docs@),
            Err(e) => e matches WebError::Document { path, cause } && first_unbuildable(
                kept(root@, files@),
                path@,
                cause,
            ),
        },
{
    let mut docs: Vec<Document> = Vec::new();
    let mut i: usize = 0;
    assert(files@.subrange(0, 0) =~= Seq::<SourceFile>::empty());
    while i < files.len()
        invariant
            i <= files.len(),
            documents_of(root@, files@.subrange(0, i as int), docs@),
        decreases files.len() - i,
    {
        let ghost before = files@.subrange(0, i as int);
        let ghost pred = |f: SourceFile| visible_below(f.path@, root@);
        proof {
            assert(files@.subrange(0, i + 1) =~= before.push(files@[i as int]));
            before.lemma_filter_push(files@[i as int], pred);
        }
        let file = &files[i];
        if is_visible_below(file.path.as_str(), root) {
            match Document::new(file.path.as_str(), file.text.clone()) {
                Ok(doc) => {
                    docs.push(doc);
                },
                Err(cause) => {
                    proof {
                        let n = kept(root@, before).len() as int;
                        let all = files@;
                        assert(all =~= files@.subrange(0, i + 1) + files@.subrange(
                            i + 1,
                            files@.len() as int,
                        ));
                        Seq::filter_distributes_over_add(
                            files@.subrange(0, i + 1),
                            files@.subrange(i + 1, files@.len() as int),
                            pred,
                        );
                        let found = kept(root@, files@);
                        assert(found[n] == files@[i as int]);
                        assert forall|k: int| 0 <= k < n implies !Document::unbuildable(
                            (#[trigger] found[k]).path@,
                            text_view(found[k].text),
                        ) by {
                            assert(found[k] == kept(root@, before)[k]);
                            assert(docs@[k].built_from(found[k].path@, text_view(found[k].text)));
                        }
                    }
                    return Err(WebError::Document { path: file.path.clone(), cause });
                },
            }
        }
        i += 1;
    }
    assert(files@.subrange(0, i as int) =~= files@);
    Ok(docs)
}

/// What copying one entry of a directory tree takes.
#[derive(Debug, PartialEq, Eq)]
pub enum CopyAction {
    /// Make the directory at `path`, with the directories above it.
    MakeDir { path: String },
    /// Copy the file at `from` to `to`.
    CopyFile { from: String, to: String },
}

/// The model of a `CopyAction`.
pub enum CopyActionView {
    MakeDir { path: Seq<char> },
    CopyFile { from: Seq<char>, to: Seq<char> },
}

impl View for CopyAction {
    type V = CopyActionView;

    open spec fn view(&self) -> CopyActionView {
        match self {
            CopyAction::MakeDir { path } => CopyActionView::MakeDir { path: path@ },
            CopyAction::CopyFile { from, to } => CopyActionView::CopyFile { from: from@, to: to@ },
        }
    }
}

/// An entry is copied when it lies under `source` with no hidden component
/// below it and does not have the extension `omit_ext`.
pub open spec fn is_copied(source: Seq<char>, omit_ext: Seq<char>, entry: DirEntry) -> bool {
    visible_below(entry.path@, source) && path_extension(entry.path@) != Some(omit_ext)
}

/// What copying `entry` from under `source` to under `dest` takes: the entry
/// keeps its place relative to the root; a directory is made, anything else
/// is copied.
pub open spec fn copy_of(source: Seq<char>, dest: Seq<char>, entry: DirEntry) -> CopyActionView {
    if entry.is_dir {
        CopyActionView::MakeDir {
            path: path_join(dest, path_strip_prefix(entry.path@, source)->0),
        }
    } else {
        CopyActionView::CopyFile {
            from: entry.path@,
            to: path_join(dest, path_strip_prefix(entry.path@, source)->0),
        }
    }
}

/// What copying the tree under `source` to `dest` takes, entry by entry.
pub open spec fn copy_plan(
    source: Seq<char>,
    dest: Seq<char>,
    omit_ext: Seq<char>,
    entries: Seq<DirEntry>,
) -> Seq<CopyActionView>
    decreases entries.len(),
{
    if entries.len() == 0 {
        Seq::empty()
    } else if is_copied(source, omit_ext, entries.last()) {
        copy_plan(source, dest, omit_ext, entries.drop_last()).push(
            copy_of(source, dest, entries.last()),
        )
    } else {
        copy_plan(source, dest, omit_ext, entries.drop_last())
    }
}

/// The models of a list of actions.
pub open spec fn copy_views(actions: Seq<CopyAction>) -> Seq<CopyActionView> {
    actions.map_values(|a: CopyAction| a@)
}

/// What copying the tree under `source_dir` to `dest_dir` takes, for the
/// entries that a walk of the tree has met: one action for each entry that
/// is neither hidden nor of the extension `omit_ext`, in the order of the walk.
pub fn copy_files(source_dir: &str, dest_dir: &str, omit_ext: &str, entries: &Vec<DirEntry>) -> (r:
    Vec<CopyAction>)
    ensures
        copy_views(r@) == copy_plan(source_dir@, dest_dir@, omit_ext@, entries@),
{
    let mut actions: Vec<CopyAction> = Vec::new();
    let mut i: usize = 0;
    assert(entries@.subrange(0, 0) =~= Seq::<DirEntry>::empty());
    assert(copy_views(actions@) =~= Seq::<CopyActionView>::empty());
    while i < entries.len()
        invariant
            i <= entries.len(),
            copy_views(actions@) == copy_plan(
                source_dir@,
                dest_dir@,
                omit_ext@,
                entries@.subrange(0, i as int),
            ),
        decreases entries.len() - i,
    {
        let entry = &entries[i];
        proof {
            assert(entries@.subrange(0, i + 1).drop_last() =~= entries@.subrange(0, i as int));
            assert(entries@.subrange(0, i + 1).last() == entries@[i as int]);
        }
        let ghost done = copy_views(actions@);
        if !has_extension(entry.path.as_str(), omit_ext) {
            match visible_part(entry.path.as_str(), source_dir) {
                Some(rel) => {
                    let to = join(dest_dir, rel.as_str());
                    let action = if entry.is_dir {
                        CopyAction::MakeDir { path: to }
                    } else {
                        CopyAction::CopyFile { from: entry.path.clone(), to }
                    };
                    actions.push(action);
                    assert(copy_views(actions@) =~= done.push(
                        copy_of(source_dir@, dest_dir@, *entry),
                    ));
                },
                None => {},
            }
        }
        i += 1;
    }
    assert(entries@.subrange(0, i as int) =~= entries@);
    actions
}

/// A run of site generation that has stopped at a document.
#[derive(Debug, PartialEq, Eq)]
pub struct SiteFailure {
    /// The actions of the documents before the one that failed.
    pub done: Vec<SiteAction>,
    /// Why the run has stopped.
    pub error: WebError,
}

/// Each of the first `n` documents of the site `web` can be placed and, if
/// it is a markdown text, rendered.
pub open spec fn site_ready(web: WebView, n: int) -> bool {
    forall|k: int| 0 <= k < n ==> (#[trigger] web.docs[k]).has_site_action(web)
}

/// `actions` are what the first documents of the site `web` take, one for one.
pub open spec fn site_actions(web: WebView, actions: Seq<SiteAction>) -> bool {
    forall|k: int| 0 <= k < actions.len() ==> (#[trigger] web.docs[k]).site_action(web, actions[k])
}

/// What building a site takes is settled by the site: two runs over one
/// site give the same actions, document by document.
pub proof fn lemma_site_actions_unique(web: WebView, first: Seq<SiteAction>, second: Seq<SiteAction>)
    requires
        site_actions(web, first),
        site_actions(web, second),
    ensures
        forall|i: int|
            0 <= i < first.len() && i < second.len() ==> (#[trigger] first[i])@ == second[i]@,
{
    assert forall|i: int| 0 <= i < first.len() && i < second.len() implies (#[trigger] first[i])@
        == second[i]@ by {
        assert(web.docs[i].site_action(web, first[i]));
        assert(web.docs[i].site_action(web, second[i]));
    }
}

/// A site in the making.
pub struct Web<'a> {
    in_path: String,
    out_path: String,
    template_dir_path: String,
    doc_list: Vec<Document>,
    template_registry: Handlebars<'a>,
}

/// The model of a `Web`.
pub struct WebView {
    /// The root of the source tree.
    pub in_path: Seq<char>,
    /// The root of the site.
    pub out_path: Seq<char>,
    /// The directory that the templates were read from.
    pub template_dir_path: Seq<char>,
    /// The documents, in the order of the walk.
    pub docs: Seq<Document>,
    /// The templates, by name.
    pub templates: Map<Seq<char>, Seq<char>>,
}

impl<'a> View for Web<'a> {
    type V = WebView;

    closed spec fn view(&self) -> WebView {
        WebView {
            in_path: self.in_path@,
            out_path: self.out_path@,
            template_dir_path: self.template_dir_path@,
            docs: self.doc_list@,
            templates: registry_templates(self.template_registry),
        }
    }
}

impl<'a> Web<'a> {
    /// Pages are rendered without escaping, rendering comes to an end, and
    /// every document lies under the root with no hidden component below it.
    #[verifier::type_invariant]
    spec fn inv(self) -> bool {
        &&& !registry_escapes(self.template_registry)
        &&& partials_end(registry_templates(self.template_registry))
        &&& forall|i: int|
            0 <= i < self.doc_list@.len() ==> visible_below(
                (#[trigger] self.doc_list@[i]).source_path@,
                self.in_path@,
            )
    }

    /// The root of the source tree.
    pub fn in_path(&self) -> (r: &String)
        ensures
            r@ == self@.in_path,
    {
        &self.in_path
    }

    /// The root of the site.
    pub fn out_path(&self) -> (r: &String)
        ensures
            r@ == self@.out_path,
    {
        &self.out_path
    }

    /// The directory that the templates were read from.
    pub fn template_dir_path(&self) -> (r: &String)
        ensures
            r@ == self@.template_dir_path,
    {
        &self.template_dir_path
    }

    /// Sets up a site: registers the templates, with escaping switched off,
    /// and builds the documents of the files found under `in_path`.
    ///
    /// A template that is not taken, templates that call one another in a
    /// circle, and after that a file that no document can be built from, end
    /// the work with their error. A template is not taken where it does not
    /// compile, or where the partials that it calls cannot be read off it. A
    /// circle is refused because rendering would never come to an end.
    pub fn new(
        in_path: &str,
        out_path: &str,
        templatedir_path: &str,
        templates: &Vec<TemplateSource>,
        files: &Vec<SourceFile>,
    ) -> (r: Result<Web<'a>, WebError>)
        ensures
            match r {
                Ok(web) => {
                    &&& web@.in_path == in_path@
                    &&& web@.out_path == out_path@
                    &&& web@.template_dir_path == templatedir_path@
                    &&& web@.templates == templates_map(templates@)
                    &&& documents_of(in_path@, files@, web@.docs)
                },
                Err(e) => match e {
                    WebError::Template { name, message } => first_broken_template(
                        templates@,
                        name@,
                        false,
                    ),
                    WebError::Partial { name } => first_broken_template(templates@, name@, true),
                    WebError::PartialCircle => all_compile(templates@) && !no_circle(templates@),
                    WebError::Document { path, cause } => all_compile(templates@) && no_circle(
                        templates@,
                    ) && first_unbuildable(kept(in_path@, files@), path@, cause),
                    _ => false,
                },
            },
    {
        let mut registry = new_registry();
        disable_escaping(&mut registry);
        let mut calls: Vec<Vec<String>> = Vec::new();
        let mut i: usize = 0;
        assert(templates@.subrange(0, 0) =~= Seq::<TemplateSource>::empty());
        while i < templates.len()
            invariant
                i <= templates.len(),
                !registry_escapes(registry),
                registry_templates(registry) == templates_map(templates@.subrange(0, i as int)),
                all_compile(templates@.subrange(0, i as int)),
                calls_of(templates@.subrange(0, i as int), calls@),
            decreases templates.len() - i,
        {
            let template = &templates[i];
            assert(templates@.subrange(0, i + 1).drop_last() =~= templates@.subrange(0, i as int));
            let ghost called = calls@;
            match partial_names(template.source.as_str()) {
                Some(names) => {
                    calls.push(names);
                },
                None => {
                    return Err(WebError::Partial { name: template.name.clone() });
                },
            }
            assert(calls_of(templates@.subrange(0, i + 1), calls@)) by {
                assert forall|k: int| 0 <= k < i + 1 implies names_of(
                    templates@.subrange(0, i + 1)[k].source@,
                    (#[trigger] calls@[k])@,
                ) by {
                    if k < i {
                        assert(calls@[k] == called[k]);
                        assert(templates@.subrange(0, i as int)[k] == templates@[k]);
                    }
                }
            }
            match register_template(&mut registry, template.name.as_str(), template.source.as_str()) {
                Ok(()) => {
                    assert forall|k: int| 0 <= k < i + 1 implies template_fits(
                        (#[trigger] templates@.subrange(0, i + 1)[k]).source@,
                    ) by {
                        if k < i {
                            assert(templates@.subrange(0, i as int)[k] == templates@[k]);
                        }
                    }
                },
                Err(e) => {
                    return Err(
                        WebError::Template {
                            name: template.name.clone(),
                            message: template_error_text(&e),
                        },
                    );
                },
            }
            i += 1;
        }
        assert(templates@.subrange(0, i as int) =~= templates@);
        if !calls_end(templates, &calls) {
            return Err(WebError::PartialCircle);
        }
        proof {
            lemma_partials_end(templates@);
        }
        let doc_list = match new_doc_list(in_path, files) {
            Ok(docs) => docs,
            Err(e) => {
                return Err(e);
            },
        };
        proof {
            lemma_documents_visible(in_path@, files@, doc_list@);
        }
        Ok(
            Web {
                in_path: in_path.to_owned(),
                out_path: out_path.to_owned(),
                template_dir_path: templatedir_path.to_owned(),
                doc_list,
                template_registry: registry,
            },
        )
    }

    /// The documents, in the order of the walk. Each lies under the root of
    /// the source tree, and no component of its path below the root is hidden.
    pub fn documents(&self) -> (r: &Vec<Document>)
        ensures
            r@ == self@.docs,
            forall|i: int|
                0 <= i < r@.len() ==> visible_below((#[trigger] r@[i]).source_path@, self@.in_path),
    {
        proof {
            use_type_invariant(self);
        }
        &self.doc_list
    }

    /// Where `doc` goes in the site.
    pub fn outpath(&self, doc: &Document) -> (r: Result<String, DocumentError>)
        ensures
            match crate::util::path::mirrored(doc.source_path@, self@.in_path, self@.out_path) {
                Some(to) => r matches Ok(s) && s@ == to,
                None => r matches Err(DocumentError::OutsideRoot),
            },
    {
        doc.outpath(self.in_path.as_str(), self.out_path.as_str())
    }

    /// The number of documents, which must not be zero.
    pub fn source_directory_has_files(&self) -> (r: Result<usize, WebError>)
        ensures
            match r {
                Ok(n) => n > 0 && n == self@.docs.len(),
                Err(e) => e is NoFiles && self@.docs.len() == 0,
            },
    {
        let num_files = self.doc_list.len();
        if num_files == 0 {
            return Err(WebError::NoFiles);
        }
        Ok(num_files)
    }

    /// What building the site takes: for each document, in order, one action.
    ///
    /// A site needs at least one document. The first document that cannot be
    /// placed or rendered ends the work: the failure holds its error and the
    /// actions of the documents before it, which are to be carried out all
    /// the same. Where every document can be placed and rendered, the work
    /// succeeds.
    pub fn gen_website(&self) -> (r: Result<Vec<SiteAction>, SiteFailure>)
        ensures
            r is Ok <==> self@.docs.len() > 0 && site_ready(self@, self@.docs.len() as int),
            match r {
                Ok(actions) => {
                    &&& actions@.len() == self@.docs.len()
                    &&& site_actions(self@, actions@)
                    &&& forall|i: int|
                        0 <= i < actions@.len() ==> visible_below(
                            (#[trigger] self@.docs[i]).source_path@,
                            self@.in_path,
                        )
                },
                Err(failure) => {
                    &&& failure.done@.len() <= self@.docs.len()
                    &&& site_actions(self@, failure.done@)
                    &&& if self@.docs.len() == 0 {
                        failure.error is NoFiles
                    } else {
                        &&& failure.done@.len() < self@.docs.len()
                        &&& failure.error matches WebError::Document { path, cause }
                        &&& path@ == self@.docs[failure.done@.len() as int].source_path@
                        &&& self@.docs[failure.done@.len() as int].site_failure(self@, cause)
                    }
                },
            },
    {
        let mut actions: Vec<SiteAction> = Vec::new();
        match self.source_directory_has_files() {
            Ok(_) => {},
            Err(error) => {
                return Err(SiteFailure { done: actions, error });
            },
        }
        proof {
            use_type_invariant(self);
        }
        let mut i: usize = 0;
        while i < self.doc_list.len()
            invariant
                i <= self.doc_list.len(),
                self.doc_list@ == self@.docs,
                self@.docs.len() > 0,
                actions@.len() == i,
                site_actions(self@, actions@),
                site_ready(self@, i as int),
            decreases self.doc_list.len() - i,
        {
            let doc = &self.doc_list[i];
            match doc.webgen(self) {
                Ok(action) => {
                    actions.push(action);
                },
                Err(cause) => {
                    let error = WebError::Document { path: doc.source_path.clone(), cause };
                    return Err(SiteFailure { done: actions, error });
                },
            }
            i += 1;
        }
        Ok(actions)
    }

    /// Renders the template `name` from `vars`, without escaping.
    pub(crate) fn render(&self, name: &str, vars: &FrontMatter) -> (r: Result<String, RenderError>)
        ensures
            r matches Ok(page) ==> rendered_page(self@.templates, false, name@, vars@) == Some(
                page@,
            ),
            r is Err ==> rendered_page(self@.templates, false, name@, vars@) is None,
    {
        proof {
            use_type_invariant(self);
        }
        crate::template::render(&self.template_registry, name, vars.pairs())
    }
}

} // verus!
