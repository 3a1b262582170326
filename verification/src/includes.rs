//! Expanding `{{include:file}}` directives in prompt text.
//!
//! The files are looked up beforehand; a [`FileTree`] holds what was found. Paths
//! are lists of components.
use crate::text::{chars_of, find_from, first_from, same, slice, trim, trimmed, views};
use vstd::prelude::*;

verus! {

/// The components of a path.
pub struct PathKey {
    pub parts: Vec<String>,
}

impl View for PathKey {
    type V = Seq<Seq<char>>;

    open spec fn view(&self) -> Seq<Seq<char>> {
        views(self.parts@)
    }
}

impl Clone for PathKey {
    fn clone(&self) -> (r: Self)
        ensures
            r@ == self@,
    {
        PathKey { parts: crate::text::clone_texts(&self.parts) }
    }
}

/// Where a target leads from a directory.
pub struct Link {
    pub dir: PathKey,
    pub target: String,
    pub path: PathKey,
}

#[verifier::ext_equal]
pub struct LinkView {
    pub dir: Seq<Seq<char>>,
    pub target: Seq<char>,
    pub path: Seq<Seq<char>>,
}

impl View for Link {
    type V = LinkView;

    open spec fn view(&self) -> LinkView {
        LinkView { dir: self.dir@, target: self.target@, path: self.path@ }
    }
}

/// A file that can be read, and the directory it is in.
pub struct SourceFile {
    pub path: PathKey,
    pub dir: PathKey,
    pub content: String,
}

#[verifier::ext_equal]
pub struct SourceView {
    pub path: Seq<Seq<char>>,
    pub dir: Seq<Seq<char>>,
    pub content: Seq<char>,
}

impl View for SourceFile {
    type V = SourceView;

    open spec fn view(&self) -> SourceView {
        SourceView { path: self.path@, dir: self.dir@, content: self.content@ }
    }
}

/// What is known of the files: where targets lead, and what files hold.
pub struct FileTree {
    pub links: Vec<Link>,
    pub files: Vec<SourceFile>,
}

#[verifier::ext_equal]
pub struct TreeView {
    pub links: Seq<LinkView>,
    pub files: Seq<SourceView>,
}

impl View for FileTree {
    type V = TreeView;

    open spec fn view(&self) -> TreeView {
        TreeView { links: views(self.links@), files: views(self.files@) }
    }
}

/// The first link from a directory under a target.
pub open spec fn link_in(
    links: Seq<LinkView>,
    dir: Seq<Seq<char>>,
    target: Seq<char>,
) -> Option<Seq<Seq<char>>>
    decreases links.len(),
{
    if links.len() == 0 {
        None
    } else if links[0].dir == dir && links[0].target == target {
        Some(links[0].path)
    } else {
        link_in(links.drop_first(), dir, target)
    }
}

/// The first file under a path.
pub open spec fn file_in(files: Seq<SourceView>, path: Seq<Seq<char>>) -> Option<SourceView>
    decreases files.len(),
{
    if files.len() == 0 {
        None
    } else if files[0].path == path {
        Some(files[0])
    } else {
        file_in(files.drop_first(), path)
    }
}

/// How many of the files are not among `visited`.
pub open spec fn unvisited(files: Seq<SourceView>, visited: Seq<Seq<Seq<char>>>) -> nat
    decreases files.len(),
{
    if files.len() == 0 {
        0
    } else {
        unvisited(files.drop_first(), visited) + if visited.contains(files[0].path) {
            0nat
        } else {
            1nat
        }
    }
}

pub proof fn lemma_unvisited_drops(
    files: Seq<SourceView>,
    visited: Seq<Seq<Seq<char>>>,
    path: Seq<Seq<char>>,
)
    ensures
        unvisited(files, visited.push(path)) <= unvisited(files, visited),
        file_in(files, path) is Some && !visited.contains(path) ==> unvisited(
            files,
            visited.push(path),
        ) < unvisited(files, visited),
    decreases files.len(),
{
    if files.len() > 0 {
        lemma_unvisited_drops(files.drop_first(), visited, path);
        let p = files[0].path;
        let more = visited.push(path);
        if visited.contains(p) {
            let k = choose|k: int| 0 <= k < visited.len() && visited[k] == p;
            assert(more[k] == p);
        }
        if more.contains(p) && p != path {
            let k = choose|k: int| 0 <= k < more.len() && more[k] == p;
            assert(visited[k] == p);
        }
        assert(more[visited.len() as int] == path);
    }
}

pub open spec fn opening() -> Seq<char> {
    "{{include:"@
}

pub open spec fn closing() -> Seq<char> {
    "}}"@
}

/// A directive: the text before it, its target, and the text after it.
pub struct DirectiveView {
    pub before: Seq<char>,
    pub target: Seq<char>,
    pub after: Seq<char>,
}

/// The first directive in a text.
pub open spec fn directive(content: Seq<char>) -> Option<DirectiveView> {
    match first_from(content, opening(), 0) {
        None => None,
        Some(open) => {
            let rest = content.skip(open + opening().len());
            match first_from(rest, closing(), 0) {
                None => None,
                Some(close) => Some(
                    DirectiveView {
                        before: content.take(open),
                        target: trimmed(rest.take(close)),
                        after: rest.skip(close + closing().len()),
                    },
                ),
            }
        },
    }
}

pub proof fn lemma_directive(content: Seq<char>)
    ensures
        directive(content) matches Some(d) ==> d.after.len() < content.len() && d.before.len()
            <= content.len(),
{
    reveal_strlit("{{include:");
    reveal_strlit("}}");
    crate::text::lemma_first_from(content, opening(), 0);
    match first_from(content, opening(), 0) {
        None => {},
        Some(open) => {
            let rest = content.skip(open + opening().len());
            crate::text::lemma_first_from(rest, closing(), 0);
        },
    }
}

/// `<!-- include error: .. -->`
pub open spec fn include_error(what: Seq<char>) -> Seq<char> {
    "<!-- include error: "@ + what + " -->"@
}

/// A text with its directives replaced by what the files hold, directives in those
/// replaced likewise. `visited` holds the files that are being expanded.
pub open spec fn expanded(
    tree: TreeView,
    content: Seq<char>,
    dir: Seq<Seq<char>>,
    boundary: Seq<Seq<char>>,
    visited: Seq<Seq<Seq<char>>>,
) -> Seq<char>
    decreases unvisited(tree.files, visited), content.len(), 1nat,
{
    match directive(content) {
        None => content,
        Some(d) => {
            proof {
                lemma_directive(content);
            }
            d.before + included(tree, content, d.target, dir, boundary, visited) + expanded(
                tree,
                d.after,
                dir,
                boundary,
                visited,
            )
        },
    }
}

/// What a directive is replaced by. `content` is the text that it stands in.
pub open spec fn included(
    tree: TreeView,
    content: Seq<char>,
    target: Seq<char>,
    dir: Seq<Seq<char>>,
    boundary: Seq<Seq<char>>,
    visited: Seq<Seq<Seq<char>>>,
) -> Seq<char>
    decreases unvisited(tree.files, visited), content.len(), 0nat,
{
    if target.len() == 0 {
        include_error("empty target"@)
    } else {
        match link_in(tree.links, dir, target) {
            None => include_error("not found "@ + target),
            Some(path) => if !boundary.is_prefix_of(path) {
                include_error("boundary"@)
            } else if visited.contains(path) {
                include_error("cycle "@ + target)
            } else {
                match file_in(tree.files, path) {
                    None => include_error("read"@),
                    Some(file) => {
                        proof {
                            lemma_unvisited_drops(tree.files, visited, path);
                        }
                        expanded(tree, file.content, file.dir, boundary, visited.push(path))
                    },
                }
            },
        }
    }
}

/// A directive in a text.
pub struct Directive {
    pub before: String,
    pub target: String,
    pub after: String,
}

impl View for Directive {
    type V = DirectiveView;

    open spec fn view(&self) -> DirectiveView {
        DirectiveView { before: self.before@, target: self.target@, after: self.after@ }
    }
}

/// Find the first directive in a text.
pub fn find_directive(content: &str) -> (r: Option<Directive>)
    ensures
        crate::text::opt_view(r) == directive(content@),
{
    let chars = chars_of(content);
    let open_mark = chars_of("{{include:");
    let close_mark = chars_of("}}");
    let open = match find_from(&chars, &open_mark, 0) {
        Some(i) => i,
        None => {
            return None;
        },
    };
    let start: usize = open + open_mark.len();
    let rest = chars_of(slice(&chars, start, chars.len()).as_str());
    assert(rest@ =~= chars@.skip(start as int));
    let close = match find_from(&rest, &close_mark, 0) {
        Some(i) => i,
        None => {
            return None;
        },
    };
    let end: usize = close + close_mark.len();
    assert(chars@.subrange(0, open as int) =~= chars@.take(open as int));
    assert(rest@.subrange(0, close as int) =~= rest@.take(close as int));
    assert(rest@.subrange(end as int, rest@.len() as int) =~= rest@.skip(end as int));
    let target = trim(slice(&rest, 0, close).as_str());
    Some(
        Directive {
            before: slice(&chars, 0, open),
            target,
            after: slice(&rest, end, rest.len()),
        },
    )
}

fn same_path(a: &PathKey, b: &PathKey) -> (r: bool)
    ensures
        r == (a@ == b@),
{
    starts_with_path(a, b) && a.parts.len() == b.parts.len()
}

/// Whether `path` is `prefix` or lies under it.
pub fn starts_with_path(path: &PathKey, prefix: &PathKey) -> (r: bool)
    ensures
        r == prefix@.is_prefix_of(path@),
        r && path@.len() == prefix@.len() <==> path@ == prefix@,
{
    if prefix.parts.len() > path.parts.len() {
        return false;
    }
    let mut i: usize = 0;
    while i < prefix.parts.len()
        invariant
            i <= prefix.parts.len() <= path.parts.len(),
            forall|j: int| 0 <= j < i ==> path@[j] == prefix@[j],
        decreases prefix.parts.len() - i,
    {
        assert(path@[i as int] == path.parts@[i as int]@);
        assert(prefix@[i as int] == prefix.parts@[i as int]@);
        if !same(path.parts[i].as_str(), prefix.parts[i].as_str()) {
            return false;
        }
        i += 1;
    }
    proof {
        if path@.len() == prefix@.len() {
            assert(path@ =~= prefix@);
        }
    }
    true
}

#[verifier::loop_isolation(false)]
fn find_link<'a>(tree: &'a FileTree, dir: &PathKey, target: &str) -> (r: Option<&'a PathKey>)
    ensures
        match r {
            Some(p) => link_in(tree@.links, dir@, target@) == Some(p@),
            None => link_in(tree@.links, dir@, target@) is None,
        },
{
    let ghost all = tree@.links;
    let mut i: usize = 0;
    assert(all.skip(0) =~= all);
    while i < tree.links.len()
        invariant
            i <= tree.links.len(),
            link_in(all, dir@, target@) == link_in(all.skip(i as int), dir@, target@),
        decreases tree.links.len() - i,
    {
        assert(all.skip(i as int)[0] == tree.links@[i as int]@);
        assert(all.skip(i as int).drop_first() =~= all.skip(i + 1));
        if same_path(&tree.links[i].dir, dir) && same(tree.links[i].target.as_str(), target) {
            return Some(&tree.links[i].path);
        }
        i += 1;
    }
    None
}

#[verifier::loop_isolation(false)]
fn find_file<'a>(tree: &'a FileTree, path: &PathKey) -> (r: Option<&'a SourceFile>)
    ensures
        match r {
            Some(f) => file_in(tree@.files, path@) == Some(f@),
            None => file_in(tree@.files, path@) is None,
        },
{
    let ghost all = tree@.files;
    let mut i: usize = 0;
    assert(all.skip(0) =~= all);
    while i < tree.files.len()
        invariant
            i <= tree.files.len(),
            file_in(all, path@) == file_in(all.skip(i as int), path@),
        decreases tree.files.len() - i,
    {
        assert(all.skip(i as int)[0] == tree.files@[i as int]@);
        assert(all.skip(i as int).drop_first() =~= all.skip(i + 1));
        if same_path(&tree.files[i].path, path) {
            return Some(&tree.files[i]);
        }
        i += 1;
    }
    None
}

fn is_visited(visited: &Vec<PathKey>, path: &PathKey) -> (r: bool)
    ensures
        r == views(visited@).contains(path@),
{
    let ghost all = views(visited@);
    let mut i: usize = 0;
    while i < visited.len()
        invariant
            i <= visited.len(),
            all == views(visited@),
            forall|j: int| 0 <= j < i ==> all[j] != path@,
        decreases visited.len() - i,
    {
        assert(all[i as int] == visited@[i as int]@);
        if same_path(&visited[i], path) {
            return true;
        }
        i += 1;
    }
    false
}

fn error_comment(what: &str, target: &str) -> (r: String)
    ensures
        r@ == include_error(what@ + target@),
{
    let mut out = "<!-- include error: ".to_string();
    out.append(what);
    out.append(target);
    out.append(" -->");
    assert(out@ =~= include_error(what@ + target@));
    out
}

fn error_note(what: &str) -> (r: String)
    ensures
        r@ == include_error(what@),
{
    let mut out = "<!-- include error: ".to_string();
    out.append(what);
    out.append(" -->");
    out
}

/// Replace the directives in a text. `visited` holds the files that are being
/// expanded, and is left as it was.
#[verifier::loop_isolation(false)]
pub fn expand_includes(
    tree: &FileTree,
    content: &str,
    base_dir: &PathKey,
    boundary: &PathKey,
    visited: &mut Vec<PathKey>,
) -> (r: String)
    ensures
        r@ == expanded(tree@, content@, base_dir@, boundary@, views(old(visited)@)),
        views(final(visited)@) == views(old(visited)@),
    decreases unvisited(tree@.files, views(old(visited)@)), 1nat,
{
    let ghost stack = views(visited@);
    let ghost whole = expanded(tree@, content@, base_dir@, boundary@, stack);
    let mut result = String::new();
    let mut rest = content.to_string();
    assert(result@ + whole =~= whole);
    loop
        invariant
            views(visited@) == stack,
            whole == result@ + expanded(tree@, rest@, base_dir@, boundary@, stack),
        decreases rest@.len(),
    {
        let d = match find_directive(rest.as_str()) {
            Some(d) => d,
            None => {
                result.append(rest.as_str());
                return result;
            },
        };
        proof {
            lemma_directive(rest@);
        }
        let ghost before = result@;
        let replacement = resolve_include(
            tree,
            d.target.as_str(),
            base_dir,
            boundary,
            visited,
            Ghost(rest@),
        );
        result.append(d.before.as_str());
        result.append(replacement.as_str());
        assert(result@ + expanded(tree@, d.after@, base_dir@, boundary@, stack) =~= before + (
        d.before@ + replacement@ + expanded(tree@, d.after@, base_dir@, boundary@, stack)));
        rest = d.after;
    }
}

fn resolve_include(
    tree: &FileTree,
    target: &str,
    base_dir: &PathKey,
    boundary: &PathKey,
    visited: &mut Vec<PathKey>,
    Ghost(content): Ghost<Seq<char>>,
) -> (r: String)
    ensures
        r@ == included(tree@, content, target@, base_dir@, boundary@, views(old(visited)@)),
        views(final(visited)@) == views(old(visited)@),
    decreases unvisited(tree@.files, views(old(visited)@)), 0nat,
{
    broadcast use crate::text::group_views;

    if target.is_empty() {
        return error_note("empty target");
    }
    let path = match find_link(tree, base_dir, target) {
        Some(p) => p,
        None => {
            return error_comment("not found ", target);
        },
    };
    if !starts_with_path(path, boundary) {
        return error_note("boundary");
    }
    if is_visited(visited, path) {
        return error_comment("cycle ", target);
    }
    let file = match find_file(tree, path) {
        Some(f) => f,
        None => {
            return error_note("read");
        },
    };
    let ghost stack = views(visited@);
    proof {
        lemma_unvisited_drops(tree@.files, stack, path@);
    }
    visited.push(path.clone());
    let r = expand_includes(tree, file.content.as_str(), &file.dir, boundary, visited);
    let ghost full = visited@;
    let _ = visited.pop();
    proof {
        assert(views(full) == stack.push(path@));
        assert(views(visited@) =~= views(full).drop_last());
        assert(stack.push(path@).drop_last() =~= stack);
    }
    r
}

// ---------------------------------------------------------------------------
// What has to be looked up
// ---------------------------------------------------------------------------

/// The targets of the directives in a text, in order.
pub open spec fn targets(content: Seq<char>) -> Seq<Seq<char>>
    decreases content.len(),
{
    match directive(content) {
        None => Seq::empty(),
        Some(d) => {
            proof {
                lemma_directive(content);
            }
            seq![d.target] + targets(d.after)
        },
    }
}

/// The targets that a text asks for, so that they can be looked up.
#[verifier::loop_isolation(false)]
pub fn include_targets(content: &str) -> (r: Vec<String>)
    ensures
        views(r@) == targets(content@),
{
    broadcast use crate::text::group_views;

    let ghost whole = targets(content@);
    let mut r: Vec<String> = Vec::new();
    let mut rest = content.to_string();
    assert(views(r@) + whole =~= whole);
    loop
        invariant
            whole == views(r@) + targets(rest@),
        decreases rest@.len(),
    {
        let d = match find_directive(rest.as_str()) {
            Some(d) => d,
            None => {
                assert(views(r@) + targets(rest@) =~= views(r@));
                return r;
            },
        };
        proof {
            lemma_directive(rest@);
            assert(views(r@) + (seq![d.target@] + targets(d.after@)) =~= views(r@).push(d.target@)
                + targets(d.after@));
        }
        r.push(d.target);
        rest = d.after;
    }
}

// ---------------------------------------------------------------------------
// Laws
// ---------------------------------------------------------------------------

/// A text without directives stays as it is.
pub proof fn law_plain_text_is_kept(
    tree: TreeView,
    content: Seq<char>,
    dir: Seq<Seq<char>>,
    boundary: Seq<Seq<char>>,
    visited: Seq<Seq<Seq<char>>>,
)
    requires
        first_from(content, opening(), 0) is None,
    ensures
        expanded(tree, content, dir, boundary, visited) == content,
{
}

/// A file that is being expanded is not included again: the directive becomes a
/// note about the cycle.
pub proof fn law_cycles_are_cut(
    tree: TreeView,
    content: Seq<char>,
    target: Seq<char>,
    dir: Seq<Seq<char>>,
    boundary: Seq<Seq<char>>,
    visited: Seq<Seq<Seq<char>>>,
    path: Seq<Seq<char>>,
)
    requires
        target.len() > 0,
        link_in(tree.links, dir, target) == Some(path),
        boundary.is_prefix_of(path),
        visited.contains(path),
    ensures
        included(tree, content, target, dir, boundary, visited) == include_error(
            "cycle "@ + target,
        ),
{
}

/// Whether two trees agree on where targets lead and on the files inside the
/// boundary.
pub open spec fn agree_inside(a: TreeView, b: TreeView, boundary: Seq<Seq<char>>) -> bool {
    &&& a.links == b.links
    &&& forall|path: Seq<Seq<char>>|
        boundary.is_prefix_of(path) ==> #[trigger] file_in(a.files, path) == file_in(b.files, path)
}

/// Nothing outside the boundary gets into the text: what files outside it hold
/// makes no difference.
pub proof fn law_boundary_is_kept(
    a: TreeView,
    b: TreeView,
    content: Seq<char>,
    dir: Seq<Seq<char>>,
    boundary: Seq<Seq<char>>,
    visited: Seq<Seq<Seq<char>>>,
)
    requires
        agree_inside(a, b, boundary),
    ensures
        expanded(a, content, dir, boundary, visited) == expanded(
            b,
            content,
            dir,
            boundary,
            visited,
        ),
    decreases unvisited(a.files, visited), content.len(), 1nat,
{
    match directive(content) {
        None => {},
        Some(d) => {
            lemma_directive(content);
            lemma_included_inside(a, b, content, d.target, dir, boundary, visited);
            law_boundary_is_kept(a, b, d.after, dir, boundary, visited);
        },
    }
}

proof fn lemma_included_inside(
    a: TreeView,
    b: TreeView,
    content: Seq<char>,
    target: Seq<char>,
    dir: Seq<Seq<char>>,
    boundary: Seq<Seq<char>>,
    visited: Seq<Seq<Seq<char>>>,
)
    requires
        agree_inside(a, b, boundary),
    ensures
        included(a, content, target, dir, boundary, visited) == included(
            b,
            content,
            target,
            dir,
            boundary,
            visited,
        ),
    decreases unvisited(a.files, visited), content.len(), 0nat,
{
    match link_in(a.links, dir, target) {
        None => {},
        Some(path) => {
            if boundary.is_prefix_of(path) && !visited.contains(path) {
                assert(file_in(a.files, path) == file_in(b.files, path));
                match file_in(a.files, path) {
                    None => {},
                    Some(file) => {
                        lemma_unvisited_drops(a.files, visited, path);
                        lemma_unvisited_drops(b.files, visited, path);
                        law_boundary_is_kept(
                            a,
                            b,
                            file.content,
                            file.dir,
                            boundary,
                            visited.push(path),
                        );
                    },
                }
            }
        },
    }
}

/// Whether `part` stands in `text` at `i` and nowhere before.
pub open spec fn first_at(text: Seq<char>, part: Seq<char>, i: int) -> bool {
    &&& 0 <= i
    &&& i + part.len() <= text.len()
    &&& text.subrange(i, i + part.len()) == part
    &&& forall|j: int| 0 <= j < i ==> !#[trigger] crate::text::occurs_at(text, part, j)
}

/// Whether a text is `before`, a directive around `raw`, the first there is, and `after`.
pub open spec fn has_directive(
    text: Seq<char>,
    before: Seq<char>,
    raw: Seq<char>,
    after: Seq<char>,
) -> bool {
    &&& text == before + "{{include:"@ + raw + "}}"@ + after
    &&& first_at(text, "{{include:"@, before.len() as int)
    &&& first_at(raw + "}}"@ + after, "}}"@, raw.len() as int)
}

proof fn lemma_has_directive(
    text: Seq<char>,
    before: Seq<char>,
    raw: Seq<char>,
    after: Seq<char>,
)
    requires
        has_directive(text, before, raw, after),
    ensures
        directive(text) == Some(DirectiveView { before, target: trimmed(raw), after }),
{
    let open = before.len() as int;
    crate::text::law_first_is_found(text, opening(), 0, open);
    let rest = text.skip(open + opening().len());
    assert(rest =~= raw + "}}"@ + after);
    crate::text::law_first_is_found(rest, closing(), 0, raw.len() as int);
    assert(text.take(open) =~= before);
    assert(rest.take(raw.len() as int) =~= raw);
    assert(rest.skip(raw.len() as int + closing().len()) =~= after);
}

/// Whether a target leads from a directory to a path, by the first link that says so.
pub open spec fn leads_to(
    tree: TreeView,
    dir: Seq<Seq<char>>,
    target: Seq<char>,
    path: Seq<Seq<char>>,
) -> bool {
    exists|k: int|
        {
            &&& 0 <= k < tree.links.len()
            &&& #[trigger] tree.links[k] == LinkView { dir, target, path }
            &&& forall|j: int|
                0 <= j < k ==> !((#[trigger] tree.links[j]).dir == dir && tree.links[j].target
                    == target)
        }
}

proof fn lemma_leads_to(links: Seq<LinkView>, dir: Seq<Seq<char>>, target: Seq<char>, k: int)
    requires
        0 <= k < links.len(),
        links[k].dir == dir,
        links[k].target == target,
        forall|j: int|
            0 <= j < k ==> !((#[trigger] links[j]).dir == dir && links[j].target == target),
    ensures
        link_in(links, dir, target) == Some(links[k].path),
    decreases k,
{
    if k > 0 {
        let rest = links.drop_first();
        assert(!(links[0].dir == dir && links[0].target == target));
        assert forall|j: int| 0 <= j < k - 1 implies !((#[trigger] rest[j]).dir == dir
            && rest[j].target == target) by {
            assert(rest[j] == links[j + 1]);
        }
        lemma_leads_to(rest, dir, target, k - 1);
    }
}

proof fn lemma_leads_nowhere(links: Seq<LinkView>, dir: Seq<Seq<char>>, target: Seq<char>)
    requires
        forall|j: int|
            0 <= j < links.len() ==> !((#[trigger] links[j]).dir == dir && links[j].target
                == target),
    ensures
        link_in(links, dir, target) is None,
    decreases links.len(),
{
    if links.len() > 0 {
        let rest = links.drop_first();
        assert(!(links[0].dir == dir && links[0].target == target));
        assert forall|j: int| 0 <= j < rest.len() implies !((#[trigger] rest[j]).dir == dir
            && rest[j].target == target) by {
            assert(rest[j] == links[j + 1]);
        }
        lemma_leads_nowhere(rest, dir, target);
    }
}

/// Whether a file is the first under its path.
pub open spec fn holds_file(tree: TreeView, file: SourceView) -> bool {
    exists|k: int|
        {
            &&& 0 <= k < tree.files.len()
            &&& #[trigger] tree.files[k] == file
            &&& forall|j: int| 0 <= j < k ==> (#[trigger] tree.files[j]).path != file.path
        }
}

proof fn lemma_holds_file(files: Seq<SourceView>, k: int)
    requires
        0 <= k < files.len(),
        forall|j: int| 0 <= j < k ==> (#[trigger] files[j]).path != files[k].path,
    ensures
        file_in(files, files[k].path) == Some(files[k]),
    decreases k,
{
    if k > 0 {
        let rest = files.drop_first();
        assert(files[0].path != files[k].path);
        assert forall|j: int| 0 <= j < k - 1 implies (#[trigger] rest[j]).path != rest[k
            - 1].path by {
            assert(rest[j] == files[j + 1]);
        }
        lemma_holds_file(rest, k - 1);
    }
}

/// A directive whose target leads to a file inside the boundary that is not being expanded
/// is replaced by what that file holds, expanded from the file's own directory. The text
/// before it stays, and the text after it is expanded from where it stands.
pub proof fn law_files_are_included(
    tree: TreeView,
    text: Seq<char>,
    before: Seq<char>,
    raw: Seq<char>,
    after: Seq<char>,
    dir: Seq<Seq<char>>,
    boundary: Seq<Seq<char>>,
    visited: Seq<Seq<Seq<char>>>,
    file: SourceView,
)
    requires
        has_directive(text, before, raw, after),
        trimmed(raw).len() > 0,
        leads_to(tree, dir, trimmed(raw), file.path),
        boundary.is_prefix_of(file.path),
        !visited.contains(file.path),
        holds_file(tree, file),
    ensures
        expanded(tree, text, dir, boundary, visited) == before + expanded(
            tree,
            file.content,
            file.dir,
            boundary,
            visited.push(file.path),
        ) + expanded(tree, after, dir, boundary, visited),
{
    lemma_has_directive(text, before, raw, after);
    let target = trimmed(raw);
    let k = choose|k: int|
        {
            &&& 0 <= k < tree.links.len()
            &&& #[trigger] tree.links[k] == LinkView { dir, target, path: file.path }
            &&& forall|j: int|
                0 <= j < k ==> !((#[trigger] tree.links[j]).dir == dir && tree.links[j].target
                    == target)
        };
    lemma_leads_to(tree.links, dir, target, k);
    let m = choose|m: int|
        {
            &&& 0 <= m < tree.files.len()
            &&& #[trigger] tree.files[m] == file
            &&& forall|j: int| 0 <= j < m ==> (#[trigger] tree.files[j]).path != file.path
        };
    lemma_holds_file(tree.files, m);
    lemma_directive(text);
    lemma_unvisited_drops(tree.files, visited, file.path);
    assert(included(tree, text, target, dir, boundary, visited) == expanded(
        tree,
        file.content,
        file.dir,
        boundary,
        visited.push(file.path),
    ));
}

/// What replaces a directive depends on where its target leads, and not otherwise on the
/// directory of the text it stands in.
pub proof fn law_replacement_depends_on_the_path(
    tree: TreeView,
    text: Seq<char>,
    raw: Seq<char>,
    dir: Seq<Seq<char>>,
    other: Seq<Seq<char>>,
    path: Seq<Seq<char>>,
    boundary: Seq<Seq<char>>,
    visited: Seq<Seq<Seq<char>>>,
)
    requires
        has_directive(text, Seq::empty(), raw, Seq::empty()),
        leads_to(tree, dir, trimmed(raw), path),
        leads_to(tree, other, trimmed(raw), path),
    ensures
        expanded(tree, text, dir, boundary, visited) == expanded(
            tree,
            text,
            other,
            boundary,
            visited,
        ),
{
    lemma_has_directive(text, Seq::empty(), raw, Seq::empty());
    let target = trimmed(raw);
    let k = choose|k: int|
        {
            &&& 0 <= k < tree.links.len()
            &&& #[trigger] tree.links[k] == LinkView { dir, target, path }
            &&& forall|j: int|
                0 <= j < k ==> !((#[trigger] tree.links[j]).dir == dir && tree.links[j].target
                    == target)
        };
    lemma_leads_to(tree.links, dir, target, k);
    let m = choose|m: int|
        {
            &&& 0 <= m < tree.links.len()
            &&& #[trigger] tree.links[m] == LinkView { dir: other, target, path }
            &&& forall|j: int|
                0 <= j < m ==> !((#[trigger] tree.links[j]).dir == other && tree.links[j].target
                    == target)
        };
    lemma_leads_to(tree.links, other, target, m);
    lemma_empty_has_no_directive();
    lemma_directive(text);
    let none = Seq::<char>::empty();
    assert(expanded(tree, none, dir, boundary, visited) == none);
    assert(expanded(tree, none, other, boundary, visited) == none);
    assert(included(tree, text, target, dir, boundary, visited) == included(
        tree,
        text,
        target,
        other,
        boundary,
        visited,
    ));
}

proof fn lemma_empty_has_no_directive()
    ensures
        directive(Seq::empty()) is None,
{
    reveal_strlit("{{include:");
    assert(opening().len() > 0);
}

/// A directive that cannot be followed is replaced by a note that says why, and which
/// target it was: none is named, the target leads nowhere, out of the boundary, or to a
/// file that is being expanded.
pub proof fn law_failed_includes_say_why(
    tree: TreeView,
    text: Seq<char>,
    before: Seq<char>,
    raw: Seq<char>,
    after: Seq<char>,
    dir: Seq<Seq<char>>,
    boundary: Seq<Seq<char>>,
    visited: Seq<Seq<Seq<char>>>,
)
    requires
        has_directive(text, before, raw, after),
    ensures
        ({
            let target = trimmed(raw);
            let rest = expanded(tree, after, dir, boundary, visited);
            let all = expanded(tree, text, dir, boundary, visited);
            &&& target.len() == 0 ==> all == before + "<!-- include error: empty target -->"@ + rest
            &&& target.len() > 0 && (forall|k: int|
                0 <= k < tree.links.len() ==> !((#[trigger] tree.links[k]).dir == dir
                    && tree.links[k].target == target)) ==> all == before + (
            "<!-- include error: not found "@ + target + " -->"@) + rest
            &&& target.len() > 0 ==> forall|path: Seq<Seq<char>>| #[trigger]
                leads_to(tree, dir, target, path) && !boundary.is_prefix_of(path) ==> all
                    == before + "<!-- include error: boundary -->"@ + rest
            &&& target.len() > 0 ==> forall|path: Seq<Seq<char>>| #[trigger]
                leads_to(tree, dir, target, path) && boundary.is_prefix_of(path)
                    && visited.contains(path) ==> all == before + (
                "<!-- include error: cycle "@ + target + " -->"@) + rest
        }),
{
    lemma_has_directive(text, before, raw, after);
    let target = trimmed(raw);
    reveal_strlit("<!-- include error: ");
    reveal_strlit(" -->");
    reveal_strlit("empty target");
    reveal_strlit("not found ");
    reveal_strlit("boundary");
    reveal_strlit("cycle ");
    reveal_strlit("<!-- include error: empty target -->");
    reveal_strlit("<!-- include error: not found ");
    reveal_strlit("<!-- include error: boundary -->");
    reveal_strlit("<!-- include error: cycle ");
    assert(include_error("empty target"@) =~= "<!-- include error: empty target -->"@);
    assert(include_error("boundary"@) =~= "<!-- include error: boundary -->"@);
    assert(include_error("not found "@ + target) =~= "<!-- include error: not found "@ + target
        + " -->"@);
    assert(include_error("cycle "@ + target) =~= "<!-- include error: cycle "@ + target
        + " -->"@);
    if forall|k: int|
        0 <= k < tree.links.len() ==> !((#[trigger] tree.links[k]).dir == dir
            && tree.links[k].target == target) {
        lemma_leads_nowhere(tree.links, dir, target);
    }
    assert forall|path: Seq<Seq<char>>| #[trigger] leads_to(tree, dir, target, path) implies link_in(
        tree.links,
        dir,
        target,
    ) == Some(path) by {
        let k = choose|k: int|
            {
                &&& 0 <= k < tree.links.len()
                &&& #[trigger] tree.links[k] == LinkView { dir, target, path }
                &&& forall|j: int|
                    0 <= j < k ==> !((#[trigger] tree.links[j]).dir == dir
                        && tree.links[j].target == target)
            };
        lemma_leads_to(tree.links, dir, target, k);
    }
    lemma_directive(text);
    let made = included(tree, text, target, dir, boundary, visited);
    let rest = expanded(tree, after, dir, boundary, visited);
    assert(expanded(tree, text, dir, boundary, visited) == before + made + rest);
    if target.len() == 0 {
        assert(made == include_error("empty target"@));
    } else {
        assert(link_in(tree.links, dir, target) is None ==> made == include_error(
            "not found "@ + target,
        ));
        assert(link_in(tree.links, dir, target) matches Some(path) ==> (!boundary.is_prefix_of(path)
            ==> made == include_error("boundary"@)) && (boundary.is_prefix_of(path)
            && visited.contains(path) ==> made == include_error("cycle "@ + target)));
    }
}

/// What has to be looked up for a text is the target of each of its directives, in order.
pub proof fn law_targets_are_those_of_the_directives(
    text: Seq<char>,
    before: Seq<char>,
    raw: Seq<char>,
    after: Seq<char>,
)
    requires
        has_directive(text, before, raw, after),
    ensures
        targets(text).len() == 1 + targets(after).len(),
        targets(text)[0] == trimmed(raw),
        targets(text).skip(1) == targets(after),
{
    lemma_has_directive(text, before, raw, after);
    lemma_directive(text);
    assert(targets(text).skip(1) =~= targets(after));
}

} // verus!
