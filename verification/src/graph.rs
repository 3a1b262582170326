//! The context graph: walking the DAG around a context and describing it as text.
use crate::model::{Context, ContextView, Pool, PoolView};
use crate::text::{decimal, group_views, joined, number_text, views};
use vstd::hash_set::StringHashSet;
use vstd::prelude::*;

verus! {

/// Default depth limit for the walk in each direction.
pub const GRAPH_DEPTH: usize = 10;

// ---------------------------------------------------------------------------
// Walking
// ---------------------------------------------------------------------------

/// The neighbours of a context: its parents, or its children when `forward`.
pub open spec fn links(pool: PoolView, forward: bool, id: Seq<char>) -> Seq<Seq<char>> {
    if forward {
        pool.children(id)
    } else {
        match pool.context(id) {
            Some(c) => c.parents,
            None => Seq::empty(),
        }
    }
}

/// The neighbours of several contexts, in order.
pub open spec fn all_links(pool: PoolView, forward: bool, ids: Seq<Seq<char>>) -> Seq<Seq<char>>
    decreases ids.len(),
{
    if ids.len() == 0 {
        Seq::empty()
    } else {
        all_links(pool, forward, ids.drop_last()) + links(pool, forward, ids.last())
    }
}

/// The ids of `frontier` that are not in `visited`, each at its first place.
pub open spec fn fresh(frontier: Seq<Seq<char>>, visited: Set<Seq<char>>) -> Seq<Seq<char>>
    decreases frontier.len(),
{
    if frontier.len() == 0 {
        Seq::empty()
    } else {
        let rest = fresh(frontier.drop_last(), visited);
        if visited.contains(frontier.last()) || rest.contains(frontier.last()) {
            rest
        } else {
            rest.push(frontier.last())
        }
    }
}

/// The contexts found from `frontier` in at most `depth` steps, nearest first:
/// the fresh ids of the frontier, then those found from their neighbours.
pub open spec fn walked(
    pool: PoolView,
    forward: bool,
    frontier: Seq<Seq<char>>,
    visited: Set<Seq<char>>,
    depth: nat,
) -> Seq<Seq<char>>
    decreases depth,
{
    if depth == 0 || frontier.len() == 0 {
        Seq::empty()
    } else {
        let found = fresh(frontier, visited);
        found + walked(
            pool,
            forward,
            all_links(pool, forward, found),
            visited.union(found.to_set()),
            (depth - 1) as nat,
        )
    }
}

/// The contexts that are listed beside the entry: its ancestors, then its
/// descendants, up to `depth` steps away.
pub open spec fn reachable(pool: PoolView, entry: Seq<char>, depth: nat) -> Seq<Seq<char>> {
    let back = ancestors(pool, entry, depth);
    back + walked(
        pool,
        true,
        links(pool, true, entry),
        set![entry].union(back.to_set()),
        depth,
    )
}

pub open spec fn ancestors(pool: PoolView, entry: Seq<char>, depth: nat) -> Seq<Seq<char>> {
    walked(pool, false, links(pool, false, entry), set![entry], depth)
}

/// The neighbours of one context.
fn links_of(pool: &Pool, forward: bool, id: &str) -> (r: Vec<String>)
    requires
        pool.wf(),
    ensures
        views(r@) == links(pool@, forward, id@),
{
    if forward {
        pool.children(id)
    } else {
        match pool.get_context(id) {
            Some(c) => crate::text::clone_texts(&c.parents),
            None => {
                let r: Vec<String> = Vec::new();
                assert(views(r@) =~= Seq::<Seq<char>>::empty());
                r
            },
        }
    }
}

/// Mark the fresh ids of `frontier` as visited and return them.
#[verifier::loop_isolation(false)]
fn visit(frontier: &Vec<String>, visited: &mut StringHashSet) -> (r: Vec<String>)
    ensures
        views(r@) == fresh(views(frontier@), old(visited)@),
        final(visited)@ == old(visited)@.union(views(r@).to_set()),
{
    broadcast use group_views;

    let mut r: Vec<String> = Vec::new();
    let mut i: usize = 0;
    let ghost all = views(frontier@);
    let ghost start = visited@;
    assert(start =~= start.union(views(r@).to_set()));
    while i < frontier.len()
        invariant
            i <= frontier.len(),
            views(r@) == fresh(all.take(i as int), start),
            visited@ == start.union(views(r@).to_set()),
        decreases frontier.len() - i,
    {
        let ghost seen = views(r@);
        assert(all.take(i + 1).drop_last() =~= all.take(i as int));
        assert(all.take(i + 1).last() == frontier@[i as int]@);
        assert(visited@.contains(frontier@[i as int]@) <==> start.contains(frontier@[i as int]@)
            || seen.contains(frontier@[i as int]@));
        let ghost before = visited@;
        if visited.insert(frontier[i].clone()) {
            r.push(frontier[i].clone());
            proof {
                let id = frontier@[i as int]@;
                assert(views(r@) == seen.push(id));
                assert forall|x: Seq<char>|
                    start.union(seen.push(id).to_set()).contains(x) <==> #[trigger] before.insert(
                        id,
                    ).contains(x) by {
                    if seen.contains(x) {
                        let k = choose|k: int| 0 <= k < seen.len() && seen[k] == x;
                        assert(seen.push(id)[k] == x);
                    }
                    if x == id {
                        assert(seen.push(id)[seen.len() as int] == id);
                    }
                    if seen.push(id).contains(x) && x != id {
                        let k = choose|k: int| 0 <= k < seen.push(id).len() && seen.push(id)[k] == x;
                        assert(seen[k] == x);
                    }
                }
                assert(visited@ =~= start.union(views(r@).to_set()));
            }
        } else {
            assert(visited@ =~= before);
        }
        i += 1;
    }
    assert(all.take(i as int) =~= all);
    r
}

/// The neighbours of several contexts.
#[verifier::loop_isolation(false)]
fn links_of_all(pool: &Pool, forward: bool, ids: &Vec<String>) -> (r: Vec<String>)
    requires
        pool.wf(),
    ensures
        views(r@) == all_links(pool@, forward, views(ids@)),
{
    broadcast use group_views;

    let mut r: Vec<String> = Vec::new();
    let mut i: usize = 0;
    let ghost all = views(ids@);
    while i < ids.len()
        invariant
            i <= ids.len(),
            views(r@) == all_links(pool@, forward, all.take(i as int)),
        decreases ids.len() - i,
    {
        assert(all.take(i + 1).drop_last() =~= all.take(i as int));
        assert(all.take(i + 1).last() == ids@[i as int]@);
        let mut more = links_of(pool, forward, ids[i].as_str());
        let ghost a = r@;
        let ghost b = more@;
        r.append(&mut more);
        assert(views(r@) =~= views(a) + views(b));
        i += 1;
    }
    assert(all.take(i as int) =~= all);
    r
}

/// Walk breadth first from `frontier`, marking what is found as visited.
#[verifier::loop_isolation(false)]
fn walk(
    pool: &Pool,
    forward: bool,
    frontier: Vec<String>,
    visited: &mut StringHashSet,
    depth: usize,
) -> (r: Vec<String>)
    requires
        pool.wf(),
    ensures
        views(r@) == walked(pool@, forward, views(frontier@), old(visited)@, depth as nat),
        final(visited)@ == old(visited)@.union(views(r@).to_set()),
{
    broadcast use group_views;

    let mut r: Vec<String> = Vec::new();
    let mut front = frontier;
    let mut left: usize = depth;
    let ghost start = visited@;
    let ghost whole = walked(pool@, forward, views(front@), start, depth as nat);
    proof {
        assert(start =~= start.union(views(r@).to_set()));
        assert(views(r@) + whole =~= whole);
    }
    while left > 0 && front.len() > 0
        invariant
            whole == views(r@) + walked(pool@, forward, views(front@), visited@, left as nat),
            visited@ == start.union(views(r@).to_set()),
        decreases left,
    {
        let ghost was = visited@;
        let ghost before = r@;
        let mut found = visit(&front, visited);
        let ghost f = found@;
        let next = links_of_all(pool, forward, &found);
        r.append(&mut found);
        proof {
            assert(views(r@) =~= views(before) + views(f));
            let tail = walked(pool@, forward, views(next@), visited@, (left - 1) as nat);
            assert(walked(pool@, forward, views(front@), was, left as nat) == views(f) + tail);
            assert(views(before) + (views(f) + tail) =~= views(r@) + tail);
            assert(visited@ =~= start.union(views(r@).to_set())) by {
                lemma_to_set_concat(views(before), views(f));
            }
        }
        front = next;
        left = left - 1;
    }
    assert(views(r@) + Seq::<Seq<char>>::empty() =~= views(r@));
    r
}

proof fn lemma_to_set_concat(a: Seq<Seq<char>>, b: Seq<Seq<char>>)
    ensures
        (a + b).to_set() == a.to_set().union(b.to_set()),
{
    assert forall|x: Seq<char>| (a + b).to_set().contains(x) <==> #[trigger] a.to_set().union(
        b.to_set(),
    ).contains(x) by {
        if a.contains(x) {
            let k = choose|k: int| 0 <= k < a.len() && a[k] == x;
            assert((a + b)[k] == x);
        }
        if b.contains(x) {
            let k = choose|k: int| 0 <= k < b.len() && b[k] == x;
            assert((a + b)[a.len() + k] == x);
        }
        if (a + b).contains(x) {
            let k = choose|k: int| 0 <= k < (a + b).len() && (a + b)[k] == x;
            if k < a.len() {
                assert(a[k] == x);
            } else {
                assert(b[k - a.len()] == x);
            }
        }
    }
    assert((a + b).to_set() =~= a.to_set().union(b.to_set()));
}

/// The contexts around `entry`: ancestors first, then descendants.
pub fn reachable_contexts(pool: &Pool, entry: &Context, depth: usize) -> (r: Vec<String>)
    requires
        pool.wf(),
        pool@.context(entry@.id) == Some(entry@),
    ensures
        views(r@) == reachable(pool@, entry@.id, depth as nat),
{
    let mut visited = StringHashSet::new();
    visited.insert(entry.id.clone());
    assert(visited@ =~= set![entry@.id]);
    let parents = links_of(pool, false, entry.id.as_str());
    let mut r = walk(pool, false, parents, &mut visited, depth);
    let ghost back = r@;
    let children = links_of(pool, true, entry.id.as_str());
    let mut ahead = walk(pool, true, children, &mut visited, depth);
    let ghost fwd = ahead@;
    r.append(&mut ahead);
    assert(views(r@) =~= views(back) + views(fwd));
    r
}

// ---------------------------------------------------------------------------
// Differences between message lists
// ---------------------------------------------------------------------------

/// The items that are not in `other`, in order.
pub open spec fn without(items: Seq<Seq<char>>, other: Seq<Seq<char>>) -> Seq<Seq<char>>
    decreases items.len(),
{
    if items.len() == 0 {
        Seq::empty()
    } else if other.contains(items.last()) {
        without(items.drop_last(), other)
    } else {
        without(items.drop_last(), other).push(items.last())
    }
}

/// What a context added to, and removed from, the messages of its parent.
pub struct MessageDiff {
    pub added: Vec<String>,
    pub removed: Vec<String>,
}

#[verifier::loop_isolation(false)]
fn items_without(items: &Vec<String>, other: &Vec<String>) -> (r: Vec<String>)
    ensures
        views(r@) == without(views(items@), views(other@)),
{
    broadcast use group_views;

    let mut known = StringHashSet::new();
    let mut k: usize = 0;
    let ghost others = views(other@);
    assert(known@ =~= others.take(0).to_set());
    while k < other.len()
        invariant
            k <= other.len(),
            known@ == others.take(k as int).to_set(),
        decreases other.len() - k,
    {
        proof {
            let a = others.take(k as int);
            let b = seq![others[k as int]];
            assert(others.take(k + 1) =~= a + b);
            lemma_to_set_concat(a, b);
            assert(b.to_set() =~= set![others[k as int]]) by {
                assert(b[0] == others[k as int]);
            }
        }
        let ghost before = known@;
        known.insert(other[k].clone());
        assert(known@ =~= before.union(set![others[k as int]]));
        k += 1;
    }
    assert(others.take(k as int) =~= others);
    let mut r: Vec<String> = Vec::new();
    let mut i: usize = 0;
    let ghost all = views(items@);
    while i < items.len()
        invariant
            i <= items.len(),
            views(r@) == without(all.take(i as int), others),
        decreases items.len() - i,
    {
        assert(all.take(i + 1).drop_last() =~= all.take(i as int));
        assert(all.take(i + 1).last() == items@[i as int]@);
        assert(known@.contains(items@[i as int]@) <==> others.contains(items@[i as int]@));
        if !known.contains(items[i].as_str()) {
            r.push(items[i].clone());
        }
        i += 1;
    }
    assert(all.take(i as int) =~= all);
    r
}

/// Compute added and removed message ids between a parent and a child context.
pub fn diff_message_lists(parent: &Vec<String>, child: &Vec<String>) -> (r: MessageDiff)
    ensures
        views(r.added@) == without(views(child@), views(parent@)),
        views(r.removed@) == without(views(parent@), views(child@)),
{
    MessageDiff { added: items_without(child, parent), removed: items_without(parent, child) }
}

// ---------------------------------------------------------------------------
// Formatting
// ---------------------------------------------------------------------------

/// `<id> (entry) <- <parent>, <parent>`: the marker for the entry only, the
/// arrow only where there are parents.
pub open spec fn header_text(id: Seq<char>, parents: Seq<Seq<char>>, is_entry: bool) -> Seq<char> {
    id + (if is_entry {
        " (entry)"@
    } else {
        Seq::empty()
    }) + (if parents.len() > 0 {
        " <- "@ + joined(parents, ", "@)
    } else {
        Seq::empty()
    }) + "\n"@
}

/// One line for a message: a lead, the id and, where the message is known, its
/// summary.
pub open spec fn message_line(pool: PoolView, lead: Seq<char>, id: Seq<char>) -> Seq<char> {
    lead + id + (match pool.message(id) {
        Some(m) => " "@ + m.summary,
        None => Seq::empty(),
    }) + "\n"@
}

pub open spec fn message_lines(pool: PoolView, lead: Seq<char>, ids: Seq<Seq<char>>) -> Seq<char>
    decreases ids.len(),
{
    if ids.len() == 0 {
        Seq::empty()
    } else {
        message_lines(pool, lead, ids.drop_last()) + message_line(pool, lead, ids.last())
    }
}

pub open spec fn list_text(pool: PoolView, ids: Seq<Seq<char>>) -> Seq<char> {
    if ids.len() == 0 {
        "  (no messages)\n"@
    } else {
        message_lines(pool, "  "@, ids)
    }
}

pub open spec fn diff_text(
    pool: PoolView,
    vs_id: Seq<char>,
    added: Seq<Seq<char>>,
    removed: Seq<Seq<char>>,
) -> Seq<char> {
    if added.len() == 0 && removed.len() == 0 {
        "  (no changes)\n"@
    } else {
        "  diff vs "@ + vs_id + "\n"@ + message_lines(pool, "  + "@, added) + message_lines(
            pool,
            "  - "@,
            removed,
        )
    }
}

/// What is said of a context beside the entry: the difference from its first
/// parent where that is known, else its full list.
pub open spec fn body_text(pool: PoolView, context: ContextView) -> Seq<char> {
    if context.parents.len() > 0 && pool.context(context.parents[0]) is Some {
        let parent = pool.context(context.parents[0])->0;
        diff_text(
            pool,
            context.parents[0],
            without(context.messages, parent.messages),
            without(parent.messages, context.messages),
        )
    } else {
        list_text(pool, context.messages)
    }
}

pub open spec fn node_text(pool: PoolView, id: Seq<char>) -> Seq<char> {
    match pool.context(id) {
        Some(c) => "\n"@ + header_text(id, c.parents, false) + body_text(pool, c),
        None => "\n"@ + header_text(id, Seq::empty(), false) + "  (not loaded)\n"@,
    }
}

pub open spec fn node_texts(pool: PoolView, ids: Seq<Seq<char>>) -> Seq<char>
    decreases ids.len(),
{
    if ids.len() == 0 {
        Seq::empty()
    } else {
        node_texts(pool, ids.drop_last()) + node_text(pool, ids.last())
    }
}

/// The description of the graph around `entry`: a title, the entry with its full
/// message list, then the contexts around it.
pub open spec fn graph_text(pool: PoolView, entry: ContextView, depth: nat) -> Seq<char> {
    let ids = reachable(pool, entry.id, depth);
    "CONTEXT GRAPH entry="@ + entry.id + " count="@ + decimal(1 + ids.len()) + "\n"@ + "\n"@
        + header_text(entry.id, entry.parents, true) + list_text(pool, entry.messages) + node_texts(
        pool,
        ids,
    )
}

/// Write a context header line to the output buffer.
pub fn format_context_header(out: &mut String, id: &str, parents: &Vec<String>, is_entry: bool)
    ensures
        final(out)@ == old(out)@ + header_text(id@, views(parents@), is_entry),
{
    out.append(id);
    if is_entry {
        out.append(" (entry)");
    }
    if parents.len() > 0 {
        out.append(" <- ");
        let list = crate::text::join(parents, ", ");
        out.append(list.as_str());
    }
    out.append("\n");
    assert(out@ =~= old(out)@ + header_text(id@, views(parents@), is_entry));
}

fn format_message_line(out: &mut String, pool: &Pool, lead: &str, id: &str)
    ensures
        final(out)@ == old(out)@ + message_line(pool@, lead@, id@),
{
    out.append(lead);
    out.append(id);
    if let Some(m) = pool.get_message(id) {
        out.append(" ");
        out.append(m.summary.as_str());
    }
    out.append("\n");
    assert(out@ =~= old(out)@ + message_line(pool@, lead@, id@));
}

#[verifier::loop_isolation(false)]
fn format_message_lines(out: &mut String, pool: &Pool, lead: &str, ids: &Vec<String>)
    ensures
        final(out)@ == old(out)@ + message_lines(pool@, lead@, views(ids@)),
{
    let ghost all = views(ids@);
    let ghost start = out@;
    let mut i: usize = 0;
    assert(start + message_lines(pool@, lead@, all.take(0)) =~= start);
    while i < ids.len()
        invariant
            i <= ids.len(),
            out@ == start + message_lines(pool@, lead@, all.take(i as int)),
        decreases ids.len() - i,
    {
        assert(all.take(i + 1).drop_last() =~= all.take(i as int));
        assert(all.take(i + 1).last() == ids@[i as int]@);
        format_message_line(out, pool, lead, ids[i].as_str());
        assert(out@ =~= start + message_lines(pool@, lead@, all.take(i + 1)));
        i += 1;
    }
    assert(all.take(i as int) =~= all);
}

/// Write indented message lines with summaries, or a note for an empty list.
pub fn format_message_list(out: &mut String, pool: &Pool, messages: &Vec<String>)
    ensures
        final(out)@ == old(out)@ + list_text(pool@, views(messages@)),
{
    if messages.len() == 0 {
        out.append("  (no messages)\n");
    } else {
        format_message_lines(out, pool, "  ", messages);
    }
}

/// Write a block of added (`+`) and removed (`-`) messages with summaries.
pub fn format_diff(
    out: &mut String,
    pool: &Pool,
    vs_id: &str,
    added: &Vec<String>,
    removed: &Vec<String>,
)
    ensures
        final(out)@ == old(out)@ + diff_text(pool@, vs_id@, views(added@), views(removed@)),
{
    if added.len() == 0 && removed.len() == 0 {
        out.append("  (no changes)\n");
        return;
    }
    out.append("  diff vs ");
    out.append(vs_id);
    out.append("\n");
    format_message_lines(out, pool, "  + ", added);
    format_message_lines(out, pool, "  - ", removed);
    assert(out@ =~= old(out)@ + diff_text(pool@, vs_id@, views(added@), views(removed@)));
}

fn format_node(out: &mut String, pool: &Pool, id: &str)
    requires
        pool.wf(),
    ensures
        final(out)@ == old(out)@ + node_text(pool@, id@),
{
    out.append("\n");
    match pool.get_context(id) {
        None => {
            let none: Vec<String> = Vec::new();
            assert(views(none@) =~= Seq::<Seq<char>>::empty());
            format_context_header(out, id, &none, false);
            out.append("  (not loaded)\n");
        },
        Some(ctx) => {
            format_context_header(out, id, &ctx.parents, false);
            if ctx.parents.len() > 0 {
                let parent_id = ctx.parents[0].as_str();
                assert(ctx@.parents[0] == parent_id@);
                match pool.get_context(parent_id) {
                    Some(parent) => {
                        let diff = diff_message_lists(&parent.messages, &ctx.messages);
                        format_diff(out, pool, parent_id, &diff.added, &diff.removed);
                    },
                    None => {
                        format_message_list(out, pool, &ctx.messages);
                    },
                }
            } else {
                format_message_list(out, pool, &ctx.messages);
            }
        },
    }
    assert(out@ =~= old(out)@ + node_text(pool@, id@));
}

/// Describe the graph around `entry` as compact text.
#[verifier::loop_isolation(false)]
pub fn describe_graph(pool: &Pool, entry: &Context, depth: usize) -> (r: String)
    requires
        pool.wf(),
        pool@.context(entry@.id) == Some(entry@),
    ensures
        r@ == graph_text(pool@, entry@, depth as nat),
{
    let ids = reachable_contexts(pool, entry, depth);
    let total: u128 = 1 + ids.len() as u128;
    let mut out = "CONTEXT GRAPH entry=".to_string();
    out.append(entry.id.as_str());
    out.append(" count=");
    let count = number_text(total);
    out.append(count.as_str());
    out.append("\n");
    out.append("\n");
    format_context_header(&mut out, entry.id.as_str(), &entry.parents, true);
    format_message_list(&mut out, pool, &entry.messages);
    let ghost head = out@;
    let ghost all = views(ids@);
    let mut i: usize = 0;
    assert(head + node_texts(pool@, all.take(0)) =~= head);
    while i < ids.len()
        invariant
            i <= ids.len(),
            out@ == head + node_texts(pool@, all.take(i as int)),
        decreases ids.len() - i,
    {
        assert(all.take(i + 1).drop_last() =~= all.take(i as int));
        assert(all.take(i + 1).last() == ids@[i as int]@);
        format_node(&mut out, pool, ids[i].as_str());
        assert(out@ =~= head + node_texts(pool@, all.take(i + 1)));
        i += 1;
    }
    assert(all.take(i as int) =~= all);
    out
}

} // verus!
