//! What holds of every walk through the context graph.
use crate::graph::{
    all_links, ancestors, body_text, diff_text, fresh, graph_text, header_text, links, list_text,
    message_lines, node_text, node_texts, reachable, walked, without,
};
use crate::model::{ContextView, PoolView};
use crate::survey::lemma_children;
use crate::text::{decimal, joined, lemma_occurs, lemma_occurs_within, occurs};
use vstd::prelude::*;

verus! {

/// Whether `to` is `steps` links away from `from`.
pub open spec fn reaches(
    pool: PoolView,
    forward: bool,
    from: Seq<char>,
    to: Seq<char>,
    steps: nat,
) -> bool
    decreases steps,
{
    if steps == 0 {
        from == to
    } else {
        exists|mid: Seq<char>| #[trigger]
            links(pool, forward, from).contains(mid) && reaches(
                pool,
                forward,
                mid,
                to,
                (steps - 1) as nat,
            )
    }
}

/// Whether `to` is `steps` links away from `from` along contexts outside `avoid`.
/// The start may lie in `avoid`.
pub open spec fn reaches_avoiding(
    pool: PoolView,
    forward: bool,
    from: Seq<char>,
    to: Seq<char>,
    steps: nat,
    avoid: Set<Seq<char>>,
) -> bool
    decreases steps,
{
    if steps == 0 {
        from == to
    } else {
        exists|mid: Seq<char>|
            #![trigger links(pool, forward, from).contains(mid)]
            links(pool, forward, from).contains(mid) && !avoid.contains(mid) && reaches_avoiding(
                pool,
                forward,
                mid,
                to,
                (steps - 1) as nat,
                avoid,
            )
    }
}

proof fn lemma_fresh(frontier: Seq<Seq<char>>, visited: Set<Seq<char>>)
    ensures
        fresh(frontier, visited).no_duplicates(),
        forall|x: Seq<char>| #[trigger]
            fresh(frontier, visited).contains(x) <==> frontier.contains(x) && !visited.contains(x),
    decreases frontier.len(),
{
    if frontier.len() > 0 {
        let rest = fresh(frontier.drop_last(), visited);
        let last = frontier.last();
        lemma_fresh(frontier.drop_last(), visited);
        let all = fresh(frontier, visited);
        assert forall|x: Seq<char>| #[trigger] all.contains(x) <==> frontier.contains(x)
            && !visited.contains(x) by {
            if frontier.contains(x) && x != last {
                let k = choose|k: int| 0 <= k < frontier.len() && frontier[k] == x;
                assert(frontier.drop_last()[k] == x);
            }
            if frontier.drop_last().contains(x) {
                let k = choose|k: int|
                    0 <= k < frontier.drop_last().len() && frontier.drop_last()[k] == x;
                assert(frontier[k] == x);
            }
            assert(frontier[frontier.len() - 1] == last);
            assert(frontier.contains(last));
            if rest.contains(x) {
                let k = choose|k: int| 0 <= k < rest.len() && rest[k] == x;
                assert(all[k] == x);
            }
            if all.contains(x) && x != last {
                let k = choose|k: int| 0 <= k < all.len() && all[k] == x;
                assert(rest[k] == x);
            }
            if !visited.contains(last) && !rest.contains(last) {
                assert(all[all.len() - 1] == last);
            }
            if all.contains(last) && visited.contains(last) {
                assert(rest.contains(last));
                assert(false);
            }
        }
    }
}

proof fn lemma_all_links(pool: PoolView, forward: bool, ids: Seq<Seq<char>>, x: Seq<char>)
    ensures
        all_links(pool, forward, ids).contains(x) <==> exists|id: Seq<char>|
            #![trigger links(pool, forward, id)]
            ids.contains(id) && links(pool, forward, id).contains(x),
    decreases ids.len(),
{
    if ids.len() > 0 {
        let rest = ids.drop_last();
        let last = ids.last();
        lemma_all_links(pool, forward, rest, x);
        let a = all_links(pool, forward, rest);
        let b = links(pool, forward, last);
        assert(ids[ids.len() - 1] == last);
        if all_links(pool, forward, ids).contains(x) {
            let k = choose|k: int| 0 <= k < (a + b).len() && (a + b)[k] == x;
            if k < a.len() {
                assert(a[k] == x);
                let id = choose|id: Seq<char>|
                    #![trigger links(pool, forward, id)]
                    rest.contains(id) && links(pool, forward, id).contains(x);
                let j = choose|j: int| 0 <= j < rest.len() && rest[j] == id;
                assert(ids[j] == id);
                assert(ids.contains(id) && links(pool, forward, id).contains(x));
            } else {
                assert(b[k - a.len()] == x);
                assert(ids.contains(last) && links(pool, forward, last).contains(x));
            }
        }
        if exists|id: Seq<char>|
            #![trigger links(pool, forward, id)]
            ids.contains(id) && links(pool, forward, id).contains(x) {
            let id = choose|id: Seq<char>|
                #![trigger links(pool, forward, id)]
                ids.contains(id) && links(pool, forward, id).contains(x);
            let j = choose|j: int| 0 <= j < ids.len() && ids[j] == id;
            if j == ids.len() - 1 {
                let k = choose|k: int| 0 <= k < b.len() && b[k] == x;
                assert((a + b)[a.len() + k] == x);
            } else {
                assert(rest[j] == id);
                assert(rest.contains(id) && links(pool, forward, id).contains(x));
                let k = choose|k: int| 0 <= k < a.len() && a[k] == x;
                assert((a + b)[k] == x);
            }
        }
    }
}

/// A walk lists no context twice and none that was visited before.
pub proof fn law_walk_lists_once(
    pool: PoolView,
    forward: bool,
    frontier: Seq<Seq<char>>,
    visited: Set<Seq<char>>,
    depth: nat,
)
    ensures
        walked(pool, forward, frontier, visited, depth).no_duplicates(),
        forall|x: Seq<char>| #[trigger]
            walked(pool, forward, frontier, visited, depth).contains(x) ==> !visited.contains(x),
    decreases depth,
{
    if depth > 0 && frontier.len() > 0 {
        lemma_fresh(frontier, visited);
        let found = fresh(frontier, visited);
        let next = all_links(pool, forward, found);
        let seen = visited.union(found.to_set());
        law_walk_lists_once(pool, forward, next, seen, (depth - 1) as nat);
        let rest = walked(pool, forward, next, seen, (depth - 1) as nat);
        let all = found + rest;
        assert(walked(pool, forward, frontier, visited, depth) == all);
        assert forall|i: int, j: int| 0 <= i < j < all.len() implies all[i] != all[j] by {
            if i < found.len() && j >= found.len() {
                assert(found.contains(all[i]));
                assert(rest[j - found.len()] == all[j]);
                assert(rest.contains(all[j]));
                assert(!seen.contains(all[j]));
            } else if i >= found.len() {
                assert(rest[i - found.len()] != rest[j - found.len()]);
            }
        }
        assert forall|x: Seq<char>| #[trigger] all.contains(x) implies !visited.contains(x) by {
            let k = choose|k: int| 0 <= k < all.len() && all[k] == x;
            if k < found.len() {
                assert(found[k] == x);
                assert(found.contains(x));
            } else {
                assert(rest[k - found.len()] == x);
                assert(rest.contains(x));
                assert(!seen.contains(x));
            }
        }
    }
}

/// The listing around an entry names each context once and never the entry itself.
pub proof fn law_listing_once(pool: PoolView, entry: Seq<char>, depth: nat)
    ensures
        reachable(pool, entry, depth).no_duplicates(),
        !reachable(pool, entry, depth).contains(entry),
{
    let back = ancestors(pool, entry, depth);
    let seen = set![entry].union(back.to_set());
    let ahead = walked(pool, true, links(pool, true, entry), seen, depth);
    law_walk_lists_once(pool, false, links(pool, false, entry), set![entry], depth);
    law_walk_lists_once(pool, true, links(pool, true, entry), seen, depth);
    let all = back + ahead;
    assert forall|i: int, j: int| 0 <= i < j < all.len() implies all[i] != all[j] by {
        if i < back.len() && j >= back.len() {
            assert(back.contains(all[i]));
            assert(ahead[j - back.len()] == all[j]);
            assert(ahead.contains(all[j]));
            assert(!seen.contains(all[j]));
        } else if i >= back.len() {
            assert(ahead[i - back.len()] != ahead[j - back.len()]);
        }
    }
    if all.contains(entry) {
        let k = choose|k: int| 0 <= k < all.len() && all[k] == entry;
        if k < back.len() {
            assert(back[k] == entry);
            assert(back.contains(entry));
            assert(set![entry].contains(entry));
        } else {
            assert(ahead[k - back.len()] == entry);
            assert(ahead.contains(entry));
            assert(seen.contains(entry));
        }
        assert(false);
    }
}

/// Whatever a walk lists is at most `depth - 1` links from its frontier.
pub proof fn law_walk_sound(
    pool: PoolView,
    forward: bool,
    frontier: Seq<Seq<char>>,
    visited: Set<Seq<char>>,
    depth: nat,
    to: Seq<char>,
)
    requires
        walked(pool, forward, frontier, visited, depth).contains(to),
    ensures
        exists|from: Seq<char>, steps: nat|
            frontier.contains(from) && steps < depth && #[trigger] reaches(
                pool,
                forward,
                from,
                to,
                steps,
            ),
    decreases depth,
{
    lemma_fresh(frontier, visited);
    let found = fresh(frontier, visited);
    let next = all_links(pool, forward, found);
    let seen = visited.union(found.to_set());
    let rest = walked(pool, forward, next, seen, (depth - 1) as nat);
    let all = found + rest;
    let k = choose|k: int| 0 <= k < all.len() && all[k] == to;
    if k < found.len() {
        assert(found[k] == to);
        assert(found.contains(to));
        assert(reaches(pool, forward, to, to, 0));
    } else {
        assert(rest[k - found.len()] == to);
        assert(rest.contains(to));
        law_walk_sound(pool, forward, next, seen, (depth - 1) as nat, to);
        let (mid, steps) = choose|from: Seq<char>, steps: nat|
            next.contains(from) && steps < depth - 1 && #[trigger] reaches(
                pool,
                forward,
                from,
                to,
                steps,
            );
        lemma_all_links(pool, forward, found, mid);
        let id = choose|id: Seq<char>|
            #![trigger links(pool, forward, id)]
            found.contains(id) && links(pool, forward, id).contains(mid);
        assert(reaches(pool, forward, id, to, steps + 1));
    }
}

/// Whatever is listed around an entry is an ancestor or a descendant of it, at
/// most `depth` links away.
pub proof fn law_listing_sound(pool: PoolView, entry: Seq<char>, depth: nat, to: Seq<char>)
    requires
        reachable(pool, entry, depth).contains(to),
    ensures
        exists|forward: bool, steps: nat|
            1 <= steps <= depth && #[trigger] reaches(pool, forward, entry, to, steps),
{
    let back = ancestors(pool, entry, depth);
    let seen = set![entry].union(back.to_set());
    let ahead = walked(pool, true, links(pool, true, entry), seen, depth);
    let all = back + ahead;
    let k = choose|k: int| 0 <= k < all.len() && all[k] == to;
    let forward = k >= back.len();
    if forward {
        assert(ahead[k - back.len()] == to);
        assert(ahead.contains(to));
        law_walk_sound(pool, true, links(pool, true, entry), seen, depth, to);
    } else {
        assert(back[k] == to);
        assert(back.contains(to));
        law_walk_sound(pool, false, links(pool, false, entry), set![entry], depth, to);
    }
    let (from, steps) = choose|from: Seq<char>, steps: nat|
        links(pool, forward, entry).contains(from) && steps < depth && #[trigger] reaches(
            pool,
            forward,
            from,
            to,
            steps,
        );
    assert(reaches(pool, forward, entry, to, steps + 1));
}

/// A path that starts outside `found` stays outside it, or some suffix of it
/// starts in `found`.
proof fn lemma_leave(
    pool: PoolView,
    forward: bool,
    from: Seq<char>,
    to: Seq<char>,
    steps: nat,
    visited: Set<Seq<char>>,
    found: Set<Seq<char>>,
)
    requires
        reaches_avoiding(pool, forward, from, to, steps, visited),
    ensures
        reaches_avoiding(pool, forward, from, to, steps, visited.union(found)) || exists|
            y: Seq<char>,
            m: nat,
        |
            found.contains(y) && m < steps && #[trigger] reaches_avoiding(
                pool,
                forward,
                y,
                to,
                m,
                visited,
            ),
    decreases steps,
{
    if steps > 0 {
        let mid = choose|mid: Seq<char>|
            #![trigger links(pool, forward, from).contains(mid)]
            links(pool, forward, from).contains(mid) && !visited.contains(mid) && reaches_avoiding(
                pool,
                forward,
                mid,
                to,
                (steps - 1) as nat,
                visited,
            );
        if found.contains(mid) {
            assert(reaches_avoiding(pool, forward, mid, to, (steps - 1) as nat, visited));
        } else {
            lemma_leave(pool, forward, mid, to, (steps - 1) as nat, visited, found);
            if reaches_avoiding(
                pool,
                forward,
                mid,
                to,
                (steps - 1) as nat,
                visited.union(found),
            ) {
                assert(links(pool, forward, from).contains(mid) && !visited.union(found).contains(
                    mid,
                ));
                assert(reaches_avoiding(pool, forward, from, to, steps, visited.union(found)));
            } else {
                let (y, m) = choose|y: Seq<char>, m: nat|
                    found.contains(y) && m < steps - 1 && #[trigger] reaches_avoiding(
                        pool,
                        forward,
                        y,
                        to,
                        m,
                        visited,
                    );
                assert(found.contains(y) && m < steps && reaches_avoiding(
                    pool,
                    forward,
                    y,
                    to,
                    m,
                    visited,
                ));
            }
        }
    }
}

/// A path from `found` ends in it, or leaves it for good at some link.
proof fn lemma_last_found(
    pool: PoolView,
    forward: bool,
    from: Seq<char>,
    to: Seq<char>,
    steps: nat,
    visited: Set<Seq<char>>,
    found: Set<Seq<char>>,
)
    requires
        found.contains(from),
        reaches_avoiding(pool, forward, from, to, steps, visited),
    ensures
        found.contains(to) || exists|g: Seq<char>, mid: Seq<char>, m: nat|
            found.contains(g) && #[trigger] links(pool, forward, g).contains(mid)
                && !visited.union(found).contains(mid) && m < steps && #[trigger] reaches_avoiding(
                pool,
                forward,
                mid,
                to,
                m,
                visited.union(found),
            ),
    decreases steps,
{
    if steps > 0 {
        let mid = choose|mid: Seq<char>|
            #![trigger links(pool, forward, from).contains(mid)]
            links(pool, forward, from).contains(mid) && !visited.contains(mid) && reaches_avoiding(
                pool,
                forward,
                mid,
                to,
                (steps - 1) as nat,
                visited,
            );
        if found.contains(mid) {
            lemma_last_found(pool, forward, mid, to, (steps - 1) as nat, visited, found);
            if !found.contains(to) {
                let (g, n, m) = choose|g: Seq<char>, n: Seq<char>, m: nat|
                    found.contains(g) && #[trigger] links(pool, forward, g).contains(n)
                        && !visited.union(found).contains(n) && m < steps - 1
                        && #[trigger] reaches_avoiding(
                        pool,
                        forward,
                        n,
                        to,
                        m,
                        visited.union(found),
                    );
                assert(found.contains(g) && links(pool, forward, g).contains(n)
                    && !visited.union(found).contains(n) && m < steps && reaches_avoiding(
                    pool,
                    forward,
                    n,
                    to,
                    m,
                    visited.union(found),
                ));
            }
        } else {
            lemma_leave(pool, forward, mid, to, (steps - 1) as nat, visited, found);
            let seen = visited.union(found);
            if reaches_avoiding(pool, forward, mid, to, (steps - 1) as nat, seen) {
                assert(links(pool, forward, from).contains(mid));
                assert(!seen.contains(mid));
            } else {
                let (y, m) = choose|y: Seq<char>, m: nat|
                    found.contains(y) && m < steps - 1 && #[trigger] reaches_avoiding(
                        pool,
                        forward,
                        y,
                        to,
                        m,
                        visited,
                    );
                lemma_last_found(pool, forward, y, to, m, visited, found);
                if !found.contains(to) {
                    let (g, n, k) = choose|g: Seq<char>, n: Seq<char>, k: nat|
                        found.contains(g) && #[trigger] links(pool, forward, g).contains(n)
                            && !seen.contains(n) && k < m && #[trigger] reaches_avoiding(
                            pool,
                            forward,
                            n,
                            to,
                            k,
                            seen,
                        );
                    assert(found.contains(g) && links(pool, forward, g).contains(n)
                        && !seen.contains(n) && k < steps && reaches_avoiding(
                        pool,
                        forward,
                        n,
                        to,
                        k,
                        seen,
                    ));
                }
            }
        }
    }
}

/// A walk misses nothing: what lies fewer than `depth` links from its frontier,
/// along contexts not visited before, is listed.
pub proof fn law_walk_complete(
    pool: PoolView,
    forward: bool,
    frontier: Seq<Seq<char>>,
    visited: Set<Seq<char>>,
    depth: nat,
    from: Seq<char>,
    to: Seq<char>,
    steps: nat,
)
    requires
        frontier.contains(from),
        !visited.contains(from),
        steps < depth,
        reaches_avoiding(pool, forward, from, to, steps, visited),
    ensures
        walked(pool, forward, frontier, visited, depth).contains(to),
    decreases depth,
{
    lemma_fresh(frontier, visited);
    let found = fresh(frontier, visited);
    assert(found.contains(from));
    let next = all_links(pool, forward, found);
    let seen = visited.union(found.to_set());
    let rest = walked(pool, forward, next, seen, (depth - 1) as nat);
    let all = found + rest;
    assert(frontier.len() > 0);
    assert(walked(pool, forward, frontier, visited, depth) == all);
    lemma_last_found(pool, forward, from, to, steps, visited, found.to_set());
    if found.to_set().contains(to) {
        let k = choose|k: int| 0 <= k < found.len() && found[k] == to;
        assert(all[k] == to);
    } else {
        let (g, mid, m) = choose|g: Seq<char>, mid: Seq<char>, m: nat|
            found.to_set().contains(g) && #[trigger] links(pool, forward, g).contains(mid)
                && !seen.contains(mid) && m < steps && #[trigger] reaches_avoiding(
                pool,
                forward,
                mid,
                to,
                m,
                seen,
            );
        lemma_all_links(pool, forward, found, mid);
        assert(next.contains(mid));
        law_walk_complete(pool, forward, next, seen, (depth - 1) as nat, mid, to, m);
        let k = choose|k: int| 0 <= k < rest.len() && rest[k] == to;
        assert(all[found.len() + k] == to);
    }
}

/// From any path that does not end at `entry`, the part after its last visit to
/// `entry`.
proof fn lemma_after_entry(
    pool: PoolView,
    forward: bool,
    entry: Seq<char>,
    from: Seq<char>,
    to: Seq<char>,
    steps: nat,
)
    requires
        reaches(pool, forward, from, to, steps),
        to != entry,
    ensures
        from != entry ==> (reaches_avoiding(pool, forward, from, to, steps, set![entry]) || exists|
            m: nat,
        |
            m < steps && #[trigger] reaches_avoiding(pool, forward, entry, to, m, set![entry])),
        from == entry ==> exists|m: nat|
            1 <= m <= steps && #[trigger] reaches_avoiding(
                pool,
                forward,
                entry,
                to,
                m,
                set![entry],
            ),
    decreases steps,
{
    if steps > 0 {
        let mid = choose|mid: Seq<char>| #[trigger]
            links(pool, forward, from).contains(mid) && reaches(
                pool,
                forward,
                mid,
                to,
                (steps - 1) as nat,
            );
        lemma_after_entry(pool, forward, entry, mid, to, (steps - 1) as nat);
        if mid == entry {
            let m = choose|m: nat|
                1 <= m <= steps - 1 && #[trigger] reaches_avoiding(
                    pool,
                    forward,
                    entry,
                    to,
                    m,
                    set![entry],
                );
            assert(m < steps && reaches_avoiding(pool, forward, entry, to, m, set![entry]));
        } else if reaches_avoiding(pool, forward, mid, to, (steps - 1) as nat, set![entry]) {
            assert(links(pool, forward, from).contains(mid) && !set![entry].contains(mid));
            assert(reaches_avoiding(pool, forward, from, to, steps, set![entry]));
        } else {
            let m = choose|m: nat|
                m < steps - 1 && #[trigger] reaches_avoiding(
                    pool,
                    forward,
                    entry,
                    to,
                    m,
                    set![entry],
                );
            if m == 0 {
                assert(entry == to);
            }
            assert(1 <= m < steps && reaches_avoiding(pool, forward, entry, to, m, set![entry]));
        }
    }
}

/// Every ancestor of the entry that is at most `depth` links away is listed.
pub proof fn law_ancestors_complete(
    pool: PoolView,
    entry: Seq<char>,
    depth: nat,
    to: Seq<char>,
    steps: nat,
)
    requires
        to != entry,
        steps <= depth,
        reaches(pool, false, entry, to, steps),
    ensures
        reachable(pool, entry, depth).contains(to),
{
    lemma_after_entry(pool, false, entry, entry, to, steps);
    let m = choose|m: nat|
        1 <= m <= steps && #[trigger] reaches_avoiding(pool, false, entry, to, m, set![entry]);
    let mid = choose|mid: Seq<char>|
        #![trigger links(pool, false, entry).contains(mid)]
        links(pool, false, entry).contains(mid) && !set![entry].contains(mid) && reaches_avoiding(
            pool,
            false,
            mid,
            to,
            (m - 1) as nat,
            set![entry],
        );
    law_walk_complete(
        pool,
        false,
        links(pool, false, entry),
        set![entry],
        depth,
        mid,
        to,
        (m - 1) as nat,
    );
    let back = ancestors(pool, entry, depth);
    let k = choose|k: int| 0 <= k < back.len() && back[k] == to;
    assert(reachable(pool, entry, depth)[k] == to);
}

/// Every descendant of the entry that is at most `depth` links away, along
/// contexts that are not listed as ancestors, is listed.
pub proof fn law_descendants_complete(
    pool: PoolView,
    entry: Seq<char>,
    depth: nat,
    to: Seq<char>,
    steps: nat,
)
    requires
        1 <= steps <= depth,
        reaches_avoiding(
            pool,
            true,
            entry,
            to,
            steps,
            set![entry].union(ancestors(pool, entry, depth).to_set()),
        ),
    ensures
        reachable(pool, entry, depth).contains(to),
{
    let back = ancestors(pool, entry, depth);
    let seen = set![entry].union(back.to_set());
    let mid = choose|mid: Seq<char>|
        #![trigger links(pool, true, entry).contains(mid)]
        links(pool, true, entry).contains(mid) && !seen.contains(mid) && reaches_avoiding(
            pool,
            true,
            mid,
            to,
            (steps - 1) as nat,
            seen,
        );
    law_walk_complete(
        pool,
        true,
        links(pool, true, entry),
        seen,
        depth,
        mid,
        to,
        (steps - 1) as nat,
    );
    let ahead = walked(pool, true, links(pool, true, entry), seen, depth);
    let k = choose|k: int| 0 <= k < ahead.len() && ahead[k] == to;
    assert(reachable(pool, entry, depth)[back.len() + k] == to);
}

proof fn lemma_without(items: Seq<Seq<char>>, other: Seq<Seq<char>>)
    ensures
        forall|x: Seq<char>| #[trigger]
            without(items, other).contains(x) <==> items.contains(x) && !other.contains(x),
    decreases items.len(),
{
    if items.len() > 0 {
        let rest = without(items.drop_last(), other);
        let all = without(items, other);
        lemma_without(items.drop_last(), other);
        assert forall|x: Seq<char>| #[trigger] all.contains(x) <==> items.contains(x)
            && !other.contains(x) by {
            assert(items[items.len() - 1] == items.last());
            if items.contains(x) && x != items.last() {
                let k = choose|k: int| 0 <= k < items.len() && items[k] == x;
                assert(items.drop_last()[k] == x);
            }
            if items.drop_last().contains(x) {
                let k = choose|k: int|
                    0 <= k < items.drop_last().len() && items.drop_last()[k] == x;
                assert(items[k] == x);
            }
            if rest.contains(x) {
                let k = choose|k: int| 0 <= k < rest.len() && rest[k] == x;
                assert(all[k] == x);
            }
            if all.contains(x) && !rest.contains(x) {
                let k = choose|k: int| 0 <= k < all.len() && all[k] == x;
                if k < rest.len() {
                    assert(rest[k] == x);
                }
            }
            if !other.contains(items.last()) {
                assert(all[all.len() - 1] == items.last());
            }
        }
    }
}

/// What a diff adds is in the child alone, what it removes is in the parent
/// alone, and it is empty exactly where both lists hold the same messages.
pub proof fn law_diff(parent: Seq<Seq<char>>, child: Seq<Seq<char>>)
    ensures
        forall|x: Seq<char>| #[trigger]
            without(child, parent).contains(x) <==> child.contains(x) && !parent.contains(x),
        without(child, parent).len() == 0 && without(parent, child).len() == 0
            <==> child.to_set() == parent.to_set(),
{
    lemma_without(child, parent);
    lemma_without(parent, child);
    if child.to_set() == parent.to_set() {
        let a = without(child, parent);
        let b = without(parent, child);
        if a.len() > 0 {
            assert(a.contains(a[0]));
            assert(child.to_set().contains(a[0]));
            assert(parent.to_set().contains(a[0]));
            assert(false);
        }
        if b.len() > 0 {
            assert(b.contains(b[0]));
            assert(parent.to_set().contains(b[0]));
            assert(child.to_set().contains(b[0]));
            assert(false);
        }
    }
    if without(child, parent).len() == 0 && without(parent, child).len() == 0 {
        assert forall|x: Seq<char>| child.to_set().contains(x) <==> #[trigger]
            parent.to_set().contains(x) by {
            assert(!without(child, parent).contains(x));
            assert(!without(parent, child).contains(x));
        }
        assert(child.to_set() =~= parent.to_set());
    }
}

/// Appending one new message shows up as exactly that message added.
pub proof fn law_diff_of_append(messages: Seq<Seq<char>>, id: Seq<char>)
    requires
        !messages.contains(id),
    ensures
        without(messages.push(id), messages) == seq![id],
        without(messages, messages.push(id)) == Seq::<Seq<char>>::empty(),
{
    let longer = messages.push(id);
    assert(longer.drop_last() =~= messages);
    law_diff(messages, messages);
    assert(without(messages, messages).len() == 0);
    assert(without(longer, messages) =~= seq![id]);
    lemma_without(messages, longer);
    let b = without(messages, longer);
    if b.len() > 0 {
        assert(b.contains(b[0]));
        let k = choose|k: int| 0 <= k < messages.len() && messages[k] == b[0];
        assert(longer[k] == b[0]);
        assert(false);
    }
    assert(b =~= Seq::<Seq<char>>::empty());
}

/// What two lists without the messages of a third give is what their concatenation gives,
/// and a list that shares no message with the other stays whole.
pub proof fn law_without_keeps_order(
    a: Seq<Seq<char>>,
    b: Seq<Seq<char>>,
    other: Seq<Seq<char>>,
)
    ensures
        without(a + b, other) == without(a, other) + without(b, other),
        (forall|i: int| 0 <= i < a.len() ==> !other.contains(#[trigger] a[i])) ==> without(a, other)
            == a,
    decreases a.len() + b.len(),
{
    if b.len() > 0 {
        law_without_keeps_order(a, b.drop_last(), other);
        assert((a + b).drop_last() =~= a + b.drop_last());
        assert((a + b).last() == b.last());
        assert(without(a + b, other) =~= without(a, other) + without(b, other));
    } else {
        assert(a + b =~= a);
        assert(without(a, other) + without(b, other) =~= without(a, other));
        if a.len() > 0 {
            law_without_keeps_order(a.drop_last(), b, other);
            if forall|i: int| 0 <= i < a.len() ==> !other.contains(#[trigger] a[i]) {
                assert(!other.contains(a[a.len() - 1]));
                assert forall|i: int| 0 <= i < a.len() - 1 implies !other.contains(
                    #[trigger] a.drop_last()[i],
                ) by {
                    assert(!other.contains(a[i]));
                }
                assert(a.drop_last().push(a.last()) =~= a);
            }
        }
    }
}

// ---------------------------------------------------------------------------
// Next to the entry
// ---------------------------------------------------------------------------

/// The parents of a context and the contexts that have it as a parent are listed around
/// it, whatever the depth, as long as it is not zero. With a depth of one nothing else is.
pub proof fn law_neighbours_are_listed(pool: PoolView, entry: ContextView, depth: nat, id: Seq<char>)
    requires
        pool.context(entry.id) == Some(entry),
        depth > 0,
        id != entry.id,
    ensures
        ({
            let beside = entry.parents.contains(id) || exists|i: int|
                0 <= i < pool.contexts.len() && (#[trigger] pool.contexts[i]).id == id
                    && pool.contexts[i].parents.contains(entry.id);
            let listed = reachable(pool, entry.id, depth).contains(id);
            &&& beside ==> listed
            &&& depth == 1 && listed ==> beside
        }),
{
    lemma_children(pool.contexts, entry.id, id);
    let back = ancestors(pool, entry.id, depth);
    let seen = set![entry.id].union(back.to_set());
    if entry.parents.contains(id) {
        assert(links(pool, false, entry.id).contains(id));
        assert(reaches(pool, false, id, id, 0));
        assert(reaches(pool, false, entry.id, id, 1));
        law_ancestors_complete(pool, entry.id, depth, id, 1);
    } else if pool.children(entry.id).contains(id) {
        if back.contains(id) {
            let k = choose|k: int| 0 <= k < back.len() && back[k] == id;
            assert(reachable(pool, entry.id, depth)[k] == id);
        } else {
            assert(links(pool, true, entry.id).contains(id) && !seen.contains(id));
            assert(reaches_avoiding(pool, true, id, id, 0, seen));
            assert(reaches_avoiding(pool, true, entry.id, id, 1, seen));
            law_descendants_complete(pool, entry.id, depth, id, 1);
        }
    }
    if depth == 1 && reachable(pool, entry.id, depth).contains(id) {
        law_listing_sound(pool, entry.id, depth, id);
        let (forward, steps) = choose|forward: bool, steps: nat|
            1 <= steps <= depth && #[trigger] reaches(pool, forward, entry.id, id, steps);
        let mid = choose|mid: Seq<char>| #[trigger]
            links(pool, forward, entry.id).contains(mid) && reaches(pool, forward, mid, id, 0);
        assert(mid == id);
    }
}

/// Ancestors are listed before descendants: a parent stands before every context that only
/// comes after the entry.
pub proof fn law_ancestors_come_first(
    pool: PoolView,
    entry: ContextView,
    depth: nat,
    i: int,
    j: int,
)
    requires
        pool.context(entry.id) == Some(entry),
        0 <= i < reachable(pool, entry.id, depth).len(),
        0 <= j < reachable(pool, entry.id, depth).len(),
        entry.parents.contains(reachable(pool, entry.id, depth)[i]),
        forall|steps: nat|
            !#[trigger] reaches(
                pool,
                false,
                entry.id,
                reachable(pool, entry.id, depth)[j],
                steps,
            ),
    ensures
        i < j,
{
    let all = reachable(pool, entry.id, depth);
    let back = ancestors(pool, entry.id, depth);
    law_listing_once(pool, entry.id, depth);
    let parent = all[i];
    if j < back.len() {
        assert(back[j] == all[j]);
        assert(back.contains(all[j]));
        law_walk_sound(
            pool,
            false,
            links(pool, false, entry.id),
            set![entry.id],
            depth,
            all[j],
        );
        let (from, steps) = choose|from: Seq<char>, steps: nat|
            links(pool, false, entry.id).contains(from) && steps < depth && #[trigger] reaches(
                pool,
                false,
                from,
                all[j],
                steps,
            );
        assert(reaches(pool, false, entry.id, all[j], steps + 1));
        assert(false);
    }
    if i >= back.len() {
        assert(all.contains(parent));
        assert(parent != entry.id);
        assert(links(pool, false, entry.id).contains(parent));
        lemma_fresh(links(pool, false, entry.id), set![entry.id]);
        assert(depth > 0) by {
            if depth == 0 {
                assert(all.len() == 0);
            }
        }
        let first = fresh(links(pool, false, entry.id), set![entry.id]);
        assert(first.contains(parent));
        let k = choose|k: int| 0 <= k < first.len() && first[k] == parent;
        assert(back[k] == parent);
        assert(all[k] == parent);
        assert(false);
    }
}

// ---------------------------------------------------------------------------
// How the graph reads
// ---------------------------------------------------------------------------

/// Whether a text is a list of messages, a line for each: what it leads with, the id, and
/// the summary of the message where the message is known.
pub open spec fn lists_messages(
    text: Seq<char>,
    pool: PoolView,
    lead: Seq<char>,
    ids: Seq<Seq<char>>,
) -> bool
    decreases ids.len(),
{
    if ids.len() == 0 {
        text.len() == 0
    } else {
        let line = lead + ids.last() + if pool.messages.contains_key(ids.last()) {
            " "@ + pool.messages[ids.last()].summary + "\n"@
        } else {
            "\n"@
        };
        let n = text.len() - line.len();
        n >= 0 && text.skip(n) == line && lists_messages(text.take(n), pool, lead, ids.drop_last())
    }
}

proof fn lemma_lists_messages(pool: PoolView, lead: Seq<char>, ids: Seq<Seq<char>>)
    ensures
        lists_messages(message_lines(pool, lead, ids), pool, lead, ids),
    decreases ids.len(),
{
    if ids.len() > 0 {
        lemma_lists_messages(pool, lead, ids.drop_last());
        let front = message_lines(pool, lead, ids.drop_last());
        let id = ids.last();
        let text = message_lines(pool, lead, ids);
        let line = lead + id + if pool.messages.contains_key(id) {
            " "@ + pool.messages[id].summary + "\n"@
        } else {
            "\n"@
        };
        assert(text =~= front + line);
        assert(text.take(text.len() - line.len()) =~= front);
        assert(text.skip(text.len() - line.len()) =~= line);
    }
}

/// A difference that is not empty reads: a heading that names what it is against, a line
/// with a plus for each message that was added, and then a line with a minus for each that
/// was removed.
pub proof fn law_diffs_mark_both_sides(
    pool: PoolView,
    vs_id: Seq<char>,
    added: Seq<Seq<char>>,
    removed: Seq<Seq<char>>,
)
    requires
        added.len() > 0 || removed.len() > 0,
    ensures
        exists|plus: Seq<char>, minus: Seq<char>|
            #![trigger lists_messages(plus, pool, "  + "@, added), lists_messages(minus, pool, "  - "@, removed)]
            lists_messages(plus, pool, "  + "@, added) && lists_messages(
                minus,
                pool,
                "  - "@,
                removed,
            ) && diff_text(pool, vs_id, added, removed) == "  diff vs "@ + vs_id + "\n"@ + plus
                + minus,
{
    lemma_lists_messages(pool, "  + "@, added);
    lemma_lists_messages(pool, "  - "@, removed);
}

proof fn lemma_lines_concat(
    pool: PoolView,
    lead: Seq<char>,
    a: Seq<Seq<char>>,
    b: Seq<Seq<char>>,
)
    ensures
        message_lines(pool, lead, a + b) == message_lines(pool, lead, a) + message_lines(
            pool,
            lead,
            b,
        ),
    decreases b.len(),
{
    let x = message_lines(pool, lead, a);
    if b.len() == 0 {
        assert(a + b =~= a);
        assert(x + message_lines(pool, lead, b) =~= x);
    } else {
        lemma_lines_concat(pool, lead, a, b.drop_last());
        assert((a + b).drop_last() =~= a + b.drop_last());
        assert((a + b).last() == b.last());
        assert(message_lines(pool, lead, a + b) =~= x + message_lines(pool, lead, b));
    }
}

proof fn lemma_lines_lead(pool: PoolView, lead: Seq<char>, ids: Seq<Seq<char>>)
    requires
        ids.len() > 0,
    ensures
        lead.is_prefix_of(message_lines(pool, lead, ids)),
    decreases ids.len(),
{
    let all = message_lines(pool, lead, ids);
    if ids.len() > 1 {
        lemma_lines_lead(pool, lead, ids.drop_last());
        let front = message_lines(pool, lead, ids.drop_last());
        assert(forall|i: int| 0 <= i < lead.len() ==> lead[i] == front[i] && front[i] == all[i]);
    } else {
        assert(message_lines(pool, lead, ids.drop_last()).len() == 0);
        assert(forall|i: int| 0 <= i < lead.len() ==> lead[i] == all[i]);
    }
}

/// What was removed never reads as if it had been added.
pub proof fn law_removed_is_not_added(
    pool: PoolView,
    vs_id: Seq<char>,
    added: Seq<Seq<char>>,
    removed: Seq<Seq<char>>,
)
    requires
        removed.len() > 0,
    ensures
        diff_text(pool, vs_id, added, removed) != diff_text(
            pool,
            vs_id,
            added + removed,
            Seq::empty(),
        ),
{
    let head = "  diff vs "@ + vs_id + "\n"@ + message_lines(pool, "  + "@, added);
    let minus = message_lines(pool, "  - "@, removed);
    let plus = message_lines(pool, "  + "@, removed);
    lemma_lines_concat(pool, "  + "@, added, removed);
    lemma_lines_lead(pool, "  - "@, removed);
    lemma_lines_lead(pool, "  + "@, removed);
    let a = diff_text(pool, vs_id, added, removed);
    let b = diff_text(pool, vs_id, added + removed, Seq::empty());
    assert(a =~= head + minus);
    assert(b =~= head + plus);
    reveal_strlit("  + ");
    reveal_strlit("  - ");
    assert(minus[2] == "  - "@[2] && plus[2] == "  + "@[2]);
    assert(a[head.len() as int + 2] == '-');
    assert(b[head.len() as int + 2] == '+');
}

/// Whether a text says which messages a context holds, all of them.
pub open spec fn tells_messages(text: Seq<char>, pool: PoolView, ids: Seq<Seq<char>>) -> bool {
    if ids.len() == 0 {
        text == "  (no messages)\n"@
    } else {
        lists_messages(text, pool, "  "@, ids)
    }
}

/// Whether a text says how the messages of a context differ from those of another.
pub open spec fn tells_changes(
    text: Seq<char>,
    pool: PoolView,
    context: ContextView,
    parent: ContextView,
) -> bool {
    exists|added: Seq<Seq<char>>, removed: Seq<Seq<char>>, plus: Seq<char>, minus: Seq<char>|
        #![trigger lists_messages(plus, pool, "  + "@, added), lists_messages(minus, pool, "  - "@, removed)]
        {
            &&& lists_messages(plus, pool, "  + "@, added)
            &&& lists_messages(minus, pool, "  - "@, removed)
            &&& forall|x: Seq<char>| #[trigger]
                added.contains(x) <==> context.messages.contains(x) && !parent.messages.contains(x)
            &&& forall|x: Seq<char>| #[trigger]
                removed.contains(x) <==> parent.messages.contains(x) && !context.messages.contains(
                    x,
                )
            &&& if added.len() == 0 && removed.len() == 0 {
                text == "  (no changes)\n"@
            } else {
                text == "  diff vs "@ + context.parents[0] + "\n"@ + plus + minus
            }
        }
}

/// Whether a text is the line that a context begins with: its id, the mark of the entry,
/// and its parents.
pub open spec fn heads(text: Seq<char>, context: ContextView, is_entry: bool) -> bool {
    let id = if is_entry {
        context.id + " (entry)"@
    } else {
        context.id
    };
    if context.parents.len() == 0 {
        text == id + "\n"@
    } else {
        text == id + " <- "@ + joined(context.parents, ", "@) + "\n"@
    }
}

proof fn lemma_node_texts(pool: PoolView, ids: Seq<Seq<char>>, k: int)
    requires
        0 <= k < ids.len(),
    ensures
        occurs(node_text(pool, ids[k]), node_texts(pool, ids)),
    decreases ids.len(),
{
    let front = node_texts(pool, ids.drop_last());
    let last = node_text(pool, ids.last());
    if k < ids.len() - 1 {
        lemma_node_texts(pool, ids.drop_last(), k);
        lemma_occurs(Seq::empty(), front, last);
        lemma_occurs_within(node_text(pool, ids[k]), front, front + last);
    } else {
        lemma_occurs(front, last, Seq::empty());
    }
}

/// Every context around the entry is described: by its id and parents, and then by how it
/// differs from its first parent, or by all its messages where that parent is not known.
pub proof fn law_listed_contexts_are_described(
    pool: PoolView,
    entry: ContextView,
    depth: nat,
    context: ContextView,
)
    requires
        reachable(pool, entry.id, depth).contains(context.id),
        pool.context(context.id) == Some(context),
    ensures
        exists|head: Seq<char>, body: Seq<char>|
            #![trigger heads(head, context, false), occurs("\n"@ + head + body, graph_text(pool, entry, depth))]
            {
                &&& occurs("\n"@ + head + body, graph_text(pool, entry, depth))
                &&& heads(head, context, false)
                &&& if context.parents.len() > 0 && pool.context(context.parents[0]) is Some {
                    tells_changes(body, pool, context, pool.context(context.parents[0])->0)
                } else {
                    tells_messages(body, pool, context.messages)
                }
            },
{
    let ids = reachable(pool, entry.id, depth);
    let k = choose|k: int| 0 <= k < ids.len() && ids[k] == context.id;
    let head = header_text(context.id, context.parents, false);
    let body = body_text(pool, context);
    lemma_node_texts(pool, ids, k);
    let nodes = node_texts(pool, ids);
    let text = graph_text(pool, entry, depth);
    lemma_occurs(text.take(text.len() - nodes.len()), nodes, Seq::empty());
    assert(text =~= text.take(text.len() - nodes.len()) + nodes);
    lemma_occurs_within(node_text(pool, context.id), nodes, text);
    lemma_heads(context, false);
    if context.parents.len() > 0 && pool.context(context.parents[0]) is Some {
        let parent = pool.context(context.parents[0])->0;
        let added = without(context.messages, parent.messages);
        let removed = without(parent.messages, context.messages);
        lemma_without(context.messages, parent.messages);
        lemma_without(parent.messages, context.messages);
        lemma_lists_messages(pool, "  + "@, added);
        lemma_lists_messages(pool, "  - "@, removed);
        assert(tells_changes(body, pool, context, parent));
    } else {
        lemma_lists_messages(pool, "  "@, context.messages);
    }
    assert(occurs("\n"@ + head + body, text));
}

proof fn lemma_heads(context: ContextView, is_entry: bool)
    ensures
        heads(header_text(context.id, context.parents, is_entry), context, is_entry),
{
    let text = header_text(context.id, context.parents, is_entry);
    let id = if is_entry {
        context.id + " (entry)"@
    } else {
        context.id
    };
    if context.parents.len() == 0 {
        assert(text =~= id + "\n"@);
    } else {
        assert(text =~= id + " <- "@ + joined(context.parents, ", "@) + "\n"@);
    }
}

/// The description begins with the entry and how many contexts there are, and then gives
/// the entry with all its messages.
pub proof fn law_entry_comes_first(pool: PoolView, entry: ContextView, depth: nat)
    ensures
        exists|head: Seq<char>, body: Seq<char>|
            #![trigger heads(head, entry, true), tells_messages(body, pool, entry.messages)]
            heads(head, entry, true) && tells_messages(body, pool, entry.messages) && (
            "CONTEXT GRAPH entry="@ + entry.id + " count="@ + decimal(
                1 + reachable(pool, entry.id, depth).len(),
            ) + "\n\n"@ + head + body).is_prefix_of(graph_text(pool, entry, depth)),
{
    let ids = reachable(pool, entry.id, depth);
    let head = header_text(entry.id, entry.parents, true);
    let body = list_text(pool, entry.messages);
    lemma_heads(entry, true);
    lemma_lists_messages(pool, "  "@, entry.messages);
    assert(tells_messages(body, pool, entry.messages));
    reveal_strlit("\n\n");
    reveal_strlit("\n");
    let first = "CONTEXT GRAPH entry="@ + entry.id + " count="@ + decimal(1 + ids.len())
        + "\n\n"@ + head + body;
    assert("\n"@ + "\n"@ =~= "\n\n"@);
    assert(graph_text(pool, entry, depth) =~= first + node_texts(pool, ids));
    assert(first.is_prefix_of(first + node_texts(pool, ids)));
}

/// A context that is listed but not known is said to be not loaded.
pub proof fn law_unknown_contexts_are_named(
    pool: PoolView,
    entry: ContextView,
    depth: nat,
    id: Seq<char>,
)
    requires
        reachable(pool, entry.id, depth).contains(id),
        pool.context(id) is None,
    ensures
        occurs("\n"@ + id + "\n"@ + "  (not loaded)\n"@, graph_text(pool, entry, depth)),
{
    let ids = reachable(pool, entry.id, depth);
    let k = choose|k: int| 0 <= k < ids.len() && ids[k] == id;
    lemma_node_texts(pool, ids, k);
    let nodes = node_texts(pool, ids);
    let text = graph_text(pool, entry, depth);
    lemma_occurs(text.take(text.len() - nodes.len()), nodes, Seq::empty());
    assert(text =~= text.take(text.len() - nodes.len()) + nodes);
    assert(node_text(pool, id) =~= "\n"@ + id + "\n"@ + "  (not loaded)\n"@);
    lemma_occurs_within(node_text(pool, id), nodes, text);
}

} // verus!
