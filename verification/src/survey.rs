//! Gathering the contexts around some others from where they are kept, one by one.
use crate::graph::{all_links, ancestors, fresh, links, walked};
use crate::model::{
    children_in, context_in, lemma_context_absent, lemma_context_in, Context, ContextView, Message,
    MessageView, Pool, PoolView,
};
use crate::text::{clone_texts, group_views, views};
use vstd::hash_set::StringHashSet;
use vstd::prelude::*;

verus! {

// ---------------------------------------------------------------------------
// The survey
// ---------------------------------------------------------------------------

/// Contexts that lead to or from the given ones. Each is asked for once.
pub struct Survey {
    wanted: Vec<String>,
    at: usize,
    seen: StringHashSet,
    pool: Pool,
}

#[verifier::ext_equal]
pub struct SurveyView {
    /// What has been met, and is to be asked for unless it has been.
    pub pending: Seq<Seq<char>>,
    /// What has been asked for.
    pub seen: Set<Seq<char>>,
    pub pool: PoolView,
}

/// What is kept under an id: the context with its messages, if there is one, and the
/// ids of its children.
pub struct Found {
    pub context: Option<Context>,
    pub messages: Vec<Message>,
    pub children: Vec<String>,
}

#[verifier::ext_equal]
pub struct FoundView {
    pub context: Option<ContextView>,
    pub messages: Seq<MessageView>,
    pub children: Seq<Seq<char>>,
}

impl View for Found {
    type V = FoundView;

    open spec fn view(&self) -> FoundView {
        FoundView {
            context: match self.context {
                Some(c) => Some(c@),
                None => None,
            },
            messages: views(self.messages@),
            children: views(self.children@),
        }
    }
}

impl View for Survey {
    type V = SurveyView;

    closed spec fn view(&self) -> SurveyView {
        SurveyView {
            pending: views(self.wanted@).skip(self.at as int),
            seen: self.seen@,
            pool: self.pool@,
        }
    }
}

/// What is left of `pending` without the ids at its beginning that have been seen.
pub open spec fn unseen_of(pending: Seq<Seq<char>>, seen: Set<Seq<char>>) -> Seq<Seq<char>>
    decreases pending.len(),
{
    if pending.len() > 0 && seen.contains(pending[0]) {
        unseen_of(pending.skip(1), seen)
    } else {
        pending
    }
}

/// The messages with some more put in.
pub open spec fn with_messages(
    messages: Map<Seq<char>, MessageView>,
    more: Seq<MessageView>,
) -> Map<Seq<char>, MessageView>
    decreases more.len(),
{
    if more.len() == 0 {
        messages
    } else {
        with_messages(messages, more.drop_last()).insert(more.last().id, more.last())
    }
}

/// The pool with what was found.
pub open spec fn with_found(pool: PoolView, found: FoundView) -> PoolView {
    PoolView {
        messages: with_messages(pool.messages, found.messages),
        contexts: match found.context {
            Some(c) => if pool.context(c.id) is None {
                pool.contexts.push(c)
            } else {
                pool.contexts
            },
            None => pool.contexts,
        },
    }
}

/// What a find leads to: the parents of the context and its children.
pub open spec fn leads(found: FoundView) -> Seq<Seq<char>> {
    (match found.context {
        Some(c) => c.parents,
        None => Seq::empty(),
    }) + found.children
}

impl Survey {
    pub closed spec fn wf(&self) -> bool {
        self.at <= self.wanted.len() && self.pool.wf()
    }

    /// A survey around the given contexts.
    pub fn new(seeds: Vec<String>) -> (r: Self)
        ensures
            r.wf(),
            r@ == started(views(seeds@)),
    {
        let r = Survey { wanted: seeds, at: 0, seen: StringHashSet::new(), pool: Pool::new() };
        assert(r@.pending =~= views(seeds@));
        assert(r@ =~= started(views(seeds@)));
        r
    }

    /// The next context to ask for. None is left once all that has been met has been
    /// asked for.
    pub fn next_wanted(&mut self) -> (r: Option<String>)
        requires
            old(self).wf(),
        ensures
            final(self).wf(),
            final(self)@.pool == old(self)@.pool,
            ({
                let left = unseen_of(old(self)@.pending, old(self)@.seen);
                match r {
                    Some(id) => left.len() > 0 && id@ == left[0] && final(self)@.pending
                        == left.skip(1) && final(self)@.seen == old(self)@.seen.insert(id@),
                    None => left.len() == 0 && final(self)@.pending.len() == 0 && final(self)@.seen
                        == old(self)@.seen,
                }
            }),
    {
        broadcast use group_views;

        let ghost left = unseen_of(self@.pending, self@.seen);
        let ghost all = views(self.wanted@);
        while self.at < self.wanted.len() && self.seen.contains(self.wanted[self.at].as_str())
            invariant
                self.wf(),
                self.wanted@ == old(self).wanted@,
                self.pool == old(self).pool,
                self.seen == old(self).seen,
                all == views(self.wanted@),
                left == unseen_of(all.skip(self.at as int), self.seen@),
            decreases self.wanted.len() - self.at,
        {
            assert(all.skip(self.at as int).skip(1) =~= all.skip(self.at + 1));
            assert(all.skip(self.at as int)[0] == self.wanted@[self.at as int]@);
            self.at = self.at + 1;
        }
        if self.at < self.wanted.len() {
            assert(all.skip(self.at as int)[0] == self.wanted@[self.at as int]@);
            assert(left == all.skip(self.at as int));
            assert(all.skip(self.at as int).skip(1) =~= all.skip(self.at + 1));
            let id = self.wanted[self.at].clone();
            self.at = self.at + 1;
            self.seen.insert(id.clone());
            Some(id)
        } else {
            None
        }
    }

    /// Take in what is kept under the id that was asked for.
    #[verifier::loop_isolation(false)]
    pub fn take_in(&mut self, found: Found)
        requires
            old(self).wf(),
        ensures
            final(self).wf(),
            final(self)@.seen == old(self)@.seen,
            final(self)@.pending == old(self)@.pending + leads(found@),
            final(self)@.pool == with_found(old(self)@.pool, found@),
    {
        broadcast use group_views;

        let ghost before = self@;
        let ghost wanted = views(self.wanted@);
        let ghost more = found@.messages;
        let messages = found.messages;
        let mut i: usize = 0;
        while i < messages.len()
            invariant
                i <= messages.len(),
                views(messages@) == more,
                self.pool.wf(),
                self.wanted == old(self).wanted,
                self.at == old(self).at,
                self.seen == old(self).seen,
                self.pool@.contexts == before.pool.contexts,
                self.pool@.messages == with_messages(before.pool.messages, more.take(i as int)),
            decreases messages.len() - i,
        {
            assert(more.take(i + 1).drop_last() =~= more.take(i as int));
            assert(more.take(i + 1).last() == messages@[i as int]@);
            let message = messages[i].clone();
            self.pool.put_message(message);
            i += 1;
        }
        assert(more.take(i as int) =~= more);
        let ghost parents = match found@.context {
            Some(c) => c.parents,
            None => Seq::empty(),
        };
        if let Some(context) = found.context {
            let mut up = clone_texts(&context.parents);
            self.pool.put_context(context);
            self.wanted.append(&mut up);
        }
        let mut down = found.children;
        self.wanted.append(&mut down);
        assert(views(self.wanted@) =~= wanted + parents + found@.children);
        assert(self@.pending =~= before.pending + leads(found@));
        assert(self@.pool =~= with_found(before.pool, found@));
    }

    /// What has been gathered.
    pub fn gathered(self) -> (r: Pool)
        requires
            self.wf(),
        ensures
            r.wf(),
            r@ == self@.pool,
    {
        self.pool
    }
}

// ---------------------------------------------------------------------------
// What is gathered
// ---------------------------------------------------------------------------

pub open spec fn started(seeds: Seq<Seq<char>>) -> SurveyView {
    SurveyView {
        pending: seeds,
        seen: Set::empty(),
        pool: PoolView { messages: Map::empty(), contexts: Seq::empty() },
    }
}

/// The messages of `world` among some ids, in order.
pub open spec fn messages_among(world: PoolView, ids: Seq<Seq<char>>) -> Seq<MessageView>
    decreases ids.len(),
{
    if ids.len() == 0 {
        Seq::empty()
    } else {
        let rest = messages_among(world, ids.drop_last());
        match world.message(ids.last()) {
            Some(m) => rest.push(m),
            None => rest,
        }
    }
}

/// What `world` keeps under an id.
pub open spec fn kept(world: PoolView, id: Seq<char>) -> FoundView {
    FoundView {
        context: world.context(id),
        messages: match world.context(id) {
            Some(c) => messages_among(world, c.messages),
            None => Seq::empty(),
        },
        children: world.children(id),
    }
}

/// A survey of `world` after the next context has been asked for and taken in.
pub open spec fn surveyed(world: PoolView, s: SurveyView) -> SurveyView {
    let left = unseen_of(s.pending, s.seen);
    if left.len() == 0 {
        s
    } else {
        let found = kept(world, left[0]);
        SurveyView {
            pending: left.skip(1) + leads(found),
            seen: s.seen.insert(left[0]),
            pool: with_found(s.pool, found),
        }
    }
}

/// A survey of `world` after `n` contexts.
pub open spec fn survey_of(world: PoolView, seeds: Seq<Seq<char>>, n: nat) -> SurveyView
    decreases n,
{
    if n == 0 {
        started(seeds)
    } else {
        surveyed(world, survey_of(world, seeds, (n - 1) as nat))
    }
}

/// Whether `id` has been asked for or will be.
pub open spec fn met(s: SurveyView, id: Seq<char>) -> bool {
    s.seen.contains(id) || s.pending.contains(id)
}

/// Whether what has been seen of `world` has been gathered, and all that it leads to has
/// been met.
pub open spec fn survey_right(world: PoolView, seeds: Seq<Seq<char>>, s: SurveyView) -> bool {
    &&& forall|id: Seq<char>| #[trigger]
        s.seen.contains(id) ==> s.pool.context(id) == world.context(id)
    &&& forall|id: Seq<char>, forward: bool, to: Seq<char>|
        #![trigger links(world, forward, id), met(s, to)]
        s.seen.contains(id) && links(world, forward, id).contains(to) ==> met(s, to)
    &&& forall|i: int|
        0 <= i < s.pool.contexts.len() ==> s.seen.contains(#[trigger] s.pool.contexts[i].id)
    &&& forall|i: int| 0 <= i < seeds.len() ==> met(s, #[trigger] seeds[i])
}

proof fn lemma_unseen_of(pending: Seq<Seq<char>>, seen: Set<Seq<char>>)
    ensures
        forall|x: Seq<char>|
            pending.contains(x) ==> seen.contains(x) || unseen_of(pending, seen).contains(x),
        unseen_of(pending, seen).len() > 0 ==> !seen.contains(unseen_of(pending, seen)[0]),
    decreases pending.len(),
{
    if pending.len() > 0 && seen.contains(pending[0]) {
        lemma_unseen_of(pending.skip(1), seen);
        assert forall|x: Seq<char>| pending.contains(x) implies seen.contains(x) || unseen_of(
            pending,
            seen,
        ).contains(x) by {
            let k = choose|k: int| 0 <= k < pending.len() && pending[k] == x;
            if k > 0 {
                assert(pending.skip(1)[k - 1] == x);
            }
        }
    }
}

/// A context that is found under an id is there, and bears it.
pub proof fn lemma_context_found(contexts: Seq<ContextView>, id: Seq<char>)
    requires
        context_in(contexts, id) is Some,
    ensures
        exists|i: int|
            0 <= i < contexts.len() && #[trigger] contexts[i] == context_in(contexts, id)->0
                && contexts[i].id == id,
    decreases contexts.len(),
{
    if contexts.last().id == id {
        assert(contexts[contexts.len() - 1] == context_in(contexts, id)->0);
    } else {
        lemma_context_found(contexts.drop_last(), id);
        let i = choose|i: int|
            0 <= i < contexts.drop_last().len() && #[trigger] contexts.drop_last()[i]
                == context_in(contexts.drop_last(), id)->0 && contexts.drop_last()[i].id == id;
        assert(contexts[i] == context_in(contexts, id)->0);
    }
}

/// The children of a context are those that have it as a parent.
pub proof fn lemma_children(contexts: Seq<ContextView>, id: Seq<char>, child: Seq<char>)
    ensures
        children_in(contexts, id).contains(child) <==> exists|i: int|
            0 <= i < contexts.len() && #[trigger] contexts[i].id == child
                && contexts[i].parents.contains(id),
    decreases contexts.len(),
{
    if contexts.len() > 0 {
        let front = contexts.drop_last();
        let rest = children_in(front, id);
        lemma_children(front, id, child);
        let all = children_in(contexts, id);
        let n = contexts.len() - 1;
        if all.contains(child) {
            let k = choose|k: int| 0 <= k < all.len() && all[k] == child;
            if k < rest.len() {
                assert(rest[k] == child);
                let i = choose|i: int|
                    0 <= i < front.len() && #[trigger] front[i].id == child
                        && front[i].parents.contains(id);
                assert(contexts[i].id == child && contexts[i].parents.contains(id));
            } else {
                assert(contexts[n].id == child);
            }
        }
        if exists|i: int|
            0 <= i < contexts.len() && #[trigger] contexts[i].id == child
                && contexts[i].parents.contains(id) {
            let i = choose|i: int|
                0 <= i < contexts.len() && #[trigger] contexts[i].id == child
                    && contexts[i].parents.contains(id);
            if i < n {
                assert(front[i].id == child && front[i].parents.contains(id));
                let k = choose|k: int| 0 <= k < rest.len() && rest[k] == child;
                assert(all[k] == child);
            } else {
                assert(all[rest.len() as int] == child);
            }
        }
    }
}

proof fn lemma_surveyed(world: PoolView, seeds: Seq<Seq<char>>, s: SurveyView)
    requires
        survey_right(world, seeds, s),
    ensures
        survey_right(world, seeds, surveyed(world, s)),
{
    let left = unseen_of(s.pending, s.seen);
    let next = surveyed(world, s);
    lemma_unseen_of(s.pending, s.seen);
    if left.len() > 0 {
        let id = left[0];
        let found = kept(world, id);
        assert forall|x: Seq<char>| met(s, x) implies met(next, x) by {
            if !s.seen.contains(x) {
                let k = choose|k: int| 0 <= k < left.len() && left[k] == x;
                if k > 0 {
                    assert(next.pending[k - 1] == x);
                }
            }
        }
        if found.context is Some {
            lemma_context_found(world.contexts, id);
        }
        assert forall|i: int| 0 <= i < s.pool.contexts.len() implies #[trigger] s.pool.contexts[i].id
            != id by {
            assert(s.seen.contains(s.pool.contexts[i].id));
        }
        lemma_context_absent(s.pool.contexts, id);
        assert forall|x: Seq<char>| #[trigger] next.seen.contains(x) implies next.pool.context(x)
            == world.context(x) by {
            if found.context is Some {
                assert(next.pool.contexts.drop_last() =~= s.pool.contexts);
            }
            if x != id {
                assert(s.seen.contains(x));
            }
        }
        assert forall|x: Seq<char>, forward: bool, to: Seq<char>|
            #![trigger links(world, forward, x), met(next, to)]
            next.seen.contains(x) && links(world, forward, x).contains(to) implies met(
            next,
            to,
        ) by {
            if x == id {
                let new = leads(found);
                let l = links(world, forward, x);
                let k = choose|k: int| 0 <= k < l.len() && l[k] == to;
                let base = left.len() - 1;
                if forward {
                    let up = new.len() - found.children.len();
                    assert(next.pending[base + up + k] == to);
                } else {
                    assert(next.pending[base + k] == to);
                }
            } else {
                assert(met(s, to));
            }
        }
        assert forall|i: int| 0 <= i < next.pool.contexts.len() implies next.seen.contains(
            #[trigger] next.pool.contexts[i].id,
        ) by {
            if i < s.pool.contexts.len() {
                assert(s.seen.contains(s.pool.contexts[i].id));
            }
        }
    }
}

proof fn lemma_survey_right(world: PoolView, seeds: Seq<Seq<char>>, n: nat)
    ensures
        survey_right(world, seeds, survey_of(world, seeds, n)),
    decreases n,
{
    let s = survey_of(world, seeds, n);
    if n > 0 {
        lemma_survey_right(world, seeds, (n - 1) as nat);
        lemma_surveyed(world, seeds, survey_of(world, seeds, (n - 1) as nat));
    } else {
        assert forall|i: int| 0 <= i < seeds.len() implies met(s, #[trigger] seeds[i]) by {
            assert(s.pending[i] == seeds[i]);
        }
    }
}

/// A survey that has nothing left to ask for has seen the contexts it was started with,
/// has gathered what it has seen as it is kept, and leaves out no context that leads to
/// or from one that it has seen.
pub proof fn law_survey_is_closed(world: PoolView, seeds: Seq<Seq<char>>, n: nat)
    requires
        ({
            let s = survey_of(world, seeds, n);
            unseen_of(s.pending, s.seen).len() == 0
        }),
    ensures
        ({
            let s = survey_of(world, seeds, n);
            &&& forall|i: int| 0 <= i < seeds.len() ==> s.seen.contains(#[trigger] seeds[i])
            &&& forall|id: Seq<char>| #[trigger]
                s.seen.contains(id) ==> s.pool.context(id) == world.context(id)
            &&& forall|id: Seq<char>, forward: bool, to: Seq<char>|
                #![trigger links(world, forward, id), s.seen.contains(to)]
                s.seen.contains(id) && links(world, forward, id).contains(to) ==> s.seen.contains(
                    to,
                )
        }),
{
    let s = survey_of(world, seeds, n);
    lemma_survey_right(world, seeds, n);
    lemma_unseen_of(s.pending, s.seen);
    assert forall|x: Seq<char>| met(s, x) implies s.seen.contains(x) by {
        assert(!unseen_of(s.pending, s.seen).contains(x));
    }
    assert forall|id: Seq<char>, forward: bool, to: Seq<char>|
        #![trigger links(world, forward, id), s.seen.contains(to)]
        s.seen.contains(id) && links(world, forward, id).contains(to) implies s.seen.contains(
        to,
    ) by {
        assert(met(s, to));
    }
    assert forall|i: int| 0 <= i < seeds.len() implies s.seen.contains(#[trigger] seeds[i]) by {
        assert(met(s, seeds[i]));
    }
}

/// After such a survey a context has the children that it has where it is kept.
pub proof fn law_survey_keeps_children(
    world: PoolView,
    seeds: Seq<Seq<char>>,
    n: nat,
    id: Seq<char>,
    child: Seq<char>,
)
    requires
        world.distinct(),
        ({
            let s = survey_of(world, seeds, n);
            unseen_of(s.pending, s.seen).len() == 0 && s.seen.contains(id)
        }),
    ensures
        survey_of(world, seeds, n).pool.children(id).contains(child) <==> world.children(
            id,
        ).contains(child),
{
    let s = survey_of(world, seeds, n);
    lemma_survey_right(world, seeds, n);
    law_survey_is_closed(world, seeds, n);
    lemma_children(s.pool.contexts, id, child);
    lemma_children(world.contexts, id, child);
    if s.pool.children(id).contains(child) {
        let i = choose|i: int|
            0 <= i < s.pool.contexts.len() && #[trigger] s.pool.contexts[i].id == child
                && s.pool.contexts[i].parents.contains(id);
        assert(s.seen.contains(s.pool.contexts[i].id));
        lemma_pool_distinct(world, seeds, n);
        lemma_context_in(s.pool.contexts, i);
        lemma_context_found(world.contexts, child);
    }
    if world.children(id).contains(child) {
        let i = choose|i: int|
            0 <= i < world.contexts.len() && #[trigger] world.contexts[i].id == child
                && world.contexts[i].parents.contains(id);
        assert(links(world, true, id).contains(child));
        assert(s.seen.contains(child));
        lemma_context_in(world.contexts, i);
        lemma_context_found(s.pool.contexts, child);
    }
}

proof fn lemma_pool_distinct(world: PoolView, seeds: Seq<Seq<char>>, n: nat)
    ensures
        survey_of(world, seeds, n).pool.distinct(),
    decreases n,
{
    if n > 0 {
        let s = survey_of(world, seeds, (n - 1) as nat);
        lemma_pool_distinct(world, seeds, (n - 1) as nat);
        let next = survey_of(world, seeds, n);
        let left = unseen_of(s.pending, s.seen);
        if left.len() > 0 && world.context(left[0]) is Some {
            let c = world.context(left[0])->0;
            if s.pool.context(c.id) is None {
                assert forall|i: int| 0 <= i < s.pool.contexts.len() implies #[trigger]
                    s.pool.contexts[i].id != c.id by {
                    lemma_context_present(s.pool.contexts, i);
                }
                assert forall|i: int, j: int|
                    #![trigger next.pool.contexts[i], next.pool.contexts[j]]
                    0 <= i < j < next.pool.contexts.len() implies next.pool.contexts[i].id
                    != next.pool.contexts[j].id by {
                    assert(next.pool.contexts[i] == s.pool.contexts[i]);
                    if j < s.pool.contexts.len() {
                        assert(next.pool.contexts[j] == s.pool.contexts[j]);
                    }
                }
            }
        }
    }
}

proof fn lemma_context_present(contexts: Seq<ContextView>, i: int)
    requires
        0 <= i < contexts.len(),
    ensures
        context_in(contexts, contexts[i].id) is Some,
    decreases contexts.len(),
{
    if i < contexts.len() - 1 && contexts.last().id != contexts[i].id {
        lemma_context_present(contexts.drop_last(), i);
    }
}

/// The ancestors of a context that has been seen are listed after such a survey as they
/// are where the contexts are kept.
pub proof fn law_survey_keeps_ancestors(
    world: PoolView,
    seeds: Seq<Seq<char>>,
    n: nat,
    entry: Seq<char>,
    depth: nat,
)
    requires
        ({
            let s = survey_of(world, seeds, n);
            unseen_of(s.pending, s.seen).len() == 0 && s.seen.contains(entry)
        }),
    ensures
        ancestors(survey_of(world, seeds, n).pool, entry, depth) == ancestors(world, entry, depth),
{
    let s = survey_of(world, seeds, n);
    law_survey_is_closed(world, seeds, n);
    assert(links(s.pool, false, entry) == links(world, false, entry));
    assert forall|i: int| 0 <= i < links(world, false, entry).len() implies s.seen.contains(
        #[trigger] links(world, false, entry)[i],
    ) by {
        let to = links(world, false, entry)[i];
        assert(links(world, false, entry).contains(to));
    }
    lemma_same_walk(world, s, links(world, false, entry), set![entry], depth);
}

/// Whether what a survey has seen is closed under parents and as it is in `world`.
pub open spec fn closed_up(world: PoolView, s: SurveyView) -> bool {
    &&& forall|id: Seq<char>| #[trigger]
        s.seen.contains(id) ==> s.pool.context(id) == world.context(id)
    &&& forall|id: Seq<char>, forward: bool, to: Seq<char>|
        #![trigger links(world, forward, id), s.seen.contains(to)]
        s.seen.contains(id) && links(world, forward, id).contains(to) ==> s.seen.contains(to)
}

proof fn lemma_same_links(world: PoolView, s: SurveyView, ids: Seq<Seq<char>>)
    requires
        closed_up(world, s),
        forall|i: int| 0 <= i < ids.len() ==> s.seen.contains(#[trigger] ids[i]),
    ensures
        all_links(s.pool, false, ids) == all_links(world, false, ids),
        forall|i: int|
            0 <= i < all_links(world, false, ids).len() ==> s.seen.contains(
                #[trigger] all_links(world, false, ids)[i],
            ),
    decreases ids.len(),
{
    if ids.len() > 0 {
        let front = ids.drop_last();
        assert forall|i: int| 0 <= i < front.len() implies s.seen.contains(#[trigger] front[i]) by {
            assert(front[i] == ids[i]);
        }
        lemma_same_links(world, s, front);
        let last = ids.last();
        assert(s.seen.contains(ids[ids.len() - 1]));
        assert(links(s.pool, false, last) == links(world, false, last));
        let rest = all_links(world, false, front);
        let all = all_links(world, false, ids);
        assert forall|i: int| 0 <= i < all.len() implies s.seen.contains(#[trigger] all[i]) by {
            if i < rest.len() {
                assert(s.seen.contains(rest[i]));
            } else {
                let to = links(world, false, last)[i - rest.len()];
                assert(links(world, false, last).contains(to));
            }
        }
    }
}

proof fn lemma_fresh_from(frontier: Seq<Seq<char>>, visited: Set<Seq<char>>, seen: Set<Seq<char>>)
    requires
        forall|i: int| 0 <= i < frontier.len() ==> seen.contains(#[trigger] frontier[i]),
    ensures
        forall|i: int|
            0 <= i < fresh(frontier, visited).len() ==> seen.contains(
                #[trigger] fresh(frontier, visited)[i],
            ),
    decreases frontier.len(),
{
    if frontier.len() > 0 {
        let front = frontier.drop_last();
        assert forall|i: int| 0 <= i < front.len() implies seen.contains(#[trigger] front[i]) by {
            assert(front[i] == frontier[i]);
        }
        lemma_fresh_from(front, visited, seen);
        assert(seen.contains(frontier[frontier.len() - 1]));
        let all = fresh(frontier, visited);
        assert forall|i: int| 0 <= i < all.len() implies seen.contains(#[trigger] all[i]) by {
            if i < fresh(front, visited).len() {
                assert(all[i] == fresh(front, visited)[i]);
            }
        }
    }
}

proof fn lemma_same_walk(
    world: PoolView,
    s: SurveyView,
    frontier: Seq<Seq<char>>,
    visited: Set<Seq<char>>,
    depth: nat,
)
    requires
        closed_up(world, s),
        forall|i: int| 0 <= i < frontier.len() ==> s.seen.contains(#[trigger] frontier[i]),
    ensures
        walked(s.pool, false, frontier, visited, depth) == walked(
            world,
            false,
            frontier,
            visited,
            depth,
        ),
    decreases depth,
{
    if depth > 0 && frontier.len() > 0 {
        let found = fresh(frontier, visited);
        lemma_fresh_from(frontier, visited, s.seen);
        lemma_same_links(world, s, found);
        lemma_same_walk(
            world,
            s,
            all_links(world, false, found),
            visited.union(found.to_set()),
            (depth - 1) as nat,
        );
    }
}

/// Whether a survey holds no message but as `world` does, and all of those of the contexts
/// it has seen.
pub open spec fn holds_messages(world: PoolView, s: SurveyView) -> bool {
    &&& forall|id: Seq<char>| #[trigger]
        s.pool.messages.contains_key(id) ==> world.message(id) == Some(s.pool.messages[id])
    &&& forall|id: Seq<char>, m: Seq<char>|
        #![trigger s.seen.contains(id), s.pool.messages.contains_key(m)]
        s.seen.contains(id) && world.context(id) is Some && world.context(
            id,
        )->0.messages.contains(m) && world.message(m) is Some ==> s.pool.messages.contains_key(m)
}

proof fn lemma_with_messages(
    world: PoolView,
    messages: Map<Seq<char>, MessageView>,
    ids: Seq<Seq<char>>,
)
    requires
        world.keyed(),
        forall|id: Seq<char>| #[trigger]
            messages.contains_key(id) ==> world.message(id) == Some(messages[id]),
    ensures
        ({
            let after = with_messages(messages, messages_among(world, ids));
            &&& forall|id: Seq<char>| #[trigger]
                after.contains_key(id) ==> world.message(id) == Some(after[id])
            &&& forall|id: Seq<char>| #[trigger]
                messages.contains_key(id) ==> after.contains_key(id)
            &&& forall|id: Seq<char>|
                #![trigger after.contains_key(id)]
                ids.contains(id) && world.message(id) is Some ==> after.contains_key(id)
        }),
    decreases ids.len(),
{
    let after = with_messages(messages, messages_among(world, ids));
    if ids.len() > 0 {
        let fewer = ids.drop_last();
        let rest = messages_among(world, fewer);
        lemma_with_messages(world, messages, fewer);
        let before = with_messages(messages, rest);
        if let Some(m) = world.message(ids.last()) {
            assert(rest.push(m).drop_last() =~= rest);
            assert(m.id == ids.last());
            assert(after == before.insert(m.id, m));
        }
        assert forall|id: Seq<char>| #[trigger] messages.contains_key(id) implies
            after.contains_key(id) by {
            assert(before.contains_key(id));
        }
        assert forall|id: Seq<char>|
            #![trigger after.contains_key(id)]
            ids.contains(id) && world.message(id) is Some implies after.contains_key(id) by {
            let k = choose|k: int| 0 <= k < ids.len() && ids[k] == id;
            if k < fewer.len() {
                assert(fewer[k] == id);
                assert(before.contains_key(id));
            }
        }
    }
}

proof fn lemma_messages_are_gathered(world: PoolView, seeds: Seq<Seq<char>>, n: nat)
    requires
        world.keyed(),
    ensures
        holds_messages(world, survey_of(world, seeds, n)),
    decreases n,
{
    if n > 0 {
        let s = survey_of(world, seeds, (n - 1) as nat);
        lemma_messages_are_gathered(world, seeds, (n - 1) as nat);
        let left = unseen_of(s.pending, s.seen);
        if left.len() > 0 {
            let found = kept(world, left[0]);
            let next = surveyed(world, s);
            if let Some(c) = found.context {
                lemma_with_messages(world, s.pool.messages, c.messages);
            }
            assert forall|id: Seq<char>, m: Seq<char>|
                #![trigger next.seen.contains(id), next.pool.messages.contains_key(m)]
                next.seen.contains(id) && world.context(id) is Some && world.context(
                    id,
                )->0.messages.contains(m) && world.message(m) is Some implies
                next.pool.messages.contains_key(m) by {
                if id != left[0] {
                    assert(s.seen.contains(id));
                    assert(s.pool.messages.contains_key(m));
                }
            }
        }
    }
}

/// The messages of every context that a survey has seen are gathered with it, each as it is
/// kept, and no message is gathered that is not kept.
pub proof fn law_survey_gathers_messages(
    world: PoolView,
    seeds: Seq<Seq<char>>,
    n: nat,
    id: Seq<char>,
    message: Seq<char>,
)
    requires
        world.keyed(),
    ensures
        ({
            let s = survey_of(world, seeds, n);
            &&& s.pool.message(message) is Some ==> s.pool.message(message) == world.message(
                message,
            )
            &&& s.seen.contains(id) && world.context(id) is Some && world.context(
                id,
            )->0.messages.contains(message) ==> s.pool.message(message) == world.message(message)
        }),
{
    lemma_messages_are_gathered(world, seeds, n);
    let s = survey_of(world, seeds, n);
    assert(s.pool.messages.contains_key(message) ==> world.message(message) == Some(
        s.pool.messages[message],
    ));
    assert(s.seen.contains(id) ==> s.seen.contains(id));
}

/// Each context is asked for once, and what has been met is asked for in the order in which
/// it was met.
pub proof fn law_survey_asks_once(s: SurveyView, ids: Seq<Seq<char>>, id: Seq<char>)
    requires
        forall|i: int| 0 <= i < ids.len() ==> s.seen.contains(#[trigger] ids[i]),
        !s.seen.contains(id),
    ensures
        unseen_of(ids + seq![id] + s.pending, s.seen) == seq![id] + s.pending,
        unseen_of(ids, s.seen).len() == 0,
    decreases ids.len(),
{
    let all = ids + seq![id] + s.pending;
    if ids.len() == 0 {
        assert(all =~= seq![id] + s.pending);
    } else {
        let rest = ids.skip(1);
        assert forall|i: int| 0 <= i < rest.len() implies s.seen.contains(#[trigger] rest[i]) by {
            assert(rest[i] == ids[i + 1]);
        }
        law_survey_asks_once(s, rest, id);
        assert(all.skip(1) =~= rest + seq![id] + s.pending);
        assert(all[0] == ids[0]);
    }
}

} // verus!
