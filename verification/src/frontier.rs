//! The crawl frontier: the queue of URLs still to fetch and the set of URLs
//! already handed to the browser.

use crate::text::{same_text, views};
use std::collections::VecDeque;
use vstd::hash_set::StringHashSet;
use vstd::prelude::*;

verus! {

/// The frontier as a mathematical value: the pending URLs, oldest first, and
/// the visited URLs.
pub struct FrontierView {
    pub pending: Seq<Seq<char>>,
    pub visited: Set<Seq<char>>,
}

/// One call on a frontier, for statements about sequences of calls.
pub enum FrontierOp {
    EnqueueIfNew(Seq<char>),
    Dequeue,
    MarkVisited(Seq<char>),
}

impl FrontierView {
    /// The frontier that holds nothing.
    pub open spec fn empty() -> FrontierView {
        FrontierView { pending: Seq::empty(), visited: Set::empty() }
    }

    /// No URL is queued twice, and no queued URL is visited.
    pub open spec fn valid(self) -> bool {
        &&& self.pending.no_duplicates()
        &&& forall|i: int| 0 <= i < self.pending.len() ==> !self.visited.contains(self.pending[i])
    }

    /// A URL is new when it is neither visited nor queued.
    pub open spec fn is_new(self, url: Seq<char>) -> bool {
        !self.visited.contains(url) && !self.pending.contains(url)
    }

    /// A new URL goes to the back of the queue; any other changes nothing.
    pub open spec fn enqueue_if_new(self, url: Seq<char>) -> FrontierView {
        if self.is_new(url) {
            FrontierView { pending: self.pending.push(url), visited: self.visited }
        } else {
            self
        }
    }

    /// The URL that the next dequeue hands out: the oldest queued one.
    pub open spec fn front(self) -> Option<Seq<char>> {
        if self.pending.len() == 0 {
            None
        } else {
            Some(self.pending[0])
        }
    }

    /// The frontier after a dequeue: without its oldest queued URL.
    pub open spec fn dequeue(self) -> FrontierView {
        if self.pending.len() == 0 {
            self
        } else {
            FrontierView { pending: self.pending.drop_first(), visited: self.visited }
        }
    }

    /// The queue without `url`.
    pub open spec fn pending_without(self, url: Seq<char>) -> Seq<Seq<char>> {
        if self.pending.contains(url) {
            self.pending.remove(self.pending.index_of(url))
        } else {
            self.pending
        }
    }

    /// The URL is visited from now on and no longer queued.
    pub open spec fn mark_visited(self, url: Seq<char>) -> FrontierView {
        FrontierView { pending: self.pending_without(url), visited: self.visited.insert(url) }
    }

    /// The frontier after one call.
    pub open spec fn apply(self, op: FrontierOp) -> FrontierView {
        match op {
            FrontierOp::EnqueueIfNew(url) => self.enqueue_if_new(url),
            FrontierOp::Dequeue => self.dequeue(),
            FrontierOp::MarkVisited(url) => self.mark_visited(url),
        }
    }

    /// The frontier after a sequence of calls.
    pub open spec fn after(self, ops: Seq<FrontierOp>) -> FrontierView
        decreases ops.len(),
    {
        if ops.len() == 0 {
            self
        } else {
            self.after(ops.drop_last()).apply(ops.last())
        }
    }

    /// The URLs that the dequeues among a sequence of calls hand out, in order.
    pub open spec fn handed_out(self, ops: Seq<FrontierOp>) -> Seq<Seq<char>>
        decreases ops.len(),
    {
        if ops.len() == 0 {
            Seq::empty()
        } else {
            let earlier = self.handed_out(ops.drop_last());
            match (ops.last(), self.after(ops.drop_last()).front()) {
                (FrontierOp::Dequeue, Some(url)) => earlier.push(url),
                _ => earlier,
            }
        }
    }

    /// The caller's discipline under which no URL is fetched twice: a URL that a
    /// dequeue has handed out is offered again only once it is marked visited.
    pub open spec fn marks_before_offering(self, ops: Seq<FrontierOp>) -> bool {
        forall|j: int|
            0 <= j < ops.len() ==> match #[trigger] ops[j] {
                FrontierOp::EnqueueIfNew(url) => self.handed_out(ops.take(j)).contains(url)
                    ==> self.after(ops.take(j)).visited.contains(url),
                _ => true,
            }
    }
}

/// Every call keeps a valid frontier valid and keeps what is visited.
pub proof fn lemma_apply_keeps_valid(f: FrontierView, op: FrontierOp)
    requires
        f.valid(),
    ensures
        f.apply(op).valid(),
        f.visited.subset_of(f.apply(op).visited),
{
    match op {
        FrontierOp::EnqueueIfNew(url) => {},
        FrontierOp::Dequeue => {},
        FrontierOp::MarkVisited(url) => {
            lemma_pending_without(f, url);
        },
    }
}

/// The queue without `url` holds the other queued URLs, in their order.
pub proof fn lemma_pending_without(f: FrontierView, url: Seq<char>)
    requires
        f.pending.no_duplicates(),
    ensures
        f.pending_without(url).no_duplicates(),
        !f.pending_without(url).contains(url),
        forall|other: Seq<char>|
            other != url ==> (#[trigger] f.pending_without(url).contains(other)
                <==> f.pending.contains(other)),
        forall|other: Seq<char>| #[trigger]
            f.pending_without(url).contains(other) ==> f.pending.contains(other),
{
    let rest = f.pending_without(url);
    if f.pending.contains(url) {
        let at = f.pending.index_of(url);
        f.pending.remove_ensures(at);
        assert forall|other: Seq<char>| other != url && f.pending.contains(other) implies rest.contains(
            other,
        ) by {
            let k = f.pending.index_of(other);
            if k < at {
                assert(rest[k] == other);
            } else {
                assert(rest[k - 1] == other);
            }
        }
        assert forall|other: Seq<char>| #[trigger] rest.contains(other) implies f.pending.contains(
            other,
        ) && other != url by {
            let k = rest.index_of(other);
            if k < at {
                assert(f.pending[k] == other);
            } else {
                assert(f.pending[k + 1] == other);
            }
        }
        assert forall|i: int, j: int| 0 <= i < rest.len() && 0 <= j < rest.len() && i != j implies rest[i]
            != rest[j] by {
            let a = if i < at { i } else { i + 1 };
            let b = if j < at { j } else { j + 1 };
            assert(rest[i] == f.pending[a]);
            assert(rest[j] == f.pending[b]);
        }
    }
}

/// Over any sequence of calls a valid frontier stays valid, so that no visited
/// URL is ever queued again, and the visited set only grows.
pub proof fn lemma_visited_is_never_queued(start: FrontierView, ops: Seq<FrontierOp>)
    requires
        start.valid(),
    ensures
        start.after(ops).valid(),
        start.visited.subset_of(start.after(ops).visited),
        forall|url: Seq<char>|
            start.after(ops).visited.contains(url) ==> !start.after(ops).pending.contains(url),
    decreases ops.len(),
{
    if ops.len() > 0 {
        lemma_visited_is_never_queued(start, ops.drop_last());
        lemma_apply_keeps_valid(start.after(ops.drop_last()), ops.last());
    }
}

/// Over a sequence of calls that marks each URL it was handed before offering
/// it again, no URL is handed out twice, and none that was handed out is queued.
pub proof fn lemma_no_url_dequeued_twice(start: FrontierView, ops: Seq<FrontierOp>)
    requires
        start.valid(),
        start.marks_before_offering(ops),
    ensures
        start.handed_out(ops).no_duplicates(),
        forall|url: Seq<char>|
            start.handed_out(ops).contains(url) ==> !start.after(ops).pending.contains(url),
    decreases ops.len(),
{
    if ops.len() > 0 {
        let earlier_ops = ops.drop_last();
        let before = start.after(earlier_ops);
        let earlier = start.handed_out(earlier_ops);
        assert forall|j: int| 0 <= j < earlier_ops.len() implies match #[trigger] earlier_ops[j] {
            FrontierOp::EnqueueIfNew(url) => start.handed_out(earlier_ops.take(j)).contains(url)
                ==> start.after(earlier_ops.take(j)).visited.contains(url),
            _ => true,
        } by {
            assert(earlier_ops.take(j) =~= ops.take(j));
            assert(earlier_ops[j] == ops[j]);
        }
        lemma_no_url_dequeued_twice(start, earlier_ops);
        lemma_visited_is_never_queued(start, earlier_ops);
        let last = ops.len() - 1;
        assert(ops.take(last) =~= earlier_ops);
        match ops.last() {
            FrontierOp::EnqueueIfNew(url) => {
                assert(ops[last] == ops.last());
                assert forall|u: Seq<char>| earlier.contains(u) implies !before.enqueue_if_new(
                    url,
                ).pending.contains(u) by {
                    if before.is_new(url) && before.enqueue_if_new(url).pending.contains(u) {
                        let k = before.enqueue_if_new(url).pending.index_of(u);
                        if k < before.pending.len() {
                            assert(before.pending[k] == u);
                        }
                    }
                }
            },
            FrontierOp::Dequeue => {
                if before.pending.len() > 0 {
                    let url = before.pending[0];
                    let now = start.handed_out(ops);
                    assert(now == earlier.push(url));
                    assert(before.pending.contains(url));
                    assert(!earlier.contains(url));
                    assert forall|i: int, j: int|
                        0 <= i < now.len() && 0 <= j < now.len() && i != j implies now[i]
                        != now[j] by {
                        if i == earlier.len() {
                            assert(earlier[j] == now[j]);
                        } else if j == earlier.len() {
                            assert(earlier[i] == now[i]);
                        }
                    }
                    assert forall|u: Seq<char>| now.contains(u) implies !before.dequeue().pending.contains(
                        u,
                    ) by {
                        if before.dequeue().pending.contains(u) {
                            let k = before.dequeue().pending.index_of(u);
                            assert(before.pending[k + 1] == u);
                            assert(before.pending.contains(u));
                            let n = now.index_of(u);
                            if n < earlier.len() {
                                assert(earlier[n] == u);
                                assert(earlier.contains(u));
                            } else {
                                assert(u == before.pending[0]);
                            }
                        }
                    }
                }
            },
            FrontierOp::MarkVisited(url) => {
                lemma_pending_without(before, url);
            },
        }
    }
}

/// The frontier of one crawl. Only the three operations of the crawl change it.
pub struct Frontier {
    pending: VecDeque<String>,
    visited: StringHashSet,
}

impl View for Frontier {
    type V = FrontierView;

    closed spec fn view(&self) -> FrontierView {
        FrontierView { pending: views(self.pending@), visited: self.visited@ }
    }
}

impl Frontier {
    /// The frontier is well formed: its view is valid.
    pub open spec fn inv(&self) -> bool {
        self@.valid()
    }

    /// An empty frontier.
    pub fn new() -> (r: Frontier)
        ensures
            r@ == FrontierView::empty(),
            r.inv(),
    {
        let r = Frontier { pending: VecDeque::new(), visited: StringHashSet::new() };
        assert(views(r.pending@) =~= Seq::<Seq<char>>::empty());
        r
    }

    /// How many URLs are queued.
    pub fn pending_len(&self) -> (r: usize)
        ensures
            r == self@.pending.len(),
    {
        self.pending.len()
    }

    /// Whether `url` is in the visited set.
    pub fn is_visited(&self, url: &str) -> (r: bool)
        ensures
            r == self@.visited.contains(url@),
    {
        self.visited.contains(url)
    }

    /// Where `url` stands in the queue, if it is queued.
    fn position(&self, url: &str) -> (r: Option<usize>)
        ensures
            r is Some == self@.pending.contains(url@),
            r matches Some(i) ==> i < self@.pending.len() && self@.pending[i as int] == url@,
    {
        let mut i: usize = 0;
        while i < self.pending.len()
            invariant
                i <= self.pending.len(),
                forall|k: int| 0 <= k < i ==> views(self.pending@)[k] != url@,
            decreases self.pending.len() - i,
        {
            if same_text(self.pending[i].as_str(), url) {
                assert(views(self.pending@)[i as int] == url@);
                return Some(i);
            }
            i += 1;
        }
        None
    }

    /// Whether `url` is queued.
    pub fn is_queued(&self, url: &str) -> (r: bool)
        ensures
            r == self@.pending.contains(url@),
    {
        self.position(url).is_some()
    }

    /// Queues `url` unless it is visited or queued already.
    pub fn enqueue_if_new(&mut self, url: String)
        requires
            old(self).inv(),
        ensures
            final(self)@ == old(self)@.enqueue_if_new(url@),
            final(self).inv(),
    {
        if self.visited.contains(url.as_str()) {
            return ;
        }
        if self.position(url.as_str()).is_some() {
            return ;
        }
        let ghost before = self@;
        self.pending.push_back(url);
        assert(self@.pending =~= before.pending.push(url@));
    }

    /// Takes the oldest queued URL out of the queue, or returns `None` when the
    /// queue is empty.
    pub fn dequeue(&mut self) -> (r: Option<String>)
        requires
            old(self).inv(),
        ensures
            final(self)@ == old(self)@.dequeue(),
            final(self).inv(),
            r is Some == old(self)@.front() is Some,
            r matches Some(url) ==> old(self)@.front() == Some(url@),
    {
        let ghost before = self@;
        let r = self.pending.pop_front();
        assert(self@.pending =~= before.dequeue().pending);
        r
    }

    /// Records `url` as visited and takes it out of the queue if it stands there.
    /// A second call with the same URL changes nothing.
    pub fn mark_visited(&mut self, url: String)
        requires
            old(self).inv(),
        ensures
            final(self)@ == old(self)@.mark_visited(url@),
            final(self).inv(),
    {
        let ghost before = self@;
        match self.position(url.as_str()) {
            Some(i) => {
                assert(before.pending.index_of(url@) == i);
                self.pending.remove(i);
                assert(self@.pending =~= before.pending.remove(i as int));
            },
            None => {},
        }
        self.visited.insert(url);
        proof {
            lemma_pending_without(before, url@);
        }
    }
}

} // verus!
