//! The crawl worker as a state machine.
//!
//! The worker itself does no I/O. Each call of [`CrawlWorker::step`] takes the
//! outcome of the request that the worker made last and returns the next
//! request: connect, navigate, read the body, emit a result, list the links,
//! pause, or stop. Whoever drives the browser performs the request and reports
//! back.

use crate::frontier::{Frontier, FrontierView};
use crate::links::{followed_link, link_to_follow, root_domain_of, text_of, SiteUrl, UrlParts};
use vstd::prelude::*;
use vstd::string::StringExecFns;

verus! {

/// How long the worker pauses between two pages, in milliseconds.
pub const PAUSE_MILLIS: u64 = 50;

/// The text of a page of which only the body element was found.
pub open spec fn extraction_failed_text() -> Seq<char> {
    "<Body text extraction failed>"@
}

/// The text of a page without a body element.
pub open spec fn body_missing_text() -> Seq<char> {
    "<Body element not found>"@
}

/// One crawled page as a mathematical value.
pub struct Record {
    pub url: Seq<char>,
    pub body: Seq<char>,
}

/// One crawled page: its address and the visible text of its body.
#[derive(Debug, Clone, PartialEq, Eq)]
pub struct CrawlResult {
    pub url: String,
    pub body: String,
}

impl View for CrawlResult {
    type V = Record;

    open spec fn view(&self) -> Record {
        Record { url: self.url@, body: self.body@ }
    }
}

/// What the worker waits for.
#[derive(Debug, Clone, Copy, PartialEq, Eq)]
pub enum Phase {
    /// The connection to the browser.
    Connecting,
    /// The end of the navigation to the current URL.
    Navigating,
    /// The body text of the current page.
    Extracting,
    /// The delivery of the current page's result.
    Emitting,
    /// The links of the current page.
    Listing,
    /// The end of the pause before the next page.
    Pausing,
    /// Nothing: the worker has stopped for good.
    Stopped,
}

/// How reading the body of a page ended.
#[derive(Debug, Clone, PartialEq, Eq)]
pub enum BodyOutcome {
    /// The visible text of the body.
    Text(String),
    /// The body element was found, its text could not be read.
    ExtractionFailed,
    /// No body element was found.
    NotFound,
}

/// What the worker is told: the outcome of its last request.
#[derive(Debug, Clone, PartialEq, Eq)]
pub enum WorkerEvent {
    /// Whether the connection to the browser was made.
    Connected(bool),
    /// Whether the navigation succeeded.
    Navigated(bool),
    /// How reading the body ended.
    Body(BodyOutcome),
    /// Whether the result was delivered; `false` when the channel is closed.
    Emitted(bool),
    /// The `href` of each anchor of the page, `None` for an anchor without
    /// one; or `None` when the anchors could not be listed.
    Links(Option<Vec<Option<String>>>),
    /// The pause has passed.
    Paused,
}

/// What the worker asks for next.
#[derive(Debug, Clone, PartialEq, Eq)]
pub enum WorkerAction {
    /// Navigate to this URL.
    Navigate(String),
    /// Read the text of the body of the current page.
    ReadBody,
    /// Deliver this result.
    Emit(CrawlResult),
    /// List the `href` attributes of the anchors of the current page.
    ListLinks,
    /// Wait for [`PAUSE_MILLIS`].
    Pause,
    /// Close the browser session; the worker has stopped.
    Close,
    /// Nothing is left to do; the worker has stopped without a browser session.
    Halt,
}

/// A [`BodyOutcome`] as a mathematical value.
pub enum BodyOutcomeView {
    Text(Seq<char>),
    ExtractionFailed,
    NotFound,
}

/// A [`WorkerEvent`] as a mathematical value.
pub enum EventView {
    Connected(bool),
    Navigated(bool),
    Body(BodyOutcomeView),
    Emitted(bool),
    Links(Option<Seq<Option<Seq<char>>>>),
    Paused,
}

/// A [`WorkerAction`] as a mathematical value.
pub enum ActionView {
    Navigate(Seq<char>),
    ReadBody,
    Emit(Record),
    ListLinks,
    Pause,
    Close,
    Halt,
}

/// The `href` values of a page as mathematical values.
pub open spec fn hrefs_view(hrefs: Seq<Option<String>>) -> Seq<Option<Seq<char>>> {
    Seq::new(hrefs.len(), |i: int| text_of(hrefs[i]))
}

impl View for BodyOutcome {
    type V = BodyOutcomeView;

    open spec fn view(&self) -> BodyOutcomeView {
        match self {
            BodyOutcome::Text(t) => BodyOutcomeView::Text(t@),
            BodyOutcome::ExtractionFailed => BodyOutcomeView::ExtractionFailed,
            BodyOutcome::NotFound => BodyOutcomeView::NotFound,
        }
    }
}

impl View for WorkerEvent {
    type V = EventView;

    open spec fn view(&self) -> EventView {
        match self {
            WorkerEvent::Connected(ok) => EventView::Connected(*ok),
            WorkerEvent::Navigated(ok) => EventView::Navigated(*ok),
            WorkerEvent::Body(outcome) => EventView::Body(outcome@),
            WorkerEvent::Emitted(ok) => EventView::Emitted(*ok),
            WorkerEvent::Links(Some(hrefs)) => EventView::Links(Some(hrefs_view(hrefs@))),
            WorkerEvent::Links(None) => EventView::Links(None),
            WorkerEvent::Paused => EventView::Paused,
        }
    }
}

impl View for WorkerAction {
    type V = ActionView;

    open spec fn view(&self) -> ActionView {
        match self {
            WorkerAction::Navigate(url) => ActionView::Navigate(url@),
            WorkerAction::ReadBody => ActionView::ReadBody,
            WorkerAction::Emit(result) => ActionView::Emit(result@),
            WorkerAction::ListLinks => ActionView::ListLinks,
            WorkerAction::Pause => ActionView::Pause,
            WorkerAction::Close => ActionView::Close,
            WorkerAction::Halt => ActionView::Halt,
        }
    }
}

/// The text that is recorded for a page: what was read, or the fixed text that
/// stands for the failure.
pub open spec fn body_text(outcome: BodyOutcomeView) -> Seq<char> {
    match outcome {
        BodyOutcomeView::Text(t) => t,
        BodyOutcomeView::ExtractionFailed => extraction_failed_text(),
        BodyOutcomeView::NotFound => body_missing_text(),
    }
}

/// The frontier after the links of `page` were offered to it in order: each
/// `href` that resolves against `page` to an address on `root_domain` is
/// queued if it is new; an anchor without `href` and a link that does not
/// resolve or leads elsewhere are passed over.
pub open spec fn with_links(
    frontier: FrontierView,
    page: Seq<char>,
    hrefs: Seq<Option<Seq<char>>>,
    root_domain: Seq<char>,
) -> FrontierView
    decreases hrefs.len(),
{
    if hrefs.len() == 0 {
        frontier
    } else {
        let earlier = with_links(frontier, page, hrefs.drop_last(), root_domain);
        match hrefs.last() {
            Some(href) => match followed_link(page, href, root_domain) {
                Some(target) => earlier.enqueue_if_new(target),
                None => earlier,
            },
            None => earlier,
        }
    }
}

/// The frontier once the queued URLs at its front that are visited already
/// have been dropped, and the first queued URL that is not visited taken out.
pub open spec fn after_take(frontier: FrontierView) -> FrontierView
    decreases frontier.pending.len(),
{
    if frontier.pending.len() == 0 {
        frontier
    } else if frontier.visited.contains(frontier.pending[0]) {
        after_take(frontier.dequeue())
    } else {
        frontier.dequeue()
    }
}

/// The first queued URL that is not visited, if there is one.
pub open spec fn taken(frontier: FrontierView) -> Option<Seq<char>>
    decreases frontier.pending.len(),
{
    if frontier.pending.len() == 0 {
        None
    } else if frontier.visited.contains(frontier.pending[0]) {
        taken(frontier.dequeue())
    } else {
        Some(frontier.pending[0])
    }
}

/// The worker as a mathematical value.
pub struct WorkerView {
    pub frontier: FrontierView,
    pub root_domain: Seq<char>,
    pub phase: Phase,
    /// The URL in work, or the one worked on last.
    pub current: Seq<char>,
}

impl WorkerView {
    /// The worker before its first step: the root is queued, nothing is
    /// visited, and the connection to the browser is awaited.
    pub open spec fn start(root: UrlParts) -> WorkerView {
        WorkerView {
            frontier: FrontierView::empty().enqueue_if_new(root.text),
            root_domain: root_domain_of(root),
            phase: Phase::Connecting,
            current: Seq::empty(),
        }
    }

    /// The worker in another phase.
    pub open spec fn in_phase(self, phase: Phase) -> WorkerView {
        WorkerView { phase, ..self }
    }

    /// The worker with another frontier.
    pub open spec fn with_frontier(self, frontier: FrontierView) -> WorkerView {
        WorkerView { frontier, ..self }
    }

    /// Turning to the next page: the first queued URL that is not visited is
    /// taken and navigated to; with none left the worker stops and closes the
    /// browser session.
    pub open spec fn advance(self) -> (WorkerView, ActionView) {
        match taken(self.frontier) {
            Some(url) => (
                WorkerView {
                    frontier: after_take(self.frontier),
                    phase: Phase::Navigating,
                    current: url,
                    ..self
                },
                ActionView::Navigate(url),
            ),
            None => (
                self.with_frontier(after_take(self.frontier)).in_phase(Phase::Stopped),
                ActionView::Close,
            ),
        }
    }

    /// Stopping on an event that the phase does not wait for. A browser
    /// session is closed where there is one.
    pub open spec fn give_up(self) -> (WorkerView, ActionView) {
        (
            self.in_phase(Phase::Stopped),
            if self.phase == Phase::Connecting || self.phase == Phase::Stopped {
                ActionView::Halt
            } else {
                ActionView::Close
            },
        )
    }

    /// The worker after an event, and what it asks for next.
    pub open spec fn step(self, event: EventView) -> (WorkerView, ActionView) {
        match (self.phase, event) {
            (Phase::Connecting, EventView::Connected(true)) => self.advance(),
            (Phase::Navigating, EventView::Navigated(true)) => (
                self.with_frontier(self.frontier.mark_visited(self.current)).in_phase(
                    Phase::Extracting,
                ),
                ActionView::ReadBody,
            ),
            (Phase::Navigating, EventView::Navigated(false)) => self.with_frontier(
                self.frontier.mark_visited(self.current),
            ).advance(),
            (Phase::Extracting, EventView::Body(outcome)) => (
                self.in_phase(Phase::Emitting),
                ActionView::Emit(Record { url: self.current, body: body_text(outcome) }),
            ),
            (Phase::Emitting, EventView::Emitted(true)) => (
                self.in_phase(Phase::Listing),
                ActionView::ListLinks,
            ),
            (Phase::Listing, EventView::Links(Some(hrefs))) => (
                self.with_frontier(
                    with_links(self.frontier, self.current, hrefs, self.root_domain),
                ).in_phase(Phase::Pausing),
                ActionView::Pause,
            ),
            (Phase::Listing, EventView::Links(None)) => (
                self.in_phase(Phase::Pausing),
                ActionView::Pause,
            ),
            (Phase::Pausing, EventView::Paused) => self.advance(),
            _ => self.give_up(),
        }
    }

    /// The worker after a sequence of events.
    pub open spec fn after(self, events: Seq<EventView>) -> WorkerView
        decreases events.len(),
    {
        if events.len() == 0 {
            self
        } else {
            self.after(events.drop_last()).step(events.last()).0
        }
    }

    /// The URLs that the worker asks to navigate to over a sequence of events,
    /// in order.
    pub open spec fn navigated(self, events: Seq<EventView>) -> Seq<Seq<char>>
        decreases events.len(),
    {
        if events.len() == 0 {
            Seq::empty()
        } else {
            let earlier = self.navigated(events.drop_last());
            match self.after(events.drop_last()).step(events.last()).1 {
                ActionView::Navigate(url) => earlier.push(url),
                _ => earlier,
            }
        }
    }

    /// The URLs of the results that the worker hands over for delivery over a
    /// sequence of events, in order.
    pub open spec fn emitted(self, events: Seq<EventView>) -> Seq<Seq<char>>
        decreases events.len(),
    {
        if events.len() == 0 {
            Seq::empty()
        } else {
            let earlier = self.emitted(events.drop_last());
            match self.after(events.drop_last()).step(events.last()).1 {
                ActionView::Emit(result) => earlier.push(result.url),
                _ => earlier,
            }
        }
    }

    /// What holds of a worker and the URLs it has navigated to and emitted so
    /// far: neither list repeats a URL, what was emitted was navigated to, and
    /// every URL navigated to is visited, but for the one in flight.
    pub open spec fn on_track(self, fetched: Seq<Seq<char>>, sent: Seq<Seq<char>>) -> bool {
        &&& self.frontier.valid()
        &&& fetched.no_duplicates()
        &&& sent.no_duplicates()
        &&& forall|url: Seq<char>| sent.contains(url) ==> fetched.contains(url)
        &&& match self.phase {
            Phase::Connecting => fetched.len() == 0,
            Phase::Navigating => {
                &&& fetched.contains(self.current)
                &&& !sent.contains(self.current)
                &&& forall|url: Seq<char>|
                    fetched.contains(url) && url != self.current
                        ==> self.frontier.visited.contains(url)
            },
            Phase::Extracting => {
                &&& fetched.contains(self.current)
                &&& !sent.contains(self.current)
                &&& forall|url: Seq<char>|
                    fetched.contains(url) ==> self.frontier.visited.contains(url)
            },
            Phase::Stopped => true,
            _ => forall|url: Seq<char>|
                fetched.contains(url) ==> self.frontier.visited.contains(url),
        }
    }
}

/// Taking the next URL keeps a valid frontier valid and keeps what is visited.
pub proof fn lemma_after_take_valid(frontier: FrontierView)
    requires
        frontier.valid(),
    ensures
        after_take(frontier).valid(),
        after_take(frontier).visited == frontier.visited,
        taken(frontier) matches Some(url) ==> !after_take(frontier).pending.contains(url)
            && !frontier.visited.contains(url),
    decreases frontier.pending.len(),
{
    if frontier.pending.len() > 0 {
        if frontier.visited.contains(frontier.pending[0]) {
            lemma_after_take_valid(frontier.dequeue());
        } else {
            let rest = frontier.dequeue().pending;
            if rest.contains(frontier.pending[0]) {
                let k = rest.index_of(frontier.pending[0]);
                assert(frontier.pending[k + 1] == frontier.pending[0]);
            }
        }
    }
}

/// Offering links keeps a valid frontier valid and keeps what is visited.
pub proof fn lemma_with_links_valid(
    frontier: FrontierView,
    page: Seq<char>,
    hrefs: Seq<Option<Seq<char>>>,
    root_domain: Seq<char>,
)
    requires
        frontier.valid(),
    ensures
        with_links(frontier, page, hrefs, root_domain).valid(),
        with_links(frontier, page, hrefs, root_domain).visited == frontier.visited,
    decreases hrefs.len(),
{
    if hrefs.len() > 0 {
        lemma_with_links_valid(frontier, page, hrefs.drop_last(), root_domain);
    }
}

/// The worker never asks to navigate to a visited URL, and the URL it turns
/// to is no longer queued.
pub proof fn lemma_navigates_to_unvisited(worker: WorkerView, event: EventView)
    requires
        worker.frontier.valid(),
    ensures
        worker.step(event).0.frontier.valid(),
        worker.step(event).1 matches ActionView::Navigate(url) ==> {
            &&& !worker.step(event).0.frontier.visited.contains(url)
            &&& !worker.step(event).0.frontier.pending.contains(url)
            &&& worker.step(event).0.current == url
        },
{
    let marked = worker.frontier.mark_visited(worker.current);
    crate::frontier::lemma_pending_without(worker.frontier, worker.current);
    lemma_after_take_valid(worker.frontier);
    lemma_after_take_valid(marked);
    match event {
        EventView::Links(Some(hrefs)) => {
            lemma_with_links_valid(worker.frontier, worker.current, hrefs, worker.root_domain);
        },
        _ => {},
    }
}

/// A sequence without repetition stays without repetition when a value that
/// it does not hold is appended.
proof fn lemma_push_fresh(s: Seq<Seq<char>>, url: Seq<char>)
    requires
        s.no_duplicates(),
        !s.contains(url),
    ensures
        s.push(url).no_duplicates(),
        forall|other: Seq<char>| #[trigger]
            s.push(url).contains(other) <==> (s.contains(other) || other == url),
{
    let t = s.push(url);
    assert forall|i: int, j: int| 0 <= i < t.len() && 0 <= j < t.len() && i != j implies t[i]
        != t[j] by {
        if i == s.len() {
            assert(s.contains(t[j]));
        } else if j == s.len() {
            assert(s.contains(t[i]));
        }
    }
    assert forall|other: Seq<char>| t.contains(other) <==> (s.contains(other) || other
        == url) by {
        if t.contains(other) {
            let k = t.index_of(other);
            if k < s.len() {
                assert(s[k] == other);
            }
        }
        if s.contains(other) {
            let k = s.index_of(other);
            assert(t[k] == other);
        }
        if other == url {
            assert(t[s.len() as int] == other);
        }
    }
}

/// Turning to the next page keeps the worker on track.
proof fn lemma_advance_on_track(
    worker: WorkerView,
    fetched: Seq<Seq<char>>,
    sent: Seq<Seq<char>>,
)
    requires
        worker.frontier.valid(),
        fetched.no_duplicates(),
        sent.no_duplicates(),
        forall|url: Seq<char>| sent.contains(url) ==> fetched.contains(url),
        forall|url: Seq<char>| fetched.contains(url) ==> worker.frontier.visited.contains(url),
    ensures
        match worker.advance().1 {
            ActionView::Navigate(url) => worker.advance().0.on_track(fetched.push(url), sent),
            _ => worker.advance().0.on_track(fetched, sent),
        },
{
    lemma_after_take_valid(worker.frontier);
    match taken(worker.frontier) {
        Some(url) => {
            lemma_push_fresh(fetched, url);
        },
        None => {},
    }
}

/// One step keeps the worker on track.
proof fn lemma_step_on_track(
    worker: WorkerView,
    event: EventView,
    fetched: Seq<Seq<char>>,
    sent: Seq<Seq<char>>,
)
    requires
        worker.on_track(fetched, sent),
    ensures
        match worker.step(event).1 {
            ActionView::Navigate(url) => worker.step(event).0.on_track(fetched.push(url), sent),
            ActionView::Emit(result) => worker.step(event).0.on_track(
                fetched,
                sent.push(result.url),
            ),
            _ => worker.step(event).0.on_track(fetched, sent),
        },
{
    let marked = worker.with_frontier(worker.frontier.mark_visited(worker.current));
    crate::frontier::lemma_pending_without(worker.frontier, worker.current);
    match (worker.phase, event) {
        (Phase::Connecting, EventView::Connected(true)) => {
            assert forall|url: Seq<char>| fetched.contains(url) implies false by {
                let k = fetched.index_of(url);
            }
            lemma_advance_on_track(worker, fetched, sent);
        },
        (Phase::Navigating, EventView::Navigated(true)) => {},
        (Phase::Navigating, EventView::Navigated(false)) => {
            lemma_advance_on_track(marked, fetched, sent);
        },
        (Phase::Extracting, EventView::Body(outcome)) => {
            lemma_push_fresh(sent, worker.current);
        },
        (Phase::Listing, EventView::Links(Some(hrefs))) => {
            lemma_with_links_valid(worker.frontier, worker.current, hrefs, worker.root_domain);
        },
        (Phase::Pausing, EventView::Paused) => {
            lemma_advance_on_track(worker, fetched, sent);
        },
        _ => {},
    }
}

/// Over any sequence of events a worker that starts on track stays on track.
proof fn lemma_run_on_track(start: WorkerView, events: Seq<EventView>)
    requires
        start.on_track(Seq::empty(), Seq::empty()),
    ensures
        start.after(events).on_track(start.navigated(events), start.emitted(events)),
    decreases events.len(),
{
    if events.len() > 0 {
        lemma_run_on_track(start, events.drop_last());
        lemma_step_on_track(
            start.after(events.drop_last()),
            events.last(),
            start.navigated(events.drop_last()),
            start.emitted(events.drop_last()),
        );
    }
}

/// Whatever the worker is told and in whatever order, it never asks to
/// navigate to the same URL twice and never hands over two results for the
/// same URL.
pub proof fn lemma_no_page_is_fetched_twice(root: UrlParts, events: Seq<EventView>)
    ensures
        WorkerView::start(root).navigated(events).no_duplicates(),
        WorkerView::start(root).emitted(events).no_duplicates(),
        forall|url: Seq<char>|
            WorkerView::start(root).emitted(events).contains(url) ==> WorkerView::start(
                root,
            ).navigated(events).contains(url),
{
    let start = WorkerView::start(root);
    let none = Seq::<Seq<char>>::empty();
    assert(start.frontier.valid());
    assert forall|url: Seq<char>| !none.contains(url) by {
        if none.contains(url) {
            let k = none.index_of(url);
        }
    }
    lemma_run_on_track(start, events);
}

/// The crawl worker of one session.
pub struct CrawlWorker {
    frontier: Frontier,
    root_domain: String,
    phase: Phase,
    current: String,
}

impl View for CrawlWorker {
    type V = WorkerView;

    closed spec fn view(&self) -> WorkerView {
        WorkerView {
            frontier: self.frontier@,
            root_domain: self.root_domain@,
            phase: self.phase,
            current: self.current@,
        }
    }
}

impl CrawlWorker {
    /// The worker is well formed: its frontier is valid.
    pub open spec fn inv(&self) -> bool {
        self@.frontier.valid()
    }

    /// A worker for a crawl that starts at `root` and stays on its domain.
    pub fn new(root: &SiteUrl) -> (r: CrawlWorker)
        ensures
            r@ == WorkerView::start(root@),
            r.inv(),
    {
        let mut frontier = Frontier::new();
        frontier.enqueue_if_new(root.text.clone());
        CrawlWorker {
            frontier,
            root_domain: root.root_domain(),
            phase: Phase::Connecting,
            current: String::new(),
        }
    }

    /// What the worker waits for.
    pub fn phase(&self) -> (r: Phase)
        ensures
            r == self@.phase,
    {
        self.phase
    }

    /// Whether the worker has stopped for good.
    pub fn is_stopped(&self) -> (r: bool)
        ensures
            r == (self@.phase == Phase::Stopped),
    {
        match self.phase {
            Phase::Stopped => true,
            _ => false,
        }
    }

    /// The frontier of the crawl.
    pub fn frontier(&self) -> (r: &Frontier)
        ensures
            r@ == self@.frontier,
    {
        &self.frontier
    }

    /// The URL in work, or the one worked on last.
    pub fn current_url(&self) -> (r: &str)
        ensures
            r@ == self@.current,
    {
        self.current.as_str()
    }

    /// Turns to the next page or stops.
    fn advance(&mut self) -> (action: WorkerAction)
        requires
            old(self).inv(),
        ensures
            final(self).inv(),
            (final(self)@, action@) == old(self)@.advance(),
    {
        let ghost start = self@;
        loop
            invariant
                self.inv(),
                start == old(self)@,
                self@.root_domain == start.root_domain,
                self@.phase == start.phase,
                self@.current == start.current,
                taken(self@.frontier) == taken(start.frontier),
                after_take(self@.frontier) == after_take(start.frontier),
            decreases self@.frontier.pending.len(),
        {
            let ghost before = self@.frontier;
            match self.frontier.dequeue() {
                Some(url) => {
                    assert(before.pending.len() > 0 && before.pending[0] == url@);
                    if !self.frontier.is_visited(url.as_str()) {
                        assert(taken(before) == Some(url@));
                        assert(after_take(before) == before.dequeue());
                        let target = url.clone();
                        self.current = url;
                        self.phase = Phase::Navigating;
                        return WorkerAction::Navigate(target);
                    }
                    assert(taken(before) == taken(before.dequeue()));
                    assert(after_take(before) == after_take(before.dequeue()));
                },
                None => {
                    assert(before.pending.len() == 0);
                    assert(taken(before) is None);
                    assert(after_take(before) == before);
                    self.phase = Phase::Stopped;
                    return WorkerAction::Close;
                },
            }
        }
    }

    /// Stops on an event that the phase does not wait for.
    fn give_up(&mut self) -> (action: WorkerAction)
        ensures
            (final(self)@, action@) == old(self)@.give_up(),
    {
        let action = match self.phase {
            Phase::Connecting => WorkerAction::Halt,
            Phase::Stopped => WorkerAction::Halt,
            _ => WorkerAction::Close,
        };
        self.phase = Phase::Stopped;
        action
    }

    /// Offers the links of the current page to the frontier.
    fn offer_links(&mut self, hrefs: &Vec<Option<String>>)
        requires
            old(self).inv(),
        ensures
            final(self).inv(),
            final(self)@ == old(self)@.with_frontier(
                with_links(
                    old(self)@.frontier,
                    old(self)@.current,
                    hrefs_view(hrefs@),
                    old(self)@.root_domain,
                ),
            ),
    {
        let ghost start = self@;
        let ghost all = hrefs_view(hrefs@);
        let mut i: usize = 0;
        while i < hrefs.len()
            invariant
                i <= hrefs.len(),
                all == hrefs_view(hrefs@),
                self.inv(),
                self@ == start.with_frontier(
                    with_links(start.frontier, start.current, all.take(i as int), start.root_domain),
                ),
            decreases hrefs.len() - i,
        {
            assert(all.take(i + 1).drop_last() =~= all.take(i as int));
            assert(all.take(i + 1).last() == text_of(hrefs@[i as int]));
            match &hrefs[i] {
                Some(href) => {
                    match link_to_follow(
                        self.current.as_str(),
                        href.as_str(),
                        self.root_domain.as_str(),
                    ) {
                        Some(target) => {
                            self.frontier.enqueue_if_new(target);
                        },
                        None => {},
                    }
                },
                None => {},
            }
            i += 1;
        }
        assert(all.take(i as int) =~= all);
    }

    /// Takes the outcome of the request made last and returns the next request.
    ///
    /// The first event is the outcome of connecting to the browser. From then
    /// on the worker takes pages from the frontier until none is left or a
    /// result cannot be delivered. An event that the phase does not wait for
    /// stops the worker.
    pub fn step(&mut self, event: WorkerEvent) -> (action: WorkerAction)
        requires
            old(self).inv(),
        ensures
            final(self).inv(),
            (final(self)@, action@) == old(self)@.step(event@),
    {
        proof {
            lemma_navigates_to_unvisited(self@, event@);
        }
        match (self.phase, event) {
            (Phase::Connecting, WorkerEvent::Connected(true)) => self.advance(),
            (Phase::Navigating, WorkerEvent::Navigated(true)) => {
                self.frontier.mark_visited(self.current.clone());
                self.phase = Phase::Extracting;
                WorkerAction::ReadBody
            },
            (Phase::Navigating, WorkerEvent::Navigated(false)) => {
                self.frontier.mark_visited(self.current.clone());
                self.advance()
            },
            (Phase::Extracting, WorkerEvent::Body(outcome)) => {
                let body = match outcome {
                    BodyOutcome::Text(t) => t,
                    BodyOutcome::ExtractionFailed => String::from_str(
                        "<Body text extraction failed>",
                    ),
                    BodyOutcome::NotFound => String::from_str("<Body element not found>"),
                };
                self.phase = Phase::Emitting;
                WorkerAction::Emit(CrawlResult { url: self.current.clone(), body })
            },
            (Phase::Emitting, WorkerEvent::Emitted(true)) => {
                self.phase = Phase::Listing;
                WorkerAction::ListLinks
            },
            (Phase::Listing, WorkerEvent::Links(Some(hrefs))) => {
                self.offer_links(&hrefs);
                self.phase = Phase::Pausing;
                WorkerAction::Pause
            },
            (Phase::Listing, WorkerEvent::Links(None)) => {
                self.phase = Phase::Pausing;
                WorkerAction::Pause
            },
            (Phase::Pausing, WorkerEvent::Paused) => self.advance(),
            _ => self.give_up(),
        }
    }
}

} // verus!
