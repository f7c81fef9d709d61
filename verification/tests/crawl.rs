use crawl_session::crawl::{
    BodyOutcome, CrawlResult, CrawlWorker, Phase, WorkerAction, WorkerEvent, PAUSE_MILLIS,
};
use crawl_session::links::parse_root_url;

fn worker_at(root: &str) -> CrawlWorker {
    CrawlWorker::new(&parse_root_url(root).unwrap())
}

fn page(url: &str, body: &str) -> CrawlResult {
    CrawlResult { url: url.to_string(), body: body.to_string() }
}

fn hrefs(values: &[&str]) -> WorkerEvent {
    WorkerEvent::Links(Some(values.iter().map(|v| Some(v.to_string())).collect()))
}

/// Fetches the page that the worker navigates to, with the given links.
fn fetch(worker: &mut CrawlWorker, url: &str, links: &[&str]) -> WorkerAction {
    assert_eq!(worker.step(WorkerEvent::Navigated(true)), WorkerAction::ReadBody);
    assert_eq!(
        worker.step(WorkerEvent::Body(BodyOutcome::Text("text".to_string()))),
        WorkerAction::Emit(page(url, "text"))
    );
    assert_eq!(worker.step(WorkerEvent::Emitted(true)), WorkerAction::ListLinks);
    assert_eq!(worker.step(hrefs(links)), WorkerAction::Pause);
    worker.step(WorkerEvent::Paused)
}

#[test]
fn worker_starts_with_the_root_queued() {
    let worker = worker_at("http://x/a");
    assert_eq!(worker.phase(), Phase::Connecting);
    assert!(!worker.is_stopped());
    assert_eq!(worker.frontier().pending_len(), 1);
    assert!(worker.frontier().is_queued("http://x/a"));
    assert_eq!(PAUSE_MILLIS, 50);
}

#[test]
fn worker_walks_one_page_through_its_phases() {
    let mut worker = worker_at("http://x/a");
    assert_eq!(
        worker.step(WorkerEvent::Connected(true)),
        WorkerAction::Navigate("http://x/a".to_string())
    );
    assert_eq!(worker.phase(), Phase::Navigating);
    assert_eq!(worker.current_url(), "http://x/a");
    assert!(!worker.frontier().is_visited("http://x/a"));
    assert_eq!(worker.step(WorkerEvent::Navigated(true)), WorkerAction::ReadBody);
    assert_eq!(worker.phase(), Phase::Extracting);
    assert!(worker.frontier().is_visited("http://x/a"));
    assert_eq!(
        worker.step(WorkerEvent::Body(BodyOutcome::Text("hello".to_string()))),
        WorkerAction::Emit(page("http://x/a", "hello"))
    );
    assert_eq!(worker.phase(), Phase::Emitting);
    assert_eq!(worker.step(WorkerEvent::Emitted(true)), WorkerAction::ListLinks);
    assert_eq!(worker.phase(), Phase::Listing);
    assert_eq!(worker.step(hrefs(&["/b"])), WorkerAction::Pause);
    assert_eq!(worker.phase(), Phase::Pausing);
    assert!(worker.frontier().is_queued("http://x/b"));
    assert_eq!(
        worker.step(WorkerEvent::Paused),
        WorkerAction::Navigate("http://x/b".to_string())
    );
}

#[test]
fn worker_stops_when_the_frontier_is_empty() {
    let mut worker = worker_at("http://x/a");
    assert_eq!(
        worker.step(WorkerEvent::Connected(true)),
        WorkerAction::Navigate("http://x/a".to_string())
    );
    assert_eq!(
        fetch(&mut worker, "http://x/a", &["http://x/b", "http://x/a"]),
        WorkerAction::Navigate("http://x/b".to_string())
    );
    assert_eq!(fetch(&mut worker, "http://x/b", &["http://x/a", "/b"]), WorkerAction::Close);
    assert!(worker.frontier().is_visited("http://x/a"));
    assert!(worker.frontier().is_visited("http://x/b"));
    assert_eq!(worker.frontier().pending_len(), 0);
    assert!(worker.is_stopped());
    assert_eq!(worker.phase(), Phase::Stopped);
}

#[test]
fn stopped_worker_stays_stopped() {
    let mut worker = worker_at("http://x/a");
    assert_eq!(worker.step(WorkerEvent::Connected(false)), WorkerAction::Halt);
    assert!(worker.is_stopped());
    assert_eq!(worker.step(WorkerEvent::Connected(true)), WorkerAction::Halt);
    assert_eq!(worker.step(WorkerEvent::Paused), WorkerAction::Halt);
    assert!(worker.is_stopped());
    assert_eq!(worker.frontier().pending_len(), 1);
}

#[test]
fn failed_navigation_marks_the_url_and_goes_on() {
    let mut worker = worker_at("http://x/a");
    worker.step(WorkerEvent::Connected(true));
    assert_eq!(
        fetch(&mut worker, "http://x/a", &["/b", "/c"]),
        WorkerAction::Navigate("http://x/b".to_string())
    );
    assert_eq!(
        worker.step(WorkerEvent::Navigated(false)),
        WorkerAction::Navigate("http://x/c".to_string())
    );
    assert!(worker.frontier().is_visited("http://x/b"));
    assert_eq!(worker.step(WorkerEvent::Navigated(false)), WorkerAction::Close);
    assert!(worker.frontier().is_visited("http://x/c"));
    assert!(worker.is_stopped());
}

#[test]
fn failed_extraction_gives_the_fixed_texts() {
    let mut worker = worker_at("http://x/a");
    worker.step(WorkerEvent::Connected(true));
    worker.step(WorkerEvent::Navigated(true));
    assert_eq!(
        worker.step(WorkerEvent::Body(BodyOutcome::ExtractionFailed)),
        WorkerAction::Emit(page("http://x/a", "<Body text extraction failed>"))
    );
    let mut other = worker_at("http://x/a");
    other.step(WorkerEvent::Connected(true));
    other.step(WorkerEvent::Navigated(true));
    assert_eq!(
        other.step(WorkerEvent::Body(BodyOutcome::NotFound)),
        WorkerAction::Emit(page("http://x/a", "<Body element not found>"))
    );
}

#[test]
fn closed_channel_stops_the_worker() {
    let mut worker = worker_at("http://x/a");
    worker.step(WorkerEvent::Connected(true));
    worker.step(WorkerEvent::Navigated(true));
    worker.step(WorkerEvent::Body(BodyOutcome::Text("t".to_string())));
    assert_eq!(worker.step(WorkerEvent::Emitted(false)), WorkerAction::Close);
    assert!(worker.is_stopped());
}

#[test]
fn failed_link_listing_is_passed_over() {
    let mut worker = worker_at("http://x/a");
    worker.step(WorkerEvent::Connected(true));
    worker.step(WorkerEvent::Navigated(true));
    worker.step(WorkerEvent::Body(BodyOutcome::Text("t".to_string())));
    worker.step(WorkerEvent::Emitted(true));
    assert_eq!(worker.step(WorkerEvent::Links(None)), WorkerAction::Pause);
    assert_eq!(worker.frontier().pending_len(), 0);
    assert_eq!(worker.step(WorkerEvent::Paused), WorkerAction::Close);
}

#[test]
fn links_are_filtered_and_deduplicated() {
    let mut worker = worker_at("http://x.com/dir/page");
    worker.step(WorkerEvent::Connected(true));
    worker.step(WorkerEvent::Navigated(true));
    worker.step(WorkerEvent::Body(BodyOutcome::Text("t".to_string())));
    worker.step(WorkerEvent::Emitted(true));
    let links = WorkerEvent::Links(Some(vec![
        Some("/about".to_string()),
        None,
        Some("http://y.com/z".to_string()),
        Some("/about".to_string()),
        Some("http://[broken".to_string()),
        Some("http://x.com/dir/page".to_string()),
        Some("next".to_string()),
    ]));
    assert_eq!(worker.step(links), WorkerAction::Pause);
    assert_eq!(worker.frontier().pending_len(), 2);
    assert!(worker.frontier().is_queued("http://x.com/about"));
    assert!(worker.frontier().is_queued("http://x.com/dir/next"));
    assert!(!worker.frontier().is_queued("http://y.com/z"));
    assert_eq!(
        worker.step(WorkerEvent::Paused),
        WorkerAction::Navigate("http://x.com/about".to_string())
    );
}

#[test]
fn relative_links_resolve_against_the_current_page() {
    let mut worker = worker_at("http://x.com/");
    worker.step(WorkerEvent::Connected(true));
    assert_eq!(
        fetch(&mut worker, "http://x.com/", &["/dir/page"]),
        WorkerAction::Navigate("http://x.com/dir/page".to_string())
    );
    assert_eq!(
        fetch(&mut worker, "http://x.com/dir/page", &["sibling"]),
        WorkerAction::Navigate("http://x.com/dir/sibling".to_string())
    );
}

#[test]
fn unexpected_event_stops_the_worker() {
    let mut worker = worker_at("http://x/a");
    assert_eq!(worker.step(WorkerEvent::Paused), WorkerAction::Halt);
    assert!(worker.is_stopped());
    let mut other = worker_at("http://x/a");
    other.step(WorkerEvent::Connected(true));
    assert_eq!(other.step(WorkerEvent::Emitted(true)), WorkerAction::Close);
    assert!(other.is_stopped());
}

#[test]
fn root_on_an_address_crawls_the_root_only() {
    let mut worker = worker_at("http://127.0.0.1/");
    worker.step(WorkerEvent::Connected(true));
    assert_eq!(
        fetch(&mut worker, "http://127.0.0.1/", &["/a", "http://127.0.0.1/b"]),
        WorkerAction::Close
    );
}

#[test]
fn worker_waits_in_emitting_while_the_channel_is_full() {
    let (tx, mut rx) = tokio::sync::mpsc::channel::<CrawlResult>(2);
    tx.try_send(page("http://x/0", "zero")).unwrap();
    tx.try_send(page("http://x/1", "one")).unwrap();
    let mut worker = worker_at("http://x/a");
    worker.step(WorkerEvent::Connected(true));
    worker.step(WorkerEvent::Navigated(true));
    let result = match worker.step(WorkerEvent::Body(BodyOutcome::Text("t".to_string()))) {
        WorkerAction::Emit(result) => result,
        other => panic!("expected a result, got {:?}", other),
    };
    assert!(tx.try_send(result.clone()).is_err());
    assert_eq!(worker.phase(), Phase::Emitting);
    assert_eq!(rx.try_recv().unwrap(), page("http://x/0", "zero"));
    assert!(tx.try_send(result).is_ok());
    assert_eq!(worker.step(WorkerEvent::Emitted(true)), WorkerAction::ListLinks);
    assert_eq!(rx.try_recv().unwrap(), page("http://x/1", "one"));
    assert_eq!(rx.try_recv().unwrap(), page("http://x/a", "t"));
}
