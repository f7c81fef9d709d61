use crawl_session::session::{AppState, Rect};

fn session_with(results: &[(&str, &str)]) -> AppState {
    let mut state = AppState::new();
    for (url, body) in results {
        state.add_crawl_result(url.to_string(), body.to_string());
    }
    state
}

fn apply_query(state: &mut AppState, query: &str) {
    state.start_search();
    while !state.search_input().is_empty() {
        state.pop_search_char();
    }
    for c in query.chars() {
        state.push_search_char(c);
    }
    state.finalize_search();
}

#[test]
fn new_session_is_empty() {
    let state = AppState::new();
    assert_eq!(state.result_count(), 0);
    assert_eq!(state.filtered_indices(), &Vec::<usize>::new());
    assert_eq!(state.selected(), None);
    assert_eq!(state.content_scroll(), 0);
    assert!(!state.is_searching());
    assert_eq!(state.search_input(), "");
    assert_eq!(state.active_search_query(), "");
    assert_eq!(state.content_area(), Rect { x: 0, y: 0, width: 0, height: 0 });
    assert_eq!(state.get_selected_original_index(), None);
    assert_eq!(state.get_selected_url_str(), None);
    assert_eq!(state.get_selected_content(), None);
    assert_eq!(state.get_displayed_urls(), Vec::<String>::new());
}

#[test]
fn query_filters_and_selects() {
    let mut state = session_with(&[("http://x/a", "hello world"), ("http://x/b", "other text")]);
    apply_query(&mut state, "hello");
    assert_eq!(state.filtered_indices(), &vec![0]);
    assert_eq!(state.selected(), Some(0));
    assert_eq!(state.get_selected_original_index(), Some(0));
    assert_eq!(state.get_selected_url_str(), Some("http://x/a"));
    assert_eq!(state.get_displayed_urls(), vec!["http://x/a".to_string()]);
}

#[test]
fn first_result_is_selected() {
    let state = session_with(&[("http://x/a", "hello")]);
    assert_eq!(state.selected(), Some(0));
    assert_eq!(state.filtered_indices(), &vec![0]);
    assert_eq!(state.get_selected_content(), Some(&"hello".to_string()));
}

#[test]
fn recording_twice_is_recording_once() {
    let mut once = session_with(&[("http://x/a", "first")]);
    let mut twice = session_with(&[("http://x/a", "first"), ("http://x/a", "first")]);
    assert_eq!(twice.result_count(), 1);
    assert_eq!(twice.filtered_indices(), once.filtered_indices());
    assert_eq!(twice.selected(), once.selected());
    assert_eq!(twice.get_selected_content(), once.get_selected_content());
    twice.add_crawl_result("http://x/a".to_string(), "changed".to_string());
    assert_eq!(twice.result_count(), 1);
    assert_eq!(twice.get_selected_content(), Some(&"first".to_string()));
    once.add_crawl_result("http://x/b".to_string(), "second".to_string());
    once.add_crawl_result("http://x/a".to_string(), "third".to_string());
    assert_eq!(once.get_displayed_urls(), vec!["http://x/a".to_string(), "http://x/b".to_string()]);
}

#[test]
fn filter_holds_exactly_the_matching_indices() {
    let mut state = session_with(&[
        ("http://x/0", "Rust is fun"),
        ("http://x/1", "nothing here"),
        ("http://x/2", "TRUST me"),
        ("http://x/3", ""),
        ("http://x/4", "crusty\nrust"),
    ]);
    assert_eq!(state.filtered_indices(), &vec![0, 1, 2, 3, 4]);
    apply_query(&mut state, "RUST");
    assert_eq!(state.filtered_indices(), &vec![0, 2, 4]);
    apply_query(&mut state, "rusty");
    assert_eq!(state.filtered_indices(), &vec![4]);
    apply_query(&mut state, "absent");
    assert_eq!(state.filtered_indices(), &Vec::<usize>::new());
    assert_eq!(state.selected(), None);
    assert_eq!(state.get_selected_content(), None);
    apply_query(&mut state, "");
    assert_eq!(state.filtered_indices(), &vec![0, 1, 2, 3, 4]);
    assert_eq!(state.selected(), Some(0));
}

#[test]
fn matching_ignores_case() {
    let mut state = session_with(&[
        ("http://x/0", "Hello World"),
        ("http://x/1", "ÄPFEL und Birnen"),
        ("http://x/2", "other text"),
        ("http://x/3", ""),
    ]);
    apply_query(&mut state, "hello");
    assert_eq!(state.filtered_indices(), &vec![0]);
    apply_query(&mut state, "HELLO W");
    assert_eq!(state.filtered_indices(), &vec![0]);
    apply_query(&mut state, "äpfel");
    assert_eq!(state.filtered_indices(), &vec![1]);
    apply_query(&mut state, "T");
    assert_eq!(state.filtered_indices(), &vec![2]);
}

#[test]
fn selection_follows_the_selected_url() {
    let mut state = session_with(&[
        ("http://x/0", "apple"),
        ("http://x/1", "banana"),
        ("http://x/2", "apple banana"),
    ]);
    state.select_next();
    state.select_next();
    assert_eq!(state.get_selected_url_str(), Some("http://x/2"));
    apply_query(&mut state, "banana");
    assert_eq!(state.filtered_indices(), &vec![1, 2]);
    assert_eq!(state.selected(), Some(1));
    assert_eq!(state.get_selected_url_str(), Some("http://x/2"));
    apply_query(&mut state, "apple");
    assert_eq!(state.filtered_indices(), &vec![0, 2]);
    assert_eq!(state.selected(), Some(1));
    assert_eq!(state.get_selected_url_str(), Some("http://x/2"));
}

#[test]
fn selection_falls_back_to_the_first() {
    let mut state = session_with(&[
        ("http://x/0", "apple"),
        ("http://x/1", "banana"),
        ("http://x/2", "cherry banana"),
    ]);
    assert_eq!(state.get_selected_url_str(), Some("http://x/0"));
    apply_query(&mut state, "banana");
    assert_eq!(state.selected(), Some(0));
    assert_eq!(state.get_selected_url_str(), Some("http://x/1"));
    apply_query(&mut state, "zebra");
    assert_eq!(state.selected(), None);
    state.add_crawl_result("http://x/3".to_string(), "a zebra".to_string());
    assert_eq!(state.filtered_indices(), &vec![3]);
    assert_eq!(state.selected(), Some(0));
}

#[test]
fn arriving_results_keep_the_selection() {
    let mut state = session_with(&[("http://x/0", "a"), ("http://x/1", "b")]);
    state.select_next();
    state.add_crawl_result("http://x/2".to_string(), "c".to_string());
    assert_eq!(state.selected(), Some(1));
    assert_eq!(state.get_selected_url_str(), Some("http://x/1"));
    assert_eq!(state.filtered_indices(), &vec![0, 1, 2]);
}

#[test]
fn scroll_goes_to_the_first_matching_line() {
    let mut state =
        session_with(&[("http://x/0", "zero\none\nTwo needles\nthree\nneedle again")]);
    apply_query(&mut state, "needle");
    assert_eq!(state.find_first_match_line(), Some(2));
    assert_eq!(state.content_scroll(), 2);
    apply_query(&mut state, "ZERO");
    assert_eq!(state.content_scroll(), 0);
    assert_eq!(state.find_first_match_line(), Some(0));
    apply_query(&mut state, "again");
    assert_eq!(state.content_scroll(), 4);
}

#[test]
fn scroll_is_zero_without_a_matching_line() {
    let mut state = session_with(&[("http://x/0", "split\nword"), ("http://x/1", "t\nw")]);
    state.scroll_content_down(7);
    apply_query(&mut state, "t\nw");
    assert_eq!(state.filtered_indices(), &vec![0, 1]);
    assert_eq!(state.find_first_match_line(), None);
    assert_eq!(state.content_scroll(), 0);
}

#[test]
fn scroll_resets_without_a_query() {
    let mut state = session_with(&[("http://x/0", "a\nb\nc"), ("http://x/1", "d")]);
    state.scroll_content_down(2);
    assert_eq!(state.content_scroll(), 2);
    state.select_next();
    assert_eq!(state.content_scroll(), 0);
    assert_eq!(state.find_first_match_line(), None);
    state.scroll_content_down(5);
    state.reset_or_find_scroll();
    assert_eq!(state.content_scroll(), 0);
}

#[test]
fn selection_wraps_in_both_directions() {
    let mut state = session_with(&[("http://x/0", "a"), ("http://x/1", "b"), ("http://x/2", "c")]);
    assert_eq!(state.selected(), Some(0));
    state.select_previous();
    assert_eq!(state.selected(), Some(2));
    state.select_next();
    assert_eq!(state.selected(), Some(0));
    state.select_next();
    assert_eq!(state.selected(), Some(1));
    state.select_previous();
    assert_eq!(state.selected(), Some(0));
}

#[test]
fn selection_moves_nowhere_in_an_empty_list() {
    let mut state = AppState::new();
    state.scroll_content_down(4);
    state.select_next();
    assert_eq!(state.selected(), None);
    state.select_previous();
    assert_eq!(state.selected(), None);
    assert_eq!(state.content_scroll(), 4);
}

#[test]
fn moving_the_selection_scrolls_to_the_match() {
    let mut state = session_with(&[("http://x/0", "x\nfind me"), ("http://x/1", "a\nb\nc\nFIND")]);
    apply_query(&mut state, "find");
    assert_eq!(state.content_scroll(), 1);
    state.select_next();
    assert_eq!(state.content_scroll(), 3);
    state.select_previous();
    assert_eq!(state.content_scroll(), 1);
}

#[test]
fn typing_does_not_filter_until_confirmed() {
    let mut state = session_with(&[("http://x/0", "apple"), ("http://x/1", "banana")]);
    state.start_search();
    assert!(state.is_searching());
    for c in "banana".chars() {
        state.push_search_char(c);
    }
    assert_eq!(state.search_input(), "banana");
    assert_eq!(state.active_search_query(), "");
    assert_eq!(state.filtered_indices(), &vec![0, 1]);
    state.pop_search_char();
    assert_eq!(state.search_input(), "banan");
    state.finalize_search();
    assert!(!state.is_searching());
    assert_eq!(state.active_search_query(), "banan");
    assert_eq!(state.filtered_indices(), &vec![1]);
}

#[test]
fn editing_starts_from_the_applied_query() {
    let mut state = session_with(&[("http://x/0", "apple")]);
    apply_query(&mut state, "app");
    state.start_search();
    assert_eq!(state.search_input(), "app");
    state.push_search_char('l');
    state.finalize_search();
    assert_eq!(state.active_search_query(), "appl");
}

#[test]
fn backspace_on_an_empty_buffer_does_nothing() {
    let mut state = AppState::new();
    state.start_search();
    state.pop_search_char();
    assert_eq!(state.search_input(), "");
    assert!(state.is_searching());
}

#[test]
fn cancel_keeps_the_applied_query() {
    let mut state = session_with(&[("http://x/0", "apple"), ("http://x/1", "banana")]);
    apply_query(&mut state, "apple");
    state.start_search();
    state.push_search_char('x');
    state.cancel_search();
    assert!(!state.is_searching());
    assert_eq!(state.search_input(), "");
    assert_eq!(state.active_search_query(), "apple");
    assert_eq!(state.filtered_indices(), &vec![0]);
}

#[test]
fn clear_lists_everything_from_the_top() {
    let mut state = session_with(&[("http://x/0", "apple"), ("http://x/1", "a\nbanana")]);
    apply_query(&mut state, "banana");
    assert_eq!(state.content_scroll(), 1);
    state.clear_search();
    assert!(!state.is_searching());
    assert_eq!(state.active_search_query(), "");
    assert_eq!(state.search_input(), "");
    assert_eq!(state.filtered_indices(), &vec![0, 1]);
    assert_eq!(state.selected(), Some(1));
    assert_eq!(state.content_scroll(), 0);
}

#[test]
fn scrolling_saturates() {
    let mut state = AppState::new();
    state.scroll_content_up(3);
    assert_eq!(state.content_scroll(), 0);
    state.scroll_content_down(3);
    state.scroll_content_down(6);
    assert_eq!(state.content_scroll(), 9);
    state.scroll_content_up(4);
    assert_eq!(state.content_scroll(), 5);
    state.scroll_content_up(6);
    assert_eq!(state.content_scroll(), 0);
    state.scroll_content_down(u16::MAX);
    state.scroll_content_down(u16::MAX);
    assert_eq!(state.content_scroll(), 2 * (u16::MAX as usize));
}

#[test]
fn batch_of_results_is_recorded_in_order() {
    let mut state = AppState::new();
    state.add_crawl_results(vec![
        crawl_session::crawl::CrawlResult { url: "http://x/a".to_string(), body: "1".to_string() },
        crawl_session::crawl::CrawlResult { url: "http://x/b".to_string(), body: "2".to_string() },
        crawl_session::crawl::CrawlResult { url: "http://x/a".to_string(), body: "3".to_string() },
    ]);
    assert_eq!(state.get_displayed_urls(), vec!["http://x/a".to_string(), "http://x/b".to_string()]);
    assert_eq!(state.get_selected_content(), Some(&"1".to_string()));
}

#[test]
fn rect_holds_its_cells() {
    let area = Rect { x: 10, y: 5, width: 4, height: 2 };
    assert!(area.contains_cell(10, 5));
    assert!(area.contains_cell(13, 6));
    assert!(!area.contains_cell(14, 5));
    assert!(!area.contains_cell(10, 7));
    assert!(!area.contains_cell(9, 5));
    assert!(!area.contains_cell(10, 4));
    assert!(!Rect::empty().contains_cell(0, 0));
    let edge = Rect { x: 65530, y: 65530, width: 100, height: 100 };
    assert!(edge.contains_cell(65535, 65535));
}

#[test]
fn content_area_is_kept() {
    let mut state = AppState::new();
    let area = Rect { x: 1, y: 2, width: 3, height: 4 };
    state.set_content_area(area);
    assert_eq!(state.content_area(), area);
}
