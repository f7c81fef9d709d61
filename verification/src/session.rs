//! The state of one interactive session: the results that have arrived, the
//! search query, the filtered list, the selection and the scroll offset.

use crate::crawl::CrawlResult;
use crate::text::{
    contains, first_line_containing, first_line_with, is_substring, lemma_first_line_with, lines,
    lower_chars, lowercase, matches_query, split_lines, to_chars, views,
};
use vstd::hash_map::StringHashMap;
use vstd::prelude::*;

verus! {

/// A rectangle of screen cells.
#[derive(Debug, Clone, Copy, PartialEq, Eq)]
pub struct Rect {
    pub x: u16,
    pub y: u16,
    pub width: u16,
    pub height: u16,
}

impl Rect {
    /// Whether the cell in column `column` and row `row` lies in the rectangle.
    pub open spec fn holds(self, column: u16, row: u16) -> bool {
        &&& self.x <= column < self.x + self.width
        &&& self.y <= row < self.y + self.height
    }

    /// The rectangle without cells at the origin.
    pub fn empty() -> (r: Rect)
        ensures
            r == (Rect { x: 0, y: 0, width: 0, height: 0 }),
    {
        Rect { x: 0, y: 0, width: 0, height: 0 }
    }

    /// Whether the cell in column `column` and row `row` lies in the rectangle.
    pub fn contains_cell(&self, column: u16, row: u16) -> (r: bool)
        ensures
            r == self.holds(column, row),
    {
        column >= self.x && column - self.x < self.width && row >= self.y && row - self.y
            < self.height
    }
}

/// The indices below `n` of the results whose body matches `query`, ascending.
pub open spec fn filter_upto(
    urls: Seq<Seq<char>>,
    bodies: Map<Seq<char>, Seq<char>>,
    query: Seq<char>,
    n: int,
) -> Seq<usize>
    decreases n,
{
    if n <= 0 {
        Seq::empty()
    } else {
        let earlier = filter_upto(urls, bodies, query, n - 1);
        if matches_query(bodies[urls[n - 1]], query) {
            earlier.push((n - 1) as usize)
        } else {
            earlier
        }
    }
}

/// The indices of the results whose body matches `query`, in arrival order.
pub open spec fn filter_view(
    urls: Seq<Seq<char>>,
    bodies: Map<Seq<char>, Seq<char>>,
    query: Seq<char>,
) -> Seq<usize> {
    filter_upto(urls, bodies, query, urls.len() as int)
}

/// The session as a mathematical value.
pub struct SessionView {
    /// The addresses of the results, in arrival order.
    pub urls: Seq<Seq<char>>,
    /// The body text of each result, by address.
    pub bodies: Map<Seq<char>, Seq<char>>,
    /// The indices into `urls` of the results that are listed.
    pub filtered: Seq<usize>,
    /// The selected position in `filtered`.
    pub selected: Option<usize>,
    /// The query as it is being typed.
    pub search_input: Seq<char>,
    /// The query that filters the list.
    pub query: Seq<char>,
    /// Whether a query is being typed.
    pub searching: bool,
    /// The first line of the selected body that is shown.
    pub scroll: usize,
    /// Where the content panel was drawn last.
    pub area: Rect,
}

impl SessionView {
    /// The session without results.
    pub open spec fn empty() -> SessionView {
        SessionView {
            urls: Seq::empty(),
            bodies: Map::empty(),
            filtered: Seq::empty(),
            selected: None,
            search_input: Seq::empty(),
            query: Seq::empty(),
            searching: false,
            scroll: 0,
            area: Rect { x: 0, y: 0, width: 0, height: 0 },
        }
    }

    /// No address is recorded twice, and exactly the recorded addresses have a
    /// body.
    pub open spec fn well_recorded(self) -> bool {
        &&& self.urls.no_duplicates()
        &&& self.urls.len() <= usize::MAX
        &&& forall|url: Seq<char>| self.bodies.contains_key(url) <==> self.urls.contains(url)
    }

    /// The records are well formed, the list is the filtered view of them, and
    /// the selection is a position in the list unless the list is empty.
    pub open spec fn valid(self) -> bool {
        &&& self.well_recorded()
        &&& self.filtered == filter_view(self.urls, self.bodies, self.query)
        &&& match self.selected {
            Some(i) => i < self.filtered.len(),
            None => self.filtered.len() == 0,
        }
    }

    /// The index into `urls` of the selected result.
    pub open spec fn selected_record(self) -> Option<usize> {
        match self.selected {
            Some(i) => if i < self.filtered.len() {
                Some(self.filtered[i as int])
            } else {
                None
            },
            None => None,
        }
    }

    /// The address of the selected result.
    pub open spec fn selected_url(self) -> Option<Seq<char>> {
        match self.selected_record() {
            Some(i) => if i < self.urls.len() {
                Some(self.urls[i as int])
            } else {
                None
            },
            None => None,
        }
    }

    /// The body of the selected result.
    pub open spec fn selected_body(self) -> Option<Seq<char>> {
        match self.selected_url() {
            Some(url) => if self.bodies.contains_key(url) {
                Some(self.bodies[url])
            } else {
                None
            },
            None => None,
        }
    }

    /// The addresses of the listed results, in the order of the list.
    pub open spec fn displayed_urls(self) -> Seq<Seq<char>> {
        Seq::new(self.filtered.len(), |i: int| self.urls[self.filtered[i] as int])
    }

    /// The first position of the list, or none where the list is empty.
    pub open spec fn first_or_none(self) -> Option<usize> {
        if self.filtered.len() > 0 {
            Some(0)
        } else {
            None
        }
    }

    /// The list is computed anew. The result that was selected stays selected
    /// where it is still listed; otherwise the first of the list is selected.
    pub open spec fn update_filtered_list(self) -> SessionView {
        let filtered = filter_view(self.urls, self.bodies, self.query);
        let fresh = SessionView { filtered, ..self };
        SessionView {
            selected: match self.selected_record() {
                Some(record) => if filtered.contains(record) {
                    Some(filtered.index_of(record) as usize)
                } else {
                    fresh.first_or_none()
                },
                None => fresh.first_or_none(),
            },
            ..fresh
        }
    }

    /// The line of the selected body that the query asks for: none without a
    /// query or a selected body or a matching line.
    pub open spec fn find_first_match_line(self) -> Option<usize> {
        if self.query.len() == 0 {
            None
        } else {
            match self.selected_body() {
                Some(body) => match first_line_with(lines(body), lowercase(self.query), 0) {
                    Some(i) => Some(i as usize),
                    None => None,
                },
                None => None,
            }
        }
    }

    /// The scroll offset goes to the first matching line of the selected body,
    /// or to the top without a query or a match.
    pub open spec fn reset_or_find_scroll(self) -> SessionView {
        SessionView {
            scroll: match self.find_first_match_line() {
                Some(line) => line,
                None => 0,
            },
            ..self
        }
    }

    /// A result arrives. One whose address is recorded already is dropped.
    /// Any other is appended and the list is computed anew; where it is the
    /// first result and it is listed, it is selected and scrolled to.
    pub open spec fn add_crawl_result(self, url: Seq<char>, body: Seq<char>) -> SessionView {
        if self.bodies.contains_key(url) {
            self
        } else {
            let listed = SessionView {
                urls: self.urls.push(url),
                bodies: self.bodies.insert(url, body),
                ..self
            }.update_filtered_list();
            if self.urls.len() == 0 && listed.filtered.len() > 0 {
                SessionView { selected: Some(0), ..listed }.reset_or_find_scroll()
            } else {
                listed
            }
        }
    }

    /// The selection moves one position down the list and wraps at its end.
    pub open spec fn select_next(self) -> SessionView {
        if self.filtered.len() == 0 {
            self
        } else {
            SessionView {
                selected: Some(
                    match self.selected {
                        Some(i) => ((i + 1) % (self.filtered.len() as int)) as usize,
                        None => 0,
                    },
                ),
                ..self
            }.reset_or_find_scroll()
        }
    }

    /// The selection moves one position up the list and wraps at its start.
    pub open spec fn select_previous(self) -> SessionView {
        if self.filtered.len() == 0 {
            self
        } else {
            SessionView {
                selected: Some(
                    match self.selected {
                        Some(i) => if i == 0 {
                            (self.filtered.len() - 1) as usize
                        } else {
                            (i - 1) as usize
                        },
                        None => 0,
                    },
                ),
                ..self
            }.reset_or_find_scroll()
        }
    }

    /// Typing a query begins, from the query that is applied.
    pub open spec fn start_search(self) -> SessionView {
        SessionView { searching: true, search_input: self.query, ..self }
    }

    /// A character is added to the query being typed.
    pub open spec fn push_search_char(self, c: char) -> SessionView {
        SessionView { search_input: self.search_input.push(c), ..self }
    }

    /// The last character of the query being typed is taken away.
    pub open spec fn pop_search_char(self) -> SessionView {
        if self.search_input.len() == 0 {
            self
        } else {
            SessionView { search_input: self.search_input.drop_last(), ..self }
        }
    }

    /// The typed query is applied: the list is computed anew and scrolled.
    pub open spec fn finalize_search(self) -> SessionView {
        SessionView {
            searching: false,
            query: self.search_input,
            ..self
        }.update_filtered_list().reset_or_find_scroll()
    }

    /// Typing ends and what was typed is dropped; the applied query stays.
    pub open spec fn cancel_search(self) -> SessionView {
        SessionView { searching: false, search_input: Seq::empty(), ..self }
    }

    /// The query is taken away: everything is listed, from the top.
    pub open spec fn clear_search(self) -> SessionView {
        SessionView {
            scroll: 0,
            ..SessionView {
                searching: false,
                search_input: Seq::empty(),
                query: Seq::empty(),
                ..self
            }.update_filtered_list()
        }
    }

    /// The scroll offset grows by `lines` and stops at the largest offset.
    pub open spec fn scroll_content_down(self, lines: u16) -> SessionView {
        SessionView {
            scroll: if self.scroll + lines > usize::MAX {
                usize::MAX
            } else {
                (self.scroll + lines) as usize
            },
            ..self
        }
    }

    /// The scroll offset shrinks by `lines` and stops at the top.
    pub open spec fn scroll_content_up(self, lines: u16) -> SessionView {
        SessionView {
            scroll: if self.scroll < lines {
                0
            } else {
                (self.scroll - lines) as usize
            },
            ..self
        }
    }

    /// The content panel was drawn at `area`.
    pub open spec fn set_content_area(self, area: Rect) -> SessionView {
        SessionView { area, ..self }
    }

    /// The session after a batch of results arrived, in their order.
    pub open spec fn add_all(self, results: Seq<crate::crawl::Record>) -> SessionView
        decreases results.len(),
    {
        if results.len() == 0 {
            self
        } else {
            self.add_all(results.drop_last()).add_crawl_result(
                results.last().url,
                results.last().body,
            )
        }
    }
}

/// What the filtered view is: its indices ascend strictly, it holds exactly
/// the indices of the results whose body matches the query, and for the empty
/// query it holds every index.
pub proof fn lemma_filter_view(
    urls: Seq<Seq<char>>,
    bodies: Map<Seq<char>, Seq<char>>,
    query: Seq<char>,
    n: int,
)
    requires
        0 <= n <= urls.len() <= usize::MAX,
    ensures
        filter_upto(urls, bodies, query, n).len() <= n,
        forall|i: int, j: int|
            0 <= i < j < filter_upto(urls, bodies, query, n).len() ==> filter_upto(
                urls,
                bodies,
                query,
                n,
            )[i] < filter_upto(urls, bodies, query, n)[j],
        forall|k: usize|
            filter_upto(urls, bodies, query, n).contains(k) <==> (k < n && matches_query(
                bodies[urls[k as int]],
                query,
            )),
        query.len() == 0 ==> filter_upto(urls, bodies, query, n) == Seq::new(
            n as nat,
            |i: int| i as usize,
        ),
    decreases n,
{
    let now = filter_upto(urls, bodies, query, n);
    if n > 0 {
        let earlier = filter_upto(urls, bodies, query, n - 1);
        lemma_filter_view(urls, bodies, query, n - 1);
        let last = (n - 1) as usize;
        if matches_query(bodies[urls[n - 1]], query) {
            assert(now == earlier.push(last));
            assert forall|i: int, j: int| 0 <= i < j < now.len() implies now[i] < now[j] by {
                if j == earlier.len() {
                    assert(earlier.contains(earlier[i]));
                }
            }
            assert forall|k: usize| now.contains(k) <==> (k < n && matches_query(
                bodies[urls[k as int]],
                query,
            )) by {
                if now.contains(k) {
                    let at = now.index_of(k);
                    if at < earlier.len() {
                        assert(earlier[at] == k);
                        assert(earlier.contains(k));
                    }
                }
                if k < n && matches_query(bodies[urls[k as int]], query) {
                    if k == last {
                        assert(now[earlier.len() as int] == k);
                    } else {
                        assert(earlier.contains(k));
                        let at = earlier.index_of(k);
                        assert(now[at] == k);
                    }
                }
            }
        } else {
            assert(now == earlier);
        }
        if query.len() == 0 {
            assert(now =~= Seq::new(n as nat, |i: int| i as usize));
        }
    } else {
        assert forall|k: usize| !now.contains(k) by {
            if now.contains(k) {
                let at = now.index_of(k);
            }
        }
        assert(now =~= Seq::new(0, |i: int| i as usize));
    }
}

/// The filtered view of a session holds exactly the indices of the results
/// whose body holds the lower-case query, ascending; with the empty query it
/// holds the index of every result, in arrival order.
pub proof fn lemma_filter_correct(s: SessionView)
    requires
        s.well_recorded(),
    ensures
        forall|i: int, j: int|
            0 <= i < j < filter_view(s.urls, s.bodies, s.query).len() ==> filter_view(
                s.urls,
                s.bodies,
                s.query,
            )[i] < filter_view(s.urls, s.bodies, s.query)[j],
        forall|k: usize|
            filter_view(s.urls, s.bodies, s.query).contains(k) <==> (k < s.urls.len()
                && matches_query(s.bodies[s.urls[k as int]], s.query)),
        s.query.len() == 0 ==> filter_view(s.urls, s.bodies, s.query) == Seq::new(
            s.urls.len(),
            |i: int| i as usize,
        ),
        s.update_filtered_list().filtered == filter_view(s.urls, s.bodies, s.query),
{
    lemma_filter_view(s.urls, s.bodies, s.query, s.urls.len() as int);
}

/// Computing the list anew keeps the selected result selected where it still
/// matches the query, at its new position; otherwise the first of the list is
/// selected, or nothing where the list is empty. The session is valid then.
pub proof fn lemma_selection_stable(s: SessionView)
    requires
        s.well_recorded(),
    ensures
        s.update_filtered_list().valid(),
        match s.selected_record() {
            Some(record) => if record < s.urls.len() && matches_query(
                s.bodies[s.urls[record as int]],
                s.query,
            ) {
                s.update_filtered_list().selected_record() == Some(record)
            } else {
                s.update_filtered_list().selected == s.update_filtered_list().first_or_none()
            },
            None => s.update_filtered_list().selected == s.update_filtered_list().first_or_none(),
        },
{
    lemma_filter_view(s.urls, s.bodies, s.query, s.urls.len() as int);
    let filtered = filter_view(s.urls, s.bodies, s.query);
    match s.selected_record() {
        Some(record) => {
            if filtered.contains(record) {
                let at = filtered.index_of(record);
                assert(0 <= at < filtered.len() && filtered[at] == record);
            }
        },
        None => {},
    }
}

/// A second result for an address that is recorded changes nothing, whatever
/// its text: recording a result twice is recording it once.
pub proof fn lemma_record_is_idempotent(
    s: SessionView,
    url: Seq<char>,
    body: Seq<char>,
    again: Seq<char>,
)
    ensures
        s.add_crawl_result(url, body).add_crawl_result(url, again) == s.add_crawl_result(
            url,
            body,
        ),
{
}

/// Appending a result with a new address keeps the records well formed.
pub proof fn lemma_grown_is_well_recorded(s: SessionView, url: Seq<char>, body: Seq<char>)
    requires
        s.well_recorded(),
        s.urls.len() < usize::MAX,
        !s.bodies.contains_key(url),
    ensures
        (SessionView {
            urls: s.urls.push(url),
            bodies: s.bodies.insert(url, body),
            ..s
        }).well_recorded(),
{
    let urls = s.urls.push(url);
    assert forall|i: int, j: int| 0 <= i < urls.len() && 0 <= j < urls.len() && i != j implies urls[i]
        != urls[j] by {
        if i == s.urls.len() {
            assert(s.urls.contains(urls[j]));
        } else if j == s.urls.len() {
            assert(s.urls.contains(urls[i]));
        }
    }
    assert forall|other: Seq<char>| s.bodies.insert(url, body).contains_key(other) <==> urls.contains(
        other,
    ) by {
        if urls.contains(other) {
            let at = urls.index_of(other);
            if at < s.urls.len() {
                assert(s.urls[at] == other);
                assert(s.urls.contains(other));
            }
        }
        if s.bodies.insert(url, body).contains_key(other) {
            if other == url {
                assert(urls[s.urls.len() as int] == other);
            } else {
                assert(s.urls.contains(other));
                let at = s.urls.index_of(other);
                assert(urls[at] == other);
            }
        }
    }
}

/// With a query, scrolling anew goes to the first line of the selected body
/// in whose lower-case form the lower-case query stands, counted from zero:
/// that line holds the query and no line before it does. Where no line holds
/// it, or nothing is selected, the offset is zero. The body is one that has no
/// more lines than the machine can count.
pub proof fn lemma_scroll_target(s: SessionView)
    requires
        s.query.len() > 0,
        s.selected_body() matches Some(body) ==> lines(body).len() <= usize::MAX,
    ensures
        match s.selected_body() {
            Some(body) => match first_line_with(lines(body), lowercase(s.query), 0) {
                Some(i) => {
                    &&& 0 <= i < lines(body).len()
                    &&& s.reset_or_find_scroll().scroll == i
                    &&& is_substring(lowercase(s.query), lowercase(lines(body)[i]))
                    &&& forall|j: int|
                        0 <= j < i ==> !is_substring(
                            lowercase(s.query),
                            lowercase(#[trigger] lines(body)[j]),
                        )
                },
                None => {
                    &&& s.reset_or_find_scroll().scroll == 0
                    &&& forall|j: int|
                        0 <= j < lines(body).len() ==> !is_substring(
                            lowercase(s.query),
                            lowercase(#[trigger] lines(body)[j]),
                        )
                },
            },
            None => s.reset_or_find_scroll().scroll == 0,
        },
{
    match s.selected_body() {
        Some(body) => {
            lemma_first_line_with(lines(body), lowercase(s.query), 0);
        },
        None => {},
    }
}

/// The session state.
pub struct AppState {
    visited_urls: Vec<String>,
    body_texts: StringHashMap<String>,
    selected: Option<usize>,
    search_input: String,
    active_search_query: String,
    is_searching: bool,
    filtered_url_indices: Vec<usize>,
    content_scroll: usize,
    content_area: Rect,
}

impl View for AppState {
    type V = SessionView;

    closed spec fn view(&self) -> SessionView {
        SessionView {
            urls: views(self.visited_urls@),
            bodies: Map::new(
                |url: Seq<char>| self.body_texts@.contains_key(url),
                |url: Seq<char>| self.body_texts@[url]@,
            ),
            filtered: self.filtered_url_indices@,
            selected: self.selected,
            search_input: self.search_input@,
            query: self.active_search_query@,
            searching: self.is_searching,
            scroll: self.content_scroll,
            area: self.content_area,
        }
    }
}

impl AppState {
    /// The session is well formed: its view is valid.
    pub open spec fn inv(&self) -> bool {
        self@.valid()
    }

    /// A session without results.
    pub fn new() -> (r: AppState)
        ensures
            r@ == SessionView::empty(),
            r.inv(),
    {
        let r = AppState {
            visited_urls: Vec::new(),
            body_texts: StringHashMap::new(),
            selected: None,
            search_input: String::new(),
            active_search_query: String::new(),
            is_searching: false,
            filtered_url_indices: Vec::new(),
            content_scroll: 0,
            content_area: Rect::empty(),
        };
        assert(r@.urls =~= Seq::<Seq<char>>::empty());
        assert(r@.bodies =~= Map::<Seq<char>, Seq<char>>::empty());
        assert(r@ == SessionView::empty());
        r
    }

    /// How many results are recorded.
    pub fn result_count(&self) -> (r: usize)
        ensures
            r == self@.urls.len(),
    {
        self.visited_urls.len()
    }

    /// The listed results as indices into the results in arrival order.
    pub fn filtered_indices(&self) -> (r: &Vec<usize>)
        ensures
            r@ == self@.filtered,
    {
        &self.filtered_url_indices
    }

    /// The selected position in the list.
    pub fn selected(&self) -> (r: Option<usize>)
        ensures
            r == self@.selected,
    {
        self.selected
    }

    /// The first line of the selected body that is shown.
    pub fn content_scroll(&self) -> (r: usize)
        ensures
            r == self@.scroll,
    {
        self.content_scroll
    }

    /// Whether a query is being typed.
    pub fn is_searching(&self) -> (r: bool)
        ensures
            r == self@.searching,
    {
        self.is_searching
    }

    /// The query as it is being typed.
    pub fn search_input(&self) -> (r: &str)
        ensures
            r@ == self@.search_input,
    {
        self.search_input.as_str()
    }

    /// The query that filters the list.
    pub fn active_search_query(&self) -> (r: &str)
        ensures
            r@ == self@.query,
    {
        self.active_search_query.as_str()
    }

    /// Where the content panel was drawn last.
    pub fn content_area(&self) -> (r: Rect)
        ensures
            r == self@.area,
    {
        self.content_area
    }

    /// Records where the content panel was drawn.
    pub fn set_content_area(&mut self, area: Rect)
        ensures
            final(self)@ == old(self)@.set_content_area(area),
    {
        self.content_area = area;
    }

    /// The index of the selected result among the results in arrival order.
    pub fn get_selected_original_index(&self) -> (r: Option<usize>)
        ensures
            r == self@.selected_record(),
    {
        match self.selected {
            Some(i) => if i < self.filtered_url_indices.len() {
                Some(self.filtered_url_indices[i])
            } else {
                None
            },
            None => None,
        }
    }

    /// The address of the selected result.
    pub fn get_selected_url_str(&self) -> (r: Option<&str>)
        ensures
            r is Some == self@.selected_url() is Some,
            r matches Some(url) ==> self@.selected_url() == Some(url@),
    {
        match self.get_selected_original_index() {
            Some(i) => if i < self.visited_urls.len() {
                Some(self.visited_urls[i].as_str())
            } else {
                None
            },
            None => None,
        }
    }

    /// The body of the selected result.
    pub fn get_selected_content(&self) -> (r: Option<&String>)
        ensures
            r is Some == self@.selected_body() is Some,
            r matches Some(body) ==> self@.selected_body() == Some(body@),
    {
        match self.get_selected_url_str() {
            Some(url) => self.body_texts.get(url),
            None => None,
        }
    }

    /// The addresses of the listed results, in the order of the list.
    pub fn get_displayed_urls(&self) -> (r: Vec<String>)
        requires
            self.inv(),
        ensures
            views(r@) == self@.displayed_urls(),
    {
        proof {
            lemma_filter_view(self@.urls, self@.bodies, self@.query, self@.urls.len() as int);
        }
        let mut out: Vec<String> = Vec::new();
        let mut i: usize = 0;
        while i < self.filtered_url_indices.len()
            invariant
                i <= self.filtered_url_indices.len(),
                forall|k: usize| self@.filtered.contains(k) ==> k < self@.urls.len(),
                out@.len() == i,
                forall|k: int| 0 <= k < i ==> out@[k]@ == self@.displayed_urls()[k],
            decreases self.filtered_url_indices.len() - i,
        {
            let at = self.filtered_url_indices[i];
            assert(self@.filtered.contains(at));
            out.push(self.visited_urls[at].clone());
            i += 1;
        }
        assert(views(out@) =~= self@.displayed_urls());
        out
    }

    /// The first position of the list is selected, or nothing where the list
    /// is empty.
    fn select_first_or_last(&mut self)
        ensures
            final(self)@ == (SessionView {
                selected: old(self)@.first_or_none(),
                ..old(self)@
            }),
    {
        if self.filtered_url_indices.len() > 0 {
            self.selected = Some(0);
        } else {
            self.selected = None;
        }
    }

    /// Whether the result at `index` matches the query, given the lower-case
    /// query and whether the query is empty.
    fn record_matches(&self, index: usize, query_lower: &Vec<char>, query_is_empty: bool) -> (r:
        bool)
        requires
            self@.well_recorded(),
            index < self@.urls.len(),
            query_is_empty == (self@.query.len() == 0),
            query_lower@ == lowercase(self@.query),
        ensures
            r == matches_query(self@.bodies[self@.urls[index as int]], self@.query),
    {
        if query_is_empty {
            return true;
        }
        assert(self@.urls.contains(self@.urls[index as int]));
        match self.body_texts.get(self.visited_urls[index].as_str()) {
            Some(body) => {
                let body_lower = lower_chars(body.as_str());
                contains(&body_lower, query_lower)
            },
            None => false,
        }
    }

    /// Computes the list anew from the results and the applied query. The
    /// result that was selected stays selected where it is still listed;
    /// otherwise the first of the list is selected, or nothing where the list
    /// is empty.
    pub fn update_filtered_list(&mut self)
        requires
            old(self)@.well_recorded(),
        ensures
            final(self)@ == old(self)@.update_filtered_list(),
            final(self).inv(),
    {
        let ghost before = self@;
        let query_is_empty = self.active_search_query.as_str().is_empty();
        let query_lower = lower_chars(self.active_search_query.as_str());
        let previous = self.get_selected_original_index();
        let mut filtered: Vec<usize> = Vec::new();
        let mut i: usize = 0;
        while i < self.visited_urls.len()
            invariant
                i <= self.visited_urls.len(),
                self@ == before,
                before.well_recorded(),
                query_is_empty == (before.query.len() == 0),
                query_lower@ == lowercase(before.query),
                filtered@ == filter_upto(before.urls, before.bodies, before.query, i as int),
            decreases self.visited_urls.len() - i,
        {
            if self.record_matches(i, &query_lower, query_is_empty) {
                filtered.push(i);
            }
            i += 1;
        }
        proof {
            lemma_filter_view(before.urls, before.bodies, before.query, before.urls.len() as int);
            lemma_selection_stable(before);
        }
        let mut found: Option<usize> = None;
        match previous {
            Some(record) => {
                let mut k: usize = 0;
                while k < filtered.len()
                    invariant_except_break
                        forall|j: int| 0 <= j < k ==> filtered@[j] != record,
                        found is None,
                    invariant
                        k <= filtered.len(),
                    ensures
                        found matches Some(at) ==> at < filtered.len() && filtered@[at as int]
                            == record,
                        found is None ==> !filtered@.contains(record),
                    decreases filtered.len() - k,
                {
                    if filtered[k] == record {
                        found = Some(k);
                        break ;
                    }
                    k += 1;
                }
                proof {
                    match found {
                        Some(at) => {
                            assert(filtered@.contains(record));
                            let chosen = filtered@.index_of(record);
                            assert(chosen == at) by {
                                if chosen < at {
                                    assert(filtered@[chosen] < filtered@[at as int]);
                                } else if at < chosen {
                                    assert(filtered@[at as int] < filtered@[chosen]);
                                }
                            }
                        },
                        None => {},
                    }
                }
            },
            None => {},
        }
        self.filtered_url_indices = filtered;
        match found {
            Some(at) => {
                self.selected = Some(at);
            },
            None => {
                self.select_first_or_last();
            },
        }
    }

    /// The line of the selected body that the query asks for: the first line
    /// in whose lower-case form the lower-case query stands.
    pub fn find_first_match_line(&self) -> (r: Option<usize>)
        ensures
            r == self@.find_first_match_line(),
    {
        if self.active_search_query.as_str().is_empty() {
            return None;
        }
        let query_lower = lower_chars(self.active_search_query.as_str());
        match self.get_selected_content() {
            Some(content) => {
                let chars = to_chars(content.as_str());
                let all = split_lines(&chars);
                first_line_containing(&all, &query_lower)
            },
            None => None,
        }
    }

    /// Scrolls to the first matching line of the selected body, or to the top
    /// without a query or a match.
    pub fn reset_or_find_scroll(&mut self)
        ensures
            final(self)@ == old(self)@.reset_or_find_scroll(),
    {
        self.content_scroll = match self.find_first_match_line() {
            Some(line) => line,
            None => 0,
        };
    }

    /// Records a result. One whose address is recorded already is dropped.
    pub fn add_crawl_result(&mut self, url: String, body: String)
        requires
            old(self).inv(),
            old(self)@.urls.len() < usize::MAX,
        ensures
            final(self)@ == old(self)@.add_crawl_result(url@, body@),
            final(self).inv(),
    {
        if !self.body_texts.contains_key(url.as_str()) {
            let ghost before = self@;
            let is_first_item = self.visited_urls.len() == 0;
            self.visited_urls.push(url.clone());
            self.body_texts.insert(url, body);
            proof {
                assert(self@.urls =~= before.urls.push(url@));
                assert(self@.bodies =~= before.bodies.insert(url@, body@));
                lemma_grown_is_well_recorded(before, url@, body@);
            }
            self.update_filtered_list();
            if is_first_item && self.filtered_url_indices.len() > 0 {
                self.selected = Some(0);
                self.reset_or_find_scroll();
            }
        }
    }

    /// Records a batch of results in their order.
    pub fn add_crawl_results(&mut self, results: Vec<CrawlResult>)
        requires
            old(self).inv(),
            old(self)@.urls.len() + results.len() <= usize::MAX,
        ensures
            final(self)@ == old(self)@.add_all(views(results@)),
            final(self).inv(),
    {
        let ghost before = self@;
        let ghost all = views(results@);
        let mut i: usize = 0;
        while i < results.len()
            invariant
                i <= results.len(),
                all == views(results@),
                self.inv(),
                self@.urls.len() <= before.urls.len() + i,
                before.urls.len() + results.len() <= usize::MAX,
                self@ == before.add_all(all.take(i as int)),
            decreases results.len() - i,
        {
            assert(all.take(i + 1).drop_last() =~= all.take(i as int));
            assert(all.take(i + 1).last() == results@[i as int]@);
            self.add_crawl_result(results[i].url.clone(), results[i].body.clone());
            i += 1;
        }
        assert(all.take(i as int) =~= all);
    }

    /// Moves the selection one position down the list, wrapping at its end,
    /// and scrolls anew.
    pub fn select_next(&mut self)
        requires
            old(self).inv(),
        ensures
            final(self)@ == old(self)@.select_next(),
            final(self).inv(),
    {
        let len = self.filtered_url_indices.len();
        if len == 0 {
            return ;
        }
        let i: usize = match self.selected {
            Some(i) => (i + 1) % len,
            None => 0,
        };
        self.selected = Some(i);
        self.reset_or_find_scroll();
    }

    /// Moves the selection one position up the list, wrapping at its start,
    /// and scrolls anew.
    pub fn select_previous(&mut self)
        requires
            old(self).inv(),
        ensures
            final(self)@ == old(self)@.select_previous(),
            final(self).inv(),
    {
        let len = self.filtered_url_indices.len();
        if len == 0 {
            return ;
        }
        let i: usize = match self.selected {
            Some(i) => {
                if i == 0 {
                    len - 1
                } else {
                    i - 1
                }
            },
            None => 0,
        };
        self.selected = Some(i);
        self.reset_or_find_scroll();
    }

    /// Begins typing a query, from the query that is applied.
    pub fn start_search(&mut self)
        ensures
            final(self)@ == old(self)@.start_search(),
    {
        self.is_searching = true;
        self.search_input = self.active_search_query.clone();
    }

    /// Adds a character to the query being typed.
    pub fn push_search_char(&mut self, c: char)
        ensures
            final(self)@ == old(self)@.push_search_char(c),
    {
        self.search_input.push(c);
    }

    /// Takes the last character of the query being typed away.
    pub fn pop_search_char(&mut self)
        ensures
            final(self)@ == old(self)@.pop_search_char(),
    {
        self.search_input.pop();
    }

    /// Applies the typed query: the list is computed anew and scrolled.
    pub fn finalize_search(&mut self)
        requires
            old(self).inv(),
        ensures
            final(self)@ == old(self)@.finalize_search(),
            final(self).inv(),
    {
        self.is_searching = false;
        self.active_search_query = self.search_input.clone();
        self.update_filtered_list();
        self.reset_or_find_scroll();
    }

    /// Ends typing and drops what was typed; the applied query stays.
    pub fn cancel_search(&mut self)
        ensures
            final(self)@ == old(self)@.cancel_search(),
    {
        self.is_searching = false;
        self.search_input = String::new();
    }

    /// Takes the query away: everything is listed, from the top.
    pub fn clear_search(&mut self)
        requires
            old(self).inv(),
        ensures
            final(self)@ == old(self)@.clear_search(),
            final(self).inv(),
    {
        self.is_searching = false;
        self.search_input = String::new();
        self.active_search_query = String::new();
        self.update_filtered_list();
        self.content_scroll = 0;
    }

    /// Scrolls down by `lines`, stopping at the largest offset.
    pub fn scroll_content_down(&mut self, lines: u16)
        ensures
            final(self)@ == old(self)@.scroll_content_down(lines),
    {
        self.content_scroll = self.content_scroll.saturating_add(lines as usize);
    }

    /// Scrolls up by `lines`, stopping at the top.
    pub fn scroll_content_up(&mut self, lines: u16)
        ensures
            final(self)@ == old(self)@.scroll_content_up(lines),
    {
        self.content_scroll = self.content_scroll.saturating_sub(lines as usize);
    }
}

} // verus!
