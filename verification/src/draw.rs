//! The draw model: what one frame shows, computed from the session. Painting
//! it is the renderer's work.

use crate::session::{AppState, SessionView};
use crate::text::{
    find_matches, from_chars, lemma_match_starts, lines, lower_chars, lowercase, match_starts,
    split_lines, starts_of, to_chars, views,
};
use vstd::prelude::*;
use vstd::string::{StrSliceExecFns, StringExecFns};

verus! {

/// The decimal digit for a number below ten.
pub open spec fn digit(d: int) -> char {
    if d == 0 {
        '0'
    } else if d == 1 {
        '1'
    } else if d == 2 {
        '2'
    } else if d == 3 {
        '3'
    } else if d == 4 {
        '4'
    } else if d == 5 {
        '5'
    } else if d == 6 {
        '6'
    } else if d == 7 {
        '7'
    } else if d == 8 {
        '8'
    } else {
        '9'
    }
}

/// A number in decimal digits, without leading zeros.
pub open spec fn decimal(n: nat) -> Seq<char>
    decreases n,
{
    if n < 10 {
        seq![digit(n as int)]
    } else {
        decimal(n / 10).push(digit((n % 10) as int))
    }
}

/// A sequence back to front.
pub open spec fn reversed(s: Seq<char>) -> Seq<char> {
    Seq::new(s.len(), |k: int| s[s.len() - 1 - k])
}

/// An address as the list shows it in a panel `width` cells wide: one that is
/// longer than the width less six is cut to the width less nine and gets three
/// dots.
pub open spec fn display_url(url: Seq<char>, width: u16) -> Seq<char> {
    let limit: int = if width >= 6 {
        width - 6
    } else {
        0
    };
    let keep: int = if width >= 9 {
        width - 9
    } else {
        0
    };
    if url.len() > limit {
        url.take(keep) + "..."@
    } else {
        url
    }
}

/// The list entry for the address at `position`, counted from zero: its number
/// in brackets and the address as the list shows it.
pub open spec fn list_item(position: int, url: Seq<char>, width: u16) -> Seq<char> {
    "["@ + decimal((position + 1) as nat) + "] "@ + display_url(url, width)
}

/// The entries of the list.
pub open spec fn list_items(s: SessionView, width: u16) -> Seq<Seq<char>> {
    Seq::new(s.displayed_urls().len(), |i: int| list_item(i, s.displayed_urls()[i], width))
}

/// The title of the list: how many results are listed.
pub open spec fn list_title(s: SessionView) -> Seq<char> {
    "Visited URLs ("@ + decimal(s.filtered.len()) + ")"@
}

/// The text of the search bar.
pub open spec fn search_bar_text(s: SessionView) -> Seq<char> {
    if s.searching {
        "Search: "@ + s.search_input
    } else if s.query.len() > 0 {
        "Filtering by: \""@ + s.query + "\" (Press '/' to edit, Esc to clear)"@
    } else {
        "Press '/' to search"@
    }
}

/// The title of the content panel: the scroll offset and the selected address.
pub open spec fn content_title(s: SessionView) -> Seq<char> {
    "Content (Scroll: "@ + decimal(s.scroll as nat) + "): "@ + match s.selected_url() {
        Some(url) => url,
        None => "<None Selected>"@,
    }
}

/// The help line at the bottom of the screen.
pub open spec fn status_help_text() -> Seq<char> {
    " Quit: Ctrl+Q | Back: Ctrl+C | Nav: ↑/↓/j/k | Search: / Enter Esc | Scroll: PgUp/PgDn/Mouse "@
}

/// What the content panel shows while nothing is selected.
pub open spec fn nothing_selected_text() -> Seq<char> {
    "Select a URL to view its content."@
}

/// A stretch of a line to highlight, from `start` up to `end`, in characters.
#[derive(Debug, Clone, Copy, PartialEq, Eq)]
pub struct Span {
    pub start: usize,
    pub end: usize,
}

/// One line of the content panel as a mathematical value.
pub struct ContentLineView {
    pub text: Seq<char>,
    pub highlights: Seq<Span>,
}

/// One line of the content panel.
#[derive(Debug, Clone, PartialEq, Eq)]
pub struct ContentLine {
    /// The text of the line.
    pub text: String,
    /// The occurrences of the query, as offsets into the lower-case form of
    /// the text, left to right and without overlap.
    pub highlights: Vec<Span>,
}

impl View for ContentLine {
    type V = ContentLineView;

    open spec fn view(&self) -> ContentLineView {
        ContentLineView { text: self.text@, highlights: self.highlights@ }
    }
}

/// The stretches to highlight in a line for the lower-case query `needle`:
/// its occurrences in the lower-case form of the line, left to right and
/// without overlap.
pub open spec fn highlights_of(line: Seq<char>, needle: Seq<char>) -> Seq<Span> {
    spans_at(match_starts(needle, lowercase(line), 0), needle.len())
}

/// The stretches of length `len` that begin at `starts`.
pub open spec fn spans_at(starts: Seq<int>, len: nat) -> Seq<Span> {
    Seq::new(
        starts.len(),
        |k: int| Span { start: starts[k] as usize, end: (starts[k] + len) as usize },
    )
}

/// A line of a body as the content panel shows it under `query`.
pub open spec fn content_line(line: Seq<char>, query: Seq<char>) -> ContentLineView {
    ContentLineView {
        text: line,
        highlights: if query.len() == 0 {
            Seq::empty()
        } else {
            highlights_of(line, lowercase(query))
        },
    }
}

/// The lines of the content panel: the lines of the selected body with the
/// occurrences of the query, or one line of advice while nothing is selected.
pub open spec fn content_lines(s: SessionView) -> Seq<ContentLineView> {
    match s.selected_body() {
        Some(body) => Seq::new(
            lines(body).len(),
            |i: int| content_line(lines(body)[i], s.query),
        ),
        None => seq![ContentLineView { text: nothing_selected_text(), highlights: Seq::empty() }],
    }
}

/// What one frame shows, as a mathematical value.
pub struct DrawModelView {
    pub search_bar_text: Seq<char>,
    pub search_bar_is_editing: bool,
    pub url_list_title: Seq<char>,
    pub url_list_items: Seq<Seq<char>>,
    pub selected_index: Option<usize>,
    pub content_title: Seq<char>,
    pub content_lines: Seq<ContentLineView>,
    pub scroll_offset: usize,
    pub status_help_text: Seq<char>,
}

/// What one frame shows.
#[derive(Debug, Clone, PartialEq, Eq)]
pub struct DrawModel {
    pub search_bar_text: String,
    pub search_bar_is_editing: bool,
    pub url_list_title: String,
    pub url_list_items: Vec<String>,
    pub selected_index: Option<usize>,
    pub content_title: String,
    pub content_lines: Vec<ContentLine>,
    pub scroll_offset: usize,
    pub status_help_text: String,
}

impl View for DrawModel {
    type V = DrawModelView;

    open spec fn view(&self) -> DrawModelView {
        DrawModelView {
            search_bar_text: self.search_bar_text@,
            search_bar_is_editing: self.search_bar_is_editing,
            url_list_title: self.url_list_title@,
            url_list_items: views(self.url_list_items@),
            selected_index: self.selected_index,
            content_title: self.content_title@,
            content_lines: views(self.content_lines@),
            scroll_offset: self.scroll_offset,
            status_help_text: self.status_help_text@,
        }
    }
}

/// The frame for a session whose list panel is `list_width` cells wide.
pub open spec fn draw_model(s: SessionView, list_width: u16) -> DrawModelView {
    DrawModelView {
        search_bar_text: search_bar_text(s),
        search_bar_is_editing: s.searching,
        url_list_title: list_title(s),
        url_list_items: list_items(s, list_width),
        selected_index: s.selected,
        content_title: content_title(s),
        content_lines: content_lines(s),
        scroll_offset: s.scroll,
        status_help_text: status_help_text(),
    }
}

/// The decimal digit for a number below ten.
fn digit_char(d: usize) -> (c: char)
    requires
        d < 10,
    ensures
        c == digit(d as int),
{
    if d == 0 {
        '0'
    } else if d == 1 {
        '1'
    } else if d == 2 {
        '2'
    } else if d == 3 {
        '3'
    } else if d == 4 {
        '4'
    } else if d == 5 {
        '5'
    } else if d == 6 {
        '6'
    } else if d == 7 {
        '7'
    } else if d == 8 {
        '8'
    } else {
        '9'
    }
}

/// A number in decimal digits.
pub fn decimal_string(n: usize) -> (r: String)
    ensures
        r@ == decimal(n as nat),
{
    let mut low: Vec<char> = Vec::new();
    let mut rest: usize = n;
    while rest >= 10
        invariant
            decimal(n as nat) == decimal(rest as nat) + reversed(low@),
        decreases rest,
    {
        let ghost before = low@;
        low.push(digit_char(rest % 10));
        assert(decimal(rest as nat) + reversed(before) =~= decimal((rest / 10) as nat) + reversed(
            low@,
        ));
        rest = rest / 10;
    }
    let ghost before = low@;
    low.push(digit_char(rest));
    assert(decimal(rest as nat) + reversed(before) =~= reversed(low@));
    let mut out = String::new();
    let mut i: usize = low.len();
    while i > 0
        invariant
            i <= low.len(),
            out@ == reversed(low@).take(low.len() - i),
        decreases i,
    {
        i -= 1;
        out.push(low[i]);
    }
    assert(reversed(low@).take(low.len() as int) =~= reversed(low@));
    out
}

/// An address as the list shows it in a panel `width` cells wide.
pub fn shown_url(url: &str, width: u16) -> (r: String)
    ensures
        r@ == display_url(url@, width),
{
    let limit: usize = if width >= 6 {
        (width - 6) as usize
    } else {
        0
    };
    let keep: usize = if width >= 9 {
        (width - 9) as usize
    } else {
        0
    };
    if url.unicode_len() > limit {
        let head = String::from_str(url.substring_char(0, keep));
        assert(url@.subrange(0, keep as int) =~= url@.take(keep as int));
        head.concat("...")
    } else {
        String::from_str(url)
    }
}

/// The list entry for the address at `position`, counted from zero.
pub fn list_entry(position: usize, url: &str, width: u16) -> (r: String)
    requires
        position < usize::MAX,
    ensures
        r@ == list_item(position as int, url@, width),
{
    let mut out = String::from_str("[");
    out.append(decimal_string(position + 1).as_str());
    out.append("] ");
    out.append(shown_url(url, width).as_str());
    out
}

/// The stretches to highlight in a line, given the lower-case forms of the
/// line and of the query.
pub fn highlight_spans(line_lower: &Vec<char>, needle: &Vec<char>) -> (r: Vec<Span>)
    ensures
        r@ == spans_at(match_starts(needle@, line_lower@, 0), needle@.len()),
{
    let starts = find_matches(line_lower, needle);
    proof {
        lemma_match_starts(needle@, line_lower@, 0);
    }
    let ghost all = match_starts(needle@, line_lower@, 0);
    let line_len = line_lower.len();
    let mut out: Vec<Span> = Vec::new();
    let mut i: usize = 0;
    while i < starts.len()
        invariant
            i <= starts.len(),
            line_len == line_lower@.len(),
            starts_of(starts@) == all,
            forall|k: int|
                0 <= k < all.len() ==> 0 <= #[trigger] all[k] && all[k] + needle@.len()
                    <= line_lower@.len(),
            out@ == spans_at(all.take(i as int), needle@.len()),
        decreases starts.len() - i,
    {
        let start = starts[i];
        assert(start as int == starts_of(starts@)[i as int]);
        out.push(Span { start, end: start + needle.len() });
        i += 1;
        assert(out@ =~= spans_at(all.take(i as int), needle@.len()));
    }
    assert(all.take(i as int) =~= all);
    out
}

/// One line of the content panel: its text and, under a query, the stretches
/// to highlight. `needle` is the lower-case query.
pub fn shown_line(line: &Vec<char>, needle: &Vec<char>, query_is_empty: bool) -> (r: ContentLine)
    ensures
        r@.text == line@,
        r@.highlights == if query_is_empty {
            Seq::<Span>::empty()
        } else {
            highlights_of(line@, needle@)
        },
{
    let text = from_chars(line);
    if query_is_empty {
        ContentLine { text, highlights: Vec::new() }
    } else {
        let line_lower = lower_chars(text.as_str());
        let highlights = highlight_spans(&line_lower, needle);
        ContentLine { text, highlights }
    }
}

/// The text of the search bar.
pub fn render_search_bar(app_state: &AppState) -> (r: String)
    ensures
        r@ == search_bar_text(app_state@),
{
    if app_state.is_searching() {
        String::from_str("Search: ").concat(app_state.search_input())
    } else if !app_state.active_search_query().is_empty() {
        let mut out = String::from_str("Filtering by: \"");
        out.append(app_state.active_search_query());
        out.append("\" (Press '/' to edit, Esc to clear)");
        out
    } else {
        String::from_str("Press '/' to search")
    }
}

/// The title of the list panel.
pub fn render_list_title(app_state: &AppState) -> (r: String)
    ensures
        r@ == list_title(app_state@),
{
    let mut out = String::from_str("Visited URLs (");
    out.append(decimal_string(app_state.filtered_indices().len()).as_str());
    out.append(")");
    out
}

/// The entries of the list panel, `width` cells wide.
pub fn render_url_list(app_state: &AppState, width: u16) -> (r: Vec<String>)
    requires
        app_state.inv(),
    ensures
        views(r@) == list_items(app_state@, width),
{
    let displayed = app_state.get_displayed_urls();
    let ghost expected = list_items(app_state@, width);
    let mut out: Vec<String> = Vec::new();
    let mut i: usize = 0;
    while i < displayed.len()
        invariant
            i <= displayed.len(),
            views(displayed@) == app_state@.displayed_urls(),
            expected == list_items(app_state@, width),
            out@.len() == i,
            forall|k: int| 0 <= k < i ==> #[trigger] out@[k]@ == expected[k],
        decreases displayed.len() - i,
    {
        assert(views(displayed@)[i as int] == displayed@[i as int]@);
        out.push(list_entry(i, displayed[i].as_str(), width));
        i += 1;
    }
    assert(views(out@) =~= expected);
    out
}

/// The title of the content panel.
pub fn render_content_title(app_state: &AppState) -> (r: String)
    ensures
        r@ == content_title(app_state@),
{
    let mut out = String::from_str("Content (Scroll: ");
    out.append(decimal_string(app_state.content_scroll()).as_str());
    out.append("): ");
    match app_state.get_selected_url_str() {
        Some(url) => out.append(url),
        None => out.append("<None Selected>"),
    }
    out
}

/// The lines of the content panel.
pub fn render_content_view(app_state: &AppState) -> (r: Vec<ContentLine>)
    ensures
        views(r@) == content_lines(app_state@),
{
    let mut out: Vec<ContentLine> = Vec::new();
    match app_state.get_selected_content() {
        Some(content) => {
            let query_is_empty = app_state.active_search_query().is_empty();
            let needle = lower_chars(app_state.active_search_query());
            let chars = to_chars(content.as_str());
            let all = split_lines(&chars);
            let ghost expected = content_lines(app_state@);
            let mut i: usize = 0;
            while i < all.len()
                invariant
                    i <= all.len(),
                    views(all@) == lines(content@),
                    app_state@.selected_body() == Some(content@),
                    expected == content_lines(app_state@),
                    query_is_empty == (app_state@.query.len() == 0),
                    needle@ == lowercase(app_state@.query),
                    out@.len() == i,
                    forall|k: int| 0 <= k < i ==> #[trigger] out@[k]@ == expected[k],
                decreases all.len() - i,
            {
                assert(views(all@)[i as int] == all@[i as int]@);
                out.push(shown_line(&all[i], &needle, query_is_empty));
                i += 1;
            }
            assert(views(out@) =~= expected);
        },
        None => {
            out.push(
                ContentLine {
                    text: String::from_str("Select a URL to view its content."),
                    highlights: Vec::new(),
                },
            );
            assert(views(out@) =~= content_lines(app_state@));
        },
    }
    out
}

/// The help line at the bottom of the screen.
pub fn render_status_bar() -> (r: String)
    ensures
        r@ == status_help_text(),
{
    String::from_str(
        " Quit: Ctrl+Q | Back: Ctrl+C | Nav: ↑/↓/j/k | Search: / Enter Esc | Scroll: PgUp/PgDn/Mouse ",
    )
}

/// The frame for a session whose list panel is `list_width` cells wide.
pub fn ui(app_state: &AppState, list_width: u16) -> (r: DrawModel)
    requires
        app_state.inv(),
    ensures
        r@ == draw_model(app_state@, list_width),
{
    DrawModel {
        search_bar_text: render_search_bar(app_state),
        search_bar_is_editing: app_state.is_searching(),
        url_list_title: render_list_title(app_state),
        url_list_items: render_url_list(app_state, list_width),
        selected_index: app_state.selected(),
        content_title: render_content_title(app_state),
        content_lines: render_content_view(app_state),
        scroll_offset: app_state.content_scroll(),
        status_help_text: render_status_bar(),
    }
}

} // verus!
