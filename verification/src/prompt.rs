//! The prompt for the address at which a crawl starts.

use crate::input::{KeyCode, KeyEvent};
use crate::links::{accepted_root, parse_url, parts_of, url_parse, SiteUrl, UrlParts};
use vstd::prelude::*;
use vstd::string::StringExecFns;

verus! {

/// How long the prompt waits for a key, in milliseconds.
pub const PROMPT_POLL_TIMEOUT_MILLIS: u64 = 200;

/// What stands before the typed address on the prompt line.
pub open spec fn prompt_label() -> Seq<char> {
    "Enter URL to crawl (Esc: back, Ctrl+Q: quit): "@
}

/// How the prompt stands after a key.
#[derive(Debug, Clone, PartialEq, Eq)]
pub enum PromptOutcome {
    /// The prompt goes on.
    Pending,
    /// A crawl starts at this address.
    Accepted(SiteUrl),
    /// The prompt was left without an address: the program ends.
    Dismissed,
}

/// A [`PromptOutcome`] as a mathematical value.
pub enum PromptOutcomeView {
    Pending,
    Accepted(UrlParts),
    Dismissed,
}

impl View for PromptOutcome {
    type V = PromptOutcomeView;

    open spec fn view(&self) -> PromptOutcomeView {
        match self {
            PromptOutcome::Pending => PromptOutcomeView::Pending,
            PromptOutcome::Accepted(url) => PromptOutcomeView::Accepted(url@),
            PromptOutcome::Dismissed => PromptOutcomeView::Dismissed,
        }
    }
}

/// What submitting does, given what parsing made of the typed text: an
/// absolute `http` or `https` address is accepted; with anything else the line
/// is cleared and the prompt goes on.
pub open spec fn submit_effect(input: Seq<char>, parsed: Option<UrlParts>) -> (
    Seq<char>,
    PromptOutcomeView,
) {
    match accepted_root(parsed) {
        Some(url) => (input, PromptOutcomeView::Accepted(url)),
        None => (Seq::empty(), PromptOutcomeView::Pending),
    }
}

/// What a key does to the prompt: the typed text after it and the outcome.
pub open spec fn prompt_effect(input: Seq<char>, key: KeyEvent) -> (Seq<char>, PromptOutcomeView) {
    match key.code {
        KeyCode::Char(c) => if !key.control {
            (input.push(c), PromptOutcomeView::Pending)
        } else if c == 'q' || c == 'c' {
            (input, PromptOutcomeView::Dismissed)
        } else {
            (input, PromptOutcomeView::Pending)
        },
        KeyCode::Backspace => (
            if input.len() == 0 {
                input
            } else {
                input.drop_last()
            },
            PromptOutcomeView::Pending,
        ),
        KeyCode::Enter => submit_effect(input, url_parse(input)),
        KeyCode::Esc => (input, PromptOutcomeView::Dismissed),
        _ => (input, PromptOutcomeView::Pending),
    }
}

/// The prompt: the text typed so far.
pub struct UrlPrompt {
    input_url: String,
}

impl View for UrlPrompt {
    type V = Seq<char>;

    closed spec fn view(&self) -> Seq<char> {
        self.input_url@
    }
}

impl UrlPrompt {
    /// An empty prompt.
    pub fn new() -> (r: UrlPrompt)
        ensures
            r@ == Seq::<char>::empty(),
    {
        UrlPrompt { input_url: String::new() }
    }

    /// The text typed so far.
    pub fn input(&self) -> (r: &str)
        ensures
            r@ == self@,
    {
        self.input_url.as_str()
    }

    /// The line that the prompt shows: the label and the text typed so far.
    pub fn prompt_text(&self) -> (r: String)
        ensures
            r@ == prompt_label() + self@,
    {
        let label = String::from_str("Enter URL to crawl (Esc: back, Ctrl+Q: quit): ");
        label.concat(self.input_url.as_str())
    }

    /// Submits the typed text, given what parsing made of it.
    pub fn submit(&mut self, parsed: Option<SiteUrl>) -> (outcome: PromptOutcome)
        ensures
            (final(self)@, outcome@) == submit_effect(old(self)@, parts_of(parsed)),
    {
        match crate::links::accept_root(parsed) {
            Some(url) => PromptOutcome::Accepted(url),
            None => {
                self.input_url = String::new();
                PromptOutcome::Pending
            },
        }
    }

    /// Handles a key press.
    pub fn handle_key(&mut self, key: KeyEvent) -> (outcome: PromptOutcome)
        ensures
            (final(self)@, outcome@) == prompt_effect(old(self)@, key),
    {
        match key.code {
            KeyCode::Char(c) => {
                if !key.control {
                    self.input_url.push(c);
                    PromptOutcome::Pending
                } else if c == 'q' || c == 'c' {
                    PromptOutcome::Dismissed
                } else {
                    PromptOutcome::Pending
                }
            },
            KeyCode::Backspace => {
                self.input_url.pop();
                PromptOutcome::Pending
            },
            KeyCode::Enter => {
                let parsed = parse_url(self.input_url.as_str());
                self.submit(parsed)
            },
            KeyCode::Esc => PromptOutcome::Dismissed,
            _ => PromptOutcome::Pending,
        }
    }
}

} // verus!
