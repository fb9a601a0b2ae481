//! Finding images: the decisions of the dialogue in which a user gives the
//! entries that lack an image one.
//!
//! The dialogue is a state machine. Its caller shows pages and prompts, reads
//! lines and the clipboard, and reports each as an [`ImageEvent`]; the machine
//! answers with the next [`ImageAction`], and changes the catalog where the
//! user has accepted an image.

use vstd::prelude::*;
use vstd::string::*;
use crate::game::{EpicGame, GameView};

verus! {

/// How a user answers the prompt for an image.
#[derive(Clone, Copy, Debug, PartialEq, Eq)]
pub enum Reply {
    /// Leave the entry without an image.
    Skip,
    /// Take the image from the clipboard.
    Copy,
    /// Anything else.
    Unrecognized,
}

/// The answer that `word` stands for: `skip` or `s`, `copy` or `c`, in lower
/// case and with nothing around them.
pub open spec fn reply_of(word: Seq<char>) -> Reply {
    if word == "skip"@ || word == "s"@ {
        Reply::Skip
    } else if word == "copy"@ || word == "c"@ {
        Reply::Copy
    } else {
        Reply::Unrecognized
    }
}

/// The decision that `word` stands for: `yes` or `y`, `no` or `n`, in lower
/// case and with nothing around them; anything else decides nothing.
pub open spec fn decision_of(word: Seq<char>) -> Option<bool> {
    if word == "yes"@ || word == "y"@ {
        Some(true)
    } else if word == "no"@ || word == "n"@ {
        Some(false)
    } else {
        None
    }
}

/// Whether `word` is `text`, character for character.
fn is_word(word: &str, text: &str) -> (same: bool)
    ensures
        same == (word@ == text@),
{
    word.to_owned() == text.to_owned()
}

/// Reads the answer to the prompt for an image.
pub fn parse_reply(word: &str) -> (reply: Reply)
    ensures
        reply == reply_of(word@),
{
    if is_word(word, "skip") || is_word(word, "s") {
        Reply::Skip
    } else if is_word(word, "copy") || is_word(word, "c") {
        Reply::Copy
    } else {
        Reply::Unrecognized
    }
}

/// Reads the answer to a question that asks for yes or no.
pub fn yes_or_no(word: &str) -> (decision: Option<bool>)
    ensures
        decision == decision_of(word@),
{
    if is_word(word, "yes") || is_word(word, "y") {
        Some(true)
    } else if is_word(word, "no") || is_word(word, "n") {
        Some(false)
    } else {
        None
    }
}

/// What `str::trim` makes of a line.
pub uninterp spec fn trimmed(line: Seq<char>) -> Seq<char>;

/// `str::trim`, which returns the line without the white space at its start
/// and at its end. Nothing is proved of it: the contract only gives its
/// result a name.
#[verifier::external_body]
pub(crate) fn trim(line: &str) -> (word: &str)
    ensures
        word@ == trimmed(line@),
{
    line.trim()
}

/// The address of the page on which to look for images of the game called
/// `name`.
pub open spec fn search_url_of(name: Seq<char>) -> Seq<char> {
    "https://www.epicgames.com/store/en-US/browse?q="@ + name
}

/// The address of the page on which to look for images of a game.
pub fn search_url(display_name: &str) -> (url: String)
    ensures
        url@ == search_url_of(display_name@),
{
    let mut url = String::from_str("https://www.epicgames.com/store/en-US/browse?q=");
    url.append(display_name);
    url
}

/// Where the dialogue stands.
#[derive(Clone, Debug, PartialEq, Eq)]
pub enum ImageSearch {
    /// The user has been asked what to do about the entry at `index`.
    Prompting { index: usize },
    /// The user has been asked whether `candidate` is the image of the entry
    /// at `index`.
    AwaitingConfirmation { index: usize, candidate: String },
    /// No entry is left to ask about.
    Done,
}

/// What the caller reports to the dialogue.
#[derive(Clone, Debug, PartialEq, Eq)]
pub enum ImageEvent {
    /// A line that the user typed, as it was read.
    Line(String),
    /// The text that the clipboard held.
    Clipboard(String),
}

/// What the dialogue asks of its caller.
#[derive(Clone, Debug, PartialEq, Eq)]
pub enum ImageAction {
    /// Show the page at `url`, ask what to do about the entry called
    /// `display_name`, and report the line that the user types.
    Search { display_name: String, url: String },
    /// Ask again what to do about the entry, and report the line.
    Prompt { display_name: String },
    /// Say that the input was not understood, ask again what to do about the
    /// entry, and report the line.
    Reject { display_name: String },
    /// Report the text that the clipboard holds.
    ReadClipboard,
    /// Ask whether `candidate` is the image of the entry, and report the line.
    Confirm { display_name: String, candidate: String },
    /// Stop: the dialogue is over.
    Finish,
}

/// An [`ImageSearch`] over sequences of characters.
pub enum SearchView {
    Prompting { index: int },
    AwaitingConfirmation { index: int, candidate: Seq<char> },
    Done,
}

/// An [`ImageEvent`] over sequences of characters.
pub enum EventView {
    Line(Seq<char>),
    Clipboard(Seq<char>),
}

/// An [`ImageAction`] over sequences of characters.
pub enum ActionView {
    Search { display_name: Seq<char>, url: Seq<char> },
    Prompt { display_name: Seq<char> },
    Reject { display_name: Seq<char> },
    ReadClipboard,
    Confirm { display_name: Seq<char>, candidate: Seq<char> },
    Finish,
}

impl View for ImageSearch {
    type V = SearchView;

    open spec fn view(&self) -> SearchView {
        match self {
            ImageSearch::Prompting { index } => SearchView::Prompting { index: *index as int },
            ImageSearch::AwaitingConfirmation { index, candidate } => {
                SearchView::AwaitingConfirmation { index: *index as int, candidate: candidate@ }
            },
            ImageSearch::Done => SearchView::Done,
        }
    }
}

impl View for ImageEvent {
    type V = EventView;

    open spec fn view(&self) -> EventView {
        match self {
            ImageEvent::Line(line) => EventView::Line(line@),
            ImageEvent::Clipboard(text) => EventView::Clipboard(text@),
        }
    }
}

impl View for ImageAction {
    type V = ActionView;

    open spec fn view(&self) -> ActionView {
        match self {
            ImageAction::Search { display_name, url } => {
                ActionView::Search { display_name: display_name@, url: url@ }
            },
            ImageAction::Prompt { display_name } => {
                ActionView::Prompt { display_name: display_name@ }
            },
            ImageAction::Reject { display_name } => {
                ActionView::Reject { display_name: display_name@ }
            },
            ImageAction::ReadClipboard => ActionView::ReadClipboard,
            ImageAction::Confirm { display_name, candidate } => {
                ActionView::Confirm { display_name: display_name@, candidate: candidate@ }
            },
            ImageAction::Finish => ActionView::Finish,
        }
    }
}

/// One move of the dialogue: the catalog as it leaves it, where it then
/// stands, and what it asks for.
pub struct Move {
    pub catalog: Seq<GameView>,
    pub state: SearchView,
    pub action: ActionView,
}

/// Whether the dialogue may ask about the entry at `index`: there is one,
/// and it has no image.
pub open spec fn lacks_image(catalog: Seq<GameView>, index: int) -> bool {
    0 <= index < catalog.len() && catalog[index].image_url is None
}

/// The first position from `from` on whose entry has no image, or the length
/// of the catalog where every entry from there on has one.
pub open spec fn next_without_image(catalog: Seq<GameView>, from: int) -> int
    decreases catalog.len() - from,
{
    if from >= catalog.len() {
        catalog.len() as int
    } else if lacks_image(catalog, from) {
        from
    } else {
        next_without_image(catalog, from + 1)
    }
}

/// The dialogue turns to the first entry from `from` on that has no image:
/// it shows the page for it and asks. Where there is none, it is over.
pub open spec fn turn_to(catalog: Seq<GameView>, from: int) -> Move {
    let at = next_without_image(catalog, from);
    if at < catalog.len() {
        Move {
            catalog,
            state: SearchView::Prompting { index: at },
            action: ActionView::Search {
                display_name: catalog[at].display_name,
                url: search_url_of(catalog[at].display_name),
            },
        }
    } else {
        Move { catalog, state: SearchView::Done, action: ActionView::Finish }
    }
}

/// The catalog with `url` as the image of the entry at `index`.
pub open spec fn with_image(catalog: Seq<GameView>, index: int, url: Seq<char>) -> Seq<GameView> {
    catalog.update(
        index,
        GameView {
            display_name: catalog[index].display_name,
            install_location: catalog[index].install_location,
            launch_executable: catalog[index].launch_executable,
            image_url: Some(url),
        },
    )
}

/// The move that answers `event` in `state`.
///
/// While the user is asked about an entry: `skip` turns to the next entry
/// without an image, `copy` asks for the clipboard, any other line is
/// rejected and the question repeated; the clipboard's text becomes the
/// candidate, and the user is asked to confirm it. While confirmation is
/// awaited: `yes` makes the candidate the entry's image and turns to the
/// next entry, `no` goes back to asking about the same entry, anything else
/// repeats the question. Lines are read without the white space around
/// them. Only `yes` changes the catalog, and only the image of that entry.
///
/// A state that points at no entry, or at one that has an image, asks
/// nothing about it: the dialogue turns to the next entry without one.
pub open spec fn next_move(catalog: Seq<GameView>, state: SearchView, event: EventView) -> Move {
    match state {
        SearchView::Done => Move { catalog, state: SearchView::Done, action: ActionView::Finish },
        SearchView::Prompting { index } => {
            if !lacks_image(catalog, index) {
                turn_to(catalog, index)
            } else {
                let display_name = catalog[index].display_name;
                match event {
                    EventView::Line(line) => match reply_of(trimmed(line)) {
                        Reply::Skip => turn_to(catalog, index + 1),
                        Reply::Copy => Move { catalog, state, action: ActionView::ReadClipboard },
                        Reply::Unrecognized => Move {
                            catalog,
                            state,
                            action: ActionView::Reject { display_name },
                        },
                    },
                    EventView::Clipboard(text) => Move {
                        catalog,
                        state: SearchView::AwaitingConfirmation { index, candidate: text },
                        action: ActionView::Confirm { display_name, candidate: text },
                    },
                }
            }
        },
        SearchView::AwaitingConfirmation { index, candidate } => {
            if !lacks_image(catalog, index) {
                turn_to(catalog, index)
            } else {
                let display_name = catalog[index].display_name;
                let again = Move {
                    catalog,
                    state,
                    action: ActionView::Confirm { display_name, candidate },
                };
                match event {
                    EventView::Line(line) => match decision_of(trimmed(line)) {
                        Some(true) => turn_to(with_image(catalog, index, candidate), index + 1),
                        Some(false) => Move {
                            catalog,
                            state: SearchView::Prompting { index },
                            action: ActionView::Prompt { display_name },
                        },
                        None => again,
                    },
                    EventView::Clipboard(_) => again,
                }
            }
        },
    }
}

/// Where the dialogue starts: at the first entry without an image.
pub open spec fn first_move(catalog: Seq<GameView>) -> Move {
    turn_to(catalog, 0)
}

/// Turns the dialogue to the first entry from `from` on that has no image.
pub(crate) fn seek(catalog: &Vec<EpicGame>, from: usize) -> (found: (ImageSearch, ImageAction))
    ensures
        (Move { catalog: catalog.deep_view(), state: found.0@, action: found.1@ }) == turn_to(
            catalog.deep_view(),
            from as int,
        ),
{
    let mut at = from;
    while at < catalog.len() && catalog[at].image_url.is_some()
        invariant
            from <= at,
            next_without_image(catalog.deep_view(), at as int) == next_without_image(
                catalog.deep_view(),
                from as int,
            ),
        decreases catalog.len() - at,
    {
        at += 1;
    }
    if at < catalog.len() {
        let display_name = catalog[at].display_name.clone();
        let url = search_url(display_name.as_str());
        (ImageSearch::Prompting { index: at }, ImageAction::Search { display_name, url })
    } else {
        (ImageSearch::Done, ImageAction::Finish)
    }
}

} // verus!
