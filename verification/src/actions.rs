use vstd::prelude::*;

use crate::text::{str_eq, trim, trim_spec, views_of};

verus! {

/// A parsed player command.
#[derive(Debug, Clone)]
pub enum UserAction {
    Select(String),
    Next,
    Quit,
    Inventory,
    Player,
    Scene,
    Help,
    Unknown(String),
    Empty,
}

/// The mathematical value of a `UserAction`, with strings as character
/// sequences.
pub enum UserActionView {
    Select(Seq<char>),
    Next,
    Quit,
    Inventory,
    Player,
    Scene,
    Help,
    Unknown(Seq<char>),
    Empty,
}

impl View for UserAction {
    type V = UserActionView;

    open spec fn view(&self) -> UserActionView {
        match self {
            UserAction::Select(s) => UserActionView::Select(s@),
            UserAction::Next => UserActionView::Next,
            UserAction::Quit => UserActionView::Quit,
            UserAction::Inventory => UserActionView::Inventory,
            UserAction::Player => UserActionView::Player,
            UserAction::Scene => UserActionView::Scene,
            UserAction::Help => UserActionView::Help,
            UserAction::Unknown(s) => UserActionView::Unknown(s@),
            UserAction::Empty => UserActionView::Empty,
        }
    }
}

impl PartialEq for UserAction {
    fn eq(&self, other: &UserAction) -> (r: bool) {
        match (self, other) {
            (UserAction::Select(a), UserAction::Select(b)) => str_eq(a.as_str(), b.as_str()),
            (UserAction::Next, UserAction::Next) => true,
            (UserAction::Quit, UserAction::Quit) => true,
            (UserAction::Inventory, UserAction::Inventory) => true,
            (UserAction::Player, UserAction::Player) => true,
            (UserAction::Scene, UserAction::Scene) => true,
            (UserAction::Help, UserAction::Help) => true,
            (UserAction::Unknown(a), UserAction::Unknown(b)) => str_eq(a.as_str(), b.as_str()),
            (UserAction::Empty, UserAction::Empty) => true,
            _ => false,
        }
    }
}

impl vstd::std_specs::cmp::PartialEqSpecImpl for UserAction {
    open spec fn obeys_eq_spec() -> bool {
        true
    }

    open spec fn eq_spec(&self, other: &UserAction) -> bool {
        self@ == other@
    }
}

/// The words that shell-style splitting yields for a given line, or nothing
/// for an erroneous line; a pure function of the line.
pub uninterp spec fn shlex_words(s: Seq<char>) -> Option<Seq<Seq<char>>>;

/// Relies on `shlex::split`: shell-style word splitting, a function of the
/// input alone; `None` exactly on erroneous input (an unbalanced quote).
#[verifier::external_body]
fn split_words(s: &str) -> (r: Option<Vec<String>>)
    ensures
        (match r {
            Some(v) => shlex_words(s@) == Some(views_of(v@)),
            None => shlex_words(s@) is None,
        }),
{
    shlex::split(s)
}

/// The command the given words name: the first word picks the command
/// (case-sensitively), a `select` takes the second word as its argument
/// (empty when absent), an unrecognized first word is unknown and carries
/// the whole line, and no words at all mean an empty command.
pub open spec fn action_from_words(words: Seq<Seq<char>>, raw: Seq<char>) -> UserActionView {
    if words.len() == 0 {
        UserActionView::Empty
    } else {
        let head = words[0];
        if head == "select"@ || head == "s"@ {
            UserActionView::Select(
                if words.len() >= 2 {
                    words[1]
                } else {
                    Seq::<char>::empty()
                },
            )
        } else if head == "next"@ || head == "n"@ {
            UserActionView::Next
        } else if head == "player"@ || head == "p"@ {
            UserActionView::Player
        } else if head == "scene"@ {
            UserActionView::Scene
        } else if head == "help"@ || head == "?"@ {
            UserActionView::Help
        } else if head == "quit"@ || head == "q"@ {
            UserActionView::Quit
        } else {
            UserActionView::Unknown(raw)
        }
    }
}

/// The input line could not be tokenized: an unbalanced quote.
#[derive(Debug)]
pub struct TokenizeError;

impl UserAction {
    /// Classify already-split words against the command table.  `raw` is the
    /// whole trimmed line, carried into an unknown command.
    pub fn from_words(words: &Vec<String>, raw: &str) -> (r: UserAction)
        ensures
            r@ == action_from_words(views_of(words@), raw@),
    {
        if words.len() == 0 {
            return UserAction::Empty;
        }
        let head = words[0].as_str();
        if str_eq(head, "select") || str_eq(head, "s") {
            if words.len() >= 2 {
                UserAction::Select(words[1].clone())
            } else {
                UserAction::Select(String::new())
            }
        } else if str_eq(head, "next") || str_eq(head, "n") {
            UserAction::Next
        } else if str_eq(head, "player") || str_eq(head, "p") {
            UserAction::Player
        } else if str_eq(head, "scene") {
            UserAction::Scene
        } else if str_eq(head, "help") || str_eq(head, "?") {
            UserAction::Help
        } else if str_eq(head, "quit") || str_eq(head, "q") {
            UserAction::Quit
        } else {
            UserAction::Unknown(raw.to_owned())
        }
    }

    /// Parse one input line: trim it, split it into shell-style words, and
    /// classify the words.  A line that cannot be tokenized is a distinct
    /// error, never swallowed.
    pub fn parse(val: &str) -> (r: Result<UserAction, TokenizeError>)
        ensures
            trim_spec(val@).len() == 0 ==> (r matches Ok(a) && a@ == UserActionView::Empty),
            trim_spec(val@).len() != 0 ==> (match shlex_words(trim_spec(val@)) {
                Some(words) => r matches Ok(a) && a@ == action_from_words(words, trim_spec(val@)),
                None => r is Err,
            }),
    {
        let t = trim(val);
        if t.unicode_len() == 0 {
            return Ok(UserAction::Empty);
        }
        match split_words(t) {
            Some(words) => Ok(UserAction::from_words(&words, t)),
            None => Err(TokenizeError),
        }
    }
}

} // verus!
