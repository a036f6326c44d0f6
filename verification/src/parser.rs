use vstd::prelude::*;

use crate::scenario::GameOption;
use crate::text::{
    has_prefix, lower_spec, split_spec, split_str, str_eq, to_lower, trim, trim_spec,
};

verus! {

/// One line of the legacy scenario text format, tokenized.
#[derive(Debug, Clone)]
pub enum Token {
    Name(String),
    Desc(String),
    Option(String),
    Quit,
    Delim,
    Empty,
    Invalid(String),
    Unknown(String),
}

/// The mathematical value of a `Token`, with strings as character sequences.
pub enum TokenView {
    Name(Seq<char>),
    Desc(Seq<char>),
    Option(Seq<char>),
    Quit,
    Delim,
    Empty,
    Invalid(Seq<char>),
    Unknown(Seq<char>),
}

impl PartialEq for Token {
    fn eq(&self, other: &Token) -> (r: bool) {
        match (self, other) {
            (Token::Name(a), Token::Name(b)) => str_eq(a.as_str(), b.as_str()),
            (Token::Desc(a), Token::Desc(b)) => str_eq(a.as_str(), b.as_str()),
            (Token::Option(a), Token::Option(b)) => str_eq(a.as_str(), b.as_str()),
            (Token::Quit, Token::Quit) => true,
            (Token::Delim, Token::Delim) => true,
            (Token::Empty, Token::Empty) => true,
            (Token::Invalid(a), Token::Invalid(b)) => str_eq(a.as_str(), b.as_str()),
            (Token::Unknown(a), Token::Unknown(b)) => str_eq(a.as_str(), b.as_str()),
            _ => false,
        }
    }
}

impl vstd::std_specs::cmp::PartialEqSpecImpl for Token {
    open spec fn obeys_eq_spec() -> bool {
        true
    }

    open spec fn eq_spec(&self, other: &Token) -> bool {
        self@ == other@
    }
}

impl View for Token {
    type V = TokenView;

    open spec fn view(&self) -> TokenView {
        match self {
            Token::Name(s) => TokenView::Name(s@),
            Token::Desc(s) => TokenView::Desc(s@),
            Token::Option(s) => TokenView::Option(s@),
            Token::Quit => TokenView::Quit,
            Token::Delim => TokenView::Delim,
            Token::Empty => TokenView::Empty,
            Token::Invalid(s) => TokenView::Invalid(s@),
            Token::Unknown(s) => TokenView::Unknown(s@),
        }
    }
}

/// The tokenization of one line.  The line is trimmed; a blank line or a
/// `#` comment is empty; `---` (or longer) opens a delimiter; a `quit`
/// prefix is the quit marker; otherwise the line must hold exactly one `:`,
/// its left side naming the field (case-insensitively) and its right side
/// the value.  Scene names are lowered; descriptions and option values keep
/// their case.
pub open spec fn tokenize_spec(line: Seq<char>) -> TokenView {
    let t = trim_spec(line);
    if t.len() == 0 || t[0] == '#' {
        TokenView::Empty
    } else if t.len() >= 3 && t.subrange(0, 3) == "---"@ {
        TokenView::Delim
    } else if t.len() >= 4 && t.subrange(0, 4) == "quit"@ {
        TokenView::Quit
    } else {
        let parts = split_spec(t, ':');
        if parts.len() != 2 {
            TokenView::Invalid(t)
        } else {
            let key = lower_spec(trim_spec(parts[0]));
            let value = trim_spec(parts[1]);
            if key == "name"@ {
                TokenView::Name(lower_spec(value))
            } else if key == "desc"@ {
                TokenView::Desc(value)
            } else if key == "option"@ {
                TokenView::Option(value)
            } else {
                TokenView::Unknown(parts[0])
            }
        }
    }
}

/// Tokenize one line of the legacy scenario text format.
pub fn parse_token(line: &str) -> (r: Token)
    ensures
        r@ == tokenize_spec(line@),
    {
    let line = trim(line);
    let n = line.unicode_len();
    if n == 0 || line.get_char(0) == '#' {
        return Token::Empty;
    }
    if has_prefix(line, "---") {
        proof {
            reveal_strlit("---");
        }
        return Token::Delim;
    }
    if has_prefix(line, "quit") {
        proof {
            reveal_strlit("quit");
        }
        return Token::Quit;
    }
    proof {
        reveal_strlit("---");
        reveal_strlit("quit");
    }
    let parts = split_str(line, ':');
    if parts.len() != 2 {
        return Token::Invalid(line.to_owned());
    }
    let key = to_lower(trim(parts[0].as_str()));
    let value = trim(parts[1].as_str());
    if str_eq(key.as_str(), "name") {
        Token::Name(to_lower(value))
    } else if str_eq(key.as_str(), "desc") {
        Token::Desc(value.to_owned())
    } else if str_eq(key.as_str(), "option") {
        Token::Option(value.to_owned())
    } else {
        Token::Unknown(parts[0].clone())
    }
}

/// The three pipe-delimited segments of an option value, when there are
/// exactly three: the selector, the display name and the target action.
pub open spec fn option_segments(v: Seq<char>) -> Option<(Seq<char>, Seq<char>, Seq<char>)> {
    let parts = split_spec(v, '|');
    if parts.len() == 3 {
        Some((parts[0], parts[1], parts[2]))
    } else {
        None
    }
}

/// Build a `GameOption` from an `option:` value: `id|name|action` with
/// exactly three segments, anything else dropped.
pub fn parse_option_value(val: &str) -> (r: Option<GameOption>)
    ensures
        (match r {
            Some(g) => option_segments(val@) == Some((g.id@, g.name@, g.action@)),
            None => option_segments(val@) is None,
        }),
{
    let parts = split_str(val, '|');
    if parts.len() == 3 {
        Some(GameOption::new(parts[0].as_str(), parts[1].as_str(), parts[2].as_str()))
    } else {
        None
    }
}

} // verus!
