//! The fixed vocabulary of base words.
//!
//! The vocabulary is a closed set of six terms. Their order is fixed, because
//! a term is picked at random by its place in that order: red, orange, yellow,
//! green, blue, violet.

use vstd::prelude::*;
use crate::text::{chars_of, lowercase_of, same_chars};

verus! {

/// One term of the vocabulary.
#[derive(Debug, Clone, Copy, PartialEq, Eq, Structural)]
pub enum Color {
    Red,
    Orange,
    Yellow,
    Green,
    Blue,
    Violet,
}

/// Why a text names no term of the vocabulary.
#[derive(Debug)]
pub enum ColorParseError {
    InvalidColor { given_color: String },
}

/// The terms in their fixed order.
pub open spec fn vocabulary() -> Seq<Color> {
    seq![Color::Red, Color::Orange, Color::Yellow, Color::Green, Color::Blue, Color::Violet]
}

/// The term that is written `text`, if there is one.
pub open spec fn named_color(text: Seq<char>) -> Option<Color> {
    if text == Color::Red.term() {
        Some(Color::Red)
    } else if text == Color::Orange.term() {
        Some(Color::Orange)
    } else if text == Color::Yellow.term() {
        Some(Color::Yellow)
    } else if text == Color::Green.term() {
        Some(Color::Green)
    } else if text == Color::Blue.term() {
        Some(Color::Blue)
    } else if text == Color::Violet.term() {
        Some(Color::Violet)
    } else {
        None
    }
}

/// Every term has between three and six characters.
pub proof fn lemma_term_length(color: Color)
    ensures
        3 <= color.term().len() <= 6,
{
}

impl Color {
    /// How the term is written: lower-case letters only.
    pub open spec fn term(self) -> Seq<char> {
        match self {
            Color::Red => seq!['r', 'e', 'd'],
            Color::Orange => seq!['o', 'r', 'a', 'n', 'g', 'e'],
            Color::Yellow => seq!['y', 'e', 'l', 'l', 'o', 'w'],
            Color::Green => seq!['g', 'r', 'e', 'e', 'n'],
            Color::Blue => seq!['b', 'l', 'u', 'e'],
            Color::Violet => seq!['v', 'i', 'o', 'l', 'e', 't'],
        }
    }

    /// The terms in their fixed order.
    pub fn all() -> (terms: Vec<Color>)
        ensures
            terms@ == vocabulary(),
    {
        let terms = vec![
            Color::Red,
            Color::Orange,
            Color::Yellow,
            Color::Green,
            Color::Blue,
            Color::Violet,
        ];
        terms
    }

    /// The term as a string slice.
    pub fn name(&self) -> (text: &'static str)
        ensures
            text@ == self.term(),
    {
        proof {
            reveal_strlit("red");
            reveal_strlit("orange");
            reveal_strlit("yellow");
            reveal_strlit("green");
            reveal_strlit("blue");
            reveal_strlit("violet");
        }
        let text = match self {
            Color::Red => "red",
            Color::Orange => "orange",
            Color::Yellow => "yellow",
            Color::Green => "green",
            Color::Blue => "blue",
            Color::Violet => "violet",
        };
        text
    }

    /// The term as an owned string.
    pub fn to_string(&self) -> (text: String)
        ensures
            text@ == self.term(),
    {
        self.name().to_owned()
    }

    /// The term that is written exactly `text`, if there is one.
    pub fn from_name(text: &str) -> (found: Option<Color>)
        ensures
            found == named_color(text@),
    {
        let given = chars_of(text);
        let terms = Color::all();
        let mut i: usize = 0;
        while i < terms.len()
            invariant
                terms@ == vocabulary(),
                given@ == text@,
                i <= terms.len(),
                forall|j: int| 0 <= j < i ==> text@ != #[trigger] vocabulary()[j].term(),
            decreases terms.len() - i,
        {
            let term = chars_of(terms[i].name());
            if same_chars(&given, &term) {
                return Some(terms[i]);
            }
            i += 1;
        }
        None
    }

    /// Parses a term by name, whatever the case of its letters.
    ///
    /// The text is first brought to lower case; it names a term exactly when
    /// its lowercase form is how the term is written. Any other text is
    /// rejected, and the error carries the text as it was given.
    pub fn from_str(s: &str) -> (parsed: Result<Color, ColorParseError>)
        ensures
            match parsed {
                Ok(color) => named_color(lowercase_of(s@)) == Some(color),
                Err(ColorParseError::InvalidColor { given_color }) => {
                    &&& named_color(lowercase_of(s@)) is None
                    &&& given_color@ == s@
                },
            },
    {
        let lower = s.to_lowercase();
        match Color::from_name(lower.as_str()) {
            Some(color) => Ok(color),
            None => Err(ColorParseError::InvalidColor { given_color: s.to_owned() }),
        }
    }
}

} // verus!
