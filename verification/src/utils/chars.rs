use crate::text::push_char;
use vstd::prelude::*;
use vstd::std_specs::convert::TryFromSpecImpl;

verus! {

/// A character of the machine's character set, by its code. The codes 0 to
/// 29 stand for the space, the letters `A` to `Z`, and `.`, `!` and `?`.
/// Any other code can be held and shown too, but stands for no character.
#[derive(Copy, Clone, Debug, PartialEq, Eq, Structural, PartialOrd, Ord, Hash)]
pub struct Char(pub u8);

/// A `char` that is not in the machine's character set.
#[derive(Debug)]
pub struct InvalidCharacter {
    pub char: char,
}

impl InvalidCharacter {
    /// The character that was refused.
    pub fn char(&self) -> (c: char)
        ensures
            c == self.char,
    {
        self.char
    }
}

/// The character of the machine's set with the code `code`.
pub open spec fn glyph(code: u8) -> Option<char> {
    if code == 0 {
        Some(' ')
    } else if code <= 26 {
        Some((code + 64) as char)
    } else if code == 27 {
        Some('.')
    } else if code == 28 {
        Some('!')
    } else if code == 29 {
        Some('?')
    } else {
        None
    }
}

/// The code of a character of the machine's set.
pub open spec fn code_of(c: char) -> Option<u8> {
    if c == ' ' {
        Some(0u8)
    } else if 'A' <= c <= 'Z' {
        Some((c as u8 - 64) as u8)
    } else if c == '.' {
        Some(27u8)
    } else if c == '!' {
        Some(28u8)
    } else if c == '?' {
        Some(29u8)
    } else {
        None
    }
}

/// The decimal digits of a number, the first digit first.
pub open spec fn decimal(n: nat) -> Seq<char>
    decreases n,
{
    if n < 10 {
        seq![digit(n)]
    } else {
        decimal(n / 10).push(digit(n % 10))
    }
}

/// The digit that stands for a number below ten.
pub open spec fn digit(n: nat) -> char {
    (n + 48) as char
}

impl Char {
    /// The number of characters in the machine's set.
    pub const COUNT: u8 = 30;

    /// The space, which is what an empty place of the display holds.
    pub fn space() -> (c: Char)
        ensures
            c == Char(0),
    {
        Char(0)
    }

    /// How the character is shown: as itself, or as its code between `<` and
    /// `>` where the code stands for no character.
    pub open spec fn text(self) -> Seq<char> {
        match glyph(self.0) {
            Some(c) => seq![c],
            None => seq!['<'] + decimal(self.0 as nat) + seq!['>'],
        }
    }

    /// The character with the code `value`.
    pub fn new(value: u8) -> (c: Char)
        ensures
            c == Char(value),
    {
        Char(value)
    }

    /// The `char` that the code stands for.
    pub fn to_char(self) -> (c: Option<char>)
        ensures
            c == glyph(self.0),
    {
        let code = self.0;
        if code == 0 {
            Some(' ')
        } else if code <= 26 {
            Some((code + 64) as char)
        } else if code == 27 {
            Some('.')
        } else if code == 28 {
            Some('!')
        } else if code == 29 {
            Some('?')
        } else {
            None
        }
    }

    /// The character's code.
    pub fn as_u8(self) -> (code: u8)
        ensures
            code == self.0,
    {
        self.0
    }

    /// Whether the code stands for a character.
    pub fn is_valid(self) -> (valid: bool)
        ensures
            valid == (self.0 < 30),
            valid == glyph(self.0) is Some,
    {
        self.0 < Char::COUNT
    }

    /// The character of the machine's set that `value` is.
    pub fn from_char(value: char) -> (result: Result<Char, InvalidCharacter>)
        ensures
            match result {
                Ok(c) => code_of(value) == Some(c.0),
                Err(error) => code_of(value) is None && error == (InvalidCharacter { char: value }),
            },
    {
        if value == ' ' {
            Ok(Char(0))
        } else if 'A' <= value && value <= 'Z' {
            Ok(Char((value as u8) - 64))
        } else if value == '.' {
            Ok(Char(27))
        } else if value == '!' {
            Ok(Char(28))
        } else if value == '?' {
            Ok(Char(29))
        } else {
            Err(InvalidCharacter { char: value })
        }
    }
}

/// The code of a character is the code that shows as that character.
pub proof fn lemma_code_of_glyph(code: u8, c: char)
    ensures
        code_of(c) == Some(code) <==> glyph(code) == Some(c),
{
}

/// Adds the decimal digits of `n` to the end of `text`.
pub fn push_decimal(text: &mut String, n: u8)
    ensures
        final(text)@ == old(text)@ + decimal(n as nat),
{
    reveal_with_fuel(decimal, 3);
    if n >= 100 {
        push_char(text, (n / 100 + 48) as char);
    }
    if n >= 10 {
        push_char(text, (n / 10 % 10 + 48) as char);
    }
    push_char(text, (n % 10 + 48) as char);
    proof {
        let d = decimal(n as nat);
        if n >= 100 {
            assert(d == seq![digit(n as nat / 100), digit(n as nat / 10 % 10), digit(n as nat % 10)]);
        } else if n >= 10 {
            assert(d == seq![digit(n as nat / 10), digit(n as nat % 10)]);
        } else {
            assert(d == seq![digit(n as nat)]);
        }
        assert(final(text)@ == old(text)@ + d);
    }
}

impl Char {
    /// Adds the character as it is shown to the end of `text`.
    pub fn push_to(self, text: &mut String)
        ensures
            final(text)@ == old(text)@ + self.text(),
    {
        match self.to_char() {
            Some(c) => {
                push_char(text, c);
                assert(final(text)@ == old(text)@ + seq![c]);
            },
            None => {
                push_char(text, '<');
                push_decimal(text, self.0);
                push_char(text, '>');
                assert(final(text)@ == old(text)@ + (seq!['<'] + decimal(self.0 as nat) + seq!['>']));
            },
        }
    }

    /// The character as it is shown.
    pub fn to_string(&self) -> (text: String)
        ensures
            text@ == self.text(),
    {
        let mut text = String::new();
        self.push_to(&mut text);
        assert(text@ == Seq::<char>::empty() + self.text());
        text
    }
}

impl TryFrom<char> for Char {
    type Error = InvalidCharacter;

    fn try_from(value: char) -> (result: Result<Char, InvalidCharacter>) {
        Char::from_char(value)
    }
}

impl TryFromSpecImpl<char> for Char {
    open spec fn obeys_try_from_spec() -> bool {
        true
    }

    open spec fn try_from_spec(value: char) -> Result<Char, InvalidCharacter> {
        match code_of(value) {
            Some(code) => Ok(Char(code)),
            None => Err(InvalidCharacter { char: value }),
        }
    }
}

} // verus!
