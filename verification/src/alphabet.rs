//! The catalog of alphabets: which symbols each one holds and what it is called.

use vstd::prelude::*;
use crate::text::{chars, same_text, singles, split_words, words_of};
use crate::words::{words_distinct, WORDS};

verus! {

/// A named, fixed set of symbols from which a passphrase is drawn.
#[derive(Clone, Copy, Debug, PartialEq, Eq, Structural)]
pub enum Alphabet {
    Alphanumeric,
    Digits,
    Letters,
    Lowercase,
    Uppercase,
    Fast,
    Hex,
    HexLowercase,
    HexUppercase,
    Left,
    Octal,
    Graphical,
    Punctuation,
    Right,
    Words,
}

/// Every alphabet, in the order of declaration.
pub const ALPHABETS: [Alphabet; 15] = [
    Alphabet::Alphanumeric,
    Alphabet::Digits,
    Alphabet::Letters,
    Alphabet::Lowercase,
    Alphabet::Uppercase,
    Alphabet::Fast,
    Alphabet::Hex,
    Alphabet::HexLowercase,
    Alphabet::HexUppercase,
    Alphabet::Left,
    Alphabet::Octal,
    Alphabet::Graphical,
    Alphabet::Punctuation,
    Alphabet::Right,
    Alphabet::Words,
];

/// The decimal digits.
pub const DIGITS: &'static str = "0123456789";

/// The lower-case letters.
pub const LOWERCASE: &'static str = "abcdefghijklmnopqrstuvwxyz";

/// The upper-case letters.
pub const UPPERCASE: &'static str = "ABCDEFGHIJKLMNOPQRSTUVWXYZ";

/// The punctuation marks of a keyboard.
pub const PUNCTUATION: &'static str = "~`!@#$%^&*()-_=+[{]}\\|;:'\",<.>/?";

impl Alphabet {
    /// The symbols of an alphabet, in order. All alphabets but `Words` hold
    /// symbols of one character; where an alphabet is made of several
    /// texts, upper case comes before lower case.
    pub open spec fn symbol_table(self) -> Seq<Seq<char>> {
        match self {
            Alphabet::Digits => singles(DIGITS@),
            Alphabet::Letters => singles(UPPERCASE@ + LOWERCASE@),
            Alphabet::Lowercase => singles(LOWERCASE@),
            Alphabet::Uppercase => singles(UPPERCASE@),
            Alphabet::Fast => singles("asdfjkl;"@),
            Alphabet::Hex => singles("0123456789abcdefABCDEF"@),
            Alphabet::HexLowercase => singles("0123456789abcdef"@),
            Alphabet::HexUppercase => singles("0123456789ABCDEF"@),
            Alphabet::Left => singles("qwertasdfgzxcvb"@),
            Alphabet::Octal => singles("01234567"@),
            Alphabet::Right => singles("yuiophjkl;nm,./"@),
            Alphabet::Punctuation => singles(PUNCTUATION@),
            Alphabet::Graphical => singles(DIGITS@ + UPPERCASE@ + LOWERCASE@ + PUNCTUATION@),
            Alphabet::Alphanumeric => singles(DIGITS@ + UPPERCASE@ + LOWERCASE@),
            Alphabet::Words => words_of(WORDS@),
        }
    }

    /// The identifier of an alphabet, as a sequence of characters.
    pub open spec fn name_text(self) -> Seq<char> {
        match self {
            Alphabet::Alphanumeric => "alphanumeric"@,
            Alphabet::Digits => "digits"@,
            Alphabet::Fast => "fast"@,
            Alphabet::Graphical => "graphical"@,
            Alphabet::Hex => "hex"@,
            Alphabet::HexLowercase => "hex-lowercase"@,
            Alphabet::HexUppercase => "hex-uppercase"@,
            Alphabet::Left => "left"@,
            Alphabet::Letters => "letters"@,
            Alphabet::Lowercase => "lowercase"@,
            Alphabet::Octal => "octal"@,
            Alphabet::Punctuation => "punctuation"@,
            Alphabet::Right => "right"@,
            Alphabet::Uppercase => "uppercase"@,
            Alphabet::Words => "words"@,
        }
    }

    /// The alphabet that goes by `text`, if there is one.
    pub open spec fn named(text: Seq<char>) -> Option<Alphabet> {
        if exists|a: Alphabet| #[trigger] a.name_text() == text {
            Some(choose|a: Alphabet| #[trigger] a.name_text() == text)
        } else {
            None
        }
    }

    /// The symbols of this alphabet, in order: at least two, and none twice.
    pub fn symbols(self) -> (list: Vec<String>)
        ensures
            list.deep_view() == self.symbol_table(),
            list@.len() == self.symbol_table().len(),
            list@.len() >= 2,
            list.deep_view().no_duplicates(),
    {
        proof {
            Alphabet::at_least_two_symbols(self);
            Alphabet::no_symbol_twice(self);
        }
        match self {
            Alphabet::Digits => chars(DIGITS),
            Alphabet::Lowercase => chars(LOWERCASE),
            Alphabet::Uppercase => chars(UPPERCASE),
            Alphabet::Fast => chars("asdfjkl;"),
            Alphabet::Hex => chars("0123456789abcdefABCDEF"),
            Alphabet::HexLowercase => chars("0123456789abcdef"),
            Alphabet::HexUppercase => chars("0123456789ABCDEF"),
            Alphabet::Left => chars("qwertasdfgzxcvb"),
            Alphabet::Octal => chars("01234567"),
            Alphabet::Right => chars("yuiophjkl;nm,./"),
            Alphabet::Punctuation => chars(PUNCTUATION),
            Alphabet::Graphical => {
                let mut list = chars(DIGITS);
                let mut upper = chars(UPPERCASE);
                let mut lower = chars(LOWERCASE);
                let mut marks = chars(PUNCTUATION);
                proof {
                    singles_of_joint(DIGITS@, UPPERCASE@);
                    singles_of_joint(DIGITS@ + UPPERCASE@, LOWERCASE@);
                    singles_of_joint(DIGITS@ + UPPERCASE@ + LOWERCASE@, PUNCTUATION@);
                }
                let ghost digits = list.deep_view();
                let ghost uppers = upper.deep_view();
                let ghost lowers = lower.deep_view();
                let ghost puncts = marks.deep_view();
                list.append(&mut upper);
                assert(list.deep_view() =~= digits + uppers);
                list.append(&mut lower);
                assert(list.deep_view() =~= digits + uppers + lowers);
                list.append(&mut marks);
                assert(list.deep_view() =~= digits + uppers + lowers + puncts);
                list
            },
            Alphabet::Letters => {
                let mut list = chars(UPPERCASE);
                let mut lower = chars(LOWERCASE);
                proof {
                    singles_of_joint(UPPERCASE@, LOWERCASE@);
                }
                let ghost uppers = list.deep_view();
                let ghost lowers = lower.deep_view();
                list.append(&mut lower);
                assert(list.deep_view() =~= uppers + lowers);
                list
            },
            Alphabet::Alphanumeric => {
                let mut list = chars(DIGITS);
                let mut upper = chars(UPPERCASE);
                let mut lower = chars(LOWERCASE);
                proof {
                    singles_of_joint(DIGITS@, UPPERCASE@);
                    singles_of_joint(DIGITS@ + UPPERCASE@, LOWERCASE@);
                }
                let ghost digits = list.deep_view();
                let ghost uppers = upper.deep_view();
                let ghost lowers = lower.deep_view();
                list.append(&mut upper);
                assert(list.deep_view() =~= digits + uppers);
                list.append(&mut lower);
                assert(list.deep_view() =~= digits + uppers + lowers);
                list
            },
            Alphabet::Words => split_words(WORDS),
        }
    }

    /// The identifier of this alphabet.
    pub fn name(self) -> (text: &'static str)
        ensures
            text@ == self.name_text(),
    {
        match self {
            Alphabet::Alphanumeric => "alphanumeric",
            Alphabet::Digits => "digits",
            Alphabet::Fast => "fast",
            Alphabet::Graphical => "graphical",
            Alphabet::Hex => "hex",
            Alphabet::HexLowercase => "hex-lowercase",
            Alphabet::HexUppercase => "hex-uppercase",
            Alphabet::Left => "left",
            Alphabet::Letters => "letters",
            Alphabet::Lowercase => "lowercase",
            Alphabet::Octal => "octal",
            Alphabet::Punctuation => "punctuation",
            Alphabet::Right => "right",
            Alphabet::Uppercase => "uppercase",
            Alphabet::Words => "words",
        }
    }

    /// Looks an alphabet up by its identifier. An identifier that no
    /// alphabet carries gives `None`.
    pub fn from_name(name: &str) -> (found: Option<Alphabet>)
        ensures
            found == Alphabet::named(name@),
    {
        let found = if same_text(name, "alphanumeric") {
            Some(Alphabet::Alphanumeric)
        } else if same_text(name, "digits") {
            Some(Alphabet::Digits)
        } else if same_text(name, "fast") {
            Some(Alphabet::Fast)
        } else if same_text(name, "graphical") {
            Some(Alphabet::Graphical)
        } else if same_text(name, "hex") {
            Some(Alphabet::Hex)
        } else if same_text(name, "hex-lowercase") {
            Some(Alphabet::HexLowercase)
        } else if same_text(name, "hex-uppercase") {
            Some(Alphabet::HexUppercase)
        } else if same_text(name, "left") {
            Some(Alphabet::Left)
        } else if same_text(name, "letters") {
            Some(Alphabet::Letters)
        } else if same_text(name, "lowercase") {
            Some(Alphabet::Lowercase)
        } else if same_text(name, "octal") {
            Some(Alphabet::Octal)
        } else if same_text(name, "punctuation") {
            Some(Alphabet::Punctuation)
        } else if same_text(name, "right") {
            Some(Alphabet::Right)
        } else if same_text(name, "uppercase") {
            Some(Alphabet::Uppercase)
        } else if same_text(name, "words") {
            Some(Alphabet::Words)
        } else {
            None
        };
        proof {
            match found {
                Some(a) => {
                    assert(a.name_text() == name@);
                    assert forall|b: Alphabet| #[trigger] b.name_text() == name@ implies b == a by {
                        if b != a {
                            Alphabet::names_differ(a, b);
                        }
                    }
                },
                None => {
                    assert forall|b: Alphabet| #[trigger] b.name_text() != name@ by {}
                },
            }
        }
        found
    }

    /// No two alphabets share an identifier.
    pub proof fn names_differ(a: Alphabet, b: Alphabet)
        requires
            a != b,
        ensures
            a.name_text() != b.name_text(),
    {
        reveal_strlit("alphanumeric");
        reveal_strlit("digits");
        reveal_strlit("fast");
        reveal_strlit("graphical");
        reveal_strlit("hex");
        reveal_strlit("hex-lowercase");
        reveal_strlit("hex-uppercase");
        reveal_strlit("left");
        reveal_strlit("letters");
        reveal_strlit("lowercase");
        reveal_strlit("octal");
        reveal_strlit("punctuation");
        reveal_strlit("right");
        reveal_strlit("uppercase");
        reveal_strlit("words");
        if a.name_text().len() == b.name_text().len() {
            let k: int = if a.name_text().len() == 13 { 4 } else { 0 };
            assert(a.name_text()[k] != b.name_text()[k]);
        }
    }

    /// Looking up the identifier of an alphabet gives that alphabet back.
    pub proof fn name_round_trip(a: Alphabet)
        ensures
            Alphabet::named(a.name_text()) == Some(a),
    {
        let found = Alphabet::named(a.name_text());
        assert(found is Some);
        if found->0 != a {
            Alphabet::names_differ(found->0, a);
        }
    }

    /// The catalog lists every alphabet, and none twice.
    pub proof fn catalog_complete(a: Alphabet)
        ensures
            ALPHABETS@.contains(a),
            ALPHABETS@.no_duplicates(),
    {
        let at: int = match a {
            Alphabet::Alphanumeric => 0,
            Alphabet::Digits => 1,
            Alphabet::Letters => 2,
            Alphabet::Lowercase => 3,
            Alphabet::Uppercase => 4,
            Alphabet::Fast => 5,
            Alphabet::Hex => 6,
            Alphabet::HexLowercase => 7,
            Alphabet::HexUppercase => 8,
            Alphabet::Left => 9,
            Alphabet::Octal => 10,
            Alphabet::Graphical => 11,
            Alphabet::Punctuation => 12,
            Alphabet::Right => 13,
            Alphabet::Words => 14,
        };
        assert(ALPHABETS@[at] == a);
    }

    /// Every alphabet holds at least two symbols.
    pub proof fn at_least_two_symbols(a: Alphabet)
        ensures
            a.symbol_table().len() >= 2,
    {
        match a {
            Alphabet::Words => {
                words_distinct();
            },
            _ => {
                plain_texts();
                reveal_strlit("asdfjkl;");
                reveal_strlit("0123456789abcdefABCDEF");
                reveal_strlit("0123456789abcdef");
                reveal_strlit("0123456789ABCDEF");
                reveal_strlit("qwertasdfgzxcvb");
                reveal_strlit("01234567");
                reveal_strlit("yuiophjkl;nm,./");
            },
        }
    }

    /// No alphabet holds a symbol twice.
    pub proof fn no_symbol_twice(a: Alphabet)
        ensures
            a.symbol_table().no_duplicates(),
    {
        match a {
            Alphabet::Words => {
                words_distinct();
            },
            Alphabet::Digits => {
                plain_texts();
                singles_distinct(DIGITS@);
            },
            Alphabet::Letters => {
                plain_texts();
                joint_distinct(UPPERCASE@, LOWERCASE@);
                singles_distinct(UPPERCASE@ + LOWERCASE@);
            },
            Alphabet::Lowercase => {
                plain_texts();
                singles_distinct(LOWERCASE@);
            },
            Alphabet::Uppercase => {
                plain_texts();
                singles_distinct(UPPERCASE@);
            },
            Alphabet::Punctuation => {
                plain_texts();
                singles_distinct(PUNCTUATION@);
            },
            Alphabet::Fast => {
                reveal_strlit("asdfjkl;");
                singles_distinct("asdfjkl;"@);
            },
            Alphabet::Hex => {
                reveal_strlit("0123456789abcdefABCDEF");
                singles_distinct("0123456789abcdefABCDEF"@);
            },
            Alphabet::HexLowercase => {
                reveal_strlit("0123456789abcdef");
                singles_distinct("0123456789abcdef"@);
            },
            Alphabet::HexUppercase => {
                reveal_strlit("0123456789ABCDEF");
                singles_distinct("0123456789ABCDEF"@);
            },
            Alphabet::Left => {
                reveal_strlit("qwertasdfgzxcvb");
                singles_distinct("qwertasdfgzxcvb"@);
            },
            Alphabet::Octal => {
                reveal_strlit("01234567");
                singles_distinct("01234567"@);
            },
            Alphabet::Right => {
                reveal_strlit("yuiophjkl;nm,./");
                singles_distinct("yuiophjkl;nm,./"@);
            },
            Alphabet::Graphical => {
                plain_texts();
                joint_distinct(DIGITS@, UPPERCASE@);
                joint_distinct(DIGITS@ + UPPERCASE@, LOWERCASE@);
                joint_distinct(DIGITS@ + UPPERCASE@ + LOWERCASE@, PUNCTUATION@);
                singles_distinct(DIGITS@ + UPPERCASE@ + LOWERCASE@ + PUNCTUATION@);
            },
            Alphabet::Alphanumeric => {
                plain_texts();
                joint_distinct(DIGITS@, UPPERCASE@);
                joint_distinct(DIGITS@ + UPPERCASE@, LOWERCASE@);
                singles_distinct(DIGITS@ + UPPERCASE@ + LOWERCASE@);
            },
        }
    }

}

/// Whether `c` is a decimal digit or an unaccented Latin letter.
pub open spec fn is_alphanumeric(c: char) -> bool {
    '0' <= c <= '9' || 'A' <= c <= 'Z' || 'a' <= c <= 'z'
}

/// What the four basic texts hold: no character twice, digits, upper-case
/// and lower-case letters each in their own range, and no digit or letter
/// among the punctuation marks.
pub proof fn plain_texts()
    ensures
        DIGITS@.len() == 10,
        UPPERCASE@.len() == 26,
        LOWERCASE@.len() == 26,
        PUNCTUATION@.len() == 32,
        DIGITS@.no_duplicates(),
        UPPERCASE@.no_duplicates(),
        LOWERCASE@.no_duplicates(),
        PUNCTUATION@.no_duplicates(),
        forall|i: int| 0 <= i < 10 ==> '0' <= #[trigger] DIGITS@[i] <= '9',
        forall|i: int| 0 <= i < 26 ==> 'A' <= #[trigger] UPPERCASE@[i] <= 'Z',
        forall|i: int| 0 <= i < 26 ==> 'a' <= #[trigger] LOWERCASE@[i] <= 'z',
        forall|i: int| 0 <= i < 32 ==> !is_alphanumeric(#[trigger] PUNCTUATION@[i]),
{
    reveal_strlit("0123456789");
    reveal_strlit("abcdefghijklmnopqrstuvwxyz");
    reveal_strlit("ABCDEFGHIJKLMNOPQRSTUVWXYZ");
    reveal_strlit("~`!@#$%^&*()-_=+[{]}\\|;:'\",<.>/?");
}

/// Two texts that share no character, neither with a repeated one, make a
/// text without a repeated character when written one after the other.
pub proof fn joint_distinct(first: Seq<char>, second: Seq<char>)
    requires
        first.no_duplicates(),
        second.no_duplicates(),
        forall|i: int, j: int|
            0 <= i < first.len() && 0 <= j < second.len() ==> first[i] != second[j],
    ensures
        (first + second).no_duplicates(),
{
}

/// Cutting two texts written one after the other gives the symbols of the
/// first followed by those of the second.
pub proof fn singles_of_joint(first: Seq<char>, second: Seq<char>)
    ensures
        singles(first + second) == singles(first) + singles(second),
{
    assert(singles(first + second) =~= singles(first) + singles(second));
}

/// Symbols cut from a text without a repeated character are all different.
pub proof fn singles_distinct(text: Seq<char>)
    requires
        text.no_duplicates(),
    ensures
        singles(text).no_duplicates(),
{
    assert forall|i: int, j: int|
        0 <= i < singles(text).len() && 0 <= j < singles(text).len() && i != j implies singles(
        text,
    )[i] != singles(text)[j] by {
        assert(singles(text)[i][0] == text[i]);
        assert(singles(text)[j][0] == text[j]);
    }
}

} // verus!
