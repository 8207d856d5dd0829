use std::collections::HashSet;

use passgen::alphabet::{Alphabet, ALPHABETS, DIGITS, LOWERCASE, PUNCTUATION, UPPERCASE};

fn texts(list: &[String]) -> Vec<&str> {
    list.iter().map(|symbol| symbol.as_str()).collect()
}

#[test]
fn empty_alphabets() {
    for alphabet in ALPHABETS.iter() {
        assert!(alphabet.symbols().len() > 1);
    }
}

#[test]
fn repeated_symbols() {
    for alphabet in ALPHABETS.iter() {
        let symbols = alphabet.symbols();
        let unique = symbols.iter().collect::<HashSet<_>>().len();
        if symbols.len() != unique {
            panic!("alphabet {:?} contains repeated symbols", alphabet);
        }
    }
}

#[test]
fn alphabets_survive_round_trip() {
    for alphabet in ALPHABETS.iter() {
        assert_eq!(*alphabet, Alphabet::from_name(alphabet.name()).unwrap());
    }
}

#[test]
fn catalog_lists_each_alphabet_once() {
    assert_eq!(ALPHABETS.len(), 15);
    assert_eq!(ALPHABETS[0], Alphabet::Alphanumeric);
    assert_eq!(ALPHABETS[14], Alphabet::Words);
    for (i, a) in ALPHABETS.iter().enumerate() {
        for (j, b) in ALPHABETS.iter().enumerate() {
            assert_eq!(i == j, a == b);
        }
    }
}

#[test]
fn names_are_the_documented_ones() {
    assert_eq!(Alphabet::Alphanumeric.name(), "alphanumeric");
    assert_eq!(Alphabet::Digits.name(), "digits");
    assert_eq!(Alphabet::Letters.name(), "letters");
    assert_eq!(Alphabet::Lowercase.name(), "lowercase");
    assert_eq!(Alphabet::Uppercase.name(), "uppercase");
    assert_eq!(Alphabet::Fast.name(), "fast");
    assert_eq!(Alphabet::Hex.name(), "hex");
    assert_eq!(Alphabet::HexLowercase.name(), "hex-lowercase");
    assert_eq!(Alphabet::HexUppercase.name(), "hex-uppercase");
    assert_eq!(Alphabet::Left.name(), "left");
    assert_eq!(Alphabet::Octal.name(), "octal");
    assert_eq!(Alphabet::Graphical.name(), "graphical");
    assert_eq!(Alphabet::Punctuation.name(), "punctuation");
    assert_eq!(Alphabet::Right.name(), "right");
    assert_eq!(Alphabet::Words.name(), "words");
}

#[test]
fn names_differ_from_each_other() {
    let names = ALPHABETS.iter().map(|a| a.name()).collect::<HashSet<_>>();
    assert_eq!(names.len(), ALPHABETS.len());
}

#[test]
fn lookup_finds_each_name() {
    assert_eq!(Alphabet::from_name("hex"), Some(Alphabet::Hex));
    assert_eq!(Alphabet::from_name("hex-lowercase"), Some(Alphabet::HexLowercase));
    assert_eq!(Alphabet::from_name("hex-uppercase"), Some(Alphabet::HexUppercase));
    assert_eq!(Alphabet::from_name("words"), Some(Alphabet::Words));
    assert_eq!(Alphabet::from_name("alphanumeric"), Some(Alphabet::Alphanumeric));
}

#[test]
fn lookup_turns_down_unknown_names() {
    assert_eq!(Alphabet::from_name("foo"), None);
    assert_eq!(Alphabet::from_name(""), None);
    assert_eq!(Alphabet::from_name("Hex"), None);
    assert_eq!(Alphabet::from_name("hex "), None);
    assert_eq!(Alphabet::from_name("hex-"), None);
    assert_eq!(Alphabet::from_name("he"), None);
    assert_eq!(Alphabet::from_name("wörds"), None);
    assert_eq!(Alphabet::from_name("hex-lowercasf"), None);
}

#[test]
fn basic_texts() {
    assert_eq!(DIGITS, "0123456789");
    assert_eq!(LOWERCASE, "abcdefghijklmnopqrstuvwxyz");
    assert_eq!(UPPERCASE, "ABCDEFGHIJKLMNOPQRSTUVWXYZ");
    assert_eq!(PUNCTUATION, "~`!@#$%^&*()-_=+[{]}\\|;:'\",<.>/?");
    assert_eq!(PUNCTUATION.chars().count(), 32);
}

#[test]
fn symbols_of_the_small_alphabets() {
    assert_eq!(
        texts(&Alphabet::Digits.symbols()),
        vec!["0", "1", "2", "3", "4", "5", "6", "7", "8", "9"]
    );
    assert_eq!(texts(&Alphabet::Octal.symbols()), vec!["0", "1", "2", "3", "4", "5", "6", "7"]);
    assert_eq!(texts(&Alphabet::Fast.symbols()), vec!["a", "s", "d", "f", "j", "k", "l", ";"]);
    assert_eq!(Alphabet::Left.symbols().concat(), "qwertasdfgzxcvb");
    assert_eq!(Alphabet::Right.symbols().concat(), "yuiophjkl;nm,./");
    assert_eq!(Alphabet::Hex.symbols().concat(), "0123456789abcdefABCDEF");
    assert_eq!(Alphabet::HexLowercase.symbols().concat(), "0123456789abcdef");
    assert_eq!(Alphabet::HexUppercase.symbols().concat(), "0123456789ABCDEF");
    assert_eq!(Alphabet::Lowercase.symbols().concat(), LOWERCASE);
    assert_eq!(Alphabet::Uppercase.symbols().concat(), UPPERCASE);
    assert_eq!(Alphabet::Punctuation.symbols().concat(), PUNCTUATION);
}

#[test]
fn letters_are_the_upper_and_lower_case_letters() {
    let letters = Alphabet::Letters.symbols();
    assert_eq!(letters.len(), 52);
    assert_eq!(letters.concat(), format!("{}{}", UPPERCASE, LOWERCASE));
    for symbol in letters.iter() {
        assert_eq!(symbol.chars().count(), 1);
        assert!(symbol.chars().all(|c| c.is_ascii_alphabetic()));
    }
    let mut cases = Alphabet::Uppercase.symbols();
    cases.extend(Alphabet::Lowercase.symbols());
    assert_eq!(letters, cases);
    let digits = Alphabet::Digits.symbols();
    assert!(letters.iter().all(|symbol| !digits.contains(symbol)));
}

#[test]
fn symbols_of_the_joint_alphabets() {
    let alphanumeric = Alphabet::Alphanumeric.symbols();
    assert_eq!(alphanumeric.len(), 62);
    assert_eq!(alphanumeric.concat(), format!("{}{}{}", DIGITS, UPPERCASE, LOWERCASE));
    let graphical = Alphabet::Graphical.symbols();
    assert_eq!(graphical.len(), 94);
    assert_eq!(
        graphical.concat(),
        format!("{}{}{}{}", DIGITS, UPPERCASE, LOWERCASE, PUNCTUATION)
    );
    for symbol in graphical.iter() {
        assert_eq!(symbol.chars().count(), 1);
    }
}

#[test]
fn sizes_of_all_alphabets() {
    let sizes = ALPHABETS.iter().map(|a| a.symbols().len()).collect::<Vec<_>>();
    assert_eq!(sizes, vec![62, 10, 52, 26, 26, 8, 22, 16, 16, 15, 8, 94, 32, 15, 512]);
}
