use passgen::alphabet::{Alphabet, ALPHABETS};
use passgen::entropy::symbol_count;
use passgen::generator::{draw, generate, generate_from, Randomness};

fn owned(parts: &[&str]) -> Vec<String> {
    parts.iter().map(|part| part.to_string()).collect()
}

#[test]
fn ten_bits_of_digits_are_four_digits() {
    let mut source = Randomness::predictable();
    let text = generate(Alphabet::Digits, 10, "", &mut source);
    assert_eq!(text.len(), 4);
    assert!(text.chars().all(|c| c.is_ascii_digit()));
}

#[test]
fn default_request_in_lower_case_hex() {
    let mut source = Randomness::predictable();
    let text = generate(Alphabet::HexLowercase, 128, "", &mut source);
    assert_eq!(text.len(), 32);
    assert!(text.chars().all(|c| "0123456789abcdef".contains(c)));
}

#[test]
fn predictable_source_repeats() {
    for alphabet in ALPHABETS.iter() {
        let mut first = Randomness::predictable();
        let mut second = Randomness::predictable();
        let one = generate(*alphabet, 128, "-", &mut first);
        let other = generate(*alphabet, 128, "-", &mut second);
        assert_eq!(one, other);
        assert!(!one.is_empty());
    }
}

#[test]
fn predictable_source_goes_on_where_it_stopped() {
    let mut source = Randomness::predictable();
    let one = generate(Alphabet::Alphanumeric, 128, "", &mut source);
    let other = generate(Alphabet::Alphanumeric, 128, "", &mut source);
    assert_ne!(one, other);
    let mut again = Randomness::predictable();
    let both = generate(Alphabet::Alphanumeric, 256, "", &mut again);
    assert_eq!(both.len(), 43);
    assert_eq!(&both[..22], one);
}

#[test]
fn secure_source_varies() {
    let mut first = Randomness::secure().expect("the system has a generator");
    let mut second = Randomness::secure().expect("the system has a generator");
    assert!(matches!(first, Randomness::Secure(_)));
    let one = generate(Alphabet::Alphanumeric, 128, "", &mut first);
    let other = generate(Alphabet::Alphanumeric, 128, "", &mut second);
    let third = generate(Alphabet::Alphanumeric, 128, "", &mut second);
    assert_eq!(one.len(), 22);
    assert_eq!(other.len(), 22);
    assert_ne!(one, other);
    assert_ne!(other, third);
}

#[test]
fn sources_are_of_the_kind_asked_for() {
    assert!(matches!(Randomness::predictable(), Randomness::Predictable(_)));
    if let Some(source) = Randomness::secure() {
        assert!(matches!(source, Randomness::Secure(_)));
    }
}

#[test]
fn passphrase_holds_the_least_count_of_symbols() {
    for alphabet in ALPHABETS.iter() {
        let symbols = alphabet.symbols();
        for bits in [1u64, 10, 64, 128, 200] {
            let mut source = Randomness::predictable();
            let text = generate(*alphabet, bits, " ", &mut source);
            let count = symbol_count(bits, symbols.len()).unwrap();
            if *alphabet == Alphabet::Words {
                let parts = text.split(' ').map(str::to_string).collect::<Vec<_>>();
                assert_eq!(parts.len() as u64, count);
                assert!(parts.iter().all(|part| symbols.contains(part)));
            } else {
                let all = text.chars().collect::<Vec<_>>();
                assert_eq!(all.len() as u64, 2 * count - 1);
                for (at, c) in all.iter().enumerate() {
                    if at % 2 == 1 {
                        assert_eq!(*c, ' ');
                    } else {
                        assert!(symbols.contains(&c.to_string()));
                    }
                }
            }
        }
    }
}

#[test]
fn separator_stands_between_symbols_only() {
    let mut source = Randomness::predictable();
    let text = generate(Alphabet::Words, 128, "--", &mut source);
    let words = Alphabet::Words.symbols();
    let parts = text.split("--").collect::<Vec<_>>();
    assert_eq!(parts.len(), 15);
    assert_eq!(text.len(), 15 * 4 + 14 * 2);
    for part in parts.iter() {
        assert!(words.iter().any(|word| word == part));
    }
}

#[test]
fn no_bits_give_an_empty_passphrase() {
    let mut source = Randomness::predictable();
    assert_eq!(generate(Alphabet::Digits, 0, "-", &mut source), "");
}

#[test]
fn draw_takes_symbols_of_the_list() {
    let symbols = owned(&["red", "green", "blue"]);
    let mut source = Randomness::predictable();
    let drawn = draw(&symbols, 200, &mut source).unwrap();
    assert_eq!(drawn.len(), 200);
    for symbol in symbols.iter() {
        assert!(drawn.contains(symbol));
    }
    for symbol in drawn.iter() {
        assert!(symbols.contains(symbol));
    }
}

#[test]
fn draw_from_the_secure_source_takes_symbols_of_the_list() {
    let symbols = owned(&["red", "green", "blue"]);
    let mut source = Randomness::secure().expect("the system has a generator");
    let drawn = draw(&symbols, 400, &mut source).unwrap();
    assert_eq!(drawn.len(), 400);
    for symbol in symbols.iter() {
        assert!(drawn.contains(symbol));
    }
    for symbol in drawn.iter() {
        assert!(symbols.contains(symbol));
    }
}

#[test]
fn draw_may_repeat_a_symbol() {
    let symbols = owned(&["heads", "tails"]);
    let mut source = Randomness::predictable();
    let drawn = draw(&symbols, 3, &mut source).unwrap();
    assert_eq!(drawn.len(), 3);
    assert!(drawn[0] == drawn[1] || drawn[1] == drawn[2] || drawn[0] == drawn[2]);
}

#[test]
fn draw_of_nothing_and_from_nothing() {
    let mut source = Randomness::predictable();
    assert_eq!(draw(&owned(&["a", "b"]), 0, &mut source), Some(Vec::new()));
    assert_eq!(draw(&owned(&["a"]), 3, &mut source), Some(owned(&["a", "a", "a"])));
    assert_eq!(draw(&Vec::new(), 3, &mut source), None);
    assert_eq!(draw(&Vec::new(), 0, &mut source), None);
}

#[test]
fn pick_gives_a_symbol_of_the_list() {
    let symbols = owned(&["a", "b", "c", "d"]);
    let mut source = Randomness::predictable();
    let mut seen = Vec::new();
    for _ in 0..100 {
        let picked = source.pick(&symbols).unwrap();
        assert!(symbols.contains(picked));
        if !seen.contains(picked) {
            seen.push(picked.clone());
        }
    }
    assert_eq!(seen.len(), 4);
    assert_eq!(source.pick(&Vec::new()), None);
}

#[test]
fn generate_from_turns_down_lists_without_entropy() {
    let mut source = Randomness::predictable();
    assert_eq!(generate_from(&Vec::new(), 128, "", &mut source), None);
    assert_eq!(generate_from(&owned(&["a"]), 128, "", &mut source), None);
    assert_eq!(generate_from(&owned(&["a"]), 0, "", &mut source), None);
    let text = generate_from(&owned(&["a", "b"]), 8, "", &mut source).unwrap();
    assert_eq!(text.len(), 8);
    assert!(text.chars().all(|c| c == 'a' || c == 'b'));
}

#[test]
fn generate_from_writes_whole_symbols() {
    let symbols = owned(&["ab", "cd", "ef", "gh"]);
    let mut source = Randomness::predictable();
    let text = generate_from(&symbols, 20, "/", &mut source).unwrap();
    let parts = text.split('/').map(str::to_string).collect::<Vec<_>>();
    assert_eq!(parts.len(), 10);
    assert!(parts.iter().all(|part| symbols.contains(part)));
}

#[test]
fn from_system_keeps_what_the_system_gave() {
    assert!(Randomness::from_system(None).is_none());
    let generator = rand::OsRng::new().expect("the system has a generator");
    let source = Randomness::from_system(Some(generator));
    assert!(matches!(source, Some(Randomness::Secure(_))));
    let symbols = owned(&["a", "b"]);
    let drawn = draw(&symbols, 64, &mut source.unwrap()).unwrap();
    assert_eq!(drawn.len(), 64);
    assert!(drawn.iter().all(|symbol| symbols.contains(symbol)));
}
