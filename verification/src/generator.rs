//! Drawing symbols at random and writing them out as one passphrase.

use vstd::prelude::*;
use rand::Rng;
use crate::alphabet::Alphabet;
use crate::entropy::{is_least_count, least_count_brackets, power, symbol_count};
use crate::text::{join, joined};

verus! {

/// `rand::OsRng`, the generator of the operating system. Nothing is known
/// of what a value of it holds.
#[verifier::external_type_specification]
#[verifier::external_body]
pub struct ExOsRng(rand::OsRng);

/// `rand::ChaChaRng`, a generator that runs the ChaCha cipher. Nothing is
/// known of what a value of it holds.
#[verifier::external_type_specification]
#[verifier::external_body]
pub struct ExChaChaRng(rand::ChaChaRng);

/// Where the random choices come from.
pub enum Randomness {
    /// The generator of the operating system: the source for real
    /// passphrases.
    Secure(rand::OsRng),
    /// A fixed stream that is the same on every run. What it yields is
    /// known to everyone: it serves to make output repeatable in tests and
    /// must not produce a passphrase that is meant to be secret.
    Predictable(rand::ChaChaRng),
}

/// Whether `text` is made of `count` symbols, each one out of `symbols`,
/// with `separator` between each two neighbours.
pub open spec fn is_passphrase(
    text: Seq<char>,
    symbols: Seq<Seq<char>>,
    count: nat,
    separator: Seq<char>,
) -> bool {
    exists|drawn: Seq<Seq<char>>|
        #![auto]
        {
            &&& drawn.len() == count
            &&& forall|i: int| 0 <= i < drawn.len() ==> symbols.contains(#[trigger] drawn[i])
            &&& text == joined(drawn, separator)
        }
}

/// `rand::OsRng::new`: asks the operating system for its generator. Whether
/// one is to be had depends on the system, so nothing is claimed of the
/// result; the error that comes with a refusal is dropped.
#[verifier::external_body]
fn system_source() -> (source: Option<rand::OsRng>) {
    rand::OsRng::new().ok()
}

/// `rand::ChaChaRng::new_unseeded`: a ChaCha generator with the fixed key of
/// zeros. The value is opaque here, so nothing is claimed of it.
#[verifier::external_body]
fn fixed_source() -> (source: rand::ChaChaRng) {
    rand::ChaChaRng::new_unseeded()
}

/// `rand::Rng::choose` on the system's generator: no element where the list
/// is empty, else one of the elements of the list. Which one is left open.
/// The generator stops the program where the system fails to deliver.
#[verifier::external_body]
fn choose_secure<'a>(source: &mut rand::OsRng, symbols: &'a Vec<String>) -> (picked: Option<
    &'a String,
>)
    ensures
        picked is None <==> symbols@.len() == 0,
        picked matches Some(symbol) ==> symbols@.contains(*symbol),
{
    source.choose(symbols)
}

/// `rand::Rng::choose` on the fixed stream: no element where the list is
/// empty, else one of the elements of the list. Which one is left open.
#[verifier::external_body]
fn choose_predictable<'a>(source: &mut rand::ChaChaRng, symbols: &'a Vec<String>) -> (picked:
    Option<&'a String>)
    ensures
        picked is None <==> symbols@.len() == 0,
        picked matches Some(symbol) ==> symbols@.contains(*symbol),
{
    source.choose(symbols)
}

impl Randomness {
    /// The secure source, or `None` where the operating system has none to
    /// give.
    pub fn secure() -> (source: Option<Randomness>)
        ensures
            source matches Some(opened) ==> opened is Secure,
    {
        // Whether the system has a generator to give is for the system to
        // say; what becomes of its answer is for `from_system`.
        let answer = system_source();
        Randomness::from_system(answer)
    }

    /// The fixed stream, from its start.
    pub fn predictable() -> (source: Randomness)
        ensures
            source is Predictable,
    {
        Randomness::Predictable(fixed_source())
    }

    /// Picks one of `symbols`, or nothing where there is none. The source
    /// stays of the kind it was.
    pub fn pick<'a>(&mut self, symbols: &'a Vec<String>) -> (picked: Option<&'a String>)
        ensures
            picked is None <==> symbols@.len() == 0,
            picked matches Some(symbol) ==> symbols@.contains(*symbol),
            (*final(self) is Secure) == (*old(self) is Secure),
    {
        match self {
            Randomness::Secure(source) => choose_secure(source, symbols),
            Randomness::Predictable(source) => choose_predictable(source, symbols),
        }
    }

    /// Makes a source of what the operating system gave when it was asked
    /// for its generator: the secure source that holds this generator, or
    /// nothing where the system gave none.
    pub fn from_system(answer: Option<rand::OsRng>) -> (source: Option<Randomness>)
        ensures
            source == match answer {
                Some(generator) => Some(Randomness::Secure(generator)),
                None => None,
            },
    {
        match answer {
            Some(generator) => Some(Randomness::Secure(generator)),
            None => None,
        }
    }
}

/// Draws `count` symbols out of `symbols`, one after the other and each
/// from the whole list, so that a symbol may come more than once. From an
/// empty list nothing can be drawn. The source stays of the kind it was.
pub fn draw(symbols: &Vec<String>, count: u64, source: &mut Randomness) -> (drawn: Option<
    Vec<String>,
>)
    ensures
        drawn is None <==> symbols@.len() == 0,
        drawn matches Some(list) ==> {
            &&& list@.len() == count
            &&& forall|i: int|
                0 <= i < list@.len() ==> symbols.deep_view().contains(#[trigger] list.deep_view()[i])
        },
        (*final(source) is Secure) == (*old(source) is Secure),
{
    if symbols.len() == 0 {
        return None;
    }
    let mut list: Vec<String> = Vec::new();
    let mut i: u64 = 0;
    while i < count
        invariant
            i <= count,
            symbols@.len() > 0,
            list@.len() == i,
            forall|j: int|
                0 <= j < list@.len() ==> symbols.deep_view().contains(#[trigger] list.deep_view()[j]),
            (*source is Secure) == (*old(source) is Secure),
        decreases count - i,
    {
        match source.pick(symbols) {
            Some(symbol) => {
                let ghost before = list.deep_view();
                proof {
                    let at: int = choose|at: int| 0 <= at < symbols@.len() && symbols@[at] == *symbol;
                    assert(symbols.deep_view()[at] == symbol@);
                }
                list.push(symbol.clone());
                assert(list.deep_view() =~= before.push(symbol@));
            },
            None => {
                assert(false);
            },
        }
        i += 1;
    }
    Some(list)
}

/// Writes a passphrase of at least `bits` bits of entropy out of
/// `symbols`: the least number of symbols that carries as much, each drawn
/// from `source`, with `separator` between them. A list of fewer than two
/// symbols carries no entropy and is turned down. The source stays of the
/// kind it was.
pub fn generate_from(
    symbols: &Vec<String>,
    bits: u64,
    separator: &str,
    source: &mut Randomness,
) -> (passphrase: Option<String>)
    ensures
        passphrase is None <==> symbols@.len() < 2,
        passphrase matches Some(text) ==> exists|count: nat|
            #![auto]
            is_least_count(count, symbols@.len(), bits as nat) && is_passphrase(
                text@,
                symbols.deep_view(),
                count,
                separator@,
            ),
        (*final(source) is Secure) == (*old(source) is Secure),
{
    match symbol_count(bits, symbols.len()) {
        None => None,
        Some(count) => match draw(symbols, count, source) {
            Some(drawn) => {
                let text = join(&drawn, separator);
                assert(is_passphrase(text@, symbols.deep_view(), count as nat, separator@));
                Some(text)
            },
            None => {
                assert(false);
                None
            },
        },
    }
}

/// Writes a passphrase of at least `bits` bits of entropy out of the
/// symbols of `alphabet`. The source stays of the kind it was.
pub fn generate(alphabet: Alphabet, bits: u64, separator: &str, source: &mut Randomness) -> (text:
    String)
    ensures
        exists|count: nat|
            #![auto]
            is_least_count(count, alphabet.symbol_table().len(), bits as nat) && is_passphrase(
                text@,
                alphabet.symbol_table(),
                count,
                separator@,
            ),
        (*final(source) is Secure) == (*old(source) is Secure),
{
    let symbols = alphabet.symbols();
    match generate_from(&symbols, bits, separator, source) {
        Some(text) => text,
        None => {
            assert(false);
            String::new()
        },
    }
}

/// A passphrase out of an alphabet of the catalog carries the entropy
/// that was asked for, and would not with one symbol fewer: where `size`
/// is the number of symbols of the alphabet and `count` the number of
/// symbols written, `count * log2(size) >= bits > (count - 1) * log2(size)`.
pub proof fn request_is_bracketed(alphabet: Alphabet, bits: nat, count: nat)
    requires
        bits > 0,
        is_least_count(count, alphabet.symbol_table().len(), bits),
    ensures
        count >= 1,
        power(alphabet.symbol_table().len(), count) >= power(2, bits),
        power(alphabet.symbol_table().len(), (count - 1) as nat) < power(2, bits),
{
    Alphabet::at_least_two_symbols(alphabet);
    least_count_brackets(count, alphabet.symbol_table().len(), bits);
}

} // verus!
