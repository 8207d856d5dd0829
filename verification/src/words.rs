//! The word list that the `Words` alphabet draws from.

use vstd::prelude::*;
use crate::text::{is_space, word_end, words_from, words_of};

verus! {

/// The number of words in the list.
pub const WORD_COUNT: usize = 512;

/// The list itself: words of four lower-case letters in alphabetical order,
/// each followed by one space or line break.
pub const WORDS: &'static str = "\
acid aged area army baby back ball band bank barn base bath bead beam bean bear\n\
beat bell belt bend best bike bird blue boat body bold bolt bone book boot bowl\n\
bulb bulk burn bush busy cafe cage cake call calm camp card care cart case cash\n\
cave cell chef chin chip city clay clip club coal coat code coin cold comb cone\n\
cook cool copy cord core corn cost cozy crab crew crop cube curl cute dart dash\n\
data dawn deal dear deck deep deer desk dial dice diet dirt dish disk dive dock\n\
door dove down draw drum duck dune dusk dust duty east easy echo edge epic exit\n\
face fact fair fall fame farm fast fern film find fine fire firm fish five flag\n\
flat flip flow foam fold folk food foot fork form fort four free frog fuel full\n\
fund gain game gate gear gift glad glow glue goal goat gold golf good grab gray\n\
grid grin grip grow gulf hair half hall hand harp hawk head heal heap hear heat\n\
help herb hero hike hill hint hive hold home hood hook hope horn host hour huge\n\
hunt icon idea inch iron item jade jazz join joke jump jury keen keep kick kind\n\
king kite kiwi knee knot know lace lake lamb lamp land lane lark last late lawn\n\
lead leaf lean left lens life lift lily lime line link lion list live loaf loan\n\
lock long look loop loud love luck lung mail main make mark mask mast math maze\n\
meal meet melt menu mild mile milk mill mind mint mist mode mole moon moss moth\n\
move myth nail name navy near neat neck need nest news next nice nine node noon\n\
nose note oath oats opal open oval oven pace pack page pair palm park part pass\n\
past path peak pear peel pier pine pink pipe plan play plot plum plus poem poet\n\
pole pond pony pool port post pour pull pump pure push quiz race raft rail rain\n\
rake ramp rank rare read real reed reef rest rice rich ride ring ripe rise road\n\
robe rock role roll roof room root rope rose ruby rule rush rust safe sage sail\n\
salt same sand save scan seal seam seat seed seek self send shed ship shoe shop\n\
show side sign silk sing sink site size skip slab slim slow snow soap sock soft\n\
soil sole solo song soon sort soul soup spin spot star stay stem step stew stir\n\
stop suit surf swan swim tail take tale talk tall tank tape task team tell tent\n\
term test text thin tide tidy tile time tiny toad toll tone tool tour town tray\n\
tree trim trip true tube tuna tune turn twig twin type unit user vase vast veil\n\
vent vest view vine void volt vote wage wait wake walk wall want ward warm wash\n\
wave weak wear week well west wide wild will wind wine wing wink wire wise wish\n\
wolf wood wool word work worm wrap yard yarn year yoga yolk zero zest zinc zone\n";

/// The word at place `i` of the list.
pub open spec fn listed_word(i: int) -> Seq<char> {
    WORDS@.subrange(5 * i, 5 * i + 4)
}

/// A number that grows with the alphabetical order of four-letter words.
pub open spec fn order_key(word: Seq<char>) -> int {
    ((word[0] as int * 128 + word[1] as int) * 128 + word[2] as int) * 128 + word[3] as int
}

/// What the list looks like: every fifth character is a space, no other
/// is, and each word comes before its successor in alphabetical order.
proof fn list_shape()
    ensures
        WORDS@.len() == 5 * WORD_COUNT,
        forall|k: int| 0 <= k < 5 * WORD_COUNT ==> is_space(#[trigger] WORDS@[k]) == (k % 5 == 4),
        forall|i: int|
            0 <= i < WORD_COUNT - 1 ==> #[trigger] order_key(listed_word(i)) < order_key(
                listed_word(i + 1),
            ),
{
    reveal_strlit("\
acid aged area army baby back ball band bank barn base bath bead beam bean bear\n\
beat bell belt bend best bike bird blue boat body bold bolt bone book boot bowl\n\
bulb bulk burn bush busy cafe cage cake call calm camp card care cart case cash\n\
cave cell chef chin chip city clay clip club coal coat code coin cold comb cone\n\
cook cool copy cord core corn cost cozy crab crew crop cube curl cute dart dash\n\
data dawn deal dear deck deep deer desk dial dice diet dirt dish disk dive dock\n\
door dove down draw drum duck dune dusk dust duty east easy echo edge epic exit\n\
face fact fair fall fame farm fast fern film find fine fire firm fish five flag\n\
flat flip flow foam fold folk food foot fork form fort four free frog fuel full\n\
fund gain game gate gear gift glad glow glue goal goat gold golf good grab gray\n\
grid grin grip grow gulf hair half hall hand harp hawk head heal heap hear heat\n\
help herb hero hike hill hint hive hold home hood hook hope horn host hour huge\n\
hunt icon idea inch iron item jade jazz join joke jump jury keen keep kick kind\n\
king kite kiwi knee knot know lace lake lamb lamp land lane lark last late lawn\n\
lead leaf lean left lens life lift lily lime line link lion list live loaf loan\n\
lock long look loop loud love luck lung mail main make mark mask mast math maze\n\
meal meet melt menu mild mile milk mill mind mint mist mode mole moon moss moth\n\
move myth nail name navy near neat neck need nest news next nice nine node noon\n\
nose note oath oats opal open oval oven pace pack page pair palm park part pass\n\
past path peak pear peel pier pine pink pipe plan play plot plum plus poem poet\n\
pole pond pony pool port post pour pull pump pure push quiz race raft rail rain\n\
rake ramp rank rare read real reed reef rest rice rich ride ring ripe rise road\n\
robe rock role roll roof room root rope rose ruby rule rush rust safe sage sail\n\
salt same sand save scan seal seam seat seed seek self send shed ship shoe shop\n\
show side sign silk sing sink site size skip slab slim slow snow soap sock soft\n\
soil sole solo song soon sort soul soup spin spot star stay stem step stew stir\n\
stop suit surf swan swim tail take tale talk tall tank tape task team tell tent\n\
term test text thin tide tidy tile time tiny toad toll tone tool tour town tray\n\
tree trim trip true tube tuna tune turn twig twin type unit user vase vast veil\n\
vent vest view vine void volt vote wage wait wake walk wall want ward warm wash\n\
wave weak wear week well west wide wild will wind wine wing wink wire wise wish\n\
wolf wood wool word work worm wrap yard yarn year yoga yolk zero zest zinc zone\n");
}

/// A text laid out as the list is splits into its four-letter columns.
proof fn columns_are_words(text: Seq<char>, count: int, i: int)
    requires
        0 <= i <= count,
        text.len() == 5 * count,
        forall|k: int| 0 <= k < 5 * count ==> is_space(#[trigger] text[k]) == (k % 5 == 4),
    ensures
        words_from(text, 5 * i) == Seq::new(
            (count - i) as nat,
            |j: int| text.subrange(5 * (i + j), 5 * (i + j) + 4),
        ),
    decreases count - i,
{
    let rest = Seq::new((count - i) as nat, |j: int| text.subrange(5 * (i + j), 5 * (i + j) + 4));
    if i < count {
        let at: int = 5 * i;
        assert(!is_space(text[at]));
        assert(!is_space(text[at + 1]));
        assert(!is_space(text[at + 2]));
        assert(!is_space(text[at + 3]));
        assert(is_space(text[at + 4]));
        assert(word_end(text, at + 4) == at + 4);
        assert(word_end(text, at + 3) == at + 4);
        assert(word_end(text, at + 2) == at + 4);
        assert(word_end(text, at + 1) == at + 4);
        assert(words_from(text, at + 4) == words_from(text, at + 5));
        columns_are_words(text, count, i + 1);
        let tail = Seq::new(
            (count - i - 1) as nat,
            |j: int| text.subrange(5 * (i + 1 + j), 5 * (i + 1 + j) + 4),
        );
        assert(rest =~= seq![text.subrange(at, at + 4)] + tail);
    } else {
        assert(words_from(text, 5 * i) =~= rest);
    }
}

/// The words of the list are its columns, in order.
pub proof fn words_listed()
    ensures
        words_of(WORDS@) == Seq::new(WORD_COUNT as nat, |i: int| listed_word(i)),
{
    list_shape();
    columns_are_words(WORDS@, WORD_COUNT as int, 0);
    assert(words_of(WORDS@) =~= Seq::new(WORD_COUNT as nat, |i: int| listed_word(i)));
}

/// A word of the list comes before every later one.
proof fn earlier_is_smaller(i: int, j: int)
    requires
        0 <= i < j < WORD_COUNT,
    ensures
        order_key(listed_word(i)) < order_key(listed_word(j)),
    decreases j - i,
{
    list_shape();
    if i + 1 < j {
        earlier_is_smaller(i, j - 1);
    }
}

/// No word stands in the list twice.
pub proof fn words_distinct()
    ensures
        words_of(WORDS@).len() == WORD_COUNT,
        words_of(WORDS@).no_duplicates(),
{
    words_listed();
    let words = words_of(WORDS@);
    assert forall|i: int, j: int| 0 <= i < words.len() && 0 <= j < words.len() && i != j implies words[i]
        != words[j] by {
        if i < j {
            earlier_is_smaller(i, j);
        } else {
            earlier_is_smaller(j, i);
        }
    }
}

} // verus!
