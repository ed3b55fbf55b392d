//! State that several workers change while holding a lock.
//!
//! A lock lets one worker in at a time, so whatever the workers do together
//! is what they would do one after another in some order. The functions here
//! are the single turns; the laws say what holds of the outcome whichever
//! order the turns are taken in.

use vstd::prelude::*;
use vstd::seq_lib::group_to_multiset_ensures;
use vstd::seq_lib::lemma_multiset_commutative;
use vstd::seq_lib::seq_to_set_is_finite;
use vstd::set_lib::lemma_subset_equality;

use crate::text::with_prefix;

verus! {

/// The value that the guarded counter starts with.
pub const INITIAL_COUNT: i32 = 5;

/// How many workers append to the shared text.
pub const WORKERS: u8 = 10;

/// The largest worker index whose letter is still a single byte: the letter
/// is made by adding the index to the byte `'a'`.
pub const LAST_LETTER_INDEX: u8 = 158;

/// The shared text before any worker has had a turn.
pub open spec fn initial_text() -> Seq<char> {
    seq!['1']
}

/// The character that worker `index` contributes: `index` places after `'a'`.
pub open spec fn letter_of(index: u8) -> char {
    ('a' as int + index as int) as char
}

/// The letters that the workers in `order` contribute, in that order.
pub open spec fn letters_of(order: Seq<u8>) -> Seq<char> {
    Seq::new(order.len(), |k: int| letter_of(order[k]))
}

/// The text once the workers in `order` have each had a turn on `start`, one
/// after another.
pub open spec fn text_after(start: Seq<char>, order: Seq<u8>) -> Seq<char> {
    start + letters_of(order)
}

/// `order` is a round of `workers` workers: each of them has exactly one turn
/// in it, and nobody else has any.
pub open spec fn is_round(order: Seq<u8>, workers: u8) -> bool {
    &&& order.len() == workers
    &&& order.no_duplicates()
    &&& forall|k: int| 0 <= k < order.len() ==> #[trigger] order[k] < workers
}

/// One turn on the guarded counter: adds one. The largest count has no
/// successor.
pub fn increment(count: &mut i32)
    requires
        *old(count) < i32::MAX,
    ensures
        *final(count) == *old(count) + 1,
{
    *count = *count + 1;
}

/// Makes the text that the shared text starts as.
pub fn starting_text() -> (text: String)
    ensures
        text@ == initial_text(),
{
    let mut text = String::new();
    text.push('1');
    text
}

/// Gives the character that worker `index` appends to the shared text. Beyond
/// [`LAST_LETTER_INDEX`] the byte addition would overflow.
pub fn worker_letter(index: u8) -> (letter: char)
    requires
        index <= LAST_LETTER_INDEX,
    ensures
        letter == letter_of(index),
{
    ('a' as u8 + index) as char
}

/// One turn of worker `index` on the shared text: appends its letter.
pub fn contribute(text: &mut String, index: u8)
    requires
        index <= LAST_LETTER_INDEX,
    ensures
        final(text)@ == old(text)@.push(letter_of(index)),
{
    text.push(worker_letter(index));
}

/// Builds the line that shows the shared text once every worker is done.
pub fn final_line(text: &str) -> (line: String)
    ensures
        line@ == "final_state: "@ + text@,
{
    with_prefix("final_state: ", text)
}

/// Before anyone has had a turn the text is the starting text, and one more
/// turn appends that worker's letter to what the earlier turns left.
pub proof fn turns_accumulate(start: Seq<char>, order: Seq<u8>, index: u8)
    ensures
        text_after(start, Seq::<u8>::empty()) == start,
        text_after(start, order.push(index)) == text_after(start, order).push(letter_of(index)),
{
    assert(text_after(start, Seq::<u8>::empty()) =~= start);
    assert(text_after(start, order.push(index)) =~= text_after(start, order).push(
        letter_of(index),
    ));
}

/// Two workers never contribute the same letter.
pub proof fn letters_differ(a: u8, b: u8)
    ensures
        letter_of(a) == letter_of(b) <==> a == b,
{
}

/// The turns leave the starting text in place and add one character each: the
/// letter of the worker whose turn it was.
pub proof fn start_is_kept(start: Seq<char>, order: Seq<u8>)
    ensures
        text_after(start, order).len() == start.len() + order.len(),
        text_after(start, order).subrange(0, start.len() as int) == start,
        forall|k: int|
            0 <= k < order.len() ==> #[trigger] text_after(start, order)[start.len() + k]
                == letter_of(order[k]),
{
    assert(text_after(start, order).subrange(0, start.len() as int) =~= start);
}

/// A worker's letter occurs in the text as often as it did at the start, plus
/// once for each turn that the worker had: no turn is lost and none counts
/// twice, in whatever order the turns come.
pub proof fn turns_are_counted(start: Seq<char>, order: Seq<u8>, index: u8)
    ensures
        text_after(start, order).to_multiset().count(letter_of(index)) == start.to_multiset().count(
            letter_of(index),
        ) + order.to_multiset().count(index),
{
    lemma_multiset_commutative(start, letters_of(order));
    lemma_letter_count(order, letter_of(index));
}

/// The same turns taken in another order give the same characters, each as
/// often as before; only their places in the text can differ.
pub proof fn order_is_irrelevant(start: Seq<char>, order: Seq<u8>, other: Seq<u8>)
    requires
        order.to_multiset() == other.to_multiset(),
    ensures
        text_after(start, order).to_multiset() == text_after(start, other).to_multiset(),
{
    lemma_multiset_commutative(start, letters_of(order));
    lemma_multiset_commutative(start, letters_of(other));
    assert forall|c: char|
        letters_of(order).to_multiset().count(c) == letters_of(other).to_multiset().count(c) by {
        lemma_letter_count(order, c);
        lemma_letter_count(other, c);
    }
    assert(letters_of(order).to_multiset() =~= letters_of(other).to_multiset());
}

/// In a round every worker has exactly one turn.
pub proof fn round_gives_each_worker_one_turn(order: Seq<u8>, workers: u8, index: u8)
    requires
        is_round(order, workers),
        index < workers,
    ensures
        order.to_multiset().count(index) == 1,
{
    broadcast use group_to_multiset_ensures;

    let seen = order.to_set();
    order.unique_seq_to_set();
    seq_to_set_is_finite(order);
    lemma_workers_below(workers);
    assert(seen.subset_of(workers_below(workers))) by {
        assert forall|w: u8| seen.contains(w) implies workers_below(workers).contains(w) by {
            let k = choose|k: int| 0 <= k < order.len() && order[k] == w;
            assert(order[k] < workers);
        }
    }
    lemma_subset_equality(seen, workers_below(workers));
    assert(workers_below(workers).contains(index));
    order.lemma_multiset_has_no_duplicates();
}

/// After a round on the starting text, the text is the starting character
/// followed by the letter of every worker exactly once, whatever the order of
/// the turns was.
pub proof fn every_contribution_appears_once(order: Seq<u8>, workers: u8)
    requires
        is_round(order, workers),
    ensures
        text_after(initial_text(), order).len() == 1 + workers,
        text_after(initial_text(), order)[0] == '1',
        forall|index: u8|
            index < workers ==> #[trigger] text_after(initial_text(), order).to_multiset().count(
                letter_of(index),
            ) == 1,
{
    broadcast use group_to_multiset_ensures;

    let text = text_after(initial_text(), order);
    assert forall|index: u8| index < workers implies #[trigger] text.to_multiset().count(
        letter_of(index),
    ) == 1 by {
        turns_are_counted(initial_text(), order, index);
        round_gives_each_worker_one_turn(order, workers, index);
        assert(!initial_text().contains(letter_of(index)));
    }
}

/// The worker whose letter `c` is, if it is the letter of any.
spec fn worker_of(c: char) -> Option<u8> {
    if 'a' as int <= c as int <= 'a' as int + u8::MAX {
        Some((c as int - 'a' as int) as u8)
    } else {
        None
    }
}

/// A character occurs among the letters of `order` once for each turn of the
/// worker whose letter it is.
proof fn lemma_letter_count(order: Seq<u8>, c: char)
    ensures
        letters_of(order).to_multiset().count(c) == match worker_of(c) {
            Some(index) => order.to_multiset().count(index),
            None => 0,
        },
    decreases order.len(),
{
    broadcast use group_to_multiset_ensures;

    if order.len() == 0 {
        assert(letters_of(order).to_multiset().len() == 0);
        assert(order.to_multiset().len() == 0);
    } else {
        let earlier = order.drop_last();
        let last = order.last();
        lemma_letter_count(earlier, c);
        assert(order =~= earlier.push(last));
        assert(letters_of(order) =~= letters_of(earlier).push(letter_of(last)));
    }
}

/// The workers `0`, `1`, ... up to, not including, `workers`.
spec fn workers_below(workers: u8) -> Set<u8> {
    Set::new(|w: u8| w < workers)
}

/// There are exactly `workers` workers below `workers`.
proof fn lemma_workers_below(workers: u8)
    ensures
        workers_below(workers).finite(),
        workers_below(workers).len() == workers,
    decreases workers,
{
    if workers == 0 {
        assert(workers_below(workers) =~= Set::<u8>::empty());
    } else {
        let fewer = (workers - 1) as u8;
        lemma_workers_below(fewer);
        assert(workers_below(workers) =~= workers_below(fewer).insert(fewer));
    }
}

} // verus!
