//! The edits that turn a term into a candidate: a deletion at the front, an
//! insertion of letters, a substitution of letters. The functions here apply
//! an edit whose letters and places are given; they draw nothing.

use vstd::prelude::*;
use crate::distance::{one_insertion, one_substitution, within_one_edit};
use crate::generator::index_values;

verus! {

/// The kinds of edit that turn a term into a candidate.
#[derive(Debug, Clone, Copy, PartialEq, Eq, Structural)]
pub enum EditType {
    Insertion,
    Deletion,
    Substitution,
}

/// The kinds of edit in the order in which one is picked at random.
pub open spec fn edit_kinds() -> Seq<EditType> {
    seq![EditType::Insertion, EditType::Deletion, EditType::Substitution]
}

/// The alphabetic characters that an edit may bring in.
pub open spec fn alphabet() -> Seq<char> {
    seq![
        'a', 'b', 'c', 'd', 'e', 'f', 'g', 'h', 'i', 'j', 'k', 'l', 'm',
        'n', 'o', 'p', 'q', 'r', 's', 't', 'u', 'v', 'w', 'x', 'y', 'z',
    ]
}

/// The test that a character is another one than `excluded`.
pub open spec fn other_than(excluded: char) -> spec_fn(char) -> bool {
    |letter: char| letter != excluded
}

/// The alphabetic characters other than `excluded`, in alphabetic order.
pub open spec fn letters_except(excluded: char) -> Seq<char> {
    alphabet().filter(other_than(excluded))
}

/// `text` without its first `count` characters; nothing is left where it has
/// no more than that.
pub open spec fn deleted(text: Seq<char>, count: nat) -> Seq<char> {
    if count >= text.len() {
        Seq::empty()
    } else {
        text.skip(count as int)
    }
}

/// `text` after the letters are spliced in one after another, the `k`-th at
/// `places[k]` of the text as it stands when its turn comes.
pub open spec fn with_insertions(text: Seq<char>, letters: Seq<char>, places: Seq<nat>) -> Seq<char>
    decreases letters.len(),
{
    if letters.len() == 0 || places.len() == 0 {
        text
    } else {
        with_insertions(text, letters.drop_last(), places.drop_last()).insert(
            places.last() as int,
            letters.last(),
        )
    }
}

/// `text` after the character at `places[k]` is replaced by `letters[k]`, for
/// each `k` in turn.
pub open spec fn with_substitutions(text: Seq<char>, places: Seq<nat>, letters: Seq<char>) -> Seq<
    char,
>
    decreases places.len(),
{
    if letters.len() == 0 || places.len() == 0 {
        text
    } else {
        with_substitutions(text, places.drop_last(), letters.drop_last()).update(
            places.last() as int,
            letters.last(),
        )
    }
}

/// Every letter is a letter of the alphabet.
pub open spec fn alphabetic(letters: Seq<char>) -> bool {
    forall|k: int| 0 <= k < letters.len() ==> alphabet().contains(#[trigger] letters[k])
}

/// `case` is `term` as it is or after edits of one kind, at most as many as
/// the term has characters: without some of its first characters, with
/// letters of the alphabet spliced in, or with the characters at some places
/// replaced by other letters of the alphabet.
pub open spec fn edited_from(term: Seq<char>, case: Seq<char>) -> bool {
    ||| case == term
    ||| exists|count: nat| 1 <= count <= term.len() && case == #[trigger] deleted(term, count)
    ||| exists|letters: Seq<char>, places: Seq<nat>|
        #![trigger with_insertions(term, letters, places)]
        {
            &&& 1 <= letters.len() <= term.len()
            &&& alphabetic(letters)
            &&& insertion_fits(term, letters, places)
            &&& case == with_insertions(term, letters, places)
        }
    ||| exists|places: Seq<nat>, letters: Seq<char>|
        #![trigger with_substitutions(term, places, letters)]
        {
            &&& 1 <= places.len() <= term.len()
            &&& alphabetic(letters)
            &&& substitution_changes(term, places, letters)
            &&& case == with_substitutions(term, places, letters)
        }
}

/// The `k`-th letter can be spliced in at `places[k]`: no place lies beyond
/// the end that the text has by then.
pub open spec fn insertion_fits(text: Seq<char>, letters: Seq<char>, places: Seq<nat>) -> bool {
    &&& letters.len() == places.len()
    &&& forall|k: int| 0 <= k < places.len() ==> #[trigger] places[k] <= text.len() + k
}

/// Every place is a place of the text, and there is a letter for each.
pub open spec fn substitution_fits(text: Seq<char>, places: Seq<nat>, letters: Seq<char>) -> bool {
    &&& letters.len() == places.len()
    &&& forall|k: int| 0 <= k < places.len() ==> #[trigger] places[k] < text.len()
}

/// The places are pairwise different, and each letter differs from the
/// character that the text has at its place.
pub open spec fn substitution_changes(text: Seq<char>, places: Seq<nat>, letters: Seq<char>) -> bool {
    &&& substitution_fits(text, places, letters)
    &&& forall|j: int, k: int| 0 <= j < k < places.len() ==> places[j] != places[k]
    &&& forall|k: int| 0 <= k < places.len() ==> #[trigger] letters[k] != text[places[k] as int]
}

impl EditType {
    /// The kinds of edit in the order in which one is picked at random.
    pub fn all() -> (kinds: Vec<EditType>)
        ensures
            kinds@ == edit_kinds(),
    {
        let kinds = vec![EditType::Insertion, EditType::Deletion, EditType::Substitution];
        kinds
    }
}

/// The alphabet as a vector.
pub fn alphabet_letters() -> (letters: Vec<char>)
    ensures
        letters@ == alphabet(),
{
    let letters = vec![
        'a', 'b', 'c', 'd', 'e', 'f', 'g', 'h', 'i', 'j', 'k', 'l', 'm',
        'n', 'o', 'p', 'q', 'r', 's', 't', 'u', 'v', 'w', 'x', 'y', 'z',
    ];
    letters
}

/// The alphabetic characters other than `excluded`: there is always one, and
/// none of them is `excluded`.
pub fn letters_other_than(excluded: char) -> (choices: Vec<char>)
    ensures
        choices@ == letters_except(excluded),
        choices.len() > 0,
        forall|i: int| 0 <= i < choices.len() ==> choices[i] != excluded,
        alphabetic(choices@),
{
    let ghost differs = other_than(excluded);
    let letters = alphabet_letters();
    let mut choices: Vec<char> = Vec::new();
    let mut i: usize = 0;
    proof {
        reveal(Seq::filter);
    }
    while i < letters.len()
        invariant
            letters@ == alphabet(),
            differs == other_than(excluded),
            i <= letters.len(),
            choices@ == alphabet().take(i as int).filter(differs),
            i >= 2 ==> choices.len() > 0,
            forall|j: int| 0 <= j < choices.len() ==> choices[j] != excluded,
            alphabetic(choices@),
        decreases letters.len() - i,
    {
        proof {
            reveal(Seq::filter);
            assert(alphabet().take(i + 1).drop_last() =~= alphabet().take(i as int));
        }
        if letters[i] != excluded {
            choices.push(letters[i]);
        }
        i += 1;
    }
    assert(alphabet().take(i as int) =~= alphabet());
    choices
}

/// Drops the first `count` characters of `text`.
pub fn delete_front(text: &Vec<char>, count: usize) -> (rest: Vec<char>)
    ensures
        rest@ == deleted(text@, count as nat),
{
    let mut rest: Vec<char> = Vec::new();
    if count >= text.len() {
        return rest;
    }
    let mut i: usize = count;
    while i < text.len()
        invariant
            count <= i <= text.len(),
            rest@ == text@.subrange(count as int, i as int),
        decreases text.len() - i,
    {
        rest.push(text[i]);
        i += 1;
    }
    rest
}

/// Splices the letters into `text` one after another, the `k`-th at
/// `places[k]` of the text as it stands by then. There is no such text where
/// the letters and the places differ in number or a place lies beyond the end
/// that the text has by then.
pub fn insert_letters(text: Vec<char>, letters: &Vec<char>, places: &Vec<usize>) -> (edited: Option<
    Vec<char>,
>)
    ensures
        edited is Some <==> insertion_fits(text@, letters@, index_values(places@)),
        edited is Some ==> edited->0@ == with_insertions(
            text@,
            letters@,
            index_values(places@),
        ),
        edited is Some ==> edited->0.len() == text.len() + letters.len(),
{
    if letters.len() != places.len() {
        return None;
    }
    let mut current = text;
    let mut k: usize = 0;
    while k < letters.len()
        invariant
            letters.len() == places.len(),
            k <= letters.len(),
            current.len() == text.len() + k,
            forall|j: int| 0 <= j < k ==> #[trigger] index_values(places@)[j] <= text.len() + j,
            current@ == with_insertions(
                text@,
                letters@.take(k as int),
                index_values(places@).take(k as int),
            ),
        decreases letters.len() - k,
    {
        proof {
            assert(letters@.take(k + 1).drop_last() =~= letters@.take(k as int));
            assert(index_values(places@).take(k + 1).drop_last() =~= index_values(places@).take(
                k as int,
            ));
        }
        if places[k] > current.len() {
            assert(index_values(places@)[k as int] > text.len() + k);
            return None;
        }
        current.insert(places[k], letters[k]);
        k += 1;
    }
    proof {
        assert(letters@.take(k as int) =~= letters@);
        assert(index_values(places@).take(k as int) =~= index_values(places@));
    }
    Some(current)
}

/// Replaces the character of `text` at `places[k]` by `letters[k]`, for each
/// `k` in turn. There is no such text where the letters and the places differ
/// in number or a place is no place of the text.
pub fn substitute_letters(text: Vec<char>, places: &Vec<usize>, letters: &Vec<char>) -> (edited:
    Option<Vec<char>>)
    ensures
        edited is Some <==> substitution_fits(text@, index_values(places@), letters@),
        edited is Some ==> edited->0@ == with_substitutions(
            text@,
            index_values(places@),
            letters@,
        ),
        edited is Some ==> edited->0.len() == text.len(),
{
    if letters.len() != places.len() {
        return None;
    }
    let mut current = text;
    let mut k: usize = 0;
    while k < places.len()
        invariant
            letters.len() == places.len(),
            k <= places.len(),
            current.len() == text.len(),
            forall|j: int| 0 <= j < k ==> #[trigger] index_values(places@)[j] < text.len(),
            current@ == with_substitutions(
                text@,
                index_values(places@).take(k as int),
                letters@.take(k as int),
            ),
        decreases places.len() - k,
    {
        proof {
            assert(letters@.take(k + 1).drop_last() =~= letters@.take(k as int));
            assert(index_values(places@).take(k + 1).drop_last() =~= index_values(places@).take(
                k as int,
            ));
        }
        if places[k] >= current.len() {
            assert(index_values(places@)[k as int] >= text.len());
            return None;
        }
        current.set(places[k], letters[k]);
        k += 1;
    }
    proof {
        assert(letters@.take(k as int) =~= letters@);
        assert(index_values(places@).take(k as int) =~= index_values(places@));
    }
    Some(current)
}

/// An insertion makes the text longer by one character for each letter.
pub proof fn lemma_insertions_length(text: Seq<char>, letters: Seq<char>, places: Seq<nat>)
    requires
        insertion_fits(text, letters, places),
    ensures
        with_insertions(text, letters, places).len() == text.len() + letters.len(),
    decreases letters.len(),
{
    if letters.len() > 0 {
        lemma_insertions_length(text, letters.drop_last(), places.drop_last());
    }
}

/// A substitution at pairwise different places, by letters that differ from
/// the characters there, keeps the length of the text and changes the text at
/// exactly those places: each holds its letter, every other place is as it
/// was.
pub proof fn lemma_substitutions_change(text: Seq<char>, places: Seq<nat>, letters: Seq<char>)
    requires
        substitution_changes(text, places, letters),
    ensures
        with_substitutions(text, places, letters).len() == text.len(),
        forall|k: int|
            0 <= k < places.len() ==> with_substitutions(text, places, letters)[#[trigger] places[k] as int]
                == letters[k],
        forall|i: int|
            0 <= i < text.len() ==> (#[trigger] with_substitutions(text, places, letters)[i]
                != text[i] <==> places.contains(i as nat)),
    decreases places.len(),
{
    let edited = with_substitutions(text, places, letters);
    if places.len() > 0 {
        let earlier_places = places.drop_last();
        let earlier_letters = letters.drop_last();
        let last = places.len() - 1;
        assert forall|k: int| 0 <= k < earlier_places.len() implies #[trigger] earlier_letters[k]
            != text[earlier_places[k] as int] by {}
        lemma_substitutions_change(text, earlier_places, earlier_letters);
        let before = with_substitutions(text, earlier_places, earlier_letters);
        assert forall|k: int| 0 <= k < places.len() implies edited[#[trigger] places[k] as int]
            == letters[k] by {
            if k < last {
                assert(before[earlier_places[k] as int] == earlier_letters[k]);
            }
        }
        assert forall|i: int| 0 <= i < text.len() implies (#[trigger] edited[i] != text[i]
            <==> places.contains(i as nat)) by {
            if i != places[last] {
                if earlier_places.contains(i as nat) {
                    let k = choose|k: int|
                        0 <= k < earlier_places.len() && earlier_places[k] == i as nat;
                    assert(places[k] == i as nat);
                }
                if places.contains(i as nat) {
                    let k = choose|k: int| 0 <= k < places.len() && places[k] == i as nat;
                    assert(earlier_places[k] == i as nat);
                }
            }
        }
    }
}

/// One edit of any kind leaves the text within one edit of what it was.
pub proof fn lemma_single_edit_is_near(text: Seq<char>, place: nat, letter: char)
    ensures
        text.len() > 0 ==> within_one_edit(text, deleted(text, 1)),
        place <= text.len() ==> within_one_edit(
            text,
            with_insertions(text, seq![letter], seq![place]),
        ),
        place < text.len() ==> within_one_edit(
            text,
            with_substitutions(text, seq![place], seq![letter]),
        ),
{
    if text.len() > 0 {
        assert(text.remove(0) =~= deleted(text, 1));
    }
    let letters = seq![letter];
    let places = seq![place];
    assert(with_insertions(text, letters.drop_last(), places.drop_last()) == text);
    assert(with_substitutions(text, places.drop_last(), letters.drop_last()) == text);
    if place <= text.len() {
        let longer = text.insert(place as int, letter);
        assert(longer.remove(place as int) =~= text);
    }
    if place < text.len() {
        let other = text.update(place as int, letter);
        if letter != text[place as int] {
            assert(text.update(place as int, other[place as int]) == other);
        } else {
            assert(other =~= text);
        }
    }
}

} // verus!
