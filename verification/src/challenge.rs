//! Challenge generation: the mandatory cases followed by candidates that a
//! generator, seeded from the applicant's identifier, derives from the
//! vocabulary by random edits.
//!
//! Every draw comes from the one seeded generator, in a fixed order, so a
//! challenge is a function of the identifier, the number of candidates and the
//! mandatory cases. The spec functions of this module say which function.

use vstd::prelude::*;
use rand_pcg::Pcg64;
use crate::answer_key::{answer_key, derive_answers};
use crate::edits::{
    alphabet,
    alphabet_letters,
    alphabetic,
    delete_front,
    deleted,
    edit_kinds,
    edited_from,
    insert_letters,
    letters_except,
    letters_other_than,
    substitute_letters,
    substitution_changes,
    with_insertions,
    with_substitutions,
    EditType,
};
use crate::generator::{
    choose_index,
    chosen_index,
    draw_up_to,
    generator_state,
    index_values,
    ranged_draw,
    sample_indices,
    sampled_indices,
    seeded_generator,
    seeded_state,
    GeneratorState,
};
use crate::text::{chars_of, string_of, texts};
use crate::vocabulary::{lemma_term_length, vocabulary, Color};

verus! {

/// The letters of the alphabet at the sampled `indices`.
pub open spec fn letters_at(indices: Seq<nat>) -> Seq<char> {
    Seq::new(indices.len(), |i: int| alphabet()[indices[i] as int])
}

/// The places of `count` insertions into a text of `length` characters. The
/// place of each is drawn from `0..=len`, where `len` is the length that the
/// text has when its turn comes: one more with every letter spliced in.
pub open spec fn insertion_places(state: GeneratorState, length: nat, count: nat) -> (
    Seq<nat>,
    GeneratorState,
)
    decreases count,
{
    if count == 0 {
        (Seq::empty(), state)
    } else {
        let (earlier, before) = insertion_places(state, length, (count - 1) as nat);
        let (place, after) = ranged_draw(before, (length + count - 1) as nat);
        (earlier.push(place), after)
    }
}

/// The letters that replace the characters of `term` at `places`: each is
/// picked among the letters that differ from the character at its place.
pub open spec fn replacement_letters(state: GeneratorState, term: Seq<char>, places: Seq<nat>) -> (
    Seq<char>,
    GeneratorState,
)
    decreases places.len(),
{
    if places.len() == 0 {
        (Seq::empty(), state)
    } else {
        let (earlier, before) = replacement_letters(state, term, places.drop_last());
        let choices = letters_except(term[places.last() as int]);
        let (picked, after) = chosen_index(before, choices.len());
        (earlier.push(choices[picked as int]), after)
    }
}

/// An insertion of `count` letters into `term`: `count` distinct letters are
/// sampled from the alphabet, then a place is drawn for each, then they are
/// spliced in.
pub open spec fn inserted(term: Seq<char>, count: nat, state: GeneratorState) -> (
    Seq<char>,
    GeneratorState,
) {
    let (indices, after_letters) = sampled_indices(state, alphabet().len(), count);
    let (places, after_places) = insertion_places(after_letters, term.len(), count);
    (with_insertions(term, letters_at(indices), places), after_places)
}

/// A substitution at `count` places of `term`: `count` distinct places are
/// sampled, then a different letter is picked for each, then the characters
/// are replaced.
pub open spec fn substituted(term: Seq<char>, count: nat, state: GeneratorState) -> (
    Seq<char>,
    GeneratorState,
) {
    let (places, after_places) = sampled_indices(state, term.len(), count);
    let (letters, after_letters) = replacement_letters(after_places, term, places);
    (with_substitutions(term, places, letters), after_letters)
}

/// One candidate. A term is picked from the vocabulary, then a number of edits
/// between zero and the term's length. With no edit the candidate is the term.
/// Otherwise one kind of edit is picked: a deletion drops that many characters
/// from the front, an insertion or a substitution brings in that many letters.
pub open spec fn candidate(state: GeneratorState) -> (Seq<char>, GeneratorState) {
    let (which, after_term) = chosen_index(state, vocabulary().len());
    let term = vocabulary()[which as int].term();
    let (count, after_count) = ranged_draw(after_term, term.len());
    if count == 0 {
        (term, after_count)
    } else {
        let (kind, after_kind) = chosen_index(after_count, edit_kinds().len());
        match edit_kinds()[kind as int] {
            EditType::Deletion => (deleted(term, count), after_kind),
            EditType::Insertion => inserted(term, count, after_kind),
            EditType::Substitution => substituted(term, count, after_kind),
        }
    }
}

/// `case` is what a candidate can be: a term of the vocabulary as it is or
/// after edits of one kind.
pub open spec fn is_candidate(case: Seq<char>) -> bool {
    exists|i: int|
        0 <= i < vocabulary().len() && edited_from(#[trigger] vocabulary()[i].term(), case)
}

/// The first `n` candidates that a generator in `state` yields.
pub open spec fn candidates(state: GeneratorState, n: nat) -> (Seq<Seq<char>>, GeneratorState)
    decreases n,
{
    if n == 0 {
        (Seq::empty(), state)
    } else {
        let (earlier, before_last) = candidates(state, (n - 1) as nat);
        let (last, after_last) = candidate(before_last);
        (earlier.push(last), after_last)
    }
}

/// The challenge for an identifier: the mandatory cases, then `n_random`
/// candidates from the generator seeded with the identifier.
pub open spec fn challenge_cases(nuid: Seq<char>, n_random: nat, mandatory: Seq<Seq<char>>) -> Seq<
    Seq<char>,
> {
    mandatory + candidates(seeded_state(nuid), n_random).0
}

/// Samples `count` distinct letters of the alphabet.
fn draw_letters(count: usize, generator: &mut Pcg64) -> (letters: Vec<char>)
    requires
        count <= alphabet().len(),
    ensures
        letters.len() == count,
        alphabetic(letters@),
        (letters@, generator_state(*final(generator))) == ({
            let (indices, after) = sampled_indices(
                generator_state(*old(generator)),
                alphabet().len(),
                count as nat,
            );
            (letters_at(indices), after)
        }),
{
    let all = alphabet_letters();
    let picks = sample_indices(generator, all.len(), count);
    let mut letters: Vec<char> = Vec::new();
    let mut k: usize = 0;
    while k < count
        invariant
            all@ == alphabet(),
            picks.len() == count,
            forall|i: int| 0 <= i < picks.len() ==> picks[i] < all.len(),
            k <= count,
            letters@ == letters_at(index_values(picks@)).take(k as int),
            alphabetic(letters@),
        decreases count - k,
    {
        letters.push(all[picks[k]]);
        k += 1;
    }
    letters
}

/// Draws the places of `count` insertions into a text of `length` characters.
fn draw_insertion_places(length: usize, count: usize, generator: &mut Pcg64) -> (places: Vec<usize>)
    requires
        length + count <= usize::MAX,
    ensures
        places.len() == count,
        forall|k: int| 0 <= k < places.len() ==> places[k] <= length + k,
        (index_values(places@), generator_state(*final(generator))) == insertion_places(
            generator_state(*old(generator)),
            length as nat,
            count as nat,
        ),
{
    let ghost start = generator_state(*generator);
    let mut places: Vec<usize> = Vec::new();
    let mut k: usize = 0;
    while k < count
        invariant
            length + count <= usize::MAX,
            k <= count,
            places.len() == k,
            forall|j: int| 0 <= j < places.len() ==> places[j] <= length + j,
            (index_values(places@), generator_state(*generator)) == insertion_places(
                start,
                length as nat,
                k as nat,
            ),
        decreases count - k,
    {
        let place = draw_up_to(generator, (length + k) as u64) as usize;
        places.push(place);
        k += 1;
    }
    places
}

/// Picks, for each place, a letter other than the character of `term` there.
fn draw_replacements(term: &Vec<char>, places: &Vec<usize>, generator: &mut Pcg64) -> (letters:
    Vec<char>)
    requires
        forall|k: int| 0 <= k < places.len() ==> places[k] < term.len(),
    ensures
        letters.len() == places.len(),
        forall|k: int| 0 <= k < letters.len() ==> letters[k] != term[places[k] as int],
        alphabetic(letters@),
        (letters@, generator_state(*final(generator))) == replacement_letters(
            generator_state(*old(generator)),
            term@,
            index_values(places@),
        ),
{
    let ghost start = generator_state(*generator);
    let mut letters: Vec<char> = Vec::new();
    let mut k: usize = 0;
    while k < places.len()
        invariant
            forall|j: int| 0 <= j < places.len() ==> places[j] < term.len(),
            k <= places.len(),
            letters.len() == k,
            forall|j: int| 0 <= j < letters.len() ==> letters[j] != term[places[j] as int],
            alphabetic(letters@),
            (letters@, generator_state(*generator)) == replacement_letters(
                start,
                term@,
                index_values(places@).take(k as int),
            ),
        decreases places.len() - k,
    {
        proof {
            assert(index_values(places@).take(k + 1).drop_last() =~= index_values(places@).take(
                k as int,
            ));
        }
        let choices = letters_other_than(term[places[k]]);
        let picked = choose_index(generator, choices.len()).unwrap();
        letters.push(choices[picked]);
        k += 1;
    }
    assert(index_values(places@).take(k as int) =~= index_values(places@));
    letters
}

/// Draws one candidate from the generator.
fn random_case(generator: &mut Pcg64) -> (case: Vec<char>)
    ensures
        (case@, generator_state(*final(generator))) == candidate(generator_state(*old(generator))),
        is_candidate(case@),
{
    let terms = Color::all();
    let which = choose_index(generator, terms.len()).unwrap();
    let term = chars_of(terms[which].name());
    let ghost written = vocabulary()[which as int].term();
    proof {
        lemma_term_length(terms@[which as int]);
    }
    let count = draw_up_to(generator, term.len() as u64) as usize;
    if count == 0 {
        return term;
    }
    let kinds = EditType::all();
    let kind = choose_index(generator, kinds.len()).unwrap();
    match kinds[kind] {
        EditType::Deletion => {
            let case = delete_front(&term, count);
            case
        },
        EditType::Insertion => {
            let letters = draw_letters(count, generator);
            let places = draw_insertion_places(term.len(), count, generator);
            let case = insert_letters(term, &letters, &places).unwrap();
            case
        },
        EditType::Substitution => {
            let places = sample_indices(generator, term.len(), count);
            let letters = draw_replacements(&term, &places, generator);
            let case = substitute_letters(term, &places, &letters).unwrap();
            case
        },
    }
}

/// Generates the challenge for an applicant and its answer key.
///
/// The challenge is the mandatory cases as they are given, followed by
/// `n_random` candidates drawn from a generator seeded with `nuid`: it depends
/// on these three arguments and on nothing else. The answer key is made of the
/// cases that are within one edit of some term of the vocabulary, in the
/// order of the challenge.
pub fn generate_challenge(nuid: &str, n_random: usize, mandatory_cases: Vec<String>) -> (challenge:
    (Vec<String>, Vec<String>))
    ensures
        texts(challenge.0@) == challenge_cases(
            nuid@,
            n_random as nat,
            texts(mandatory_cases@),
        ),
        texts(challenge.1@) == answer_key(texts(challenge.0@)),
        challenge.0.len() == mandatory_cases.len() + n_random,
        forall|i: int|
            mandatory_cases.len() <= i < challenge.0.len() ==> is_candidate(
                #[trigger] texts(challenge.0@)[i],
            ),
{
    proof {
        lemma_candidates_length(seeded_state(nuid@), n_random as nat);
    }
    let mut generator = seeded_generator(nuid);
    let ghost mandatory = texts(mandatory_cases@);
    let mut all_cases = mandatory_cases;
    let mut i: usize = 0;
    while i < n_random
        invariant
            i <= n_random,
            all_cases.len() == mandatory.len() + i,
            forall|j: int|
                mandatory.len() <= j < all_cases.len() ==> is_candidate(
                    #[trigger] texts(all_cases@)[j],
                ),
            (texts(all_cases@), generator_state(generator)) == (
                mandatory + candidates(seeded_state(nuid@), i as nat).0,
                candidates(seeded_state(nuid@), i as nat).1,
            ),
        decreases n_random - i,
    {
        let ghost before = texts(all_cases@);
        let case = random_case(&mut generator);
        all_cases.push(string_of(&case));
        assert(texts(all_cases@) =~= before.push(case@));
        assert(before.push(case@) =~= mandatory + candidates(
            seeded_state(nuid@),
            (i + 1) as nat,
        ).0);
        i += 1;
    }
    let answers = derive_answers(&all_cases);
    (all_cases, answers)
}

/// There are as many candidates as were asked for.
pub proof fn lemma_candidates_length(state: GeneratorState, n: nat)
    ensures
        candidates(state, n).0.len() == n,
    decreases n,
{
    if n > 0 {
        lemma_candidates_length(state, (n - 1) as nat);
    }
}

/// A challenge holds the mandatory cases as they are given, in their places,
/// and then one candidate for each that was asked for.
pub proof fn lemma_challenge_layout(nuid: Seq<char>, n_random: nat, mandatory: Seq<Seq<char>>)
    ensures
        challenge_cases(nuid, n_random, mandatory).len() == mandatory.len() + n_random,
        challenge_cases(nuid, n_random, mandatory).take(mandatory.len() as int) == mandatory,
{
    lemma_candidates_length(seeded_state(nuid), n_random);
}

/// Generation is a function of its arguments: two challenges generated for one
/// identifier, with one number of candidates and the same mandatory cases, are
/// the same sequence, and so are their answer keys.
pub proof fn lemma_generation_deterministic(
    first: Seq<Seq<char>>,
    second: Seq<Seq<char>>,
    nuid: Seq<char>,
    n_random: nat,
    mandatory: Seq<Seq<char>>,
)
    requires
        first == challenge_cases(nuid, n_random, mandatory),
        second == challenge_cases(nuid, n_random, mandatory),
    ensures
        first == second,
        answer_key(first) == answer_key(second),
{
}

/// A longer challenge for the same identifier begins with the shorter one.
pub proof fn lemma_candidates_extend(state: GeneratorState, n: nat, m: nat)
    requires
        n <= m,
    ensures
        candidates(state, m).0.take(n as int) == candidates(state, n).0,
    decreases m,
{
    lemma_candidates_length(state, n);
    lemma_candidates_length(state, m);
    if n < m {
        lemma_candidates_extend(state, n, (m - 1) as nat);
        lemma_candidates_length(state, (m - 1) as nat);
        assert(candidates(state, m).0.take(n as int) =~= candidates(state, (m - 1) as nat).0.take(
            n as int,
        ));
    }
}

} // verus!
