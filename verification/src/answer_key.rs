//! The answer key of a challenge: the candidates that are within one edit of
//! some term of the vocabulary, in the order in which the challenge holds them.

use vstd::prelude::*;
use crate::distance::{n_edits_away, within_one_edit};
use crate::text::texts;
use crate::vocabulary::{vocabulary, Color};

verus! {

/// `text` is within one edit of some term of the vocabulary.
pub open spec fn near_vocabulary(text: Seq<char>) -> bool {
    exists|i: int|
        0 <= i < vocabulary().len() && within_one_edit(text, #[trigger] vocabulary()[i].term())
}

/// The candidates that qualify, in their order among `cases`.
pub open spec fn answer_key(cases: Seq<Seq<char>>) -> Seq<Seq<char>> {
    cases.filter(|text: Seq<char>| near_vocabulary(text))
}

/// Whether `str` is within one edit of some term of the vocabulary.
pub fn one_edit_away(str: &str) -> (near: bool)
    ensures
        near == near_vocabulary(str@),
{
    let terms = Color::all();
    let mut i: usize = 0;
    while i < terms.len()
        invariant
            terms@ == vocabulary(),
            i <= terms.len(),
            forall|j: int| 0 <= j < i ==> !within_one_edit(str@, #[trigger] vocabulary()[j].term()),
        decreases terms.len() - i,
    {
        if n_edits_away(str, terms[i].name(), 1) {
            return true;
        }
        i += 1;
    }
    false
}

/// Derives the answer key of a challenge: every candidate within one edit of
/// some term of the vocabulary, and no other, in the order of the challenge.
pub fn derive_answers(cases: &Vec<String>) -> (answers: Vec<String>)
    ensures
        texts(answers@) == answer_key(texts(cases@)),
{
    let ghost qualifies = |text: Seq<char>| near_vocabulary(text);
    let mut answers: Vec<String> = Vec::new();
    let mut i: usize = 0;
    proof {
        reveal(Seq::filter);
    }
    while i < cases.len()
        invariant
            i <= cases.len(),
            qualifies == (|text: Seq<char>| near_vocabulary(text)),
            texts(answers@) == texts(cases@).take(i as int).filter(qualifies),
        decreases cases.len() - i,
    {
        proof {
            reveal(Seq::filter);
            assert(texts(cases@).take(i + 1).drop_last() =~= texts(cases@).take(i as int));
        }
        if one_edit_away(cases[i].as_str()) {
            answers.push(cases[i].clone());
        }
        i += 1;
    }
    assert(texts(cases@).take(i as int) =~= texts(cases@));
    answers
}

/// The answer key is sound and complete: each of its strings is a case of the
/// challenge within one edit of some term, and every case within one edit of
/// some term is in it. A term of the vocabulary that stands verbatim among the
/// cases is therefore in it. The key is never longer than the challenge.
pub proof fn lemma_answer_key_sound(cases: Seq<Seq<char>>)
    ensures
        forall|i: int|
            0 <= i < answer_key(cases).len() ==> near_vocabulary(#[trigger] answer_key(cases)[i])
                && cases.contains(answer_key(cases)[i]),
        forall|i: int|
            0 <= i < cases.len() && near_vocabulary(#[trigger] cases[i]) ==> answer_key(
                cases,
            ).contains(cases[i]),
        forall|i: int, k: int|
            0 <= i < cases.len() && 0 <= k < vocabulary().len() && #[trigger] cases[i]
                == #[trigger] vocabulary()[k].term() ==> answer_key(cases).contains(cases[i]),
        answer_key(cases).len() <= cases.len(),
{
    let qualifies = |text: Seq<char>| near_vocabulary(text);
    assert forall|i: int| 0 <= i < answer_key(cases).len() implies near_vocabulary(
        #[trigger] answer_key(cases)[i],
    ) && cases.contains(answer_key(cases)[i]) by {
        cases.lemma_filter_pred(qualifies, i);
        cases.lemma_filter_contains_rev(qualifies, answer_key(cases)[i]);
    }
    assert forall|i: int| 0 <= i < cases.len() && near_vocabulary(
        #[trigger] cases[i],
    ) implies answer_key(cases).contains(cases[i]) by {
        cases.lemma_filter_contains(qualifies, i);
    }
    assert forall|i: int, k: int|
        0 <= i < cases.len() && 0 <= k < vocabulary().len() && #[trigger] cases[i]
            == #[trigger] vocabulary()[k].term() implies answer_key(cases).contains(cases[i]) by {
        cases.lemma_filter_contains(qualifies, i);
    }
    cases.lemma_filter_len(qualifies);
}

} // verus!
