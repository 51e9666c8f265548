//! The decisions of the registration and verification workflow.
//!
//! The persistence store is an outside collaborator. Each operation of the
//! workflow is a function from what the store answered to what the caller is
//! told; the caller of this library talks to the store. An applicant goes from
//! unregistered to registered, and with each submission to verified, with the
//! outcome of the latest submission.

use vstd::prelude::*;
use uuid::Uuid;
use crate::answer_key::answer_key;
use crate::challenge::{challenge_cases, generate_challenge};
use crate::encoding::{decode_strings, decoded_strings, encode_strings, encoded_strings};
use crate::errors::{ModelError, StoreError};
use crate::text::texts;
use crate::vocabulary::{vocabulary, Color};

verus! {

/// `uuid::Uuid`: a token. The library mints tokens and hands them on; it never
/// looks inside one.
#[verifier::external_type_specification]
#[verifier::external_body]
pub struct ExUuid(uuid::Uuid);

/// `Uuid::new_v4` returns a random identifier: nothing is known of it.
pub assume_specification[ Uuid::new_v4 ]() -> (token: Uuid);

/// The number of random candidates in a challenge.
pub const RANDOM_CASES: usize = 100;

/// The number of nanoseconds in a second.
pub const NANOS_PER_SEC: u32 = 1_000_000_000;

/// A point in time: seconds since the epoch and the nanoseconds beyond them.
#[derive(Debug, Clone, Copy)]
pub struct Timestamp {
    secs: i64,
    nanos: u32,
}

/// A span of time: whole seconds and the nanoseconds beyond them.
#[derive(Debug, Clone, Copy, PartialEq, Eq, Structural)]
pub struct Elapsed {
    pub secs: u64,
    pub nanos: u32,
}

/// An applicant's latest outcome.
#[derive(Debug)]
pub struct Applicant {
    pub time_to_completion: Elapsed,
    pub ok: bool,
    pub name: String,
    pub nuid: String,
}

/// What is persisted for a new applicant. The challenge and the answer key
/// are held as values and in their stored form.
#[derive(Debug)]
pub struct ApplicantRecord {
    pub nuid: String,
    pub name: String,
    pub token: Uuid,
    pub challenge: Vec<String>,
    pub answer_key: Vec<String>,
    pub challenge_json: String,
    pub answer_key_json: String,
}

/// The verdict on one submission, to be recorded for the applicant.
#[derive(Debug)]
pub struct Submission {
    pub nuid: String,
    pub ok: bool,
}

/// What the store holds of an applicant's latest submission.
#[derive(Debug)]
pub struct Outcome {
    pub nuid: String,
    pub name: String,
    pub registered: Timestamp,
    pub submitted: Timestamp,
    pub ok: bool,
}

impl Timestamp {
    #[verifier::type_invariant]
    spec fn in_range(self) -> bool {
        self.nanos < NANOS_PER_SEC
    }

    /// The nanoseconds from the epoch to this point in time.
    pub closed spec fn total_nanos(self) -> int {
        self.secs * NANOS_PER_SEC + self.nanos
    }

    /// The point in time `nanos` nanoseconds after `secs` seconds since the
    /// epoch, where `nanos` is less than a second.
    pub fn new(secs: i64, nanos: u32) -> (made: Option<Timestamp>)
        ensures
            made is Some <==> nanos < NANOS_PER_SEC,
            made is Some ==> made->0.total_nanos() == secs * NANOS_PER_SEC + nanos,
    {
        if nanos < NANOS_PER_SEC {
            Some(Timestamp { secs, nanos })
        } else {
            None
        }
    }
}

impl Elapsed {
    /// The span in nanoseconds.
    pub open spec fn total_nanos(self) -> int {
        self.secs * NANOS_PER_SEC + self.nanos
    }
}

/// The mandatory cases of every challenge: the empty text, then the terms of
/// the vocabulary in their order.
pub open spec fn mandatory_texts() -> Seq<Seq<char>> {
    seq![Seq::<char>::empty()] + Seq::new(vocabulary().len(), |i: int| vocabulary()[i].term())
}

/// The time from registration to submission, and no time at all where the
/// submission is recorded as earlier than the registration.
pub fn time_to_completion(registered: Timestamp, submitted: Timestamp) -> (elapsed: Elapsed)
    ensures
        elapsed.nanos < NANOS_PER_SEC,
        elapsed.total_nanos() == if submitted.total_nanos() >= registered.total_nanos() {
            submitted.total_nanos() - registered.total_nanos()
        } else {
            0
        },
{
    proof {
        use_type_invariant(&registered);
        use_type_invariant(&submitted);
    }
    let mut secs: i128 = submitted.secs as i128 - registered.secs as i128;
    let mut nanos: i64 = submitted.nanos as i64 - registered.nanos as i64;
    if nanos < 0 {
        secs = secs - 1;
        nanos = nanos + NANOS_PER_SEC as i64;
    }
    if secs < 0 {
        Elapsed { secs: 0, nanos: 0 }
    } else {
        Elapsed { secs: secs as u64, nanos: nanos as u32 }
    }
}

/// The mandatory cases of every challenge.
pub fn mandatory_cases() -> (cases: Vec<String>)
    ensures
        texts(cases@) == mandatory_texts(),
{
    let terms = Color::all();
    let mut cases: Vec<String> = Vec::new();
    cases.push(String::new());
    let mut i: usize = 0;
    while i < terms.len()
        invariant
            terms@ == vocabulary(),
            i <= terms.len(),
            cases.len() == i + 1,
            cases@[0]@ == Seq::<char>::empty(),
            forall|j: int| 0 <= j < i ==> cases@[j + 1]@ == vocabulary()[j].term(),
        decreases terms.len() - i,
    {
        cases.push(terms[i].to_string());
        i += 1;
    }
    cases
}

/// Makes the record of a new applicant: a freshly minted token, the challenge
/// generated from the identifier with the fixed configuration, its answer key,
/// and the stored form of both.
///
/// The record is made whenever both lists can be written; otherwise the
/// applicant cannot be stored.
pub fn new_applicant(name: String, nuid: String) -> (made: Result<ApplicantRecord, ModelError>)
    ensures
        made is Ok <==> {
            let challenge = challenge_cases(nuid@, RANDOM_CASES as nat, mandatory_texts());
            encoded_strings(challenge) is Some && encoded_strings(answer_key(challenge)) is Some
        },
        match made {
            Ok(record) => {
                &&& record.nuid == nuid
                &&& record.name == name
                &&& texts(record.challenge@) == challenge_cases(
                    nuid@,
                    RANDOM_CASES as nat,
                    mandatory_texts(),
                )
                &&& texts(record.answer_key@) == answer_key(texts(record.challenge@))
                &&& encoded_strings(texts(record.challenge@)) == Some(record.challenge_json@)
                &&& encoded_strings(texts(record.answer_key@)) == Some(record.answer_key_json@)
            },
            Err(error) => error == ModelError::StorageError,
        },
{
    let token = Uuid::new_v4();
    let (challenge, answers) = generate_challenge(nuid.as_str(), RANDOM_CASES, mandatory_cases());
    let challenge_json = match encode_strings(&challenge) {
        Ok(json) => json,
        Err(error) => {
            return Err(error);
        },
    };
    let answer_key_json = match encode_strings(&answers) {
        Ok(json) => json,
        Err(error) => {
            return Err(error);
        },
    };
    Ok(
        ApplicantRecord {
            nuid,
            name,
            token,
            challenge,
            answer_key: answers,
            challenge_json,
            answer_key_json,
        },
    )
}

/// What a lookup that the store could not answer means for the caller: an
/// applicant that is not there, or a failure of the store.
pub fn lookup_error(error: StoreError) -> (told: ModelError)
    ensures
        told == if error == StoreError::NotFound {
            ModelError::NoUserFound
        } else {
            ModelError::StorageError
        },
{
    match error {
        StoreError::NotFound => ModelError::NoUserFound,
        _ => ModelError::StorageError,
    }
}

/// What the applicant is told of a registration, given what the store
/// answered to the insertion of the record.
pub open spec fn registration_told(record: ApplicantRecord, created: Result<(), StoreError>) -> Result<
    (Uuid, Vec<String>),
    ModelError,
> {
    match created {
        Ok(_) => Ok((record.token, record.challenge)),
        Err(StoreError::Conflict) => Err(ModelError::DuplicateUser),
        Err(_) => Err(ModelError::StorageError),
    }
}

/// What the workflow relies on in the store: an insertion either adds the
/// record under its identifier, or finds the identifier taken and changes
/// nothing. The table maps each identifier to its record.
pub open spec fn insert_or_fail(
    table: Map<Seq<char>, ApplicantRecord>,
    record: ApplicantRecord,
) -> (Map<Seq<char>, ApplicantRecord>, Result<(), StoreError>) {
    if table.contains_key(record.nuid@) {
        (table, Err(StoreError::Conflict))
    } else {
        (table.insert(record.nuid@, record), Ok(()))
    }
}

/// With such a store, the first registration of an identifier succeeds, and a
/// second one for the same identifier is rejected as a duplicate and leaves
/// the table, and so the first record, as it was.
pub proof fn lemma_second_registration_rejected(
    table: Map<Seq<char>, ApplicantRecord>,
    first: ApplicantRecord,
    second: ApplicantRecord,
)
    requires
        !table.contains_key(first.nuid@),
        second.nuid@ == first.nuid@,
    ensures
        ({
            let (after_first, created) = insert_or_fail(table, first);
            let (after_second, created_again) = insert_or_fail(after_first, second);
            &&& registration_told(first, created) == Ok::<(Uuid, Vec<String>), ModelError>(
                (first.token, first.challenge),
            )
            &&& registration_told(second, created_again) == Err::<
                (Uuid, Vec<String>),
                ModelError,
            >(ModelError::DuplicateUser)
            &&& after_second == after_first
            &&& after_second[first.nuid@] == first
        }),
{
}

/// Concludes a registration from what the store answered to the insertion of
/// the record. The applicant gets the token and the challenge where the record
/// was created. A conflict means that the identifier is registered already;
/// any other failure is the store's.
pub fn register_user(record: ApplicantRecord, created: Result<(), StoreError>) -> (told: Result<
    (Uuid, Vec<String>),
    ModelError,
>)
    ensures
        told == registration_told(record, created),
{
    match created {
        Ok(_) => Ok((record.token, record.challenge)),
        Err(StoreError::Conflict) => Err(ModelError::DuplicateUser),
        Err(_) => Err(ModelError::StorageError),
    }
}

/// Hands on the token that the store found for an identifier.
pub fn retreive_token(found: Result<Uuid, StoreError>) -> (told: Result<Uuid, ModelError>)
    ensures
        told == match found {
            Ok(token) => Ok(token),
            Err(StoreError::NotFound) => Err(ModelError::NoUserFound),
            Err(_) => Err(ModelError::StorageError),
        },
{
    match found {
        Ok(token) => Ok(token),
        Err(error) => Err(lookup_error(error)),
    }
}

/// Reads the stored challenge that the store found for a token. The challenge
/// is never generated anew: it is the list that the stored text holds, and a
/// text that holds none is corrupt data.
pub fn retreive_challenge(found: Result<String, StoreError>) -> (told: Result<
    Vec<String>,
    ModelError,
>)
    ensures
        match found {
            Ok(json) => match decoded_strings(json@) {
                Some(challenge) => told is Ok && texts(told->Ok_0@) == challenge,
                None => told == Err::<Vec<String>, ModelError>(ModelError::DeserializeError),
            },
            Err(StoreError::NotFound) => told == Err::<Vec<String>, ModelError>(
                ModelError::NoUserFound,
            ),
            Err(_) => told == Err::<Vec<String>, ModelError>(ModelError::StorageError),
        },
{
    match found {
        Ok(json) => decode_strings(json.as_str()),
        Err(error) => Err(lookup_error(error)),
    }
}

/// The verdict on a given answer: it is good exactly when it is the stored
/// answer key, the same strings in the same order.
pub open spec fn verdict(stored: Seq<Seq<char>>, given: Seq<Seq<char>>) -> bool {
    stored == given
}

/// The stored answer key, given verbatim, is a good answer.
pub proof fn lemma_verbatim_answer_accepted(stored: Seq<Seq<char>>)
    ensures
        verdict(stored, stored),
{
}

/// The stored answer key with one string altered is a bad answer.
pub proof fn lemma_altered_answer_rejected(stored: Seq<Seq<char>>, i: int, other: Seq<char>)
    requires
        0 <= i < stored.len(),
        other != stored[i],
    ensures
        !verdict(stored, stored.update(i, other)),
{
}

/// The stored answer key with two different strings in each other's place is
/// a bad answer: the order counts.
pub proof fn lemma_reordered_answer_rejected(stored: Seq<Seq<char>>, i: int, j: int)
    requires
        0 <= i < stored.len(),
        0 <= j < stored.len(),
        stored[i] != stored[j],
    ensures
        !verdict(stored, stored.update(i, stored[j]).update(j, stored[i])),
{
}

/// Whether the given answer is the stored answer key: the same strings in the
/// same order, and nothing else.
pub fn same_answers(stored: &Vec<String>, given: &Vec<String>) -> (ok: bool)
    ensures
        ok == verdict(texts(stored@), texts(given@)),
{
    if stored.len() != given.len() {
        return false;
    }
    let mut i: usize = 0;
    while i < stored.len()
        invariant
            stored.len() == given.len(),
            i <= stored.len(),
            forall|j: int| 0 <= j < i ==> stored@[j]@ == given@[j]@,
        decreases stored.len() - i,
    {
        if stored[i] != given[i] {
            assert(texts(stored@)[i as int] != texts(given@)[i as int]);
            return false;
        }
        i += 1;
    }
    assert(texts(stored@) =~= texts(given@));
    true
}

/// Judges a submission against the stored answer key that the store found for
/// a token, together with the identifier of the applicant who owns it. The
/// verdict is to be recorded for that applicant whether it is good or bad.
pub fn check_solution(found: Result<(String, String), StoreError>, given_soln: &Vec<String>) -> (told:
    Result<Submission, ModelError>)
    ensures
        match found {
            Ok((json, nuid)) => match decoded_strings(json@) {
                Some(stored) => {
                    &&& told is Ok
                    &&& told->Ok_0.nuid == nuid
                    &&& told->Ok_0.ok == verdict(stored, texts(given_soln@))
                },
                None => told == Err::<Submission, ModelError>(ModelError::DeserializeError),
            },
            Err(StoreError::NotFound) => told == Err::<Submission, ModelError>(
                ModelError::NoUserFound,
            ),
            Err(_) => told == Err::<Submission, ModelError>(ModelError::StorageError),
        },
{
    match found {
        Ok((json, nuid)) => match decode_strings(json.as_str()) {
            Ok(stored) => Ok(Submission { nuid, ok: same_answers(&stored, given_soln) }),
            Err(error) => Err(error),
        },
        Err(error) => Err(lookup_error(error)),
    }
}

/// Tells the applicant the verdict once the store holds it; if the store
/// could not take it, the store has failed.
pub fn confirm_submission(submission: &Submission, recorded: Result<(), StoreError>) -> (told:
    Result<bool, ModelError>)
    ensures
        told == match recorded {
            Ok(_) => Ok(submission.ok),
            Err(_) => Err(ModelError::StorageError),
        },
{
    match recorded {
        Ok(_) => Ok(submission.ok),
        Err(_) => Err(ModelError::StorageError),
    }
}

/// What is reported of one applicant from the latest outcome that the store
/// holds.
pub open spec fn reported(outcome: Outcome, applicant: Applicant) -> bool {
    &&& applicant.nuid@ == outcome.nuid@
    &&& applicant.name@ == outcome.name@
    &&& applicant.ok == outcome.ok
    &&& applicant.time_to_completion.nanos < NANOS_PER_SEC
    &&& applicant.time_to_completion.total_nanos() == if outcome.submitted.total_nanos()
        >= outcome.registered.total_nanos() {
        outcome.submitted.total_nanos() - outcome.registered.total_nanos()
    } else {
        0
    }
}

/// Reports the applicants whose latest outcomes the store listed: for each, in
/// the order of the list, the identifier, the name, the latest verdict and the
/// time from registration to that submission, never less than none.
pub fn get_applicants(found: Result<Vec<Outcome>, StoreError>) -> (told: Result<
    Vec<Applicant>,
    ModelError,
>)
    ensures
        match found {
            Ok(outcomes) => {
                &&& told is Ok
                &&& told->Ok_0.len() == outcomes.len()
                &&& forall|i: int|
                    0 <= i < outcomes.len() ==> reported(outcomes@[i], #[trigger] told->Ok_0@[i])
            },
            Err(_) => told == Err::<Vec<Applicant>, ModelError>(ModelError::StorageError),
        },
{
    match found {
        Ok(outcomes) => {
            let mut applicants: Vec<Applicant> = Vec::new();
            let mut i: usize = 0;
            while i < outcomes.len()
                invariant
                    i <= outcomes.len(),
                    applicants.len() == i,
                    forall|j: int| 0 <= j < i ==> reported(outcomes@[j], #[trigger] applicants@[j]),
                decreases outcomes.len() - i,
            {
                let outcome = &outcomes[i];
                applicants.push(
                    Applicant {
                        time_to_completion: time_to_completion(
                            outcome.registered,
                            outcome.submitted,
                        ),
                        ok: outcome.ok,
                        name: outcome.name.clone(),
                        nuid: outcome.nuid.clone(),
                    },
                );
                i += 1;
            }
            Ok(applicants)
        },
        Err(_) => Err(ModelError::StorageError),
    }
}

/// Some applicant of the list has the identifier.
pub open spec fn listed(applicants: Seq<Applicant>, nuid: Seq<char>) -> bool {
    exists|i: int| 0 <= i < applicants.len() && #[trigger] applicants[i].nuid@ == nuid
}

/// The test that no applicant of the list has an identifier.
pub open spec fn absent_from(applicants: Seq<Applicant>) -> spec_fn(Seq<char>) -> bool {
    |nuid: Seq<char>| !listed(applicants, nuid)
}

/// The identifiers asked for that no applicant of the list has, in the order
/// in which they were asked for.
pub open spec fn not_found(nuids: Seq<Seq<char>>, applicants: Seq<Applicant>) -> Seq<Seq<char>> {
    nuids.filter(absent_from(applicants))
}

/// Whether some applicant of the list has the identifier.
fn is_listed(applicants: &Vec<Applicant>, nuid: &String) -> (found: bool)
    ensures
        found == listed(applicants@, nuid@),
{
    let mut i: usize = 0;
    while i < applicants.len()
        invariant
            i <= applicants.len(),
            forall|j: int| 0 <= j < i ==> #[trigger] applicants@[j].nuid@ != nuid@,
        decreases applicants.len() - i,
    {
        if applicants[i].nuid == *nuid {
            return true;
        }
        i += 1;
    }
    false
}

/// The identifiers asked for that have no reported applicant.
pub fn applicants_not_found(nuids: &Vec<String>, applicants: &Vec<Applicant>) -> (missing: Vec<
    String,
>)
    ensures
        texts(missing@) == not_found(texts(nuids@), applicants@),
{
    let ghost absent = absent_from(applicants@);
    let mut missing: Vec<String> = Vec::new();
    let mut i: usize = 0;
    proof {
        reveal(Seq::filter);
    }
    while i < nuids.len()
        invariant
            i <= nuids.len(),
            absent == absent_from(applicants@),
            texts(missing@) == texts(nuids@).take(i as int).filter(absent),
        decreases nuids.len() - i,
    {
        proof {
            reveal(Seq::filter);
            assert(texts(nuids@).take(i + 1).drop_last() =~= texts(nuids@).take(i as int));
        }
        if !is_listed(applicants, &nuids[i]) {
            missing.push(nuids[i].clone());
        }
        i += 1;
    }
    assert(texts(nuids@).take(i as int) =~= texts(nuids@));
    missing
}

/// Reports a batch of applicants to the caller who asked for `nuids`: the
/// applicants where each identifier has one, else the applicants together
/// with the identifiers that have none.
pub fn report_applicants(nuids: &Vec<String>, applicants: Vec<Applicant>) -> (told: Result<
    Vec<Applicant>,
    ModelError,
>)
    ensures
        match told {
            Ok(found) => found == applicants && not_found(texts(nuids@), applicants@).len() == 0,
            Err(ModelError::ApplicantsNotFound { applicants_found, applicants_not_found }) => {
                &&& applicants_found == applicants
                &&& texts(applicants_not_found@) == not_found(texts(nuids@), applicants@)
                &&& applicants_not_found.len() > 0
            },
            Err(_) => false,
        },
{
    let missing = applicants_not_found(nuids, &applicants);
    if missing.len() == 0 {
        Ok(applicants)
    } else {
        Err(
            ModelError::ApplicantsNotFound {
                applicants_found: applicants,
                applicants_not_found: missing,
            },
        )
    }
}

} // verus!
