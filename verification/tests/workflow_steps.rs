use std::collections::HashMap;

use screener::encoding::{decode_strings, encode_strings};
use screener::errors::{ApiError, ModelError, StoreError};
use screener::workflow::{
    applicants_not_found, check_solution, confirm_submission, get_applicants, lookup_error,
    mandatory_cases, new_applicant, register_user, report_applicants, retreive_challenge,
    retreive_token, same_answers, time_to_completion, Applicant, ApplicantRecord, Elapsed,
    Outcome, Submission, Timestamp, NANOS_PER_SEC, RANDOM_CASES,
};
use uuid::Uuid;

fn strings(items: &[&str]) -> Vec<String> {
    items.iter().map(|item| item.to_string()).collect()
}

fn at(secs: i64, nanos: u32) -> Timestamp {
    Timestamp::new(secs, nanos).unwrap()
}

struct Row {
    name: String,
    token: Uuid,
    challenge_json: String,
    answer_key_json: String,
    registered: Timestamp,
}

/// A store in memory that inserts or fails, as the workflow expects of one.
struct Store {
    applicants: HashMap<String, Row>,
    submissions: Vec<(String, bool, Timestamp)>,
    clock: i64,
}

impl Store {
    fn new() -> Store {
        Store { applicants: HashMap::new(), submissions: Vec::new(), clock: 1_000 }
    }

    fn now(&mut self) -> Timestamp {
        self.clock += 60;
        at(self.clock, 0)
    }

    fn create_applicant(&mut self, record: &ApplicantRecord) -> Result<(), StoreError> {
        if self.applicants.contains_key(&record.nuid) {
            return Err(StoreError::Conflict);
        }
        let registered = self.now();
        self.applicants.insert(
            record.nuid.clone(),
            Row {
                name: record.name.clone(),
                token: record.token,
                challenge_json: record.challenge_json.clone(),
                answer_key_json: record.answer_key_json.clone(),
                registered,
            },
        );
        Ok(())
    }

    fn get_token(&self, nuid: &str) -> Result<Uuid, StoreError> {
        self.applicants.get(nuid).map(|row| row.token).ok_or(StoreError::NotFound)
    }

    fn get_challenge(&self, token: Uuid) -> Result<String, StoreError> {
        self.applicants
            .values()
            .find(|row| row.token == token)
            .map(|row| row.challenge_json.clone())
            .ok_or(StoreError::NotFound)
    }

    fn get_answer_key(&self, token: Uuid) -> Result<(String, String), StoreError> {
        self.applicants
            .iter()
            .find(|(_, row)| row.token == token)
            .map(|(nuid, row)| (row.answer_key_json.clone(), nuid.clone()))
            .ok_or(StoreError::NotFound)
    }

    fn record_submission(&mut self, submission: &Submission) -> Result<(), StoreError> {
        let now = self.now();
        self.submissions.push((submission.nuid.clone(), submission.ok, now));
        Ok(())
    }

    fn list_latest_outcomes(&self, nuids: &[String]) -> Result<Vec<Outcome>, StoreError> {
        let mut outcomes = Vec::new();
        for nuid in nuids {
            let latest = self.submissions.iter().rev().find(|(owner, _, _)| owner == nuid);
            if let (Some(row), Some((_, ok, submitted))) = (self.applicants.get(nuid), latest) {
                outcomes.push(Outcome {
                    nuid: nuid.clone(),
                    name: row.name.clone(),
                    registered: row.registered,
                    submitted: *submitted,
                    ok: *ok,
                });
            }
        }
        Ok(outcomes)
    }
}

fn register(store: &mut Store, name: &str, nuid: &str) -> Result<(Uuid, Vec<String>), ModelError> {
    let record = new_applicant(name.to_string(), nuid.to_string())?;
    let created = store.create_applicant(&record);
    register_user(record, created)
}

fn submit(store: &mut Store, token: Uuid, given: &Vec<String>) -> Result<bool, ModelError> {
    let submission = check_solution(store.get_answer_key(token), given)?;
    let recorded = store.record_submission(&submission);
    confirm_submission(&submission, recorded)
}

#[test]
fn end_to_end_registration_and_verification() {
    let mut store = Store::new();
    let (token, challenge) = register(&mut store, "Jane Doe", "001234567").unwrap();
    assert_eq!(challenge.len(), mandatory_cases().len() + RANDOM_CASES);
    assert_eq!(challenge.len(), 107);

    let fetched = retreive_challenge(store.get_challenge(token)).unwrap();
    assert_eq!(fetched, challenge);
    assert_eq!(retreive_token(store.get_token("001234567")).unwrap(), token);

    let key = decode_strings(&store.get_answer_key(token).unwrap().0).unwrap();
    assert!(submit(&mut store, token, &key).unwrap());
    assert_eq!(store.submissions.len(), 1);

    let wrong = strings(&["red"]);
    assert!(!submit(&mut store, token, &wrong).unwrap());
    assert_eq!(store.submissions.len(), 2);

    let outcomes = store.list_latest_outcomes(&strings(&["001234567"]));
    let applicants = get_applicants(outcomes).unwrap();
    assert_eq!(applicants.len(), 1);
    assert_eq!(applicants[0].nuid, "001234567");
    assert_eq!(applicants[0].name, "Jane Doe");
    assert!(!applicants[0].ok);
    assert_eq!(applicants[0].time_to_completion, Elapsed { secs: 120, nanos: 0 });
}

#[test]
fn second_registration_of_an_identifier_is_a_duplicate() {
    let mut store = Store::new();
    let (token, challenge) = register(&mut store, "Jane Doe", "001234567").unwrap();
    let second = register(&mut store, "John Doe", "001234567");
    assert!(matches!(second, Err(ModelError::DuplicateUser)));
    assert_eq!(store.applicants.len(), 1);
    assert_eq!(store.applicants["001234567"].name, "Jane Doe");
    assert_eq!(store.get_token("001234567").unwrap(), token);
    assert_eq!(retreive_challenge(store.get_challenge(token)).unwrap(), challenge);
    assert!(register(&mut store, "John Doe", "007654321").is_ok());
}

#[test]
fn new_applicant_holds_the_challenge_of_the_identifier() {
    let record = new_applicant("Jane Doe".to_string(), "001234567".to_string()).unwrap();
    assert_eq!(record.nuid, "001234567");
    assert_eq!(record.name, "Jane Doe");
    let (challenge, answers) =
        screener::challenge::generate_challenge("001234567", 100, mandatory_cases());
    assert_eq!(record.challenge, challenge);
    assert_eq!(record.answer_key, answers);
    assert_eq!(decode_strings(&record.challenge_json).unwrap(), challenge);
    assert_eq!(decode_strings(&record.answer_key_json).unwrap(), answers);
    assert_eq!(record.token.get_version_num(), 4);
}

#[test]
fn tokens_are_minted_anew_and_not_derived_from_the_identifier() {
    let first = new_applicant("Jane Doe".to_string(), "001234567".to_string()).unwrap();
    let second = new_applicant("Jane Doe".to_string(), "001234567".to_string()).unwrap();
    assert_ne!(first.token, second.token);
    assert_eq!(first.challenge, second.challenge);
    assert_eq!(first.answer_key, second.answer_key);
}

#[test]
fn mandatory_cases_are_the_empty_text_and_the_terms() {
    assert_eq!(
        mandatory_cases(),
        strings(&["", "red", "orange", "yellow", "green", "blue", "violet"])
    );
    assert_eq!(RANDOM_CASES, 100);
}

fn record(nuid: &str) -> ApplicantRecord {
    ApplicantRecord {
        nuid: nuid.to_string(),
        name: "Jane Doe".to_string(),
        token: Uuid::from_u128(7),
        challenge: strings(&["", "red", "rxd"]),
        answer_key: strings(&["red", "rxd"]),
        challenge_json: "[\"\",\"red\",\"rxd\"]".to_string(),
        answer_key_json: "[\"red\",\"rxd\"]".to_string(),
    }
}

#[test]
fn registration_follows_the_answer_of_the_store() {
    let told = register_user(record("1"), Ok(())).unwrap();
    assert_eq!(told, (Uuid::from_u128(7), strings(&["", "red", "rxd"])));
    assert!(matches!(
        register_user(record("1"), Err(StoreError::Conflict)),
        Err(ModelError::DuplicateUser)
    ));
    assert!(matches!(
        register_user(record("1"), Err(StoreError::Other)),
        Err(ModelError::StorageError)
    ));
    assert!(matches!(
        register_user(record("1"), Err(StoreError::NotFound)),
        Err(ModelError::StorageError)
    ));
}

#[test]
fn lookups_tell_a_missing_applicant_from_a_failed_store() {
    assert!(matches!(lookup_error(StoreError::NotFound), ModelError::NoUserFound));
    assert!(matches!(lookup_error(StoreError::Other), ModelError::StorageError));
    assert!(matches!(lookup_error(StoreError::Conflict), ModelError::StorageError));

    assert_eq!(retreive_token(Ok(Uuid::from_u128(9))).unwrap(), Uuid::from_u128(9));
    assert!(matches!(retreive_token(Err(StoreError::NotFound)), Err(ModelError::NoUserFound)));
    assert!(matches!(retreive_token(Err(StoreError::Other)), Err(ModelError::StorageError)));

    assert!(matches!(
        retreive_challenge(Err(StoreError::NotFound)),
        Err(ModelError::NoUserFound)
    ));
    assert!(matches!(retreive_challenge(Err(StoreError::Other)), Err(ModelError::StorageError)));
    assert!(matches!(
        check_solution(Err(StoreError::NotFound), &Vec::new()),
        Err(ModelError::NoUserFound)
    ));
    assert!(matches!(
        check_solution(Err(StoreError::Other), &Vec::new()),
        Err(ModelError::StorageError)
    ));
}

#[test]
fn stored_challenge_is_read_back_as_it_was_written() {
    let challenge = strings(&["", "red", "a \"quoted\" one", "caf\u{e9}"]);
    let json = encode_strings(&challenge).unwrap();
    assert_eq!(retreive_challenge(Ok(json)).unwrap(), challenge);
    assert_eq!(retreive_challenge(Ok("[]".to_string())).unwrap(), Vec::<String>::new());
}

#[test]
fn corrupt_stored_data_is_told_apart() {
    for corrupt in ["", "[", "{}", "[1, 2]", "\"red\"", "[\"red\"", "[\"red\", null]", "null"] {
        assert!(
            matches!(
                retreive_challenge(Ok(corrupt.to_string())),
                Err(ModelError::DeserializeError)
            ),
            "{}",
            corrupt
        );
        assert!(
            matches!(
                check_solution(Ok((corrupt.to_string(), "1".to_string())), &Vec::new()),
                Err(ModelError::DeserializeError)
            ),
            "{}",
            corrupt
        );
        assert!(matches!(decode_strings(corrupt), Err(ModelError::DeserializeError)));
    }
}

#[test]
fn lists_are_written_as_json_arrays() {
    assert_eq!(encode_strings(&strings(&["red", "", "lue"])).unwrap(), "[\"red\",\"\",\"lue\"]");
    assert_eq!(encode_strings(&Vec::new()).unwrap(), "[]");
    assert_eq!(decode_strings(" [ \"red\" , \"lue\" ] ").unwrap(), strings(&["red", "lue"]));
}

#[test]
fn verification_is_exact_equality() {
    let key = strings(&["red", "lue", "greene"]);
    let stored = || Ok((encode_strings(&key).unwrap(), "001234567".to_string()));

    let verbatim = check_solution(stored(), &key).unwrap();
    assert!(verbatim.ok);
    assert_eq!(verbatim.nuid, "001234567");

    let altered = check_solution(stored(), &strings(&["red", "blue", "greene"])).unwrap();
    assert!(!altered.ok);
    assert_eq!(altered.nuid, "001234567");

    assert!(!check_solution(stored(), &strings(&["lue", "red", "greene"])).unwrap().ok);
    assert!(!check_solution(stored(), &strings(&["red", "lue"])).unwrap().ok);
    assert!(!check_solution(stored(), &strings(&["red", "lue", "greene", ""])).unwrap().ok);
    assert!(!check_solution(stored(), &Vec::new()).unwrap().ok);
    assert!(!check_solution(stored(), &strings(&["Red", "lue", "greene"])).unwrap().ok);
}

#[test]
fn answers_are_compared_string_by_string() {
    assert!(same_answers(&Vec::new(), &Vec::new()));
    assert!(same_answers(&strings(&["a", "b"]), &strings(&["a", "b"])));
    assert!(!same_answers(&strings(&["a", "b"]), &strings(&["b", "a"])));
    assert!(!same_answers(&strings(&["a", "b"]), &strings(&["a", "c"])));
    assert!(!same_answers(&strings(&["a"]), &strings(&["a", "a"])));
    assert!(!same_answers(&strings(&["ab"]), &strings(&["a", "b"])));
}

#[test]
fn verdict_is_told_once_the_store_holds_it() {
    let good = Submission { nuid: "1".to_string(), ok: true };
    let bad = Submission { nuid: "1".to_string(), ok: false };
    assert!(matches!(confirm_submission(&good, Ok(())), Ok(true)));
    assert!(matches!(confirm_submission(&bad, Ok(())), Ok(false)));
    assert!(matches!(
        confirm_submission(&good, Err(StoreError::Other)),
        Err(ModelError::StorageError)
    ));
    assert!(matches!(
        confirm_submission(&bad, Err(StoreError::NotFound)),
        Err(ModelError::StorageError)
    ));
}

#[test]
fn time_to_completion_is_the_difference() {
    assert_eq!(
        time_to_completion(at(100, 0), at(160, 500_000_000)),
        Elapsed { secs: 60, nanos: 500_000_000 }
    );
    assert_eq!(
        time_to_completion(at(10, 900_000_000), at(12, 100_000_000)),
        Elapsed { secs: 1, nanos: 200_000_000 }
    );
    assert_eq!(time_to_completion(at(-5, 0), at(5, 1)), Elapsed { secs: 10, nanos: 1 });
    assert_eq!(time_to_completion(at(7, 7), at(7, 7)), Elapsed { secs: 0, nanos: 0 });
    assert_eq!(time_to_completion(at(7, 7), at(7, 8)), Elapsed { secs: 0, nanos: 1 });
}

#[test]
fn time_to_completion_is_never_negative() {
    assert_eq!(time_to_completion(at(160, 0), at(100, 0)), Elapsed { secs: 0, nanos: 0 });
    assert_eq!(time_to_completion(at(7, 8), at(7, 7)), Elapsed { secs: 0, nanos: 0 });
    assert_eq!(time_to_completion(at(1, 0), at(0, 999_999_999)), Elapsed { secs: 0, nanos: 0 });
    assert_eq!(
        time_to_completion(at(i64::MAX, 0), at(i64::MIN, 0)),
        Elapsed { secs: 0, nanos: 0 }
    );
}

#[test]
fn time_to_completion_spans_the_whole_range() {
    assert_eq!(
        time_to_completion(at(i64::MIN, 0), at(i64::MAX, 999_999_999)),
        Elapsed { secs: u64::MAX, nanos: 999_999_999 }
    );
    assert_eq!(
        time_to_completion(at(i64::MIN, 999_999_999), at(i64::MAX, 0)),
        Elapsed { secs: u64::MAX - 1, nanos: 1 }
    );
}

#[test]
fn timestamps_hold_less_than_a_second_of_nanoseconds() {
    assert_eq!(NANOS_PER_SEC, 1_000_000_000);
    assert!(Timestamp::new(0, 0).is_some());
    assert!(Timestamp::new(-1, 999_999_999).is_some());
    assert!(Timestamp::new(0, 1_000_000_000).is_none());
    assert!(Timestamp::new(0, u32::MAX).is_none());
}

#[test]
fn outcomes_are_reported_in_their_order() {
    let outcomes = vec![
        Outcome {
            nuid: "2".to_string(),
            name: "B".to_string(),
            registered: at(50, 0),
            submitted: at(20, 0),
            ok: true,
        },
        Outcome {
            nuid: "1".to_string(),
            name: "A".to_string(),
            registered: at(10, 0),
            submitted: at(20, 250),
            ok: false,
        },
    ];
    let applicants: Vec<Applicant> = get_applicants(Ok(outcomes)).unwrap();
    assert_eq!(applicants.len(), 2);
    assert_eq!(applicants[0].nuid, "2");
    assert_eq!(applicants[0].name, "B");
    assert!(applicants[0].ok);
    assert_eq!(applicants[0].time_to_completion, Elapsed { secs: 0, nanos: 0 });
    assert_eq!(applicants[1].nuid, "1");
    assert_eq!(applicants[1].name, "A");
    assert!(!applicants[1].ok);
    assert_eq!(applicants[1].time_to_completion, Elapsed { secs: 10, nanos: 250 });

    assert!(get_applicants(Ok(Vec::new())).unwrap().is_empty());
    assert!(matches!(get_applicants(Err(StoreError::Other)), Err(ModelError::StorageError)));
    assert!(matches!(get_applicants(Err(StoreError::NotFound)), Err(ModelError::StorageError)));
}

fn applicant(nuid: &str) -> Applicant {
    Applicant {
        time_to_completion: Elapsed { secs: 1, nanos: 2 },
        ok: true,
        name: format!("name of {}", nuid),
        nuid: nuid.to_string(),
    }
}

#[test]
fn identifiers_without_an_applicant_are_listed_in_order() {
    let found = vec![applicant("2"), applicant("4")];
    assert_eq!(
        applicants_not_found(&strings(&["5", "4", "1", "2", "1"]), &found),
        strings(&["5", "1", "1"])
    );
    assert!(applicants_not_found(&strings(&["2", "4", "2"]), &found).is_empty());
    assert!(applicants_not_found(&Vec::new(), &found).is_empty());
    assert_eq!(applicants_not_found(&strings(&["2"]), &Vec::new()), strings(&["2"]));
}

#[test]
fn a_batch_with_a_missing_applicant_is_an_error() {
    let told = report_applicants(&strings(&["1", "2", "3"]), vec![applicant("2")]);
    match told {
        Err(ModelError::ApplicantsNotFound { applicants_found, applicants_not_found }) => {
            assert_eq!(applicants_found.len(), 1);
            assert_eq!(applicants_found[0].nuid, "2");
            assert_eq!(applicants_not_found, strings(&["1", "3"]));
        }
        other => panic!("{:?}", other),
    }
    let whole = report_applicants(&strings(&["2", "1"]), vec![applicant("1"), applicant("2")]);
    let found = whole.unwrap();
    assert_eq!(found.len(), 2);
    assert_eq!(found[0].nuid, "1");
    assert_eq!(found[1].nuid, "2");
    assert!(report_applicants(&Vec::new(), Vec::new()).unwrap().is_empty());
}

#[test]
fn no_submission_means_not_found() {
    let mut store = Store::new();
    register(&mut store, "Jane Doe", "001234567").unwrap();
    let asked = strings(&["001234567"]);
    let applicants = get_applicants(store.list_latest_outcomes(&asked)).unwrap();
    assert!(applicants.is_empty());
    match report_applicants(&asked, applicants) {
        Err(ModelError::ApplicantsNotFound { applicants_found, applicants_not_found }) => {
            assert!(applicants_found.is_empty());
            assert_eq!(applicants_not_found, asked);
        }
        other => panic!("{:?}", other),
    }
}

#[test]
fn every_error_is_rendered_as_its_own_kind() {
    assert!(matches!(ApiError::of(ModelError::DuplicateUser), ApiError::DuplicateUser));
    assert!(matches!(ApiError::of(ModelError::NoUserFound), ApiError::NoUserFound));
    assert!(matches!(ApiError::of(ModelError::StorageError), ApiError::StorageError));
    assert!(matches!(ApiError::of(ModelError::DeserializeError), ApiError::DeserializeError));
    match ApiError::of(ModelError::IncorrectSolution { given_solution: strings(&["red"]) }) {
        ApiError::IncorrectSolution { given_solution } => {
            assert_eq!(given_solution, strings(&["red"]))
        }
        other => panic!("{:?}", other),
    }
    let missing = ModelError::ApplicantsNotFound {
        applicants_found: vec![applicant("2")],
        applicants_not_found: strings(&["1"]),
    };
    match ApiError::of(missing) {
        ApiError::ApplicantsNotFound { applicants_found, applicants_not_found } => {
            assert_eq!(applicants_found[0].nuid, "2");
            assert_eq!(applicants_not_found, strings(&["1"]));
        }
        other => panic!("{:?}", other),
    }
}
