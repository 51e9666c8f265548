use screener::edits::{
    alphabet_letters, delete_front, insert_letters, letters_other_than, substitute_letters,
};
use screener::text::{chars_of, string_of};

fn edited(chars: Vec<char>) -> String {
    string_of(&chars)
}

#[test]
fn alphabet_is_the_lower_case_letters() {
    let letters: Vec<char> = ('a'..='z').collect();
    assert_eq!(alphabet_letters(), letters);
}

#[test]
fn other_letters_leave_one_out() {
    let others = letters_other_than('q');
    assert_eq!(others.len(), 25);
    assert!(!others.contains(&'q'));
    assert_eq!(edited(others), "abcdefghijklmnoprstuvwxyz");
    assert_eq!(letters_other_than('a')[0], 'b');
    assert_eq!(letters_other_than('z').len(), 25);
    assert_eq!(letters_other_than('Q').len(), 26);
    assert_eq!(letters_other_than('\u{e9}'), alphabet_letters());
}

#[test]
fn deletion_drops_characters_from_the_front() {
    assert_eq!(edited(delete_front(&chars_of("orange"), 0)), "orange");
    assert_eq!(edited(delete_front(&chars_of("orange"), 1)), "range");
    assert_eq!(edited(delete_front(&chars_of("orange"), 4)), "ge");
    assert_eq!(edited(delete_front(&chars_of("orange"), 6)), "");
    assert_eq!(edited(delete_front(&chars_of("orange"), 7)), "");
    assert_eq!(edited(delete_front(&chars_of(""), usize::MAX)), "");
}

#[test]
fn insertion_splices_letters_one_after_another() {
    let red = || chars_of("red");
    let spliced = |letters: Vec<char>, places: Vec<usize>| {
        insert_letters(red(), &letters, &places).map(edited)
    };
    assert_eq!(spliced(vec![], vec![]).unwrap(), "red");
    assert_eq!(spliced(vec!['x'], vec![0]).unwrap(), "xred");
    assert_eq!(spliced(vec!['x'], vec![3]).unwrap(), "redx");
    assert_eq!(spliced(vec!['x', 'y'], vec![0, 0]).unwrap(), "yxred");
    assert_eq!(spliced(vec!['x', 'y'], vec![0, 4]).unwrap(), "xredy");
    assert_eq!(spliced(vec!['x', 'y', 'z'], vec![3, 1, 5]).unwrap(), "ryedxz");
    assert_eq!(
        insert_letters(Vec::new(), &vec!['a', 'b'], &vec![0, 1]).map(edited).unwrap(),
        "ab"
    );
}

#[test]
fn insertion_needs_a_place_for_each_letter() {
    let red = || chars_of("red");
    assert!(insert_letters(red(), &vec!['x'], &vec![4]).is_none());
    assert!(insert_letters(red(), &vec!['x', 'y'], &vec![3, 5]).is_none());
    assert!(insert_letters(red(), &vec!['x', 'y'], &vec![0]).is_none());
    assert!(insert_letters(red(), &vec!['x'], &vec![0, 0]).is_none());
    assert!(insert_letters(red(), &vec![], &vec![0]).is_none());
    assert!(insert_letters(Vec::new(), &vec!['x'], &vec![1]).is_none());
}

#[test]
fn substitution_replaces_characters_in_place() {
    let blue = || chars_of("blue");
    let replaced = |places: Vec<usize>, letters: Vec<char>| {
        substitute_letters(blue(), &places, &letters).map(edited)
    };
    assert_eq!(replaced(vec![], vec![]).unwrap(), "blue");
    assert_eq!(replaced(vec![0], vec!['g']).unwrap(), "glue");
    assert_eq!(replaced(vec![3, 1], vec!['r', 'x']).unwrap(), "bxur");
    assert_eq!(replaced(vec![3, 2, 1, 0], vec!['a', 'b', 'c', 'd']).unwrap(), "dcba");
    assert_eq!(replaced(vec![1, 1], vec!['x', 'y']).unwrap(), "byue");
}

#[test]
fn substitution_needs_a_place_of_the_text() {
    let blue = || chars_of("blue");
    assert!(substitute_letters(blue(), &vec![4], &vec!['x']).is_none());
    assert!(substitute_letters(blue(), &vec![0, 9], &vec!['x', 'y']).is_none());
    assert!(substitute_letters(blue(), &vec![0], &vec!['x', 'y']).is_none());
    assert!(substitute_letters(blue(), &vec![0, 1], &vec!['x']).is_none());
    assert!(substitute_letters(Vec::new(), &vec![0], &vec!['x']).is_none());
}
