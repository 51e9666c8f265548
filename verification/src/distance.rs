//! The bounded edit-distance evaluator.
//!
//! The evaluator is a single left-to-right scan with two cursors. For a bound
//! `n <= 1` it decides exactly whether the edit distance of two strings is at
//! most `n`. For a larger `n` it is only an approximation of that test: its
//! answer is the outcome of the scan, which `scan_within` defines, and nothing
//! more should be read into it.

use vstd::prelude::*;
use crate::text::chars_of;

verus! {

/// `b` is `a` with the character at one position replaced by another one.
pub open spec fn one_substitution(a: Seq<char>, b: Seq<char>) -> bool {
    &&& a.len() == b.len()
    &&& exists|i: int|
        0 <= i < a.len() && a[i] != b[i] && #[trigger] a.update(i, b[i]) == b
}

/// `b` is `a` with one character inserted at some position.
pub open spec fn one_insertion(a: Seq<char>, b: Seq<char>) -> bool {
    &&& b.len() == a.len() + 1
    &&& exists|i: int| 0 <= i < b.len() && #[trigger] b.remove(i) == a
}

/// `a` and `b` are equal or differ by a single insertion, deletion or
/// substitution of one character.
pub open spec fn within_one_edit(a: Seq<char>, b: Seq<char>) -> bool {
    ||| a == b
    ||| one_substitution(a, b)
    ||| one_insertion(a, b)
    ||| one_insertion(b, a)
}

/// The least of three numbers.
pub open spec fn least(x: nat, y: nat, z: nat) -> nat {
    if x <= y && x <= z {
        x
    } else if y <= z {
        y
    } else {
        z
    }
}

/// The edit distance of two strings: the least number of insertions,
/// deletions and substitutions of one character that turn one into the other.
pub open spec fn edit_distance(a: Seq<char>, b: Seq<char>) -> nat
    decreases a.len() + b.len(),
{
    if a.len() == 0 {
        b.len()
    } else if b.len() == 0 {
        a.len()
    } else {
        let kept: nat = if a.last() == b.last() {
            0
        } else {
            1
        };
        least(
            edit_distance(a.drop_last(), b.drop_last()) + kept,
            edit_distance(a.drop_last(), b) + 1,
            edit_distance(a, b.drop_last()) + 1,
        )
    }
}

/// The outcome of the two-cursor scan from cursor `sp` in `shorter` and `lp`
/// in `longer`, with `edits` mismatches counted so far and at most `n` allowed.
///
/// A mismatch counts one edit. On strings of equal length it is read as a
/// substitution and both cursors advance; otherwise it is read as a character
/// that only `longer` has, and only the cursor in `longer` advances.
pub open spec fn scan_from(
    shorter: Seq<char>,
    longer: Seq<char>,
    sp: int,
    lp: int,
    edits: int,
    n: int,
) -> bool
    decreases longer.len() - lp,
{
    if 0 <= sp < shorter.len() && 0 <= lp < longer.len() {
        if shorter[sp] != longer[lp] {
            if edits + 1 > n {
                false
            } else if shorter.len() == longer.len() {
                scan_from(shorter, longer, sp + 1, lp + 1, edits + 1, n)
            } else {
                scan_from(shorter, longer, sp, lp + 1, edits + 1, n)
            }
        } else {
            scan_from(shorter, longer, sp + 1, lp + 1, edits, n)
        }
    } else {
        edits <= n
    }
}

/// What the evaluator answers for `a`, `b` and the bound `n`: `false` when the
/// lengths differ by more than `n`, else the outcome of the scan over the
/// shorter and the longer of the two.
pub open spec fn scan_within(a: Seq<char>, b: Seq<char>, n: int) -> bool {
    if a.len() > b.len() {
        a.len() - b.len() <= n && scan_from(b, a, 0, 0, 0, n)
    } else {
        b.len() - a.len() <= n && scan_from(a, b, 0, 0, 0, n)
    }
}

/// Whether `str1` and `str2` are within `n` single-character edits of each
/// other, as far as one linear scan can tell.
///
/// The answer is exact for `n <= 1`: it is `true` exactly when the edit
/// distance of the strings is at most `n`. So for `n == 1` it is `true` exactly
/// when the strings are equal or differ by one insertion, deletion or
/// substitution, for `n == 0` exactly when they are equal, and for a negative
/// `n` never. For a larger `n` the scan is an approximation of the edit
/// distance and the answer is only what the scan finds.
pub fn n_edits_away(str1: &str, str2: &str, n: isize) -> (within: bool)
    ensures
        within == scan_within(str1@, str2@, n as int),
        n <= 1 ==> within == (edit_distance(str1@, str2@) <= n),
        n == 1 ==> within == within_one_edit(str1@, str2@),
        n == 0 ==> within == (str1@ == str2@),
        n < 0 ==> !within,
{
    let first = chars_of(str1);
    let second = chars_of(str2);
    proof {
        lemma_scan_exact(str1@, str2@, n as int);
        lemma_distance_up_to_one(str1@, str2@);
    }
    if first.len() > second.len() {
        scan_chars(&second, &first, n)
    } else {
        scan_chars(&first, &second, n)
    }
}

/// The scan itself, on the shorter and the longer sequence of characters.
fn scan_chars(shorter: &Vec<char>, longer: &Vec<char>, n: isize) -> (within: bool)
    requires
        shorter.len() <= longer.len(),
    ensures
        within == (longer.len() - shorter.len() <= n && scan_from(
            shorter@,
            longer@,
            0,
            0,
            0,
            n as int,
        )),
{
    if n < 0 {
        return false;
    }
    let allowed: usize = n as usize;
    if longer.len() - shorter.len() > allowed {
        return false;
    }
    let same_length = shorter.len() == longer.len();
    let mut short_pointer: usize = 0;
    let mut long_pointer: usize = 0;
    let mut edit_count: usize = 0;
    while short_pointer < shorter.len() && long_pointer < longer.len()
        invariant
            0 <= n,
            allowed == n,
            same_length == (shorter.len() == longer.len()),
            short_pointer <= long_pointer <= longer.len(),
            edit_count <= allowed,
            scan_from(shorter@, longer@, 0, 0, 0, n as int) == scan_from(
                shorter@,
                longer@,
                short_pointer as int,
                long_pointer as int,
                edit_count as int,
                n as int,
            ),
        decreases longer.len() - long_pointer,
    {
        if shorter[short_pointer] != longer[long_pointer] {
            if edit_count >= allowed {
                return false;
            }
            edit_count += 1;
            if same_length {
                short_pointer += 1;
            }
        } else {
            short_pointer += 1;
        }
        long_pointer += 1;
    }
    true
}

/// For bounds up to one the scan tells exactly whether the strings are equal,
/// or equal up to a single edit.
pub proof fn lemma_scan_exact(a: Seq<char>, b: Seq<char>, n: int)
    ensures
        n == 1 ==> scan_within(a, b, n) == within_one_edit(a, b),
        n == 0 ==> scan_within(a, b, n) == (a == b),
        n < 0 ==> !scan_within(a, b, n),
{
    if n == 0 {
        if a.len() == b.len() {
            lemma_scan_exhausted(a, b, 0, 0, 0);
            lemma_agree_is_equal(a, b);
        }
    } else if n == 1 {
        if a.len() == b.len() {
            lemma_scan_same_length(a, b, 0);
            lemma_substitution_elementwise(a, b);
        } else if a.len() + 1 == b.len() {
            lemma_scan_one_longer(a, b, 0);
            lemma_insertion_elementwise(a, b);
        } else if b.len() + 1 == a.len() {
            lemma_scan_one_longer(b, a, 0);
            lemma_insertion_elementwise(b, a);
        }
    }
}

/// The edit distance is nought exactly between equal strings, and at most one
/// exactly between strings that are equal or differ by a single insertion,
/// deletion or substitution.
pub proof fn lemma_distance_up_to_one(a: Seq<char>, b: Seq<char>)
    ensures
        edit_distance(a, b) == 0 <==> a == b,
        edit_distance(a, b) <= 1 <==> within_one_edit(a, b),
    decreases a.len() + b.len(),
{
    lemma_distance_to_self(a);
    if a.len() == 0 || b.len() == 0 {
        if a.len() == 0 && b.len() == 0 {
            assert(a =~= b);
        } else if a.len() == 0 && b.len() == 1 {
            assert(b.remove(0) =~= a);
        } else if b.len() == 0 && a.len() == 1 {
            assert(a.remove(0) =~= b);
        }
    } else {
        let short_a = a.drop_last();
        let short_b = b.drop_last();
        lemma_distance_up_to_one(short_a, short_b);
        lemma_distance_up_to_one(short_a, b);
        lemma_distance_up_to_one(a, short_b);
        assert(a =~= short_a.push(a.last()));
        assert(b =~= short_b.push(b.last()));
        if edit_distance(a, b) <= 1 {
            if short_a == b {
                assert(a.remove(a.len() - 1) =~= b);
            } else if a == short_b {
                assert(b.remove(b.len() - 1) =~= a);
            } else if a.last() == b.last() {
                lemma_near_with_one_more(short_a, short_b, a.last());
            } else {
                assert(a.update(a.len() - 1, b[a.len() - 1]) =~= b);
            }
        }
        if within_one_edit(a, b) && a != b {
            if a.last() == b.last() {
                lemma_near_with_one_less(a, b);
            } else if one_substitution(a, b) {
                let i = choose|i: int|
                    0 <= i < a.len() && a[i] != b[i] && #[trigger] a.update(i, b[i]) == b;
                assert(i == a.len() - 1) by {
                    assert(a.update(i, b[i])[a.len() - 1] == b.last());
                }
                assert(short_a =~= short_b);
            } else if one_insertion(a, b) {
                let i = choose|i: int| 0 <= i < b.len() && #[trigger] b.remove(i) == a;
                assert(i == b.len() - 1) by {
                    if i < b.len() - 1 {
                        assert(b.remove(i)[a.len() - 1] == b.last());
                    }
                }
                assert(a =~= short_b);
            } else {
                let i = choose|i: int| 0 <= i < a.len() && #[trigger] a.remove(i) == b;
                assert(i == a.len() - 1) by {
                    if i < a.len() - 1 {
                        assert(a.remove(i)[b.len() - 1] == a.last());
                    }
                }
                assert(b =~= short_a);
            }
        }
    }
}

/// A string is at no distance from itself.
proof fn lemma_distance_to_self(a: Seq<char>)
    ensures
        edit_distance(a, a) == 0,
    decreases a.len(),
{
    if a.len() > 0 {
        lemma_distance_to_self(a.drop_last());
    }
}

/// Strings within one edit of each other stay so when the same character is
/// appended to both.
proof fn lemma_near_with_one_more(a: Seq<char>, b: Seq<char>, last: char)
    requires
        within_one_edit(a, b),
    ensures
        within_one_edit(a.push(last), b.push(last)),
{
    let longer_a = a.push(last);
    let longer_b = b.push(last);
    if a == b {
    } else if one_substitution(a, b) {
        let i = choose|i: int|
            0 <= i < a.len() && a[i] != b[i] && #[trigger] a.update(i, b[i]) == b;
        assert(longer_a.update(i, longer_b[i]) =~= longer_b);
    } else if one_insertion(a, b) {
        let i = choose|i: int| 0 <= i < b.len() && #[trigger] b.remove(i) == a;
        assert(longer_b.remove(i) =~= longer_a);
    } else {
        let i = choose|i: int| 0 <= i < a.len() && #[trigger] a.remove(i) == b;
        assert(longer_a.remove(i) =~= longer_b);
    }
}

/// Strings within one edit of each other that end in the same character stay
/// so without it, unless the edit is that one is the other without its end.
proof fn lemma_near_with_one_less(a: Seq<char>, b: Seq<char>)
    requires
        a.len() > 0,
        b.len() > 0,
        a.last() == b.last(),
        within_one_edit(a, b),
    ensures
        within_one_edit(a.drop_last(), b.drop_last()) || a.drop_last() == b || a == b.drop_last(),
{
    let short_a = a.drop_last();
    let short_b = b.drop_last();
    if a == b {
    } else if one_substitution(a, b) {
        let i = choose|i: int|
            0 <= i < a.len() && a[i] != b[i] && #[trigger] a.update(i, b[i]) == b;
        assert(short_a.update(i, short_b[i]) =~= short_b);
    } else if one_insertion(a, b) {
        let i = choose|i: int| 0 <= i < b.len() && #[trigger] b.remove(i) == a;
        if i == b.len() - 1 {
            assert(a =~= short_b);
        } else {
            assert(short_b.remove(i) =~= short_a);
        }
    } else {
        let i = choose|i: int| 0 <= i < a.len() && #[trigger] a.remove(i) == b;
        if i == a.len() - 1 {
            assert(b =~= short_a);
        } else {
            assert(short_a.remove(i) =~= short_b);
        }
    }
}

/// The evaluator does not care which of the two strings comes first.
pub proof fn lemma_scan_symmetric(a: Seq<char>, b: Seq<char>, n: int)
    ensures
        scan_within(a, b, n) == scan_within(b, a, n),
{
    if a.len() == b.len() {
        lemma_scan_mirrored(a, b, 0, 0, n);
    }
}

/// With any bound that is not negative, a string is within it of itself.
pub proof fn lemma_scan_reflexive(a: Seq<char>, n: int)
    requires
        0 <= n,
    ensures
        scan_within(a, a, n),
{
    lemma_scan_of_equal(a, 0, 0, n);
}

/// On strings of one length the scan goes the same way whichever is taken for
/// the shorter.
proof fn lemma_scan_mirrored(a: Seq<char>, b: Seq<char>, p: int, edits: int, n: int)
    requires
        a.len() == b.len(),
        0 <= p <= a.len(),
    ensures
        scan_from(a, b, p, p, edits, n) == scan_from(b, a, p, p, edits, n),
    decreases a.len() - p,
{
    if p < a.len() {
        if a[p] != b[p] {
            if edits + 1 <= n {
                lemma_scan_mirrored(a, b, p + 1, edits + 1, n);
            }
        } else {
            lemma_scan_mirrored(a, b, p + 1, edits, n);
        }
    }
}

/// A scan of a string against itself meets no mismatch.
proof fn lemma_scan_of_equal(a: Seq<char>, p: int, edits: int, n: int)
    requires
        0 <= p <= a.len(),
        edits <= n,
    ensures
        scan_from(a, a, p, p, edits, n),
    decreases a.len() - p,
{
    if p < a.len() {
        lemma_scan_of_equal(a, p + 1, edits, n);
    }
}

/// The characters `k` places after the two cursors are the same, where both
/// places exist.
spec fn aligned(s: Seq<char>, l: Seq<char>, sp: int, lp: int, k: int) -> bool {
    sp + k < s.len() && lp + k < l.len() ==> s[sp + k] == l[lp + k]
}

/// From the two cursors on, the strings agree as far as both reach.
spec fn agree_from(s: Seq<char>, l: Seq<char>, sp: int, lp: int) -> bool {
    forall|k: int| 0 <= k ==> #[trigger] aligned(s, l, sp, lp, k)
}

/// The strings have one length and differ at `i` and nowhere else.
spec fn differs_only_at(s: Seq<char>, l: Seq<char>, i: int) -> bool {
    &&& 0 <= i < s.len()
    &&& s[i] != l[i]
    &&& forall|j: int| 0 <= j < s.len() && j != i ==> s[j] == l[j]
}

/// `l` is `s` with one more character at `i`.
spec fn gap_at(s: Seq<char>, l: Seq<char>, i: int) -> bool {
    &&& 0 <= i < l.len()
    &&& forall|j: int| 0 <= j < i ==> s[j] == l[j]
    &&& forall|j: int| i <= j < s.len() ==> s[j] == l[j + 1]
}

/// Once every allowed edit is spent, the scan succeeds exactly when the rest
/// agrees.
proof fn lemma_scan_exhausted(s: Seq<char>, l: Seq<char>, sp: int, lp: int, n: int)
    requires
        0 <= sp <= s.len(),
        0 <= lp <= l.len(),
        0 <= n,
    ensures
        scan_from(s, l, sp, lp, n, n) == agree_from(s, l, sp, lp),
    decreases l.len() - lp,
{
    if sp < s.len() && lp < l.len() {
        if s[sp] != l[lp] {
            assert(!aligned(s, l, sp, lp, 0));
        } else {
            lemma_scan_exhausted(s, l, sp + 1, lp + 1, n);
            if agree_from(s, l, sp + 1, lp + 1) {
                assert forall|k: int| 0 <= k implies #[trigger] aligned(s, l, sp, lp, k) by {
                    if k > 0 {
                        assert(aligned(s, l, sp + 1, lp + 1, k - 1));
                    }
                }
            }
            if agree_from(s, l, sp, lp) {
                assert forall|k: int| 0 <= k implies #[trigger] aligned(
                    s,
                    l,
                    sp + 1,
                    lp + 1,
                    k,
                ) by {
                    assert(aligned(s, l, sp, lp, k + 1));
                }
            }
        }
    }
}

/// Strings of one length that agree from the start are equal.
proof fn lemma_agree_is_equal(a: Seq<char>, b: Seq<char>)
    requires
        a.len() == b.len(),
    ensures
        agree_from(a, b, 0, 0) == (a == b),
{
    if agree_from(a, b, 0, 0) {
        assert forall|j: int| 0 <= j < a.len() implies a[j] == b[j] by {
            assert(aligned(a, b, 0, 0, j));
        }
        assert(a =~= b);
    }
}

/// With one edit allowed and none spent, on strings of one length that agree
/// before `p`, the scan succeeds exactly when at most one place differs.
proof fn lemma_scan_same_length(s: Seq<char>, l: Seq<char>, p: int)
    requires
        s.len() == l.len(),
        0 <= p <= s.len(),
        forall|j: int| 0 <= j < p ==> s[j] == l[j],
    ensures
        scan_from(s, l, p, p, 0, 1) == (s == l || exists|i: int| differs_only_at(s, l, i)),
    decreases s.len() - p,
{
    if p == s.len() {
        assert(s =~= l);
    } else if s[p] == l[p] {
        lemma_scan_same_length(s, l, p + 1);
    } else {
        lemma_scan_exhausted(s, l, p + 1, p + 1, 1);
        if agree_from(s, l, p + 1, p + 1) {
            assert forall|j: int| 0 <= j < s.len() && j != p implies s[j] == l[j] by {
                if j > p {
                    assert(aligned(s, l, p + 1, p + 1, j - p - 1));
                }
            }
            assert(differs_only_at(s, l, p));
        }
        if exists|i: int| differs_only_at(s, l, i) {
            assert forall|k: int| 0 <= k implies #[trigger] aligned(s, l, p + 1, p + 1, k) by {}
        }
    }
}

/// With one edit allowed and none spent, where `l` is one longer than `s` and
/// they agree before `p`, the scan succeeds exactly when `l` is `s` with one
/// more character somewhere.
proof fn lemma_scan_one_longer(s: Seq<char>, l: Seq<char>, p: int)
    requires
        s.len() + 1 == l.len(),
        0 <= p <= s.len(),
        forall|j: int| 0 <= j < p ==> s[j] == l[j],
    ensures
        scan_from(s, l, p, p, 0, 1) == (exists|i: int| gap_at(s, l, i)),
    decreases s.len() - p,
{
    if p == s.len() {
        assert(gap_at(s, l, p));
    } else if s[p] == l[p] {
        lemma_scan_one_longer(s, l, p + 1);
    } else {
        lemma_scan_exhausted(s, l, p, p + 1, 1);
        if agree_from(s, l, p, p + 1) {
            assert forall|j: int| p <= j < s.len() implies s[j] == l[j + 1] by {
                assert(aligned(s, l, p, p + 1, j - p));
            }
            assert(gap_at(s, l, p));
        }
        if exists|i: int| gap_at(s, l, i) {
            assert forall|k: int| 0 <= k implies #[trigger] aligned(s, l, p, p + 1, k) by {}
        }
    }
}

/// A substitution, said place by place.
proof fn lemma_substitution_elementwise(a: Seq<char>, b: Seq<char>)
    requires
        a.len() == b.len(),
    ensures
        one_substitution(a, b) == (exists|i: int| differs_only_at(a, b, i)),
{
    if one_substitution(a, b) {
        let i = choose|i: int|
            0 <= i < a.len() && a[i] != b[i] && #[trigger] a.update(i, b[i]) == b;
        assert forall|j: int| 0 <= j < a.len() && j != i implies a[j] == b[j] by {}
        assert(differs_only_at(a, b, i));
    }
    if exists|i: int| differs_only_at(a, b, i) {
        let i = choose|i: int| differs_only_at(a, b, i);
        assert(a.update(i, b[i]) =~= b);
    }
}

/// An insertion, said place by place.
proof fn lemma_insertion_elementwise(a: Seq<char>, b: Seq<char>)
    requires
        a.len() + 1 == b.len(),
    ensures
        one_insertion(a, b) == (exists|i: int| gap_at(a, b, i)),
{
    if one_insertion(a, b) {
        let i = choose|i: int| 0 <= i < b.len() && #[trigger] b.remove(i) == a;
        b.remove_ensures(i);
        assert forall|j: int| 0 <= j < i implies a[j] == b[j] by {}
        assert forall|j: int| i <= j < a.len() implies a[j] == b[j + 1] by {}
        assert(gap_at(a, b, i));
    }
    if exists|i: int| gap_at(a, b, i) {
        let i = choose|i: int| gap_at(a, b, i);
        assert(b.remove(i) =~= a);
    }
}

} // verus!
