//! The checksum scheme of identity numbers, as spec functions over
//! characters, together with the executable computation of the check letter.
use vstd::prelude::*;

verus! {

/// The four letters an identity number may start with.
pub open spec fn is_classification_letter(c: char) -> bool {
    c == 'S' || c == 'T' || c == 'F' || c == 'G'
}

pub open spec fn is_decimal_digit(c: char) -> bool {
    '0' <= c && c <= '9'
}

pub open spec fn digit_value(c: char) -> int {
    c as int - '0' as int
}

/// Seven decimal digit characters.
pub open spec fn is_digit_block(ds: Seq<char>) -> bool {
    ds.len() == 7 && forall|i: int| 0 <= i < 7 ==> #[trigger] is_decimal_digit(ds[i])
}

/// The weight of each of the seven digit positions.
pub open spec fn weights() -> Seq<int> {
    seq![2, 7, 6, 5, 4, 3, 2]
}

/// Weighted sum of the first `n` digits of `ds`.
pub open spec fn weighted_sum(ds: Seq<char>, n: int) -> int
    decreases n,
{
    if n <= 0 {
        0
    } else {
        weighted_sum(ds, n - 1) + weights()[n - 1] * digit_value(ds[n - 1])
    }
}

/// Check letters for numbers starting with S or T, by remainder.
pub open spec fn st_table() -> Seq<char> {
    seq!['J', 'Z', 'I', 'H', 'G', 'F', 'E', 'D', 'C', 'B', 'A']
}

/// Check letters for numbers starting with F or G, by remainder.
pub open spec fn fg_table() -> Seq<char> {
    seq!['X', 'W', 'U', 'T', 'R', 'Q', 'P', 'N', 'M', 'L', 'K']
}

pub open spec fn uses_st_table(first: char) -> bool {
    first == 'S' || first == 'T'
}

pub open spec fn offset(first: char) -> int {
    if uses_st_table(first) { 0 } else { 4 }
}

pub open spec fn remainder(first: char, ds: Seq<char>) -> int {
    (weighted_sum(ds, 7) + offset(first)) % 11
}

/// The check letter of a number whose classification letter is `first` and
/// whose digits are `ds`.
pub open spec fn check_letter(first: char, ds: Seq<char>) -> char {
    if uses_st_table(first) {
        st_table()[remainder(first, ds)]
    } else {
        fg_table()[remainder(first, ds)]
    }
}

/// A well-formed identity number: nine characters, a classification letter,
/// seven digits and the matching check letter.
pub open spec fn is_valid_number(s: Seq<char>) -> bool {
    &&& s.len() == 9
    &&& is_classification_letter(s[0])
    &&& is_digit_block(s.subrange(1, 8))
    &&& s[8] == check_letter(s[0], s.subrange(1, 8))
}

proof fn lemma_weighted_sum_bounds(ds: Seq<char>, n: int)
    requires
        0 <= n <= 7,
        ds.len() >= n,
        forall|i: int| 0 <= i < n ==> #[trigger] is_decimal_digit(ds[i]),
    ensures
        0 <= weighted_sum(ds, n) <= 63 * n,
    decreases n,
{
    if n > 0 {
        lemma_weighted_sum_bounds(ds, n - 1);
        let d = digit_value(ds[n - 1]);
        let w = weights()[n - 1];
        assert(is_decimal_digit(ds[n - 1]));
        assert(2 <= w <= 7);
        assert(0 <= w * d <= 63) by (nonlinear_arith)
            requires
                0 <= d <= 9,
                2 <= w <= 7,
        ;
    }
}

/// The check letter is a function of the classification letter and the
/// digits alone: equal arguments give equal letters.
pub proof fn lemma_check_letter_deterministic(
    first1: char,
    ds1: Seq<char>,
    first2: char,
    ds2: Seq<char>,
)
    requires
        first1 == first2,
        ds1 == ds2,
    ensures
        check_letter(first1, ds1) == check_letter(first2, ds2),
{
}

proof fn lemma_weighted_sum_update(ds: Seq<char>, i: int, c: char, n: int)
    requires
        ds.len() == 7,
        0 <= i < 7,
        0 <= n <= 7,
    ensures
        weighted_sum(ds.update(i, c), n) == weighted_sum(ds, n) + if i < n {
            weights()[i] * (digit_value(c) - digit_value(ds[i]))
        } else {
            0
        },
    decreases n,
{
    if n > 0 {
        lemma_weighted_sum_update(ds, i, c, n - 1);
        if i == n - 1 {
            assert(weights()[i] * digit_value(c) - weights()[i] * digit_value(ds[i])
                == weights()[i] * (digit_value(c) - digit_value(ds[i]))) by (nonlinear_arith);
        }
    }
}

proof fn lemma_table_letters_distinct(r1: int, r2: int)
    requires
        0 <= r1 < 11,
        0 <= r2 < 11,
        r1 != r2,
    ensures
        st_table()[r1] != st_table()[r2],
        fg_table()[r1] != fg_table()[r2],
{
}

/// Replacing any one of the seven digits by a different digit changes the
/// check letter.
pub proof fn lemma_digit_change_changes_check_letter(first: char, ds: Seq<char>, i: int, c: char)
    requires
        is_classification_letter(first),
        is_digit_block(ds),
        0 <= i < 7,
        is_decimal_digit(c),
        c != ds[i],
    ensures
        check_letter(first, ds.update(i, c)) != check_letter(first, ds),
{
    let ds2 = ds.update(i, c);
    lemma_weighted_sum_update(ds, i, c, 7);
    let w = weights()[i];
    let delta = digit_value(c) - digit_value(ds[i]);
    assert(is_decimal_digit(ds[i]));
    let a = weighted_sum(ds, 7) + offset(first);
    let b = weighted_sum(ds2, 7) + offset(first);
    assert(b == a + w * delta);
    if a % 11 == b % 11 {
        vstd::arithmetic::div_mod::lemma_fundamental_div_mod(a, 11);
        vstd::arithmetic::div_mod::lemma_fundamental_div_mod(b, 11);
        let k = b / 11 - a / 11;
        assert(w * delta == 11 * k) by (nonlinear_arith)
            requires
                a == 11 * (a / 11) + a % 11,
                b == 11 * (b / 11) + b % 11,
                a % 11 == b % 11,
                b == a + w * delta,
                k == b / 11 - a / 11,
        ;
        assert(-9 <= delta <= 9 && delta != 0);
        assert(w == 2 || w == 3 || w == 4 || w == 5 || w == 6 || w == 7);
        if w == 2 {
            assert(2 * delta != 11 * k);
        } else if w == 3 {
            assert(3 * delta != 11 * k);
        } else if w == 4 {
            assert(4 * delta != 11 * k);
        } else if w == 5 {
            assert(5 * delta != 11 * k);
        } else if w == 6 {
            assert(6 * delta != 11 * k);
        } else {
            assert(7 * delta != 11 * k);
        }
    }
    vstd::arithmetic::div_mod::lemma_mod_bound(a, 11);
    vstd::arithmetic::div_mod::lemma_mod_bound(b, 11);
    lemma_table_letters_distinct(a % 11, b % 11);
}

/// In a valid identity number, replacing any one of the seven digits by a
/// different digit gives a number that is not valid.
pub proof fn lemma_digit_change_invalidates(s: Seq<char>, i: int, c: char)
    requires
        is_valid_number(s),
        1 <= i <= 7,
        is_decimal_digit(c),
        c != s[i],
    ensures
        !is_valid_number(s.update(i, c)),
{
    let ds = s.subrange(1, 8);
    assert(s.update(i, c).subrange(1, 8) =~= ds.update(i - 1, c));
    lemma_digit_change_changes_check_letter(s[0], ds, i - 1, c);
}

/// Computes the check letter of the seven digits of `s` that start at `start`.
pub(crate) fn check_letter_at(first: char, s: &str, start: usize) -> (r: char)
    requires
        is_classification_letter(first),
        start + 7 <= s@.len(),
        start + 7 <= usize::MAX,
        is_digit_block(s@.subrange(start as int, start + 7)),
    ensures
        r == check_letter(first, s@.subrange(start as int, start + 7)),
{
    let ghost ds = s@.subrange(start as int, start + 7);
    let weights_exec: [u32; 7] = [2, 7, 6, 5, 4, 3, 2];
    assert(forall|k: int| 0 <= k < 7 ==> weights_exec@[k] as int == #[trigger] weights()[k]);
    let mut sum: u32 = 0;
    let mut i: usize = 0;
    while i < 7
        invariant
            0 <= i <= 7,
            start + 7 <= s@.len(),
            start + 7 <= usize::MAX,
            ds == s@.subrange(start as int, start + 7),
            is_digit_block(ds),
            forall|k: int| 0 <= k < 7 ==> weights_exec@[k] as int == #[trigger] weights()[k],
            sum == weighted_sum(ds, i as int),
            sum <= 63 * i,
        decreases 7 - i,
    {
        let c = s.get_char(start + i);
        assert(c == ds[i as int]);
        assert(is_decimal_digit(ds[i as int]));
        let d: u32 = (c as u32) - ('0' as u32);
        proof {
            lemma_weighted_sum_bounds(ds, i as int + 1);
        }
        sum = sum + weights_exec[i] * d;
        i = i + 1;
    }
    let st_map: [char; 11] = ['J', 'Z', 'I', 'H', 'G', 'F', 'E', 'D', 'C', 'B', 'A'];
    let fg_map: [char; 11] = ['X', 'W', 'U', 'T', 'R', 'Q', 'P', 'N', 'M', 'L', 'K'];
    assert(st_map@ == st_table());
    assert(fg_map@ == fg_table());
    if first == 'S' || first == 'T' {
        st_map[(sum % 11) as usize]
    } else {
        fg_map[((sum + 4) % 11) as usize]
    }
}

} // verus!
