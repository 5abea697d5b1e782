//! Identity numbers: generation from a date of birth and a residency status,
//! and validation of candidate strings.
use crate::birth_date::BirthDate;
use crate::checksum::{
    check_letter, check_letter_at, is_classification_letter, is_decimal_digit, is_digit_block,
    is_valid_number,
};
use rand::Rng;
use vstd::prelude::*;

verus! {

/// The first year that falls in the later of the two birth-year eras.
pub const ERA_START_YEAR: i32 = 2000;

/// The classification letter for a birth year and a residency status.
pub open spec fn classification_of(year: int, is_citizen: bool) -> char {
    if is_citizen {
        if year >= ERA_START_YEAR { 'T' } else { 'S' }
    } else {
        if year >= ERA_START_YEAR { 'G' } else { 'F' }
    }
}

pub open spec fn digit_char(d: u8) -> char {
    (d + '0' as int) as char
}

/// The seven digit values are all below ten.
pub open spec fn are_decimal_digits(digits: Seq<u8>) -> bool {
    digits.len() == 7 && forall|i: int| 0 <= i < 7 ==> #[trigger] digits[i] < 10
}

pub open spec fn digit_chars(digits: Seq<u8>) -> Seq<char> {
    digits.map_values(|d: u8| digit_char(d))
}

/// The number made of the classification letter, the digits and the check
/// letter.
pub open spec fn number_for(year: int, is_citizen: bool, digits: Seq<u8>) -> Seq<char> {
    let first = classification_of(year, is_citizen);
    let ds = digit_chars(digits);
    seq![first] + ds + seq![check_letter(first, ds)]
}

proof fn lemma_digit_chars_are_digits(digits: Seq<u8>)
    requires
        are_decimal_digits(digits),
    ensures
        is_digit_block(digit_chars(digits)),
{
    let ds = digit_chars(digits);
    assert forall|i: int| 0 <= i < 7 implies #[trigger] is_decimal_digit(ds[i]) by {
        assert(digits[i] < 10);
    }
}

/// Every number built from a birth year, a residency status and seven decimal
/// digits is a valid identity number: what generation produces, validation
/// accepts.
pub proof fn lemma_generated_number_is_valid(year: int, is_citizen: bool, digits: Seq<u8>)
    requires
        are_decimal_digits(digits),
    ensures
        is_valid_number(number_for(year, is_citizen, digits)),
{
    let ds = digit_chars(digits);
    lemma_digit_chars_are_digits(digits);
    assert(number_for(year, is_citizen, digits).subrange(1, 8) =~= ds);
}

/// Relies on rand's `thread_rng` and `Rng::gen_range`: a value drawn from the
/// half-open range `0..10`. `gen_range` panics only on an empty range;
/// `thread_rng` panics only where the operating system gives no entropy.
#[verifier::external_body]
fn random_digit() -> (r: u8)
    ensures
        r < 10,
{
    rand::thread_rng().gen_range(0..10u8)
}

/// Relies on `String::push`: appends the character to the end.
#[verifier::external_body]
fn push_char(s: &mut String, c: char)
    ensures
        final(s)@ == old(s)@.push(c),
{
    s.push(c)
}

/// The classification letter for a birth year and a residency status.
pub fn classification_letter(year: i32, is_citizen: bool) -> (r: char)
    ensures
        r == classification_of(year as int, is_citizen),
{
    if is_citizen {
        if year >= ERA_START_YEAR { 'T' } else { 'S' }
    } else {
        if year >= ERA_START_YEAR { 'G' } else { 'F' }
    }
}

/// An identity number: always well formed.
pub struct NRIC {
    number: String,
}

impl View for NRIC {
    type V = Seq<char>;

    closed spec fn view(&self) -> Seq<char> {
        self.number@
    }
}

impl NRIC {
    #[verifier::type_invariant]
    spec fn inv(&self) -> bool {
        is_valid_number(self.number@)
    }

    /// The number of a person born on `birth_date`, with seven digits drawn at
    /// random.
    pub fn generate(birth_date: BirthDate, is_citizen: bool) -> (r: NRIC)
        ensures
            r@.len() == 9,
            r@[0] == classification_of(birth_date@.0, is_citizen),
            is_digit_block(r@.subrange(1, 8)),
            r@[8] == check_letter(r@[0], r@.subrange(1, 8)),
            is_valid_number(r@),
    {
        let mut digits: [u8; 7] = [0; 7];
        let mut i: usize = 0;
        while i < 7
            invariant
                0 <= i <= 7,
                forall|k: int| 0 <= k < i ==> #[trigger] digits@[k] < 10,
            decreases 7 - i,
        {
            digits[i] = random_digit();
            i = i + 1;
        }
        let r = Self::generate_with_digits(birth_date, is_citizen, digits);
        proof {
            use_type_invariant(&r);
        }
        r
    }

    /// The number of a person born on `birth_date` with the given seven digits.
    pub fn generate_with_digits(birth_date: BirthDate, is_citizen: bool, digits: [u8; 7]) -> (r:
        NRIC)
        requires
            are_decimal_digits(digits@),
        ensures
            r@ == number_for(birth_date@.0, is_citizen, digits@),
    {
        let first = classification_letter(birth_date.year(), is_citizen);
        let mut number = String::new();
        push_char(&mut number, first);
        let mut i: usize = 0;
        while i < 7
            invariant
                0 <= i <= 7,
                are_decimal_digits(digits@),
                number@ == seq![first] + digit_chars(digits@).subrange(0, i as int),
            decreases 7 - i,
        {
            assert(digits@[i as int] < 10);
            let c = (digits[i] + ('0' as u8)) as char;
            proof {
                assert(digit_chars(digits@).subrange(0, i + 1) =~= digit_chars(digits@).subrange(
                    0,
                    i as int,
                ).push(c));
            }
            push_char(&mut number, c);
            i = i + 1;
        }
        proof {
            lemma_digit_chars_are_digits(digits@);
            lemma_generated_number_is_valid(birth_date@.0, is_citizen, digits@);
            assert(number@.subrange(1, 8) =~= digit_chars(digits@));
        }
        let check = check_letter_at(first, number.as_str(), 1);
        push_char(&mut number, check);
        assert(number@ =~= number_for(birth_date@.0, is_citizen, digits@));
        NRIC { number }
    }

    /// The check letter of a number whose classification letter is `first`
    /// and whose seven digits are `digits`.
    pub fn calculate_checksum(first: char, digits: &str) -> (r: char)
        requires
            is_classification_letter(first),
            is_digit_block(digits@),
        ensures
            r == check_letter(first, digits@),
    {
        assert(digits@.subrange(0, 7) =~= digits@);
        check_letter_at(first, digits, 0)
    }

    /// Whether `nric` is a well-formed identity number: nine characters, a
    /// classification letter, seven decimal digits, and the check letter that
    /// those determine.
    pub fn is_valid(nric: &str) -> (r: bool)
        ensures
            r == is_valid_number(nric@),
    {
        if nric.unicode_len() != 9 {
            return false;
        }
        let first = nric.get_char(0);
        if !(first == 'S' || first == 'T' || first == 'F' || first == 'G') {
            return false;
        }
        let ghost ds = nric@.subrange(1, 8);
        let mut i: usize = 1;
        while i < 8
            invariant
                1 <= i <= 8,
                nric@.len() == 9,
                ds == nric@.subrange(1, 8),
                forall|k: int| 0 <= k < i - 1 ==> #[trigger] is_decimal_digit(ds[k]),
            decreases 8 - i,
        {
            let c = nric.get_char(i);
            if !('0' <= c && c <= '9') {
                assert(!is_decimal_digit(ds[i - 1]));
                return false;
            }
            i = i + 1;
        }
        let expected = check_letter_at(first, nric, 1);
        nric.get_char(8) == expected
    }

    /// The number as text.
    pub fn get_number(&self) -> (r: &str)
        ensures
            r@ == self@,
            is_valid_number(r@),
    {
        proof {
            use_type_invariant(self);
        }
        self.number.as_str()
    }
}

} // verus!
