//! What a caller asks of a password, and how a request is made consistent.

use vstd::prelude::*;

use crate::pools::{CharKind, CountTypesUsed, LOWERCASE, NUMBERS, SPECIAL_CHARACTERS, UPPERCASE};

verus! {

/// The shortest password that is ever made.
pub const MIN_LENGTH: u16 = 10;

/// What a password is to look like.
#[derive(Debug, Clone, Copy, PartialEq, Eq, Structural)]
pub struct PasswordRequirements {
    /// The length of the password.
    pub length: u16,
    /// How many digits the password holds.
    pub numbers: u16,
    /// How many special characters the password holds.
    pub specials: u16,
    /// Whether the first character is always a letter.
    pub first_is_letter: bool,
}

/// The smaller of two integers.
pub open spec fn min_of(a: int, b: int) -> int {
    if a <= b {
        a
    } else {
        b
    }
}

/// The number that the low sixteen bits of `value` make: `value` itself from
/// 0 to 65535, and otherwise the number in that range that differs from it by
/// a multiple of 65536.
pub open spec fn low_bits(value: i32) -> u16 {
    (value as int % 0x1_0000) as u16
}

/// The low sixteen bits of `value`.
pub fn truncate(value: i32) -> (r: u16)
    ensures
        r == low_bits(value),
        0 <= value <= u16::MAX ==> r == value,
{
    assert(value as u16 == (value as int % 0x1_0000) as u16) by (bit_vector);
    #[verifier::truncate]
    (value as u16)
}

impl PasswordRequirements {
    /// The longest password that can be made for these requirements without
    /// using a character twice: all letters, the digits if any digit is asked
    /// for, and the special characters if any of them is asked for.
    pub open spec fn max_length(self) -> int {
        UPPERCASE@.len() + LOWERCASE@.len() + (if self.specials > 0 {
            SPECIAL_CHARACTERS@.len() as int
        } else {
            0
        }) + (if self.numbers > 0 {
            NUMBERS@.len() as int
        } else {
            0
        })
    }

    /// The length that `validate` settles on: the requested one, raised to
    /// `MIN_LENGTH` and lowered to `max_length`.
    pub open spec fn valid_length(self) -> int {
        if self.length < MIN_LENGTH {
            MIN_LENGTH as int
        } else {
            min_of(self.length as int, self.max_length())
        }
    }

    /// The digits that `validate` grants. Two places are kept for letters and a
    /// third is kept free of digits, whatever is asked for.
    pub open spec fn valid_numbers(self) -> int {
        min_of(self.numbers as int, self.valid_length() - 3)
    }

    /// The special characters that `validate` grants: what the digits and the
    /// two letters leave.
    pub open spec fn valid_specials(self) -> int {
        min_of(self.specials as int, self.valid_length() - 2 - self.valid_numbers())
    }

    /// The requirements that `validate` returns for `self`.
    pub open spec fn validated(self) -> PasswordRequirements {
        PasswordRequirements {
            length: self.valid_length() as u16,
            numbers: self.valid_numbers() as u16,
            specials: self.valid_specials() as u16,
            first_is_letter: self.first_is_letter,
        }
    }

    /// Requirements are consistent when the password has at least `MIN_LENGTH`
    /// characters and the digits and special characters leave room for two
    /// letters.
    pub open spec fn is_consistent(self) -> bool {
        &&& MIN_LENGTH <= self.length
        &&& self.numbers + self.specials <= self.length - 2
    }

    /// Requirements from values that may be missing or out of range, as they
    /// come from callers in other languages. A missing value stands for its
    /// default: 16, 1, 1 and `true`. Of a number only the low sixteen bits
    /// count, so a number from 0 to 65535 is taken as it is.
    pub fn new(
        length: Option<i32>,
        numbers: Option<i32>,
        specials: Option<i32>,
        first_is_letter: Option<bool>,
    ) -> (r: Self)
        ensures
            r.length == low_bits(length.unwrap_or(16)),
            r.numbers == low_bits(numbers.unwrap_or(1)),
            r.specials == low_bits(specials.unwrap_or(1)),
            r.first_is_letter == first_is_letter.unwrap_or(true),
    {
        PasswordRequirements {
            length: truncate(length.unwrap_or(16)),
            numbers: truncate(numbers.unwrap_or(1)),
            specials: truncate(specials.unwrap_or(1)),
            first_is_letter: first_is_letter.unwrap_or(true),
        }
    }

    /// How many letters the password holds: what the digits and the special
    /// characters leave of its length.
    pub open spec fn letters(self) -> int {
        self.length - self.numbers - self.specials
    }

    /// How many characters of `kind` the password holds. The letters are split
    /// as evenly as can be between the two cases; of an odd number of them the
    /// uppercase letters get one more.
    pub open spec fn target(self, kind: CharKind) -> int {
        match kind {
            CharKind::Uppercase => self.letters() - self.letters() / 2,
            CharKind::Lowercase => self.letters() / 2,
            CharKind::Number => self.numbers as int,
            CharKind::Special => self.specials as int,
        }
    }

    /// Whether every pool holds as many characters as the password is to have
    /// of its kind, so that no character need stand twice.
    pub open spec fn spec_fits_pools(&self) -> bool {
        &&& self.target(CharKind::Uppercase) <= CharKind::Uppercase.pool().len()
        &&& self.target(CharKind::Lowercase) <= CharKind::Lowercase.pool().len()
        &&& self.target(CharKind::Number) <= CharKind::Number.pool().len()
        &&& self.target(CharKind::Special) <= CharKind::Special.pool().len()
    }

    /// How many characters of each kind the password holds.
    pub fn max_types(&self) -> (max: CountTypesUsed)
        requires
            self.is_consistent(),
        ensures
            forall|kind: CharKind| max.of(kind) == self.target(kind),
            max.total() == self.length,
    {
        let max_letters: u16 = self.length - self.numbers - self.specials;
        let max_lowercase: u16 = max_letters / 2;
        let max_uppercase: u16 = max_letters - max_lowercase;
        CountTypesUsed {
            uppercase: max_uppercase,
            lowercase: max_lowercase,
            number: self.numbers,
            special: self.specials,
        }
    }

    /// Whether every pool holds as many characters as the password is to have
    /// of its kind.
    #[verifier::when_used_as_spec(spec_fits_pools)]
    pub fn fits_pools(&self) -> (fits: bool)
        requires
            self.is_consistent(),
        ensures
            fits == self.spec_fits_pools(),
    {
        let max = self.max_types();
        max.uppercase as usize <= UPPERCASE.len() && max.lowercase as usize <= LOWERCASE.len()
            && max.number as usize <= NUMBERS.len() && max.special as usize
            <= SPECIAL_CHARACTERS.len()
    }

    /// Makes the requirements consistent.
    ///
    /// The length is brought into the range from `MIN_LENGTH` to `max_length`.
    /// Of the places that the two letters leave, the digits are served first,
    /// up to one place short of all of them; the special characters get what
    /// remains. So where both are asked for in excess, the digits win. The
    /// result is validated: validating it again changes nothing.
    pub fn validate(&self) -> (r: Self)
        ensures
            r == self.validated(),
            MIN_LENGTH <= r.length <= self.max_length(),
            r.numbers + r.specials <= r.length - 2,
            r.numbers <= self.numbers,
            r.specials <= self.specials,
            r.first_is_letter == self.first_is_letter,
            r.is_consistent(),
            r.validated() == r,
    {
        let mut max_len: u16 = UPPERCASE.len() as u16 + LOWERCASE.len() as u16;
        if self.specials > 0 {
            max_len = max_len + SPECIAL_CHARACTERS.len() as u16;
        }
        if self.numbers > 0 {
            max_len = max_len + NUMBERS.len() as u16;
        }
        let len: u16 = if self.length < MIN_LENGTH {
            MIN_LENGTH
        } else if self.length > max_len {
            max_len
        } else {
            self.length
        };
        let non_letter_max_len: u16 = len - 2;
        let reserved: u16 = if self.numbers < non_letter_max_len - 1 {
            self.numbers
        } else {
            non_letter_max_len - 1
        };
        let max_special: u16 = non_letter_max_len - reserved;
        let max_numbers: u16 = non_letter_max_len - max_special;
        let r = PasswordRequirements {
            length: len,
            numbers: if self.numbers < max_numbers {
                self.numbers
            } else {
                max_numbers
            },
            specials: if self.specials < max_special {
                self.specials
            } else {
                max_special
            },
            first_is_letter: self.first_is_letter,
        };
        proof {
            lemma_validate_idempotent(*self);
        }
        r
    }
}

impl Default for PasswordRequirements {
    /// Sixteen characters with one digit and one special character, the first
    /// of them a letter.
    fn default() -> (r: Self)
        ensures
            r == (PasswordRequirements {
                length: 16,
                numbers: 1,
                specials: 1,
                first_is_letter: true,
            }),
    {
        PasswordRequirements { length: 16, numbers: 1, specials: 1, first_is_letter: true }
    }
}

/// Validating is idempotent: validated requirements are left as they are.
pub proof fn lemma_validate_idempotent(r: PasswordRequirements)
    ensures
        r.validated().validated() == r.validated(),
{
    let v = r.validated();
    assert(v.max_length() == r.max_length());
    assert(v.valid_length() == r.valid_length());
    assert(v.valid_numbers() == r.valid_numbers());
}

/// The validated length lies between `MIN_LENGTH` and the longest password
/// that the requested classes allow.
pub proof fn lemma_validated_length_in_range(r: PasswordRequirements)
    ensures
        MIN_LENGTH <= r.validated().length <= r.max_length(),
{
}

/// Validated requirements always leave two places for letters.
pub proof fn lemma_validated_leaves_two_letters(r: PasswordRequirements)
    ensures
        r.validated().numbers + r.validated().specials <= r.validated().length - 2,
        r.validated().is_consistent(),
{
}

/// Digits take precedence over special characters. The digits granted do not
/// depend on how many special characters are asked for beyond whether any is,
/// and a second special character is granted only where every requested digit
/// was. In particular, where as many digits and special characters are asked
/// for as the password is long, and that is seven or more, the digits fill all
/// but three places and one special character is left.
pub proof fn lemma_numbers_take_precedence(r: PasswordRequirements)
    ensures
        r.validated().numbers == min_of(r.numbers as int, r.validated().length - 3),
        r.validated().specials > 1 ==> r.validated().numbers == r.numbers,
        r.numbers >= r.validated().length - 3 ==> {
            &&& r.validated().numbers == r.validated().length - 3
            &&& r.validated().specials == min_of(r.specials as int, 1)
        },
        r.numbers == r.length && r.specials == r.length && r.length >= 7 ==> {
            &&& r.validated().numbers == r.validated().length - 3
            &&& r.validated().specials == 1
        },
{
}

} // verus!
