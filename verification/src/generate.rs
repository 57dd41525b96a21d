//! Drawing a password that meets consistent requirements.
//!
//! A [`Draft`] is a password in the making. Every character that goes into it
//! is chosen by three numbers: which of the kinds still wanted, which of that
//! kind's characters not yet used, and which of the empty places. [`Draft::put`]
//! says exactly what a draft becomes for given numbers; [`generate`] draws the
//! numbers at random, so what it promises holds whatever is drawn.

use rand::rngs::StdRng;
use vstd::prelude::*;

use crate::config::PasswordRequirements;
use crate::pools::{
    count_of, count_of_all, is_letter, is_pool_char, lemma_counts_cover, lemma_pool_contents,
    lemma_pool_no_duplicates, lemma_pools_disjoint, lemma_without, without, CharKind,
    CountTypesUsed,
};
use crate::random::{random_below, seeded_from_thread};
use crate::text::string_of;

verus! {

/// What stands in a place of a draft that holds no character yet. It belongs
/// to no pool.
pub const EMPTY: char = '\n';

/// Why no password was made.
#[derive(Debug, Clone, Copy, PartialEq, Eq, Structural)]
pub enum GenerateError {
    /// More characters of one kind are asked for than its pool holds, so one
    /// of them would have to stand twice.
    PoolExhausted,
}

/// Whether `password` is what `req` asks for: of the right length, with the
/// right number of characters of each kind, none of them twice, and a letter
/// in front where that is asked for.
pub open spec fn satisfies(password: Seq<char>, req: PasswordRequirements) -> bool {
    &&& password.len() == req.length
    &&& count_of(password, CharKind::Number) == req.numbers
    &&& count_of(password, CharKind::Special) == req.specials
    &&& count_of(password, CharKind::Lowercase) == req.target(CharKind::Lowercase)
    &&& count_of(password, CharKind::Uppercase) == req.target(CharKind::Uppercase)
    &&& password.no_duplicates()
    &&& req.first_is_letter ==> is_letter(password[0])
}

/// The letters of a password are split as evenly as can be: there are as many
/// uppercase as lowercase letters, or one more. Each kind of letter has at
/// least one, and the four kinds together fill the password.
pub proof fn lemma_letters_split_evenly(req: PasswordRequirements)
    requires
        req.is_consistent(),
    ensures
        req.target(CharKind::Uppercase) + req.target(CharKind::Lowercase) == req.letters(),
        1 <= req.target(CharKind::Lowercase) <= req.target(CharKind::Uppercase)
            <= req.target(CharKind::Lowercase) + 1,
        req.target(CharKind::Uppercase) + req.target(CharKind::Lowercase) + req.target(
            CharKind::Number,
        ) + req.target(CharKind::Special) == req.length,
{
}

/// A password that satisfies consistent requirements holds characters of the
/// pools only.
pub proof fn lemma_satisfying_is_of_the_pools(password: Seq<char>, req: PasswordRequirements)
    requires
        req.is_consistent(),
        satisfies(password, req),
    ensures
        forall|i: int| 0 <= i < password.len() ==> is_pool_char(password[i]),
        req.numbers == 0 && req.specials == 0 ==> forall|i: int|
            0 <= i < password.len() ==> is_letter(password[i]),
{
    lemma_letters_split_evenly(req);
    lemma_counts_cover(password);
    assert(count_of_all(password) == password.len());
    if req.numbers == 0 && req.specials == 0 {
        assert forall|i: int| 0 <= i < password.len() implies is_letter(password[i]) by {
            assert(is_pool_char(password[i]));
            if !is_letter(password[i]) {
                let kind = if CharKind::Number.holds(password[i]) {
                    CharKind::Number
                } else {
                    CharKind::Special
                };
                lemma_count_of_positive(password, kind, i);
            }
        }
    }
}

/// A sequence that holds a character of `kind` counts at least one of them.
pub proof fn lemma_count_of_positive(s: Seq<char>, kind: CharKind, i: int)
    requires
        0 <= i < s.len(),
        kind.holds(s[i]),
    ensures
        count_of(s, kind) > 0,
    decreases s.len(),
{
    if i < s.len() - 1 {
        lemma_count_of_positive(s.drop_last(), kind, i);
    }
}

/// The characters of each pool that a draft does not hold yet.
pub struct Unused {
    pub uppercase: Vec<char>,
    pub lowercase: Vec<char>,
    pub number: Vec<char>,
    pub special: Vec<char>,
}

impl Unused {
    /// The characters of `kind` not yet used, in the order in which they are
    /// numbered for the next draw.
    pub open spec fn of(self, kind: CharKind) -> Seq<char> {
        match kind {
            CharKind::Uppercase => self.uppercase@,
            CharKind::Lowercase => self.lowercase@,
            CharKind::Number => self.number@,
            CharKind::Special => self.special@,
        }
    }

    /// All characters of all pools.
    pub fn new() -> (all: Self)
        ensures
            forall|kind: CharKind| all.of(kind) == kind.pool(),
    {
        Unused {
            uppercase: pool_vec(CharKind::Uppercase),
            lowercase: pool_vec(CharKind::Lowercase),
            number: pool_vec(CharKind::Number),
            special: pool_vec(CharKind::Special),
        }
    }

    /// How many characters of `kind` are not yet used.
    pub fn len_of(&self, kind: CharKind) -> (n: usize)
        ensures
            n == self.of(kind).len(),
    {
        match kind {
            CharKind::Uppercase => self.uppercase.len(),
            CharKind::Lowercase => self.lowercase.len(),
            CharKind::Number => self.number.len(),
            CharKind::Special => self.special.len(),
        }
    }

    /// Takes out the character numbered `index` among those of `kind`.
    pub fn take(&mut self, kind: CharKind, index: usize) -> (c: char)
        requires
            index < old(self).of(kind).len(),
        ensures
            c == old(self).of(kind)[index as int],
            final(self).of(kind) == old(self).of(kind).remove(index as int),
            forall|k: CharKind| k != kind ==> final(self).of(k) == old(self).of(k),
    {
        match kind {
            CharKind::Uppercase => self.uppercase.remove(index),
            CharKind::Lowercase => self.lowercase.remove(index),
            CharKind::Number => self.number.remove(index),
            CharKind::Special => self.special.remove(index),
        }
    }
}

/// A password in the making.
///
/// `pass_chars` has the password's length from the start; a place that holds
/// no character yet holds `EMPTY`, and `positions` lists those places.
pub struct Draft {
    /// The characters placed so far, each at its place.
    pub pass_chars: Vec<char>,
    /// The places that are still empty.
    pub positions: Vec<usize>,
    /// The kinds of which the password wants more characters.
    pub available_types: Vec<CharKind>,
    /// How many characters of each kind are placed.
    pub used_types: CountTypesUsed,
    /// How many characters of each kind the password is to hold.
    pub max_types: CountTypesUsed,
    /// The characters that are not placed yet.
    pub unused: Unused,
}

impl Draft {
    /// What holds of one kind in a well-formed draft: its count is right and
    /// within its target, it is available as long as the target is not met,
    /// and its unused characters are those of its pool that are not placed.
    pub open spec fn kind_wf(self, kind: CharKind) -> bool {
        &&& count_of(self.pass_chars@, kind) == self.used_types.of(kind)
        &&& self.used_types.of(kind) <= self.max_types.of(kind) <= kind.pool().len()
        &&& self.available_types@.contains(kind) <==> self.used_types.of(kind)
            < self.max_types.of(kind)
        &&& self.unused.of(kind).len() + self.used_types.of(kind) == kind.pool().len()
        &&& self.unused.of(kind).no_duplicates()
        &&& forall|j: int|
            0 <= j < self.unused.of(kind).len() ==> kind.holds(#[trigger] self.unused.of(kind)[j])
                && !self.pass_chars@.contains(self.unused.of(kind)[j])
    }

    /// The invariant of a draft.
    pub open spec fn wf(self) -> bool {
        &&& self.pass_chars.len() <= u16::MAX
        &&& self.positions@.no_duplicates()
        &&& forall|j: int|
            0 <= j < self.positions.len() ==> (#[trigger] self.positions@[j])
                < self.pass_chars.len() && self.pass_chars@[self.positions@[j] as int] == EMPTY
        &&& forall|i: int|
            0 <= i < self.pass_chars.len() && #[trigger] self.pass_chars@[i] == EMPTY
                ==> self.positions@.contains(i as usize)
        &&& forall|i: int, j: int|
            0 <= i < self.pass_chars.len() && 0 <= j < self.pass_chars.len() && i != j
                && self.pass_chars@[i] != EMPTY ==> self.pass_chars@[i] != self.pass_chars@[j]
        &&& self.available_types@.no_duplicates()
        &&& self.max_types.total() - self.used_types.total() == self.positions.len()
        &&& self.kind_wf(CharKind::Uppercase)
        &&& self.kind_wf(CharKind::Lowercase)
        &&& self.kind_wf(CharKind::Number)
        &&& self.kind_wf(CharKind::Special)
    }

    /// The empty draft of a password for `config`: every place is empty, no
    /// character is used, and the kinds wanted are the two kinds of letters,
    /// then the special characters and then the digits where any is asked for.
    pub fn new(config: &PasswordRequirements) -> (draft: Self)
        requires
            config.is_consistent(),
            config.fits_pools(),
        ensures
            draft.wf(),
            draft.pass_chars@ == Seq::new(config.length as nat, |i: int| EMPTY),
            draft.positions@ == Seq::new(config.length as nat, |i: int| i as usize),
            draft.available_types@ == seq![CharKind::Uppercase, CharKind::Lowercase] + (
            if config.specials > 0 {
                seq![CharKind::Special]
            } else {
                seq![]
            }) + (if config.numbers > 0 {
                seq![CharKind::Number]
            } else {
                seq![]
            }),
            draft.used_types.total() == 0,
            forall|kind: CharKind| draft.max_types.of(kind) == config.target(kind),
            forall|kind: CharKind| draft.unused.of(kind) == kind.pool(),
    {
        let len = config.length as usize;
        let mut available_types: Vec<CharKind> = Vec::new();
        available_types.push(CharKind::Uppercase);
        available_types.push(CharKind::Lowercase);
        if config.specials > 0 {
            available_types.push(CharKind::Special);
        }
        if config.numbers > 0 {
            available_types.push(CharKind::Number);
        }
        let pass_chars = vec![EMPTY; len];
        let mut positions: Vec<usize> = Vec::new();
        let mut i: usize = 0;
        while i < len
            invariant
                i <= len,
                positions@ == Seq::new(i as nat, |k: int| k as usize),
            decreases len - i,
        {
            positions.push(i);
            proof {
                assert(positions@ =~= Seq::new((i + 1) as nat, |k: int| k as usize));
            }
            i = i + 1;
        }
        let draft = Draft {
            pass_chars,
            positions,
            available_types,
            used_types: CountTypesUsed::default(),
            max_types: config.max_types(),
            unused: Unused::new(),
        };
        proof {
            assert(draft.pass_chars@ =~= Seq::new(config.length as nat, |i: int| EMPTY));
            assert(draft.available_types@ =~= seq![CharKind::Uppercase, CharKind::Lowercase] + (
            if config.specials > 0 {
                seq![CharKind::Special]
            } else {
                seq![]
            }) + (if config.numbers > 0 {
                seq![CharKind::Number]
            } else {
                seq![]
            }));
            lemma_empty_in_no_pool();
            assert forall|kind: CharKind| #[trigger] draft.kind_wf(kind) by {
                lemma_count_of_blank(draft.pass_chars@, kind);
                lemma_pool_no_duplicates(kind);
                assert(draft.available_types@[0] == CharKind::Uppercase);
                assert(draft.available_types@[1] == CharKind::Lowercase);
                if config.specials > 0 {
                    assert(draft.available_types@[2] == CharKind::Special);
                }
                if config.numbers > 0 {
                    assert(draft.available_types@[draft.available_types@.len() - 1]
                        == CharKind::Number);
                }
                assert forall|j: int| 0 <= j < draft.unused.of(kind).len() implies kind.holds(
                    #[trigger] draft.unused.of(kind)[j],
                ) && !draft.pass_chars@.contains(draft.unused.of(kind)[j]) by {
                    assert(kind.pool()[j] == draft.unused.of(kind)[j]);
                }
            }
            assert forall|i: int|
                0 <= i < draft.pass_chars.len() && #[trigger] draft.pass_chars@[i]
                    == EMPTY implies draft.positions@.contains(i as usize) by {
                assert(draft.positions@[i] == i as usize);
            }
        }
        draft
    }

    /// Whether `self` is what `before` becomes when one character is placed:
    /// the character numbered `char_index` among the unused characters of
    /// `kind`, at the empty place numbered `slot_index`. The character is
    /// used, the place is no longer empty, the count of `kind` goes up by one,
    /// and `kind` stays available only if its target is not yet met.
    pub open spec fn is_put(
        self,
        before: Draft,
        kind: CharKind,
        char_index: int,
        slot_index: int,
    ) -> bool {
        &&& self.pass_chars@ == before.pass_chars@.update(
            before.positions@[slot_index] as int,
            before.unused.of(kind)[char_index],
        )
        &&& self.positions@ == before.positions@.remove(slot_index)
        &&& self.unused.of(kind) == before.unused.of(kind).remove(char_index)
        &&& forall|k: CharKind| k != kind ==> self.unused.of(k) == before.unused.of(k)
        &&& self.used_types.of(kind) == before.used_types.of(kind) + 1
        &&& forall|k: CharKind| k != kind ==> self.used_types.of(k) == before.used_types.of(k)
        &&& self.max_types == before.max_types
        &&& self.available_types@ == if before.used_types.of(kind) + 1 == before.max_types.of(
            kind,
        ) {
            without(before.available_types@, kind)
        } else {
            before.available_types@
        }
    }

    /// Whether a character can be placed by these three numbers.
    pub open spec fn can_put(self, kind: CharKind, char_index: int, slot_index: int) -> bool {
        &&& self.available_types@.contains(kind)
        &&& 0 <= char_index < self.unused.of(kind).len()
        &&& 0 <= slot_index < self.positions.len()
    }

    /// Places one character. `kind` is a kind of which more is wanted; the
    /// character is the one numbered `char_index` among the unused characters
    /// of that kind; it goes to the empty place numbered `slot_index`. A kind
    /// whose count reaches its target is no longer available afterwards.
    pub fn put(&mut self, kind: CharKind, char_index: usize, slot_index: usize)
        requires
            old(self).wf(),
            old(self).can_put(kind, char_index as int, slot_index as int),
        ensures
            final(self).wf(),
            final(self).is_put(*old(self), kind, char_index as int, slot_index as int),
    {
        proof {
            assert(old(self).kind_wf(kind));
        }
        let c = self.unused.take(kind, char_index);
        let pos = self.positions.remove(slot_index);
        self.pass_chars[pos] = c;
        self.used_types.bump(kind);
        if self.used_types.get(kind) == self.max_types.get(kind) {
            let mut available: Vec<CharKind> = Vec::new();
            std::mem::swap(&mut available, &mut self.available_types);
            self.available_types = CharKind::pop_kind(available, &kind);
        }
        proof {
            lemma_put_keeps_wf(*old(self), *self, kind, char_index as int, slot_index as int);
        }
    }

    /// The finished password. Every place is filled, so the draft holds what
    /// its targets ask for, and nothing twice.
    pub fn finish(self) -> (password: String)
        requires
            self.wf(),
            self.positions.len() == 0,
        ensures
            password@ == self.pass_chars@,
            password@.no_duplicates(),
            forall|kind: CharKind| count_of(password@, kind) == self.max_types.of(kind),
    {
        proof {
            assert forall|i: int| 0 <= i < self.pass_chars.len() implies self.pass_chars@[i]
                != EMPTY by {
                if self.pass_chars@[i] == EMPTY {
                    assert(self.positions@.contains(i as usize));
                }
            }
            assert forall|kind: CharKind|
                count_of(self.pass_chars@, kind) == self.max_types.of(kind) by {
                assert(self.kind_wf(kind));
                assert(self.kind_wf(CharKind::Uppercase));
                assert(self.kind_wf(CharKind::Lowercase));
                assert(self.kind_wf(CharKind::Number));
                assert(self.kind_wf(CharKind::Special));
            }
        }
        string_of(&self.pass_chars)
    }
}

/// Draws a password for `config` from `rng`.
///
/// If the first character is to be a letter, one of the two kinds of letters
/// is drawn, then one of its characters, and that character is put in front.
/// Every other character is made by drawing a kind among those still wanted,
/// a character among those of the kind that the password does not hold yet,
/// and a place among those still empty. Drawing among the characters not yet
/// held is what keeps the password free of repeats, and it takes one draw.
///
/// No password is made where a pool is too small for what is asked of its
/// kind. Then, and only then, the answer is `PoolExhausted`, and nothing is
/// drawn.
pub fn generate(config: &PasswordRequirements, rng: &mut StdRng) -> (result: Result<
    String,
    GenerateError,
>)
    requires
        config.is_consistent(),
    ensures
        result is Ok <==> config.fits_pools(),
        result matches Ok(password) ==> satisfies(password@, *config),
        result matches Err(e) ==> e == GenerateError::PoolExhausted,
{
    if !config.fits_pools() {
        return Err(GenerateError::PoolExhausted);
    }
    let mut draft = Draft::new(config);
    if config.first_is_letter {
        let kind = if random_below(rng, 2) == 0 {
            CharKind::Lowercase
        } else {
            CharKind::Uppercase
        };
        let char_index = random_below(rng, kind.into_sample().len());
        proof {
            assert(draft.kind_wf(kind));
            assert(draft.positions@[0] == 0);
            assert(kind.pool()[char_index as int] == draft.unused.of(kind)[char_index as int]);
        }
        draft.put(kind, char_index, 0);
    }
    while draft.positions.len() > 0
        invariant
            draft.wf(),
            draft.pass_chars.len() == config.length,
            forall|kind: CharKind| draft.max_types.of(kind) == config.target(kind),
            config.first_is_letter ==> is_letter(draft.pass_chars@[0]),
        decreases draft.positions.len(),
    {
        proof {
            lemma_more_is_wanted(draft);
            lemma_empty_in_no_pool();
        }
        let kind = draft.available_types[random_below(rng, draft.available_types.len())];
        proof {
            assert(draft.available_types@.contains(kind));
            assert(draft.kind_wf(kind));
        }
        let char_index = random_below(rng, draft.unused.len_of(kind));
        let slot_index = random_below(rng, draft.positions.len());
        draft.put(kind, char_index, slot_index);
    }
    let password = draft.finish();
    Ok(password)
}

/// Draws a password for `config`.
///
/// The requirements are validated first, and the password meets the validated
/// requirements. The draws come from a generator that is seeded from the
/// generator of the current thread.
pub fn generate_password(config: PasswordRequirements) -> (result: Result<String, GenerateError>)
    ensures
        result is Ok <==> config.validated().fits_pools(),
        result matches Ok(password) ==> satisfies(password@, config.validated()),
        result matches Err(e) ==> e == GenerateError::PoolExhausted,
{
    let config = config.validate();
    let mut rng = seeded_from_thread();
    generate(&config, &mut rng)
}

/// While a place of a well-formed draft is empty, a kind is still wanted.
proof fn lemma_more_is_wanted(draft: Draft)
    requires
        draft.wf(),
        draft.positions.len() > 0,
    ensures
        draft.available_types.len() > 0,
{
    assert(draft.kind_wf(CharKind::Uppercase));
    assert(draft.kind_wf(CharKind::Lowercase));
    assert(draft.kind_wf(CharKind::Number));
    assert(draft.kind_wf(CharKind::Special));
    let kind = if draft.used_types.uppercase < draft.max_types.uppercase {
        CharKind::Uppercase
    } else if draft.used_types.lowercase < draft.max_types.lowercase {
        CharKind::Lowercase
    } else if draft.used_types.number < draft.max_types.number {
        CharKind::Number
    } else {
        CharKind::Special
    };
    assert(draft.available_types@.contains(kind));
}

/// Placing a character keeps what holds of each kind in a well-formed draft.
proof fn lemma_put_keeps_kind(
    before: Draft,
    after: Draft,
    kind: CharKind,
    char_index: int,
    slot_index: int,
    k: CharKind,
)
    requires
        before.wf(),
        before.can_put(kind, char_index, slot_index),
        after.is_put(before, kind, char_index, slot_index),
    ensures
        after.kind_wf(k),
{
    let c = before.unused.of(kind)[char_index];
    let pos = before.positions@[slot_index] as int;
    assert(before.kind_wf(k));
    assert(before.kind_wf(kind));
    assert(kind.holds(c));
    assert(!before.pass_chars@.contains(c));
    lemma_empty_in_no_pool();
    assert(before.pass_chars@[pos] == EMPTY);
    lemma_count_of_update(before.pass_chars@, pos, c, k);
    lemma_without(before.available_types@, kind);
    if k == kind {
        lemma_remove(before.unused.of(k), char_index);
    } else {
        assert(!k.holds(c)) by {
            if k.holds(c) {
                lemma_pools_disjoint(k, kind, c);
            }
        }
    }
    assert forall|j: int| 0 <= j < after.unused.of(k).len() implies k.holds(
        #[trigger] after.unused.of(k)[j],
    ) && !after.pass_chars@.contains(after.unused.of(k)[j]) by {
        let u = after.unused.of(k)[j];
        assert(after.unused.of(k).contains(u));
        assert(before.unused.of(k).contains(u));
        let j0 = choose|j0: int| 0 <= j0 < before.unused.of(k).len() && before.unused.of(k)[j0] == u;
        assert(k.holds(before.unused.of(k)[j0]));
        assert(!before.pass_chars@.contains(before.unused.of(k)[j0]));
        assert(u != c);
        if after.pass_chars@.contains(u) {
            let i = choose|i: int| 0 <= i < after.pass_chars@.len() && after.pass_chars@[i] == u;
            assert(before.pass_chars@[i] == u);
        }
    }
}

/// Placing a character keeps the empty places and the placed characters of a
/// well-formed draft in order.
proof fn lemma_put_keeps_places(
    before: Draft,
    after: Draft,
    kind: CharKind,
    char_index: int,
    slot_index: int,
)
    requires
        before.wf(),
        before.can_put(kind, char_index, slot_index),
        after.is_put(before, kind, char_index, slot_index),
    ensures
        after.pass_chars.len() == before.pass_chars.len(),
        after.positions@.no_duplicates(),
        after.positions.len() == before.positions.len() - 1,
        forall|j: int|
            0 <= j < after.positions.len() ==> (#[trigger] after.positions@[j])
                < after.pass_chars.len() && after.pass_chars@[after.positions@[j] as int] == EMPTY,
        forall|i: int|
            0 <= i < after.pass_chars.len() && #[trigger] after.pass_chars@[i] == EMPTY
                ==> after.positions@.contains(i as usize),
        forall|i: int, j: int|
            0 <= i < after.pass_chars.len() && 0 <= j < after.pass_chars.len() && i != j
                && after.pass_chars@[i] != EMPTY ==> after.pass_chars@[i] != after.pass_chars@[j],
{
    let c = before.unused.of(kind)[char_index];
    let pos = before.positions@[slot_index];
    assert(before.kind_wf(kind));
    assert(kind.holds(c));
    assert(!before.pass_chars@.contains(c));
    lemma_empty_in_no_pool();
    assert(c != EMPTY);
    lemma_remove(before.positions@, slot_index);
    assert forall|j: int| 0 <= j < after.positions.len() implies (#[trigger] after.positions@[j])
        < after.pass_chars.len() && after.pass_chars@[after.positions@[j] as int] == EMPTY by {
        let p = after.positions@[j];
        assert(after.positions@.contains(p));
        assert(before.positions@.contains(p));
        let j0 = choose|j0: int| 0 <= j0 < before.positions@.len() && before.positions@[j0] == p;
        assert(before.positions@[j0] < before.pass_chars.len());
        assert(p != pos);
    }
    assert forall|i: int|
        0 <= i < after.pass_chars.len() && #[trigger] after.pass_chars@[i]
            == EMPTY implies after.positions@.contains(i as usize) by {
        assert(i != pos);
        assert(before.pass_chars@[i] == EMPTY);
        assert(before.positions@.contains(i as usize));
    }
    assert forall|i: int, j: int|
        0 <= i < after.pass_chars.len() && 0 <= j < after.pass_chars.len() && i != j
            && after.pass_chars@[i] != EMPTY implies after.pass_chars@[i] != after.pass_chars@[j] by {
        if i == pos {
            assert(before.pass_chars@[j] == after.pass_chars@[j]);
            assert(before.pass_chars@.contains(before.pass_chars@[j]));
        } else if j == pos {
            assert(before.pass_chars@[i] == after.pass_chars@[i]);
            assert(before.pass_chars@.contains(before.pass_chars@[i]));
        }
    }
}

/// Placing a character keeps a draft well-formed.
proof fn lemma_put_keeps_wf(
    before: Draft,
    after: Draft,
    kind: CharKind,
    char_index: int,
    slot_index: int,
)
    requires
        before.wf(),
        before.can_put(kind, char_index, slot_index),
        after.is_put(before, kind, char_index, slot_index),
    ensures
        after.wf(),
{
    lemma_put_keeps_places(before, after, kind, char_index, slot_index);
    lemma_put_keeps_kind(before, after, kind, char_index, slot_index, CharKind::Uppercase);
    lemma_put_keeps_kind(before, after, kind, char_index, slot_index, CharKind::Lowercase);
    lemma_put_keeps_kind(before, after, kind, char_index, slot_index, CharKind::Number);
    lemma_put_keeps_kind(before, after, kind, char_index, slot_index, CharKind::Special);
    lemma_without(before.available_types@, kind);
}

/// What taking one item out of a sequence without repeats leaves: the other
/// items, still without repeats.
pub proof fn lemma_remove<A>(s: Seq<A>, index: int)
    requires
        s.no_duplicates(),
        0 <= index < s.len(),
    ensures
        s.remove(index).len() == s.len() - 1,
        s.remove(index).no_duplicates(),
        forall|x: A| #[trigger] s.remove(index).contains(x) <==> s.contains(x) && x != s[index],
{
    let r = s.remove(index);
    assert forall|x: A| #[trigger] r.contains(x) <==> s.contains(x) && x != s[index] by {
        if r.contains(x) {
            let j = choose|j: int| 0 <= j < r.len() && r[j] == x;
            if j < index {
                assert(s[j] == x);
            } else {
                assert(s[j + 1] == x);
            }
        }
        if s.contains(x) && x != s[index] {
            let i = choose|i: int| 0 <= i < s.len() && s[i] == x;
            if i < index {
                assert(r[i] == x);
            } else {
                assert(r[i - 1] == x);
            }
        }
    }
}

/// Writing `c` into one place changes the count of a kind by what left that
/// place and what came.
pub proof fn lemma_count_of_update(s: Seq<char>, index: int, c: char, kind: CharKind)
    requires
        0 <= index < s.len(),
    ensures
        count_of(s.update(index, c), kind) == count_of(s, kind) - (if kind.holds(s[index]) {
            1int
        } else {
            0int
        }) + (if kind.holds(c) {
            1int
        } else {
            0int
        }),
    decreases s.len(),
{
    let t = s.update(index, c);
    if index == s.len() - 1 {
        assert(t.drop_last() =~= s.drop_last());
    } else {
        assert(t.drop_last() =~= s.drop_last().update(index, c));
        lemma_count_of_update(s.drop_last(), index, c, kind);
    }
}

/// `EMPTY` is a character of no pool.
pub proof fn lemma_empty_in_no_pool()
    ensures
        forall|kind: CharKind| !kind.holds(EMPTY),
{
    lemma_pool_contents(EMPTY);
}

/// A sequence of empty places holds no character of any kind.
pub proof fn lemma_count_of_blank(s: Seq<char>, kind: CharKind)
    requires
        forall|i: int| 0 <= i < s.len() ==> s[i] == EMPTY,
    ensures
        count_of(s, kind) == 0,
    decreases s.len(),
{
    lemma_empty_in_no_pool();
    if s.len() > 0 {
        lemma_count_of_blank(s.drop_last(), kind);
    }
}

/// The pool of `kind` as a vector.
fn pool_vec(kind: CharKind) -> (v: Vec<char>)
    ensures
        v@ == kind.pool(),
{
    let sample = kind.into_sample();
    let mut v: Vec<char> = Vec::new();
    let mut i: usize = 0;
    while i < sample.len()
        invariant
            i <= sample.len(),
            v@ == sample@.take(i as int),
        decreases sample.len() - i,
    {
        v.push(sample[i]);
        proof {
            assert(sample@.take(i + 1) =~= sample@.take(i as int).push(sample@[i as int]));
        }
        i = i + 1;
    }
    proof {
        assert(sample@.take(i as int) =~= sample@);
    }
    v
}

} // verus!
