//! The four character pools and the kinds that name them.

use vstd::prelude::*;

verus! {

/// The uppercase letters a password may hold.
pub const UPPERCASE: [char; 26] = [
    'A', 'B', 'C', 'D', 'E', 'F', 'G', 'H', 'I', 'J', 'K', 'L', 'M',
    'N', 'O', 'P', 'Q', 'R', 'S', 'T', 'U', 'V', 'W', 'X', 'Y', 'Z',
];

/// The lowercase letters a password may hold.
pub const LOWERCASE: [char; 26] = [
    'a', 'b', 'c', 'd', 'e', 'f', 'g', 'h', 'i', 'j', 'k', 'l', 'm',
    'n', 'o', 'p', 'q', 'r', 's', 't', 'u', 'v', 'w', 'x', 'y', 'z',
];

/// The digits a password may hold.
pub const NUMBERS: [char; 10] = ['0', '1', '2', '3', '4', '5', '6', '7', '8', '9'];

/// The special characters a password may hold.
pub const SPECIAL_CHARACTERS: [char; 16] = [
    '-', '.', '/', '\\', ':', '`', '+', '&', ',', '@', '$', '!', '_', '#', '%', '~',
];

/// The kind of a character: the pool it is drawn from.
#[derive(Debug, Clone, Copy, PartialEq, Eq, Structural)]
pub enum CharKind {
    Uppercase,
    Lowercase,
    Number,
    Special,
}

impl CharKind {
    /// The pool of this kind, in its fixed order.
    pub open spec fn pool(self) -> Seq<char> {
        match self {
            CharKind::Uppercase => UPPERCASE@,
            CharKind::Lowercase => LOWERCASE@,
            CharKind::Number => NUMBERS@,
            CharKind::Special => SPECIAL_CHARACTERS@,
        }
    }

    /// Whether `c` is a character of this kind.
    pub open spec fn holds(self, c: char) -> bool {
        self.pool().contains(c)
    }

    /// The pool of this kind.
    pub fn into_sample(&self) -> (sample: &'static [char])
        ensures
            sample@ == self.pool(),
    {
        match self {
            CharKind::Uppercase => &UPPERCASE,
            CharKind::Lowercase => &LOWERCASE,
            CharKind::Number => &NUMBERS,
            CharKind::Special => &SPECIAL_CHARACTERS,
        }
    }

    /// Takes `kind` out of `available`. The other kinds stay in their order.
    pub fn pop_kind(available: Vec<CharKind>, kind: &CharKind) -> (rest: Vec<CharKind>)
        ensures
            rest@ == without(available@, *kind),
    {
        let mut rest: Vec<CharKind> = Vec::new();
        let mut i: usize = 0;
        proof {
            reveal(Seq::filter);
            assert(available@.take(0) =~= Seq::<CharKind>::empty());
        }
        while i < available.len()
            invariant
                i <= available.len(),
                rest@ == without(available@.take(i as int), *kind),
            decreases available.len() - i,
        {
            let k = available[i];
            proof {
                reveal(Seq::filter);
                assert(available@.take(i + 1).drop_last() =~= available@.take(i as int));
            }
            if k != *kind {
                rest.push(k);
            }
            i = i + 1;
        }
        proof {
            assert(available@.take(i as int) =~= available@);
        }
        rest
    }
}

/// A number for each kind of character: how many a password holds, or how many
/// it is to hold.
#[derive(Debug, Clone, Copy, PartialEq, Eq, Structural)]
pub struct CountTypesUsed {
    pub uppercase: u16,
    pub lowercase: u16,
    pub number: u16,
    pub special: u16,
}

impl CountTypesUsed {
    /// The number kept for `kind`.
    pub open spec fn of(self, kind: CharKind) -> int {
        match kind {
            CharKind::Uppercase => self.uppercase as int,
            CharKind::Lowercase => self.lowercase as int,
            CharKind::Number => self.number as int,
            CharKind::Special => self.special as int,
        }
    }

    /// The four numbers added up.
    pub open spec fn total(self) -> int {
        self.uppercase + self.lowercase + self.number + self.special
    }

    /// The number kept for `kind`.
    pub fn get(&self, kind: CharKind) -> (n: u16)
        ensures
            n == self.of(kind),
    {
        match kind {
            CharKind::Uppercase => self.uppercase,
            CharKind::Lowercase => self.lowercase,
            CharKind::Number => self.number,
            CharKind::Special => self.special,
        }
    }

    /// Counts one more character of `kind`.
    pub fn bump(&mut self, kind: CharKind)
        requires
            old(self).of(kind) < u16::MAX,
        ensures
            final(self).of(kind) == old(self).of(kind) + 1,
            forall|k: CharKind| k != kind ==> final(self).of(k) == old(self).of(k),
    {
        match kind {
            CharKind::Uppercase => {
                self.uppercase = self.uppercase + 1;
            },
            CharKind::Lowercase => {
                self.lowercase = self.lowercase + 1;
            },
            CharKind::Number => {
                self.number = self.number + 1;
            },
            CharKind::Special => {
                self.special = self.special + 1;
            },
        }
    }
}

impl Default for CountTypesUsed {
    /// Nothing counted yet.
    fn default() -> (r: Self)
        ensures
            r == (CountTypesUsed { uppercase: 0, lowercase: 0, number: 0, special: 0 }),
    {
        CountTypesUsed { uppercase: 0, lowercase: 0, number: 0, special: 0 }
    }
}

/// The kinds of `kinds` other than `kind`, in their order.
pub open spec fn without(kinds: Seq<CharKind>, kind: CharKind) -> Seq<CharKind> {
    kinds.filter(|k: CharKind| k != kind)
}

/// Taking a kind out leaves exactly the other kinds, and repeats none of them.
pub proof fn lemma_without(kinds: Seq<CharKind>, kind: CharKind)
    ensures
        forall|k: CharKind| #[trigger]
            without(kinds, kind).contains(k) <==> kinds.contains(k) && k != kind,
        kinds.no_duplicates() ==> without(kinds, kind).no_duplicates(),
        without(kinds, kind).len() <= kinds.len(),
    decreases kinds.len(),
{
    reveal(Seq::filter);
    let keep = |k: CharKind| k != kind;
    if kinds.len() > 0 {
        let front = kinds.drop_last();
        let last = kinds.last();
        lemma_without(front, kind);
        let rest = without(front, kind);
        assert forall|k: CharKind| #[trigger]
            without(kinds, kind).contains(k) <==> kinds.contains(k) && k != kind by {
            if kinds.contains(k) && k != kind {
                let i = choose|i: int| 0 <= i < kinds.len() && kinds[i] == k;
                if i < front.len() {
                    assert(front[i] == k);
                    assert(rest.contains(k));
                    let j = choose|j: int| 0 <= j < rest.len() && rest[j] == k;
                    assert(without(kinds, kind)[j] == k);
                } else {
                    assert(last == k);
                    assert(without(kinds, kind).last() == k);
                }
            }
            if without(kinds, kind).contains(k) {
                let j = choose|j: int| 0 <= j < without(kinds, kind).len() && without(kinds, kind)[j] == k;
                if j < rest.len() {
                    assert(rest[j] == k);
                    assert(rest.contains(k));
                    let i = choose|i: int| 0 <= i < front.len() && front[i] == k;
                    assert(kinds[i] == k);
                } else {
                    assert(k == last);
                    assert(kinds[kinds.len() - 1] == k);
                }
            }
        }
        if kinds.no_duplicates() {
            assert(front.no_duplicates());
            if keep(last) {
                assert(!front.contains(last)) by {
                    if front.contains(last) {
                        let i = choose|i: int| 0 <= i < front.len() && front[i] == last;
                        assert(kinds[i] == kinds[kinds.len() - 1]);
                    }
                }
                assert(!rest.contains(last));
            }
        }
    }
}

/// How many places of `s` hold a character of `kind`.
pub open spec fn count_of(s: Seq<char>, kind: CharKind) -> nat
    decreases s.len(),
{
    if s.len() == 0 {
        0
    } else {
        count_of(s.drop_last(), kind) + if kind.holds(s.last()) {
            1nat
        } else {
            0nat
        }
    }
}

/// Whether `c` is an uppercase or a lowercase letter of the pools.
pub open spec fn is_letter(c: char) -> bool {
    CharKind::Uppercase.holds(c) || CharKind::Lowercase.holds(c)
}

/// Whether `c` is a character of one of the four pools.
pub open spec fn is_pool_char(c: char) -> bool {
    is_letter(c) || CharKind::Number.holds(c) || CharKind::Special.holds(c)
}

/// How many places of `s` hold a character of any pool.
pub open spec fn count_of_all(s: Seq<char>) -> nat {
    count_of(s, CharKind::Uppercase) + count_of(s, CharKind::Lowercase) + count_of(
        s,
        CharKind::Number,
    ) + count_of(s, CharKind::Special)
}

/// Every place is counted for one kind at most. So where the counts of the
/// four kinds add up to the length, every place holds a character of a pool.
pub proof fn lemma_counts_cover(s: Seq<char>)
    ensures
        count_of_all(s) <= s.len(),
        count_of_all(s) == s.len() ==> forall|i: int| 0 <= i < s.len() ==> is_pool_char(s[i]),
    decreases s.len(),
{
    if s.len() > 0 {
        let front = s.drop_last();
        lemma_counts_cover(front);
        lemma_pool_contents(s.last());
        if count_of_all(s) == s.len() {
            assert(is_pool_char(s.last()));
            assert forall|i: int| 0 <= i < s.len() implies is_pool_char(s[i]) by {
                if i < front.len() {
                    assert(front[i] == s[i]);
                }
            }
        }
    }
}

/// The pools hold the Latin capitals, the Latin small letters, the decimal
/// digits and sixteen marks of punctuation.
pub proof fn lemma_pool_contents(c: char)
    ensures
        CharKind::Uppercase.holds(c) <==> 'A' <= c <= 'Z',
        CharKind::Lowercase.holds(c) <==> 'a' <= c <= 'z',
        CharKind::Number.holds(c) <==> '0' <= c <= '9',
        CharKind::Special.holds(c) <==> (c == '-' || c == '.' || c == '/' || c == '\\' || c == ':'
            || c == '`' || c == '+' || c == '&' || c == ',' || c == '@' || c == '$' || c == '!'
            || c == '_' || c == '#' || c == '%' || c == '~'),
{
    assert(forall|i: int| 0 <= i < 26 ==> #[trigger] UPPERCASE@[i] as int == 'A' as int + i);
    assert(forall|i: int| 0 <= i < 26 ==> #[trigger] LOWERCASE@[i] as int == 'a' as int + i);
    assert(forall|i: int| 0 <= i < 10 ==> #[trigger] NUMBERS@[i] as int == '0' as int + i);
    if 'A' <= c <= 'Z' {
        assert(UPPERCASE@[c as int - 'A' as int] == c);
    }
    if 'a' <= c <= 'z' {
        assert(LOWERCASE@[c as int - 'a' as int] == c);
    }
    if '0' <= c <= '9' {
        assert(NUMBERS@[c as int - '0' as int] == c);
    }
    let s = SPECIAL_CHARACTERS@;
    assert(s[0] == '-' && s[1] == '.' && s[2] == '/' && s[3] == '\\' && s[4] == ':' && s[5] == '`'
        && s[6] == '+' && s[7] == '&' && s[8] == ',' && s[9] == '@' && s[10] == '$' && s[11] == '!'
        && s[12] == '_' && s[13] == '#' && s[14] == '%' && s[15] == '~');
}

/// The sizes of the pools.
pub proof fn lemma_pool_sizes()
    ensures
        CharKind::Uppercase.pool().len() == 26,
        CharKind::Lowercase.pool().len() == 26,
        CharKind::Number.pool().len() == 10,
        CharKind::Special.pool().len() == 16,
{
}

/// No pool holds a character twice.
pub proof fn lemma_pool_no_duplicates(kind: CharKind)
    ensures
        kind.pool().no_duplicates(),
{
    assert(forall|i: int| 0 <= i < 26 ==> #[trigger] UPPERCASE@[i] as int == 'A' as int + i);
    assert(forall|i: int| 0 <= i < 26 ==> #[trigger] LOWERCASE@[i] as int == 'a' as int + i);
    assert(forall|i: int| 0 <= i < 10 ==> #[trigger] NUMBERS@[i] as int == '0' as int + i);
    let s = SPECIAL_CHARACTERS@;
    assert(s[0] == '-' && s[1] == '.' && s[2] == '/' && s[3] == '\\' && s[4] == ':' && s[5] == '`'
        && s[6] == '+' && s[7] == '&' && s[8] == ',' && s[9] == '@' && s[10] == '$' && s[11] == '!'
        && s[12] == '_' && s[13] == '#' && s[14] == '%' && s[15] == '~');
}

/// No character belongs to two pools.
pub proof fn lemma_pools_disjoint(a: CharKind, b: CharKind, c: char)
    requires
        a.holds(c),
        b.holds(c),
    ensures
        a == b,
{
    lemma_pool_contents(c);
}

} // verus!
