//! The pools as lists of strings, for callers that have no character type.

use vstd::prelude::*;

use crate::pools::CharKind;
use crate::text::push_char;

verus! {

/// The characters of one pool, each as a string of its own.
pub struct Samples {
    pub set: Vec<String>,
}

impl Samples {
    /// Whether `self` lists the characters of `pool`, in their order, one
    /// string of one character for each.
    pub open spec fn lists(self, pool: Seq<char>) -> bool {
        &&& self.set@.len() == pool.len()
        &&& forall|i: int| 0 <= i < pool.len() ==> (#[trigger] self.set@[i])@ == seq![pool[i]]
    }

    /// The special characters used when generating a password.
    pub fn special_characters() -> (samples: Self)
        ensures
            samples.lists(CharKind::Special.pool()),
    {
        Samples { set: strings_of(CharKind::Special) }
    }

    /// The decimal digits used when generating a password.
    pub fn decimal() -> (samples: Self)
        ensures
            samples.lists(CharKind::Number.pool()),
    {
        Samples { set: strings_of(CharKind::Number) }
    }

    /// The lowercase letters used when generating a password.
    pub fn lowercase() -> (samples: Self)
        ensures
            samples.lists(CharKind::Lowercase.pool()),
    {
        Samples { set: strings_of(CharKind::Lowercase) }
    }

    /// The uppercase letters used when generating a password.
    pub fn uppercase() -> (samples: Self)
        ensures
            samples.lists(CharKind::Uppercase.pool()),
    {
        Samples { set: strings_of(CharKind::Uppercase) }
    }
}

/// The characters of the pool of `kind`, each as a string.
fn strings_of(kind: CharKind) -> (set: Vec<String>)
    ensures
        set@.len() == kind.pool().len(),
        forall|i: int| 0 <= i < kind.pool().len() ==> (#[trigger] set@[i])@ == seq![kind.pool()[i]],
{
    let sample = kind.into_sample();
    let mut set: Vec<String> = Vec::new();
    let mut i: usize = 0;
    while i < sample.len()
        invariant
            i <= sample.len(),
            sample@ == kind.pool(),
            set@.len() == i,
            forall|j: int| 0 <= j < i ==> (#[trigger] set@[j])@ == seq![sample@[j]],
        decreases sample.len() - i,
    {
        let mut one = String::new();
        push_char(&mut one, sample[i]);
        proof {
            assert(one@ =~= seq![sample@[i as int]]);
        }
        set.push(one);
        i = i + 1;
    }
    set
}

} // verus!
