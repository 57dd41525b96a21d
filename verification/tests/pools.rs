use mk_pass::pools::{CharKind, CountTypesUsed};
use mk_pass::{Samples, LOWERCASE, NUMBERS, SPECIAL_CHARACTERS, UPPERCASE};

#[test]
fn pool_sizes() {
    assert_eq!(UPPERCASE.len(), 26);
    assert_eq!(LOWERCASE.len(), 26);
    assert_eq!(NUMBERS.len(), 10);
    assert_eq!(SPECIAL_CHARACTERS.len(), 16);
}

#[test]
fn pool_contents() {
    assert_eq!(UPPERCASE.iter().collect::<String>(), "ABCDEFGHIJKLMNOPQRSTUVWXYZ");
    assert_eq!(LOWERCASE.iter().collect::<String>(), "abcdefghijklmnopqrstuvwxyz");
    assert_eq!(NUMBERS.iter().collect::<String>(), "0123456789");
    assert_eq!(SPECIAL_CHARACTERS.iter().collect::<String>(), "-./\\:`+&,@$!_#%~");
}

#[test]
fn pools_share_no_character_and_repeat_none() {
    let all: Vec<char> = UPPERCASE
        .iter()
        .chain(&LOWERCASE)
        .chain(&NUMBERS)
        .chain(&SPECIAL_CHARACTERS)
        .copied()
        .collect();
    assert_eq!(all.len(), 78);
    for i in 0..all.len() {
        for j in (i + 1)..all.len() {
            assert_ne!(all[i], all[j]);
        }
        assert_ne!(all[i], '\n');
    }
}

#[test]
fn kinds_name_their_pools() {
    assert_eq!(CharKind::Uppercase.into_sample(), &UPPERCASE[..]);
    assert_eq!(CharKind::Lowercase.into_sample(), &LOWERCASE[..]);
    assert_eq!(CharKind::Number.into_sample(), &NUMBERS[..]);
    assert_eq!(CharKind::Special.into_sample(), &SPECIAL_CHARACTERS[..]);
}

#[test]
fn pop_kind_takes_one_kind_out() {
    let all = vec![CharKind::Uppercase, CharKind::Lowercase, CharKind::Special, CharKind::Number];
    assert_eq!(
        CharKind::pop_kind(all.clone(), &CharKind::Lowercase),
        vec![CharKind::Uppercase, CharKind::Special, CharKind::Number]
    );
    assert_eq!(
        CharKind::pop_kind(all.clone(), &CharKind::Number),
        vec![CharKind::Uppercase, CharKind::Lowercase, CharKind::Special]
    );
    let letters = vec![CharKind::Uppercase, CharKind::Lowercase];
    assert_eq!(CharKind::pop_kind(letters.clone(), &CharKind::Special), letters);
    assert_eq!(CharKind::pop_kind(vec![CharKind::Special], &CharKind::Special), vec![]);
    assert_eq!(CharKind::pop_kind(vec![], &CharKind::Special), vec![]);
}

#[test]
fn counts_start_at_zero_and_go_up_by_one() {
    let mut used = CountTypesUsed::default();
    assert_eq!(used, CountTypesUsed { uppercase: 0, lowercase: 0, number: 0, special: 0 });
    used.bump(CharKind::Number);
    used.bump(CharKind::Number);
    used.bump(CharKind::Uppercase);
    assert_eq!(used, CountTypesUsed { uppercase: 1, lowercase: 0, number: 2, special: 0 });
    assert_eq!(used.get(CharKind::Number), 2);
    assert_eq!(used.get(CharKind::Uppercase), 1);
    assert_eq!(used.get(CharKind::Lowercase), 0);
    used.bump(CharKind::Special);
    used.bump(CharKind::Lowercase);
    assert_eq!(used.get(CharKind::Special), 1);
    assert_eq!(used.get(CharKind::Lowercase), 1);
}

#[test]
fn samples_list_each_character_as_a_string() {
    let specials = Samples::special_characters();
    assert_eq!(
        specials.set,
        vec!["-", ".", "/", "\\", ":", "`", "+", "&", ",", "@", "$", "!", "_", "#", "%", "~"]
    );
    let decimal = Samples::decimal();
    assert_eq!(decimal.set, vec!["0", "1", "2", "3", "4", "5", "6", "7", "8", "9"]);
    let lower = Samples::lowercase();
    assert_eq!(lower.set.len(), 26);
    assert_eq!(lower.set.concat(), "abcdefghijklmnopqrstuvwxyz");
    let upper = Samples::uppercase();
    assert_eq!(upper.set.len(), 26);
    assert_eq!(upper.set.concat(), "ABCDEFGHIJKLMNOPQRSTUVWXYZ");
    for s in upper.set.iter().chain(&lower.set).chain(&decimal.set).chain(&specials.set) {
        assert_eq!(s.chars().count(), 1);
    }
}
