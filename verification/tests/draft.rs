use mk_pass::generate::{Draft, Unused, EMPTY};
use mk_pass::pools::{CharKind, CountTypesUsed};
use mk_pass::text::string_of;
use mk_pass::PasswordRequirements;

fn small() -> PasswordRequirements {
    PasswordRequirements { length: 10, numbers: 7, specials: 1, first_is_letter: true }
}

#[test]
fn a_new_draft_is_empty() {
    let draft = Draft::new(&small());
    assert_eq!(EMPTY, '\n');
    assert_eq!(draft.pass_chars, vec!['\n'; 10]);
    assert_eq!(draft.positions, vec![0, 1, 2, 3, 4, 5, 6, 7, 8, 9]);
    assert_eq!(
        draft.available_types,
        vec![CharKind::Uppercase, CharKind::Lowercase, CharKind::Special, CharKind::Number]
    );
    assert_eq!(draft.used_types, CountTypesUsed::default());
    assert_eq!(draft.max_types, CountTypesUsed { uppercase: 1, lowercase: 1, number: 7, special: 1 });
    assert_eq!(draft.unused.uppercase.len(), 26);
    assert_eq!(draft.unused.lowercase.len(), 26);
    assert_eq!(draft.unused.number, vec!['0', '1', '2', '3', '4', '5', '6', '7', '8', '9']);
    assert_eq!(draft.unused.special.len(), 16);
}

#[test]
fn kinds_not_asked_for_are_not_available() {
    let letters = PasswordRequirements { length: 12, numbers: 0, specials: 0, first_is_letter: false };
    assert_eq!(Draft::new(&letters).available_types, vec![CharKind::Uppercase, CharKind::Lowercase]);
    let digits = PasswordRequirements { length: 12, numbers: 2, specials: 0, first_is_letter: false };
    assert_eq!(
        Draft::new(&digits).available_types,
        vec![CharKind::Uppercase, CharKind::Lowercase, CharKind::Number]
    );
    let specials = PasswordRequirements { length: 12, numbers: 0, specials: 2, first_is_letter: false };
    assert_eq!(
        Draft::new(&specials).available_types,
        vec![CharKind::Uppercase, CharKind::Lowercase, CharKind::Special]
    );
}

#[test]
fn put_places_the_chosen_character_at_the_chosen_place() {
    let mut draft = Draft::new(&small());
    draft.put(CharKind::Number, 3, 4);
    assert_eq!(draft.pass_chars, vec!['\n', '\n', '\n', '\n', '3', '\n', '\n', '\n', '\n', '\n']);
    assert_eq!(draft.positions, vec![0, 1, 2, 3, 5, 6, 7, 8, 9]);
    assert_eq!(draft.unused.number, vec!['0', '1', '2', '4', '5', '6', '7', '8', '9']);
    assert_eq!(draft.used_types, CountTypesUsed { uppercase: 0, lowercase: 0, number: 1, special: 0 });
    assert_eq!(draft.available_types.len(), 4);

    draft.put(CharKind::Number, 3, 4);
    assert_eq!(draft.pass_chars, vec!['\n', '\n', '\n', '\n', '3', '4', '\n', '\n', '\n', '\n']);
    assert_eq!(draft.positions, vec![0, 1, 2, 3, 6, 7, 8, 9]);
    assert_eq!(draft.unused.number, vec!['0', '1', '2', '5', '6', '7', '8', '9']);
    assert_eq!(draft.used_types.number, 2);
}

#[test]
fn a_kind_that_met_its_target_is_no_longer_available() {
    let mut draft = Draft::new(&small());
    draft.put(CharKind::Lowercase, 25, 0);
    assert_eq!(draft.pass_chars[0], 'z');
    assert_eq!(
        draft.available_types,
        vec![CharKind::Uppercase, CharKind::Special, CharKind::Number]
    );
    draft.put(CharKind::Special, 0, 8);
    assert_eq!(draft.pass_chars[9], '-');
    assert_eq!(draft.available_types, vec![CharKind::Uppercase, CharKind::Number]);
    draft.put(CharKind::Number, 9, 0);
    assert_eq!(draft.pass_chars[1], '9');
    assert_eq!(draft.available_types, vec![CharKind::Uppercase, CharKind::Number]);
    draft.put(CharKind::Uppercase, 0, 0);
    assert_eq!(draft.pass_chars[2], 'A');
    assert_eq!(draft.available_types, vec![CharKind::Number]);
    assert_eq!(draft.max_types, CountTypesUsed { uppercase: 1, lowercase: 1, number: 7, special: 1 });
}

#[test]
fn a_filled_draft_is_the_password() {
    let mut draft = Draft::new(&small());
    draft.put(CharKind::Uppercase, 12, 0);
    draft.put(CharKind::Number, 0, 8);
    draft.put(CharKind::Special, 9, 0);
    draft.put(CharKind::Number, 0, 0);
    draft.put(CharKind::Number, 0, 0);
    draft.put(CharKind::Lowercase, 1, 3);
    draft.put(CharKind::Number, 6, 3);
    draft.put(CharKind::Number, 0, 0);
    draft.put(CharKind::Number, 0, 0);
    assert_eq!(draft.available_types, vec![CharKind::Number]);
    assert_eq!(draft.positions, vec![6]);
    assert_eq!(draft.unused.number, vec!['5', '6', '7', '8']);
    draft.put(CharKind::Number, 2, 0);
    assert!(draft.available_types.is_empty());
    assert!(draft.positions.is_empty());
    assert_eq!(draft.used_types, draft.max_types);
    assert_eq!(draft.finish(), "M@12347b90");
}

#[test]
fn unused_characters_are_taken_out_in_order() {
    let mut unused = Unused::new();
    assert_eq!(unused.len_of(CharKind::Uppercase), 26);
    assert_eq!(unused.len_of(CharKind::Lowercase), 26);
    assert_eq!(unused.len_of(CharKind::Number), 10);
    assert_eq!(unused.len_of(CharKind::Special), 16);
    assert_eq!(unused.take(CharKind::Special, 15), '~');
    assert_eq!(unused.take(CharKind::Special, 0), '-');
    assert_eq!(unused.take(CharKind::Special, 0), '.');
    assert_eq!(unused.len_of(CharKind::Special), 13);
    assert_eq!(unused.take(CharKind::Uppercase, 25), 'Z');
    assert_eq!(unused.take(CharKind::Lowercase, 2), 'c');
    assert_eq!(unused.take(CharKind::Lowercase, 2), 'd');
    assert_eq!(unused.take(CharKind::Number, 9), '9');
    assert_eq!(unused.number, vec!['0', '1', '2', '3', '4', '5', '6', '7', '8']);
    assert_eq!(unused.len_of(CharKind::Uppercase), 25);
    assert_eq!(unused.len_of(CharKind::Lowercase), 24);
}

#[test]
fn strings_are_made_of_the_characters_in_order() {
    assert_eq!(string_of(&vec!['a', 'B', '3', '~']), "aB3~");
    assert_eq!(string_of(&vec![]), "");
    assert_eq!(string_of(&vec!['\n']), "\n");
}
