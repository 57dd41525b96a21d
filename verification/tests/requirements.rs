use mk_pass::config::{truncate, MIN_LENGTH};
use mk_pass::pools::CountTypesUsed;
use mk_pass::PasswordRequirements;

fn req(length: u16, numbers: u16, specials: u16) -> PasswordRequirements {
    PasswordRequirements { length, numbers, specials, first_is_letter: true }
}

/// A spread of requests: every small value and several large ones.
fn requests() -> Vec<PasswordRequirements> {
    let values: Vec<u16> = (0..=82).chain([100, 255, 256, 1000, 65534, 65535]).collect();
    let mut all = Vec::new();
    for &length in &values {
        for &numbers in &values {
            for &specials in &values {
                all.push(PasswordRequirements {
                    length,
                    numbers,
                    specials,
                    first_is_letter: (length + specials) % 2 == 0,
                });
            }
        }
    }
    all
}

fn max_length(r: &PasswordRequirements) -> u16 {
    52 + if r.specials > 0 { 16 } else { 0 } + if r.numbers > 0 { 10 } else { 0 }
}

#[test]
fn default_requirements() {
    let d = PasswordRequirements::default();
    assert_eq!(d.length, 16);
    assert_eq!(d.numbers, 1);
    assert_eq!(d.specials, 1);
    assert!(d.first_is_letter);
    assert_eq!(d.validate(), d);
}

#[test]
fn digits_win_over_specials() {
    let r = PasswordRequirements { length: 16, specials: 16, numbers: 16, first_is_letter: true };
    let expected = PasswordRequirements { length: 16, specials: 1, numbers: 13, first_is_letter: true };
    assert_eq!(r.validate(), expected);
    let fifteen = PasswordRequirements { length: 16, specials: 15, numbers: 15, ..Default::default() };
    assert_eq!(fifteen.validate(), expected);
}

#[test]
fn digits_win_at_every_length() {
    for n in 7..=200u16 {
        let v = req(n, n, n).validate();
        let length = n.clamp(10, 78);
        assert_eq!(v, req(length, length - 3, 1));
    }
    for n in 1..7u16 {
        let v = req(n, n, n).validate();
        assert_eq!(v, req(10, n, n.min(8 - n)));
    }
    assert_eq!(req(0, 0, 0).validate(), req(10, 0, 0));
}

#[test]
fn specials_get_what_digits_leave() {
    assert_eq!(req(16, 5, 16).validate(), req(16, 5, 9));
    assert_eq!(req(16, 12, 16).validate(), req(16, 12, 2));
    assert_eq!(req(16, 13, 16).validate(), req(16, 13, 1));
    assert_eq!(req(16, 14, 16).validate(), req(16, 13, 1));
    assert_eq!(req(16, 0, 16).validate(), req(16, 0, 14));
    assert_eq!(req(16, 14, 0).validate(), req(16, 13, 0));
    assert_eq!(req(16, 3, 2).validate(), req(16, 3, 2));
}

#[test]
fn length_is_raised_to_ten() {
    assert_eq!(MIN_LENGTH, 10);
    for n in 0..10u16 {
        assert_eq!(req(n, 1, 1).validate().length, 10);
        assert_eq!(req(n, 0, 0).validate().length, 10);
    }
    assert_eq!(req(10, 1, 1).validate().length, 10);
    assert_eq!(req(11, 1, 1).validate().length, 11);
}

#[test]
fn length_is_lowered_to_what_the_pools_hold() {
    assert_eq!(req(100, 0, 0).validate(), req(52, 0, 0));
    assert_eq!(req(100, 1, 0).validate(), req(62, 1, 0));
    assert_eq!(req(100, 0, 1).validate(), req(68, 0, 1));
    assert_eq!(req(100, 1, 1).validate(), req(78, 1, 1));
    assert_eq!(req(52, 0, 0).validate().length, 52);
    assert_eq!(req(53, 0, 0).validate().length, 52);
    assert_eq!(req(78, 1, 1).validate().length, 78);
    assert_eq!(req(79, 1, 1).validate().length, 78);
    assert_eq!(req(65535, 65535, 65535).validate(), req(78, 75, 1));
    assert_eq!(req(65535, 65535, 0).validate(), req(62, 59, 0));
    assert_eq!(req(65535, 0, 65535).validate(), req(68, 0, 66));
}

#[test]
fn first_is_letter_passes_through() {
    for flag in [true, false] {
        let r = PasswordRequirements { length: 5, numbers: 50, specials: 50, first_is_letter: flag };
        assert_eq!(r.validate().first_is_letter, flag);
    }
}

#[test]
fn validate_does_not_change_its_input() {
    let r = req(3, 40, 40);
    let _ = r.validate();
    assert_eq!(r, req(3, 40, 40));
}

#[test]
fn validate_is_idempotent() {
    for r in requests() {
        let v = r.validate();
        assert_eq!(v.validate(), v);
    }
}

#[test]
fn validated_length_is_in_range() {
    for r in requests() {
        let v = r.validate();
        assert!(10 <= v.length && v.length <= max_length(&r));
    }
}

#[test]
fn validated_counts_leave_two_letters() {
    for r in requests() {
        let v = r.validate();
        assert!(v.numbers + v.specials <= v.length - 2);
        assert!(v.numbers <= r.numbers && v.specials <= r.specials);
        assert!(v.numbers <= v.length - 3);
    }
}

#[test]
fn digits_do_not_depend_on_specials() {
    for r in requests() {
        let v = r.validate();
        assert_eq!(v.numbers, r.numbers.min(v.length - 3));
        assert_eq!(v.specials, r.specials.min(v.length - 2 - v.numbers));
        if v.specials > 1 {
            assert_eq!(v.numbers, r.numbers);
        }
    }
}

#[test]
fn targets_of_each_kind() {
    let max = PasswordRequirements::default().max_types();
    assert_eq!(max, CountTypesUsed { uppercase: 7, lowercase: 7, number: 1, special: 1 });
    let odd = req(15, 1, 1).max_types();
    assert_eq!(odd, CountTypesUsed { uppercase: 7, lowercase: 6, number: 1, special: 1 });
    let two = req(10, 7, 1).max_types();
    assert_eq!(two, CountTypesUsed { uppercase: 1, lowercase: 1, number: 7, special: 1 });
}

#[test]
fn pools_fit_or_not() {
    assert!(PasswordRequirements::default().fits_pools());
    assert!(req(78, 10, 16).fits_pools());
    assert!(!req(78, 11, 15).fits_pools());
    assert!(!req(78, 9, 17).fits_pools());
    assert!(!req(78, 9, 16).fits_pools());
    assert!(req(54, 1, 1).fits_pools());
    assert!(!req(55, 1, 1).fits_pools());
    assert!(!req(16, 13, 1).fits_pools());
}

#[test]
fn missing_values_take_their_defaults() {
    assert_eq!(PasswordRequirements::new(None, None, None, None), PasswordRequirements::default());
    let r = PasswordRequirements::new(Some(20), None, Some(3), Some(false));
    assert_eq!(r, PasswordRequirements { length: 20, numbers: 1, specials: 3, first_is_letter: false });
    let s = PasswordRequirements::new(None, Some(0), None, Some(true));
    assert_eq!(s, PasswordRequirements { length: 16, numbers: 0, specials: 1, first_is_letter: true });
}

#[test]
fn numbers_out_of_range_keep_their_low_bits() {
    assert_eq!(truncate(0), 0);
    assert_eq!(truncate(16), 16);
    assert_eq!(truncate(65535), 65535);
    assert_eq!(truncate(65536), 0);
    assert_eq!(truncate(70000), 4464);
    assert_eq!(truncate(-1), 65535);
    assert_eq!(truncate(-65536), 0);
    assert_eq!(truncate(i32::MAX), 65535);
    assert_eq!(truncate(i32::MIN), 0);
    let r = PasswordRequirements::new(Some(-1), Some(65537), Some(-65535), None);
    assert_eq!(r, PasswordRequirements { length: 65535, numbers: 1, specials: 1, first_is_letter: true });
}
