use vault::crypto::{character, generate_password, CLASSES, DEFAULT_LENGTH};

fn class_of(c: char) -> Option<usize> {
    if c.is_ascii_uppercase() {
        Some(0)
    } else if c.is_ascii_lowercase() {
        Some(1)
    } else if c.is_ascii_digit() {
        Some(2)
    } else if "!\"#$%&'()*+,-./\\:;?@[]^_`{|}~ ".contains(c) {
        Some(3)
    } else {
        None
    }
}

#[test]
fn the_default_length_is_twenty() {
    assert_eq!(DEFAULT_LENGTH, 20);
    assert_eq!(CLASSES, 4);
}

#[test]
fn a_generated_password_has_the_length_asked_for() {
    assert_eq!(generate_password(20).chars().count(), 20);
    assert_eq!(generate_password(1).chars().count(), 1);
    assert_eq!(generate_password(137).chars().count(), 137);
    assert_eq!(generate_password(0), "");
}

#[test]
fn a_generated_password_holds_only_characters_of_the_four_classes() {
    for _ in 0..200 {
        let password = generate_password(20);
        assert_eq!(password.len(), 20);
        for c in password.chars() {
            assert!(class_of(c).is_some());
        }
    }
}

#[test]
fn the_four_classes_are_drawn_about_equally_often() {
    let mut seen = [0usize; 4];
    let mut total = 0usize;
    for _ in 0..1000 {
        for c in generate_password(20).chars() {
            seen[class_of(c).unwrap()] += 1;
            total += 1;
        }
    }
    assert_eq!(total, 20000);
    for count in seen {
        assert!(count > 4400);
        assert!(count < 5600);
    }
}

#[test]
fn generated_passwords_differ() {
    assert_ne!(generate_password(20), generate_password(20));
}

#[test]
fn every_character_of_a_class_is_drawn() {
    let mut seen = std::collections::BTreeSet::new();
    for _ in 0..400 {
        for c in generate_password(100).chars() {
            seen.insert(c);
        }
    }
    assert_eq!(seen.len(), 26 + 26 + 10 + 30);
}

#[test]
fn a_draw_stands_for_the_character_at_its_place() {
    assert_eq!(character(0, 0), Some('A'));
    assert_eq!(character(0, 25), Some('Z'));
    assert_eq!(character(1, 0), Some('a'));
    assert_eq!(character(1, 12), Some('m'));
    assert_eq!(character(2, 0), Some('0'));
    assert_eq!(character(2, 9), Some('9'));
    assert_eq!(character(3, 0), Some('!'));
    assert_eq!(character(3, 1), Some('"'));
    assert_eq!(character(3, 15), Some('\\'));
    assert_eq!(character(3, 24), Some('`'));
    assert_eq!(character(3, 29), Some(' '));
}

#[test]
fn a_draw_outside_the_classes_stands_for_nothing() {
    assert_eq!(character(0, 26), None);
    assert_eq!(character(1, 26), None);
    assert_eq!(character(2, 10), None);
    assert_eq!(character(3, 30), None);
    assert_eq!(character(4, 0), None);
    assert_eq!(character(usize::MAX, usize::MAX), None);
}

#[test]
fn the_classes_have_their_sizes() {
    let sizes = [26usize, 26, 10, 30];
    for class in 0..4 {
        let mut size = 0;
        while character(class, size).is_some() {
            assert_eq!(class_of(character(class, size).unwrap()), Some(class));
            size += 1;
        }
        assert_eq!(size, sizes[class]);
    }
}
