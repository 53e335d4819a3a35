use pwd_cracker::generator::{
    common_number_list, common_password_list, keyboard_pattern_list, special_mark_list,
    PasswordGenerator,
};
use pwd_cracker::info::PersonalInfo;
use pwd_cracker::text::{capitalize_first, join, last_chars};

fn sample() -> PasswordGenerator {
    let mut info = PersonalInfo::new();
    info.name = "Zoe".to_string();
    info.surname = "Ångström".to_string();
    info.nickname = "zz".to_string();
    info.phone = "0123456789".to_string();
    PasswordGenerator::generate(info)
}

#[test]
fn listing_is_sorted() {
    let list = sample().get_passwords();
    assert!(list.len() > 92);
    for i in 1..list.len() {
        assert!(list[i - 1] <= list[i]);
    }
}

#[test]
fn listing_has_no_duplicates() {
    let list = sample().get_passwords();
    for i in 1..list.len() {
        assert_ne!(list[i - 1], list[i]);
    }
    let mut copy = list.clone();
    copy.sort();
    copy.dedup();
    assert_eq!(copy, list);
}

#[test]
fn listing_orders_by_code_point() {
    let list = PasswordGenerator::generate(PersonalInfo::new()).get_passwords();
    assert_eq!(
        &list[..12],
        &[
            "123456", "12345678", "123456789", "1234567890", "123QWE", "123qwe", "147258",
            "159357", "1QAZ2WSX", "1qaz2wsx", "741852", "ABC123",
        ]
    );
    assert_eq!(list[list.len() - 1], "zxcvbnm");
}

#[test]
fn materialize_without_limit_is_the_listing() {
    let g = sample();
    assert_eq!(g.materialize(None), g.get_passwords());
}

#[test]
fn materialize_with_zero_limit_is_empty() {
    assert!(sample().materialize(Some(0)).is_empty());
}

#[test]
fn materialize_cuts_to_the_limit() {
    let g = PasswordGenerator::generate(PersonalInfo::new());
    assert_eq!(
        g.materialize(Some(5)),
        vec!["123456", "12345678", "123456789", "1234567890", "123QWE"]
    );
    let full = g.get_passwords();
    for n in [1usize, 2, 17, 91, 92] {
        assert_eq!(g.materialize(Some(n)), full[..n].to_vec());
    }
}

#[test]
fn materialize_with_large_limit_is_the_listing() {
    let g = sample();
    let full = g.get_passwords();
    assert_eq!(g.materialize(Some(full.len())), full);
    assert_eq!(g.materialize(Some(full.len() + 1)), full);
    assert_eq!(g.materialize(Some(usize::MAX)), full);
}

#[test]
fn capitalize_first_of_empty_is_empty() {
    assert_eq!(capitalize_first(""), "");
}

#[test]
fn capitalize_first_raises_only_the_first_character() {
    assert_eq!(capitalize_first("anna"), "Anna");
    assert_eq!(capitalize_first("aNNa"), "ANNa");
    assert_eq!(capitalize_first("Anna"), "Anna");
    assert_eq!(capitalize_first("a"), "A");
    assert_eq!(capitalize_first("1qaz2wsx"), "1qaz2wsx");
    assert_eq!(capitalize_first("élan"), "Élan");
}

#[test]
fn capitalize_first_takes_the_first_character_of_a_longer_mapping() {
    assert_eq!(capitalize_first("ßa"), "Sa");
}

#[test]
fn last_chars_counts_characters() {
    assert_eq!(last_chars("13800138000", 4), "8000");
    assert_eq!(last_chars("1234", 4), "1234");
    assert_eq!(last_chars("123", 4), "123");
    assert_eq!(last_chars("", 4), "");
    assert_eq!(last_chars("1990", 2), "90");
    assert_eq!(last_chars("ab日本語x", 4), "日本語x");
    assert_eq!(last_chars("abc", 0), "");
}

#[test]
fn join_puts_one_string_after_the_other() {
    assert_eq!(join("i_love_", "anna"), "i_love_anna");
    assert_eq!(join("", "x"), "x");
    assert_eq!(join("x", ""), "x");
}

#[test]
fn lowercase_forms_come_from_the_whole_word() {
    let mut info = PersonalInfo::new();
    info.name = "McCOY".to_string();
    let list = PasswordGenerator::generate(info).get_passwords();
    assert!(list.iter().any(|c| c == "mccoy"));
    assert!(list.iter().any(|c| c == "McCOY"));
    assert!(list.iter().any(|c| c == "mccoy123"));
    assert!(list.iter().any(|c| c == "McCOY123"));
}

#[test]
fn dictionaries_have_their_entries() {
    assert_eq!(common_password_list().len(), 23);
    assert_eq!(common_password_list()[0], "password");
    assert_eq!(common_password_list()[22], "rockyou");
    assert_eq!(keyboard_pattern_list().len(), 15);
    assert_eq!(keyboard_pattern_list()[14], "741852");
    assert_eq!(
        common_number_list(),
        vec!["123", "321", "666", "888", "999", "000", "111", "222"]
    );
    assert_eq!(special_mark_list(), vec!["!", "@", "#", "$", "%", "*", ".", "_"]);
}
