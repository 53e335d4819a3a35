use pwd_cracker::generator::PasswordGenerator;
use pwd_cracker::info::PersonalInfo;

fn anna() -> PersonalInfo {
    let mut info = PersonalInfo::new();
    info.name = "Anna".to_string();
    info.birth_year = "1990".to_string();
    info.birth_month = "05".to_string();
    info.birth_day = "15".to_string();
    info.pet_name = "Rex".to_string();
    info
}

fn listing(info: PersonalInfo) -> Vec<String> {
    PasswordGenerator::generate(info).get_passwords()
}

fn has(list: &[String], s: &str) -> bool {
    list.iter().any(|c| c == s)
}

#[test]
fn new_record_is_blank() {
    let info = PersonalInfo::new();
    assert_eq!(info.name, "");
    assert_eq!(info.surname, "");
    assert_eq!(info.nickname, "");
    assert_eq!(info.birth_year, "");
    assert_eq!(info.birth_month, "");
    assert_eq!(info.birth_day, "");
    assert_eq!(info.phone, "");
    assert_eq!(info.email, "");
    assert_eq!(info.pet_name, "");
    assert_eq!(info.favorite_number, "");
    assert_eq!(info.company, "");
    assert_eq!(info.school, "");
}

#[test]
fn default_record_is_blank() {
    let info = PersonalInfo::default();
    assert_eq!(info.name, "");
    assert_eq!(info.phone, "");
    assert_eq!(info.school, "");
    assert_eq!(
        PasswordGenerator::generate(info).get_passwords(),
        PasswordGenerator::generate(PersonalInfo::new()).get_passwords()
    );
}

#[test]
fn new_generator_holds_nothing() {
    let g = PasswordGenerator::new(anna());
    assert!(g.get_passwords().is_empty());
    assert!(g.materialize(None).is_empty());
}

#[test]
fn blank_record_gives_both_dictionaries() {
    let list = listing(PersonalInfo::new());
    for w in [
        "password", "123456", "123456789", "qwerty", "abc123", "password123", "admin", "root",
        "user", "guest", "welcome", "login", "pass", "test", "demo", "12345678", "1234567890",
        "qwertyuiop", "asdfghjkl", "zxcvbnm", "iloveyou", "princess", "rockyou",
    ] {
        assert!(has(&list, w), "{}", w);
        assert!(has(&list, &w.to_uppercase()), "{}", w);
    }
    for w in [
        "qwerty", "asdfgh", "zxcvbn", "qwertyui", "asdfghjk", "zxcvbnm", "1qaz2wsx", "qazwsx",
        "123qwe", "qwe123", "asd123", "zxc123", "147258", "159357", "741852",
    ] {
        assert!(has(&list, w), "{}", w);
        assert!(has(&list, &w.to_uppercase()), "{}", w);
    }
    assert!(has(&list, "Qwerty"));
    assert!(has(&list, "Abc123"));
    assert!(has(&list, "1QAZ2WSX"));
    assert_eq!(list.len(), 92);
}

#[test]
fn blank_record_gives_nothing_personal() {
    let list = listing(PersonalInfo::new());
    assert!(!has(&list, ""));
    assert!(!has(&list, "123"));
    assert!(!has(&list, "i_love_"));
    assert!(!has(&list, "my_"));
    assert!(!has(&list, "!"));
    assert!(!has(&list, "!123"));
}

#[test]
fn unused_fields_change_nothing() {
    let mut info = PersonalInfo::new();
    info.email = "anna@example.com".to_string();
    assert_eq!(listing(info), listing(PersonalInfo::new()));
}

#[test]
fn case_forms_of_weak_passwords_are_distinct_entries() {
    let list = listing(PersonalInfo::new());
    assert!(has(&list, "password"));
    assert!(has(&list, "Password"));
    assert!(has(&list, "PASSWORD"));
    assert_eq!(list.iter().filter(|c| c.eq_ignore_ascii_case("password")).count(), 3);
    assert_eq!(list.iter().filter(|c| c.eq_ignore_ascii_case("rockyou")).count(), 3);
    assert_eq!(list.iter().filter(|c| c.as_str() == "123456").count(), 1);
}

#[test]
fn anna_example() {
    let list = listing(anna());
    for w in [
        "anna", "Anna", "rex", "Rex", "annarex", "AnnaRex", "anna1990", "1990anna", "Anna1990",
        "1990Anna", "anna05", "anna15", "rex1990", "19900515", "0515", "1505", "90",
        "anna19900515", "19900515anna", "anna0515", "anna1505", "1505anna", "anna90", "90anna",
        "rex1505", "90rex", "anna123", "Anna123", "anna222", "Rex000", "i_love_anna", "my_anna",
        "anna!", "!anna", "anna!123", "anna_", "_anna", "anna_123",
    ] {
        assert!(has(&list, w), "{}", w);
    }
    assert!(has(&list, "password"));
    assert!(has(&list, "QWERTY"));
}

#[test]
fn anna_example_leaves_out_what_no_rule_forms() {
    let list = listing(anna());
    assert!(!has(&list, "rexanna"));
    assert!(!has(&list, "annaRex"));
    assert!(!has(&list, "Annarex"));
    assert!(!has(&list, "150590"));
    assert!(!has(&list, "anna150590"));
    assert!(!has(&list, "1990"));
    assert!(!has(&list, "05"));
    assert!(!has(&list, "rex!"));
    assert!(!has(&list, "i_love_rex"));
    assert!(!has(&list, "Anna19900515"));
    assert!(!has(&list, ""));
}

#[test]
fn anna_example_size() {
    // singles 4, pair 2, word-number 2 * (4 * 3 + 16) with "anna"/"Anna" and
    // "rex"/"Rex" apart, composites 4 * (1 + 2 * 2), idioms 6 less "anna123",
    // "anna321", "anna666", "anna888" (suffixes already), marks 8 * 3.
    let list = listing(anna());
    let personal = 4 + 2 + 2 * (3 * 4 + 16) + 4 * 5 + 2 + 24;
    assert_eq!(list.len(), 92 + personal);
}

#[test]
fn pairs_follow_field_order() {
    let mut info = PersonalInfo::new();
    info.surname = "Lee".to_string();
    info.school = "MIT".to_string();
    info.company = "acme".to_string();
    let list = listing(info);
    assert!(has(&list, "leeacme"));
    assert!(has(&list, "Leeacme"));
    assert!(has(&list, "LeeAcme"));
    assert!(has(&list, "leemit"));
    assert!(has(&list, "LeeMIT"));
    assert!(has(&list, "acmemit"));
    assert!(has(&list, "acmeMIT"));
    assert!(has(&list, "AcmeMIT"));
    assert!(!has(&list, "mitlee"));
    assert!(!has(&list, "MITacme"));
    assert!(!has(&list, "acmelee"));
}

#[test]
fn phone_gives_its_last_four_characters() {
    let mut info = PersonalInfo::new();
    info.nickname = "Bob".to_string();
    info.phone = "13800138000".to_string();
    let list = listing(info);
    assert!(has(&list, "bob8000"));
    assert!(has(&list, "Bob8000"));
    assert!(has(&list, "8000bob"));
    assert!(has(&list, "8000Bob"));
    assert!(!has(&list, "bob13800138000"));
    assert!(!has(&list, "bob38000"));
    assert!(!has(&list, "bob1380"));
}

#[test]
fn short_phone_is_taken_whole() {
    let mut info = PersonalInfo::new();
    info.name = "bob".to_string();
    info.phone = "42".to_string();
    let list = listing(info);
    assert!(has(&list, "bob42"));
    assert!(has(&list, "42bob"));
}

#[test]
fn favorite_number_is_combined() {
    let mut info = PersonalInfo::new();
    info.pet_name = "Rex".to_string();
    info.favorite_number = "7".to_string();
    let list = listing(info);
    assert!(has(&list, "rex7"));
    assert!(has(&list, "Rex7"));
    assert!(has(&list, "7rex"));
    assert!(has(&list, "7Rex"));
    assert!(!has(&list, "7"));
}

#[test]
fn incomplete_birth_date_gives_no_composites() {
    let mut info = PersonalInfo::new();
    info.name = "anna".to_string();
    info.birth_year = "1990".to_string();
    info.birth_month = "05".to_string();
    let list = listing(info);
    assert!(has(&list, "anna1990"));
    assert!(has(&list, "05anna"));
    assert!(!has(&list, "90"));
    assert!(!has(&list, "anna90"));
    assert!(!has(&list, "199005"));
}

#[test]
fn birth_date_alone_gives_its_composites() {
    let mut info = PersonalInfo::new();
    info.birth_year = "1990".to_string();
    info.birth_month = "05".to_string();
    info.birth_day = "15".to_string();
    let list = listing(info);
    assert!(has(&list, "19900515"));
    assert!(has(&list, "0515"));
    assert!(has(&list, "1505"));
    assert!(has(&list, "90"));
    assert_eq!(list.len(), 92 + 4);
}

#[test]
fn short_year_is_taken_whole() {
    let mut info = PersonalInfo::new();
    info.birth_year = "7".to_string();
    info.birth_month = "1".to_string();
    info.birth_day = "2".to_string();
    let list = listing(info);
    assert!(has(&list, "7"));
    assert!(has(&list, "712"));
    assert!(has(&list, "12"));
    assert!(has(&list, "21"));
}

#[test]
fn marks_go_with_name_surname_and_nickname_only() {
    let mut info = PersonalInfo::new();
    info.surname = "Lee".to_string();
    info.pet_name = "Rex".to_string();
    let list = listing(info);
    for m in ["!", "@", "#", "$", "%", "*", ".", "_"] {
        assert!(has(&list, &format!("lee{}", m)));
        assert!(has(&list, &format!("{}lee", m)));
        assert!(has(&list, &format!("lee{}123", m)));
        assert!(!has(&list, &format!("rex{}", m)));
        assert!(!has(&list, &format!("Lee{}", m)));
    }
}

#[test]
fn same_record_same_listing() {
    assert_eq!(listing(anna()), listing(anna()));
}

#[test]
fn running_the_passes_again_adds_nothing() {
    let mut g = PasswordGenerator::generate(anna());
    let once = g.get_passwords();
    g.generate_passwords();
    assert_eq!(g.get_passwords(), once);
}

#[test]
fn passes_add_up_to_the_whole() {
    let mut g = PasswordGenerator::new(anna());
    g.add_special_combinations();
    g.add_keyboard_patterns();
    g.add_common_patterns();
    g.add_number_combinations();
    g.add_basic_combinations();
    assert_eq!(g.get_passwords(), listing(anna()));
}

#[test]
fn keyboard_pass_alone() {
    let mut g = PasswordGenerator::new(anna());
    g.add_keyboard_patterns();
    let list = g.get_passwords();
    assert_eq!(list.len(), 37);
    assert!(has(&list, "Qazwsx"));
    assert!(has(&list, "ZXC123"));
    assert!(!has(&list, "password"));
}

#[test]
fn basic_pass_alone() {
    let mut g = PasswordGenerator::new(anna());
    g.add_basic_combinations();
    assert_eq!(
        g.get_passwords(),
        vec!["Anna", "AnnaRex", "Rex", "anna", "annarex", "rex"]
    );
}

#[test]
fn special_pass_alone() {
    let mut info = PersonalInfo::new();
    info.name = "Al".to_string();
    let mut g = PasswordGenerator::new(info);
    g.add_special_combinations();
    let list = g.get_passwords();
    assert_eq!(list.len(), 24);
    assert_eq!(list[0], "!al");
    assert!(has(&list, "al$123"));
}

#[test]
fn common_pass_alone_on_blank_record() {
    let mut g = PasswordGenerator::new(PersonalInfo::new());
    g.add_common_patterns();
    assert_eq!(g.get_passwords().len(), 61);
}

#[test]
fn number_pass_alone() {
    let mut info = PersonalInfo::new();
    info.name = "al".to_string();
    info.favorite_number = "7".to_string();
    let mut g = PasswordGenerator::new(info);
    g.add_number_combinations();
    assert_eq!(
        g.get_passwords(),
        vec!["7al", "al000", "al111", "al123", "al222", "al321", "al666", "al7", "al888", "al999"]
    );
}
