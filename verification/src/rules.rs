//! Which candidates each generation pass contributes, stated as sets of
//! strings.

use crate::info::PersonalInfo;
use crate::text::{capitalized, lowercase_of, tail, uppercase_of};
use vstd::prelude::*;

verus! {

/// The union of all the sets in `parts`.
pub open spec fn union_all(parts: Seq<Set<Seq<char>>>) -> Set<Seq<char>>
    decreases parts.len(),
{
    if parts.len() == 0 {
        Set::empty()
    } else {
        union_all(parts.drop_last()).union(parts.last())
    }
}

/// The union of no parts is empty, and the union of all of them is the whole.
pub proof fn lemma_union_all_bounds(parts: Seq<Set<Seq<char>>>)
    ensures
        union_all(parts.take(0)) == Set::<Seq<char>>::empty(),
        union_all(parts.take(parts.len() as int)) == union_all(parts),
{
    assert(parts.take(parts.len() as int) =~= parts);
}

/// Adding the next part to the union of the first `i` parts gives the union of
/// the first `i + 1`.
pub proof fn lemma_union_all_step(parts: Seq<Set<Seq<char>>>, i: int)
    requires
        0 <= i < parts.len(),
    ensures
        union_all(parts.take(i + 1)) == union_all(parts.take(i)).union(parts[i]),
{
    assert(parts.take(i + 1).drop_last() =~= parts.take(i));
}

/// A union of empty parts is empty.
pub proof fn lemma_union_all_empty(parts: Seq<Set<Seq<char>>>)
    requires
        forall|k: int| 0 <= k < parts.len() ==> #[trigger] parts[k] == Set::<Seq<char>>::empty(),
    ensures
        union_all(parts) == Set::<Seq<char>>::empty(),
    decreases parts.len(),
{
    if parts.len() > 0 {
        lemma_union_all_empty(parts.drop_last());
        assert(parts.last() == parts[parts.len() - 1]);
        assert(union_all(parts) =~= Set::<Seq<char>>::empty());
    }
}

/// A string is in the union exactly if one of the parts holds it.
pub proof fn lemma_union_all_contains(parts: Seq<Set<Seq<char>>>, x: Seq<char>)
    ensures
        union_all(parts).contains(x) <==> exists|k: int|
            0 <= k < parts.len() && (#[trigger] parts[k]).contains(x),
    decreases parts.len(),
{
    if parts.len() > 0 {
        let init = parts.drop_last();
        lemma_union_all_contains(init, x);
        if union_all(parts).contains(x) {
            if parts.last().contains(x) {
                assert(parts[parts.len() - 1].contains(x));
            } else {
                let k = choose|k: int| 0 <= k < init.len() && (#[trigger] init[k]).contains(x);
                assert(parts[k].contains(x));
            }
        }
        if exists|k: int| 0 <= k < parts.len() && (#[trigger] parts[k]).contains(x) {
            let k = choose|k: int| 0 <= k < parts.len() && (#[trigger] parts[k]).contains(x);
            if k < parts.len() - 1 {
                assert(init[k].contains(x));
            }
        }
    }
}

/// The fields that the basic pass combines, in their fixed order.
pub open spec fn basic_words(info: &PersonalInfo) -> Seq<Seq<char>> {
    seq![
        info.name@,
        info.surname@,
        info.nickname@,
        info.pet_name@,
        info.company@,
        info.school@,
    ]
}

/// A word alone: lowercase, as entered, and capitalized.
pub open spec fn single_forms(w: Seq<char>) -> Set<Seq<char>> {
    if w.len() == 0 {
        Set::empty()
    } else {
        set![lowercase_of(w), w, capitalized(w)]
    }
}

/// Two words in a row, both in the same one of the three case forms.
pub open spec fn pair_forms(a: Seq<char>, b: Seq<char>) -> Set<Seq<char>> {
    if a.len() == 0 || b.len() == 0 {
        Set::empty()
    } else {
        set![lowercase_of(a) + lowercase_of(b), a + b, capitalized(a) + capitalized(b)]
    }
}

/// What each word contributes alone, word by word.
pub open spec fn single_parts(words: Seq<Seq<char>>) -> Seq<Set<Seq<char>>> {
    Seq::new(words.len(), |k: int| single_forms(words[k]))
}

/// The pairs of word `i` with each later word, word `i` standing first.
pub open spec fn pair_row(words: Seq<Seq<char>>, i: int) -> Seq<Set<Seq<char>>> {
    Seq::new((words.len() - i - 1) as nat, |k: int| pair_forms(words[i], words[i + 1 + k]))
}

/// What each word contributes with the words after it, word by word.
pub open spec fn pair_parts(words: Seq<Seq<char>>) -> Seq<Set<Seq<char>>> {
    Seq::new(words.len(), |i: int| union_all(pair_row(words, i)))
}

/// Every word alone, and every pair of words in field order.
pub open spec fn basic_candidates(info: &PersonalInfo) -> Set<Seq<char>> {
    union_all(single_parts(basic_words(info))).union(union_all(pair_parts(basic_words(info))))
}

/// The words that the number pass combines with numbers.
pub open spec fn number_words(info: &PersonalInfo) -> Seq<Seq<char>> {
    seq![info.name@, info.surname@, info.nickname@, info.pet_name@]
}

/// The personal numbers: the birth date's parts, the favorite number and the
/// last four characters of the phone number.
pub open spec fn personal_numbers(info: &PersonalInfo) -> Seq<Seq<char>> {
    seq![
        info.birth_year@,
        info.birth_month@,
        info.birth_day@,
        info.favorite_number@,
        tail(info.phone@, 4),
    ]
}

/// The fixed numeric suffixes.
pub open spec fn common_numbers() -> Seq<Seq<char>> {
    seq!["123"@, "321"@, "666"@, "888"@, "999"@, "000"@, "111"@, "222"@]
}

/// A word with a number behind it and before it, the word in lowercase and as
/// entered.
pub open spec fn number_forms(w: Seq<char>, n: Seq<char>) -> Set<Seq<char>> {
    if w.len() == 0 || n.len() == 0 {
        Set::empty()
    } else {
        set![lowercase_of(w) + n, w + n, n + lowercase_of(w), n + w]
    }
}

/// A word with a fixed suffix behind it, the word in lowercase and as entered.
pub open spec fn suffix_forms(w: Seq<char>, n: Seq<char>) -> Set<Seq<char>> {
    if w.len() == 0 {
        Set::empty()
    } else {
        set![lowercase_of(w) + n, w + n]
    }
}

/// What a word contributes with each number, number by number.
pub open spec fn number_row(w: Seq<char>, numbers: Seq<Seq<char>>) -> Seq<Set<Seq<char>>> {
    Seq::new(numbers.len(), |k: int| number_forms(w, numbers[k]))
}

/// What a word contributes with each suffix, suffix by suffix.
pub open spec fn suffix_row(w: Seq<char>, suffixes: Seq<Seq<char>>) -> Seq<Set<Seq<char>>> {
    Seq::new(suffixes.len(), |k: int| suffix_forms(w, suffixes[k]))
}

/// All that one word gives with the personal numbers and the fixed suffixes.
pub open spec fn word_number_forms(
    w: Seq<char>,
    numbers: Seq<Seq<char>>,
    suffixes: Seq<Seq<char>>,
) -> Set<Seq<char>> {
    union_all(number_row(w, numbers)).union(union_all(suffix_row(w, suffixes)))
}

/// What each word contributes with numbers and suffixes, word by word.
pub open spec fn word_number_parts(
    words: Seq<Seq<char>>,
    numbers: Seq<Seq<char>>,
    suffixes: Seq<Seq<char>>,
) -> Seq<Set<Seq<char>>> {
    Seq::new(words.len(), |i: int| word_number_forms(words[i], numbers, suffixes))
}

/// Whether the birth date is complete, so that its composites are formed.
pub open spec fn has_birth_date(info: &PersonalInfo) -> bool {
    info.birth_year@.len() > 0 && info.birth_month@.len() > 0 && info.birth_day@.len() > 0
}

/// The composites of a birth date: year, month and day in a row; month and
/// day; day and month; the last two characters of the year.
pub open spec fn birth_composites(info: &PersonalInfo) -> Seq<Seq<char>> {
    seq![
        info.birth_year@ + info.birth_month@ + info.birth_day@,
        info.birth_month@ + info.birth_day@,
        info.birth_day@ + info.birth_month@,
        tail(info.birth_year@, 2),
    ]
}

/// A lowercase word with a composite behind it and before it.
pub open spec fn birth_forms(c: Seq<char>, w: Seq<char>) -> Set<Seq<char>> {
    if w.len() == 0 {
        Set::empty()
    } else {
        set![lowercase_of(w) + c, c + lowercase_of(w)]
    }
}

/// What a composite contributes with each word, word by word.
pub open spec fn birth_row(c: Seq<char>, words: Seq<Seq<char>>) -> Seq<Set<Seq<char>>> {
    Seq::new(words.len(), |i: int| birth_forms(c, words[i]))
}

/// A composite alone and with every word.
pub open spec fn composite_forms(c: Seq<char>, words: Seq<Seq<char>>) -> Set<Seq<char>> {
    set![c].union(union_all(birth_row(c, words)))
}

/// What each composite contributes, composite by composite.
pub open spec fn composite_parts(
    composites: Seq<Seq<char>>,
    words: Seq<Seq<char>>,
) -> Seq<Set<Seq<char>>> {
    Seq::new(composites.len(), |k: int| composite_forms(composites[k], words))
}

/// What a complete birth date contributes; nothing where a part is missing.
pub open spec fn birth_candidates(info: &PersonalInfo) -> Set<Seq<char>> {
    if has_birth_date(info) {
        union_all(composite_parts(birth_composites(info), number_words(info)))
    } else {
        Set::empty()
    }
}

/// Words with personal numbers, with fixed suffixes and with the birth date.
pub open spec fn number_candidates(info: &PersonalInfo) -> Set<Seq<char>> {
    union_all(
        word_number_parts(number_words(info), personal_numbers(info), common_numbers()),
    ).union(birth_candidates(info))
}

/// Well-known weak passwords.
pub open spec fn common_passwords() -> Seq<Seq<char>> {
    seq![
        "password"@,
        "123456"@,
        "123456789"@,
        "qwerty"@,
        "abc123"@,
        "password123"@,
        "admin"@,
        "root"@,
        "user"@,
        "guest"@,
        "welcome"@,
        "login"@,
        "pass"@,
        "test"@,
        "demo"@,
        "12345678"@,
        "1234567890"@,
        "qwertyuiop"@,
        "asdfghjkl"@,
        "zxcvbnm"@,
        "iloveyou"@,
        "princess"@,
        "rockyou"@,
    ]
}

/// Runs of neighbouring keys.
pub open spec fn keyboard_patterns() -> Seq<Seq<char>> {
    seq![
        "qwerty"@,
        "asdfgh"@,
        "zxcvbn"@,
        "qwertyui"@,
        "asdfghjk"@,
        "zxcvbnm"@,
        "1qaz2wsx"@,
        "qazwsx"@,
        "123qwe"@,
        "qwe123"@,
        "asd123"@,
        "zxc123"@,
        "147258"@,
        "159357"@,
        "741852"@,
    ]
}

/// A dictionary entry as it stands, capitalized, and in uppercase.
pub open spec fn dictionary_forms(w: Seq<char>) -> Set<Seq<char>> {
    set![w, capitalized(w), uppercase_of(w)]
}

/// What each entry of a dictionary contributes, entry by entry.
pub open spec fn dictionary_parts(words: Seq<Seq<char>>) -> Seq<Set<Seq<char>>> {
    Seq::new(words.len(), |k: int| dictionary_forms(words[k]))
}

/// The words that the pattern and special passes work on.
pub open spec fn pattern_words(info: &PersonalInfo) -> Seq<Seq<char>> {
    seq![info.name@, info.surname@, info.nickname@]
}

/// A lowercase word with the usual number endings and in the two idioms.
pub open spec fn idiom_forms(w: Seq<char>) -> Set<Seq<char>> {
    if w.len() == 0 {
        Set::empty()
    } else {
        set![
            lowercase_of(w) + "123"@,
            lowercase_of(w) + "321"@,
            lowercase_of(w) + "666"@,
            lowercase_of(w) + "888"@,
            "i_love_"@ + lowercase_of(w),
            "my_"@ + lowercase_of(w),
        ]
    }
}

/// The idioms of each word, word by word.
pub open spec fn idiom_parts(words: Seq<Seq<char>>) -> Seq<Set<Seq<char>>> {
    Seq::new(words.len(), |k: int| idiom_forms(words[k]))
}

/// The weak-password dictionary in its three forms, and the idioms of each
/// pattern word.
pub open spec fn common_candidates(info: &PersonalInfo) -> Set<Seq<char>> {
    union_all(dictionary_parts(common_passwords())).union(
        union_all(idiom_parts(pattern_words(info))),
    )
}

/// The keyboard dictionary in its three forms.
pub open spec fn keyboard_candidates() -> Set<Seq<char>> {
    union_all(dictionary_parts(keyboard_patterns()))
}

/// The punctuation marks that the special pass attaches.
pub open spec fn special_marks() -> Seq<Seq<char>> {
    seq!["!"@, "@"@, "#"@, "$"@, "%"@, "*"@, "."@, "_"@]
}

/// A lowercase word with a mark behind it, before it, and behind it followed
/// by "123".
pub open spec fn special_forms(w: Seq<char>, mark: Seq<char>) -> Set<Seq<char>> {
    if w.len() == 0 {
        Set::empty()
    } else {
        set![lowercase_of(w) + mark, mark + lowercase_of(w), lowercase_of(w) + mark + "123"@]
    }
}

/// What a word contributes with each mark, mark by mark.
pub open spec fn special_row(w: Seq<char>, marks: Seq<Seq<char>>) -> Seq<Set<Seq<char>>> {
    Seq::new(marks.len(), |k: int| special_forms(w, marks[k]))
}

/// What each word contributes with the marks, word by word.
pub open spec fn special_parts(
    words: Seq<Seq<char>>,
    marks: Seq<Seq<char>>,
) -> Seq<Set<Seq<char>>> {
    Seq::new(words.len(), |i: int| union_all(special_row(words[i], marks)))
}

/// Every pattern word with every mark.
pub open spec fn special_candidates(info: &PersonalInfo) -> Set<Seq<char>> {
    union_all(special_parts(pattern_words(info), special_marks()))
}

/// The candidates that need no personal information: both dictionaries in
/// their three forms.
pub open spec fn static_candidates() -> Set<Seq<char>> {
    union_all(dictionary_parts(common_passwords())).union(keyboard_candidates())
}

/// Everything that the five passes contribute for `info`.
pub open spec fn all_candidates(info: &PersonalInfo) -> Set<Seq<char>> {
    basic_candidates(info).union(number_candidates(info)).union(common_candidates(info)).union(
        keyboard_candidates(),
    ).union(special_candidates(info))
}

} // verus!
