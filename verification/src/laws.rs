//! What holds of the candidate rules and of sorted listings, for every input.

use crate::info::PersonalInfo;
use crate::order::{is_sorted_listing, lemma_sorted_listing_unique, truncated};
use crate::rules::{
    all_candidates, basic_candidates, basic_words, birth_candidates, birth_forms,
    common_numbers, common_passwords, dictionary_forms, dictionary_parts, idiom_forms,
    idiom_parts, keyboard_patterns, lemma_union_all_contains, lemma_union_all_empty,
    number_candidates, number_forms, number_row, number_words, pair_forms, pair_parts, pair_row,
    pattern_words, personal_numbers, single_forms, single_parts, special_candidates,
    special_forms, special_marks, special_parts, special_row, static_candidates, suffix_forms,
    suffix_row, union_all, word_number_forms, word_number_parts,
};
use crate::text::{capitalized, uppercase_of};
use vstd::prelude::*;

verus! {

/// The same record always gives the same listing: two sorted listings of the
/// candidates of one record are the same list, string by string.
pub proof fn lemma_listing_is_determined(
    info: PersonalInfo,
    first: Seq<Seq<char>>,
    second: Seq<Seq<char>>,
)
    requires
        is_sorted_listing(first, all_candidates(&info)),
        is_sorted_listing(second, all_candidates(&info)),
    ensures
        first == second,
        first.to_multiset() == second.to_multiset(),
{
    lemma_sorted_listing_unique(first, second, all_candidates(&info));
}

/// The candidates depend on the text of the fields alone, and not at all on
/// the e-mail address.
pub proof fn lemma_equal_fields_equal_candidates(a: PersonalInfo, b: PersonalInfo)
    requires
        a.name@ == b.name@,
        a.surname@ == b.surname@,
        a.nickname@ == b.nickname@,
        a.birth_year@ == b.birth_year@,
        a.birth_month@ == b.birth_month@,
        a.birth_day@ == b.birth_day@,
        a.phone@ == b.phone@,
        a.pet_name@ == b.pet_name@,
        a.favorite_number@ == b.favorite_number@,
        a.company@ == b.company@,
        a.school@ == b.school@,
    ensures
        all_candidates(&a) == all_candidates(&b),
{
    assert(basic_words(&a) =~= basic_words(&b));
    assert(number_words(&a) =~= number_words(&b));
    assert(personal_numbers(&a) =~= personal_numbers(&b));
    assert(pattern_words(&a) =~= pattern_words(&b));
}

/// An absent word or number contributes nothing: every rule that combines
/// parts gives no candidate where one of its personal parts is empty.
pub proof fn lemma_absent_part_contributes_nothing(absent: Seq<char>, other: Seq<char>)
    requires
        absent.len() == 0,
    ensures
        single_forms(absent) == Set::<Seq<char>>::empty(),
        pair_forms(absent, other) == Set::<Seq<char>>::empty(),
        pair_forms(other, absent) == Set::<Seq<char>>::empty(),
        number_forms(absent, other) == Set::<Seq<char>>::empty(),
        number_forms(other, absent) == Set::<Seq<char>>::empty(),
        suffix_forms(absent, other) == Set::<Seq<char>>::empty(),
        birth_forms(other, absent) == Set::<Seq<char>>::empty(),
        idiom_forms(absent) == Set::<Seq<char>>::empty(),
        special_forms(absent, other) == Set::<Seq<char>>::empty(),
{
}

/// A record with every field absent gives the two dictionaries and nothing
/// else.
pub proof fn lemma_blank_info_gives_static_only(info: PersonalInfo)
    requires
        info.is_blank(),
    ensures
        all_candidates(&info) == static_candidates(),
{
    let empty = Set::<Seq<char>>::empty();
    let words = basic_words(&info);
    lemma_union_all_empty(single_parts(words));
    assert forall|i: int| 0 <= i < pair_parts(words).len() implies #[trigger] pair_parts(
        words,
    )[i] == empty by {
        lemma_union_all_empty(pair_row(words, i));
    }
    lemma_union_all_empty(pair_parts(words));
    assert(basic_candidates(&info) =~= empty);

    let nwords = number_words(&info);
    let numbers = personal_numbers(&info);
    let parts = word_number_parts(nwords, numbers, common_numbers());
    assert forall|i: int| 0 <= i < parts.len() implies #[trigger] parts[i] == empty by {
        lemma_union_all_empty(number_row(nwords[i], numbers));
        lemma_union_all_empty(suffix_row(nwords[i], common_numbers()));
        assert(word_number_forms(nwords[i], numbers, common_numbers()) =~= empty);
    }
    lemma_union_all_empty(parts);
    assert(birth_candidates(&info) == empty);
    assert(number_candidates(&info) =~= empty);

    let pwords = pattern_words(&info);
    lemma_union_all_empty(idiom_parts(pwords));
    let sparts = special_parts(pwords, special_marks());
    assert forall|i: int| 0 <= i < sparts.len() implies #[trigger] sparts[i] == empty by {
        lemma_union_all_empty(special_row(pwords[i], special_marks()));
    }
    lemma_union_all_empty(sparts);
    assert(special_candidates(&info) == empty);
    assert(all_candidates(&info) =~= static_candidates());
}

/// Whatever the record holds, both dictionaries are among its candidates.
pub proof fn lemma_static_floor(info: PersonalInfo)
    ensures
        static_candidates().subset_of(all_candidates(&info)),
{
}

/// Every entry of a dictionary is in the dictionary's contribution as it
/// stands, capitalized, and in uppercase.
pub proof fn lemma_dictionary_holds_three_forms(entries: Seq<Seq<char>>, k: int)
    requires
        0 <= k < entries.len(),
    ensures
        union_all(dictionary_parts(entries)).contains(entries[k]),
        union_all(dictionary_parts(entries)).contains(capitalized(entries[k])),
        union_all(dictionary_parts(entries)).contains(uppercase_of(entries[k])),
{
    let parts = dictionary_parts(entries);
    assert(parts[k] == dictionary_forms(entries[k]));
    assert(parts[k].contains(entries[k]));
    assert(parts[k].contains(capitalized(entries[k])));
    assert(parts[k].contains(uppercase_of(entries[k])));
    lemma_union_all_contains(parts, entries[k]);
    lemma_union_all_contains(parts, capitalized(entries[k]));
    lemma_union_all_contains(parts, uppercase_of(entries[k]));
}

/// Every weak password is a candidate of every record in all three case
/// forms.
pub proof fn lemma_common_password_in_three_forms(info: PersonalInfo, k: int)
    requires
        0 <= k < common_passwords().len(),
    ensures
        all_candidates(&info).contains(common_passwords()[k]),
        all_candidates(&info).contains(capitalized(common_passwords()[k])),
        all_candidates(&info).contains(uppercase_of(common_passwords()[k])),
{
    lemma_dictionary_holds_three_forms(common_passwords(), k);
}

/// Every keyboard pattern is a candidate of every record in all three case
/// forms.
pub proof fn lemma_keyboard_pattern_in_three_forms(info: PersonalInfo, k: int)
    requires
        0 <= k < keyboard_patterns().len(),
    ensures
        all_candidates(&info).contains(keyboard_patterns()[k]),
        all_candidates(&info).contains(capitalized(keyboard_patterns()[k])),
        all_candidates(&info).contains(uppercase_of(keyboard_patterns()[k])),
{
    lemma_dictionary_holds_three_forms(keyboard_patterns(), k);
}

/// A listing cut at a limit has as many entries as the limit allows and is the
/// beginning of the uncut listing.
pub proof fn lemma_truncated_is_prefix(list: Seq<Seq<char>>, n: usize)
    ensures
        truncated(list, Some(n)).len() == if n < list.len() {
            n as nat
        } else {
            list.len()
        },
        truncated(list, Some(n)).is_prefix_of(truncated(list, None)),
        truncated(list, Some(0usize)).len() == 0,
{
}

} // verus!
