//! Where a candidate comes from: each candidate is formed by one rule from
//! parts that are present, and everything so formed is a candidate.

use crate::info::PersonalInfo;
use crate::rules::{
    all_candidates, basic_candidates, basic_words, birth_candidates, birth_composites,
    birth_forms, birth_row, common_candidates, common_numbers, common_passwords,
    composite_forms, composite_parts, dictionary_forms, dictionary_parts, has_birth_date,
    idiom_forms, idiom_parts, keyboard_candidates, keyboard_patterns, lemma_union_all_contains,
    number_candidates, number_forms, number_row, number_words, pair_forms, pair_parts, pair_row,
    pattern_words, personal_numbers, single_forms, single_parts, special_candidates,
    special_forms, special_marks, special_parts, special_row, suffix_forms, suffix_row,
    union_all, word_number_forms, word_number_parts,
};
use vstd::prelude::*;

verus! {

/// `x` is a form of basic word `i`, which is present.
pub open spec fn is_single(info: &PersonalInfo, x: Seq<char>, i: int) -> bool {
    let w = basic_words(info);
    0 <= i < w.len() && w[i].len() > 0 && single_forms(w[i]).contains(x)
}

/// `x` is a form of basic word `i` followed by the later basic word `j`, both
/// present.
pub open spec fn is_pair(info: &PersonalInfo, x: Seq<char>, i: int, j: int) -> bool {
    let w = basic_words(info);
    0 <= i < j < w.len() && w[i].len() > 0 && w[j].len() > 0 && pair_forms(w[i], w[j]).contains(x)
}

/// `x` is a form of number word `i` with personal number `k`, both present.
pub open spec fn is_word_number(info: &PersonalInfo, x: Seq<char>, i: int, k: int) -> bool {
    let w = number_words(info);
    let n = personal_numbers(info);
    0 <= i < w.len() && 0 <= k < n.len() && w[i].len() > 0 && n[k].len() > 0 && number_forms(
        w[i],
        n[k],
    ).contains(x)
}

/// `x` is a form of number word `i`, which is present, with fixed suffix `k`.
pub open spec fn is_word_suffix(info: &PersonalInfo, x: Seq<char>, i: int, k: int) -> bool {
    let w = number_words(info);
    let n = common_numbers();
    0 <= i < w.len() && 0 <= k < n.len() && w[i].len() > 0 && suffix_forms(w[i], n[k]).contains(
        x,
    )
}

/// `x` is composite `k` of the birth date, which is complete.
pub open spec fn is_composite(info: &PersonalInfo, x: Seq<char>, k: int) -> bool {
    has_birth_date(info) && 0 <= k < birth_composites(info).len() && birth_composites(info)[k]
        == x
}

/// `x` is a form of composite `k` of the birth date, which is complete, with
/// number word `i`, which is present.
pub open spec fn is_composite_word(info: &PersonalInfo, x: Seq<char>, k: int, i: int) -> bool {
    let w = number_words(info);
    let c = birth_composites(info);
    has_birth_date(info) && 0 <= k < c.len() && 0 <= i < w.len() && w[i].len() > 0
        && birth_forms(c[k], w[i]).contains(x)
}

/// `x` is a form of entry `k` of the dictionary `entries`.
pub open spec fn is_dictionary_form(entries: Seq<Seq<char>>, x: Seq<char>, k: int) -> bool {
    0 <= k < entries.len() && dictionary_forms(entries[k]).contains(x)
}

/// `x` is an idiom of pattern word `i`, which is present.
pub open spec fn is_idiom(info: &PersonalInfo, x: Seq<char>, i: int) -> bool {
    let w = pattern_words(info);
    0 <= i < w.len() && w[i].len() > 0 && idiom_forms(w[i]).contains(x)
}

/// `x` is a form of pattern word `i`, which is present, with mark `k`.
pub open spec fn is_special(info: &PersonalInfo, x: Seq<char>, i: int, k: int) -> bool {
    let w = pattern_words(info);
    let m = special_marks();
    0 <= i < w.len() && 0 <= k < m.len() && w[i].len() > 0 && special_forms(w[i], m[k]).contains(
        x,
    )
}

/// `x` is formed by one of the rules, from parts that are all present.
pub open spec fn formed_from_present_parts(info: &PersonalInfo, x: Seq<char>) -> bool {
    ||| exists|i: int| is_single(info, x, i)
    ||| exists|i: int, j: int| is_pair(info, x, i, j)
    ||| exists|i: int, k: int| is_word_number(info, x, i, k)
    ||| exists|i: int, k: int| is_word_suffix(info, x, i, k)
    ||| exists|k: int| is_composite(info, x, k)
    ||| exists|k: int, i: int| is_composite_word(info, x, k, i)
    ||| exists|k: int| is_dictionary_form(common_passwords(), x, k)
    ||| exists|i: int| is_idiom(info, x, i)
    ||| exists|k: int| is_dictionary_form(keyboard_patterns(), x, k)
    ||| exists|i: int, k: int| is_special(info, x, i, k)
}

/// The basic pass contributes the forms of present words and of pairs of
/// present words, and nothing else.
pub proof fn lemma_basic_origin(info: &PersonalInfo, x: Seq<char>)
    ensures
        basic_candidates(info).contains(x) <==> (exists|i: int| is_single(info, x, i)) || (exists|
            i: int,
            j: int,
        |
            is_pair(info, x, i, j)),
{
    let w = basic_words(info);
    let sp = single_parts(w);
    let pp = pair_parts(w);
    lemma_union_all_contains(sp, x);
    lemma_union_all_contains(pp, x);
    if union_all(sp).contains(x) {
        let i = choose|i: int| 0 <= i < sp.len() && (#[trigger] sp[i]).contains(x);
        assert(is_single(info, x, i));
    }
    if union_all(pp).contains(x) {
        let i = choose|i: int| 0 <= i < pp.len() && (#[trigger] pp[i]).contains(x);
        let row = pair_row(w, i);
        lemma_union_all_contains(row, x);
        let k = choose|k: int| 0 <= k < row.len() && (#[trigger] row[k]).contains(x);
        assert(is_pair(info, x, i, i + 1 + k));
    }
    if exists|i: int| is_single(info, x, i) {
        let i = choose|i: int| is_single(info, x, i);
        assert(sp[i].contains(x));
    }
    if exists|i: int, j: int| is_pair(info, x, i, j) {
        let (i, j) = choose|i: int, j: int| is_pair(info, x, i, j);
        let row = pair_row(w, i);
        lemma_union_all_contains(row, x);
        assert(row[j - i - 1].contains(x));
        assert(pp[i].contains(x));
    }
}

/// The number pass contributes present words with present numbers and with
/// the fixed suffixes, the composites of a complete birth date, and those
/// composites with present words; nothing else.
pub proof fn lemma_number_origin(info: &PersonalInfo, x: Seq<char>)
    ensures
        number_candidates(info).contains(x) <==> {
            ||| exists|i: int, k: int| is_word_number(info, x, i, k)
            ||| exists|i: int, k: int| is_word_suffix(info, x, i, k)
            ||| exists|k: int| is_composite(info, x, k)
            ||| exists|k: int, i: int| is_composite_word(info, x, k, i)
        },
{
    let w = number_words(info);
    let n = personal_numbers(info);
    let s = common_numbers();
    let c = birth_composites(info);
    let wp = word_number_parts(w, n, s);
    let cp = composite_parts(c, w);
    lemma_union_all_contains(wp, x);
    lemma_union_all_contains(cp, x);
    if union_all(wp).contains(x) {
        let i = choose|i: int| 0 <= i < wp.len() && (#[trigger] wp[i]).contains(x);
        let nrow = number_row(w[i], n);
        let srow = suffix_row(w[i], s);
        lemma_union_all_contains(nrow, x);
        lemma_union_all_contains(srow, x);
        assert(wp[i] == word_number_forms(w[i], n, s));
        if union_all(nrow).contains(x) {
            let k = choose|k: int| 0 <= k < nrow.len() && (#[trigger] nrow[k]).contains(x);
            assert(is_word_number(info, x, i, k));
        } else {
            let k = choose|k: int| 0 <= k < srow.len() && (#[trigger] srow[k]).contains(x);
            assert(is_word_suffix(info, x, i, k));
        }
    }
    if birth_candidates(info).contains(x) {
        let k = choose|k: int| 0 <= k < cp.len() && (#[trigger] cp[k]).contains(x);
        let row = birth_row(c[k], w);
        lemma_union_all_contains(row, x);
        assert(cp[k] == composite_forms(c[k], w));
        if x == c[k] {
            assert(is_composite(info, x, k));
        } else {
            let i = choose|i: int| 0 <= i < row.len() && (#[trigger] row[i]).contains(x);
            assert(is_composite_word(info, x, k, i));
        }
    }
    if exists|i: int, k: int| is_word_number(info, x, i, k) {
        let (i, k) = choose|i: int, k: int| is_word_number(info, x, i, k);
        let nrow = number_row(w[i], n);
        lemma_union_all_contains(nrow, x);
        assert(nrow[k].contains(x));
        assert(wp[i].contains(x));
    }
    if exists|i: int, k: int| is_word_suffix(info, x, i, k) {
        let (i, k) = choose|i: int, k: int| is_word_suffix(info, x, i, k);
        let srow = suffix_row(w[i], s);
        lemma_union_all_contains(srow, x);
        assert(srow[k].contains(x));
        assert(wp[i].contains(x));
    }
    if exists|k: int| is_composite(info, x, k) {
        let k = choose|k: int| is_composite(info, x, k);
        assert(cp[k].contains(x));
    }
    if exists|k: int, i: int| is_composite_word(info, x, k, i) {
        let (k, i) = choose|k: int, i: int| is_composite_word(info, x, k, i);
        let row = birth_row(c[k], w);
        lemma_union_all_contains(row, x);
        assert(row[i].contains(x));
        assert(cp[k].contains(x));
    }
}

/// A dictionary contributes the forms of its entries, and nothing else.
pub proof fn lemma_dictionary_origin(entries: Seq<Seq<char>>, x: Seq<char>)
    ensures
        union_all(dictionary_parts(entries)).contains(x) <==> exists|k: int|
            is_dictionary_form(entries, x, k),
{
    let parts = dictionary_parts(entries);
    lemma_union_all_contains(parts, x);
    if union_all(parts).contains(x) {
        let k = choose|k: int| 0 <= k < parts.len() && (#[trigger] parts[k]).contains(x);
        assert(is_dictionary_form(entries, x, k));
    }
    if exists|k: int| is_dictionary_form(entries, x, k) {
        let k = choose|k: int| is_dictionary_form(entries, x, k);
        assert(parts[k].contains(x));
    }
}

/// The pattern pass contributes the forms of the weak passwords and the
/// idioms of present words, and nothing else.
pub proof fn lemma_common_origin(info: &PersonalInfo, x: Seq<char>)
    ensures
        common_candidates(info).contains(x) <==> (exists|k: int|
            is_dictionary_form(common_passwords(), x, k)) || (exists|i: int|
            is_idiom(info, x, i)),
{
    let w = pattern_words(info);
    let parts = idiom_parts(w);
    lemma_dictionary_origin(common_passwords(), x);
    lemma_union_all_contains(parts, x);
    if union_all(parts).contains(x) {
        let i = choose|i: int| 0 <= i < parts.len() && (#[trigger] parts[i]).contains(x);
        assert(is_idiom(info, x, i));
    }
    if exists|i: int| is_idiom(info, x, i) {
        let i = choose|i: int| is_idiom(info, x, i);
        assert(parts[i].contains(x));
    }
}

/// The special pass contributes present words with the marks, and nothing
/// else.
pub proof fn lemma_special_origin(info: &PersonalInfo, x: Seq<char>)
    ensures
        special_candidates(info).contains(x) <==> exists|i: int, k: int|
            is_special(info, x, i, k),
{
    let w = pattern_words(info);
    let m = special_marks();
    let parts = special_parts(w, m);
    lemma_union_all_contains(parts, x);
    if union_all(parts).contains(x) {
        let i = choose|i: int| 0 <= i < parts.len() && (#[trigger] parts[i]).contains(x);
        let row = special_row(w[i], m);
        lemma_union_all_contains(row, x);
        let k = choose|k: int| 0 <= k < row.len() && (#[trigger] row[k]).contains(x);
        assert(is_special(info, x, i, k));
    }
    if exists|i: int, k: int| is_special(info, x, i, k) {
        let (i, k) = choose|i: int, k: int| is_special(info, x, i, k);
        let row = special_row(w[i], m);
        lemma_union_all_contains(row, x);
        assert(row[k].contains(x));
        assert(parts[i].contains(x));
    }
}

/// A string is a candidate exactly if one of the rules forms it from parts
/// that are all present: an absent field contributes to no candidate.
pub proof fn lemma_candidates_come_from_present_parts(info: &PersonalInfo, x: Seq<char>)
    ensures
        all_candidates(info).contains(x) <==> formed_from_present_parts(info, x),
{
    lemma_basic_origin(info, x);
    lemma_number_origin(info, x);
    lemma_common_origin(info, x);
    lemma_dictionary_origin(keyboard_patterns(), x);
    lemma_special_origin(info, x);
    assert(keyboard_candidates() == union_all(dictionary_parts(keyboard_patterns())));
}

} // verus!
