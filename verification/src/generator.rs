//! The generator: a set of candidates that the five passes fill, and its
//! sorted listing.

use crate::info::PersonalInfo;
use crate::order::{
    ascending, is_sorted_listing, lemma_ascending_distinct_is_strict, lemma_sorted_listing_unique,
    sorted_listing, truncated,
};
use crate::rules::{
    all_candidates, basic_candidates, basic_words, birth_composites, birth_forms, birth_row,
    common_candidates, common_numbers, common_passwords, composite_forms, composite_parts,
    dictionary_forms, dictionary_parts, idiom_forms, idiom_parts, keyboard_candidates,
    keyboard_patterns, lemma_union_all_bounds, lemma_union_all_empty, lemma_union_all_step,
    number_candidates, number_forms, number_row, number_words, pair_forms, pair_parts, pair_row,
    pattern_words, personal_numbers, single_forms, single_parts, special_candidates,
    special_forms, special_marks, special_parts, special_row, suffix_forms, suffix_row,
    union_all, word_number_forms, word_number_parts,
};
use crate::text::{
    capitalize_first, join, last_chars, literal_views, sort_strings, to_lower, to_upper, views,
};
use vstd::prelude::*;
use vstd::string::*;

verus! {

/// The weak-password dictionary.
pub fn common_password_list() -> (r: Vec<&'static str>)
    ensures
        literal_views(r@) == common_passwords(),
{
    let r: Vec<&'static str> = vec![
        "password",
        "123456",
        "123456789",
        "qwerty",
        "abc123",
        "password123",
        "admin",
        "root",
        "user",
        "guest",
        "welcome",
        "login",
        "pass",
        "test",
        "demo",
        "12345678",
        "1234567890",
        "qwertyuiop",
        "asdfghjkl",
        "zxcvbnm",
        "iloveyou",
        "princess",
        "rockyou",
    ];
    assert(literal_views(r@) =~= common_passwords());
    r
}

/// The keyboard-pattern dictionary.
pub fn keyboard_pattern_list() -> (r: Vec<&'static str>)
    ensures
        literal_views(r@) == keyboard_patterns(),
{
    let r: Vec<&'static str> = vec![
        "qwerty",
        "asdfgh",
        "zxcvbn",
        "qwertyui",
        "asdfghjk",
        "zxcvbnm",
        "1qaz2wsx",
        "qazwsx",
        "123qwe",
        "qwe123",
        "asd123",
        "zxc123",
        "147258",
        "159357",
        "741852",
    ];
    assert(literal_views(r@) =~= keyboard_patterns());
    r
}

/// The fixed numeric suffixes.
pub fn common_number_list() -> (r: Vec<&'static str>)
    ensures
        literal_views(r@) == common_numbers(),
{
    let r: Vec<&'static str> = vec!["123", "321", "666", "888", "999", "000", "111", "222"];
    assert(literal_views(r@) =~= common_numbers());
    r
}

/// The punctuation marks of the special pass.
pub fn special_mark_list() -> (r: Vec<&'static str>)
    ensures
        literal_views(r@) == special_marks(),
{
    let r: Vec<&'static str> = vec!["!", "@", "#", "$", "%", "*", ".", "_"];
    assert(literal_views(r@) =~= special_marks());
    r
}

/// Builds the candidate set for one person.
pub struct PasswordGenerator {
    info: PersonalInfo,
    passwords: Vec<String>,
}

impl View for PasswordGenerator {
    type V = Set<Seq<char>>;

    /// The candidates collected so far.
    closed spec fn view(&self) -> Set<Seq<char>> {
        views(self.passwords@).to_set()
    }
}

impl PasswordGenerator {
    /// The record that the generator was made from.
    pub closed spec fn fields(&self) -> PersonalInfo {
        self.info
    }

    /// No candidate is stored twice.
    pub closed spec fn wf(&self) -> bool {
        views(self.passwords@).no_duplicates()
    }

    /// A generator for `info` that holds no candidate yet.
    pub fn new(info: PersonalInfo) -> (g: Self)
        ensures
            g.wf(),
            g@ == Set::<Seq<char>>::empty(),
            g.fields() == info,
    {
        let g = PasswordGenerator { info, passwords: Vec::new() };
        assert(g@ =~= Set::<Seq<char>>::empty());
        g
    }

    /// The candidate set of `info`: a new generator on which the five passes
    /// have run.
    pub fn generate(info: PersonalInfo) -> (g: Self)
        ensures
            g.wf(),
            g.fields() == info,
            g@ == all_candidates(&info),
    {
        let mut g = PasswordGenerator::new(info);
        g.generate_passwords();
        assert(g@ =~= all_candidates(&info));
        g
    }

    /// Adds `s` unless it is a candidate already.
    fn insert(&mut self, s: String)
        requires
            old(self).wf(),
        ensures
            final(self).wf(),
            final(self)@ == old(self)@.insert(s@),
            final(self).fields() == old(self).fields(),
    {
        let ghost before = views(self.passwords@);
        let mut i: usize = 0;
        while i < self.passwords.len()
            invariant
                0 <= i <= self.passwords.len(),
                *self == *old(self),
                self.wf(),
                before == views(self.passwords@),
                forall|k: int| 0 <= k < i ==> self.passwords[k]@ != s@,
            decreases self.passwords.len() - i,
        {
            if self.passwords[i] == s {
                assert(before[i as int] == s@);
                assert(before.contains(s@));
                assert(self@ =~= old(self)@.insert(s@));
                return ;
            }
            i += 1;
        }
        self.passwords.push(s);
        assert(views(self.passwords@) =~= before.push(s@));
        assert forall|x: Seq<char>| self@.contains(x) <==> old(self)@.insert(s@).contains(x) by {
            if before.push(s@).contains(x) {
                let k = choose|k: int| 0 <= k < before.len() + 1 && before.push(s@)[k] == x;
                if k < before.len() {
                    assert(before[k] == x);
                }
            }
            if before.contains(x) {
                let k = choose|k: int| 0 <= k < before.len() && before[k] == x;
                assert(before.push(s@)[k] == x);
            }
            assert(before.push(s@)[before.len() as int] == s@);
        }
        assert(self@ =~= old(self)@.insert(s@));
    }

    /// Adds a word alone in its three case forms.
    fn add_single_forms(&mut self, word: &str)
        requires
            old(self).wf(),
        ensures
            final(self).wf(),
            final(self).fields() == old(self).fields(),
            final(self)@ == old(self)@.union(single_forms(word@)),
    {
        if !word.is_empty() {
            self.insert(to_lower(word));
            self.insert(String::from_str(word));
            self.insert(capitalize_first(word));
        }
        assert(self@ =~= old(self)@.union(single_forms(word@)));
    }

    /// Adds two words in a row in the three case forms.
    fn add_pair_forms(&mut self, a: &str, b: &str)
        requires
            old(self).wf(),
        ensures
            final(self).wf(),
            final(self).fields() == old(self).fields(),
            final(self)@ == old(self)@.union(pair_forms(a@, b@)),
    {
        if !a.is_empty() && !b.is_empty() {
            let la = to_lower(a);
            let lb = to_lower(b);
            self.insert(join(la.as_str(), lb.as_str()));
            self.insert(join(a, b));
            let ca = capitalize_first(a);
            let cb = capitalize_first(b);
            self.insert(join(ca.as_str(), cb.as_str()));
        }
        assert(self@ =~= old(self)@.union(pair_forms(a@, b@)));
    }

    /// Adds the pairs of word `i` with each later word.
    fn add_pair_row(&mut self, words: &Vec<String>, i: usize)
        requires
            old(self).wf(),
            i < words.len(),
        ensures
            final(self).wf(),
            final(self).fields() == old(self).fields(),
            final(self)@ == old(self)@.union(union_all(pair_row(views(words@), i as int))),
    {
        let ghost base = self@;
        let ghost parts = pair_row(views(words@), i as int);
        proof {
            lemma_union_all_bounds(parts);
            assert(self@ =~= base.union(union_all(parts.take(0))));
        }
        let mut j: usize = i + 1;
        while j < words.len()
            invariant
                i + 1 <= j <= words.len(),
                parts.len() == words.len() - i - 1,
                self.wf(),
                self.fields() == old(self).fields(),
                parts == pair_row(views(words@), i as int),
                self@ == base.union(union_all(parts.take(j - i - 1))),
            decreases words.len() - j,
        {
            self.add_pair_forms(words[i].as_str(), words[j].as_str());
            proof {
                lemma_union_all_step(parts, j - i - 1);
                assert(parts[j - i - 1] == pair_forms(words[i as int]@, words[j as int]@));
                assert(self@ =~= base.union(union_all(parts.take(j - i))));
            }
            j += 1;
        }
    }

    /// Adds every word alone.
    fn add_singles(&mut self, words: &Vec<String>)
        requires
            old(self).wf(),
        ensures
            final(self).wf(),
            final(self).fields() == old(self).fields(),
            final(self)@ == old(self)@.union(union_all(single_parts(views(words@)))),
    {
        let ghost base = self@;
        let ghost parts = single_parts(views(words@));
        proof {
            lemma_union_all_bounds(parts);
            assert(self@ =~= base.union(union_all(parts.take(0))));
        }
        let mut k: usize = 0;
        while k < words.len()
            invariant
                0 <= k <= words.len(),
                parts.len() == words.len(),
                self.wf(),
                self.fields() == old(self).fields(),
                parts == single_parts(views(words@)),
                self@ == base.union(union_all(parts.take(k as int))),
            decreases words.len() - k,
        {
            self.add_single_forms(words[k].as_str());
            proof {
                lemma_union_all_step(parts, k as int);
                assert(parts[k as int] == single_forms(words[k as int]@));
                assert(self@ =~= base.union(union_all(parts.take(k + 1))));
            }
            k += 1;
        }
    }

    /// Adds every pair of words, the earlier word standing first.
    fn add_pairs(&mut self, words: &Vec<String>)
        requires
            old(self).wf(),
        ensures
            final(self).wf(),
            final(self).fields() == old(self).fields(),
            final(self)@ == old(self)@.union(union_all(pair_parts(views(words@)))),
    {
        let ghost base = self@;
        let ghost parts = pair_parts(views(words@));
        proof {
            lemma_union_all_bounds(parts);
            assert(self@ =~= base.union(union_all(parts.take(0))));
        }
        let mut k: usize = 0;
        while k < words.len()
            invariant
                0 <= k <= words.len(),
                parts.len() == words.len(),
                self.wf(),
                self.fields() == old(self).fields(),
                parts == pair_parts(views(words@)),
                self@ == base.union(union_all(parts.take(k as int))),
            decreases words.len() - k,
        {
            self.add_pair_row(words, k);
            proof {
                lemma_union_all_step(parts, k as int);
                assert(parts[k as int] == union_all(pair_row(views(words@), k as int)));
                assert(self@ =~= base.union(union_all(parts.take(k + 1))));
            }
            k += 1;
        }
    }

    /// The basic pass: every word field alone, and every pair of them in field
    /// order, in three case forms.
    pub fn add_basic_combinations(&mut self)
        requires
            old(self).wf(),
        ensures
            final(self).wf(),
            final(self).fields() == old(self).fields(),
            final(self)@ == old(self)@.union(basic_candidates(&old(self).fields())),
    {
        let words: Vec<String> = vec![
            self.info.name.clone(),
            self.info.surname.clone(),
            self.info.nickname.clone(),
            self.info.pet_name.clone(),
            self.info.company.clone(),
            self.info.school.clone(),
        ];
        assert(views(words@) =~= basic_words(&self.info));
        self.add_singles(&words);
        self.add_pairs(&words);
        assert(self@ =~= old(self)@.union(basic_candidates(&old(self).fields())));
    }

    /// Adds a word with a number behind it and before it.
    fn add_number_forms(&mut self, word: &str, num: &str)
        requires
            old(self).wf(),
        ensures
            final(self).wf(),
            final(self).fields() == old(self).fields(),
            final(self)@ == old(self)@.union(number_forms(word@, num@)),
    {
        if !word.is_empty() && !num.is_empty() {
            let lower = to_lower(word);
            self.insert(join(lower.as_str(), num));
            self.insert(join(word, num));
            self.insert(join(num, lower.as_str()));
            self.insert(join(num, word));
        }
        assert(self@ =~= old(self)@.union(number_forms(word@, num@)));
    }

    /// Adds a word with a fixed suffix behind it.
    fn add_suffix_forms(&mut self, word: &str, suffix: &str)
        requires
            old(self).wf(),
        ensures
            final(self).wf(),
            final(self).fields() == old(self).fields(),
            final(self)@ == old(self)@.union(suffix_forms(word@, suffix@)),
    {
        if !word.is_empty() {
            let lower = to_lower(word);
            self.insert(join(lower.as_str(), suffix));
            self.insert(join(word, suffix));
        }
        assert(self@ =~= old(self)@.union(suffix_forms(word@, suffix@)));
    }

    /// Adds a word with each of the numbers that is present.
    fn add_number_row(&mut self, word: &str, numbers: &Vec<String>)
        requires
            old(self).wf(),
        ensures
            final(self).wf(),
            final(self).fields() == old(self).fields(),
            final(self)@ == old(self)@.union(union_all(number_row(word@, views(numbers@)))),
    {
        let ghost base = self@;
        let ghost parts = number_row(word@, views(numbers@));
        proof {
            lemma_union_all_bounds(parts);
            assert(self@ =~= base.union(union_all(parts.take(0))));
        }
        if !word.is_empty() {
            let mut k: usize = 0;
            while k < numbers.len()
                invariant
                    0 <= k <= numbers.len(),
                    parts.len() == numbers.len(),
                    self.wf(),
                    self.fields() == old(self).fields(),
                    parts == number_row(word@, views(numbers@)),
                    self@ == base.union(union_all(parts.take(k as int))),
                decreases numbers.len() - k,
            {
                self.add_number_forms(word, numbers[k].as_str());
                proof {
                    lemma_union_all_step(parts, k as int);
                    assert(parts[k as int] == number_forms(word@, numbers[k as int]@));
                    assert(self@ =~= base.union(union_all(parts.take(k + 1))));
                }
                k += 1;
            }
        } else {
            proof {
                lemma_union_all_empty(parts);
                assert(self@ =~= base.union(union_all(parts)));
            }
        }
    }

    /// Adds a word with each of the fixed suffixes.
    fn add_suffix_row(&mut self, word: &str, suffixes: &Vec<&'static str>)
        requires
            old(self).wf(),
        ensures
            final(self).wf(),
            final(self).fields() == old(self).fields(),
            final(self)@ == old(self)@.union(union_all(suffix_row(word@, literal_views(suffixes@)))),
    {
        let ghost base = self@;
        let ghost parts = suffix_row(word@, literal_views(suffixes@));
        proof {
            lemma_union_all_bounds(parts);
            assert(self@ =~= base.union(union_all(parts.take(0))));
        }
        if !word.is_empty() {
            let mut k: usize = 0;
            while k < suffixes.len()
                invariant
                    0 <= k <= suffixes.len(),
                    parts.len() == suffixes.len(),
                    self.wf(),
                    self.fields() == old(self).fields(),
                    parts == suffix_row(word@, literal_views(suffixes@)),
                    self@ == base.union(union_all(parts.take(k as int))),
                decreases suffixes.len() - k,
            {
                self.add_suffix_forms(word, suffixes[k]);
                proof {
                    lemma_union_all_step(parts, k as int);
                    assert(parts[k as int] == suffix_forms(word@, suffixes[k as int]@));
                    assert(self@ =~= base.union(union_all(parts.take(k + 1))));
                }
                k += 1;
            }
        } else {
            proof {
                lemma_union_all_empty(parts);
                assert(self@ =~= base.union(union_all(parts)));
            }
        }
    }

    /// Adds all that one word gives with the numbers and the suffixes.
    fn add_word_numbers(&mut self, word: &str, numbers: &Vec<String>, suffixes: &Vec<&'static str>)
        requires
            old(self).wf(),
        ensures
            final(self).wf(),
            final(self).fields() == old(self).fields(),
            final(self)@ == old(self)@.union(word_number_forms(word@, views(numbers@), literal_views(suffixes@))),
    {
        self.add_number_row(word, numbers);
        self.add_suffix_row(word, suffixes);
        assert(self@ =~= old(self)@.union(word_number_forms(word@, views(numbers@), literal_views(suffixes@))));
    }

    /// Adds every word with the numbers and the suffixes.
    fn add_words_numbers(&mut self, words: &Vec<String>, numbers: &Vec<String>, suffixes: &Vec<&'static str>)
        requires
            old(self).wf(),
        ensures
            final(self).wf(),
            final(self).fields() == old(self).fields(),
            final(self)@ == old(self)@.union(union_all(word_number_parts(views(words@), views(numbers@), literal_views(suffixes@)))),
    {
        let ghost base = self@;
        let ghost parts = word_number_parts(views(words@), views(numbers@), literal_views(suffixes@));
        proof {
            lemma_union_all_bounds(parts);
            assert(self@ =~= base.union(union_all(parts.take(0))));
        }
        let mut k: usize = 0;
        while k < words.len()
            invariant
                0 <= k <= words.len(),
                parts.len() == words.len(),
                self.wf(),
                self.fields() == old(self).fields(),
                parts == word_number_parts(views(words@), views(numbers@), literal_views(suffixes@)),
                self@ == base.union(union_all(parts.take(k as int))),
            decreases words.len() - k,
        {
            self.add_word_numbers(words[k].as_str(), numbers, suffixes);
            proof {
                lemma_union_all_step(parts, k as int);
                assert(parts[k as int] == word_number_forms(words[k as int]@, views(numbers@), literal_views(suffixes@)));
                assert(self@ =~= base.union(union_all(parts.take(k + 1))));
            }
            k += 1;
        }
    }

    /// Adds a lowercase word with a composite behind it and before it.
    fn add_birth_forms(&mut self, composite: &str, word: &str)
        requires
            old(self).wf(),
        ensures
            final(self).wf(),
            final(self).fields() == old(self).fields(),
            final(self)@ == old(self)@.union(birth_forms(composite@, word@)),
    {
        if !word.is_empty() {
            let lower = to_lower(word);
            self.insert(join(lower.as_str(), composite));
            self.insert(join(composite, lower.as_str()));
        }
        assert(self@ =~= old(self)@.union(birth_forms(composite@, word@)));
    }

    /// Adds a composite with every word.
    fn add_birth_row(&mut self, composite: &str, words: &Vec<String>)
        requires
            old(self).wf(),
        ensures
            final(self).wf(),
            final(self).fields() == old(self).fields(),
            final(self)@ == old(self)@.union(union_all(birth_row(composite@, views(words@)))),
    {
        let ghost base = self@;
        let ghost parts = birth_row(composite@, views(words@));
        proof {
            lemma_union_all_bounds(parts);
            assert(self@ =~= base.union(union_all(parts.take(0))));
        }
        let mut k: usize = 0;
        while k < words.len()
            invariant
                0 <= k <= words.len(),
                parts.len() == words.len(),
                self.wf(),
                self.fields() == old(self).fields(),
                parts == birth_row(composite@, views(words@)),
                self@ == base.union(union_all(parts.take(k as int))),
            decreases words.len() - k,
        {
            self.add_birth_forms(composite, words[k].as_str());
            proof {
                lemma_union_all_step(parts, k as int);
                assert(parts[k as int] == birth_forms(composite@, words[k as int]@));
                assert(self@ =~= base.union(union_all(parts.take(k + 1))));
            }
            k += 1;
        }
    }

    /// Adds a composite alone and with every word.
    fn add_composite_forms(&mut self, composite: &str, words: &Vec<String>)
        requires
            old(self).wf(),
        ensures
            final(self).wf(),
            final(self).fields() == old(self).fields(),
            final(self)@ == old(self)@.union(composite_forms(composite@, views(words@))),
    {
        self.insert(String::from_str(composite));
        self.add_birth_row(composite, words);
        assert(self@ =~= old(self)@.union(composite_forms(composite@, views(words@))));
    }

    /// Adds every composite alone and with every word.
    fn add_composites(&mut self, composites: &Vec<String>, words: &Vec<String>)
        requires
            old(self).wf(),
        ensures
            final(self).wf(),
            final(self).fields() == old(self).fields(),
            final(self)@ == old(self)@.union(union_all(composite_parts(views(composites@), views(words@)))),
    {
        let ghost base = self@;
        let ghost parts = composite_parts(views(composites@), views(words@));
        proof {
            lemma_union_all_bounds(parts);
            assert(self@ =~= base.union(union_all(parts.take(0))));
        }
        let mut k: usize = 0;
        while k < composites.len()
            invariant
                0 <= k <= composites.len(),
                parts.len() == composites.len(),
                self.wf(),
                self.fields() == old(self).fields(),
                parts == composite_parts(views(composites@), views(words@)),
                self@ == base.union(union_all(parts.take(k as int))),
            decreases composites.len() - k,
        {
            self.add_composite_forms(composites[k].as_str(), words);
            proof {
                lemma_union_all_step(parts, k as int);
                assert(parts[k as int] == composite_forms(composites[k as int]@, views(words@)));
                assert(self@ =~= base.union(union_all(parts.take(k + 1))));
            }
            k += 1;
        }
    }

    /// The number pass: words with the personal numbers and the fixed suffixes,
    /// and the composites of a complete birth date.
    pub fn add_number_combinations(&mut self)
        requires
            old(self).wf(),
        ensures
            final(self).wf(),
            final(self).fields() == old(self).fields(),
            final(self)@ == old(self)@.union(number_candidates(&old(self).fields())),
    {
        let words: Vec<String> = vec![
            self.info.name.clone(),
            self.info.surname.clone(),
            self.info.nickname.clone(),
            self.info.pet_name.clone(),
        ];
        let numbers: Vec<String> = vec![
            self.info.birth_year.clone(),
            self.info.birth_month.clone(),
            self.info.birth_day.clone(),
            self.info.favorite_number.clone(),
            last_chars(self.info.phone.as_str(), 4),
        ];
        let suffixes = common_number_list();
        assert(views(words@) =~= number_words(&self.info));
        assert(views(numbers@) =~= personal_numbers(&self.info));
        self.add_words_numbers(&words, &numbers, &suffixes);
        if !self.info.birth_year.as_str().is_empty() && !self.info.birth_month.as_str().is_empty()
            && !self.info.birth_day.as_str().is_empty() {
            let year_month = join(self.info.birth_year.as_str(), self.info.birth_month.as_str());
            let composites: Vec<String> = vec![
                join(year_month.as_str(), self.info.birth_day.as_str()),
                join(self.info.birth_month.as_str(), self.info.birth_day.as_str()),
                join(self.info.birth_day.as_str(), self.info.birth_month.as_str()),
                last_chars(self.info.birth_year.as_str(), 2),
            ];
            assert(views(composites@) =~= birth_composites(&self.info));
            self.add_composites(&composites, &words);
        }
        assert(self@ =~= old(self)@.union(number_candidates(&old(self).fields())));
    }

    /// Adds a dictionary entry as it stands, capitalized, and in uppercase.
    fn add_dictionary_forms(&mut self, entry: &str)
        requires
            old(self).wf(),
        ensures
            final(self).wf(),
            final(self).fields() == old(self).fields(),
            final(self)@ == old(self)@.union(dictionary_forms(entry@)),
    {
        self.insert(String::from_str(entry));
        self.insert(capitalize_first(entry));
        self.insert(to_upper(entry));
        assert(self@ =~= old(self)@.union(dictionary_forms(entry@)));
    }

    /// Adds every entry of a dictionary in its three forms.
    fn add_dictionary(&mut self, entries: &Vec<&'static str>)
        requires
            old(self).wf(),
        ensures
            final(self).wf(),
            final(self).fields() == old(self).fields(),
            final(self)@ == old(self)@.union(union_all(dictionary_parts(literal_views(entries@)))),
    {
        let ghost base = self@;
        let ghost parts = dictionary_parts(literal_views(entries@));
        proof {
            lemma_union_all_bounds(parts);
            assert(self@ =~= base.union(union_all(parts.take(0))));
        }
        let mut k: usize = 0;
        while k < entries.len()
            invariant
                0 <= k <= entries.len(),
                parts.len() == entries.len(),
                self.wf(),
                self.fields() == old(self).fields(),
                parts == dictionary_parts(literal_views(entries@)),
                self@ == base.union(union_all(parts.take(k as int))),
            decreases entries.len() - k,
        {
            self.add_dictionary_forms(entries[k]);
            proof {
                lemma_union_all_step(parts, k as int);
                assert(parts[k as int] == dictionary_forms(entries[k as int]@));
                assert(self@ =~= base.union(union_all(parts.take(k + 1))));
            }
            k += 1;
        }
    }

    /// Adds a lowercase word with the usual endings and in the two idioms.
    fn add_idiom_forms(&mut self, word: &str)
        requires
            old(self).wf(),
        ensures
            final(self).wf(),
            final(self).fields() == old(self).fields(),
            final(self)@ == old(self)@.union(idiom_forms(word@)),
    {
        if !word.is_empty() {
            let lower = to_lower(word);
            self.insert(join(lower.as_str(), "123"));
            self.insert(join(lower.as_str(), "321"));
            self.insert(join(lower.as_str(), "666"));
            self.insert(join(lower.as_str(), "888"));
            self.insert(join("i_love_", lower.as_str()));
            self.insert(join("my_", lower.as_str()));
        }
        assert(self@ =~= old(self)@.union(idiom_forms(word@)));
    }

    /// Adds the idioms of every word.
    fn add_idioms(&mut self, words: &Vec<String>)
        requires
            old(self).wf(),
        ensures
            final(self).wf(),
            final(self).fields() == old(self).fields(),
            final(self)@ == old(self)@.union(union_all(idiom_parts(views(words@)))),
    {
        let ghost base = self@;
        let ghost parts = idiom_parts(views(words@));
        proof {
            lemma_union_all_bounds(parts);
            assert(self@ =~= base.union(union_all(parts.take(0))));
        }
        let mut k: usize = 0;
        while k < words.len()
            invariant
                0 <= k <= words.len(),
                parts.len() == words.len(),
                self.wf(),
                self.fields() == old(self).fields(),
                parts == idiom_parts(views(words@)),
                self@ == base.union(union_all(parts.take(k as int))),
            decreases words.len() - k,
        {
            self.add_idiom_forms(words[k].as_str());
            proof {
                lemma_union_all_step(parts, k as int);
                assert(parts[k as int] == idiom_forms(words[k as int]@));
                assert(self@ =~= base.union(union_all(parts.take(k + 1))));
            }
            k += 1;
        }
    }

    /// The pattern pass: the weak-password dictionary in three forms, and the
    /// idioms of name, surname and nickname.
    pub fn add_common_patterns(&mut self)
        requires
            old(self).wf(),
        ensures
            final(self).wf(),
            final(self).fields() == old(self).fields(),
            final(self)@ == old(self)@.union(common_candidates(&old(self).fields())),
    {
        let entries = common_password_list();
        self.add_dictionary(&entries);
        let words: Vec<String> = vec![
            self.info.name.clone(),
            self.info.surname.clone(),
            self.info.nickname.clone(),
        ];
        assert(views(words@) =~= pattern_words(&self.info));
        self.add_idioms(&words);
        assert(self@ =~= old(self)@.union(common_candidates(&old(self).fields())));
    }

    /// The keyboard pass: the keyboard dictionary in three forms.
    pub fn add_keyboard_patterns(&mut self)
        requires
            old(self).wf(),
        ensures
            final(self).wf(),
            final(self).fields() == old(self).fields(),
            final(self)@ == old(self)@.union(keyboard_candidates()),
    {
        let entries = keyboard_pattern_list();
        self.add_dictionary(&entries);
    }

    /// Adds a lowercase word with a mark behind it, before it, and behind it followed by "123".
    fn add_special_forms(&mut self, word: &str, mark: &str)
        requires
            old(self).wf(),
        ensures
            final(self).wf(),
            final(self).fields() == old(self).fields(),
            final(self)@ == old(self)@.union(special_forms(word@, mark@)),
    {
        if !word.is_empty() {
            let lower = to_lower(word);
            self.insert(join(lower.as_str(), mark));
            self.insert(join(mark, lower.as_str()));
            let marked = join(lower.as_str(), mark);
            self.insert(join(marked.as_str(), "123"));
        }
        assert(self@ =~= old(self)@.union(special_forms(word@, mark@)));
    }

    /// Adds a word with every mark.
    fn add_special_row(&mut self, word: &str, marks: &Vec<&'static str>)
        requires
            old(self).wf(),
        ensures
            final(self).wf(),
            final(self).fields() == old(self).fields(),
            final(self)@ == old(self)@.union(union_all(special_row(word@, literal_views(marks@)))),
    {
        let ghost base = self@;
        let ghost parts = special_row(word@, literal_views(marks@));
        proof {
            lemma_union_all_bounds(parts);
            assert(self@ =~= base.union(union_all(parts.take(0))));
        }
        if !word.is_empty() {
            let mut k: usize = 0;
            while k < marks.len()
                invariant
                    0 <= k <= marks.len(),
                    parts.len() == marks.len(),
                    self.wf(),
                    self.fields() == old(self).fields(),
                    parts == special_row(word@, literal_views(marks@)),
                    self@ == base.union(union_all(parts.take(k as int))),
                decreases marks.len() - k,
            {
                self.add_special_forms(word, marks[k]);
                proof {
                    lemma_union_all_step(parts, k as int);
                    assert(parts[k as int] == special_forms(word@, marks[k as int]@));
                    assert(self@ =~= base.union(union_all(parts.take(k + 1))));
                }
                k += 1;
            }
        } else {
            proof {
                lemma_union_all_empty(parts);
                assert(self@ =~= base.union(union_all(parts)));
            }
        }
    }

    /// Adds every word with every mark.
    fn add_specials(&mut self, words: &Vec<String>, marks: &Vec<&'static str>)
        requires
            old(self).wf(),
        ensures
            final(self).wf(),
            final(self).fields() == old(self).fields(),
            final(self)@ == old(self)@.union(union_all(special_parts(views(words@), literal_views(marks@)))),
    {
        let ghost base = self@;
        let ghost parts = special_parts(views(words@), literal_views(marks@));
        proof {
            lemma_union_all_bounds(parts);
            assert(self@ =~= base.union(union_all(parts.take(0))));
        }
        let mut k: usize = 0;
        while k < words.len()
            invariant
                0 <= k <= words.len(),
                parts.len() == words.len(),
                self.wf(),
                self.fields() == old(self).fields(),
                parts == special_parts(views(words@), literal_views(marks@)),
                self@ == base.union(union_all(parts.take(k as int))),
            decreases words.len() - k,
        {
            self.add_special_row(words[k].as_str(), marks);
            proof {
                lemma_union_all_step(parts, k as int);
                assert(parts[k as int] == union_all(special_row(words[k as int]@, literal_views(marks@))));
                assert(self@ =~= base.union(union_all(parts.take(k + 1))));
            }
            k += 1;
        }
    }

    /// The special pass: name, surname and nickname with every punctuation
    /// mark.
    pub fn add_special_combinations(&mut self)
        requires
            old(self).wf(),
        ensures
            final(self).wf(),
            final(self).fields() == old(self).fields(),
            final(self)@ == old(self)@.union(special_candidates(&old(self).fields())),
    {
        let words: Vec<String> = vec![
            self.info.name.clone(),
            self.info.surname.clone(),
            self.info.nickname.clone(),
        ];
        let marks = special_mark_list();
        assert(views(words@) =~= pattern_words(&self.info));
        self.add_specials(&words, &marks);
    }

    /// Runs the five passes in their fixed order.
    pub fn generate_passwords(&mut self)
        requires
            old(self).wf(),
        ensures
            final(self).wf(),
            final(self).fields() == old(self).fields(),
            final(self)@ == old(self)@.union(all_candidates(&old(self).fields())),
    {
        self.add_basic_combinations();
        self.add_number_combinations();
        self.add_common_patterns();
        self.add_keyboard_patterns();
        self.add_special_combinations();
        assert(self@ =~= old(self)@.union(all_candidates(&old(self).fields())));
    }

    /// The candidates in ascending order, each once.
    pub fn get_passwords(&self) -> (list: Vec<String>)
        requires
            self.wf(),
        ensures
            is_sorted_listing(views(list@), self@),
            views(list@) == sorted_listing(self@),
            views(list@).no_duplicates(),
            ascending(views(list@)),
            self@.finite(),
            list@.len() == self@.len(),
    {
        let mut list: Vec<String> = Vec::new();
        let mut i: usize = 0;
        while i < self.passwords.len()
            invariant
                0 <= i <= self.passwords.len(),
                list@ == self.passwords@.take(i as int),
            decreases self.passwords.len() - i,
        {
            list.push(self.passwords[i].clone());
            assert(list@ =~= self.passwords@.take(i + 1));
            i += 1;
        }
        assert(list@ =~= self.passwords@);
        let ghost stored = views(self.passwords@);
        sort_strings(&mut list);
        proof {
            let sorted = views(list@);
            stored.to_multiset_ensures();
            sorted.to_multiset_ensures();
            stored.lemma_multiset_has_no_duplicates();
            sorted.lemma_multiset_has_no_duplicates_conv();
            lemma_ascending_distinct_is_strict(sorted);
            stored.unique_seq_to_set();
            assert forall|x: Seq<char>| sorted.contains(x) <==> self@.contains(x) by {
                assert(sorted.contains(x) <==> sorted.to_multiset().count(x) > 0);
                assert(stored.contains(x) <==> stored.to_multiset().count(x) > 0);
            }
            lemma_sorted_listing_unique(sorted, sorted_listing(self@), self@);
            vstd::seq_lib::seq_to_set_is_finite(stored);
        }
        list
    }

    /// The sorted candidates, cut to the first `limit` where a limit is given
    /// and smaller than their number.
    pub fn materialize(&self, limit: Option<usize>) -> (list: Vec<String>)
        requires
            self.wf(),
        ensures
            views(list@) == truncated(sorted_listing(self@), limit),
            is_sorted_listing(sorted_listing(self@), self@),
            views(list@).no_duplicates(),
            ascending(views(list@)),
            forall|i: int| 0 <= i < list@.len() ==> self@.contains(#[trigger] list@[i]@),
            self@.finite(),
            list@.len() == match limit {
                Some(n) => if n < self@.len() {
                    n as nat
                } else {
                    self@.len()
                },
                None => self@.len(),
            },
    {
        let mut list = self.get_passwords();
        let ghost full = views(list@);
        proof {
            assert forall|i: int| 0 <= i < full.len() implies self@.contains(#[trigger] full[i]) by {
                assert(full.contains(full[i]));
            }
        }
        match limit {
            Some(n) => {
                list.truncate(n);
            },
            None => {},
        }
        assert(views(list@) =~= truncated(sorted_listing(self@), limit));
        assert forall|i: int| 0 <= i < list@.len() implies self@.contains(#[trigger] list@[i]@) by {
            assert(views(list@)[i] == full[i]);
        }
        list
    }
}

} // verus!
