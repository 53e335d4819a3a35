//! The record of personal information that candidates are derived from.

use vstd::prelude::*;

verus! {

/// What is known about a person. Every field is optional: an empty string
/// means that the field is absent. No field is validated.
#[derive(Debug)]
pub struct PersonalInfo {
    pub name: String,
    pub surname: String,
    pub nickname: String,
    pub birth_year: String,
    pub birth_month: String,
    pub birth_day: String,
    pub phone: String,
    pub email: String,
    pub pet_name: String,
    pub favorite_number: String,
    pub company: String,
    pub school: String,
}

impl PersonalInfo {
    /// Every field is absent.
    pub open spec fn is_blank(&self) -> bool {
        &&& self.name@.len() == 0
        &&& self.surname@.len() == 0
        &&& self.nickname@.len() == 0
        &&& self.birth_year@.len() == 0
        &&& self.birth_month@.len() == 0
        &&& self.birth_day@.len() == 0
        &&& self.phone@.len() == 0
        &&& self.email@.len() == 0
        &&& self.pet_name@.len() == 0
        &&& self.favorite_number@.len() == 0
        &&& self.company@.len() == 0
        &&& self.school@.len() == 0
    }

    /// A record with every field absent.
    pub fn new() -> (info: Self)
        ensures
            info.is_blank(),
    {
        PersonalInfo {
            name: String::new(),
            surname: String::new(),
            nickname: String::new(),
            birth_year: String::new(),
            birth_month: String::new(),
            birth_day: String::new(),
            phone: String::new(),
            email: String::new(),
            pet_name: String::new(),
            favorite_number: String::new(),
            company: String::new(),
            school: String::new(),
        }
    }
}

impl Default for PersonalInfo {
    /// A record with every field absent.
    fn default() -> (info: Self)
        ensures
            info.is_blank(),
    {
        PersonalInfo::new()
    }
}

} // verus!
