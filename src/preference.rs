//! Profiles as the filter reads them, stored preference sets, and the pure
//! predicate that decides whether a profile meets a preference set.
use crate::text::{ascii_ci_eq, eq_ignore_case};
use crate::wire::{decode_list, encode_list, json_array_text, json_list_of, opt_list_view};
use vstd::prelude::*;

verus! {

/// A user's profile. Every field but the identity and the contact address
/// may be missing.
#[derive(Debug)]
pub struct Profile {
    pub user_id: i32,
    pub email: String,
    pub name: Option<String>,
    pub age: Option<i32>,
    pub major: Option<String>,
    pub year: Option<String>,
    pub bio: Option<String>,
    pub interests: Option<Vec<String>>,
    pub profile_picture: Option<String>,
    pub gender: Option<String>,
    pub is_felon: Option<bool>,
}

/// A stored preference set. A field that is `None` does not restrict.
#[derive(Debug)]
pub struct PreferenceSet {
    pub gender_preference: Option<Vec<String>>,
    pub min_age: Option<i32>,
    pub max_age: Option<i32>,
    pub year_preference: Option<Vec<String>>,
    pub major_preference: Option<Vec<String>>,
    pub is_felon: Option<bool>,
}

impl PreferenceSet {
    /// The preference set that restricts nothing.
    pub fn unrestricted() -> (r: PreferenceSet)
        ensures
            r.gender_preference is None,
            r.min_age is None,
            r.max_age is None,
            r.year_preference is None,
            r.major_preference is None,
            r.is_felon is None,
    {
        PreferenceSet {
            gender_preference: None,
            min_age: None,
            max_age: None,
            year_preference: None,
            major_preference: None,
            is_felon: None,
        }
    }
}

/// A preference set as the store keeps it: each list as JSON text, the
/// felon status as 1 or 0.
#[derive(Debug)]
pub struct StoredPreferences {
    pub gender_preference: Option<String>,
    pub min_age: Option<i32>,
    pub max_age: Option<i32>,
    pub year_preference: Option<String>,
    pub major_preference: Option<String>,
    pub is_felon: Option<i32>,
}

/// The list that stored text decodes to; text that is not a JSON array of
/// strings restricts nothing.
pub open spec fn decoded(text: Option<String>) -> Option<Seq<Seq<char>>> {
    match text {
        Some(t) => json_list_of(t@),
        None => None,
    }
}

/// The stored text of a list.
pub open spec fn encoded(list: Option<Vec<String>>) -> Option<Seq<char>> {
    match list {
        Some(v) => Some(json_array_text(v@)),
        None => None,
    }
}

fn decode_field(text: &Option<String>) -> (r: Option<Vec<String>>)
    ensures
        opt_list_view(r) == decoded(*text),
{
    match text {
        Some(t) => decode_list(t.as_str()),
        None => None,
    }
}

fn encode_field(list: &Option<Vec<String>>) -> (r: Option<String>)
    ensures
        crate::wire::opt_view(r) == encoded(*list),
{
    match list {
        Some(v) => Some(encode_list(v)),
        None => None,
    }
}

impl PreferenceSet {
    /// The preference set that the stored row describes.
    pub fn from_stored(stored: &StoredPreferences) -> (r: PreferenceSet)
        ensures
            opt_list_view(r.gender_preference) == decoded(stored.gender_preference),
            r.min_age == stored.min_age,
            r.max_age == stored.max_age,
            opt_list_view(r.year_preference) == decoded(stored.year_preference),
            opt_list_view(r.major_preference) == decoded(stored.major_preference),
            r.is_felon == (match stored.is_felon {
                Some(v) => Some(v != 0),
                None => None,
            }),
    {
        PreferenceSet {
            gender_preference: decode_field(&stored.gender_preference),
            min_age: stored.min_age,
            max_age: stored.max_age,
            year_preference: decode_field(&stored.year_preference),
            major_preference: decode_field(&stored.major_preference),
            is_felon: match stored.is_felon {
                Some(v) => Some(v != 0),
                None => None,
            },
        }
    }

    /// The row that stores this preference set.
    pub fn to_stored(&self) -> (r: StoredPreferences)
        ensures
            crate::wire::opt_view(r.gender_preference) == encoded(self.gender_preference),
            r.min_age == self.min_age,
            r.max_age == self.max_age,
            crate::wire::opt_view(r.year_preference) == encoded(self.year_preference),
            crate::wire::opt_view(r.major_preference) == encoded(self.major_preference),
            r.is_felon == (match self.is_felon {
                Some(true) => Some(1i32),
                Some(false) => Some(0i32),
                None => None,
            }),
    {
        StoredPreferences {
            gender_preference: encode_field(&self.gender_preference),
            min_age: self.min_age,
            max_age: self.max_age,
            year_preference: encode_field(&self.year_preference),
            major_preference: encode_field(&self.major_preference),
            is_felon: match self.is_felon {
                Some(true) => Some(1),
                Some(false) => Some(0),
                None => None,
            },
        }
    }
}

/// The strings of `v`, as character sequences.
pub open spec fn strings_of(v: Vec<String>) -> Seq<Seq<char>> {
    v@.map_values(|s: String| s@)
}

fn strings(items: &[&str]) -> (r: Vec<String>)
    ensures
        strings_of(r) == items@.map_values(|s: &str| s@),
{
    let mut out: Vec<String> = Vec::new();
    let mut i: usize = 0;
    while i < items.len()
        invariant
            i <= items@.len(),
            strings_of(out) == items@.subrange(0, i as int).map_values(|s: &str| s@),
        decreases items@.len() - i,
    {
        let ghost before = strings_of(out);
        out.push(String::from_str(items[i]));
        proof {
            assert(strings_of(out) =~= before.push(items@[i as int]@));
            assert(items@.subrange(0, i + 1).map_values(|s: &str| s@) =~= items@.subrange(
                0,
                i as int,
            ).map_values(|s: &str| s@).push(items@[i as int]@));
        }
        i = i + 1;
    }
    assert(items@.subrange(0, items@.len() as int) == items@);
    out
}

/// The genders a preference set may name.
pub fn gender_options() -> (r: Vec<String>)
    ensures
        strings_of(r) == seq!["Male"@, "Female"@, "Other"@],
{
    let items: [&str; 3] = ["Male", "Female", "Other"];
    let r = strings(&items);
    assert(items@.map_values(|s: &str| s@) =~= seq!["Male"@, "Female"@, "Other"@]);
    r
}

/// The class years a preference set may name.
pub fn year_options() -> (r: Vec<String>)
    ensures
        strings_of(r) == seq!["Freshman"@, "Sophomore"@, "Junior"@, "Senior"@, "Graduate"@],
{
    let items: [&str; 5] = ["Freshman", "Sophomore", "Junior", "Senior", "Graduate"];
    let r = strings(&items);
    assert(items@.map_values(|s: &str| s@) =~= seq![
        "Freshman"@,
        "Sophomore"@,
        "Junior"@,
        "Senior"@,
        "Graduate"@,
    ]);
    r
}

/// The majors a preference set may name.
pub fn major_options() -> (r: Vec<String>)
    ensures
        strings_of(r) == seq![
            "Computer Science"@,
            "Information Technology"@,
            "Electrical Engineering"@,
            "Mechanical Engineering"@,
            "Business"@,
            "Biology"@,
            "Psychology"@,
        ],
{
    let items: [&str; 7] = [
        "Computer Science",
        "Information Technology",
        "Electrical Engineering",
        "Mechanical Engineering",
        "Business",
        "Biology",
        "Psychology",
    ];
    let r = strings(&items);
    assert(items@.map_values(|s: &str| s@) =~= seq![
        "Computer Science"@,
        "Information Technology"@,
        "Electrical Engineering"@,
        "Mechanical Engineering"@,
        "Business"@,
        "Biology"@,
        "Psychology"@,
    ]);
    r
}

/// Some option of `options` equals `value` without regard to ASCII case.
pub open spec fn accepts(options: Seq<String>, value: Seq<char>) -> bool {
    exists|i: int| 0 <= i < options.len() && ascii_ci_eq(#[trigger] options[i]@, value)
}

/// A categorical constraint: absent, or the field is present and accepted.
pub open spec fn category_ok(pref: Option<Vec<String>>, field: Option<String>) -> bool {
    match pref {
        None => true,
        Some(options) => match field {
            None => false,
            Some(v) => accepts(options@, v@),
        },
    }
}

/// The age constraint: each bound that is present needs an age within it.
pub open spec fn age_ok(min_age: Option<i32>, max_age: Option<i32>, age: Option<i32>) -> bool {
    &&& (min_age matches Some(lo) ==> (age matches Some(a) && a >= lo))
    &&& (max_age matches Some(hi) ==> (age matches Some(a) && a <= hi))
}

/// The felon-status constraint: absent, or the profile states the same value.
pub open spec fn felon_ok(pref: Option<bool>, field: Option<bool>) -> bool {
    pref matches Some(f) ==> field == Some(f)
}

/// Whether profile `p` meets every constraint of `prefs`; a missing profile
/// field fails every constraint on it.
pub open spec fn meets(p: Profile, prefs: PreferenceSet) -> bool {
    &&& category_ok(prefs.gender_preference, p.gender)
    &&& age_ok(prefs.min_age, prefs.max_age, p.age)
    &&& category_ok(prefs.year_preference, p.year)
    &&& category_ok(prefs.major_preference, p.major)
    &&& felon_ok(prefs.is_felon, p.is_felon)
}

/// Whether some option equals `value` without regard to ASCII case.
pub fn any_accepts(options: &Vec<String>, value: &String) -> (r: bool)
    ensures
        r == accepts(options@, value@),
{
    let mut i: usize = 0;
    while i < options.len()
        invariant
            i <= options@.len(),
            forall|j: int| 0 <= j < i ==> !ascii_ci_eq(#[trigger] options@[j]@, value@),
        decreases options@.len() - i,
    {
        if eq_ignore_case(options[i].as_str(), value.as_str()) {
            return true;
        }
        i = i + 1;
    }
    false
}

fn category_passes(pref: &Option<Vec<String>>, field: &Option<String>) -> (r: bool)
    ensures
        r == category_ok(*pref, *field),
{
    match pref {
        None => true,
        Some(options) => match field {
            None => false,
            Some(v) => any_accepts(options, v),
        },
    }
}

/// Whether profile `p` meets every constraint of `prefs`.
pub fn passes(p: &Profile, prefs: &PreferenceSet) -> (r: bool)
    ensures
        r == meets(*p, *prefs),
{
    if !category_passes(&prefs.gender_preference, &p.gender) {
        return false;
    }
    if let Some(lo) = prefs.min_age {
        match p.age {
            Some(a) => {
                if a < lo {
                    return false;
                }
            },
            None => return false,
        }
    }
    if let Some(hi) = prefs.max_age {
        match p.age {
            Some(a) => {
                if a > hi {
                    return false;
                }
            },
            None => return false,
        }
    }
    if !category_passes(&prefs.year_preference, &p.year) {
        return false;
    }
    if !category_passes(&prefs.major_preference, &p.major) {
        return false;
    }
    if let Some(f) = prefs.is_felon {
        match p.is_felon {
            Some(v) => {
                if v != f {
                    return false;
                }
            },
            None => return false,
        }
    }
    true
}

} // verus!
