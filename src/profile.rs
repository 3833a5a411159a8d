//! Profile rules around the core: the update merge with its gender rule,
//! picture file names and content types, and how many backups to keep.
use crate::preference::Profile;
use crate::text::{
    dec_digits, decimal_string_u64, eq_ignore_case, ascii_ci_eq, extension, extension_of,
    hex_digits, hex_string_u64,
};
use crate::wire::{decode_list, json_list_of, opt_list_view, opt_view};
use vstd::prelude::*;

verus! {

/// The fields a profile update may carry; a missing field keeps what is
/// stored, except major and year, which the update writes as given.
#[derive(Debug)]
pub struct ProfileUpsert {
    pub name: Option<String>,
    pub age: Option<i32>,
    pub major: Option<String>,
    pub year: Option<String>,
    pub bio: Option<String>,
    pub interests: Option<Vec<String>>,
    pub profile_picture: Option<String>,
    pub gender: Option<String>,
}

/// The values a profile update writes.
#[derive(Debug)]
pub struct ProfileUpdate {
    pub name: Option<String>,
    pub age: Option<i32>,
    pub major: Option<String>,
    pub year: Option<String>,
    pub bio: Option<String>,
    pub interests: Option<Vec<String>>,
    pub profile_picture: Option<String>,
    pub gender: Option<String>,
}

/// Why a profile update was refused.
#[derive(Clone, Copy, Debug, PartialEq, Eq, Structural)]
pub enum ProfileError {
    /// The gender is not one of Male, Female, Other.
    InvalidGender,
}

/// The stored label of a gender as given: one of three words in any ASCII
/// case, written capitalised.
pub open spec fn gender_label(g: Seq<char>) -> Option<Seq<char>> {
    if ascii_ci_eq(g, "male"@) {
        Some("Male"@)
    } else if ascii_ci_eq(g, "female"@) {
        Some("Female"@)
    } else if ascii_ci_eq(g, "other"@) {
        Some("Other"@)
    } else {
        None
    }
}

/// The stored label of gender `g`, if it is an accepted one.
pub fn normalize_gender(g: &str) -> (r: Option<String>)
    ensures
        opt_view(r) == gender_label(g@),
{
    if eq_ignore_case(g, "male") {
        Some(String::from_str("Male"))
    } else if eq_ignore_case(g, "female") {
        Some(String::from_str("Female"))
    } else if eq_ignore_case(g, "other") {
        Some(String::from_str("Other"))
    } else {
        None
    }
}

/// The given value, or else the current profile's.
pub open spec fn given_or<T>(
    given: Option<T>,
    current: Option<Profile>,
    field: spec_fn(Profile) -> Option<T>,
) -> Option<T> {
    if given is Some {
        given
    } else {
        match current {
            Some(c) => field(c),
            None => None,
        }
    }
}

/// Whether the update names a gender that is not accepted.
pub open spec fn gender_refused(payload: ProfileUpsert) -> bool {
    payload.gender matches Some(g) && gender_label(g@) is None
}

/// Merges an update into the current profile (none when no row was read):
/// refused for an unaccepted gender; otherwise each given field wins, a
/// missing one keeps the current value, and major and year are taken as
/// given.
pub fn merge_profile(payload: ProfileUpsert, current: Option<Profile>) -> (r: Result<
    ProfileUpdate,
    ProfileError,
>)
    ensures
        match r {
            Err(e) => e == ProfileError::InvalidGender && gender_refused(payload),
            Ok(u) => {
                &&& !gender_refused(payload)
                &&& u.name == given_or(payload.name, current, |c: Profile| c.name)
                &&& u.age == given_or(payload.age, current, |c: Profile| c.age)
                &&& u.major == payload.major
                &&& u.year == payload.year
                &&& u.bio == given_or(payload.bio, current, |c: Profile| c.bio)
                &&& u.interests == given_or(payload.interests, current, |c: Profile| c.interests)
                &&& u.profile_picture == given_or(
                    payload.profile_picture,
                    current,
                    |c: Profile| c.profile_picture,
                )
                &&& match payload.gender {
                    Some(g) => opt_view(u.gender) == gender_label(g@),
                    None => u.gender == given_or(
                        None::<String>,
                        current,
                        |c: Profile| c.gender,
                    ),
                }
            },
        },
{
    let gender = match &payload.gender {
        Some(g) => match normalize_gender(g.as_str()) {
            Some(label) => Some(label),
            None => {
                return Err(ProfileError::InvalidGender);
            },
        },
        None => None,
    };
    let ProfileUpsert { name, age, major, year, bio, interests, profile_picture, gender: _ } =
        payload;
    let (c_name, c_age, c_bio, c_interests, c_picture, c_gender) = match current {
        Some(c) => {
            let Profile { name, age, bio, interests, profile_picture, gender, .. } = c;
            (name, age, bio, interests, profile_picture, gender)
        },
        None => (None, None, None, None, None, None),
    };
    let name = match name {
        Some(v) => Some(v),
        None => c_name,
    };
    let age = match age {
        Some(v) => Some(v),
        None => c_age,
    };
    let bio = match bio {
        Some(v) => Some(v),
        None => c_bio,
    };
    let interests = match interests {
        Some(v) => Some(v),
        None => c_interests,
    };
    let profile_picture = match profile_picture {
        Some(v) => Some(v),
        None => c_picture,
    };
    let gender = match gender {
        Some(v) => Some(v),
        None => c_gender,
    };
    Ok(ProfileUpdate { name, age, major, year, bio, interests, profile_picture, gender })
}

/// The content type served for a picture with extension `ext`.
pub open spec fn content_type_of(ext: Seq<char>) -> Seq<char> {
    if ext == "png"@ {
        "image/png"@
    } else if ext == "jpg"@ || ext == "jpeg"@ {
        "image/jpeg"@
    } else if ext == "gif"@ {
        "image/gif"@
    } else if ext == "webp"@ {
        "image/webp"@
    } else {
        "application/octet-stream"@
    }
}

/// The content type served for the picture stored at `path`.
pub fn content_type_for(path: &str) -> (r: String)
    ensures
        r@ == content_type_of(extension(path@)),
{
    let ext = extension_of(path);
    if ext == String::from_str("png") {
        String::from_str("image/png")
    } else if ext == String::from_str("jpg") || ext == String::from_str("jpeg") {
        String::from_str("image/jpeg")
    } else if ext == String::from_str("gif") {
        String::from_str("image/gif")
    } else if ext == String::from_str("webp") {
        String::from_str("image/webp")
    } else {
        String::from_str("application/octet-stream")
    }
}

/// The directory that holds uploaded pictures.
pub const PICTURE_DIR: &'static str = "uploads/profile_pictures";

/// The name an upload gets when it came without one.
pub const UNNAMED_UPLOAD: &'static str = "unknown";

/// Where an upload named `filename` received at `ts` milliseconds is stored:
/// the time in decimal and in hexadecimal, then the upload's extension.
pub open spec fn picture_path_text(ts: u64, filename: Seq<char>) -> Seq<char> {
    PICTURE_DIR@ + "/"@ + dec_digits(ts as nat) + "_"@ + hex_digits(ts as nat) + "."@ + extension(
        filename,
    )
}

/// The stored path of an upload received at `ts` milliseconds.
pub fn picture_path(ts: u64, filename: Option<String>) -> (r: String)
    ensures
        r@ == picture_path_text(
            ts,
            match filename {
                Some(f) => f@,
                None => UNNAMED_UPLOAD@,
            },
        ),
{
    let name = match filename {
        Some(f) => f,
        None => String::from_str(UNNAMED_UPLOAD),
    };
    let ext = extension_of(name.as_str());
    let s = String::from_str(PICTURE_DIR).concat("/");
    let s = s.concat(decimal_string_u64(ts).as_str()).concat("_");
    let s = s.concat(hex_string_u64(ts).as_str()).concat(".");
    s.concat(ext.as_str())
}

/// The fields of `s` between commas, in order; one more than its commas.
pub open spec fn comma_fields(s: Seq<char>) -> Seq<Seq<char>>
    decreases s.len(),
{
    if s.len() == 0 {
        seq![Seq::empty()]
    } else {
        let f = comma_fields(s.drop_last());
        if s.last() == ',' {
            f.push(Seq::empty())
        } else {
            f.update(f.len() - 1, f.last().push(s.last()))
        }
    }
}

/// Splits `s` at every comma.
pub fn split_commas(s: &str) -> (r: Vec<String>)
    ensures
        r@.map_values(|x: String| x@) == comma_fields(s@),
{
    let n = s.unicode_len();
    let mut out: Vec<String> = Vec::new();
    let mut start: usize = 0;
    let mut i: usize = 0;
    proof {
        assert(s@.subrange(0, 0) =~= Seq::<char>::empty());
        assert(out@.map_values(|x: String| x@) =~= Seq::<Seq<char>>::empty());
        assert(out@.map_values(|x: String| x@).push(s@.subrange(0, 0)) =~= seq![Seq::<char>::empty()]);
    }
    while i < n
        invariant
            n == s@.len(),
            start <= i <= n,
            out@.map_values(|x: String| x@).push(s@.subrange(start as int, i as int))
                == comma_fields(s@.subrange(0, i as int)),
        decreases n - i,
    {
        let c = s.get_char(i);
        proof {
            let p = s@.subrange(0, i + 1);
            assert(p.drop_last() == s@.subrange(0, i as int));
            assert(p.last() == c);
        }
        if c == ',' {
            let field = String::from_str(s.substring_char(start, i));
            let ghost before = out@.map_values(|x: String| x@);
            out.push(field);
            proof {
                assert(out@.map_values(|x: String| x@) =~= before.push(field@));
                assert(s@.subrange(i + 1, i + 1) =~= Seq::<char>::empty());
            }
            start = i + 1;
        } else {
            proof {
                assert(s@.subrange(start as int, i + 1) =~= s@.subrange(start as int, i as int).push(
                    c,
                ));
                let m = out@.map_values(|x: String| x@);
                assert(m.push(s@.subrange(start as int, i as int)).update(
                    m.len() as int,
                    s@.subrange(start as int, i + 1),
                ) =~= m.push(s@.subrange(start as int, i + 1)));
            }
        }
        i = i + 1;
    }
    let ghost before = out@.map_values(|x: String| x@);
    let last = String::from_str(s.substring_char(start, n));
    out.push(last);
    proof {
        assert(out@.map_values(|x: String| x@) =~= before.push(last@));
        assert(s@.subrange(0, n as int) == s@);
    }
    out
}

/// What std's `str::trim` makes of `s`: leading and trailing Unicode white
/// space removed.
pub uninterp spec fn trimmed(s: Seq<char>) -> Seq<char>;

/// Relies on std's `str::trim`: the result depends on the characters alone.
#[verifier::external_body]
fn trim_text(s: &str) -> (r: String)
    ensures
        r@ == trimmed(s@),
{
    s.trim().to_string()
}

/// The non-empty strings of `items`, in order.
pub open spec fn nonempty_of(items: Seq<Seq<char>>) -> Seq<Seq<char>>
    decreases items.len(),
{
    if items.len() == 0 {
        Seq::empty()
    } else if items.last().len() > 0 {
        nonempty_of(items.drop_last()).push(items.last())
    } else {
        nonempty_of(items.drop_last())
    }
}

/// `terms`, or nothing when there are none.
pub open spec fn some_if_any(terms: Seq<Seq<char>>) -> Option<Seq<Seq<char>>> {
    if terms.len() == 0 {
        None
    } else {
        Some(terms)
    }
}

/// The comma-separated terms of `text`, trimmed, without empty ones.
pub open spec fn comma_terms(text: Seq<char>) -> Option<Seq<Seq<char>>> {
    some_if_any(nonempty_of(comma_fields(text).map_values(|f: Seq<char>| trimmed(f))))
}

/// The interests that stored text describes: a JSON array of strings, or
/// else its comma-separated terms, trimmed, without empty ones; nothing when
/// no term is left.
pub open spec fn interests_of(text: Seq<char>) -> Option<Seq<Seq<char>>> {
    match json_list_of(text) {
        Some(list) => Some(list),
        None => comma_terms(text),
    }
}

/// The non-empty strings of `items`, or nothing when there are none.
pub fn nonempty_terms(items: &Vec<String>) -> (r: Option<Vec<String>>)
    ensures
        opt_list_view(r) == some_if_any(nonempty_of(items@.map_values(|x: String| x@))),
{
    let ghost iv = items@.map_values(|x: String| x@);
    let mut terms: Vec<String> = Vec::new();
    let mut j: usize = 0;
    while j < items.len()
        invariant
            j <= items@.len(),
            iv == items@.map_values(|x: String| x@),
            terms@.map_values(|x: String| x@) == nonempty_of(iv.subrange(0, j as int)),
        decreases items@.len() - j,
    {
        proof {
            let p = iv.subrange(0, j + 1);
            assert(p.drop_last() == iv.subrange(0, j as int));
            assert(p.last() == items@[j as int]@);
        }
        if !items[j].as_str().is_empty() {
            let ghost before = terms@.map_values(|x: String| x@);
            let t = items[j].clone();
            terms.push(t);
            proof {
                assert(terms@.map_values(|x: String| x@) =~= before.push(t@));
            }
        }
        j = j + 1;
    }
    assert(iv.subrange(0, iv.len() as int) == iv);
    if terms.len() == 0 {
        None
    } else {
        Some(terms)
    }
}

/// Each string of `fields`, trimmed.
fn trim_all(fields: &Vec<String>) -> (r: Vec<String>)
    ensures
        r@.map_values(|x: String| x@) == fields@.map_values(|x: String| x@).map_values(
            |f: Seq<char>| trimmed(f),
        ),
{
    let mut out: Vec<String> = Vec::new();
    let mut j: usize = 0;
    while j < fields.len()
        invariant
            j <= fields@.len(),
            out@.map_values(|x: String| x@) == fields@.subrange(0, j as int).map_values(
                |x: String| trimmed(x@),
            ),
        decreases fields@.len() - j,
    {
        let ghost before = out@.map_values(|x: String| x@);
        let t = trim_text(fields[j].as_str());
        out.push(t);
        proof {
            assert(out@.map_values(|x: String| x@) =~= before.push(t@));
            assert(fields@.subrange(0, j + 1).map_values(|x: String| trimmed(x@))
                =~= fields@.subrange(0, j as int).map_values(|x: String| trimmed(x@)).push(
                trimmed(fields@[j as int]@),
            ));
        }
        j = j + 1;
    }
    assert(fields@.subrange(0, fields@.len() as int) == fields@);
    assert(fields@.map_values(|x: String| trimmed(x@)) =~= fields@.map_values(|x: String| x@).map_values(
        |f: Seq<char>| trimmed(f),
    ));
    out
}

/// The interests of stored `text`, given what it parses to as a JSON array
/// of strings.
pub fn interests_from(json: Option<Vec<String>>, text: &str) -> (r: Option<Vec<String>>)
    ensures
        opt_list_view(r) == (match opt_list_view(json) {
            Some(list) => Some(list),
            None => comma_terms(text@),
        }),
{
    match json {
        Some(list) => Some(list),
        None => {
            let fields = split_commas(text);
            let trimmed_fields = trim_all(&fields);
            nonempty_terms(&trimmed_fields)
        },
    }
}

/// The interests that stored text describes.
pub fn decode_interests(text: &str) -> (r: Option<Vec<String>>)
    ensures
        opt_list_view(r) == interests_of(text@),
{
    interests_from(decode_list(text), text)
}

/// How many database backups are kept.
pub const BACKUPS_KEPT: usize = 20;

/// How many of `count` backups, oldest first, are to be removed.
pub fn backups_to_remove(count: usize) -> (r: usize)
    ensures
        r == (if count > BACKUPS_KEPT {
            count - BACKUPS_KEPT
        } else {
            0
        }),
{
    if count > BACKUPS_KEPT {
        count - BACKUPS_KEPT
    } else {
        0
    }
}

} // verus!
