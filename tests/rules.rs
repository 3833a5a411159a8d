use jaymatch::account::{check_login, deletion_authorized, email_allowed, in_allowed_domain, Credentials, LoginOutcome};
use jaymatch::messages::{history_limit, limit_from, DEFAULT_HISTORY_LIMIT};
use jaymatch::preference::{
    gender_options, major_options, year_options, PreferenceSet, Profile, StoredPreferences,
};
use jaymatch::profile::{
    backups_to_remove, content_type_for, decode_interests, merge_profile, normalize_gender,
    interests_from, nonempty_terms, picture_path, split_commas, ProfileError, ProfileUpsert,
};
use jaymatch::text::{ends_with, extension_of};
use jaymatch::wire::{array_of_quoted, encode_list};

fn empty_upsert() -> ProfileUpsert {
    ProfileUpsert {
        name: None,
        age: None,
        major: None,
        year: None,
        bio: None,
        interests: None,
        profile_picture: None,
        gender: None,
    }
}

fn stored_profile() -> Profile {
    Profile {
        user_id: 9,
        email: "a@ku.edu".to_string(),
        name: Some("Ann".to_string()),
        age: Some(21),
        major: Some("Biology".to_string()),
        year: Some("Junior".to_string()),
        bio: Some("hi".to_string()),
        interests: Some(vec!["chess".to_string()]),
        profile_picture: Some("p.png".to_string()),
        gender: Some("Female".to_string()),
        is_felon: Some(false),
    }
}

#[test]
fn sign_up_needs_the_university_domain() {
    assert!(email_allowed("someone@ku.edu"));
    assert!(email_allowed("Someone@KU.EDU"));
    assert!(!email_allowed("someone@gmail.com"));
    assert!(!email_allowed("someone@ku.edu.evil.com"));
    assert!(!email_allowed("ku.edu"));
    assert!(in_allowed_domain("x@ku.edu"));
    assert!(!in_allowed_domain("x@KU.EDU"));
}

#[test]
fn login_outcomes() {
    let stored = Some(Credentials { user_id: 4, password: "pw".to_string() });
    assert_eq!(check_login(&stored, &"pw".to_string()), LoginOutcome::LoggedIn(4));
    assert_eq!(check_login(&stored, &"PW".to_string()), LoginOutcome::WrongPassword);
    assert_eq!(check_login(&None, &"pw".to_string()), LoginOutcome::UnknownEmail);
}

#[test]
fn deletion_needs_own_or_operator_password() {
    let stored = "secret".to_string();
    assert!(deletion_authorized(&"secret".to_string(), &stored));
    assert!(deletion_authorized(&"1234".to_string(), &stored));
    assert!(!deletion_authorized(&"guess".to_string(), &stored));
}

#[test]
fn gender_is_normalized_or_refused() {
    assert_eq!(normalize_gender("male"), Some("Male".to_string()));
    assert_eq!(normalize_gender("FEMALE"), Some("Female".to_string()));
    assert_eq!(normalize_gender("oThEr"), Some("Other".to_string()));
    assert_eq!(normalize_gender("robot"), None);
    assert_eq!(normalize_gender(""), None);
}

#[test]
fn merge_keeps_current_values_for_missing_fields() {
    let mut up = empty_upsert();
    up.name = Some("Bea".to_string());
    let u = merge_profile(up, Some(stored_profile())).unwrap();
    assert_eq!(u.name, Some("Bea".to_string()));
    assert_eq!(u.age, Some(21));
    assert_eq!(u.bio, Some("hi".to_string()));
    assert_eq!(u.interests, Some(vec!["chess".to_string()]));
    assert_eq!(u.profile_picture, Some("p.png".to_string()));
    assert_eq!(u.gender, Some("Female".to_string()));
    assert_eq!(u.major, None);
    assert_eq!(u.year, None);
}

#[test]
fn merge_normalizes_gender_and_refuses_unknown_ones() {
    let mut up = empty_upsert();
    up.gender = Some("mALE".to_string());
    up.age = Some(30);
    let u = merge_profile(up, None).unwrap();
    assert_eq!(u.gender, Some("Male".to_string()));
    assert_eq!(u.age, Some(30));
    assert_eq!(u.name, None);
    let mut bad = empty_upsert();
    bad.gender = Some("x".to_string());
    assert!(matches!(merge_profile(bad, Some(stored_profile())), Err(ProfileError::InvalidGender)));
}

#[test]
fn content_type_follows_the_extension() {
    assert_eq!(content_type_for("uploads/a.png"), "image/png");
    assert_eq!(content_type_for("a.b.jpeg"), "image/jpeg");
    assert_eq!(content_type_for("a.jpg"), "image/jpeg");
    assert_eq!(content_type_for("a.gif"), "image/gif");
    assert_eq!(content_type_for("a.webp"), "image/webp");
    assert_eq!(content_type_for("a.PNG"), "application/octet-stream");
    assert_eq!(content_type_for("png"), "image/png");
    assert_eq!(content_type_for("noext"), "application/octet-stream");
    assert_eq!(extension_of("a.tar.gz"), "gz");
    assert_eq!(extension_of("trailing."), "");
}

#[test]
fn picture_path_has_time_in_decimal_and_hex() {
    assert_eq!(
        picture_path(255, Some("me.photo.png".to_string())),
        "uploads/profile_pictures/255_ff.png"
    );
    assert_eq!(picture_path(16, None), "uploads/profile_pictures/16_10.unknown");
    assert_eq!(picture_path(0, Some("x".to_string())), "uploads/profile_pictures/0_0.x");
}

#[test]
fn suffix_test() {
    assert!(ends_with("abc", "bc"));
    assert!(ends_with("abc", ""));
    assert!(!ends_with("bc", "abc"));
    assert!(!ends_with("abc", "b"));
}

#[test]
fn interests_from_json_or_commas() {
    assert_eq!(
        decode_interests("[\"chess\",\" go \"]"),
        Some(vec!["chess".to_string(), " go ".to_string()])
    );
    assert_eq!(
        decode_interests(" chess , go,, "),
        Some(vec!["chess".to_string(), "go".to_string()])
    );
    assert_eq!(decode_interests(" , ,"), None);
    assert_eq!(decode_interests(""), None);
    assert_eq!(decode_interests("[]"), Some(vec![]));
    assert_eq!(split_commas("a,,b"), vec!["a".to_string(), String::new(), "b".to_string()]);
    assert_eq!(split_commas(""), vec![String::new()]);
}

#[test]
fn stored_preferences_round_trip() {
    let mut p = PreferenceSet::unrestricted();
    p.gender_preference = Some(vec!["Female".to_string(), "Other \"x\"".to_string()]);
    p.min_age = Some(20);
    p.is_felon = Some(true);
    let stored = p.to_stored();
    assert_eq!(
        stored.gender_preference,
        Some("[\"Female\",\"Other \\\"x\\\"\"]".to_string())
    );
    assert_eq!(stored.year_preference, None);
    assert_eq!(stored.is_felon, Some(1));
    let back = PreferenceSet::from_stored(&stored);
    assert_eq!(back.gender_preference, p.gender_preference);
    assert_eq!(back.min_age, Some(20));
    assert_eq!(back.max_age, None);
    assert_eq!(back.is_felon, Some(true));
}

#[test]
fn stored_preferences_that_do_not_parse_restrict_nothing() {
    let stored = StoredPreferences {
        gender_preference: Some("not json".to_string()),
        min_age: None,
        max_age: Some(30),
        year_preference: Some("[\"Senior\"]".to_string()),
        major_preference: Some("[1,2]".to_string()),
        is_felon: Some(0),
    };
    let p = PreferenceSet::from_stored(&stored);
    assert_eq!(p.gender_preference, None);
    assert_eq!(p.year_preference, Some(vec!["Senior".to_string()]));
    assert_eq!(p.major_preference, None);
    assert_eq!(p.max_age, Some(30));
    assert_eq!(p.is_felon, Some(false));
}

#[test]
fn json_list_encoding() {
    assert_eq!(encode_list(&vec![]), "[]");
    assert_eq!(encode_list(&vec!["a".to_string()]), "[\"a\"]");
    assert_eq!(encode_list(&vec!["a".to_string(), "b\\".to_string()]), "[\"a\",\"b\\\\\"]");
}

#[test]
fn history_limit_parameter() {
    assert_eq!(history_limit(None), DEFAULT_HISTORY_LIMIT);
    assert_eq!(history_limit(Some("5")), 5);
    assert_eq!(history_limit(Some("abc")), 100);
    assert_eq!(history_limit(Some("-1")), usize::MAX);
    assert_eq!(history_limit(Some("0")), 0);
    assert_eq!(limit_from(Some(7)), 7);
}

#[test]
fn backups_beyond_twenty_are_removed() {
    assert_eq!(backups_to_remove(0), 0);
    assert_eq!(backups_to_remove(20), 0);
    assert_eq!(backups_to_remove(21), 1);
    assert_eq!(backups_to_remove(35), 15);
}

#[test]
fn option_lists() {
    assert_eq!(gender_options(), vec!["Male", "Female", "Other"]);
    assert_eq!(year_options().len(), 5);
    assert_eq!(year_options()[4], "Graduate");
    assert_eq!(major_options()[0], "Computer Science");
    assert_eq!(major_options().len(), 7);
}

#[test]
fn interests_given_a_parsed_list_or_not() {
    assert_eq!(
        interests_from(Some(vec!["x".to_string()]), "a,b"),
        Some(vec!["x".to_string()])
    );
    assert_eq!(
        interests_from(None, "a, b"),
        Some(vec!["a".to_string(), "b".to_string()])
    );
    assert_eq!(
        nonempty_terms(&vec![String::new(), "k".to_string(), String::new()]),
        Some(vec!["k".to_string()])
    );
    assert_eq!(nonempty_terms(&vec![String::new()]), None);
}

#[test]
fn array_framing_of_quoted_items() {
    assert_eq!(array_of_quoted(&vec![]), "[]");
    assert_eq!(array_of_quoted(&vec!["\"a\"".to_string(), "\"b\"".to_string()]), "[\"a\",\"b\"]");
}
