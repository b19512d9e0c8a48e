use warp_router::credentials::{
    examine, hash, hashed, names_default_cost, verified, verify, Verification,
};
use warp_router::ids::{draw_connection_id, draw_id, draw_secret, short_id};
use warp_router::register::Rejections;
use warp_router::text::{copy_text, same_text};

const SECRET: &str = "an-example-process-secret";

fn is_lower_hex(s: &str) -> bool {
    s.chars().all(|c| matches!(c, '0'..='9' | 'a'..='f'))
}

#[test]
fn a_hash_is_encoded_under_the_default_costs() {
    let h = hash("password", SECRET).unwrap();
    assert_ne!(h, "password");
    assert!(h.starts_with("$argon2i$v=19$m=4096,t=3,p=1$"));
    assert!(names_default_cost(&h));
    assert_eq!(h.split('$').count(), 6);
}

#[test]
fn hashing_is_repeatable() {
    assert_eq!(hash("password", SECRET), hash("password", SECRET));
    assert_ne!(hash("password", SECRET), hash("passwore", SECRET));
    assert_ne!(hash("password", SECRET), hash("password", "another-process-secret"));
}

#[test]
fn a_known_hash() {
    assert_eq!(
        hash("password", "somesalt"),
        Ok(String::from(
            "$argon2i$v=19$m=4096,t=3,p=1$c29tZXNhbHQ$iWh06vD8Fy27wf9npn6FXWiCX4K6pW6Ue1Bnzz07Z8A"
        ))
    );
}

#[test]
fn a_short_secret_cannot_salt() {
    assert_eq!(hash("password", "1234567"), Err(Rejections::UnhashableKey));
    assert_eq!(hash("password", ""), Err(Rejections::UnhashableKey));
    assert!(hash("password", "12345678").is_ok());
}

#[test]
fn the_right_secret_verifies() {
    let h = hash("password", SECRET).unwrap();
    assert!(verify(&h, "password"));
    assert!(!verify(&h, "Password"));
    assert!(!verify(&h, ""));
    assert!(!verify(&h, &h));
}

#[test]
fn an_empty_secret_is_a_secret() {
    let h = hash("", SECRET).unwrap();
    assert!(verify(&h, ""));
    assert!(!verify(&h, " "));
}

#[test]
fn only_default_costs_are_verified() {
    assert!(!verify("", "password"));
    assert!(!verify("password", "password"));
    assert!(!verify("$argon2i$v=19$m=4096,t=3,p=1$", "password"));
    assert!(!verify("$argon2i$v=19$m=4096,t=3,p=1$c29tZXNhbHQ", "password"));
    assert!(!verify("$argon2i$v=19$m=4096,t=3,p=1$c29tZXNhbHQ$!!!", "password"));
    let costly =
        "$argon2i$v=19$m=4194304,t=9,p=1$c29tZXNhbHQ$iWh06vD8Fy27wf9npn6FXWiCX4K6pW6Ue1Bnzz07Z8A";
    assert!(!names_default_cost(costly));
    assert!(!verify(costly, "password"));
    let other_variant =
        "$argon2d$v=19$m=4096,t=3,p=1$c29tZXNhbHQ$iWh06vD8Fy27wf9npn6FXWiCX4K6pW6Ue1Bnzz07Z8A";
    assert!(!verify(other_variant, "password"));
    let known =
        "$argon2i$v=19$m=4096,t=3,p=1$c29tZXNhbHQ$iWh06vD8Fy27wf9npn6FXWiCX4K6pW6Ue1Bnzz07Z8A";
    assert!(verify(known, "password"));
}

#[test]
fn the_head_is_compared_in_full() {
    assert!(names_default_cost("$argon2i$v=19$m=4096,t=3,p=1$"));
    assert!(names_default_cost("$argon2i$v=19$m=4096,t=3,p=1$x"));
    assert!(!names_default_cost("$argon2i$v=19$m=4096,t=3,p=1"));
    assert!(!names_default_cost("$argon2i$v=19$m=4096,t=3,p=2$"));
    assert!(!names_default_cost(" $argon2i$v=19$m=4096,t=3,p=1$"));
    assert!(!names_default_cost(""));
}

#[test]
fn failures_of_the_hasher_are_unhashable_keys() {
    assert_eq!(hashed(Ok(String::from("x"))), Ok(String::from("x")));
    assert_eq!(hashed(Err(argon2::Error::SaltTooShort)), Err(Rejections::UnhashableKey));
    assert_eq!(hashed(Err(argon2::Error::PwdTooLong)), Err(Rejections::UnhashableKey));
}

#[test]
fn the_answers_of_the_verifier_are_told_apart() {
    assert_eq!(verified(Ok(true)), Verification::Match);
    assert_eq!(verified(Ok(false)), Verification::Mismatch);
    assert_eq!(verified(Err(argon2::Error::DecodingFail)), Verification::Failure);
    assert_eq!(verified(Err(argon2::Error::SaltTooShort)), Verification::Failure);
}

#[test]
fn a_hash_is_examined() {
    let h = hash("password", SECRET).unwrap();
    assert_eq!(examine(&h, "password"), Verification::Match);
    assert_eq!(examine(&h, "Password"), Verification::Mismatch);
    assert_eq!(examine(&h, ""), Verification::Mismatch);
    assert_eq!(examine("", "password"), Verification::Failure);
    assert_eq!(examine("password", "password"), Verification::Failure);
    assert_eq!(
        examine("$argon2i$v=19$m=4096,t=3,p=1$c29tZXNhbHQ$!!!", "password"),
        Verification::Failure
    );
    assert_eq!(
        examine("$argon2i$v=19$m=4096,t=3,p=1$c2FsdA$iWh06vD8Fy27wf9npn6FXWiCX4K6pW6Ue1Bnzz07Z8A", "password"),
        Verification::Failure
    );
    let costly =
        "$argon2i$v=19$m=4194304,t=9,p=1$c29tZXNhbHQ$iWh06vD8Fy27wf9npn6FXWiCX4K6pW6Ue1Bnzz07Z8A";
    assert_eq!(examine(costly, "password"), Verification::Failure);
    for (hash, secret) in [(h.as_str(), "password"), (h.as_str(), "x"), (costly, "password")] {
        assert_eq!(verify(hash, secret), examine(hash, secret) == Verification::Match);
    }
}

#[test]
fn every_hash_verifies_its_own_secret() {
    for secret in ["", "p", "h", "password", "päßwörd", "a longer secret with spaces"] {
        for salt in [SECRET, "12345678", "0b9c1f6e-5f1c-4f3e-9a55-7d0a3a7b2c11"] {
            let h = hash(secret, salt).unwrap();
            assert!(names_default_cost(&h));
            assert!(verify(&h, secret));
        }
    }
}

#[test]
fn drawn_identifiers_have_their_shapes() {
    let id = draw_id();
    assert_eq!(id.len(), 8);
    assert!(is_lower_hex(&id));
    let con = draw_connection_id();
    assert_eq!(con.len(), 32);
    assert!(is_lower_hex(&con));
    let secret = draw_secret();
    assert_eq!(secret.len(), 36);
    assert_eq!(secret.chars().count(), 36);
    assert_eq!(secret.matches('-').count(), 4);
    assert!(secret.chars().all(|c| matches!(c, '0'..='9' | 'a'..='f' | '-')));
    assert!(hash("password", &secret).is_ok());
    assert_ne!(draw_connection_id(), con);
}

#[test]
fn a_short_id_is_the_first_eight_characters() {
    assert_eq!(short_id("0123456789abcdef"), "01234567");
    assert_eq!(short_id("01234567"), "01234567");
    assert_eq!(short_id("äöüäöüäöüä"), "äöüäöüäö");
}

#[test]
fn texts_compare_and_copy() {
    assert!(same_text("host", "host"));
    assert!(!same_text("host", "host/"));
    assert!(same_text("", ""));
    assert_eq!(copy_text(&Some(String::from("a"))), Some(String::from("a")));
    assert_eq!(copy_text(&None), None);
}
