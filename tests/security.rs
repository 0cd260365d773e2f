use isabelle_security::challenge::{
    challenge_begin, challenge_commit, challenge_salt, challenge_verified, ChallengeStep,
    MSG_CHALLENGE_FAILED, MSG_DIRECT_EDIT, MSG_OLD_EMPTY,
};
use isabelle_security::migrate::{migrate_begin, migrate_rehashed, migrate_salted, ReadStep};
use isabelle_security::notify::otp_email;
use isabelle_security::outcome::DataObjectAction;
use isabelle_security::record::{Record, Value};
use isabelle_security::redact::item_list_filter;
use isabelle_security::unique::{
    check_unique_login_email, MSG_EMAIL_EMPTY, MSG_EMAIL_TAKEN, MSG_LOGIN_TAKEN,
};

fn user(id: u64, login: &str, email: &str) -> Record {
    let mut r = Record::new(id);
    r.set_str("login", login);
    r.set_str("email", email);
    r
}

fn stored_user_five() -> Record {
    let mut r = user(5, "five", "five@x.com");
    r.set_str("password", "HASH(old)");
    r.set_str("salt", "s5");
    r
}

fn change_request(id: u64, old_pw: &str, new1: &str, new2: &str) -> Record {
    let mut r = Record::new(id);
    r.set_str("__password", old_pw);
    r.set_str("__new_password1", new1);
    r.set_str("__new_password2", new2);
    r
}

fn finished(step: ChallengeStep) -> (bool, String) {
    match step {
        ChallengeStep::Finish(p) => (p.succeeded, p.error),
        _ => panic!("expected a finished step"),
    }
}

#[test]
fn record_get_set_remove() {
    let mut r = Record::new(3);
    assert_eq!(r.id(), 3);
    assert_eq!(r.safe_str("name", "none"), "none");
    r.set_str("name", "Ann");
    r.set_bool("role_is_admin", true);
    assert_eq!(r.safe_str("name", ""), "Ann");
    assert!(r.safe_bool("role_is_admin", false));
    assert!(!r.safe_bool("name", false));
    assert!(r.has_str("name"));
    assert!(!r.has_str("role_is_admin"));
    r.set_str("name", "Bob");
    assert_eq!(r.safe_str("name", ""), "Bob");
    r.remove("name");
    assert!(!r.has_str("name"));
    assert!(r.safe_bool("role_is_admin", false));
}

#[test]
fn record_merge_overlays() {
    let mut a = Record::new(1);
    a.set_str("email", "a@x.com");
    a.set_str("name", "A");
    let mut b = Record::new(1);
    b.set_str("email", "b@x.com");
    b.set("age", Value::Int(7));
    a.merge(&b);
    assert_eq!(a.safe_str("email", ""), "b@x.com");
    assert_eq!(a.safe_str("name", ""), "A");
    assert!(matches!(a.get("age"), Some(Value::Int(7))));
    let c = a.clone();
    assert_eq!(c.safe_str("email", ""), "b@x.com");
}

#[test]
fn delete_passes_both_validators() {
    let itm = user(2, "taken", "");
    let old = Some(stored_user_five());
    let users = vec![(1, user(1, "taken", "a@x.com"))];
    let r = check_unique_login_email(&old, &itm, DataObjectAction::Delete, false, &users);
    assert!(r.succeeded);
    assert_eq!(r.error, "");
    let mut direct = Record::new(5);
    direct.set_str("password", "x");
    let (ok, err) = finished(challenge_begin(false, "user", &old, &direct, DataObjectAction::Delete));
    assert!(ok);
    assert_eq!(err, "");
}

#[test]
fn unique_empty_email_refused() {
    let itm = user(2, "bob", "");
    let r = check_unique_login_email(&None, &itm, DataObjectAction::Create, false, &vec![]);
    assert!(!r.succeeded);
    assert_eq!(r.error, MSG_EMAIL_EMPTY);
}

#[test]
fn unique_email_case_folded_collision() {
    let users = vec![(1, user(1, "alice", "A@X.com")), (2, user(2, "bob", "b@x.com"))];
    let itm = user(2, "bob", "a@x.COM");
    let r = check_unique_login_email(&None, &itm, DataObjectAction::Update, false, &users);
    assert!(!r.succeeded);
    assert_eq!(r.error, MSG_EMAIL_TAKEN);
    let itm1 = user(1, "alice", "B@X.com");
    let r1 = check_unique_login_email(&None, &itm1, DataObjectAction::Update, false, &users);
    assert!(!r1.succeeded);
    assert_eq!(r1.error, MSG_EMAIL_TAKEN);
}

#[test]
fn unique_login_collision() {
    let users = vec![(1, user(1, "Alice", "a@x.com"))];
    let itm = user(2, "ALICE", "c@x.com");
    let r = check_unique_login_email(&None, &itm, DataObjectAction::Create, false, &users);
    assert!(!r.succeeded);
    assert_eq!(r.error, MSG_LOGIN_TAKEN);
}

#[test]
fn unique_own_email_accepted() {
    let users = vec![(1, user(1, "alice", "a@x.com")), (2, user(2, "", "b@x.com"))];
    let itm = user(1, "alice", "A@x.com");
    let r = check_unique_login_email(&None, &itm, DataObjectAction::Update, false, &users);
    assert!(r.succeeded);
    assert_eq!(r.error, "");
    let blank_login = user(3, "", "c@x.com");
    let r2 = check_unique_login_email(&None, &blank_login, DataObjectAction::Create, false, &users);
    assert!(r2.succeeded);
}

#[test]
fn unique_merge_uses_stored_email() {
    let users = vec![(1, user(1, "alice", "a@x.com"))];
    let stored = user(2, "bob", "A@X.COM");
    let mut edit = Record::new(2);
    edit.set_str("name", "Bob");
    let merged = check_unique_login_email(&Some(stored), &edit, DataObjectAction::Update, true, &users);
    assert!(!merged.succeeded);
    assert_eq!(merged.error, MSG_EMAIL_TAKEN);
    let plain = check_unique_login_email(&None, &edit, DataObjectAction::Update, false, &users);
    assert_eq!(plain.error, MSG_EMAIL_EMPTY);
}

#[test]
fn challenge_other_collection_passes() {
    let mut itm = Record::new(1);
    itm.set_str("password", "x");
    let (ok, _) = finished(challenge_begin(false, "ticket", &Some(Record::new(1)), &itm, DataObjectAction::Update));
    assert!(ok);
}

#[test]
fn challenge_direct_write_refused() {
    let old = Some(stored_user_five());
    let mut itm = Record::new(5);
    itm.set_str("salt", "mine");
    let (ok, err) = finished(challenge_begin(true, "user", &old, &itm, DataObjectAction::Update));
    assert!(!ok);
    assert_eq!(err, MSG_DIRECT_EDIT);
    let mut itm2 = Record::new(5);
    itm2.set_str("password", "plain");
    let (ok2, err2) = finished(challenge_begin(false, "user", &old, &itm2, DataObjectAction::Update));
    assert!(!ok2);
    assert_eq!(err2, MSG_DIRECT_EDIT);
}

#[test]
fn challenge_new_user_gets_salt() {
    let mut itm = user(9, "nine", "n@x.com");
    let step = challenge_begin(false, "user", &None, &itm, DataObjectAction::Create);
    assert!(matches!(step, ChallengeStep::NewSalt));
    let r = challenge_salt(&mut itm, "fresh");
    assert!(r.succeeded);
    assert_eq!(itm.safe_str("salt", ""), "fresh");
}

#[test]
fn challenge_plain_edit_passes() {
    let mut itm = Record::new(5);
    itm.set_str("name", "Five");
    let (ok, _) = finished(challenge_begin(false, "user", &Some(stored_user_five()), &itm, DataObjectAction::Update));
    assert!(ok);
}

#[test]
fn challenge_old_password_empty() {
    let itm = change_request(5, "", "n", "n");
    let (ok, err) = finished(challenge_begin(false, "user", &Some(stored_user_five()), &itm, DataObjectAction::Update));
    assert!(!ok);
    assert_eq!(err, MSG_OLD_EMPTY);
}

#[test]
fn challenge_rotation_scenario() {
    let old = stored_user_five();
    let mut itm = change_request(5, "old", "new", "new");
    let step = challenge_begin(false, "user", &Some(old.clone()), &itm, DataObjectAction::Update);
    match step {
        ChallengeStep::Verify { plaintext, hash } => {
            assert_eq!(plaintext, "old");
            assert_eq!(hash, "HASH(old)");
        }
        _ => panic!("expected a verification"),
    }
    let (plaintext, salt) = match challenge_verified(false, &old, &itm, true) {
        ChallengeStep::Hash { plaintext, salt } => (plaintext, salt),
        _ => panic!("expected a hash request"),
    };
    assert_eq!(plaintext, "new");
    assert_eq!(salt, "s5");
    let hashed = format!("HASH({}+{})", plaintext, salt);
    let r = challenge_commit(&mut itm, &hashed);
    assert!(r.succeeded);
    assert_eq!(itm.safe_str("password", ""), "HASH(new+s5)");
    assert!(!itm.has_str("__password"));
    assert!(!itm.has_str("__new_password1"));
    assert!(!itm.has_str("__new_password2"));
}

#[test]
fn challenge_wrong_password_or_mismatch_fails() {
    let old = stored_user_five();
    let itm = change_request(5, "bad", "new", "new");
    let (ok, err) = finished(challenge_verified(false, &old, &itm, false));
    assert!(!ok);
    assert_eq!(err, MSG_CHALLENGE_FAILED);
    let itm2 = change_request(5, "old", "new", "other");
    let (ok2, err2) = finished(challenge_verified(false, &old, &itm2, true));
    assert!(!ok2);
    assert_eq!(err2, MSG_CHALLENGE_FAILED);
}

#[test]
fn challenge_otp_and_admin_grant() {
    let mut old = stored_user_five();
    old.set_str("otp", "123456");
    let mut itm = change_request(5, "123456", "n", "n");
    itm.set_str("otp", "123456");
    assert!(matches!(challenge_verified(false, &old, &itm, false), ChallengeStep::Hash { .. }));
    let r = challenge_commit(&mut itm, "H");
    assert!(r.succeeded);
    assert!(!itm.has_str("otp"));
    let admin_edit = change_request(5, "", "n", "n");
    let step = challenge_begin(true, "user", &Some(stored_user_five()), &admin_edit, DataObjectAction::Update);
    match step {
        ChallengeStep::Hash { plaintext, salt } => {
            assert_eq!(plaintext, "n");
            assert_eq!(salt, "s5");
        }
        _ => panic!("expected a hash request"),
    }
}

#[test]
fn challenge_missing_salt_placeholder() {
    let mut old = Record::new(5);
    old.set_str("otp", "777");
    let itm = change_request(5, "777", "n", "n");
    match challenge_begin(false, "user", &Some(old), &itm, DataObjectAction::Update) {
        ChallengeStep::Hash { salt, .. } => assert_eq!(salt, "<empty salt>"),
        _ => panic!("expected a hash request"),
    }
}

fn people() -> Vec<(u64, Record)> {
    let mut a = user(1, "a", "a@x.com");
    a.set_str("name", "Ann");
    a.set_str("password", "h1");
    a.set_str("salt", "s1");
    a.set_str("phone", "123");
    a.set_bool("has_insurance", true);
    a.set_bool("role_is_admin", true);
    let mut b = user(2, "b", "b@x.com");
    b.set_str("name", "Bob");
    b.set_str("password", "h2");
    b.set_bool("role_is_active", true);
    let mut c = user(3, "c", "c@x.com");
    c.set_str("name", "Cid");
    c.set_bool("__security_preserve", true);
    c.set_str("salt", "s3");
    vec![(1, a), (2, b), (3, c)]
}

#[test]
fn filter_anonymous_sees_nothing() {
    let out = item_list_filter(&None, false, "user", "list", &people());
    assert!(out.is_empty());
}

#[test]
fn filter_list_hides_private_fields() {
    let viewer = Record::new(2);
    let out = item_list_filter(&Some(viewer), false, "user", "list", &people());
    assert_eq!(out.len(), 3);
    for (_, r) in &out {
        for k in ["password", "salt", "phone", "has_insurance"] {
            assert!(r.get(k).is_none());
        }
    }
    assert_eq!(out[0].1.safe_str("name", ""), "Ann");
    assert!(out[0].1.get("role_is_admin").is_none());
    assert!(out[1].1.safe_bool("role_is_active", false));
    assert!(out[2].1.get("role_is_admin").is_some());
}

#[test]
fn filter_full_drops_other_users() {
    let viewer = Record::new(2);
    let out = item_list_filter(&Some(viewer), false, "user", "full", &people());
    let keys: Vec<u64> = out.iter().map(|e| e.0).collect();
    assert_eq!(keys, vec![2, 3]);
    assert!(out[0].1.get("password").is_none());
    assert!(out[1].1.get("salt").is_none());
    assert_eq!(out[0].1.safe_str("email", ""), "b@x.com");
    let admin = item_list_filter(&Some(Record::new(9)), true, "user", "full", &people());
    assert_eq!(admin.len(), 3);
    assert!(admin[0].1.get("phone").is_some());
}

#[test]
fn filter_other_collections() {
    let mut t = Record::new(7);
    t.set_str("name", "T");
    t.set("customer", Value::Int(4));
    t.set_str("secret", "x");
    let set = vec![(7, t)];
    let list = item_list_filter(&Some(Record::new(1)), false, "ticket", "list", &set);
    assert_eq!(list.len(), 1);
    assert_eq!(list[0].1.safe_str("name", ""), "T");
    assert!(matches!(list[0].1.get("customer"), Some(Value::Int(4))));
    assert!(list[0].1.get("ticket_ref").is_none());
    assert!(list[0].1.get("secret").is_none());
    let full = item_list_filter(&Some(Record::new(1)), false, "ticket", "full", &set);
    assert_eq!(full[0].1.safe_str("secret", ""), "x");
}

#[test]
fn migrate_backfills_salt_once() {
    let mut r = Record::new(4);
    r.set_str("password", "plain");
    assert!(matches!(migrate_begin("user", &r), ReadStep::NewSalt));
    let step = migrate_salted(&mut r, "salty");
    let hash = match step {
        ReadStep::Rehash { password, salt } => format!("H({}+{})", password, salt),
        _ => panic!("expected a rehash"),
    };
    assert!(migrate_rehashed(&mut r, &hash));
    assert_eq!(r.safe_str("salt", ""), "salty");
    assert_eq!(r.safe_str("password", ""), "H(plain+salty)");
    assert!(matches!(migrate_begin("user", &r), ReadStep::Done(false)));
}

#[test]
fn migrate_without_password_and_other_collections() {
    let mut r = Record::new(4);
    assert!(matches!(migrate_salted(&mut r, "s"), ReadStep::Done(true)));
    assert_eq!(r.safe_str("salt", ""), "s");
    assert!(matches!(migrate_begin("ticket", &Record::new(1)), ReadStep::Done(false)));
}

#[test]
fn otp_message_sent_once() {
    let mut r = Record::new(1);
    r.set_str("email", "a@x.com");
    r.set_str("otp", "123456");
    let m = otp_email(&r).unwrap();
    assert_eq!(m.to, "a@x.com");
    assert_eq!(m.subject, "Your login code");
    assert!(m.body.contains("123456"));
    assert_eq!(m.body, "Enter this as password: 123456");
    r.set_str("otp", "");
    assert!(otp_email(&r).is_none());
}
