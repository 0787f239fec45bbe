//! Licenses, trials, and the signing tool.

use pasteport::license::{
    encode_key, verifying_key_from_b64, License, LicensePayload, Minter, Plan, Signed,
    VerifyingKey, KEY_PREFIX,
};
use pasteport::license_error::{Error, Result};
use pasteport::licensing::{LicenseFile, Licensing, Status, StatusStep};
use pasteport::machine::{kept_fingerprint, license_id, new_fingerprint};
use pasteport::mint::{describe, is_term, parse_i64, parse_sign_args, parse_u32, payload_for};
use pasteport::trial::{Trial, TrialFile, SECS_PER_DAY, TRIAL_DAYS};

const DAY: i64 = 86_400;

fn minter() -> Minter {
    Minter::from_seed(&[7u8; 32])
}

fn payload() -> LicensePayload {
    LicensePayload {
        v: 1,
        id: "lic_abcdef123".into(),
        email: "buyer@example.com".into(),
        plan: Plan::Personal,
        seats: 1,
        issued_at: 1_700_000_000,
        expires_at: None,
    }
}

/// Reads a payload the way the application does, field by field.
fn decode(bytes: &[u8]) -> std::result::Result<LicensePayload, String> {
    let value: serde_json::Value = serde_json::from_slice(bytes).map_err(|e| e.to_string())?;
    let text = |name: &str| {
        value[name]
            .as_str()
            .map(|s| s.to_string())
            .ok_or_else(|| format!("missing field `{name}`"))
    };
    let number = |name: &str| {
        value[name]
            .as_i64()
            .ok_or_else(|| format!("missing field `{name}`"))
    };
    Ok(LicensePayload {
        v: number("v")? as u32,
        id: text("id")?,
        email: text("email")?,
        plan: match text("plan")?.as_str() {
            "personal" => Plan::Personal,
            "team" => Plan::Team,
            "lifetime" => Plan::Lifetime,
            other => return Err(format!("unknown variant `{other}`")),
        },
        seats: value["seats"].as_u64().unwrap_or(1) as u32,
        issued_at: number("issued_at")?,
        expires_at: value["expires_at"].as_i64(),
    })
}

fn verify(raw: &str, key: &VerifyingKey) -> Result<License> {
    let signed: Signed = License::verify(raw, key)?;
    let decoded = decode(&signed.payload);
    License::accept(signed, decoded)
}

#[test]
fn verifies_a_well_formed_key() {
    let m = minter();
    let key = m.sign(&payload()).unwrap();
    let license = verify(&key, &m.verifying_key()).unwrap();
    assert_eq!(license.payload, payload());
}

#[test]
fn tolerates_pasted_whitespace() {
    let m = minter();
    let key = m.sign(&payload()).unwrap();
    let mangled = format!("  {}\n  ", key.replace('.', ".\n"));
    assert!(verify(&mangled, &m.verifying_key()).is_ok());
}

#[test]
fn a_key_is_kept_as_it_was_entered() {
    let m = minter();
    let raw = format!("  {}\n", m.sign(&payload()).unwrap());
    let license = verify(&raw, &m.verifying_key()).unwrap();
    assert_eq!(license.raw, raw);
    assert_eq!(license.payload, payload());
}

#[test]
fn rejects_a_tampered_payload() {
    let m = minter();
    let key = m.sign(&payload()).unwrap();

    // Re-encode a payload that says "lifetime" while keeping the signature.
    let mut parts: Vec<&str> = key.split('.').collect();
    let mut evil = payload();
    evil.plan = Plan::Lifetime;
    let other = encode_key(&evil.signing_bytes().unwrap(), &[0u8; 64]);
    let forged = other.split('.').nth(1).unwrap();
    parts[1] = forged;
    let forged_key = parts.join(".");

    assert!(matches!(
        verify(&forged_key, &m.verifying_key()),
        Err(Error::BadSignature)
    ));
}

#[test]
fn rejects_a_key_from_another_signer() {
    let real = minter();
    let attacker = Minter::from_seed(&[9u8; 32]);
    let key = attacker.sign(&payload()).unwrap();
    assert!(matches!(
        verify(&key, &real.verifying_key()),
        Err(Error::BadSignature)
    ));
}

#[test]
fn rejects_malformed_keys() {
    let m = minter();
    let vk = m.verifying_key();
    for bad in [
        "",
        "PP1",
        "PP1.only-two",
        "PP1.a.b.c",
        "PP2.abc.def",
        "PP1.!!!notbase64!!!.abc",
    ] {
        assert!(verify(bad, &vk).is_err(), "{bad:?} must not verify");
    }
}

#[test]
fn each_fault_has_its_own_error() {
    let vk = minter().verifying_key();
    assert_eq!(
        verify("PP1", &vk).unwrap_err(),
        Error::Malformed("missing payload segment")
    );
    assert_eq!(
        verify("PP1.a", &vk).unwrap_err(),
        Error::Malformed("missing signature segment")
    );
    assert_eq!(
        verify("PP1.a.b.c", &vk).unwrap_err(),
        Error::Malformed("too many segments")
    );
    assert_eq!(
        verify("PP2.abcd.efgh", &vk).unwrap_err().message(),
        "license key format \"PP2\" is not recognised by this version"
    );
    assert_eq!(
        verify("PP1.!.abcd", &vk).unwrap_err(),
        Error::Malformed("payload is not base64url")
    );
    assert_eq!(
        verify("PP1.abcd.!", &vk).unwrap_err(),
        Error::Malformed("signature is not base64url")
    );
    assert_eq!(
        verify("PP1.abcd.abcd", &vk).unwrap_err(),
        Error::Malformed("signature is not 64 bytes")
    );
}

#[test]
fn rejects_a_short_signature() {
    let m = minter();
    let key = m.sign(&payload()).unwrap();
    let truncated = {
        let parts: Vec<&str> = key.split('.').collect();
        format!("{}.{}.{}", parts[0], parts[1], &parts[2][..20])
    };
    assert!(matches!(
        verify(&truncated, &m.verifying_key()),
        Err(Error::Malformed(_))
    ));
}

#[test]
fn expiry_is_evaluated_against_a_supplied_clock() {
    let perpetual = payload();
    assert!(!perpetual.is_expired_at(i64::MAX - 1));

    let sub = LicensePayload {
        expires_at: Some(2_000),
        ..payload()
    };
    assert!(!sub.is_expired_at(1_999));
    assert!(sub.is_expired_at(2_000));
    assert!(sub.is_expired_at(2_001));
}

#[test]
fn masked_id_does_not_leak_the_whole_key() {
    let m = minter();
    let key = m.sign(&payload()).unwrap();
    let license = verify(&key, &m.verifying_key()).unwrap();
    let masked = license.masked();
    assert!(masked.len() < license.payload.id.len() + 3);
    assert!(!masked.contains("123"));
    assert_eq!(masked, "lic_ab…");
}

#[test]
fn newer_payloads_and_undecodable_ones_are_refused() {
    let m = minter();
    let newer = LicensePayload { v: 2, ..payload() };
    let err = verify(&m.sign(&newer).unwrap(), &m.verifying_key()).unwrap_err();
    assert_eq!(err, Error::UnsupportedPayloadVersion(2));
    assert_eq!(
        err.message(),
        "license payload version 2 is newer than this build understands"
    );
    let signed = License::verify(&m.sign(&payload()).unwrap(), &m.verifying_key()).unwrap();
    let err = License::accept(signed, Err("bad json".to_string())).unwrap_err();
    assert_eq!(
        err.message(),
        "could not decode license payload: bad json"
    );
}

#[test]
fn signing_bytes_are_plain_json_in_a_fixed_order() {
    let bytes = LicensePayload {
        id: "a\"b\n".into(),
        expires_at: Some(-5),
        ..payload()
    }
    .signing_bytes()
    .unwrap();
    assert_eq!(
        String::from_utf8(bytes).unwrap(),
        "{\"v\":1,\"id\":\"a\\\"b\\n\",\"email\":\"buyer@example.com\",\"plan\":\"personal\",\
         \"seats\":1,\"issued_at\":1700000000,\"expires_at\":-5}"
    );
    let bytes = LicensePayload {
        email: "\u{1}\u{8}\t\u{b}\u{c}\r\u{1f}\u{7f}\\/é\u{2028}".into(),
        ..payload()
    }
    .signing_bytes()
    .unwrap();
    let text = String::from_utf8(bytes).unwrap();
    assert!(text.contains(
        "\"email\":\"\\u0001\\b\\t\\u000b\\f\\r\\u001f\u{7f}\\\\/é\u{2028}\","
    ));
    let bytes = payload().signing_bytes().unwrap();
    let value: serde_json::Value = serde_json::from_slice(&bytes).unwrap();
    assert!(value["expires_at"].is_null());
    assert_eq!(value["plan"].as_str(), Some("personal"));
}

#[test]
fn signed_bytes_tell_payloads_apart() {
    let bytes = |id: &str, email: &str, expires_at: Option<i64>| {
        LicensePayload {
            id: id.into(),
            email: email.into(),
            expires_at,
            ..payload()
        }
        .signing_bytes()
        .unwrap()
    };
    // Texts that try to end early, or that look like another's escapes.
    let all = [
        bytes("a", "b", None),
        bytes("a\",\"email\":\"b", "", None),
        bytes("a\\", "b", None),
        bytes("\n", "b", None),
        bytes("\\n", "b", None),
        bytes("\u{1}", "b", None),
        bytes("\\u0001", "b", None),
        bytes("a", "b", Some(1)),
        bytes("a", "b", Some(-1)),
    ];
    for (i, x) in all.iter().enumerate() {
        assert!(all.iter().skip(i + 1).all(|y| x != y));
    }
}

#[test]
fn keys_have_three_parts() {
    let key = encode_key(b"hi", &[0u8; 64]);
    let parts: Vec<&str> = key.split('.').collect();
    assert_eq!(parts[0], KEY_PREFIX);
    assert_eq!(parts[1], "aGk");
    assert_eq!(parts[2], "A".repeat(86));
}

// ---- minting -----------------------------------------------------------

#[test]
fn seed_round_trips_through_base64() {
    let m = Minter::from_seed(&[3u8; 32]);
    let again = Minter::from_seed_b64(&m.seed_b64()).unwrap();
    assert_eq!(m.verifying_key_b64(), again.verifying_key_b64());
}

#[test]
fn rejects_a_bad_seed() {
    assert!(Minter::from_seed_b64("not base64!").is_err());
    assert!(
        Minter::from_seed_b64("aGVsbG8").is_err(),
        "wrong length must be rejected"
    );
    assert_eq!(
        Minter::from_seed_b64("!").unwrap_err().message(),
        "license verifying key is invalid: seed is not base64url"
    );
}

#[test]
fn signed_keys_verify_against_the_published_public_key() {
    let m = Minter::from_seed(&[11u8; 32]);
    let payload = LicensePayload {
        v: 1,
        id: "lic_mint_test".into(),
        email: "a@b.co".into(),
        plan: Plan::Team,
        seats: 5,
        issued_at: 1_700_000_000,
        expires_at: Some(1_800_000_000),
    };
    let key = m.sign(&payload).unwrap();

    let published = verifying_key_from_b64(&m.verifying_key_b64()).unwrap();
    let license = verify(&key, &published).unwrap();
    assert_eq!(license.payload.seats, 5);
}

#[test]
fn public_keys_are_checked() {
    // RFC 8032, first test vector: the public key of a known seed.
    let seed = [
        0x9d, 0x61, 0xb1, 0x9d, 0xef, 0xfd, 0x5a, 0x60, 0xba, 0x84, 0x4a, 0xf4, 0x92, 0xec, 0x2c,
        0xc4, 0x44, 0x49, 0xc5, 0x69, 0x7b, 0x32, 0x69, 0x19, 0x70, 0x3b, 0xac, 0x03, 0x1c, 0xae,
        0x7f, 0x60,
    ];
    let public = Minter::from_seed(&seed).verifying_key().to_bytes();
    assert_eq!(public[..4], [0xd7, 0x5a, 0x98, 0x01]);

    let err = |s: &str| verifying_key_from_b64(s).unwrap_err();
    assert_eq!(err("?"), Error::InvalidVerifyingKey("not base64url"));
    assert_eq!(err("aGVsbG8"), Error::InvalidVerifyingKey("not 32 bytes"));
    // Not every 32 bytes encode a curve point.
    let mut refused = 0;
    for first in 0..16u8 {
        let mut bytes = [0u8; 32];
        bytes[0] = first;
        let m = encode_key(&bytes, &[0u8; 64]);
        let b64 = m.split('.').nth(1).unwrap();
        if let Err(e) = verifying_key_from_b64(b64) {
            assert_eq!(e, Error::InvalidVerifyingKey("not a valid Ed25519 point"));
            refused += 1;
        }
    }
    assert!(refused > 0);
}

fn args(list: &[&str]) -> Vec<String> {
    list.iter().map(|s| s.to_string()).collect()
}

#[test]
fn sign_flags_are_read() {
    let told = parse_sign_args(&args(&[
        "--email", "a@b.co", "--plan", "team", "--seats", "+3", "--days", "365",
    ]))
    .unwrap();
    assert_eq!(told.plan, Plan::Team);
    assert_eq!(told.seats, 3);
    assert_eq!(told.days, Some(365));
    assert!(is_term(told.days, 1_000));
    let payload = payload_for(told, "lic_x".to_string(), 1_000).unwrap();
    assert_eq!(payload.seats, 3);
    assert_eq!(payload.id, "lic_x");
    assert_eq!(payload.expires_at, Some(1_000 + 365 * DAY));
    assert_eq!(
        describe(&payload),
        "\n  id       lic_x\n  email    a@b.co\n  plan     team\n  seats    3\n  expires  31537000\n"
    );

    // Seats count for team plans only, and never drop below one.
    let told = parse_sign_args(&args(&["--email", "a", "--seats", "9"])).unwrap();
    assert_eq!(payload_for(told, "i".to_string(), 0).unwrap().seats, 1);
    let told = parse_sign_args(&args(&[
        "--email", "a", "--plan", "team", "--seats", "0", "--id", "mine",
    ]))
    .unwrap();
    let payload = payload_for(told, "i".to_string(), 0).unwrap();
    assert_eq!(payload.seats, 1);
    assert_eq!(payload.id, "mine");
    assert!(describe(&payload).ends_with("expires  never\n"));
}

#[test]
fn sign_flags_that_make_no_sense_are_refused() {
    let err = |list: &[&str]| parse_sign_args(&args(list)).unwrap_err();
    assert_eq!(err(&["--email"]), "--email needs a value");
    assert_eq!(err(&["--plan", "gold"]), "unknown plan \"gold\"");
    assert_eq!(err(&["--seats", "-1"]), "--seats must be a number");
    assert_eq!(err(&["--days", "soon"]), "--days must be a number");
    assert_eq!(err(&["--what", "x"]), "unknown flag \"--what\"");
    let told = parse_sign_args(&[].to_vec()).unwrap();
    assert_eq!(
        payload_for(told, "i".to_string(), 0).unwrap_err(),
        "--email is required"
    );
    assert!(!is_term(Some(i64::MAX), 0));
    assert!(is_term(None, i64::MAX));
}

#[test]
fn numbers_are_read_as_the_standard_library_reads_them() {
    for s in [
        "", "+", "-", "0", "-0", "+7", "--1", "4294967295", "4294967296", "00012", "1 ", "１",
        "9223372036854775807", "9223372036854775808", "-9223372036854775808",
        "-9223372036854775809", "99999999999999999999999",
    ] {
        assert_eq!(parse_u32(s), s.parse::<u32>().ok(), "{s:?}");
        assert_eq!(parse_i64(s), s.parse::<i64>().ok(), "{s:?}");
    }
}

// ---- trial -------------------------------------------------------------

#[test]
fn counts_down_and_expires() {
    let t = Trial {
        started_at: 0,
        machine: "m".into(),
    };
    assert_eq!(t.days_left_at(0), TRIAL_DAYS as u32);
    assert!(t.is_active_at(0));

    // Halfway through.
    assert_eq!(t.days_left_at(7 * SECS_PER_DAY), 7);
    assert!(t.is_active_at(7 * SECS_PER_DAY));

    // Final second.
    assert_eq!(t.days_left_at(t.expires_at() - 1), 1);
    assert!(t.is_active_at(t.expires_at() - 1));

    // Expired.
    assert_eq!(t.days_left_at(t.expires_at()), 0);
    assert!(!t.is_active_at(t.expires_at()));
    assert_eq!(t.days_left_at(t.expires_at() + 999_999), 0);
}

#[test]
fn a_backwards_clock_does_not_expire_the_trial() {
    let t = Trial {
        started_at: 1_000_000,
        machine: "m".into(),
    };
    assert!(
        t.is_active_at(0),
        "a wrong system clock must not lock the user out"
    );
}

#[test]
fn a_record_beyond_the_calendar_does_not_fit() {
    let t = Trial {
        started_at: i64::MAX,
        machine: "m".into(),
    };
    assert!(!t.fits(0));
    assert!(Trial { started_at: 0, machine: "m".into() }.fits(0));
}

#[test]
fn first_run_starts_the_clock_and_persists_it() {
    let (t, save) = Trial::load_or_start(TrialFile::Missing, "machine-a", 1_000).unwrap();
    assert_eq!(t.started_at, 1_000);
    assert_eq!(t.machine, "machine-a");
    assert!(save);

    // A later run must not reset it.
    let (again, save) =
        Trial::load_or_start(TrialFile::Present(t), "machine-a", 9_999_999).unwrap();
    assert_eq!(again.started_at, 1_000);
    assert!(!save);
}

#[test]
fn corrupt_record_restarts_rather_than_granting_forever() {
    let (t, save) = Trial::load_or_start(TrialFile::Corrupt, "m", 5_000).unwrap();
    assert_eq!(t.started_at, 5_000);
    // And it is repaired on disk.
    assert!(save);
    assert_eq!(
        Trial::peek(TrialFile::Present(t)).unwrap().unwrap().started_at,
        5_000
    );
}

#[test]
fn peek_does_not_create_a_trial() {
    assert!(Trial::peek(TrialFile::Missing).unwrap().is_none());
    assert!(Trial::peek(TrialFile::Corrupt).unwrap().is_none());
    let unreadable = TrialFile::Unreadable {
        path: "trial.json".to_string(),
        reason: "denied".to_string(),
    };
    assert_eq!(
        Trial::peek(unreadable).unwrap_err().message(),
        "i/o error at trial.json: denied"
    );
}

// ---- status ------------------------------------------------------------

/// The files an install keeps.
struct Disk {
    license: Option<String>,
    trial: Option<Trial>,
}

fn setup() -> (Disk, Minter, Licensing) {
    let minter = Minter::from_seed(&[42u8; 32]);
    let licensing = Licensing::with_key(minter.verifying_key());
    (
        Disk {
            license: None,
            trial: None,
        },
        minter,
        licensing,
    )
}

impl Disk {
    fn status_at(&mut self, licensing: &Licensing, now: i64) -> Status {
        let file = match &self.license {
            Some(raw) => LicenseFile::Present(raw.clone()),
            None => LicenseFile::Missing,
        };
        match licensing.begin_status(file) {
            StatusStep::Done(status) => status,
            StatusStep::Decode(signed) => {
                let decoded = decode(&signed.payload);
                Licensing::licensed_status(signed, decoded, now)
            }
            StatusStep::Trial => {
                let file = match &self.trial {
                    Some(t) => TrialFile::Present(t.clone()),
                    None => TrialFile::Missing,
                };
                let loaded = Trial::load_or_start(file, "machine", now).map(|(trial, save)| {
                    if save {
                        self.trial = Some(trial.clone());
                    }
                    trial
                });
                Licensing::trial_status(loaded, now)
            }
        }
    }

    fn install_key(&mut self, licensing: &Licensing, raw: &str) -> Result<License> {
        let signed = licensing.check_key(raw)?;
        let decoded = decode(&signed.payload);
        let license = License::accept(signed, decoded)?;
        self.license = Some(license.raw.clone());
        Ok(license)
    }

    fn remove_key(&mut self) {
        self.license = None;
    }
}

fn term(expires_at: Option<i64>) -> LicensePayload {
    LicensePayload {
        v: 1,
        id: "lic_status".into(),
        email: "buyer@example.com".into(),
        plan: if expires_at.is_some() {
            Plan::Personal
        } else {
            Plan::Lifetime
        },
        seats: 1,
        issued_at: 0,
        expires_at,
    }
}

#[test]
fn fresh_install_starts_a_trial() {
    let (mut d, _m, licensing) = setup();
    let status = d.status_at(&licensing, 0);
    assert!(matches!(status, Status::Trial { days_left, .. } if days_left == TRIAL_DAYS as u32));
    assert!(status.is_functional());
    assert!(!status.needs_attention());
}

#[test]
fn trial_warns_near_the_end_then_expires() {
    let (mut d, _m, licensing) = setup();
    d.status_at(&licensing, 0); // start the clock at t=0

    let late = d.status_at(&licensing, 12 * DAY);
    assert!(late.is_functional());
    assert!(late.needs_attention(), "two days left should prompt");

    let over = d.status_at(&licensing, TRIAL_DAYS * DAY + 1);
    assert!(matches!(over, Status::TrialExpired { .. }));
    assert!(!over.is_functional());
    assert!(over.needs_attention());
    assert_eq!(over.summary(), "Trial expired; a license is required");
}

#[test]
fn a_valid_license_supersedes_the_trial() {
    let (mut d, minter, licensing) = setup();
    d.status_at(&licensing, 0);
    assert!(matches!(d.status_at(&licensing, 0), Status::Trial { .. }));

    let key = minter.sign(&term(None)).unwrap();
    d.install_key(&licensing, &key).unwrap();

    let status = d.status_at(&licensing, TRIAL_DAYS * DAY + 1);
    assert!(matches!(status, Status::Licensed { .. }));
    assert!(status.is_functional());
    assert!(!status.needs_attention());
    assert!(status.summary().contains("perpetual"));
}

#[test]
fn a_perpetual_license_never_expires() {
    let (mut d, minter, licensing) = setup();
    d.install_key(&licensing, &minter.sign(&term(None)).unwrap())
        .unwrap();
    assert!(matches!(
        d.status_at(&licensing, i64::MAX / 2),
        Status::Licensed { .. }
    ));
}

#[test]
fn a_subscription_license_expires_but_says_who_it_was() {
    let (mut d, minter, licensing) = setup();
    let expires = 100 * DAY;
    d.install_key(&licensing, &minter.sign(&term(Some(expires))).unwrap())
        .unwrap();

    assert!(matches!(
        d.status_at(&licensing, expires - 1),
        Status::Licensed { .. }
    ));

    let status = d.status_at(&licensing, expires);
    assert!(matches!(status, Status::Expired { .. }));
    assert!(!status.is_functional());
    assert!(status.summary().contains("buyer@example.com"));
}

#[test]
fn a_forged_license_is_rejected_not_accepted() {
    let (mut d, _m, licensing) = setup();
    let attacker = Minter::from_seed(&[1u8; 32]);
    let forged = attacker.sign(&term(None)).unwrap();

    // Written directly, bypassing the check on install.
    d.license = Some(forged);

    let status = d.status_at(&licensing, 0);
    assert!(matches!(status, Status::Invalid { .. }));
    assert!(!status.is_functional());
    assert_eq!(
        status.summary(),
        "License not valid: license signature is not valid"
    );
}

#[test]
fn install_key_refuses_a_bad_key_and_keeps_the_old_one() {
    let (mut d, minter, licensing) = setup();
    d.install_key(&licensing, &minter.sign(&term(None)).unwrap())
        .unwrap();

    let attacker = Minter::from_seed(&[2u8; 32]);
    let bad = attacker.sign(&term(None)).unwrap();
    assert!(d.install_key(&licensing, &bad).is_err());

    // The good license is still in place.
    assert!(matches!(
        d.status_at(&licensing, 0),
        Status::Licensed { .. }
    ));
}

#[test]
fn removing_a_key_falls_back_to_the_trial() {
    let (mut d, minter, licensing) = setup();
    d.install_key(&licensing, &minter.sign(&term(None)).unwrap())
        .unwrap();
    assert!(matches!(
        d.status_at(&licensing, 0),
        Status::Licensed { .. }
    ));

    d.remove_key();
    assert!(matches!(d.status_at(&licensing, 0), Status::Trial { .. }));
    // Removing twice is not an error.
    d.remove_key();
}

#[test]
fn source_builds_are_fully_functional() {
    let licensing = Licensing::unconfigured();
    assert!(!licensing.is_licensing_enforced());
    let StatusStep::Done(status) = licensing.begin_status(LicenseFile::Missing) else {
        panic!("a source build needs nothing further")
    };
    assert_eq!(status, Status::SelfBuilt);
    assert!(status.is_functional());
    assert!(!status.needs_attention());
    assert_eq!(status.summary(), "Built from source (unlicensed build)");
    assert!(!Licensing::new(None).is_licensing_enforced());
    assert!(!Licensing::new(Some("garbage!")).is_licensing_enforced());
    let published = minter().verifying_key_b64();
    assert!(Licensing::new(Some(&published)).is_licensing_enforced());
}

#[test]
fn unconfigured_build_cannot_install_a_key() {
    let licensing = Licensing::unconfigured();
    assert!(matches!(
        licensing.check_key("PP1.a.b"),
        Err(Error::NoVerifyingKey)
    ));
}

#[test]
fn an_unreadable_license_file_is_reported() {
    let (_d, _m, licensing) = setup();
    let step = licensing.begin_status(LicenseFile::Unreadable("denied".to_string()));
    let StatusStep::Done(status) = step else {
        panic!("nothing further to read")
    };
    assert_eq!(status.summary(), "License not valid: denied");
}

#[test]
fn summaries_are_human_readable() {
    let (mut d, minter, licensing) = setup();
    d.status_at(&licensing, 0);
    assert!(d
        .status_at(&licensing, 13 * DAY)
        .summary()
        .contains("1 day left"));

    d.install_key(&licensing, &minter.sign(&term(Some(100 * DAY))).unwrap())
        .unwrap();
    assert!(d
        .status_at(&licensing, 0)
        .summary()
        .starts_with("Licensed (personal"));
}

// ---- fingerprints ------------------------------------------------------

#[test]
fn is_stable_across_calls() {
    let first = new_fingerprint(&(0..16u8).collect::<Vec<u8>>());
    assert_eq!(first, "000102030405060708090a0b0c0d0e0f");
    let second = kept_fingerprint(&format!("  {first}\n")).unwrap();
    assert_eq!(first, second);
    assert_eq!(first.len(), 32);
}

#[test]
fn differs_between_installs() {
    let one = new_fingerprint(&vec![0x12; 16]);
    let two = new_fingerprint(&vec![0x21; 16]);
    assert_ne!(one, two);
}

#[test]
fn replaces_a_corrupt_id() {
    assert!(kept_fingerprint("not-a-valid-id").is_none());
    assert!(kept_fingerprint(&"g".repeat(32)).is_none());
    assert!(kept_fingerprint(&"a".repeat(31)).is_none());
    let id = new_fingerprint(&vec![0xab; 16]);
    assert_eq!(id.len(), 32);
    assert!(id.chars().all(|c| c.is_ascii_hexdigit()));
}

#[test]
fn license_ids_are_short_hex() {
    assert_eq!(license_id(&vec![0xff, 1, 2, 3, 4, 5, 6, 7]), "lic_ff0102030405");
}
