use twodrive::peer::update::{
    accept_download, activate, activate_pending, active_executable, conclude_activation,
    download_plan, executable_name, health_answer, health_wait, inspected, keygen, rollback,
    sign_release, stage_local, validate_tag, verify_installed, Activation, HealthWait, Installed,
    Location, Release, UpdateState, MAX_EXE,
};
use twodrive::peer::version::{exceeds, own_version, Version};
use twodrive::peer::PeerError;

const WINDOWS: &str = "windows-x86_64";

fn key() -> ed25519_dalek::SigningKey {
    ed25519_dalek::SigningKey::from_bytes(&[42; 32])
}

fn signed(key: &ed25519_dalek::SigningKey, release: &mut Release) {
    let signature = ed25519_dalek::Signer::sign(key, &release.signing_bytes());
    release.signature = hex::encode(signature.to_bytes());
}

fn package() -> (ed25519_dalek::SigningKey, Release, Vec<u8>) {
    let key = key();
    let bytes = b"synthetic executable fixture".to_vec();
    let mut r = Release {
        schema: 1,
        product: "twodrive-peer".into(),
        version: Version::new(0, 1, 1),
        platform: WINDOWS.into(),
        file: "twodrive-peer.exe".into(),
        size: bytes.len() as u64,
        sha256: hex::encode(<sha2::Sha256 as sha2::Digest>::digest(&bytes)),
        signature: String::new(),
    };
    signed(&key, &mut r);
    (key, r, bytes)
}

fn public(key: &ed25519_dalek::SigningKey) -> String {
    hex::encode(key.verifying_key().as_bytes())
}

fn same(a: &Option<Version>, b: &Option<Version>) -> bool {
    match (a, b) {
        (Some(a), Some(b)) => a.equals(b),
        (None, None) => true,
        _ => false,
    }
}

#[test]
fn normal_update_and_failed_health_preserve_previous_and_highwater() {
    let mut state = UpdateState::default();
    let (key, mut r, bytes) = package();
    let public = public(&key);
    assert_eq!(stage_local(&mut state, &r, &bytes, &None, &public, WINDOWS), Ok(true));
    let installed = Installed { release: r.clone(), bytes: bytes.clone() };
    let found = Some(Installed { release: r.clone(), bytes: bytes.clone() });
    let mut launched = Vec::new();
    let result = activate(&mut state, &found, &public, WINDOWS, |place, version| {
        launched.push((place.directory.clone(), place.file.clone(), version.to_text()));
        Ok(())
    });
    assert_eq!(result, Ok(()));
    let launch = ("0.1.1".to_string(), "twodrive-peer.exe".to_string(), "0.1.1".to_string());
    assert_eq!(launched, vec![launch]);
    assert!(state.pending.is_none() && state.previous.is_none());
    assert!(same(&state.highwater, &Some(r.version.clone())));
    assert!(same(&state.active, &Some(r.version.clone())));
    assert!(stage_local(&mut state, &r, &bytes, &None, &public, WINDOWS).is_err());
    r.version = Version::new(0, 1, 2);
    signed(&key, &mut r);
    assert!(stage_local(&mut state, &r, &bytes, &None, &public, WINDOWS).is_ok());
    let next = Some(Installed { release: r.clone(), bytes: bytes.clone() });
    assert_eq!(
        activate(&mut state, &next, &public, WINDOWS, |_, _| Err(PeerError::Health)),
        Err(PeerError::Health)
    );
    assert!(same(&state.active, &Some(Version::new(0, 1, 1))));
    assert!(same(&state.highwater, &state.active));
    assert!(state.pending.is_none());
    let place = active_executable(&state, &Some(installed), &public, WINDOWS).unwrap().unwrap();
    assert_eq!((place.directory.as_str(), place.file.as_str()), ("0.1.1", "twodrive-peer.exe"));
}

#[test]
fn invalid_signature_corruption_wrong_platform_version_and_product_are_rejected() {
    let mut state = UpdateState::default();
    let (key, r, bytes) = package();
    let public = public(&key);
    let mut bad = r.clone();
    bad.signature = "00".repeat(64);
    assert!(stage_local(&mut state, &bad, &bytes, &None, &public, WINDOWS).is_err());
    assert!(stage_local(&mut state, &r, b"damaged", &None, &public, WINDOWS).is_err());
    assert!(stage_local(&mut state, &r, &bytes, &None, &public, "linux-x86_64").is_err());
    for mutate in 0..4 {
        let mut bad = r.clone();
        match mutate {
            0 => bad.version = Version::new(0, 0, 1),
            1 => bad.file = "../evil.exe".into(),
            2 => bad.product = "other".into(),
            _ => bad.schema = 2,
        }
        signed(&key, &mut bad);
        assert!(stage_local(&mut state, &bad, &bytes, &None, &public, WINDOWS).is_err());
    }
    assert!(state.pending.is_none() && state.active.is_none() && state.highwater.is_none());
}

#[test]
fn corruption_after_staging_and_interrupted_stage_do_not_replace_active() {
    let mut state = UpdateState::default();
    let (key, r, bytes) = package();
    let public = public(&key);
    stage_local(&mut state, &r, &bytes, &None, &public, WINDOWS).unwrap();
    let corrupt = Some(Installed { release: r, bytes: b"bad".to_vec() });
    let result =
        activate(&mut state, &corrupt, &public, WINDOWS, |_, _| panic!("must not execute"));
    assert_eq!(result, Err(PeerError::UpdateBytes));
    assert!(state.active.is_none() && state.pending.is_none());
    assert!(active_executable(&state, &None, &public, WINDOWS).unwrap().is_none());
}

#[test]
fn tag_cannot_choose_url_or_path() {
    for tag in [
        "https://evil",
        "peer-v../x",
        "peer-v0.2.0/evil",
        "peer-v0.2.0+foo",
        "peer-v0.2.0-beta",
    ] {
        assert!(validate_tag(tag).is_err());
    }
    assert!(validate_tag("peer-v0.2.0").unwrap().equals(&Version::new(0, 2, 0)));
}

#[test]
fn tags_have_one_form() {
    for tag in ["peer-v01.2.0", "peer-v0.2", "peer-v 0.2.0", "peer-v0.2.0 ", "v0.2.0", ""] {
        assert!(matches!(validate_tag(tag), Err(PeerError::Tag)), "{tag}");
    }
    let long = format!("peer-v0.0.{}", "1".repeat(60));
    assert!(validate_tag(&long).is_err());
    let v = validate_tag("peer-v18446744073709551615.0.1").unwrap();
    assert!(v.equals(&Version::new(u64::MAX, 0, 1)));
}

#[test]
fn a_release_is_refused_for_each_reason() {
    let (key, r, bytes) = package();
    let public = public(&key);
    let floor = own_version();
    let check = |f: &dyn Fn(&mut Release)| {
        let mut bad = r.clone();
        f(&mut bad);
        signed(&key, &mut bad);
        bad.verify_key(&public, WINDOWS, &floor)
    };
    assert_eq!(check(&|_| {}), Ok(()));
    assert_eq!(check(&|r| r.schema = 2), Err(PeerError::UpdateProduct));
    assert_eq!(check(&|r| r.platform = "linux-x86_64".into()), Err(PeerError::UpdatePlatform));
    assert_eq!(check(&|r| r.version = Version::new(0, 1, 0)), Err(PeerError::UpdateVersion));
    assert_eq!(
        check(&|r| r.version.pre = "beta".to_string()),
        Err(PeerError::UpdateVersion)
    );
    assert_eq!(check(&|r| r.size = 0), Err(PeerError::UpdateSize));
    assert_eq!(check(&|r| r.size = MAX_EXE as u64 + 1), Err(PeerError::UpdateSize));
    assert_eq!(check(&|r| r.sha256 = "xyz".to_string()), Err(PeerError::UpdateSize));
    let mut forged = r.clone();
    forged.version = Version::new(0, 1, 9);
    assert_eq!(forged.verify_key(&public, WINDOWS, &floor), Err(PeerError::Signature));
    assert_eq!(r.check_bytes(&bytes), Ok(()));
    assert_eq!(r.check_bytes(b"other"), Err(PeerError::UpdateBytes));
    assert_eq!(executable_name(WINDOWS), "twodrive-peer.exe");
    assert_eq!(executable_name("linux-x86_64"), "twodrive-peer");
}

#[test]
fn the_signed_bytes_are_stable() {
    let (_, mut r, _) = package();
    r.sha256 = "ab".repeat(32);
    assert_eq!(
        String::from_utf8(r.signing_bytes()).unwrap(),
        format!(
            "TwoDrive/release/v1\0{{\"schema\":1,\"product\":\"twodrive-peer\",\"version\":\"0.1.1\",\"platform\":\"windows-x86_64\",\"file\":\"twodrive-peer.exe\",\"size\":28,\"sha256\":\"{}\",\"signature\":\"\"}}",
            "ab".repeat(32)
        )
    );
}

#[test]
fn what_is_installed_is_compared() {
    let (key, r, bytes) = package();
    let public = public(&key);
    let mut state = UpdateState::default();
    let here = Installed { release: r.clone(), bytes: bytes.clone() };
    assert_eq!(
        stage_local(&mut state, &r, &bytes, &Some(here), &public, WINDOWS),
        Ok(false)
    );
    let mut other = r.clone();
    other.signature = "11".repeat(64);
    let here = Installed { release: other, bytes: bytes.clone() };
    assert_eq!(
        stage_local(&mut state, &r, &bytes, &Some(here), &public, WINDOWS),
        Err(PeerError::ExistingDiffers)
    );
    let here = Installed { release: r.clone(), bytes: b"bad".to_vec() };
    assert_eq!(
        stage_local(&mut state, &r, &bytes, &Some(here), &public, WINDOWS),
        Err(PeerError::UpdateBytes)
    );
    let here = Installed { release: r.clone(), bytes };
    assert_eq!(
        verify_installed(&here, &Version::new(0, 1, 5), &public, WINDOWS),
        Err(PeerError::InstalledVersion)
    );
    state.active = Some(r.version.clone());
    assert!(matches!(
        active_executable(&state, &None, &public, WINDOWS),
        Err(PeerError::Unreadable)
    ));
}

#[test]
fn downloads_follow_tags_above_the_floor() {
    let mut state = UpdateState::default();
    let plan = download_plan("peer-v0.2.0", WINDOWS, &state).unwrap();
    assert_eq!(
        plan.manifest,
        "https://github.com/LumiaBlack51/twodrive/releases/download/peer-v0.2.0/twodrive-peer-windows-x86_64.json"
    );
    assert_eq!(
        plan.binary,
        "https://github.com/LumiaBlack51/twodrive/releases/download/peer-v0.2.0/twodrive-peer.exe"
    );
    assert!(matches!(
        download_plan("peer-v0.2.0", "linux-x86_64", &state),
        Err(PeerError::InstallPlatform)
    ));
    assert!(matches!(
        download_plan("peer-v0.1.0", WINDOWS, &state),
        Err(PeerError::NotNewer)
    ));
    state.highwater = Some(Version::new(0, 3, 0));
    assert!(matches!(
        download_plan("peer-v0.2.0", WINDOWS, &state),
        Err(PeerError::NotNewer)
    ));
    let (key, r, _) = package();
    let fresh = UpdateState::default();
    assert_eq!(
        accept_download(&Version::new(0, 1, 1), &r, &public(&key), WINDOWS, &fresh),
        Ok(())
    );
    assert_eq!(
        accept_download(&Version::new(0, 2, 0), &r, &public(&key), WINDOWS, &fresh),
        Err(PeerError::TagMismatch)
    );
}

#[test]
fn the_floor_survives_going_back() {
    let mut state = UpdateState {
        active: Some(Version::new(0, 3, 0)),
        previous: Some(Version::new(0, 2, 0)),
        pending: None,
        highwater: Some(Version::new(0, 3, 0)),
    };
    rollback(&mut state);
    assert!(same(&state.active, &Some(Version::new(0, 2, 0))));
    assert!(state.previous.is_none());
    assert!(state.floor().equals(&Version::new(0, 3, 0)));
    state.pending = Some(Version::new(0, 3, 0));
    assert!(matches!(
        activate_pending(&state),
        Activation::Refused(PeerError::PendingRollback)
    ));
    state.pending = None;
    assert!(matches!(activate_pending(&state), Activation::Idle));
    state.highwater = None;
    assert!(state.floor().equals(&Version::new(0, 1, 0)));
}

#[test]
fn versions_are_ordered_as_documented() {
    let v = |a: u64, b: u64, c: u64| Version::new(a, b, c);
    assert!(exceeds(&v(1, 0, 0), &v(0, 9, 9)));
    assert!(exceeds(&v(0, 10, 0), &v(0, 9, 9)));
    assert!(!exceeds(&v(0, 1, 0), &v(0, 1, 0)));
    let mut pre = v(1, 0, 0);
    pre.pre = "alpha.1".to_string();
    assert!(exceeds(&v(1, 0, 0), &pre));
    assert!(!exceeds(&pre, &v(1, 0, 0)));
    assert_eq!(pre.to_text(), "1.0.0-alpha.1");
    assert!(!pre.is_stable());
    let mut build = v(1, 0, 0);
    build.build = "b7".to_string();
    assert_eq!(build.to_text(), "1.0.0+b7");
    assert!(own_version().equals(&v(0, 1, 0)));
}

#[test]
fn health_checks_end() {
    assert_eq!(health_wait(Some(true), 0), HealthWait::Read);
    assert_eq!(health_wait(Some(false), 0), HealthWait::Failed);
    assert_eq!(health_wait(None, 20_000_000_000), HealthWait::Again);
    assert_eq!(health_wait(None, 20_000_000_001), HealthWait::Kill);
    let v = Version::new(0, 2, 0);
    let some = |s: &str| Some(s.to_string());
    assert_eq!(health_answer(&some("0.2.0"), &some(WINDOWS), Some(true), &v, WINDOWS), Ok(()));
    for (version, platform, ok) in [
        (some("0.2.1"), some(WINDOWS), Some(true)),
        (some("0.2.0"), some("linux-x86_64"), Some(true)),
        (some("0.2.0"), some(WINDOWS), Some(false)),
        (None, some(WINDOWS), Some(true)),
    ] {
        assert_eq!(health_answer(&version, &platform, ok, &v, WINDOWS), Err(PeerError::Health));
    }
}

#[test]
fn signed_releases_verify() {
    let secret = [5u8; 32];
    let r = sign_release(&secret, b"program", Version::new(0, 4, 0), "linux-x86_64").unwrap();
    assert_eq!(r.file, "twodrive-peer");
    assert_eq!(r.size, 7);
    let key = ed25519_dalek::SigningKey::from_bytes(&secret);
    assert_eq!(r.verify_key(&public(&key), "linux-x86_64", &own_version()), Ok(()));
    assert_eq!(r.check_bytes(b"program"), Ok(()));
    assert!(matches!(
        sign_release(&secret, b"program", Version::new(0, 4, 0), "amiga"),
        Err(PeerError::ReleasePlatform)
    ));
}

#[test]
fn a_new_key_signs_releases() {
    let (secret, line) = keygen();
    let key = ed25519_dalek::SigningKey::from_bytes(&secret);
    assert_eq!(line, format!("{}\n", public(&key)));
    let r = sign_release(&secret, b"program", Version::new(0, 4, 0), WINDOWS).unwrap();
    assert_eq!(r.verify_key(line.trim(), WINDOWS, &own_version()), Ok(()));
    assert_ne!(keygen().0, secret);
}

#[test]
fn a_candidate_is_inspected_before_its_launch_and_adopted_after_it() {
    let (key, r, bytes) = package();
    let public = public(&key);
    let v = r.version.clone();
    let found = Some(Installed { release: r.clone(), bytes: bytes.clone() });
    let place = inspected(&v, &found, &public, WINDOWS).unwrap();
    assert_eq!((place.directory.as_str(), place.file.as_str()), ("0.1.1", "twodrive-peer.exe"));
    assert!(matches!(inspected(&v, &None, &public, WINDOWS), Err(PeerError::Unreadable)));
    assert!(matches!(
        inspected(&Version::new(0, 1, 2), &found, &public, WINDOWS),
        Err(PeerError::InstalledVersion)
    ));

    let staged = || {
        let mut state = UpdateState::default();
        stage_local(&mut state, &r, &bytes, &None, &public, WINDOWS).unwrap();
        state
    };
    let place = || Location { directory: "0.1.1".to_string(), file: "x".to_string() };
    for (inspection, healthy, adopted) in [
        (Ok(place()), true, true),
        (Ok(place()), false, false),
        (Err(PeerError::Signature), true, false),
        (Err(PeerError::Signature), false, false),
    ] {
        let mut state = staged();
        conclude_activation(&mut state, &inspection, healthy);
        assert!(state.pending.is_none());
        assert_eq!(state.active.is_some(), adopted);
        assert_eq!(state.highwater.is_some(), adopted);
    }
}

#[test]
fn a_pending_version_that_is_not_new_is_never_launched() {
    let (key, mut r, bytes) = package();
    let public = public(&key);
    let mut state = UpdateState {
        active: None,
        previous: None,
        pending: Some(r.version.clone()),
        highwater: Some(Version::new(0, 2, 0)),
    };
    let found = Some(Installed { release: r.clone(), bytes: bytes.clone() });
    let result = activate(&mut state, &found, &public, WINDOWS, |_, _| panic!("must not execute"));
    assert_eq!(result, Err(PeerError::PendingRollback));
    assert!(state.pending.is_none() && state.active.is_none());
    assert_eq!(
        activate(&mut state, &None, &public, WINDOWS, |_, _| panic!("must not execute")),
        Ok(())
    );
    r.version = Version::new(0, 1, 9);
    signed(&key, &mut r);
    assert!(stage_local(&mut state, &r, &bytes, &None, &public, WINDOWS).is_err());
}
