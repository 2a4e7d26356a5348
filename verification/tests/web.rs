use loopmaster::decibels::Decibels;
use loopmaster::editor::RouteEdit;
use loopmaster::network::addresses::Ipv4;
use loopmaster::routing::{
    BusId, BusSpec, EndpointId, SendId, SendSpec, SinkId, SinkKind, SinkSpec, SourceId,
    SourceKind, SourceSpec, INTERNAL_SAMPLE_RATE,
};
use loopmaster::service::state::StateHub;
use loopmaster::web::auth::{
    constant_time_eq, extract_cookie, pin_of, sha256_hex, trusted_devices_path, uuid_v4,
    AuthError, AuthState, TrustedDevice, RATE_MAX_FAILURES, RATE_WINDOW_SECS,
};
use loopmaster::web::certificates::{
    check_authority, ensure_ca, ensure_server_cert, judge_authority, judge_issue, PemPair,
};
use loopmaster::web::control::{
    control_to_edit, handle_control, ControlMessage, ControlValue, SeqCache, MAX_SEQ_CACHE,
};
use loopmaster::web::monitor::{MonitorError, MonitorService};
use loopmaster::web::negotiation::{
    advance_offer, candidate_refused, OfferEvent, OfferProgress, OfferStep,
};
use loopmaster::web::projection::{
    build_initial_state, build_meter_frame, encode_meter_frame, MeterNode, MeterOps, SendLevels,
};
use loopmaster::web::server::{
    asset_path, started, static_reply, BindAddress, Readiness, StaticReply, WebServerConfig,
    WebServerError, DEFAULT_WEB_PORT,
};
use loopmaster::web::serving::{readiness, ServeEvent, ServeStep, ServerStart};
use loopmaster::web::tls::{
    address_texts, default_host_ips, install_local_ca, install_script, issued_meta,
    local_ca_status, needs_reissue, remove_local_ca, status_script, tls_dir_for, tls_material,
    CaProbe, StoreChange, SERVER_CERT_VALIDITY_SECS,
};
use loopmaster::windows::process::base64_encode;
use rcgen::{BasicConstraints, CertificateParams, DnType, DnValue, IsCa, KeyPair, SanType};

const NOW: i64 = 1_700_000_000;

fn db(gain: f32) -> Decibels {
    Decibels { bits: gain.to_bits() }
}

fn show_gain(gain: Decibels) -> String {
    format!("{}", f32::from_bits(gain.bits))
}

fn reloaded(auth: &AuthState) -> AuthState {
    AuthState::new(
        auth.devices()
            .iter()
            .map(|device| TrustedDevice {
                id: device.id.clone(),
                credential_hash: device.credential_hash.clone(),
                name: device.name.clone(),
                permission: device.permission.clone(),
                last_seen_unix: device.last_seen_unix,
            })
            .collect(),
    )
}

#[test]
fn pairing_secret_is_256_bit_and_pin_six_digits() {
    let mut auth = AuthState::new(Vec::new());
    let info = auth.start_pairing(NOW).unwrap();
    assert_eq!(info.secret.len(), 64);
    assert_eq!(info.pin.len(), 6);
    assert!(info.pin.chars().all(|c| c.is_ascii_digit()));
}

#[test]
fn pair_with_secret_issues_persistent_credential() {
    let mut auth = AuthState::new(Vec::new());
    let info = auth.start_pairing(NOW).unwrap();
    let credential = auth
        .pair(Some(&info.secret), None, "iPhone", "192.168.1.5", NOW)
        .unwrap();
    assert_eq!(credential.len(), 64);
    assert!(matches!(
        auth.pair(None, Some(&info.pin), "iPhone", "192.168.1.5", NOW),
        Err(AuthError::PairingClosed)
    ));
    let session = auth.verify_credential(Some(&credential), NOW).unwrap();
    assert_eq!(session.name, "iPhone");
    assert_eq!(session.permission, "control");
    assert!(reloaded(&auth).verify_credential(Some(&credential), NOW).is_some());
}

#[test]
fn pair_with_pin_works_and_wrong_credential_is_rejected() {
    let mut auth = AuthState::new(Vec::new());
    let info = auth.start_pairing(NOW).unwrap();
    assert!(auth.pair(None, Some(&info.pin), "iPad", "10.0.0.2", NOW).is_ok());
    auth.start_pairing(NOW).unwrap();
    assert!(matches!(
        auth.pair(Some("wrong"), None, "iPad", "10.0.0.2", NOW),
        Err(AuthError::InvalidCredential)
    ));
}

#[test]
fn rate_limit_blocks_after_five_failures() {
    let mut auth = AuthState::new(Vec::new());
    auth.start_pairing(NOW).unwrap();
    for _ in 0..RATE_MAX_FAILURES {
        assert!(matches!(
            auth.pair(Some("wrong"), None, "x", "10.0.0.9", NOW),
            Err(AuthError::InvalidCredential)
        ));
    }
    assert!(matches!(
        auth.pair(Some("wrong"), None, "x", "10.0.0.9", NOW),
        Err(AuthError::RateLimited)
    ));
    assert!(matches!(
        auth.pair(Some("wrong"), None, "x", "10.0.0.10", NOW),
        Err(AuthError::InvalidCredential)
    ));
    assert!(matches!(
        auth.pair(Some("wrong"), None, "x", "10.0.0.9", NOW + RATE_WINDOW_SECS + 1),
        Err(AuthError::InvalidCredential)
    ));
}

#[test]
fn only_failures_of_the_last_minute_count() {
    let mut auth = AuthState::new(Vec::new());
    let info = auth.start_pairing(NOW).unwrap();
    for at in [0, 10, 20, 30, 59] {
        assert!(matches!(
            auth.pair(None, Some("wrong"), "x", "10.0.0.9", NOW + at),
            Err(AuthError::InvalidCredential)
        ));
    }
    assert!(matches!(
        auth.pair(None, Some(&info.pin), "x", "10.0.0.9", NOW + 60),
        Err(AuthError::RateLimited)
    ));
    let credential = auth.pair(None, Some(&info.pin), "x", "10.0.0.9", NOW + 100).unwrap();
    assert_eq!(credential.len(), 64);
    assert!(credential.chars().all(|c| c.is_ascii_digit() || ('a'..='f').contains(&c)));
    assert_eq!(auth.list_devices().len(), 1);
    assert_eq!(auth.list_devices()[0].permission, "control");
    assert_eq!(auth.verify_credential(Some(&credential), NOW + 101).unwrap().name, "x");
    assert!(matches!(
        auth.pair(None, Some(&info.pin), "x", "10.0.0.9", NOW + 102),
        Err(AuthError::PairingClosed)
    ));
}

#[test]
fn forget_revokes_and_reset_clears_all() {
    let mut auth = AuthState::new(Vec::new());
    let info = auth.start_pairing(NOW).unwrap();
    let credential = auth.pair(Some(&info.secret), None, "Phone", "10.0.0.3", NOW).unwrap();
    let device = auth.verify_credential(Some(&credential), NOW).unwrap();

    auth.register_connection(&device.id, 41);
    assert_eq!(auth.forget(&device.id), Ok(vec![41]));
    assert!(auth.verify_credential(Some(&credential), NOW).is_none());
    assert_eq!(auth.forget(&device.id), Err(AuthError::DeviceNotFound));

    let info = auth.start_pairing(NOW).unwrap();
    let credential2 = auth.pair(Some(&info.secret), None, "Phone2", "10.0.0.4", NOW).unwrap();
    let device2 = auth.verify_credential(Some(&credential2), NOW).unwrap();
    auth.register_connection(&device2.id, 42);
    assert_eq!(auth.reset(), vec![42]);
    assert!(auth.verify_credential(Some(&credential2), NOW).is_none());
    assert!(auth.list_devices().is_empty());
}

#[test]
fn trust_lasts_through_what_others_do() {
    let mut auth = AuthState::new(Vec::new());
    let info = auth.start_pairing(NOW).unwrap();
    let first = auth.pair(Some(&info.secret), None, "Phone", "10.0.0.3", NOW).unwrap();
    let info = auth.start_pairing(NOW).unwrap();
    assert!(auth.pair(Some("wrong"), None, "x", "10.0.0.4", NOW).is_err());
    let second = auth.pair(Some(&info.secret), None, "Tablet", "10.0.0.5", NOW).unwrap();
    auth.stop_pairing();
    let tablet = auth.verify_credential(Some(&second), NOW + 9).unwrap();
    assert!(auth.verify_credential(Some(&first), NOW + 9).is_some());
    auth.forget(&tablet.id).unwrap();
    assert!(auth.verify_credential(Some(&first), NOW + 9).is_some());
    assert!(auth.verify_credential(Some(&second), NOW + 9).is_none());
}

#[test]
fn a_pairing_window_closes_by_itself() {
    let mut auth = AuthState::new(Vec::new());
    let info = auth.open_pairing(&[7; 32], &[0, 0, 1], NOW);
    assert_eq!(info.secret, "07".repeat(32));
    assert_eq!(info.pin, pin_of(&[0, 0, 1]));
    assert_eq!(info.expires_in_secs, 300);
    assert_eq!(auth.pairing_status(NOW + 100).unwrap().expires_in_secs, 200);
    assert!(auth.pairing_status(NOW + 301).is_none());
    assert!(matches!(
        auth.pair(Some(&info.secret), None, "x", "10.0.0.1", NOW + 301),
        Err(AuthError::PairingClosed)
    ));
    auth.open_pairing(&[7; 32], &[0, 0, 1], NOW);
    auth.stop_pairing();
    assert!(auth.pairing_status(NOW).is_none());
}

#[test]
fn a_pairing_opens_only_when_both_its_parts_were_drawn() {
    let mut auth = AuthState::new(Vec::new());
    assert!(auth.open_drawn_pairing(None, Some(vec![0, 0, 1]), NOW).is_none());
    assert!(auth.open_drawn_pairing(Some(vec![7; 32]), None, NOW).is_none());
    assert!(auth.pairing_status(NOW).is_none());
    let info = auth
        .open_drawn_pairing(Some(vec![7; 32]), Some(vec![0, 0, 1]), NOW)
        .unwrap();
    assert_eq!(info.secret, "07".repeat(32));
    assert_eq!(info.pin, pin_of(&[0, 0, 1]));
    assert!(auth.open_drawn_pairing(None, None, NOW).is_none());
    assert_eq!(auth.pairing_status(NOW).unwrap().secret, info.secret);
}

#[test]
fn cookie_extraction_handles_multiple_pairs() {
    assert_eq!(
        extract_cookie(Some("other=1; lm_device=abc123; x=y"), "lm_device").as_deref(),
        Some("abc123")
    );
    assert_eq!(extract_cookie(Some("other=1"), "lm_device"), None);
    assert_eq!(extract_cookie(None, "lm_device"), None);
}

#[test]
fn credentials_are_kept_as_their_hash() {
    assert_eq!(
        sha256_hex("abc"),
        "ba7816bf8f01cfea414140de5dae2223b00361a396177a9cb410ff61f20015ad"
    );
    assert!(constant_time_eq("abc", "abc"));
    assert!(!constant_time_eq("abc", "abd"));
    assert!(!constant_time_eq("abc", "ab"));
    assert_eq!(uuid_v4(vec![0; 16]), "00000000-0000-4000-8000-000000000000");
    assert_eq!(uuid_v4(vec![0xff; 16]), "ffffffff-ffff-4fff-bfff-ffffffffffff");
    assert_eq!(
        trusted_devices_path("C:/LoopMaster/config.json"),
        "C:/LoopMaster/trusted-devices.json"
    );
    for error in [
        AuthError::PairingClosed,
        AuthError::InvalidCredential,
        AuthError::RateLimited,
        AuthError::Unauthorized,
        AuthError::DeviceNotFound,
        AuthError::Persist("disk".into()),
        AuthError::NoRandomness,
    ] {
        assert!(!error.message().is_empty());
    }
}

#[test]
fn bind_addr_uses_configured_port() {
    let config = WebServerConfig { port: 12345, tls: false };
    assert_eq!(config.bind_addr().text(), "0.0.0.0:12345");
    assert_eq!(DEFAULT_WEB_PORT, 8920);
}

#[test]
fn a_start_is_known_by_its_readiness() {
    let address = WebServerConfig { port: 1, tls: true }.bind_addr();
    assert_eq!(started(Readiness::Ready(address)), Ok(address));
    assert!(matches!(
        started(Readiness::Failed("in use".into())),
        Err(WebServerError::Start(_))
    ));
    assert!(matches!(started(Readiness::TimedOut), Err(WebServerError::Start(_))));
    assert_eq!(address.reported().text(), "127.0.0.1:1");
    assert!(!WebServerError::NoConfigDir.message().is_empty());
    assert!(WebServerError::Tls("bad".into()).message().contains("bad"));
}

#[test]
fn unknown_path_falls_back_to_index_or_404() {
    match static_reply("/pair", false, true) {
        StaticReply::File { path, content_type } => {
            assert_eq!(path, "index.html");
            assert!(content_type.starts_with("text/html"));
        }
        StaticReply::NotFound => panic!("the start page is there"),
    }
    assert_eq!(static_reply("/pair", false, false), StaticReply::NotFound);
    match static_reply("/assets/app.js", true, true) {
        StaticReply::File { path, content_type } => {
            assert_eq!(path, "assets/app.js");
            assert!(content_type.contains("javascript"));
        }
        StaticReply::NotFound => panic!("the file is there"),
    }
    assert_eq!(asset_path("/"), "index.html");
}

#[test]
fn monitor_error_codes_are_stable() {
    assert_eq!(MonitorError::UnknownBus.code(), "unknown_bus");
    assert_eq!(MonitorError::LimitReached.code(), "monitor_limit_reached");
    assert_eq!(MonitorError::UnknownPeer.code(), "unknown_peer");
    assert_eq!(MonitorError::Internal("x".into()).code(), "monitor_internal");
}

#[test]
fn start_peer_validates_bus_and_limit() {
    let mut service = MonitorService::new();
    assert_eq!(
        service.start_peer(1, "bus-a", &Vec::new()),
        Err(MonitorError::UnknownBus)
    );
    let taps = vec!["bus-a".to_string()];
    let id1 = service.start_peer(1, "bus-a", &taps).unwrap();
    let id2 = service.start_peer(2, "bus-a", &taps).unwrap();
    assert_eq!(service.start_peer(3, "bus-a", &taps), Err(MonitorError::LimitReached));
    assert_eq!(service.available_buses(&taps), vec!["bus-a".to_string()]);
    assert_eq!(service.stop_peer(9, id1), Err(MonitorError::UnknownPeer));
    service.stop_peer(1, id1).unwrap();
    service.stop_peer(2, id2).unwrap();
    assert_eq!(service.available_buses(&taps), vec!["bus-a".to_string()]);
}

#[test]
fn a_peer_is_negotiated_by_its_owner() {
    let mut service = MonitorService::new();
    let taps = vec!["bus-a".to_string()];
    let first = service.new_owner();
    let second = service.new_owner();
    assert_ne!(first, second);
    let peer = service.start_peer(first, "bus-a", &taps).unwrap();
    assert_eq!(service.add_ice(first, peer), Ok(false));
    assert_eq!(service.offer_peer(second, peer), Err(MonitorError::UnknownPeer));
    assert_eq!(service.offer_peer(first, peer), Ok(96_000));
    service.peer_connected(first, peer).unwrap();
    assert_eq!(service.add_ice(first, peer), Ok(true));
    assert_eq!(service.close_owner(second), Vec::<u64>::new());
    assert_eq!(service.close_owner(first), vec![peer]);
    assert_eq!(service.shutdown(), Vec::<u64>::new());
    assert!(!MonitorError::LimitReached.message().is_empty());
}

#[test]
fn tls_dir_is_derived_from_config_path() {
    assert_eq!(
        tls_dir_for("C:/config/LoopMaster/config.json").unwrap(),
        "C:/config/LoopMaster/tls"
    );
}

fn fixed_ips() -> Vec<String> {
    address_texts(&vec![
        Ipv4 { a: 127, b: 0, c: 0, d: 1 },
        Ipv4 { a: 192, b: 168, c: 1, d: 10 },
    ])
}

#[test]
fn certificates_are_issued_again_when_they_must() {
    assert!(needs_reissue(&None, &fixed_ips(), NOW, true, true));
    let meta = issued_meta(fixed_ips(), NOW);
    assert_eq!(meta.not_after_unix, NOW + SERVER_CERT_VALIDITY_SECS);
    let meta = Some(meta);
    assert!(!needs_reissue(&meta, &fixed_ips(), NOW, true, true));
    assert!(needs_reissue(&meta, &fixed_ips(), NOW, false, true));
    assert!(needs_reissue(&meta, &fixed_ips(), NOW, true, false));
    assert!(needs_reissue(&meta, &vec!["192.168.1.20".into()], NOW, true, true));
    assert!(needs_reissue(&meta, &fixed_ips(), NOW + SERVER_CERT_VALIDITY_SECS - 1, true, true));
    let material = tls_material("C:/tls");
    assert!(material.cert_path.ends_with("server.crt"));
    assert!(material.key_path.ends_with("server.key"));
    assert!(default_host_ips(&[]).contains(&Ipv4 { a: 127, b: 0, c: 0, d: 1 }));
}

fn addresses(last: u8) -> Vec<Ipv4> {
    vec![Ipv4 { a: 127, b: 0, c: 0, d: 1 }, Ipv4 { a: 192, b: 168, c: 1, d: last }]
}

fn copy(pair: &PemPair) -> PemPair {
    PemPair { cert: pair.cert.clone(), key: pair.key.clone() }
}

#[test]
fn ca_and_server_cert_are_generated_and_reused() {
    let (ca, fresh) = ensure_ca(None, NOW).unwrap();
    assert!(fresh);
    assert!(ca.cert.contains("BEGIN CERTIFICATE"));
    assert!(ca.key.contains("BEGIN PRIVATE KEY"));
    let issued = ensure_server_cert(&ca, &addresses(10), &None, NOW, false, false)
        .unwrap()
        .unwrap();
    assert!(issued.pair.cert.contains("BEGIN CERTIFICATE"));
    assert_ne!(issued.pair.key, ca.key);
    assert_eq!(issued.meta.not_after_unix, NOW + SERVER_CERT_VALIDITY_SECS);

    let again =
        ensure_server_cert(&ca, &addresses(10), &Some(issued.meta), NOW, true, true).unwrap();
    assert_eq!(again, None);
}

#[test]
fn ip_set_change_triggers_reissue() {
    let (ca, _) = ensure_ca(None, NOW).unwrap();
    let before = ensure_server_cert(&ca, &addresses(10), &None, NOW, false, false)
        .unwrap()
        .unwrap();
    let after = ensure_server_cert(&ca, &addresses(20), &Some(before.meta), NOW, true, true)
        .unwrap()
        .unwrap();
    assert_ne!(before.pair.cert, after.pair.cert);
    assert_eq!(after.meta.ips, vec!["127.0.0.1", "192.168.1.20"]);
}

#[test]
fn ca_survives_process_restart_via_pem_reload() {
    let (ca, _) = ensure_ca(None, NOW).unwrap();
    let before = ensure_server_cert(&ca, &addresses(10), &None, NOW, false, false)
        .unwrap()
        .unwrap();
    let (again, fresh) = ensure_ca(Some(copy(&ca)), NOW + 5).unwrap();
    assert!(!fresh);
    assert_eq!(again, ca);
    let after = ensure_server_cert(&again, &addresses(10), &None, NOW + 5, false, false)
        .unwrap()
        .unwrap();
    assert_ne!(before.pair.cert, after.pair.cert);
}

#[test]
fn a_broken_authority_is_told() {
    let (ca, _) = ensure_ca(None, NOW).unwrap();
    let broken_key = ensure_ca(Some(PemPair { cert: ca.cert.clone(), key: "x".into() }), NOW);
    assert!(broken_key.unwrap_err().message().contains("恢复 CA 私钥失败"));
    let broken_cert = ensure_ca(Some(PemPair { cert: "x".into(), key: ca.key.clone() }), NOW);
    assert!(broken_cert.unwrap_err().message().contains("解析 CA 证书失败"));
    let told = |what: &str| Err(WebServerError::Tls(format!("{what}: no")));
    let no = || Err("no".to_owned());
    assert_eq!(judge_authority(copy(&ca), Ok(()), Ok(()), Ok(())), Ok(copy(&ca)));
    assert_eq!(
        judge_authority(copy(&ca), no(), no(), Ok(())),
        told("恢复 CA 私钥失败")
    );
    assert_eq!(
        judge_authority(copy(&ca), Ok(()), no(), Ok(())),
        told("解析 CA 证书失败")
    );
    assert_eq!(
        judge_authority(copy(&ca), Ok(()), Ok(()), no()),
        told("恢复 CA 证书失败")
    );
}

fn authority_with(kind: DnType, value: DnValue) -> (Vec<u8>, PemPair) {
    let key = KeyPair::generate().unwrap();
    let mut params = CertificateParams::default();
    params.is_ca = IsCa::Ca(BasicConstraints::Unconstrained);
    params.distinguished_name.push(kind, value);
    let cert = params.self_signed(&key).unwrap();
    (cert.der().to_vec(), PemPair { cert: cert.pem(), key: key.serialize_pem() })
}

#[test]
fn an_authority_whose_subject_cannot_be_written_is_refused() {
    let plain = DnValue::PrintableString("Home: lab".try_into().unwrap());
    let (der, ca) = authority_with(DnType::CustomDnType(vec![2, 5, 4, 65]), plain);
    assert_eq!(check_authority(&ca.cert), Ok(()));
    assert!(ensure_ca(Some(copy(&ca)), NOW).is_ok());
    assert!(ensure_server_cert(&ca, &addresses(10), &None, NOW, false, false).is_ok());

    let at = der.windows(5).rposition(|part| part == b"Home:").unwrap();
    let mut asked = der;
    asked[at + 4] = b'?';
    let cert = format!(
        "-----BEGIN CERTIFICATE-----\n{}\n-----END CERTIFICATE-----\n",
        base64_encode(&asked)
    );
    assert_eq!(check_authority(&cert), Err("证书主题无法写出".to_owned()));
    let marked = PemPair { cert, key: ca.key };

    let far = DnType::CustomDnType(vec![2, 999, 1]);
    let (_, far) = authority_with(far, DnValue::Utf8String("x".into()));
    for refused in [marked, far] {
        let told = ensure_ca(Some(copy(&refused)), NOW).unwrap_err().message();
        assert!(told.contains("解析 CA 证书失败"));
        let told = ensure_server_cert(&refused, &addresses(10), &None, NOW, false, false)
            .unwrap_err()
            .message();
        assert!(told.contains("签发服务器证书失败"));
    }
}

fn pem_bytes(pem: &str) -> Vec<u8> {
    let digits = "ABCDEFGHIJKLMNOPQRSTUVWXYZabcdefghijklmnopqrstuvwxyz0123456789+/";
    let body = pem.lines().filter(|line| !line.starts_with('-')).flat_map(str::chars);
    let (mut bytes, mut bits, mut count) = (Vec::new(), 0u32, 0);
    for digit in body.filter_map(|c| digits.find(c)) {
        bits = bits << 6 | digit as u32;
        count += 6;
        if count >= 8 {
            count -= 8;
            bytes.push((bits >> count) as u8);
            bits &= (1 << count) - 1;
        }
    }
    bytes
}

fn holds(bytes: &[u8], part: &[u8]) -> bool {
    bytes.windows(part.len()).any(|window| window == part)
}

#[test]
fn a_certificate_is_for_the_key_that_comes_with_it() {
    let (ca, _) = ensure_ca(None, NOW).unwrap();
    let issued = ensure_server_cert(&ca, &addresses(10), &None, NOW, false, false)
        .unwrap()
        .unwrap();
    let authority_key = KeyPair::from_pem(&ca.key).unwrap();
    let console_key = KeyPair::from_pem(&issued.pair.key).unwrap();
    let authority = pem_bytes(&ca.cert);
    let console = pem_bytes(&issued.pair.cert);
    assert!(holds(&authority, authority_key.public_key_raw()));
    assert!(!holds(&authority, console_key.public_key_raw()));
    assert!(holds(&console, console_key.public_key_raw()));
    assert!(!holds(&console, authority_key.public_key_raw()));
    assert!(holds(&console, b"LoopMaster Local CA"));
}

#[test]
fn what_failed_first_in_issuing_is_told() {
    let told = |what: &str| Err(WebServerError::Tls(format!("{what}: no")));
    let no = || Err("no".to_owned());
    let ips = || vec!["127.0.0.1".to_owned()];
    assert_eq!(judge_issue(no(), no(), ips(), NOW), told("生成服务器私钥失败"));
    assert_eq!(judge_issue(Ok("k".into()), no(), ips(), NOW), told("签发服务器证书失败"));
    let issued = judge_issue(Ok("k".into()), Ok("c".into()), ips(), NOW).unwrap();
    assert_eq!(issued.pair, PemPair { cert: "c".into(), key: "k".into() });
    assert_eq!(issued.meta.ips, ips());
    assert_eq!(issued.meta.not_after_unix, NOW + SERVER_CERT_VALIDITY_SECS);
    let broken = PemPair { cert: "x".into(), key: "x".into() };
    let refused = ensure_server_cert(&broken, &addresses(10), &None, NOW, false, false);
    let reason = check_authority("x").unwrap_err();
    assert_eq!(refused, Err(WebServerError::Tls(format!("签发服务器证书失败: {reason}"))));
}

#[test]
fn certificates_say_what_they_are_for() {
    let (ca, _) = ensure_ca(None, NOW).unwrap();
    let params = CertificateParams::from_ca_cert_pem(&ca.cert).unwrap();
    assert_eq!(params.is_ca, IsCa::Ca(BasicConstraints::Unconstrained));
    assert_eq!(params.not_before.unix_timestamp(), NOW - 86_400);
    assert_eq!(params.not_after.unix_timestamp(), NOW + 315_360_000);
    let issued = ensure_server_cert(&ca, &addresses(10), &None, NOW, false, false)
        .unwrap()
        .unwrap();
    let params = CertificateParams::from_ca_cert_pem(&issued.pair.cert).unwrap();
    assert_eq!(params.is_ca, IsCa::NoCa);
    assert_eq!(
        params.subject_alt_names,
        vec![
            SanType::DnsName("localhost".try_into().unwrap()),
            SanType::IpAddress([127, 0, 0, 1].into()),
            SanType::IpAddress([192, 168, 1, 10].into()),
        ]
    );
    assert_eq!(params.not_after.unix_timestamp(), NOW + SERVER_CERT_VALIDITY_SECS);
}

#[test]
fn fresh_ca_is_reported_as_not_trusted() {
    let status = local_ca_status("C:/tls/ca.crt", &CaProbe::Answered("not_installed".into()));
    assert!(!status.installed);
    assert!(status.checked);
    assert_eq!(status.ca_path.as_deref(), Some("C:/tls/ca.crt"));
    assert!(!local_ca_status("C:/tls/ca.crt", &CaProbe::Unsupported).installed);
    assert!(!local_ca_status("C:/tls/ca.crt", &CaProbe::Failed("x".into())).checked);
}

#[test]
fn a_change_of_the_store_is_asked_for_again() {
    let trusted = CaProbe::Answered("installed\r\n".into());
    assert!(local_ca_status("ca.crt", &trusted).installed);
    assert!(install_local_ca("ca.crt", &StoreChange::Done, &trusted).unwrap().installed);
    assert!(install_local_ca("ca.crt", &StoreChange::Failed("no".into()), &trusted).is_err());
    assert!(remove_local_ca("ca.crt", &StoreChange::Unsupported, &trusted).is_err());
    assert!(install_script("C:/tls/ca.crt").contains("C:/tls/ca.crt"));
    assert_ne!(status_script("ca.crt"), install_script("ca.crt"));
}

type Hub = StateHub<u8, u8>;

fn populated() -> Hub {
    let mut hub: Hub = StateHub::new("config.json".into(), AuthState::new(Vec::new()));
    hub.apply_route_edit(RouteEdit::AddSource(SourceSpec {
        id: SourceId("src_mic_1".into()),
        kind: SourceKind::DeviceCapture,
        endpoint_id: Some(EndpointId("endpoint-1".into())),
        process_id: None,
        executable_path: None,
        stream_name: None,
        display_name: "麦克风".into(),
    }))
    .unwrap();
    hub.apply_route_edit(RouteEdit::AddBus(BusSpec {
        id: BusId("bus_master_1".into()),
        display_name: "主通道".into(),
    }))
    .unwrap();
    hub.apply_route_edit(RouteEdit::AddSink(SinkSpec {
        id: SinkId("out_spk_1".into()),
        endpoint_id: EndpointId("endpoint-out".into()),
        display_name: "扬声器".into(),
        kind: SinkKind::Device,
        stream_name: None,
        remote_addr: None,
    }))
    .unwrap();
    hub.apply_route_edit(RouteEdit::SetSend(SendSpec::SourceToBus {
        id: SendId("send_mic_to_master".into()),
        source_id: SourceId("src_mic_1".into()),
        bus_id: BusId("bus_master_1".into()),
        gain_db: db(-6.0),
        muted: false,
        enabled: true,
        channel_map: Vec::new(),
    }))
    .unwrap();
    hub
}

fn text(key: &str, value: &str) -> (String, ControlValue) {
    (key.into(), ControlValue::Text(value.into()))
}

fn set_gain(seq: u64, send_id: &str, gain: f32) -> ControlMessage {
    ControlMessage {
        seq,
        action: "set_send_gain".into(),
        data: vec![
            text("send_id", send_id),
            ("gain_db".into(), ControlValue::Number(db(gain))),
        ],
    }
}

#[test]
fn control_mapping_matches_frozen_protocol() {
    assert!(matches!(
        control_to_edit(&set_gain(101, "send_mic_to_master", -6.0)).unwrap(),
        RouteEdit::SetSendGain { .. }
    ));

    let add = ControlMessage {
        seq: 103,
        action: "add_send".into(),
        data: vec![
            text("send_id", "s1"),
            text("source_id", "src_mic_1"),
            text("output_channel_id", "bus_master_1"),
        ],
    };
    match control_to_edit(&add).unwrap() {
        RouteEdit::SetSend(SendSpec::SourceToBus {
            gain_db,
            muted,
            enabled,
            ref channel_map,
            ..
        }) => {
            assert_eq!(gain_db, db(0.0));
            assert!(!muted);
            assert!(enabled);
            assert!(channel_map.is_empty());
        }
        other => panic!("{other:?}"),
    }

    let unknown = ControlMessage { seq: 1, action: "bogus".into(), data: Vec::new() };
    assert!(control_to_edit(&unknown).is_err());
}

#[test]
fn apply_control_ack_and_idempotent_seq() {
    let mut hub = populated();
    let mut cache = SeqCache::new();
    let ack = handle_control(
        &mut hub,
        Ok(set_gain(101, "send_mic_to_master", -3.0)),
        &mut cache,
        &show_gain,
    )
    .unwrap();
    assert!(ack.contains(r#""ack":"set_send_gain""#), "{ack}");
    assert!(ack.contains(r#""seq":101"#), "{ack}");
    assert_eq!(hub.route_snapshot().sends[0].gain_db(), db(-3.0));

    let again = handle_control(
        &mut hub,
        Ok(set_gain(101, "send_mic_to_master", 0.0)),
        &mut cache,
        &show_gain,
    )
    .unwrap();
    assert_eq!(again, ack);
    assert_eq!(hub.route_snapshot().sends[0].gain_db(), db(-3.0));
}

#[test]
fn invalid_control_returns_error_without_mutation() {
    let mut hub = populated();
    let mut cache = SeqCache::new();
    let response =
        handle_control(&mut hub, Ok(set_gain(7, "missing", -3.0)), &mut cache, &show_gain)
            .unwrap();
    assert!(response.contains(r#""error":"rejected""#), "{response}");
    assert_eq!(hub.route_snapshot().sends[0].gain_db(), db(-6.0));
    handle_control(&mut hub, Err("not a message".into()), &mut cache, &show_gain);
    assert_eq!(hub.route_snapshot().sends[0].gain_db(), db(-6.0));
}

#[test]
fn initial_state_projects_authoritative_snapshot() {
    let hub = populated();
    let state = build_initial_state(&hub);
    assert_eq!(state.sources.len(), 1);
    assert_eq!(state.sources[0].kind, "device_capture");
    assert_eq!(state.output_channels.len(), 1);
    assert_eq!(state.external_outputs.len(), 1);
    let send = &state.sends[0];
    assert_eq!(send.send_id, "send_mic_to_master");
    assert_eq!(send.source.as_deref(), Some("src_mic_1"));
    assert_eq!(send.output_channel.as_deref(), Some("bus_master_1"));
    assert!(send.external_output.is_none());
    assert_eq!(send.gain_db, db(-6.0));
    assert_eq!(state.sample_rate, INTERNAL_SAMPLE_RATE);
    assert!(state.state_revision >= 4);
}

#[test]
fn meter_frame_encoding_matches_protocol() {
    let node = |id: &str, peak: f32, rms: f32| MeterNode {
        id: id.into(),
        peak_db: peak.to_bits(),
        rms_db: rms.to_bits(),
    };
    let nodes = vec![
        node("send_mic_to_master", -6.0, -18.0),
        node("send_master_to_spk", -3.0, -12.0),
    ];
    let frame = encode_meter_frame(&nodes, 1234);
    assert_eq!(frame[0], 0x01);
    assert_eq!(frame[1], 2);
    assert_eq!(u32::from_le_bytes(frame[2..6].try_into().unwrap()), 1234);

    let mut cursor = 6;
    let len0 = frame[cursor] as usize;
    cursor += 1;
    assert_eq!(&frame[cursor..cursor + len0], b"send_mic_to_master");
    cursor += len0;
    let peak0 = f32::from_le_bytes(frame[cursor..cursor + 4].try_into().unwrap());
    assert!((peak0 + 6.0).abs() < 1e-5);
    let rms0 = f32::from_le_bytes(frame[cursor + 4..cursor + 8].try_into().unwrap());
    assert!((rms0 + 18.0).abs() < 1e-5);
}

#[test]
fn a_meter_frame_holds_as_many_levels_as_it_says() {
    let node = |id: String| MeterNode { id, peak_db: 0, rms_db: 0 };
    let nodes: Vec<MeterNode> = (0..256).map(|_| node("a".into())).collect();
    let frame = encode_meter_frame(&nodes, 7);
    assert_eq!(frame[0], 1);
    assert_eq!(frame[1], 255);
    assert_eq!(frame[2..6], [7, 0, 0, 0]);
    assert_eq!(frame.len(), 6 + 10 * 255);
    let long = encode_meter_frame(&[node("b".repeat(300)), node("c".into())], 7);
    assert_eq!(long[6], 255);
    assert_eq!(long.len(), 6 + (1 + 255 + 8) + 10);
    assert_eq!(long[6 + 264], 1);
    assert_eq!(long[6 + 265], b'c');
}

#[test]
fn meters_are_read_from_the_louder_channel() {
    let levels = [SendLevels {
        id: "s".into(),
        peaks: (0.25f32.to_bits(), 0.5f32.to_bits()),
        rms: Some((0.1f32.to_bits(), 0.2f32.to_bits())),
    }];
    let ops = MeterOps {
        louder: |a: u32, b: u32| f32::from_bits(a).max(f32::from_bits(b)).to_bits(),
        to_db: |level: u32| (20.0 * f32::from_bits(level).log10()).to_bits(),
    };
    let frame = build_meter_frame(Some(&levels), 9, &ops);
    assert_eq!(frame[1], 1);
    let peak = f32::from_le_bytes(frame[8..12].try_into().unwrap());
    assert!((peak + 6.0206).abs() < 1e-3);
    assert_eq!(build_meter_frame(None, 9, &ops), encode_meter_frame(&[], 9));
}

#[test]
fn seq_cache_evicts_oldest() {
    let mut cache = SeqCache::new();
    for seq in 0..MAX_SEQ_CACHE + 10 {
        cache.insert(seq as u64, format!("r{seq}"));
    }
    assert!(cache.get(&0).is_none());
    assert_eq!(cache.len(), MAX_SEQ_CACHE);
    assert!(cache.get(&(MAX_SEQ_CACHE as u64 + 9)).is_some());
}

fn begin(tls: bool, config_path: &str) -> ServerStart {
    ServerStart::new(WebServerConfig { port: 8920, tls }, config_path.into())
}

#[test]
fn a_plain_console_is_served_once_its_address_is_known() {
    let start = begin(false, "conf/config.json");
    assert_eq!(start.step(), &ServeStep::Bind);
    assert_eq!(start.bind_text(), "0.0.0.0:8920");
    let start = start.advance(ServeEvent::Done).unwrap();
    assert_eq!(start.step(), &ServeStep::ReadAddress);
    let any = BindAddress { ip: Ipv4 { a: 0, b: 0, c: 0, d: 0 }, port: 8920 };
    let result = start.advance(ServeEvent::Address(any));
    let own = BindAddress { ip: Ipv4 { a: 127, b: 0, c: 0, d: 1 }, port: 8920 };
    assert_eq!(result.as_ref().unwrap().step(), &ServeStep::Serve { address: own });
    assert_eq!(readiness(&result), Some(Readiness::Ready(own)));
}

#[test]
fn an_encrypted_console_loads_its_certificate_first() {
    let any = BindAddress { ip: Ipv4 { a: 0, b: 0, c: 0, d: 0 }, port: 8920 };
    let start = begin(true, "conf/config.json").advance(ServeEvent::Done).unwrap();
    let start = start.advance(ServeEvent::Address(any)).unwrap();
    assert_eq!(start.step(), &ServeStep::PrepareTls { directory: "conf/tls".into() });
    let start = start.advance(ServeEvent::Done).unwrap();
    assert_eq!(start.step(), &ServeStep::LoadTls { directory: "conf/tls".into() });
    let result = start.advance(ServeEvent::Done);
    assert!(matches!(readiness(&result), Some(Readiness::Ready(_))));
}

#[test]
fn a_failed_start_says_why() {
    let failed = || ServeEvent::Failed { reason: "x".into() };
    let result = begin(true, "conf/config.json").advance(failed());
    assert_eq!(result, Err("绑定 0.0.0.0:8920 失败: x".into()));
    assert_eq!(
        readiness(&result),
        Some(Readiness::Failed("绑定 0.0.0.0:8920 失败: x".into()))
    );
    let bound = || begin(true, "conf/config.json").advance(ServeEvent::Done).unwrap();
    assert_eq!(bound().advance(failed()), Err("读取监听地址失败: x".into()));
    let any = BindAddress { ip: Ipv4 { a: 0, b: 0, c: 0, d: 0 }, port: 8920 };
    let known = || bound().advance(ServeEvent::Address(any)).unwrap();
    assert_eq!(known().advance(failed()), Err("x".into()));
    assert_eq!(
        known().advance(ServeEvent::TaskFailed { reason: "x".into() }),
        Err("TLS 材料任务失败: x".into())
    );
    let prepared = known().advance(ServeEvent::Done).unwrap();
    assert_eq!(prepared.advance(failed()), Err("加载 TLS 配置失败: x".into()));
    let nowhere = begin(true, "").advance(ServeEvent::Done).unwrap();
    assert_eq!(
        nowhere.advance(ServeEvent::Address(any)),
        Err("配置目录无效，无法定位 TLS 材料目录".into())
    );
}

#[test]
fn an_offer_is_answered_after_every_call() {
    let mut step = OfferStep::Connect;
    let mut calls = 0;
    while step != OfferStep::Describe {
        match advance_offer(step, OfferEvent::Done) {
            Ok(OfferProgress::Continue(next)) => step = next,
            other => panic!("{other:?}"),
        }
        calls += 1;
    }
    assert_eq!(calls, 8);
    assert_eq!(
        advance_offer(step, OfferEvent::Described { sdp: Some("v=0".into()) }),
        Ok(OfferProgress::Answered { sdp: "v=0".into() })
    );
}

#[test]
fn a_failed_offer_says_which_call_failed() {
    let failed = || OfferEvent::Failed { reason: "x".into() };
    let told = |step| advance_offer(step, failed()).unwrap_err();
    let internal = |text: &str| MonitorError::Internal(text.into());
    assert_eq!(told(OfferStep::Connect), internal("创建 PeerConnection 失败: x"));
    assert_eq!(told(OfferStep::MakeTrack), internal("创建音轨失败: x"));
    assert_eq!(told(OfferStep::AddTrack), internal("add_track 失败: x"));
    assert_eq!(told(OfferStep::ReadOffer), internal("offer SDP 无效: x"));
    assert_eq!(told(OfferStep::SetRemote), internal("set_remote_description 失败: x"));
    assert_eq!(told(OfferStep::CreateAnswer), internal("create_answer 失败: x"));
    assert_eq!(told(OfferStep::SetLocal), internal("set_local_description 失败: x"));
    assert_eq!(
        advance_offer(OfferStep::Gather, failed()),
        Ok(OfferProgress::Continue(OfferStep::Describe))
    );
    assert_eq!(
        advance_offer(OfferStep::Describe, OfferEvent::Described { sdp: None }),
        Err(internal("local description 缺失"))
    );
    assert_eq!(candidate_refused("x"), internal("add_ice_candidate 失败: x"));
}
