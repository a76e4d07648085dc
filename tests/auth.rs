use theoj::auth::{
    decide_registration, sign_message, verify_signature, AuthError, RegistrationDecision,
    RegistrationError, ServerSession,
};
use theoj::dispatch::WorkerRegistry;
use theoj::judge::{JudgeInfo, JudgeLoad, Language};
use theoj::text::create_challenge;

const NOW: i64 = 1_700_000_000;

fn key() -> ssh_key::PrivateKey {
    ssh_key::PrivateKey::from(ssh_key::private::Ed25519Keypair::from_seed(&[7u8; 32]))
}

fn private_text() -> String {
    key().to_openssh(ssh_key::LineEnding::LF).unwrap().to_string()
}

fn public_text() -> String {
    key().public_key().to_openssh().unwrap()
}

fn signed_info(id: &str, timestamp: i64) -> JudgeInfo {
    let challenge = create_challenge(id, timestamp);
    JudgeInfo {
        judge_id: id.to_string(),
        version: "0.1.0".to_string(),
        timestamp,
        signature: sign_message(&private_text(), &challenge).unwrap(),
        languages: vec![Language::C],
    }
}

#[test]
fn challenge_text() {
    assert_eq!(create_challenge("judge-1", 1700000000), "judge-1:1700000000");
    assert_eq!(create_challenge("j", -5), "j:-5");
    assert_eq!(create_challenge("", 0), ":0");
}

#[test]
fn signature_round_trip() {
    let sig = sign_message(&private_text(), "judge-1:1").unwrap();
    assert!(sig.starts_with("-----BEGIN SSH SIGNATURE-----"));
    assert_eq!(sign_message(&private_text(), "judge-1:1").unwrap(), sig);
    assert_eq!(verify_signature(&public_text(), b"judge-1:1", &sig), Ok(()));
    assert_eq!(verify_signature(&public_text(), b"judge-1:2", &sig), Err(AuthError::VerificationFailed));
    assert_eq!(verify_signature(&public_text(), b"judge-1:1", "not a signature"), Err(AuthError::VerificationFailed));
    assert_eq!(verify_signature("not a key", b"judge-1:1", &sig), Err(AuthError::VerificationFailed));
    assert_eq!(sign_message("not a key", "x"), Err(AuthError::SigningFailed));
}

#[test]
fn replayed_registration_is_rejected() {
    assert_eq!(
        decide_registration(false, true, true, NOW - 120, NOW),
        RegistrationDecision::Rejected(RegistrationError::StaleTimestamp)
    );
    assert_eq!(
        decide_registration(false, true, true, NOW + 61, NOW),
        RegistrationDecision::Rejected(RegistrationError::StaleTimestamp)
    );
    assert_eq!(decide_registration(false, true, true, NOW - 60, NOW), RegistrationDecision::Accepted);
}

#[test]
fn registration_checks_in_order() {
    assert_eq!(decide_registration(true, false, false, 0, NOW), RegistrationDecision::AlreadyRegistered);
    assert_eq!(decide_registration(false, false, true, NOW, NOW), RegistrationDecision::Rejected(RegistrationError::UnknownJudge));
    assert_eq!(decide_registration(false, true, false, NOW, NOW), RegistrationDecision::Rejected(RegistrationError::InvalidSignature));
}

#[test]
fn session_registers_then_ignores_a_second_time() {
    let mut reg = WorkerRegistry::new();
    let mut session = ServerSession::new();
    let k = public_text();
    let d = session.handle_register(&mut reg, signed_info("judge-1", NOW - 5), Some(k.as_str()), NOW);
    assert_eq!(d, RegistrationDecision::Accepted);
    assert_eq!(session.judge_id, Some("judge-1".to_string()));
    assert_eq!(reg.judges.len(), 1);
    assert_eq!(reg.judges[0].last_heartbeat, NOW);
    let again = session.handle_register(&mut reg, signed_info("judge-1", NOW), Some(k.as_str()), NOW);
    assert_eq!(again, RegistrationDecision::AlreadyRegistered);
}

#[test]
fn session_rejects_stale_unknown_and_forged() {
    let mut reg = WorkerRegistry::new();
    let k = public_text();
    let mut s = ServerSession::new();
    assert_eq!(
        s.handle_register(&mut reg, signed_info("j", NOW - 120), Some(k.as_str()), NOW),
        RegistrationDecision::Rejected(RegistrationError::StaleTimestamp)
    );
    assert_eq!(
        s.handle_register(&mut reg, signed_info("j", NOW), None, NOW),
        RegistrationDecision::Rejected(RegistrationError::UnknownJudge)
    );
    let mut forged = signed_info("j", NOW);
    forged.judge_id = "k".to_string();
    assert_eq!(
        s.handle_register(&mut reg, forged, Some(k.as_str()), NOW),
        RegistrationDecision::Rejected(RegistrationError::InvalidSignature)
    );
    assert!(reg.judges.is_empty());
    assert_eq!(s.judge_id, None);
}

#[test]
fn ping_and_disconnect() {
    let mut reg = WorkerRegistry::new();
    let k = public_text();
    let mut s = ServerSession::new();
    let load = JudgeLoad { running_tasks: 2, cpu_usage: 10, memory_usage: 20 };
    assert!(!s.handle_ping(&mut reg, load, NOW));
    s.handle_register(&mut reg, signed_info("j", NOW), Some(k.as_str()), NOW);
    assert!(s.handle_ping(&mut reg, load, NOW + 8));
    assert_eq!(reg.judges[0].load, load);
    assert_eq!(reg.judges[0].last_heartbeat, NOW + 8);
    s.handle_disconnect(&mut reg);
    assert!(reg.judges.is_empty());
}
