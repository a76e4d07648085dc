//! Worker registration on the server: the signed challenge, the replay
//! window, and the per-connection session that admits a worker to the registry.
use crate::dispatch::{
    candidate_ids, candidates_of, eligible, ids_unique, JudgeConnection, WorkerRegistry,
};
use crate::judge::{JudgeInfo, JudgeLoad, Language};
use crate::text::{challenge_text, create_challenge};
use vstd::prelude::*;
use vstd::string::*;
use vstd::utf8::encode_utf8;

verus! {

/// Whether `sig_pem`, an armoured SSH signature, verifies over `msg` in the
/// `file` namespace under the OpenSSH public key `key_openssh`.
pub uninterp spec fn signature_valid(key_openssh: Seq<char>, msg: Seq<u8>, sig_pem: Seq<char>) -> bool;

/// Relies on `ssh_key::PublicKey::from_openssh`, `ssh_key::SshSig::from_pem` and
/// `ssh_key::PublicKey::verify`: the answer depends on the key text, the
/// message and the signature text alone.
#[verifier::external_body]
fn signature_verifies(key_openssh: &str, msg: &[u8], sig_pem: &str) -> (r: bool)
    ensures
        r == signature_valid(key_openssh@, msg@, sig_pem@),
{
    match (ssh_key::PublicKey::from_openssh(key_openssh), ssh_key::SshSig::from_pem(sig_pem)) {
        (Ok(key), Ok(sig)) => key.verify("file", msg, &sig).is_ok(),
        _ => false,
    }
}

/// The armoured SSH signature that the OpenSSH private key `key_openssh` makes
/// over `msg` in the `file` namespace, if it can sign.
pub uninterp spec fn signature_text_of(key_openssh: Seq<char>, msg: Seq<u8>) -> Option<Seq<char>>;

/// Relies on `ssh_key::PrivateKey::from_openssh`, `ssh_key::PrivateKey::sign`
/// (default hash) and `ssh_key::SshSig::to_pem` (LF line endings): with the
/// Ed25519 keys that can sign here, the signature depends on the key text and
/// the message alone.
#[verifier::external_body]
fn sign_text(key_openssh: &str, msg: &[u8]) -> (r: Option<String>)
    ensures
        r is Some <==> signature_text_of(key_openssh@, msg@) is Some,
        r is Some ==> r.unwrap()@ == signature_text_of(key_openssh@, msg@).unwrap(),
{
    let key = ssh_key::PrivateKey::from_openssh(key_openssh).ok()?;
    let sig = key.sign("file", ssh_key::HashAlg::default(), msg).ok()?;
    sig.to_pem(ssh_key::LineEnding::LF).ok()
}

/// Why a signature was not made or not accepted.
#[derive(Clone, Copy, Debug, PartialEq, Eq, Structural)]
pub enum AuthError {
    /// The signature does not verify under the key, or one of them cannot be read.
    VerificationFailed,
    /// The key could not sign.
    SigningFailed,
}

/// Signs `message` with the OpenSSH private key `private_key`, as an armoured
/// SSH signature.
pub fn sign_message(private_key: &str, message: &str) -> (r: Result<String, AuthError>)
    ensures
        r is Ok <==> signature_text_of(private_key@, encode_utf8(message@)) is Some,
        r is Ok ==> r.unwrap()@ == signature_text_of(private_key@, encode_utf8(message@)).unwrap(),
        r is Err ==> r == Err::<String, AuthError>(AuthError::SigningFailed),
{
    match sign_text(private_key, message.as_bytes()) {
        None => Err(AuthError::SigningFailed),
        Some(text) => Ok(text),
    }
}

/// Checks an armoured SSH signature over `message` with the OpenSSH public key
/// `public_key`.
pub fn verify_signature(public_key: &str, message: &[u8], signature: &str) -> (r: Result<(), AuthError>)
    ensures
        r is Ok <==> signature_valid(public_key@, message@, signature@),
        r is Err ==> r == Err::<(), AuthError>(AuthError::VerificationFailed),
{
    if signature_verifies(public_key, message, signature) {
        Ok(())
    } else {
        Err(AuthError::VerificationFailed)
    }
}

/// Largest difference, in seconds, between a registration's timestamp and the
/// server's clock.
pub const TIMESTAMP_TOLERANCE_SECS: i64 = 60;

/// A registration timestamp close enough to the server's clock.
pub open spec fn timestamp_fresh(timestamp: i64, now: i64) -> bool {
    -TIMESTAMP_TOLERANCE_SECS <= now - timestamp <= TIMESTAMP_TOLERANCE_SECS
}

/// Why a registration was refused.
#[derive(Clone, Copy, Debug, PartialEq, Eq, Structural)]
pub enum RegistrationError {
    /// The worker's id has no known public key.
    UnknownJudge,
    /// The signature over the challenge does not verify.
    InvalidSignature,
    /// The timestamp is too far from the server's clock.
    StaleTimestamp,
}

/// What the server does with a registration message.
#[derive(Clone, Copy, Debug, PartialEq, Eq, Structural)]
pub enum RegistrationDecision {
    /// The connection has registered already; the message is ignored.
    AlreadyRegistered,
    Rejected(RegistrationError),
    Accepted,
}

/// The decision on a registration, checks taken in order: a second
/// registration is ignored, then the id must be known, the signature must
/// verify, and the timestamp must be fresh.
pub open spec fn registration_outcome(
    registered: bool,
    key_known: bool,
    signature_ok: bool,
    timestamp: i64,
    now: i64,
) -> RegistrationDecision {
    if registered {
        RegistrationDecision::AlreadyRegistered
    } else if !key_known {
        RegistrationDecision::Rejected(RegistrationError::UnknownJudge)
    } else if !signature_ok {
        RegistrationDecision::Rejected(RegistrationError::InvalidSignature)
    } else if !timestamp_fresh(timestamp, now) {
        RegistrationDecision::Rejected(RegistrationError::StaleTimestamp)
    } else {
        RegistrationDecision::Accepted
    }
}

/// The decision on a registration from the outcome of each check.
pub fn decide_registration(
    registered: bool,
    key_known: bool,
    signature_ok: bool,
    timestamp: i64,
    now: i64,
) -> (r: RegistrationDecision)
    ensures
        r == registration_outcome(registered, key_known, signature_ok, timestamp, now),
{
    let diff = now as i128 - timestamp as i128;
    if registered {
        RegistrationDecision::AlreadyRegistered
    } else if !key_known {
        RegistrationDecision::Rejected(RegistrationError::UnknownJudge)
    } else if !signature_ok {
        RegistrationDecision::Rejected(RegistrationError::InvalidSignature)
    } else if diff < -(TIMESTAMP_TOLERANCE_SECS as i128) || diff > TIMESTAMP_TOLERANCE_SECS as i128 {
        RegistrationDecision::Rejected(RegistrationError::StaleTimestamp)
    } else {
        RegistrationDecision::Accepted
    }
}

/// Replay rejection: a registration whose timestamp is further than the
/// tolerance from the server's clock is never accepted, whatever its signature.
pub proof fn lemma_stale_registration_rejected(
    registered: bool,
    key_known: bool,
    signature_ok: bool,
    timestamp: i64,
    now: i64,
)
    requires
        now - timestamp > TIMESTAMP_TOLERANCE_SECS || timestamp - now > TIMESTAMP_TOLERANCE_SECS,
    ensures
        registration_outcome(registered, key_known, signature_ok, timestamp, now)
            != RegistrationDecision::Accepted,
{
}

/// The entry of a newly registered worker: no load yet, heard from now.
pub open spec fn fresh_connection(info: JudgeInfo, now: i64) -> JudgeConnection {
    JudgeConnection {
        info,
        load: JudgeLoad { running_tasks: 0, cpu_usage: 0, memory_usage: 0 },
        last_heartbeat: now,
    }
}

/// The server's side of one worker connection.
pub struct ServerSession {
    /// The id that this connection registered, once it has.
    pub judge_id: Option<String>,
}

impl ServerSession {
    pub open spec fn registered(&self) -> bool {
        self.judge_id is Some
    }

    /// A connection that has not registered.
    pub fn new() -> (r: ServerSession)
        ensures
            !r.registered(),
    {
        ServerSession { judge_id: None }
    }

    /// Handles a registration message. `public_key` is the OpenSSH public key
    /// configured for the worker's id, if any; the signature over the
    /// challenge is checked with it. An accepted worker enters the registry,
    /// heard from `now`, in place of any entry with its id; the other entries
    /// stay as they are.
    pub fn handle_register(
        &mut self,
        registry: &mut WorkerRegistry,
        info: JudgeInfo,
        public_key: Option<&str>,
        now: i64,
    ) -> (r: RegistrationDecision)
        requires
            old(registry).wf(),
        ensures
            final(registry).wf(),
            r == registration_outcome(
                old(self).registered(),
                public_key is Some,
                public_key is Some && signature_valid(
                    public_key.unwrap()@,
                    encode_utf8(challenge_text(info.judge_id@, info.timestamp)),
                    info.signature@,
                ),
                info.timestamp,
                now,
            ),
            r == RegistrationDecision::Accepted ==> final(self).judge_id == Some(info.judge_id) && (
            (exists|k: int|
                0 <= k < old(registry).judges@.len() && old(registry).judges@[k].info.judge_id@
                    == info.judge_id@ && final(registry).judges@ == old(registry).judges@.update(
                    k,
                    fresh_connection(info, now),
                )) || ((forall|k: int|
                0 <= k < old(registry).judges@.len() ==> old(registry).judges@[k].info.judge_id@
                    != info.judge_id@) && final(registry).judges@ == old(registry).judges@.push(
                fresh_connection(info, now),
            ))),
            r != RegistrationDecision::Accepted ==> *final(self) == *old(self)
                && final(registry).judges@ == old(registry).judges@,
    {
        if self.judge_id.is_some() {
            return RegistrationDecision::AlreadyRegistered;
        }
        let key = match public_key {
            None => {
                return RegistrationDecision::Rejected(RegistrationError::UnknownJudge);
            },
            Some(k) => k,
        };
        let challenge = create_challenge(info.judge_id.as_str(), info.timestamp);
        let signature_ok = verify_signature(
            key,
            challenge.as_str().as_bytes(),
            info.signature.as_str(),
        ).is_ok();
        let d = decide_registration(false, true, signature_ok, info.timestamp, now);
        if d != RegistrationDecision::Accepted {
            return d;
        }
        let id = info.judge_id.clone();
        let ghost fc = fresh_connection(info, now);
        let conn = JudgeConnection {
            info,
            load: JudgeLoad { running_tasks: 0, cpu_usage: 0, memory_usage: 0 },
            last_heartbeat: now,
        };
        assert(conn == fc);
        registry.insert(conn);
        self.judge_id = Some(id);
        d
    }

    /// Handles a heartbeat: a registered worker's load and heartbeat time are
    /// recorded and the result is `true`, to be acknowledged; a heartbeat
    /// before registration changes nothing.
    pub fn handle_ping(&self, registry: &mut WorkerRegistry, load: JudgeLoad, now: i64) -> (r: bool)
        requires
            old(registry).wf(),
        ensures
            final(registry).wf(),
            r == self.registered(),
            !r ==> final(registry).judges@ == old(registry).judges@,
            r ==> (exists|k: int|
                0 <= k < old(registry).judges@.len() && old(registry).judges@[k].info.judge_id@
                    == self.judge_id.unwrap()@ && final(registry).judges@
                    == old(registry).judges@.update(
                    k,
                    JudgeConnection {
                        info: old(registry).judges@[k].info,
                        load,
                        last_heartbeat: if now > old(registry).judges@[k].last_heartbeat {
                            now
                        } else {
                            old(registry).judges@[k].last_heartbeat
                        },
                    },
                )) || ((forall|k: int|
                0 <= k < old(registry).judges@.len() ==> old(registry).judges@[k].info.judge_id@
                    != self.judge_id.unwrap()@) && final(registry).judges@
                == old(registry).judges@),
    {
        match &self.judge_id {
            None => false,
            Some(id) => {
                registry.heartbeat(id, load, now);
                true
            },
        }
    }

    /// Removes this connection's worker from the registry when the connection
    /// closes; the other entries stay as they are.
    pub fn handle_disconnect(&self, registry: &mut WorkerRegistry)
        requires
            old(registry).wf(),
        ensures
            final(registry).wf(),
            !self.registered() ==> final(registry).judges@ == old(registry).judges@,
            self.registered() ==> (exists|k: int|
                0 <= k < old(registry).judges@.len() && old(registry).judges@[k].info.judge_id@
                    == self.judge_id.unwrap()@ && final(registry).judges@
                    == old(registry).judges@.remove(k)) || ((forall|k: int|
                0 <= k < old(registry).judges@.len() ==> old(registry).judges@[k].info.judge_id@
                    != self.judge_id.unwrap()@) && final(registry).judges@
                == old(registry).judges@),
    {
        match &self.judge_id {
            None => {},
            Some(id) => {
                registry.remove(id);
            },
        }
    }
}

proof fn lemma_candidate_is_eligible(js: Seq<JudgeConnection>, lang: Language, now: i64, min: int, id: Seq<char>)
    requires
        candidate_ids(js, lang, now, min).contains(id),
    ensures
        exists|k: int| 0 <= k < js.len() && eligible(#[trigger] js[k], lang, now) && js[k].info.judge_id@ == id,
    decreases js.len(),
{
    let init = js.drop_last();
    let c = js.last();
    let tail = if eligible(c, lang, now) && crate::dispatch::near_best(crate::dispatch::score_of(c.load), min) {
        seq![c.info.judge_id@]
    } else {
        Seq::<Seq<char>>::empty()
    };
    assert(candidate_ids(js, lang, now, min) == candidate_ids(init, lang, now, min) + tail);
    let i = choose|i: int| 0 <= i < candidate_ids(js, lang, now, min).len() && candidate_ids(js, lang, now, min)[i] == id;
    if i < candidate_ids(init, lang, now, min).len() {
        assert(candidate_ids(init, lang, now, min)[i] == id);
        lemma_candidate_is_eligible(init, lang, now, min, id);
        let k = choose|k: int| 0 <= k < init.len() && eligible(#[trigger] init[k], lang, now) && init[k].info.judge_id@ == id;
        assert(js[k] == init[k]);
    } else {
        assert(js[js.len() - 1] == c);
    }
}

/// Heartbeat staleness: a worker whose last heartbeat is a full timeout old or
/// older is never among the candidates for a task, whatever its load and
/// languages.
pub proof fn lemma_stale_worker_not_candidate(js: Seq<JudgeConnection>, lang: Language, now: i64, i: int)
    requires
        ids_unique(js),
        0 <= i < js.len(),
        now - js[i].last_heartbeat >= crate::dispatch::HEARTBEAT_TIMEOUT_SECS,
    ensures
        candidates_of(js, lang, now) is Ok ==> !candidates_of(js, lang, now).unwrap().contains(
            js[i].info.judge_id@,
        ),
{
    if candidates_of(js, lang, now) is Ok {
        let m = crate::dispatch::min_eligible(js, lang, now).unwrap();
        if candidate_ids(js, lang, now, m).contains(js[i].info.judge_id@) {
            lemma_candidate_is_eligible(js, lang, now, m, js[i].info.judge_id@);
            let k = choose|k: int| 0 <= k < js.len() && eligible(#[trigger] js[k], lang, now) && js[k].info.judge_id@ == js[i].info.judge_id@;
            assert(k != i);
            assert(false);
        }
    }
}

} // verus!
