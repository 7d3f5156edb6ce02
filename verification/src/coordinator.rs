//! The refresh coordinator: given the credentials a request presents, decide
//! whether to proceed with the existing identity, to proceed with a rotated
//! identity and fresh credentials, or to reject — and guarantee that
//! concurrent requests presenting the same stale access credential agree on a
//! single freshly minted pair.
//!
//! The decision logic is a function of plain values.  The codec's verdicts
//! and the fresh material a rotation would need (two random session
//! identifiers and a clock reading) are drawn by the caller, so every
//! function here is specified exactly by the spec-level model
//! [`handle_spec`], and the coordination laws are proved over that model.

use vstd::prelude::*;
use crate::claims::{
    fresh_session_id, now_timestamp, token_of, verify, DecodeOutcome, JwtToken, ACCESS_LIFETIME,
    REFRESH_LIFETIME,
};
use crate::registry::{Registry, SlotModel};
use crate::store::{has_session, invalidated, keeps, session_valid, SessionStore, Token};

verus! {

/// A credential as the request presented it: the raw string (the registry
/// key for deduplication) and the codec's verdict on it.
pub struct PresentedCredential {
    pub raw: String,
    pub decoded: DecodeOutcome,
}

/// Fresh material a rotation would consume: a clock reading and two randomly
/// drawn session identifiers, obtained before the decision is taken.
#[derive(Clone, Copy, PartialEq, Eq, Structural, Debug)]
pub struct MintMaterial {
    pub now: u64,
    pub access_id: u128,
    pub refresh_id: u128,
}

/// The coordinator's verdict on one request.
pub enum Outcome {
    /// Terminal failure: deny before any downstream logic runs.
    Rejected,
    /// A store operation failed: surface a server error, not a rejection.
    InternalError,
    /// Proceed as `subject`; when rotation occurred, `fresh` carries the
    /// access/refresh pair the response must emit.
    Authenticated { subject: u128, fresh: Option<(String, String)> },
}

/// Spec-level image of an [`Outcome`].
pub enum OutcomeModel {
    Rejected,
    InternalError,
    Granted { subject: u128, fresh: Option<(Seq<char>, Seq<char>)> },
}

impl View for Outcome {
    type V = OutcomeModel;

    open spec fn view(&self) -> OutcomeModel {
        match self {
            Outcome::Rejected => OutcomeModel::Rejected,
            Outcome::InternalError => OutcomeModel::InternalError,
            Outcome::Authenticated { subject, fresh } => OutcomeModel::Granted {
                subject: *subject,
                fresh: match fresh {
                    Some(p) => Some((p.0@, p.1@)),
                    None => None,
                },
            },
        }
    }
}

/// Everything one coordinator step changes: the registry, the store, and the
/// verdict handed back.
pub struct StepResult {
    pub reg: Map<Seq<char>, SlotModel>,
    pub store: Seq<Token>,
    pub outcome: OutcomeModel,
}

/// The registry after one more holder acquires the slot for `key`.
pub open spec fn acquired(reg: Map<Seq<char>, SlotModel>, key: Seq<char>) -> Map<
    Seq<char>,
    SlotModel,
> {
    if reg.contains_key(key) {
        reg.insert(key, SlotModel { holders: reg[key].holders + 1, ..reg[key] })
    } else {
        reg.insert(
            key,
            SlotModel {
                holders: 1,
                filled: false,
                access: Seq::<char>::empty(),
                refresh: Seq::<char>::empty(),
                subject: 0,
            },
        )
    }
}

/// The registry after one holder of the slot for `key` releases it: the
/// entry is evicted once nobody holds it.
pub open spec fn released(reg: Map<Seq<char>, SlotModel>, key: Seq<char>) -> Map<
    Seq<char>,
    SlotModel,
> {
    if !reg.contains_key(key) {
        reg
    } else if reg[key].holders == 1 {
        reg.remove(key)
    } else {
        reg.insert(key, SlotModel { holders: (reg[key].holders - 1) as nat, ..reg[key] })
    }
}

/// The session record backing a freshly minted access claim set.
pub open spec fn access_record(subject: u128, m: MintMaterial) -> Token {
    Token {
        user_id: subject,
        token_id: m.access_id,
        expiration: (m.now + ACCESS_LIFETIME) as u64,
        is_valid: true,
    }
}

/// The session record backing a freshly minted refresh claim set.
pub open spec fn refresh_record(subject: u128, m: MintMaterial) -> Token {
    Token {
        user_id: subject,
        token_id: m.refresh_id,
        expiration: (m.now + REFRESH_LIFETIME) as u64,
        is_valid: true,
    }
}

/// The store after exactly one successful rotation for the refresh claims
/// `rc`: the old refresh session invalidated, the subject's expired records
/// purged, and the two new session records appended.
pub open spec fn rotated(store: Seq<Token>, rc: JwtToken, m: MintMaterial) -> Seq<Token> {
    invalidated(store, rc.user_id, rc.id).filter(keeps(rc.user_id, m.now)).push(
        access_record(rc.user_id, m),
    ).push(refresh_record(rc.user_id, m))
}

/// The freshly minted access credential a successful rotation emits.
pub open spec fn minted_access(rc: JwtToken, m: MintMaterial, secret: Seq<u8>) -> Seq<char> {
    token_of(m.now, (m.now + ACCESS_LIFETIME) as u64, m.access_id, rc.user_id, secret)
}

/// The freshly minted refresh credential a successful rotation emits.
pub open spec fn minted_refresh(rc: JwtToken, m: MintMaterial, secret: Seq<u8>) -> Seq<char> {
    token_of(m.now, (m.now + REFRESH_LIFETIME) as u64, m.refresh_id, rc.user_id, secret)
}

/// The whole expired-credential path, taken while holding the slot for
/// `key`: adopt the cached pair if a concurrent rotation already completed;
/// otherwise lead the rotation if the presented refresh credential decodes
/// and its session is still honoured; reject otherwise.  Every path releases
/// the slot.
pub open spec fn process_spec(
    reg: Map<Seq<char>, SlotModel>,
    store: Seq<Token>,
    key: Seq<char>,
    rdec: Option<DecodeOutcome>,
    m: MintMaterial,
    secret: Seq<u8>,
) -> StepResult {
    let slot = reg[key];
    if slot.is_filled() {
        StepResult {
            reg: released(reg, key),
            store,
            outcome: OutcomeModel::Granted {
                subject: slot.subject,
                fresh: Some((slot.access, slot.refresh)),
            },
        }
    } else {
        match rdec {
            Some(DecodeOutcome::Valid(rc)) => if session_valid(store, rc.user_id, rc.id) {
                let s1 = invalidated(store, rc.user_id, rc.id).filter(keeps(rc.user_id, m.now));
                if has_session(s1, m.access_id) {
                    StepResult {
                        reg: released(reg, key),
                        store: s1,
                        outcome: OutcomeModel::InternalError,
                    }
                } else {
                    let s2 = s1.push(access_record(rc.user_id, m));
                    if has_session(s2, m.refresh_id) {
                        StepResult {
                            reg: released(reg, key),
                            store: s2,
                            outcome: OutcomeModel::InternalError,
                        }
                    } else {
                        StepResult {
                            reg: released(
                                reg.insert(
                                    key,
                                    SlotModel {
                                        holders: reg[key].holders,
                                        filled: true,
                                        access: minted_access(rc, m, secret),
                                        refresh: minted_refresh(rc, m, secret),
                                        subject: rc.user_id,
                                    },
                                ),
                                key,
                            ),
                            store: s2.push(refresh_record(rc.user_id, m)),
                            outcome: OutcomeModel::Granted {
                                subject: rc.user_id,
                                fresh: Some(
                                    (minted_access(rc, m, secret), minted_refresh(rc, m, secret)),
                                ),
                            },
                        }
                    }
                }
            } else {
                StepResult { reg: released(reg, key), store, outcome: OutcomeModel::Rejected }
            },
            _ => StepResult { reg: released(reg, key), store, outcome: OutcomeModel::Rejected },
        }
    }
}

/// One whole coordinator run on one request, given the codec's verdicts.
pub open spec fn handle_spec(
    reg: Map<Seq<char>, SlotModel>,
    store: Seq<Token>,
    access: Option<(Seq<char>, DecodeOutcome)>,
    rdec: Option<DecodeOutcome>,
    m: MintMaterial,
    secret: Seq<u8>,
) -> StepResult {
    match access {
        None => StepResult { reg, store, outcome: OutcomeModel::Rejected },
        Some(acc) => match acc.1 {
            DecodeOutcome::Valid(c) => if session_valid(store, c.user_id, c.id) {
                StepResult {
                    reg,
                    store,
                    outcome: OutcomeModel::Granted { subject: c.user_id, fresh: None },
                }
            } else {
                StepResult { reg, store, outcome: OutcomeModel::Rejected }
            },
            DecodeOutcome::Invalid => StepResult {
                reg,
                store,
                outcome: OutcomeModel::Rejected,
            },
            DecodeOutcome::Expired => process_spec(
                acquired(reg, acc.0),
                store,
                acc.0,
                rdec,
                m,
                secret,
            ),
        },
    }
}

/// The states the coordinator passes through on one request.  A store
/// failure has no state of its own: the boundary short-circuits it to a
/// server error wherever it strikes.
#[derive(Clone, Copy, PartialEq, Eq, Structural, Debug)]
pub enum CoordState {
    /// Entry: nothing decided yet.
    NoCredential,
    /// The access credential decoded cleanly and awaits the store's verdict.
    ValidAccess { claims: JwtToken },
    /// The access credential is stale: the slot for it has been acquired and
    /// is about to be inspected.
    ExpiredAccessChecking,
    /// This request leads the rotation; a refresh credential is required,
    /// decoded, and checked against the store.
    RotationPending { refresh_claims: Option<JwtToken> },
    /// A concurrent request already rotated this stale credential: its pair
    /// is reused verbatim, with no store write.
    RotationCached { subject: u128 },
    /// Terminal failure: the request is denied before downstream logic.
    Rejected,
    /// Terminal success: downstream logic proceeds as `subject`.
    Authenticated { subject: u128 },
}

/// What the environment reports to the coordinator, one event per suspend
/// point of the request.
#[derive(Clone, Copy, PartialEq, Eq, Structural, Debug)]
pub enum CoordEvent {
    /// Whether the request carries an access credential at all.
    AccessPresented { present: bool },
    /// The codec's verdict on the access credential.
    AccessDecoded { outcome: DecodeOutcome },
    /// The store's verdict on the decoded access session.
    AccessSessionChecked { valid: bool },
    /// The acquired slot already holds a pair for `Some(subject)`, or is
    /// still empty.
    SlotChecked { cached: Option<u128> },
    /// The codec's verdict on the refresh credential; `None` when the
    /// request carries none.
    RefreshDecoded { outcome: Option<DecodeOutcome> },
    /// The store's verdict on the decoded refresh session; on `true` the
    /// holder performs the rotation while taking this transition.
    RefreshSessionChecked { valid: bool },
    /// The cached pair has been attached to the response.
    PairAdopted,
}

/// The transition relation of the coordinator, one event at a time.  An
/// event that cannot occur in a state leaves the state unchanged.
pub open spec fn step_spec(s: CoordState, e: CoordEvent) -> CoordState {
    match (s, e) {
        (CoordState::NoCredential, CoordEvent::AccessPresented { present }) => if present {
            CoordState::NoCredential
        } else {
            CoordState::Rejected
        },
        (CoordState::NoCredential, CoordEvent::AccessDecoded { outcome }) => match outcome {
            DecodeOutcome::Valid(c) => CoordState::ValidAccess { claims: c },
            DecodeOutcome::Expired => CoordState::ExpiredAccessChecking,
            DecodeOutcome::Invalid => CoordState::Rejected,
        },
        (CoordState::ValidAccess { claims }, CoordEvent::AccessSessionChecked { valid }) => {
            if valid {
                CoordState::Authenticated { subject: claims.user_id }
            } else {
                CoordState::Rejected
            }
        },
        (CoordState::ExpiredAccessChecking, CoordEvent::SlotChecked { cached }) => match cached {
            Some(subject) => CoordState::RotationCached { subject },
            None => CoordState::RotationPending { refresh_claims: None },
        },
        (CoordState::RotationCached { subject }, CoordEvent::PairAdopted) => {
            CoordState::Authenticated { subject }
        },
        (
            CoordState::RotationPending { refresh_claims: None },
            CoordEvent::RefreshDecoded { outcome },
        ) => match outcome {
            Some(DecodeOutcome::Valid(c)) => CoordState::RotationPending {
                refresh_claims: Some(c),
            },
            _ => CoordState::Rejected,
        },
        (
            CoordState::RotationPending { refresh_claims: Some(c) },
            CoordEvent::RefreshSessionChecked { valid },
        ) => {
            if valid {
                CoordState::Authenticated { subject: c.user_id }
            } else {
                CoordState::Rejected
            }
        },
        (other, _) => other,
    }
}

/// Advance the coordinator by one event; exactly [`step_spec`].
pub fn step(s: CoordState, e: CoordEvent) -> (r: CoordState)
    ensures
        r == step_spec(s, e),
{
    match (s, e) {
        (CoordState::NoCredential, CoordEvent::AccessPresented { present }) => if present {
            CoordState::NoCredential
        } else {
            CoordState::Rejected
        },
        (CoordState::NoCredential, CoordEvent::AccessDecoded { outcome }) => match outcome {
            DecodeOutcome::Valid(c) => CoordState::ValidAccess { claims: c },
            DecodeOutcome::Expired => CoordState::ExpiredAccessChecking,
            DecodeOutcome::Invalid => CoordState::Rejected,
        },
        (CoordState::ValidAccess { claims }, CoordEvent::AccessSessionChecked { valid }) => {
            if valid {
                CoordState::Authenticated { subject: claims.user_id }
            } else {
                CoordState::Rejected
            }
        },
        (CoordState::ExpiredAccessChecking, CoordEvent::SlotChecked { cached }) => match cached {
            Some(subject) => CoordState::RotationCached { subject },
            None => CoordState::RotationPending { refresh_claims: None },
        },
        (CoordState::RotationCached { subject }, CoordEvent::PairAdopted) => {
            CoordState::Authenticated { subject }
        },
        (
            CoordState::RotationPending { refresh_claims: None },
            CoordEvent::RefreshDecoded { outcome },
        ) => match outcome {
            Some(DecodeOutcome::Valid(c)) => CoordState::RotationPending {
                refresh_claims: Some(c),
            },
            _ => CoordState::Rejected,
        },
        (
            CoordState::RotationPending { refresh_claims: Some(c) },
            CoordEvent::RefreshSessionChecked { valid },
        ) => {
            if valid {
                CoordState::Authenticated { subject: c.user_id }
            } else {
                CoordState::Rejected
            }
        },
        (other, _) => other,
    }
}

/// The expired-credential path, entered after the slot for `access_raw` has
/// been acquired.  Exactly implements [`process_spec`].
pub fn process_acquired(
    reg: &mut Registry,
    store: &mut SessionStore,
    access_raw: &String,
    rdec: Option<DecodeOutcome>,
    m: MintMaterial,
    secret: &[u8],
) -> (r: Outcome)
    requires
        old(reg).wf(),
        old(store).wf(),
        old(reg)@.contains_key(access_raw@),
        old(reg)@[access_raw@].holders >= 1,
        m.now + REFRESH_LIFETIME <= u64::MAX,
    ensures
        final(reg).wf(),
        final(store).wf(),
        ({
            let out = process_spec(old(reg)@, old(store)@, access_raw@, rdec, m, secret@);
            final(reg)@ == out.reg && final(store)@ == out.store && r@ == out.outcome
        }),
{
    let cached = reg.cached_pair(access_raw);
    match cached {
        Some((filled, a, rf, subject)) => {
            if filled {
                let out = Outcome::Authenticated { subject, fresh: Some((a, rf)) };
                reg.remove_lock_if_not_used(access_raw);
                return out;
            }
        },
        None => {
            // unreachable: the slot was acquired before entering this path
            proof {
                assert(false);
            }
        },
    }
    match rdec {
        Some(DecodeOutcome::Valid(rc)) => {
            let valid = match Token::is_valid(rc.user_id, rc.id, store) {
                Ok(b) => b,
                Err(_) => false,
            };
            if valid {
                let exp_access: u64 = m.now + ACCESS_LIFETIME;
                let exp_refresh: u64 = m.now + REFRESH_LIFETIME;
                let _ = Token::invalidate(rc.user_id, rc.id, store);
                let _ = Token::remove_expired(rc.user_id, m.now, store);
                match Token::declare_new(rc.user_id, m.access_id, exp_access, store) {
                    Ok(_) => {},
                    Err(_) => {
                        reg.remove_lock_if_not_used(access_raw);
                        return Outcome::InternalError;
                    },
                }
                match Token::declare_new(rc.user_id, m.refresh_id, exp_refresh, store) {
                    Ok(_) => {},
                    Err(_) => {
                        reg.remove_lock_if_not_used(access_raw);
                        return Outcome::InternalError;
                    },
                }
                let new_access = JwtToken {
                    iat: m.now,
                    exp: exp_access,
                    id: m.access_id,
                    user_id: rc.user_id,
                };
                let new_refresh = JwtToken {
                    iat: m.now,
                    exp: exp_refresh,
                    id: m.refresh_id,
                    user_id: rc.user_id,
                };
                let access_cred = new_access.encode(secret);
                let refresh_cred = new_refresh.encode(secret);
                reg.store_pair(access_raw, access_cred.clone(), refresh_cred.clone(), rc.user_id);
                reg.remove_lock_if_not_used(access_raw);
                Outcome::Authenticated {
                    subject: rc.user_id,
                    fresh: Some((access_cred, refresh_cred)),
                }
            } else {
                reg.remove_lock_if_not_used(access_raw);
                Outcome::Rejected
            }
        },
        _ => {
            reg.remove_lock_if_not_used(access_raw);
            Outcome::Rejected
        },
    }
}

/// Handle one request: the full state machine of the coordinator, given the
/// codec's verdicts on the presented credentials and the fresh material a
/// rotation would consume.  Exactly implements [`handle_spec`].
pub fn handle_request(
    reg: &mut Registry,
    store: &mut SessionStore,
    access: Option<&PresentedCredential>,
    rdec: Option<DecodeOutcome>,
    m: MintMaterial,
    secret: &[u8],
) -> (r: Outcome)
    requires
        old(reg).wf(),
        old(store).wf(),
        forall|k: Seq<char>|
            old(reg)@.contains_key(k) ==> #[trigger] old(reg)@[k].holders < usize::MAX,
        m.now + REFRESH_LIFETIME <= u64::MAX,
    ensures
        final(reg).wf(),
        final(store).wf(),
        ({
            let acc = match access {
                Some(p) => Some((p.raw@, p.decoded)),
                None => None,
            };
            let out = handle_spec(old(reg)@, old(store)@, acc, rdec, m, secret@);
            final(reg)@ == out.reg && final(store)@ == out.store && r@ == out.outcome
        }),
{
    match access {
        None => Outcome::Rejected,
        Some(p) => match p.decoded {
            DecodeOutcome::Valid(c) => {
                let valid = match Token::is_valid(c.user_id, c.id, store) {
                    Ok(b) => b,
                    Err(_) => false,
                };
                if valid {
                    Outcome::Authenticated { subject: c.user_id, fresh: None }
                } else {
                    Outcome::Rejected
                }
            },
            DecodeOutcome::Invalid => Outcome::Rejected,
            DecodeOutcome::Expired => {
                reg.declare_lock(&p.raw);
                process_acquired(reg, store, &p.raw, rdec, m, secret)
            },
        },
    }
}

/// Validate the credentials a request presents and coordinate rotation: the
/// pipeline entry point.  The codec's verdicts and the fresh mint material
/// are drawn here; whatever they turn out to be, the request is handled by
/// [`handle_spec`]'s rules, and a request without an access credential is
/// rejected untouched.
pub fn authenticate(
    reg: &mut Registry,
    store: &mut SessionStore,
    access: Option<&String>,
    refresh: Option<&String>,
    secret: &[u8],
) -> (r: Outcome)
    requires
        old(reg).wf(),
        old(store).wf(),
        forall|k: Seq<char>|
            old(reg)@.contains_key(k) ==> #[trigger] old(reg)@[k].holders < usize::MAX,
    ensures
        final(reg).wf(),
        final(store).wf(),
        match access {
            None => r is Rejected && final(reg)@ == old(reg)@ && final(store)@ == old(store)@,
            Some(araw) => exists|adec: DecodeOutcome, rdec: Option<DecodeOutcome>, m: MintMaterial|
                {
                    let out = #[trigger] handle_spec(
                        old(reg)@,
                        old(store)@,
                        Some((araw@, adec)),
                        rdec,
                        m,
                        secret@,
                    );
                    m.now + REFRESH_LIFETIME <= u64::MAX && final(reg)@ == out.reg && final(store)@
                        == out.store && r@ == out.outcome
                },
        },
{
    match access {
        None => Outcome::Rejected,
        Some(araw) => {
            let adec = verify(araw.as_str(), secret);
            let rdec = match refresh {
                Some(rraw) => Some(verify(rraw.as_str(), secret)),
                None => None,
            };
            let t = now_timestamp();
            let now: u64 = if t >= 0 {
                t as u64
            } else {
                0
            };
            let m = MintMaterial {
                now,
                access_id: fresh_session_id(),
                refresh_id: fresh_session_id(),
            };
            let presented = PresentedCredential { raw: araw.clone(), decoded: adec };
            let out = handle_request(reg, store, Some(&presented), rdec, m, secret);
            proof {
                let spec_out = handle_spec(
                    old(reg)@,
                    old(store)@,
                    Some((araw@, adec)),
                    rdec,
                    m,
                    secret@,
                );
                assert(m.now + REFRESH_LIFETIME <= u64::MAX && reg@ == spec_out.reg && store@
                    == spec_out.store && out@ == spec_out.outcome);
            }
            out
        },
    }
}

} // verus!
