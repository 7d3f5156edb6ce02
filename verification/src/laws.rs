//! The coordination laws: what the refresh coordinator guarantees across
//! whole runs, proved over the spec-level model in [`crate::coordinator`].
//!
//! Concurrent requests that present the same stale credential are serialized
//! by the slot's lock, each holding it across its whole expired-path
//! decision, so a burst of such requests is modelled by [`run_holders`]: all
//! contenders acquire the slot first, then take the expired path one at a
//! time.

use vstd::prelude::*;
use crate::claims::{DecodeOutcome, JwtToken};
use crate::coordinator::{
    access_record, handle_spec, minted_access, minted_refresh, process_spec, refresh_record,
    released, rotated, MintMaterial, OutcomeModel, StepResult,
};
use crate::registry::SlotModel;
use crate::store::{has_session, invalidated, keeps, session_valid, Token};

verus! {

/// The state after every one of `mints.len()` holders of the slot for `key`
/// has taken the expired-credential path in turn, the i-th consuming
/// `mints[i]`, together with the verdict each received.
pub struct RunResult {
    pub reg: Map<Seq<char>, SlotModel>,
    pub store: Seq<Token>,
    pub outcomes: Seq<OutcomeModel>,
}

/// Run the expired-credential path once per element of `mints`, in order,
/// against the shared registry and store.
pub open spec fn run_holders(
    reg: Map<Seq<char>, SlotModel>,
    store: Seq<Token>,
    key: Seq<char>,
    rdec: Option<DecodeOutcome>,
    mints: Seq<MintMaterial>,
    secret: Seq<u8>,
) -> RunResult
    decreases mints.len(),
{
    if mints.len() == 0 {
        RunResult { reg, store, outcomes: Seq::empty() }
    } else {
        let first = process_spec(reg, store, key, rdec, mints[0], secret);
        let rest = run_holders(first.reg, first.store, key, rdec, mints.drop_first(), secret);
        RunResult {
            reg: rest.reg,
            store: rest.store,
            outcomes: seq![first.outcome] + rest.outcomes,
        }
    }
}

proof fn lemma_filter_subset<A>(s: Seq<A>, pred: spec_fn(A) -> bool, x: A)
    requires
        s.filter(pred).contains(x),
    ensures
        s.contains(x),
    decreases s.len(),
{
    reveal(Seq::filter);
    if s.len() == 0 {
    } else {
        let prefix = s.drop_last();
        if pred(s.last()) && x == s.last() {
            assert(s[s.len() - 1] == x);
        } else {
            if pred(s.last()) {
                let f = s.filter(pred);
                let i = choose|i: int| 0 <= i < f.len() && f[i] == x;
                assert(f =~= prefix.filter(pred).push(s.last()));
                assert(i < f.len() - 1);
                assert(prefix.filter(pred)[i] == x);
            }
            lemma_filter_subset(prefix, pred, x);
            let j = choose|j: int| 0 <= j < prefix.len() && prefix[j] == x;
            assert(s[j] == x);
        }
    }
}

proof fn lemma_has_session_invalidated(s: Seq<Token>, u: u128, id: u128, t: u128)
    ensures
        has_session(invalidated(s, u, id), t) == has_session(s, t),
{
    let post = invalidated(s, u, id);
    if has_session(post, t) {
        let i = choose|i: int| 0 <= i < post.len() && post[i].token_id == t;
        assert(s[i].token_id == t);
    }
    if has_session(s, t) {
        let i = choose|i: int| 0 <= i < s.len() && s[i].token_id == t;
        assert(post[i].token_id == t);
    }
}

proof fn lemma_has_session_filter(s: Seq<Token>, pred: spec_fn(Token) -> bool, t: u128)
    requires
        has_session(s.filter(pred), t),
    ensures
        has_session(s, t),
{
    let f = s.filter(pred);
    let i = choose|i: int| 0 <= i < f.len() && f[i].token_id == t;
    assert(f.contains(f[i]));
    lemma_filter_subset(s, pred, f[i]);
    let j = choose|j: int| 0 <= j < s.len() && s[j] == f[i];
    assert(s[j].token_id == t);
}

proof fn lemma_has_session_push(s: Seq<Token>, x: Token, t: u128)
    ensures
        has_session(s.push(x), t) == (has_session(s, t) || x.token_id == t),
{
    let post = s.push(x);
    if has_session(post, t) {
        let i = choose|i: int| 0 <= i < post.len() && post[i].token_id == t;
        if i < s.len() {
            assert(s[i].token_id == t);
        } else {
            assert(post[i] == x);
        }
    }
    if has_session(s, t) {
        let i = choose|i: int| 0 <= i < s.len() && s[i].token_id == t;
        assert(post[i].token_id == t);
    }
    if x.token_id == t {
        assert(post[s.len() as int].token_id == t);
    }
}

proof fn lemma_session_valid_invalidated(s: Seq<Token>, u0: u128, id0: u128, u: u128, id: u128)
    requires
        session_valid(invalidated(s, u0, id0), u, id),
    ensures
        session_valid(s, u, id),
{
    let post = invalidated(s, u0, id0);
    let i = choose|i: int|
        0 <= i < post.len() && post[i].user_id == u && post[i].token_id == id && post[i].is_valid;
    assert(s[i].user_id == u && s[i].token_id == id && s[i].is_valid);
}

proof fn lemma_session_valid_filter(s: Seq<Token>, pred: spec_fn(Token) -> bool, u: u128, id: u128)
    requires
        session_valid(s.filter(pred), u, id),
    ensures
        session_valid(s, u, id),
{
    let f = s.filter(pred);
    let i = choose|i: int|
        0 <= i < f.len() && f[i].user_id == u && f[i].token_id == id && f[i].is_valid;
    assert(f.contains(f[i]));
    lemma_filter_subset(s, pred, f[i]);
    let j = choose|j: int| 0 <= j < s.len() && s[j] == f[i];
    assert(s[j].user_id == u && s[j].token_id == id && s[j].is_valid);
}

proof fn lemma_session_valid_push(s: Seq<Token>, x: Token, u: u128, id: u128)
    requires
        session_valid(s.push(x), u, id),
        x.token_id != id,
    ensures
        session_valid(s, u, id),
{
    let post = s.push(x);
    let i = choose|i: int|
        0 <= i < post.len() && post[i].user_id == u && post[i].token_id == id && post[i].is_valid;
    assert(i < s.len());
    assert(s[i].user_id == u && s[i].token_id == id && s[i].is_valid);
}

/// A request without an access credential is rejected, with neither a store
/// call nor a registry interaction.
pub proof fn lemma_no_credential_rejected(
    reg: Map<Seq<char>, SlotModel>,
    store: Seq<Token>,
    rdec: Option<DecodeOutcome>,
    m: MintMaterial,
    secret: Seq<u8>,
)
    ensures
        handle_spec(reg, store, None, rdec, m, secret) == (StepResult {
            reg,
            store,
            outcome: OutcomeModel::Rejected,
        }),
{
}

/// A credential that fails signature verification (or is malformed in any
/// way other than expiry) is rejected, with neither a store write nor a
/// registry interaction: only expiry may drive the rotation path.
pub proof fn lemma_invalid_credential_rejected(
    reg: Map<Seq<char>, SlotModel>,
    store: Seq<Token>,
    raw: Seq<char>,
    rdec: Option<DecodeOutcome>,
    m: MintMaterial,
    secret: Seq<u8>,
)
    ensures
        handle_spec(reg, store, Some((raw, DecodeOutcome::Invalid)), rdec, m, secret)
            == (StepResult { reg, store, outcome: OutcomeModel::Rejected }),
{
}

/// A credential whose claim set is intact and unexpired but whose session the
/// store has revoked is rejected, whatever else the request presents, and
/// nothing changes.
pub proof fn lemma_revoked_session_rejected(
    reg: Map<Seq<char>, SlotModel>,
    store: Seq<Token>,
    raw: Seq<char>,
    c: JwtToken,
    rdec: Option<DecodeOutcome>,
    m: MintMaterial,
    secret: Seq<u8>,
)
    requires
        !session_valid(store, c.user_id, c.id),
    ensures
        handle_spec(reg, store, Some((raw, DecodeOutcome::Valid(c))), rdec, m, secret)
            == (StepResult { reg, store, outcome: OutcomeModel::Rejected }),
{
}

/// A successful rotation leaves the prior refresh session invalid.
pub proof fn lemma_rotation_invalidates_prior(store: Seq<Token>, rc: JwtToken, m: MintMaterial)
    requires
        m.access_id != rc.id,
        m.refresh_id != rc.id,
    ensures
        !session_valid(rotated(store, rc, m), rc.user_id, rc.id),
{
    let s0 = invalidated(store, rc.user_id, rc.id);
    let s1 = s0.filter(keeps(rc.user_id, m.now));
    let s2 = s1.push(access_record(rc.user_id, m));
    let s3 = s2.push(refresh_record(rc.user_id, m));
    assert(!session_valid(s0, rc.user_id, rc.id)) by {
        if session_valid(s0, rc.user_id, rc.id) {
            let i = choose|i: int|
                0 <= i < s0.len() && s0[i].user_id == rc.user_id && s0[i].token_id == rc.id
                    && s0[i].is_valid;
            assert(!s0[i].is_valid);
        }
    }
    if session_valid(s1, rc.user_id, rc.id) {
        lemma_session_valid_filter(s0, keeps(rc.user_id, m.now), rc.user_id, rc.id);
    }
    if session_valid(s3, rc.user_id, rc.id) {
        lemma_session_valid_push(s2, refresh_record(rc.user_id, m), rc.user_id, rc.id);
        lemma_session_valid_push(s1, access_record(rc.user_id, m), rc.user_id, rc.id);
    }
}

/// An invalidated session is never accepted again: no coordinator run whose
/// fresh session identifiers differ from it (random identifiers collide with
/// a stale one only with negligible probability) makes it valid again.
pub proof fn lemma_invalid_session_stays_invalid(
    reg: Map<Seq<char>, SlotModel>,
    store: Seq<Token>,
    access: Option<(Seq<char>, DecodeOutcome)>,
    rdec: Option<DecodeOutcome>,
    m: MintMaterial,
    secret: Seq<u8>,
    u: u128,
    id: u128,
)
    requires
        !session_valid(store, u, id),
        m.access_id != id,
        m.refresh_id != id,
    ensures
        !session_valid(handle_spec(reg, store, access, rdec, m, secret).store, u, id),
{
    let out = handle_spec(reg, store, access, rdec, m, secret);
    if out.store != store {
        let acc = access->Some_0;
        let rc = rdec->Some_0->Valid_0;
        let s0 = invalidated(store, rc.user_id, rc.id);
        let s1 = s0.filter(keeps(rc.user_id, m.now));
        let s2 = s1.push(access_record(rc.user_id, m));
        let s3 = s2.push(refresh_record(rc.user_id, m));
        assert(!session_valid(s0, u, id)) by {
            if session_valid(s0, u, id) {
                lemma_session_valid_invalidated(store, rc.user_id, rc.id, u, id);
            }
        }
        assert(!session_valid(s1, u, id)) by {
            if session_valid(s1, u, id) {
                lemma_session_valid_filter(s0, keeps(rc.user_id, m.now), u, id);
            }
        }
        assert(!session_valid(s2, u, id)) by {
            if session_valid(s2, u, id) {
                lemma_session_valid_push(s1, access_record(rc.user_id, m), u, id);
            }
        }
        assert(!session_valid(s3, u, id)) by {
            if session_valid(s3, u, id) {
                lemma_session_valid_push(s2, refresh_record(rc.user_id, m), u, id);
            }
        }
        assert(out.store == s1 || out.store == s2 || out.store == s3);
    }
}

proof fn lemma_process_releases(
    reg: Map<Seq<char>, SlotModel>,
    store: Seq<Token>,
    key: Seq<char>,
    rdec: Option<DecodeOutcome>,
    m: MintMaterial,
    secret: Seq<u8>,
)
    requires
        reg.contains_key(key),
        reg[key].holders >= 1,
    ensures
        ({
            let out = process_spec(reg, store, key, rdec, m, secret);
            if reg[key].holders == 1 {
                out.reg == reg.remove(key)
            } else {
                out.reg.contains_key(key) && out.reg[key].holders == reg[key].holders - 1
                    && out.reg.remove(key) == reg.remove(key)
            }
        }),
{
    let out = process_spec(reg, store, key, rdec, m, secret);
    let filled = reg.insert(
        key,
        SlotModel {
            holders: reg[key].holders,
            filled: true,
            access: minted_access(rdec->Some_0->Valid_0, m, secret),
            refresh: minted_refresh(rdec->Some_0->Valid_0, m, secret),
            subject: (rdec->Some_0->Valid_0).user_id,
        },
    );
    assert(out.reg == released(reg, key) || out.reg == released(filled, key));
    if reg[key].holders == 1 {
        assert(released(reg, key) == reg.remove(key));
        assert(released(filled, key) =~= reg.remove(key));
    } else {
        if out.reg == released(reg, key) {
            assert(out.reg.remove(key) =~= reg.remove(key));
        } else {
            assert(out.reg.remove(key) =~= reg.remove(key));
        }
    }
}

/// Entries do not leak: once every concurrent holder of a given stale
/// credential has completed — whatever path each one took — the registry
/// entry for that credential is gone and nothing else has changed, so after
/// a burst the entry count returns to where it started (to zero, for a
/// registry that held nothing else).
pub proof fn lemma_registry_drains(
    reg: Map<Seq<char>, SlotModel>,
    store: Seq<Token>,
    key: Seq<char>,
    rdec: Option<DecodeOutcome>,
    mints: Seq<MintMaterial>,
    secret: Seq<u8>,
)
    requires
        reg.contains_key(key),
        reg[key].holders == mints.len(),
        mints.len() >= 1,
    ensures
        run_holders(reg, store, key, rdec, mints, secret).reg == reg.remove(key),
    decreases mints.len(),
{
    let first = process_spec(reg, store, key, rdec, mints[0], secret);
    lemma_process_releases(reg, store, key, rdec, mints[0], secret);
    if mints.len() == 1 {
        assert(run_holders(first.reg, first.store, key, rdec, mints.drop_first(), secret).reg
            == first.reg);
    } else {
        lemma_registry_drains(first.reg, first.store, key, rdec, mints.drop_first(), secret);
        assert(run_holders(reg, store, key, rdec, mints, secret).reg == first.reg.remove(key));
    }
}

proof fn lemma_followers_reuse(
    reg: Map<Seq<char>, SlotModel>,
    store: Seq<Token>,
    key: Seq<char>,
    rdec: Option<DecodeOutcome>,
    mints: Seq<MintMaterial>,
    secret: Seq<u8>,
)
    requires
        reg.contains_key(key),
        reg[key].is_filled(),
        reg[key].holders == mints.len(),
    ensures
        ({
            let out = run_holders(reg, store, key, rdec, mints, secret);
            out.store == store && out.outcomes.len() == mints.len() && (forall|i: int|
                0 <= i < mints.len() ==> out.outcomes[i] == (OutcomeModel::Granted {
                    subject: reg[key].subject,
                    fresh: Some((reg[key].access, reg[key].refresh)),
                }))
        }),
    decreases mints.len(),
{
    if mints.len() == 0 {
    } else {
        let out = run_holders(reg, store, key, rdec, mints, secret);
        let first = process_spec(reg, store, key, rdec, mints[0], secret);
        let rest = run_holders(first.reg, first.store, key, rdec, mints.drop_first(), secret);
        let granted = OutcomeModel::Granted {
            subject: reg[key].subject,
            fresh: Some((reg[key].access, reg[key].refresh)),
        };
        assert(first.outcome == granted);
        assert(first.store == store);
        if mints.len() == 1 {
            assert(rest.outcomes.len() == 0);
        } else {
            assert(first.reg == released(reg, key));
            assert(first.reg.contains_key(key) && first.reg[key].holders == mints.len() - 1
                && first.reg[key].is_filled() && first.reg[key].access == reg[key].access
                && first.reg[key].refresh == reg[key].refresh && first.reg[key].subject
                == reg[key].subject);
            lemma_followers_reuse(first.reg, first.store, key, rdec, mints.drop_first(), secret);
        }
        assert(out.outcomes == seq![first.outcome] + rest.outcomes);
        assert forall|i: int| 0 <= i < mints.len() implies out.outcomes[i] == granted by {
            if i == 0 {
                assert(out.outcomes[0] == first.outcome);
            } else {
                assert(out.outcomes[i] == rest.outcomes[i - 1]);
            }
        }
    }
}

/// For a burst of concurrent requests presenting the same stale access
/// credential and a refresh credential whose session the store honours,
/// exactly one rotation is written to the session store — the leader's — and
/// every request receives the identical freshly minted credential pair.
pub proof fn lemma_single_rotation(
    reg: Map<Seq<char>, SlotModel>,
    store: Seq<Token>,
    key: Seq<char>,
    rc: JwtToken,
    mints: Seq<MintMaterial>,
    secret: Seq<u8>,
)
    requires
        reg.contains_key(key),
        !reg[key].is_filled(),
        reg[key].holders == mints.len(),
        mints.len() >= 1,
        session_valid(store, rc.user_id, rc.id),
        !has_session(store, mints[0].access_id),
        !has_session(store, mints[0].refresh_id),
        mints[0].access_id != mints[0].refresh_id,
    ensures
        ({
            let out = run_holders(reg, store, key, Some(DecodeOutcome::Valid(rc)), mints, secret);
            let m = mints[0];
            out.store == rotated(store, rc, m) && out.reg == reg.remove(key)
                && out.outcomes.len() == mints.len() && (forall|i: int|
                0 <= i < mints.len() ==> out.outcomes[i] == (OutcomeModel::Granted {
                    subject: rc.user_id,
                    fresh: Some((minted_access(rc, m, secret), minted_refresh(rc, m, secret))),
                }))
        }),
{
    let rdec = Some(DecodeOutcome::Valid(rc));
    let m = mints[0];
    let first = process_spec(reg, store, key, rdec, m, secret);
    lemma_registry_drains(reg, store, key, rdec, mints, secret);
    let s0 = invalidated(store, rc.user_id, rc.id);
    let s1 = s0.filter(keeps(rc.user_id, m.now));
    let s2 = s1.push(access_record(rc.user_id, m));
    assert(!has_session(s1, m.access_id)) by {
        lemma_has_session_invalidated(store, rc.user_id, rc.id, m.access_id);
        if has_session(s1, m.access_id) {
            lemma_has_session_filter(s0, keeps(rc.user_id, m.now), m.access_id);
        }
    }
    assert(!has_session(s2, m.refresh_id)) by {
        lemma_has_session_invalidated(store, rc.user_id, rc.id, m.refresh_id);
        lemma_has_session_push(s1, access_record(rc.user_id, m), m.refresh_id);
        if has_session(s1, m.refresh_id) {
            lemma_has_session_filter(s0, keeps(rc.user_id, m.now), m.refresh_id);
        }
    }
    assert(first.store == rotated(store, rc, m));
    assert(first.outcome == OutcomeModel::Granted {
        subject: rc.user_id,
        fresh: Some((minted_access(rc, m, secret), minted_refresh(rc, m, secret))),
    });
    let out = run_holders(reg, store, key, rdec, mints, secret);
    let rest = run_holders(first.reg, first.store, key, rdec, mints.drop_first(), secret);
    let granted = OutcomeModel::Granted {
        subject: rc.user_id,
        fresh: Some((minted_access(rc, m, secret), minted_refresh(rc, m, secret))),
    };
    if mints.len() == 1 {
        assert(rest.outcomes.len() == 0);
    } else {
        let filled = reg.insert(
            key,
            SlotModel {
                holders: reg[key].holders,
                filled: true,
                access: minted_access(rc, m, secret),
                refresh: minted_refresh(rc, m, secret),
                subject: rc.user_id,
            },
        );
        assert(first.reg == released(filled, key));
        assert(first.reg.contains_key(key) && first.reg[key].holders == mints.len() - 1
            && first.reg[key].access == minted_access(rc, m, secret) && first.reg[key].refresh
            == minted_refresh(rc, m, secret) && first.reg[key].subject == rc.user_id
            && first.reg[key].is_filled());
        lemma_followers_reuse(first.reg, first.store, key, rdec, mints.drop_first(), secret);
        assert(rest.store == first.store);
    }
    assert(out.outcomes == seq![first.outcome] + rest.outcomes);
    assert forall|i: int| 0 <= i < mints.len() implies out.outcomes[i] == granted by {
        if i == 0 {
            assert(out.outcomes[0] == first.outcome);
        } else {
            assert(out.outcomes[i] == rest.outcomes[i - 1]);
        }
    }
}

} // verus!
