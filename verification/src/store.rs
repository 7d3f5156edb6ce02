//! The session store: server-side records that say whether a session
//! identifier is still honoured.
//!
//! Each minted claim set is backed by one record here.  A record is created
//! when its claim set is minted, invalidated when its access/refresh pair is
//! rotated, and purged once expired.  Validity is monotonic: once a record is
//! invalid it never becomes valid again.

use vstd::prelude::*;

verus! {

/// One persisted session record.
#[derive(Clone, Copy, PartialEq, Eq, Structural, Debug)]
pub struct Token {
    pub user_id: u128,
    pub token_id: u128,
    /// Seconds since the epoch after which the record may be purged.
    pub expiration: u64,
    pub is_valid: bool,
}

/// Failure of a session-store operation.  Any such failure must surface as an
/// internal error, never as a credential rejection.
#[derive(Clone, Copy, PartialEq, Eq, Structural, Debug)]
pub enum StoreError {
    /// A record with the same session identifier already exists.
    DuplicateSession,
}

/// In-process session store: the sequence of records, newest last.
pub struct SessionStore {
    records: Vec<Token>,
}

/// There is a record for `token_id`.
pub open spec fn has_session(s: Seq<Token>, token_id: u128) -> bool {
    exists|i: int| 0 <= i < s.len() && s[i].token_id == token_id
}

/// The store holds a record for (`user_id`, `token_id`) that is still valid.
pub open spec fn session_valid(s: Seq<Token>, user_id: u128, token_id: u128) -> bool {
    exists|i: int|
        0 <= i < s.len() && s[i].user_id == user_id && s[i].token_id == token_id
            && s[i].is_valid
}

/// Keep a record under a purge of `user_id`'s records expired before `now`.
pub open spec fn keeps(user_id: u128, now: u64) -> spec_fn(Token) -> bool {
    |t: Token| !(t.user_id == user_id && t.expiration < now)
}

/// The store after the session (`user_id`, `token_id`) is marked invalid.
pub open spec fn invalidated(s: Seq<Token>, user_id: u128, token_id: u128) -> Seq<Token> {
    s.map_values(
        |t: Token|
            if t.user_id == user_id && t.token_id == token_id {
                Token { is_valid: false, ..t }
            } else {
                t
            },
    )
}

impl View for SessionStore {
    type V = Seq<Token>;

    closed spec fn view(&self) -> Seq<Token> {
        self.records@
    }
}

impl SessionStore {
    /// A session identifier maps to at most one record.
    pub open spec fn wf(&self) -> bool {
        forall|i: int, j: int|
            0 <= i < j < self@.len() ==> self@[i].token_id != self@[j].token_id
    }

    pub fn new() -> (r: SessionStore)
        ensures
            r.wf(),
            r@ == Seq::<Token>::empty(),
    {
        let r = SessionStore { records: Vec::new() };
        proof {
            assert(r@ =~= Seq::<Token>::empty());
        }
        r
    }

    /// How many records the store holds.
    pub fn len(&self) -> (r: usize)
        ensures
            r == self@.len(),
    {
        self.records.len()
    }

    /// The record at position `i`, oldest first.
    pub fn record_at(&self, i: usize) -> (r: Token)
        requires
            i < self@.len(),
        ensures
            r == self@[i as int],
    {
        self.records[i]
    }
}

proof fn lemma_filter_push<A>(s: Seq<A>, x: A, pred: spec_fn(A) -> bool)
    ensures
        s.push(x).filter(pred) == if pred(x) {
            s.filter(pred).push(x)
        } else {
            s.filter(pred)
        },
{
    reveal(Seq::filter);
    assert(s.push(x).drop_last() =~= s);
    assert(s.push(x).last() == x);
}

impl Token {
    /// Record a fresh session.  Fails, leaving the store unchanged, when the
    /// session identifier is already present.
    pub fn declare_new(user_id: u128, token_id: u128, expiration: u64, db: &mut SessionStore) -> (r:
        Result<Token, StoreError>)
        requires
            old(db).wf(),
        ensures
            final(db).wf(),
            match r {
                Ok(t) => !has_session(old(db)@, token_id) && t == (Token {
                    user_id,
                    token_id,
                    expiration,
                    is_valid: true,
                }) && final(db)@ == old(db)@.push(t),
                Err(e) => e == StoreError::DuplicateSession && has_session(old(db)@, token_id)
                    && final(db)@ == old(db)@,
            },
    {
        let n = db.records.len();
        let mut i: usize = 0;
        while i < n
            invariant
                n == db@.len(),
                i <= n,
                forall|k: int| 0 <= k < i ==> db@[k].token_id != token_id,
                db.wf(),
                db@ == old(db)@,
            decreases n - i,
        {
            if db.records[i].token_id == token_id {
                return Err(StoreError::DuplicateSession);
            }
            i += 1;
        }
        let t = Token { user_id, token_id, expiration, is_valid: true };
        db.records.push(t);
        Ok(t)
    }

    /// Does the store still honour this session?  A missing record counts as
    /// invalid.  The in-process store itself never fails; the `Result` is the
    /// adapter interface that a remote backend shares.
    pub fn is_valid(user_id: u128, token_id: u128, db: &SessionStore) -> (r: Result<
        bool,
        StoreError,
    >)
        ensures
            r == Ok::<bool, StoreError>(session_valid(db@, user_id, token_id)),
    {
        let n = db.records.len();
        let mut i: usize = 0;
        while i < n
            invariant
                n == db@.len(),
                i <= n,
                forall|k: int|
                    0 <= k < i ==> !(db@[k].user_id == user_id && db@[k].token_id == token_id
                        && db@[k].is_valid),
            decreases n - i,
        {
            let t = db.records[i];
            if t.user_id == user_id && t.token_id == token_id && t.is_valid {
                return Ok(true);
            }
            i += 1;
        }
        Ok(false)
    }

    /// Purge every record of `user_id` whose expiration lies before `now`.
    pub fn remove_expired(user_id: u128, now: u64, db: &mut SessionStore) -> (r: Result<
        (),
        StoreError,
    >)
        requires
            old(db).wf(),
        ensures
            final(db).wf(),
            r is Ok,
            final(db)@ == old(db)@.filter(keeps(user_id, now)),
    {
        let ghost pred = keeps(user_id, now);
        let n = db.records.len();
        let mut kept: Vec<Token> = Vec::new();
        let mut i: usize = 0;
        proof {
            reveal(Seq::filter);
            assert(old(db)@.take(0) =~= Seq::<Token>::empty());
            assert(old(db)@.take(0).filter(pred) =~= Seq::<Token>::empty());
            assert(kept@ =~= Seq::<Token>::empty());
        }
        while i < n
            invariant
                pred == keeps(user_id, now),
                n == db@.len(),
                i <= n,
                db@ == old(db)@,
                db.wf(),
                kept@ == old(db)@.take(i as int).filter(pred),
                forall|a: int, b: int|
                    0 <= a < b < kept@.len() ==> kept@[a].token_id != kept@[b].token_id,
                forall|a: int|
                    0 <= a < kept@.len() ==> exists|b: int|
                        0 <= b < i && #[trigger] kept@[a] == db@[b],
            decreases n - i,
        {
            let t = db.records[i];
            proof {
                assert(old(db)@.take(i + 1) =~= old(db)@.take(i as int).push(t));
                lemma_filter_push(old(db)@.take(i as int), t, pred);
            }
            if !(t.user_id == user_id && t.expiration < now) {
                proof {
                    assert forall|a: int| 0 <= a < kept@.len() implies kept@[a].token_id
                        != t.token_id by {
                        let b = choose|b: int| 0 <= b < i && kept@[a] == db@[b];
                        assert(db@[b].token_id != db@[i as int].token_id);
                    }
                }
                kept.push(t);
            }
            i += 1;
        }
        proof {
            assert(old(db)@.take(n as int) =~= old(db)@);
        }
        db.records = kept;
        Ok(())
    }

    /// Mark the session invalid.  Every record matching both identifiers is
    /// downgraded; nothing else changes, and validity never returns.
    pub fn invalidate(user_id: u128, token_id: u128, db: &mut SessionStore) -> (r: Result<
        (),
        StoreError,
    >)
        requires
            old(db).wf(),
        ensures
            final(db).wf(),
            r is Ok,
            final(db)@.len() == old(db)@.len(),
            forall|i: int|
                0 <= i < final(db)@.len() ==> #[trigger] final(db)@[i] == if old(db)@[i].user_id
                    == user_id && old(db)@[i].token_id == token_id {
                    Token { is_valid: false, ..old(db)@[i] }
                } else {
                    old(db)@[i]
                },
            !session_valid(final(db)@, user_id, token_id),
            final(db)@ == invalidated(old(db)@, user_id, token_id),
    {
        let n = db.records.len();
        let mut i: usize = 0;
        while i < n
            invariant
                n == db@.len() == old(db)@.len(),
                i <= n,
                forall|k: int|
                    0 <= k < db@.len() ==> #[trigger] db@[k] == if k < i && old(db)@[k].user_id
                        == user_id && old(db)@[k].token_id == token_id {
                        Token { is_valid: false, ..old(db)@[k] }
                    } else {
                        old(db)@[k]
                    },
            decreases n - i,
        {
            if db.records[i].user_id == user_id && db.records[i].token_id == token_id {
                let t = db.records[i];
                db.records.set(i, Token { is_valid: false, ..t });
            }
            i += 1;
        }
        proof {
            assert(forall|k: int|
                0 <= k < db@.len() ==> 0 <= k < old(db)@.len() && (old(db)@[k].user_id == user_id
                    && old(db)@[k].token_id == token_id ==> !(#[trigger] db@[k]).is_valid));
            assert(forall|k: int|
                0 <= k < db@.len() ==> (#[trigger] db@[k]).user_id == old(db)@[k].user_id
                    && db@[k].token_id == old(db)@[k].token_id);
            assert(db@ =~= invalidated(old(db)@, user_id, token_id));
        }
        Ok(())
    }
}

/// Validity is monotonic: `invalidate` is the only operation that touches
/// the flag, and only downward, so it validates no session — whatever was
/// valid afterwards was valid before, and the targeted session no longer is.
pub proof fn lemma_invalidate_monotonic(s: Seq<Token>, user_id: u128, token_id: u128)
    ensures
        forall|u: u128, t: u128|
            session_valid(invalidated(s, user_id, token_id), u, t) ==> session_valid(s, u, t),
        !session_valid(invalidated(s, user_id, token_id), user_id, token_id),
{
    let post = invalidated(s, user_id, token_id);
    assert forall|u: u128, t: u128| session_valid(post, u, t) implies session_valid(s, u, t) by {
        let i = choose|i: int|
            0 <= i < post.len() && post[i].user_id == u && post[i].token_id == t
                && post[i].is_valid;
        assert(s[i].user_id == u && s[i].token_id == t && s[i].is_valid);
    }
    if session_valid(post, user_id, token_id) {
        let i = choose|i: int|
            0 <= i < post.len() && post[i].user_id == user_id && post[i].token_id == token_id
                && post[i].is_valid;
        assert(!post[i].is_valid);
    }
}

} // verus!
