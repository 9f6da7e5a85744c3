//! Admin sessions: opaque tokens that stand for a wallet for twenty-four hours.

use vstd::prelude::*;
use crate::nonce::{nonce_expired, NonceStore, NONCE_TTL_MS};
use crate::registry::Registry;
use crate::sources::{current_millis, random_bytes32};
use crate::text::{encode_hex, hex_of_bytes, lower_of, to_lower};

verus! {

/// How long a session lasts, in milliseconds.
pub const SESSION_TTL_MS: i64 = 86_400_000;

/// The latest creation time whose expiry time still fits in an `i64`.
pub const LATEST_SESSION_START: i64 = i64::MAX - SESSION_TTL_MS;

/// A live session: the wallet it stands for and its lifetime.
pub struct AdminSession {
    pub wallet_address: String,
    pub created_at: i64,
    pub expires_at: i64,
}

impl View for AdminSession {
    /// The wallet's characters, the creation time and the expiry time.
    type V = (Seq<char>, int, int);

    open spec fn view(&self) -> (Seq<char>, int, int) {
        (self.wallet_address@, self.created_at as int, self.expires_at as int)
    }
}

/// The live sessions, keyed by token.
pub type SessionStore = Registry<AdminSession>;

/// Why a session token was not accepted, or a session not created.
#[derive(Debug, Clone, Copy, PartialEq, Eq, Structural)]
pub enum SessionError {
    NotFound,
    Expired,
    ClockOutOfRange,
    TokenInUse,
}

/// The sessions after `token` is issued to `wallet` at `now`.
pub open spec fn session_created(
    m: Map<Seq<char>, (Seq<char>, int, int)>,
    wallet: Seq<char>,
    token: Seq<char>,
    now: int,
) -> Map<Seq<char>, (Seq<char>, int, int)> {
    m.insert(token, (lower_of(wallet), now, now + SESSION_TTL_MS))
}

/// The outcome of presenting `token` at `now`, and the sessions afterwards:
/// an expired session is dropped when it is seen.
pub open spec fn validate_spec(
    m: Map<Seq<char>, (Seq<char>, int, int)>,
    token: Seq<char>,
    now: int,
) -> (Result<Seq<char>, SessionError>, Map<Seq<char>, (Seq<char>, int, int)>) {
    if !m.contains_key(token) {
        (Err(SessionError::NotFound), m)
    } else if now > m[token].2 {
        (Err(SessionError::Expired), m.remove(token))
    } else {
        (Ok(m[token].0), m)
    }
}

/// `r` with its wallet read as characters.
pub open spec fn wallet_result(r: Result<String, SessionError>) -> Result<Seq<char>, SessionError> {
    match r {
        Ok(w) => Ok(w@),
        Err(e) => Err(e),
    }
}

/// A fresh session token: thirty-two random bytes as sixty-four hex digits.
pub fn generate_session_token() -> (r: String)
    ensures
        exists|b: Seq<u8>| b.len() == 32 && r@ == hex_of_bytes(b),
{
    let bytes = random_bytes32();
    encode_hex(bytes.as_slice())
}

/// Sixty-four lowercase hex digits: thirty-two bytes as a token is written.
pub open spec fn hex_token(t: Seq<char>) -> bool {
    exists|b: Seq<u8>| b.len() == 32 && t == #[trigger] hex_of_bytes(b)
}

/// The outcome of opening a session under `token` for `wallet` at `now`, and
/// the sessions afterwards: refused when the expiry time would not fit in an
/// `i64`, or when the token is already in use.
pub open spec fn create_spec(
    m: Map<Seq<char>, (Seq<char>, int, int)>,
    wallet: Seq<char>,
    token: Seq<char>,
    now: int,
) -> (Result<(), SessionError>, Map<Seq<char>, (Seq<char>, int, int)>) {
    if now > LATEST_SESSION_START {
        (Err(SessionError::ClockOutOfRange), m)
    } else if m.contains_key(token) {
        (Err(SessionError::TokenInUse), m)
    } else {
        (Ok(()), session_created(m, wallet, token, now))
    }
}

/// Opens a session under `token` for the wallet at `now`.
pub fn create_session_at(store: &mut SessionStore, wallet_address: &str, token: String, now: i64) -> (r:
    Result<String, SessionError>)
    requires
        old(store).wf(),
    ensures
        final(store).wf(),
        final(store)@ == create_spec(old(store)@, wallet_address@, token@, now as int).1,
        r is Ok <==> create_spec(old(store)@, wallet_address@, token@, now as int).0 is Ok,
        r matches Ok(t) ==> t@ == token@,
        r matches Err(e) ==> create_spec(old(store)@, wallet_address@, token@, now as int).0 == Err::<
            (),
            SessionError,
        >(e),
{
    if now > LATEST_SESSION_START {
        return Err(SessionError::ClockOutOfRange);
    }
    if store.get(&token).is_some() {
        return Err(SessionError::TokenInUse);
    }
    let session = AdminSession {
        wallet_address: to_lower(wallet_address),
        created_at: now,
        expires_at: now + SESSION_TTL_MS,
    };
    let r = token.clone();
    store.insert(token, session);
    Ok(r)
}

/// Opens a session for the wallet now, under a fresh random token: as
/// `create_session_at` says for the clock's reading and the token drawn.
pub fn create_session(store: &mut SessionStore, wallet_address: &str) -> (r: Result<String, SessionError>)
    requires
        old(store).wf(),
    ensures
        final(store).wf(),
        exists|now: int, token: Seq<char>|
            {
                let (outcome, after) = #[trigger] create_spec(old(store)@, wallet_address@, token, now);
                &&& hex_token(token)
                &&& final(store)@ == after
                &&& r is Ok <==> outcome is Ok
                &&& r matches Ok(t) ==> t@ == token
                &&& r matches Err(e) ==> outcome == Err::<(), SessionError>(e)
            },
        r matches Ok(t) ==> hex_token(t@),
{
    let token = generate_session_token();
    let now = current_millis();
    let ghost drawn = token@;
    let r = create_session_at(store, wallet_address, token, now);
    assert(create_spec(old(store)@, wallet_address@, drawn, now as int).1 == store@);
    r
}

/// The wallet that `token` stands for at `now`; an expired session is dropped.
pub fn verify_session_at(store: &mut SessionStore, token: &str, now: i64) -> (r: Result<String, SessionError>)
    requires
        old(store).wf(),
    ensures
        final(store).wf(),
        (wallet_result(r), final(store)@) == validate_spec(old(store)@, token@, now as int),
{
    let key = token.to_owned();
    let (wallet, expires_at) = match store.get(&key) {
        None => {
            return Err(SessionError::NotFound);
        },
        Some(session) => (session.wallet_address.clone(), session.expires_at),
    };
    if now > expires_at {
        store.remove(&key);
        return Err(SessionError::Expired);
    }
    Ok(wallet)
}

/// The wallet that `token` stands for now, as `verify_session_at` says.
pub fn verify_session(store: &mut SessionStore, token: &str) -> (r: Result<String, SessionError>)
    requires
        old(store).wf(),
    ensures
        final(store).wf(),
        exists|t: i64| (wallet_result(r), final(store)@) == validate_spec(old(store)@, token@, t as int),
{
    let now = current_millis();
    verify_session_at(store, token, now)
}

/// Ends the session under `token`, if there is one.
pub fn revoke_session(store: &mut SessionStore, token: &str)
    requires
        old(store).wf(),
    ensures
        final(store).wf(),
        final(store)@ == old(store)@.remove(token@),
{
    let key = token.to_owned();
    store.remove(&key);
}

/// Drops every session that has expired at `now`, and keeps the others.
pub fn sweep_sessions(store: &mut SessionStore, now: i64)
    requires
        old(store).wf(),
    ensures
        final(store).wf(),
        forall|k: Seq<char>|
            #[trigger] final(store)@.contains_key(k) <==> old(store)@.contains_key(k) && now
                <= old(store)@[k].2,
        forall|k: Seq<char>| #[trigger] final(store)@.contains_key(k) ==> final(store)@[k] == old(store)@[k],
{
    let keys = store.keys();
    let ghost start = store@;
    let mut i: usize = 0;
    while i < keys.len()
        invariant
            store.wf(),
            i <= keys@.len(),
            start == old(store)@,
            forall|k: Seq<char>| start.contains_key(k) <==> exists|j: int| 0 <= j < keys@.len() && #[trigger] keys@[j]@ == k,
            forall|k: Seq<char>|
                #[trigger] store@.contains_key(k) <==> start.contains_key(k) && !((exists|j: int|
                    0 <= j < i && #[trigger] keys@[j]@ == k) && now > start[k].2),
            forall|k: Seq<char>| #[trigger] store@.contains_key(k) ==> store@[k] == start[k],
        decreases keys@.len() - i,
    {
        let expired = match store.get(&keys[i]) {
            Some(session) => now > session.expires_at,
            None => false,
        };
        if expired {
            store.remove(&keys[i]);
        }
        i = i + 1;
    }
}

/// Drops every pending nonce that has expired at `now`, and keeps the others.
pub fn sweep_nonces(store: &mut NonceStore, now: i64)
    requires
        old(store).wf(),
    ensures
        final(store).wf(),
        forall|k: Seq<char>|
            #[trigger] final(store)@.contains_key(k) <==> old(store)@.contains_key(k) && !nonce_expired(
                old(store)@[k].1,
                now as int,
            ),
        forall|k: Seq<char>| #[trigger] final(store)@.contains_key(k) ==> final(store)@[k] == old(store)@[k],
{
    let keys = store.keys();
    let ghost start = store@;
    let mut i: usize = 0;
    while i < keys.len()
        invariant
            store.wf(),
            i <= keys@.len(),
            start == old(store)@,
            forall|k: Seq<char>| start.contains_key(k) <==> exists|j: int| 0 <= j < keys@.len() && #[trigger] keys@[j]@ == k,
            forall|k: Seq<char>|
                #[trigger] store@.contains_key(k) <==> start.contains_key(k) && !((exists|j: int|
                    0 <= j < i && #[trigger] keys@[j]@ == k) && nonce_expired(start[k].1, now as int)),
            forall|k: Seq<char>| #[trigger] store@.contains_key(k) ==> store@[k] == start[k],
        decreases keys@.len() - i,
    {
        let expired = match store.get(&keys[i]) {
            Some(data) => now as i128 - data.created_at as i128 > NONCE_TTL_MS as i128,
            None => false,
        };
        if expired {
            store.remove(&keys[i]);
        }
        i = i + 1;
    }
}

/// Drops the expired sessions and nonces at `now`.
pub fn cleanup_expired_at(sessions: &mut SessionStore, nonces: &mut NonceStore, now: i64)
    requires
        old(sessions).wf(),
        old(nonces).wf(),
    ensures
        final(sessions).wf(),
        final(nonces).wf(),
        sessions_swept(old(sessions)@, final(sessions)@, now as int),
        nonces_swept(old(nonces)@, final(nonces)@, now as int),
{
    sweep_sessions(sessions, now);
    sweep_nonces(nonces, now);
}

/// Drops the expired sessions and nonces, as the clock reads now.
pub fn cleanup_expired(sessions: &mut SessionStore, nonces: &mut NonceStore)
    requires
        old(sessions).wf(),
        old(nonces).wf(),
    ensures
        final(sessions).wf(),
        final(nonces).wf(),
        exists|now: int|
            #[trigger] sessions_swept(old(sessions)@, final(sessions)@, now) && nonces_swept(
                old(nonces)@,
                final(nonces)@,
                now,
            ),
{
    let now = current_millis();
    cleanup_expired_at(sessions, nonces, now);
    assert(sessions_swept(old(sessions)@, sessions@, now as int));
    assert(nonces_swept(old(nonces)@, nonces@, now as int));
}

/// `after` holds exactly the sessions of `before` that have not expired at `now`.
pub open spec fn sessions_swept(
    before: Map<Seq<char>, (Seq<char>, int, int)>,
    after: Map<Seq<char>, (Seq<char>, int, int)>,
    now: int,
) -> bool {
    &&& forall|k: Seq<char>| #[trigger] after.contains_key(k) <==> before.contains_key(k) && now <= before[k].2
    &&& forall|k: Seq<char>| #[trigger] after.contains_key(k) ==> after[k] == before[k]
}

/// `after` holds exactly the nonces of `before` that have not expired at `now`.
pub open spec fn nonces_swept(
    before: Map<Seq<char>, (Seq<char>, int)>,
    after: Map<Seq<char>, (Seq<char>, int)>,
    now: int,
) -> bool {
    &&& forall|k: Seq<char>|
        #[trigger] after.contains_key(k) <==> before.contains_key(k) && !nonce_expired(before[k].1, now)
    &&& forall|k: Seq<char>| #[trigger] after.contains_key(k) ==> after[k] == before[k]
}

/// A session is accepted, for the lowercase wallet it was opened for, at any
/// time up to its expiry, and refused as expired at any time after it.
pub proof fn lemma_session_lifetime(
    m: Map<Seq<char>, (Seq<char>, int, int)>,
    wallet: Seq<char>,
    token: Seq<char>,
    created: int,
    now: int,
)
    ensures
        now <= created + SESSION_TTL_MS ==> validate_spec(session_created(m, wallet, token, created), token, now).0
            == Ok::<Seq<char>, SessionError>(lower_of(wallet)),
        now > created + SESSION_TTL_MS ==> validate_spec(session_created(m, wallet, token, created), token, now).0
            == Err::<Seq<char>, SessionError>(SessionError::Expired),
{
}

/// Revoking twice is revoking once, revoking an unknown token changes
/// nothing, and no record is left under a revoked token.
pub proof fn lemma_revoke_idempotent(m: Map<Seq<char>, (Seq<char>, int, int)>, token: Seq<char>)
    ensures
        m.remove(token).remove(token) == m.remove(token),
        !m.contains_key(token) ==> m.remove(token) == m,
        !m.remove(token).contains_key(token),
{
    assert(m.remove(token).remove(token) =~= m.remove(token));
    if !m.contains_key(token) {
        assert(m.remove(token) =~= m);
    }
}

} // verus!
