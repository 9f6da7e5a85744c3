//! The authentication flow: the admin whitelist, challenges, sign-in,
//! session checks, logout, and the guard in front of protected operations.

use vstd::prelude::*;
use vstd::string::StrSliceExecFns;
use vstd::utf8::encode_utf8;
use crate::nonce::{
    challenge_message, challenge_text, generate_nonce, hex_nonce, issue_spec, redeem_spec, store_nonce_at,
    verify_nonce_at, NonceError, NonceStore,
};
use crate::session::{
    create_session_at, create_spec, generate_session_token, hex_token, revoke_session,
    validate_spec, verify_session_at, SessionError, SessionStore,
};
use crate::signature::{verify_signature, verify_spec, SignatureError};
use crate::sources::current_millis;
use crate::text::{lower_of, starts_with, string_option, text_option, to_lower, trim, trim_of};

verus! {

/// What precedes the token in an authorization header.
pub const BEARER_PREFIX: &'static str = "Bearer ";

/// The cookie that carries the session token.
pub const SESSION_COOKIE: &'static str = "admin_session";

/// A request for a challenge.
pub struct NonceRequest {
    pub wallet_address: String,
}

/// A challenge: the nonce and the exact message to sign.
pub struct NonceResponse {
    pub nonce: String,
    pub message: String,
}

/// A signed answer to a challenge.
pub struct AuthRequest {
    pub wallet_address: String,
    pub signature: String,
    pub nonce: String,
}

/// The answer to a sign-in: the session token and wallet on success.
pub struct AuthResponse {
    pub success: bool,
    pub session_token: Option<String>,
    pub wallet_address: Option<String>,
}

/// Whether a credential stands for a live session, and for which wallet.
pub struct AuthStatus {
    pub authenticated: bool,
    pub wallet_address: Option<String>,
}

/// Why a sign-in was refused.
#[derive(Debug, Clone, Copy, PartialEq, Eq, Structural)]
pub enum AuthFailure {
    /// The wallet is not on the admin whitelist.
    Forbidden,
    /// The nonce was missing, wrong or expired.
    BadNonce(NonceError),
    /// The signature or the address could not be read, or no signer recovered.
    BadSignature(SignatureError),
    /// The signature is valid but made by another key.
    Unauthorized,
    /// No session could be opened.
    SessionUnavailable,
}

/// Why a protected operation was not let through.
#[derive(Debug, Clone, Copy, PartialEq, Eq, Structural)]
pub enum GuardRejection {
    MissingCredential,
    InvalidSession(SessionError),
}

impl AuthFailure {
    /// The HTTP status that reports this failure.
    pub fn status_code(&self) -> (r: u16)
        ensures
            r == match *self {
                AuthFailure::Forbidden => 403u16,
                AuthFailure::BadNonce(_) => 400,
                AuthFailure::BadSignature(_) => 400,
                AuthFailure::Unauthorized => 401,
                AuthFailure::SessionUnavailable => 500,
            },
    {
        match self {
            AuthFailure::Forbidden => 403,
            AuthFailure::BadNonce(_) => 400,
            AuthFailure::BadSignature(_) => 400,
            AuthFailure::Unauthorized => 401,
            AuthFailure::SessionUnavailable => 500,
        }
    }
}

/// Whether `wallet` is on the whitelist, comparing lowercase forms.
pub open spec fn admin_listed(wallet: Seq<char>, admins: Seq<String>) -> bool {
    exists|i: int| 0 <= i < admins.len() && lower_of(#[trigger] admins[i]@) == lower_of(wallet)
}

/// The comma-separated pieces of `s`; a text without commas is one piece.
pub open spec fn comma_pieces(s: Seq<char>) -> Seq<Seq<char>>
    decreases s.len(),
{
    if s.len() == 0 {
        seq![Seq::<char>::empty()]
    } else {
        let init = comma_pieces(s.drop_last());
        if s.last() == ',' {
            init.push(Seq::empty())
        } else {
            init.update(init.len() - 1, init.last().push(s.last()))
        }
    }
}

/// The whitelist entries of `pieces`: each trimmed and lowercased, empty
/// ones left out.
pub open spec fn admin_entries(pieces: Seq<Seq<char>>) -> Seq<Seq<char>>
    decreases pieces.len(),
{
    if pieces.len() == 0 {
        Seq::empty()
    } else {
        let e = lower_of(trim_of(pieces.last()));
        admin_entries(pieces.drop_last()) + if e.len() > 0 {
            seq![e]
        } else {
            Seq::empty()
        }
    }
}

/// The token a request presents: the rest of an authorization header that
/// starts with `Bearer `, else the session cookie.
pub open spec fn presented_token(authorization: Option<Seq<char>>, cookie: Option<Seq<char>>) -> Option<
    Seq<char>,
> {
    match authorization {
        Some(h) => if BEARER_PREFIX@.len() <= h.len() && h.subrange(0, BEARER_PREFIX@.len() as int)
            == BEARER_PREFIX@ {
            Some(h.subrange(BEARER_PREFIX@.len() as int, h.len() as int))
        } else {
            cookie
        },
        None => cookie,
    }
}

/// The outcome of a sign-in at `now`, and the nonces and sessions afterwards.
/// The whitelist is checked before the nonce is touched, and the message
/// checked is rebuilt from the redeemed nonce.
pub open spec fn authenticate_spec(
    admins: Seq<String>,
    nonces: Map<Seq<char>, (Seq<char>, int)>,
    sessions: Map<Seq<char>, (Seq<char>, int, int)>,
    wallet: Seq<char>,
    nonce: Seq<char>,
    signature: Seq<char>,
    now: int,
    token: Seq<char>,
) -> (Result<(), AuthFailure>, Map<Seq<char>, (Seq<char>, int)>, Map<Seq<char>, (Seq<char>, int, int)>) {
    if !admin_listed(wallet, admins) {
        (Err(AuthFailure::Forbidden), nonces, sessions)
    } else {
        let (redeemed, after) = redeem_spec(nonces, wallet, nonce, now);
        match redeemed {
            Err(e) => (Err(AuthFailure::BadNonce(e)), after, sessions),
            Ok(_) => match verify_spec(
                lower_of(wallet),
                encode_utf8(challenge_text(nonce)),
                signature,
            ) {
                Err(e) => (Err(AuthFailure::BadSignature(e)), after, sessions),
                Ok(false) => (Err(AuthFailure::Unauthorized), after, sessions),
                Ok(true) => match create_spec(sessions, wallet, token, now) {
                    (Ok(_), opened) => (Ok(()), after, opened),
                    (Err(_), _) => (Err(AuthFailure::SessionUnavailable), after, sessions),
                },
            },
        }
    }
}

/// Whether the wallet is on the admin whitelist, comparing lowercase forms.
pub fn is_admin(wallet_address: &str, admin_addresses: &[String]) -> (r: bool)
    ensures
        r == admin_listed(wallet_address@, admin_addresses@),
{
    let wallet = to_lower(wallet_address);
    let mut i: usize = 0;
    while i < admin_addresses.len()
        invariant
            i <= admin_addresses@.len(),
            wallet@ == lower_of(wallet_address@),
            forall|j: int| 0 <= j < i ==> lower_of(#[trigger] admin_addresses@[j]@) != lower_of(wallet_address@),
        decreases admin_addresses@.len() - i,
    {
        let entry = to_lower(admin_addresses[i].as_str());
        if entry == wallet {
            return true;
        }
        i = i + 1;
    }
    false
}

/// The whitelist from its comma-separated form: entries trimmed and
/// lowercased, empty ones left out.
pub fn parse_admin_addresses(raw: &str) -> (r: Vec<String>)
    ensures
        r@.len() == admin_entries(comma_pieces(raw@)).len(),
        forall|i: int| 0 <= i < r@.len() ==> #[trigger] r@[i]@ == admin_entries(comma_pieces(raw@))[i],
{
    let n = raw.unicode_len();
    let mut out: Vec<String> = Vec::new();
    let ghost mut done: Seq<Seq<char>> = Seq::empty();
    let mut start: usize = 0;
    let mut i: usize = 0;
    assert(raw@.subrange(0, 0) =~= Seq::<char>::empty());
    assert(done.push(raw@.subrange(0, 0)) =~= seq![Seq::<char>::empty()]);
    while i < n
        invariant
            n == raw@.len(),
            start <= i <= n,
            comma_pieces(raw@.subrange(0, i as int)) == done.push(raw@.subrange(start as int, i as int)),
            out@.len() == admin_entries(done).len(),
            forall|j: int| 0 <= j < out@.len() ==> #[trigger] out@[j]@ == admin_entries(done)[j],
        decreases n - i,
    {
        let ghost prefix = raw@.subrange(0, i as int);
        let ghost next = raw@.subrange(0, i + 1);
        assert(next.drop_last() =~= prefix);
        let c = raw.get_char(i);
        if c == ',' {
            let piece = raw.substring_char(start, i);
            add_admin_entry(&mut out, piece, Ghost(done));
            proof {
                done = done.push(piece@);
                assert(raw@.subrange((i + 1) as int, (i + 1) as int) =~= Seq::<char>::empty());
            }
            start = i + 1;
        } else {
            proof {
                assert(raw@.subrange(start as int, i + 1) =~= raw@.subrange(start as int, i as int).push(c));
            }
        }
        i = i + 1;
    }
    assert(raw@.subrange(0, n as int) =~= raw@);
    let piece = raw.substring_char(start, n);
    add_admin_entry(&mut out, piece, Ghost(done));
    out
}

/// Appends the whitelist entry of `piece`, if it has one.
fn add_admin_entry(out: &mut Vec<String>, piece: &str, Ghost(done): Ghost<Seq<Seq<char>>>)
    requires
        old(out)@.len() == admin_entries(done).len(),
        forall|j: int| 0 <= j < old(out)@.len() ==> #[trigger] old(out)@[j]@ == admin_entries(done)[j],
    ensures
        final(out)@.len() == admin_entries(done.push(piece@)).len(),
        forall|j: int|
            0 <= j < final(out)@.len() ==> #[trigger] final(out)@[j]@ == admin_entries(done.push(piece@))[j],
{
    assert(done.push(piece@).drop_last() =~= done);
    let entry = to_lower(trim(piece));
    if entry.as_str().unicode_len() > 0 {
        out.push(entry);
    }
}

/// The token a request presents, from its authorization header and its
/// session cookie.
pub fn extract_token(authorization: Option<&str>, cookie: Option<&str>) -> (r: Option<String>)
    ensures
        string_option(r) == presented_token(text_option(authorization), text_option(cookie)),
{
    if let Some(header) = authorization {
        if starts_with(header, BEARER_PREFIX) {
            let rest = header.substring_char(BEARER_PREFIX.unicode_len(), header.unicode_len());
            return Some(rest.to_owned());
        }
    }
    match cookie {
        Some(c) => Some(c.to_owned()),
        None => None,
    }
}

/// Issues a challenge to the wallet at `now` with the given nonce.
pub fn request_challenge_at(nonces: &mut NonceStore, wallet_address: &str, nonce: String, now: i64) -> (r:
    NonceResponse)
    requires
        old(nonces).wf(),
    ensures
        final(nonces).wf(),
        final(nonces)@ == issue_spec(old(nonces)@, wallet_address@, nonce@, now as int),
        r.nonce@ == nonce@,
        r.message@ == challenge_text(nonce@),
{
    let message = challenge_message(nonce.as_str());
    let issued = nonce.clone();
    store_nonce_at(nonces, wallet_address, nonce, now);
    NonceResponse { nonce: issued, message }
}

/// Issues a fresh random challenge to the wallet now.
pub fn request_challenge(nonces: &mut NonceStore, wallet_address: &str) -> (r: NonceResponse)
    requires
        old(nonces).wf(),
    ensures
        final(nonces).wf(),
        exists|t: int| final(nonces)@ == #[trigger] issue_spec(old(nonces)@, wallet_address@, r.nonce@, t),
        hex_nonce(r.nonce@),
        r.message@ == challenge_text(r.nonce@),
{
    let nonce = generate_nonce();
    let now = current_millis();
    let r = request_challenge_at(nonces, wallet_address, nonce, now);
    assert(nonces@ == issue_spec(old(nonces)@, wallet_address@, r.nonce@, now as int));
    r
}

/// Signs a wallet in at `now`: whitelist, then nonce, then signature over
/// the rebuilt challenge; on success a session opens under `token`.
pub fn authenticate_at(
    sessions: &mut SessionStore,
    nonces: &mut NonceStore,
    admin_addresses: &[String],
    req: &AuthRequest,
    now: i64,
    token: String,
) -> (r: Result<AuthResponse, AuthFailure>)
    requires
        old(sessions).wf(),
        old(nonces).wf(),
    ensures
        final(sessions).wf(),
        final(nonces).wf(),
        ({
            let (outcome, n, s) = authenticate_spec(
                admin_addresses@,
                old(nonces)@,
                old(sessions)@,
                req.wallet_address@,
                req.nonce@,
                req.signature@,
                now as int,
                token@,
            );
            &&& final(nonces)@ == n
            &&& final(sessions)@ == s
            &&& r is Ok <==> outcome is Ok
            &&& r matches Err(e) ==> outcome == Err::<(), AuthFailure>(e)
        }),
        r matches Ok(resp) ==> resp.success && (resp.session_token matches Some(t) && t@ == token@)
            && (resp.wallet_address matches Some(w) && w@ == lower_of(req.wallet_address@)),
{
    let wallet = to_lower(req.wallet_address.as_str());
    if !is_admin(req.wallet_address.as_str(), admin_addresses) {
        return Err(AuthFailure::Forbidden);
    }
    if let Err(e) = verify_nonce_at(nonces, req.wallet_address.as_str(), req.nonce.as_str(), now) {
        return Err(AuthFailure::BadNonce(e));
    }
    let message = challenge_message(req.nonce.as_str());
    match verify_signature(wallet.as_str(), message.as_str(), req.signature.as_str()) {
        Err(e) => Err(AuthFailure::BadSignature(e)),
        Ok(false) => Err(AuthFailure::Unauthorized),
        Ok(true) => {
            match create_session_at(sessions, req.wallet_address.as_str(), token, now) {
                Ok(t) => Ok(AuthResponse { success: true, session_token: Some(t), wallet_address: Some(wallet) }),
                Err(_) => Err(AuthFailure::SessionUnavailable),
            }
        },
    }
}

/// Signs a wallet in now, opening a session under a fresh random token.
pub fn authenticate(
    sessions: &mut SessionStore,
    nonces: &mut NonceStore,
    admin_addresses: &[String],
    req: &AuthRequest,
) -> (r: Result<AuthResponse, AuthFailure>)
    requires
        old(sessions).wf(),
        old(nonces).wf(),
    ensures
        final(sessions).wf(),
        final(nonces).wf(),
        exists|now: int, token: Seq<char>|
            {
                let (outcome, n, s) = #[trigger] authenticate_spec(
                    admin_addresses@,
                    old(nonces)@,
                    old(sessions)@,
                    req.wallet_address@,
                    req.nonce@,
                    req.signature@,
                    now,
                    token,
                );
                &&& hex_token(token)
                &&& final(nonces)@ == n
                &&& final(sessions)@ == s
                &&& r is Ok <==> outcome is Ok
                &&& r matches Err(e) ==> outcome == Err::<(), AuthFailure>(e)
                &&& r matches Ok(resp) ==> (resp.session_token matches Some(t) && t@ == token)
            },
        r matches Ok(resp) ==> resp.success && (resp.wallet_address matches Some(w) && w@ == lower_of(
            req.wallet_address@,
        )),
        r matches Ok(resp) ==> (resp.session_token matches Some(t) && hex_token(t@)),
{
    let token = generate_session_token();
    let now = current_millis();
    let ghost t = token@;
    let r = authenticate_at(sessions, nonces, admin_addresses, req, now, token);
    assert(authenticate_spec(
        admin_addresses@,
        old(nonces)@,
        old(sessions)@,
        req.wallet_address@,
        req.nonce@,
        req.signature@,
        now as int,
        t,
    ).1 == nonces@);
    r
}

/// Whether `token` stands for a live session at `now`; an expired session is
/// dropped, and no credential means not signed in.
pub fn check_auth_at(sessions: &mut SessionStore, token: Option<&str>, now: i64) -> (r: AuthStatus)
    requires
        old(sessions).wf(),
    ensures
        final(sessions).wf(),
        token is None ==> !r.authenticated && r.wallet_address is None && final(sessions)@ == old(sessions)@,
        token matches Some(t) ==> {
            let (v, s) = validate_spec(old(sessions)@, t@, now as int);
            &&& final(sessions)@ == s
            &&& r.authenticated == v is Ok
            &&& v matches Ok(w) ==> (r.wallet_address matches Some(x) && x@ == w)
            &&& v is Err ==> r.wallet_address is None
        },
{
    match token {
        None => AuthStatus { authenticated: false, wallet_address: None },
        Some(t) => match verify_session_at(sessions, t, now) {
            Ok(wallet) => AuthStatus { authenticated: true, wallet_address: Some(wallet) },
            Err(_) => AuthStatus { authenticated: false, wallet_address: None },
        },
    }
}

/// Ends the session that `token` stands for, if any; logging out always
/// succeeds.
pub fn logout(sessions: &mut SessionStore, token: Option<&str>)
    requires
        old(sessions).wf(),
    ensures
        final(sessions).wf(),
        token is None ==> final(sessions)@ == old(sessions)@,
        token matches Some(t) ==> final(sessions)@ == old(sessions)@.remove(t@),
{
    if let Some(t) = token {
        revoke_session(sessions, t);
    }
}

/// The wallet on whose behalf a protected operation may run at `now`, or why
/// it may not: no credential, or one that is unknown or expired.
pub fn guard_request_at(sessions: &mut SessionStore, token: Option<&str>, now: i64) -> (r: Result<
    String,
    GuardRejection,
>)
    requires
        old(sessions).wf(),
    ensures
        final(sessions).wf(),
        token is None ==> r == Err::<String, GuardRejection>(GuardRejection::MissingCredential)
            && final(sessions)@ == old(sessions)@,
        token matches Some(t) ==> {
            let (v, s) = validate_spec(old(sessions)@, t@, now as int);
            &&& final(sessions)@ == s
            &&& v matches Ok(w) ==> (r matches Ok(x) && x@ == w)
            &&& v matches Err(e) ==> r == Err::<String, GuardRejection>(GuardRejection::InvalidSession(e))
        },
{
    match token {
        None => Err(GuardRejection::MissingCredential),
        Some(t) => match verify_session_at(sessions, t, now) {
            Ok(wallet) => Ok(wallet),
            Err(e) => Err(GuardRejection::InvalidSession(e)),
        },
    }
}

/// The wallet on whose behalf a protected operation may run now.
pub fn guard_request(sessions: &mut SessionStore, token: Option<&str>) -> (r: Result<String, GuardRejection>)
    requires
        old(sessions).wf(),
    ensures
        final(sessions).wf(),
        token is None ==> r == Err::<String, GuardRejection>(GuardRejection::MissingCredential),
        token matches Some(t) ==> exists|now: int| {
            let (v, s) = #[trigger] validate_spec(old(sessions)@, t@, now);
            &&& final(sessions)@ == s
            &&& v matches Ok(w) ==> (r matches Ok(x) && x@ == w)
            &&& v matches Err(e) ==> r == Err::<String, GuardRejection>(GuardRejection::InvalidSession(e))
        },
{
    let now = current_millis();
    let r = guard_request_at(sessions, token, now);
    proof {
        if let Some(t) = token {
            let _ = validate_spec(old(sessions)@, t@, now as int);
        }
    }
    r
}

/// After a sign-in opens a session under `token`, that token is accepted
/// for the lowercase wallet until the session expires; once logged out, it
/// is unknown.
pub proof fn lemma_sign_in_then_check_then_logout(
    admins: Seq<String>,
    nonces: Map<Seq<char>, (Seq<char>, int)>,
    sessions: Map<Seq<char>, (Seq<char>, int, int)>,
    wallet: Seq<char>,
    nonce: Seq<char>,
    signature: Seq<char>,
    now: int,
    token: Seq<char>,
    later: int,
)
    requires
        authenticate_spec(admins, nonces, sessions, wallet, nonce, signature, now, token).0 is Ok,
        later <= now + crate::session::SESSION_TTL_MS,
    ensures
        validate_spec(
            authenticate_spec(admins, nonces, sessions, wallet, nonce, signature, now, token).2,
            token,
            later,
        ).0 == Ok::<Seq<char>, SessionError>(lower_of(wallet)),
        validate_spec(
            authenticate_spec(admins, nonces, sessions, wallet, nonce, signature, now, token).2.remove(token),
            token,
            later,
        ).0 == Err::<Seq<char>, SessionError>(SessionError::NotFound),
{
}
} // verus!
