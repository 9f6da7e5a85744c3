//! One-time challenge nonces, one per wallet, valid for five minutes.

use vstd::prelude::*;
use vstd::string::StringExecFns;
use crate::registry::Registry;
use crate::sources::{current_millis, random_u64};
use crate::text::{format_hex, hex_fixed, lower_of, to_lower};

verus! {

/// How long an issued nonce stays redeemable, in milliseconds.
pub const NONCE_TTL_MS: i64 = 300_000;

/// The text before the nonce in the message a wallet signs.
pub const CHALLENGE_PREFIX: &'static str = "Sign this message to authenticate with BlocChat Admin Dashboard.\n\nNonce: ";

/// The text after the nonce in the message a wallet signs.
pub const CHALLENGE_SUFFIX: &'static str = "\n\nThis signature will not trigger any blockchain transaction or cost gas fees.";

/// A nonce waiting to be redeemed, with the time it was issued.
pub struct NonceData {
    pub nonce: String,
    pub created_at: i64,
}

impl View for NonceData {
    /// The nonce's characters and its issue time.
    type V = (Seq<char>, int);

    open spec fn view(&self) -> (Seq<char>, int) {
        (self.nonce@, self.created_at as int)
    }
}

/// The pending nonces, keyed by lowercase wallet address.
pub type NonceStore = Registry<NonceData>;

/// Why a nonce could not be redeemed.
#[derive(Debug, Clone, Copy, PartialEq, Eq, Structural)]
pub enum NonceError {
    NotFound,
    Mismatch,
    Expired,
}

/// The message a wallet signs to answer the challenge `nonce`.
pub open spec fn challenge_text(nonce: Seq<char>) -> Seq<char> {
    CHALLENGE_PREFIX@ + nonce + CHALLENGE_SUFFIX@
}

/// A nonce issued at `created_at` is too old at `now`.
pub open spec fn nonce_expired(created_at: int, now: int) -> bool {
    now - created_at > NONCE_TTL_MS
}

/// The pending nonces after `nonce` is issued to `wallet` at `now`.
pub open spec fn issue_spec(
    m: Map<Seq<char>, (Seq<char>, int)>,
    wallet: Seq<char>,
    nonce: Seq<char>,
    now: int,
) -> Map<Seq<char>, (Seq<char>, int)> {
    m.insert(lower_of(wallet), (nonce, now))
}

/// The outcome of redeeming `nonce` for `wallet` at `now`, and the pending
/// nonces afterwards.
pub open spec fn redeem_spec(
    m: Map<Seq<char>, (Seq<char>, int)>,
    wallet: Seq<char>,
    nonce: Seq<char>,
    now: int,
) -> (Result<(), NonceError>, Map<Seq<char>, (Seq<char>, int)>) {
    let k = lower_of(wallet);
    if !m.contains_key(k) {
        (Err(NonceError::NotFound), m)
    } else if m[k].0 != nonce {
        (Err(NonceError::Mismatch), m)
    } else if nonce_expired(m[k].1, now) {
        (Err(NonceError::Expired), m.remove(k))
    } else {
        (Ok(()), m.remove(k))
    }
}

/// Sixteen lowercase hex digits: a 64-bit value as a nonce is written.
pub open spec fn hex_nonce(s: Seq<char>) -> bool {
    exists|n: nat| n < 0x1_0000_0000_0000_0000 && s == #[trigger] hex_fixed(n, 16)
}

/// A fresh nonce: a random 64-bit value as sixteen lowercase hex digits.
pub fn generate_nonce() -> (r: String)
    ensures
        hex_nonce(r@),
{
    let n = random_u64();
    format_hex(n, 16)
}

/// The message a wallet signs to answer the challenge `nonce`.
pub fn challenge_message(nonce: &str) -> (r: String)
    ensures
        r@ == challenge_text(nonce@),
{
    let head = String::from_str(CHALLENGE_PREFIX);
    head.concat(nonce).concat(CHALLENGE_SUFFIX)
}

/// Stores `nonce` for the wallet as issued at `now`, replacing any earlier one.
pub fn store_nonce_at(store: &mut NonceStore, wallet_address: &str, nonce: String, now: i64)
    requires
        old(store).wf(),
    ensures
        final(store).wf(),
        final(store)@ == issue_spec(old(store)@, wallet_address@, nonce@, now as int),
{
    let key = to_lower(wallet_address);
    store.insert(key, NonceData { nonce, created_at: now });
}

/// Stores `nonce` for the wallet as issued now, replacing any earlier one.
pub fn store_nonce(store: &mut NonceStore, wallet_address: &str, nonce: String)
    requires
        old(store).wf(),
    ensures
        final(store).wf(),
        exists|t: i64| final(store)@ == issue_spec(old(store)@, wallet_address@, nonce@, t as int),
{
    let now = current_millis();
    store_nonce_at(store, wallet_address, nonce, now);
}

/// Redeems `nonce` for the wallet at `now`: it must be the one stored and no
/// older than the time to live. Success and expiry both remove the record.
pub fn verify_nonce_at(store: &mut NonceStore, wallet_address: &str, nonce: &str, now: i64) -> (r:
    Result<(), NonceError>)
    requires
        old(store).wf(),
    ensures
        final(store).wf(),
        (r, final(store)@) == redeem_spec(old(store)@, wallet_address@, nonce@, now as int),
{
    let key = to_lower(wallet_address);
    let presented = nonce.to_owned();
    let (matches, created_at) = match store.get(&key) {
        None => {
            return Err(NonceError::NotFound);
        },
        Some(data) => (data.nonce == presented, data.created_at),
    };
    if !matches {
        return Err(NonceError::Mismatch);
    }
    let age = now as i128 - created_at as i128;
    store.remove(&key);
    if age > NONCE_TTL_MS as i128 {
        Err(NonceError::Expired)
    } else {
        Ok(())
    }
}

/// Redeems `nonce` for the wallet now, as `verify_nonce_at` does.
pub fn verify_nonce(store: &mut NonceStore, wallet_address: &str, nonce: &str) -> (r: Result<
    (),
    NonceError,
>)
    requires
        old(store).wf(),
    ensures
        final(store).wf(),
        exists|t: i64|
            (r, final(store)@) == redeem_spec(old(store)@, wallet_address@, nonce@, t as int),
{
    let now = current_millis();
    verify_nonce_at(store, wallet_address, nonce, now)
}

/// A nonce redeemed with the value it was issued with, before its time to
/// live runs out, is accepted; a second redemption of it finds nothing.
pub proof fn lemma_issue_then_redeem_once(
    m: Map<Seq<char>, (Seq<char>, int)>,
    wallet: Seq<char>,
    nonce: Seq<char>,
    issued_at: int,
    first: int,
    second: int,
)
    requires
        first - issued_at <= NONCE_TTL_MS,
    ensures
        redeem_spec(issue_spec(m, wallet, nonce, issued_at), wallet, nonce, first).0 is Ok,
        redeem_spec(
            redeem_spec(issue_spec(m, wallet, nonce, issued_at), wallet, nonce, first).1,
            wallet,
            nonce,
            second,
        ).0 == Err::<(), NonceError>(NonceError::NotFound),
{
}

/// Redeeming a wallet's nonce with any other value fails with `Mismatch` and
/// leaves the stored nonce in place.
pub proof fn lemma_wrong_nonce_keeps_record(
    m: Map<Seq<char>, (Seq<char>, int)>,
    wallet: Seq<char>,
    presented: Seq<char>,
    now: int,
)
    requires
        m.contains_key(lower_of(wallet)),
        presented != m[lower_of(wallet)].0,
    ensures
        redeem_spec(m, wallet, presented, now) == (Err::<(), NonceError>(NonceError::Mismatch), m),
{
}

/// Redeeming the right nonce after its time to live fails with `Expired` and
/// removes it, so that any later redemption finds nothing.
pub proof fn lemma_expired_nonce_removed(
    m: Map<Seq<char>, (Seq<char>, int)>,
    wallet: Seq<char>,
    now: int,
    later: int,
    again: Seq<char>,
)
    requires
        m.contains_key(lower_of(wallet)),
        nonce_expired(m[lower_of(wallet)].1, now),
    ensures
        redeem_spec(m, wallet, m[lower_of(wallet)].0, now) == (
            Err::<(), NonceError>(NonceError::Expired),
            m.remove(lower_of(wallet)),
        ),
        redeem_spec(m.remove(lower_of(wallet)), wallet, again, later).0 == Err::<(), NonceError>(
            NonceError::NotFound,
        ),
{
}

} // verus!
