//! Username rules: their form, and how often a username may change.

use vstd::prelude::*;
use vstd::arithmetic::div_mod::lemma_div_is_ordered_by_denominator;
use vstd::string::{StrSliceExecFns, StringSliceAdditionalSpecFns};
use regex::Regex;
use crate::text::{lower_of, text_option, to_lower};

verus! {

/// The characters a username may hold: letters, digits and underscores.
pub const USERNAME_PATTERN: &'static str = "^[a-zA-Z0-9_]+$";

/// The fewest bytes a username may have.
pub const USERNAME_MIN_LEN: usize = 3;

/// The most bytes a username may have.
pub const USERNAME_MAX_LEN: usize = 30;

/// How long a username stays fixed after a change, in days.
pub const USERNAME_COOLDOWN_DAYS: i64 = 30;

/// One day in milliseconds.
pub const DAY_MS: i64 = 86_400_000;

/// A request to open a profile for a wallet and its inbox.
pub struct CreateProfileRequest {
    pub wallet_address: String,
    pub inbox_id: String,
}

/// A request to claim a username for a wallet.
pub struct ClaimUsernameRequest {
    pub wallet_address: String,
    pub username: String,
}

/// A request to change a profile's fields; absent fields stay as they are.
pub struct UpdateProfileRequest {
    pub wallet_address: String,
    pub username: Option<String>,
    pub display_name: Option<String>,
    pub avatar_url: Option<String>,
    pub bio: Option<String>,
}

/// A profile as a search shows it.
pub struct SearchResult {
    pub wallet_address: String,
    pub inbox_id: String,
    pub username: Option<String>,
    pub display_name: Option<String>,
    pub avatar_url: Option<String>,
}

/// Whether a regular expression, once compiled, matches a text; `None` when
/// the expression does not compile.
pub uninterp spec fn regex_match(pattern: Seq<char>, text: Seq<char>) -> Option<bool>;

/// Why a username, or a change of it, was refused.
#[derive(Debug, Clone, Copy, PartialEq, Eq, Structural)]
pub enum UsernameError {
    TooShort,
    TooLong,
    InvalidCharacters,
    LeadingUnderscore,
    /// A change came too soon; the days still to wait.
    Cooldown(i64),
}

/// Relies on `regex::Regex::new` and `Regex::is_match`: whether the compiled
/// expression matches somewhere in the text.
#[verifier::external_body]
fn regex_is_match(pattern: &str, text: &str) -> (r: Option<bool>)
    ensures
        r == regex_match(pattern@, text@),
{
    Regex::new(pattern).ok().map(|re| re.is_match(text))
}

/// The verdict on a username of `len` bytes starting with `first`, given
/// whether the character pattern matched it.
pub open spec fn username_verdict(len: nat, first: Option<char>, charset_ok: bool) -> Result<(), UsernameError> {
    if len < USERNAME_MIN_LEN {
        Err(UsernameError::TooShort)
    } else if len > USERNAME_MAX_LEN {
        Err(UsernameError::TooLong)
    } else if !charset_ok {
        Err(UsernameError::InvalidCharacters)
    } else if first == Some('_') {
        Err(UsernameError::LeadingUnderscore)
    } else {
        Ok(())
    }
}

/// The first character of `s`, if any.
pub open spec fn first_char(s: Seq<char>) -> Option<char> {
    if s.len() > 0 {
        Some(s[0])
    } else {
        None
    }
}

/// The verdict on `username`, given whether its characters are all letters,
/// digits or underscores.
pub fn check_username(username: &str, charset_ok: bool) -> (r: Result<(), UsernameError>)
    ensures
        r == username_verdict(username.spec_bytes().len(), first_char(username@), charset_ok),
{
    let len = username.as_bytes().len();
    if len < USERNAME_MIN_LEN {
        return Err(UsernameError::TooShort);
    }
    if len > USERNAME_MAX_LEN {
        return Err(UsernameError::TooLong);
    }
    if !charset_ok {
        return Err(UsernameError::InvalidCharacters);
    }
    if username.unicode_len() > 0 && username.get_char(0) == '_' {
        return Err(UsernameError::LeadingUnderscore);
    }
    Ok(())
}

/// Checks the form of a username: 3 to 30 bytes of letters, digits and
/// underscores, not starting with an underscore. A pattern that does not
/// compile refuses every name.
pub fn validate_username(username: &str) -> (r: Result<(), UsernameError>)
    ensures
        r == username_verdict(
            username.spec_bytes().len(),
            first_char(username@),
            regex_match(USERNAME_PATTERN@, username@) == Some(true),
        ),
{
    let charset_ok = match regex_is_match(USERNAME_PATTERN, username) {
        Some(m) => m,
        None => false,
    };
    check_username(username, charset_ok)
}

/// What a username change asks for once its form is valid.
#[derive(Debug, Clone, Copy, PartialEq, Eq, Structural)]
pub enum UsernameChange {
    /// The name is the current one, up to case: nothing to store.
    Unchanged,
    /// The name may be stored once no other wallet holds it.
    CheckAvailability,
    /// The name may be stored without looking further.
    Store,
}

/// What a claim of `requested` asks for, given the profile's current
/// username, its last change and the time: the form is checked first, then,
/// for a profile that has a name, sameness and the cooldown; a new name must
/// be free.
pub open spec fn claim_spec(
    current: Option<Seq<char>>,
    requested: Seq<char>,
    requested_bytes: nat,
    charset_ok: bool,
    last_change: Option<i64>,
    now: int,
) -> Result<UsernameChange, UsernameError> {
    match username_verdict(requested_bytes, first_char(requested), charset_ok) {
        Err(e) => Err(e),
        Ok(_) => match current {
            Some(c) => if lower_of(c) == lower_of(requested) {
                Ok(UsernameChange::Unchanged)
            } else {
                match cooldown_spec(last_change, now) {
                    Err(e) => Err(e),
                    Ok(_) => Ok(UsernameChange::CheckAvailability),
                }
            },
            None => Ok(UsernameChange::CheckAvailability),
        },
    }
}

/// What a profile update that sets `requested` asks for: as a claim, except
/// that a profile without a name takes the new one without looking further,
/// and an unchanged name is stored as given.
pub open spec fn update_spec(
    current: Option<Seq<char>>,
    requested: Seq<char>,
    requested_bytes: nat,
    charset_ok: bool,
    last_change: Option<i64>,
    now: int,
) -> Result<UsernameChange, UsernameError> {
    match username_verdict(requested_bytes, first_char(requested), charset_ok) {
        Err(e) => Err(e),
        Ok(_) => match current {
            Some(c) => if lower_of(c) != lower_of(requested) {
                match cooldown_spec(last_change, now) {
                    Err(e) => Err(e),
                    Ok(_) => Ok(UsernameChange::CheckAvailability),
                }
            } else {
                Ok(UsernameChange::Store)
            },
            None => Ok(UsernameChange::Store),
        },
    }
}

/// Whether two names are the same up to case.
fn same_name(a: &str, b: &str) -> (r: bool)
    ensures
        r == (lower_of(a@) == lower_of(b@)),
{
    to_lower(a) == to_lower(b)
}

/// Decides a username claim at `now`.
pub fn plan_username_claim(
    current: Option<&str>,
    requested: &str,
    last_change: Option<i64>,
    now: i64,
) -> (r: Result<UsernameChange, UsernameError>)
    ensures
        r == claim_spec(
            text_option(current),
            requested@,
            requested.spec_bytes().len(),
            regex_match(USERNAME_PATTERN@, requested@) == Some(true),
            last_change,
            now as int,
        ),
{
    validate_username(requested)?;
    match current {
        Some(c) => {
            if same_name(c, requested) {
                Ok(UsernameChange::Unchanged)
            } else {
                can_change_username(last_change, now)?;
                Ok(UsernameChange::CheckAvailability)
            }
        },
        None => Ok(UsernameChange::CheckAvailability),
    }
}

/// Decides the username part of a profile update at `now`.
pub fn plan_profile_username_update(
    current: Option<&str>,
    requested: &str,
    last_change: Option<i64>,
    now: i64,
) -> (r: Result<UsernameChange, UsernameError>)
    ensures
        r == update_spec(
            text_option(current),
            requested@,
            requested.spec_bytes().len(),
            regex_match(USERNAME_PATTERN@, requested@) == Some(true),
            last_change,
            now as int,
        ),
{
    validate_username(requested)?;
    match current {
        Some(c) => {
            if !same_name(c, requested) {
                can_change_username(last_change, now)?;
                Ok(UsernameChange::CheckAvailability)
            } else {
                Ok(UsernameChange::Store)
            }
        },
        None => Ok(UsernameChange::Store),
    }
}

/// Whole days in `ms` milliseconds, rounded toward zero.
pub open spec fn whole_days(ms: int) -> int {
    if ms >= 0 {
        ms / DAY_MS as int
    } else {
        -((-ms) / DAY_MS as int)
    }
}

/// Whether a username last changed at `last_change` may change at `now`, and
/// if not, how many days remain.
pub open spec fn cooldown_spec(last_change: Option<i64>, now: int) -> Result<(), UsernameError> {
    match last_change {
        None => Ok(()),
        Some(last) => {
            let diff = now - last;
            if diff < USERNAME_COOLDOWN_DAYS * DAY_MS {
                Err(UsernameError::Cooldown((USERNAME_COOLDOWN_DAYS - whole_days(diff)) as i64))
            } else {
                Ok(())
            }
        },
    }
}

/// A username may change once every thirty days.
pub fn can_change_username(last_change: Option<i64>, now: i64) -> (r: Result<(), UsernameError>)
    ensures
        r == cooldown_spec(last_change, now as int),
        r matches Err(UsernameError::Cooldown(d)) ==> last_change matches Some(last) && d as int
            == USERNAME_COOLDOWN_DAYS - whole_days(now - last),
{
    match last_change {
        None => Ok(()),
        Some(last) => {
            let diff: i128 = now as i128 - last as i128;
            if diff < (USERNAME_COOLDOWN_DAYS as i128) * (DAY_MS as i128) {
                let days: i128 = if diff >= 0 {
                    diff / (DAY_MS as i128)
                } else {
                    let x: i128 = -diff;
                    proof {
                        lemma_div_is_ordered_by_denominator(x as int, 4, DAY_MS as int);
                    }
                    -(x / (DAY_MS as i128))
                };
                Err(UsernameError::Cooldown((USERNAME_COOLDOWN_DAYS as i128 - days) as i64))
            } else {
                Ok(())
            }
        },
    }
}

} // verus!
