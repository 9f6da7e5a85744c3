//! Token gates: per-conversation balance requirements combined by `AND` or
//! `OR`, and their evaluation against the balances a node reports.

use vstd::prelude::*;
use vstd::string::StrSliceExecFns;
use crate::amount::{amount_to_string, parse_amount, parsed_amount, Amount};
use crate::signature::{parse_address, parsed_address};
use crate::text::{decimal_text, string_option};

verus! {

/// The operator under which every requirement must be met.
pub const OPERATOR_AND: &'static str = "AND";

/// The operator under which one met requirement suffices.
pub const OPERATOR_OR: &'static str = "OR";

/// One stored requirement of a conversation's gate. A missing token address
/// stands for the chain's native coin.
pub struct TokenGate {
    pub conversation_id: String,
    pub token_address: Option<String>,
    pub token_symbol: String,
    pub min_amount: String,
    pub operator: String,
}

/// A requirement as a client states it.
pub struct TokenRequirement {
    pub token_address: Option<String>,
    pub token_symbol: String,
    pub min_amount: String,
}

/// A conversation's whole set of requirements and their operator.
pub struct CreateTokenGateRequest {
    pub requirements: Vec<TokenRequirement>,
    pub operator: String,
}

/// A requirement as it is shown to clients.
pub struct TokenRequirementResponse {
    pub token_address: Option<String>,
    pub token_symbol: String,
    pub min_amount: String,
}

/// A conversation's gate as it is shown to clients.
pub struct TokenGateResponse {
    pub requirements: Vec<TokenRequirementResponse>,
    pub operator: String,
}

/// A request to check a wallet against a conversation's gate.
pub struct VerifyTokenGateRequest {
    pub conversation_id: String,
    pub wallet_address: String,
}

/// How one requirement fared: its token, the minimum, the balance found,
/// and whether the balance reaches the minimum.
pub struct RequirementStatus {
    pub token: String,
    pub required: String,
    pub balance: String,
    pub met: bool,
}

/// The decision of a gate, with the detail of each requirement.
pub struct VerifyTokenGateResponse {
    pub allowed: bool,
    pub requirements_met: Vec<RequirementStatus>,
}

/// One balance to fetch: of a token contract (twenty address bytes), or of
/// the native coin, held by `holder`.
pub struct BalanceQuery {
    pub token: Option<Vec<u8>>,
    pub holder: Vec<u8>,
}

/// Why a gate could not be evaluated.
#[derive(Debug, Clone, Copy, PartialEq, Eq, Structural)]
pub enum GateError {
    InvalidAmount,
    InvalidAddress,
}

/// `AND` as characters.
pub open spec fn and_text() -> Seq<char> {
    seq!['A', 'N', 'D']
}

/// `OR` as characters.
pub open spec fn or_text() -> Seq<char> {
    seq!['O', 'R']
}

/// Whether requirements whose outcomes are `met` let a wallet in under
/// `operator`: all of them under `AND`, one under `OR`, none otherwise.
pub open spec fn gate_allows(operator: Seq<char>, met: Seq<bool>) -> bool {
    if operator == and_text() {
        forall|i: int| 0 <= i < met.len() ==> #[trigger] met[i]
    } else if operator == or_text() {
        exists|i: int| 0 <= i < met.len() && #[trigger] met[i]
    } else {
        false
    }
}

/// Every requirement's minimum reads as an amount.
pub open spec fn minimums_valid(gates: Seq<TokenGate>) -> bool {
    forall|i: int| 0 <= i < gates.len() ==> (#[trigger] parsed_amount(gates[i].min_amount@)) is Some
}

/// Whether `balance` reaches the minimum written as `min_amount`.
pub open spec fn requirement_met(balance: Amount, min_amount: Seq<char>) -> bool {
    balance.value() >= parsed_amount(min_amount)->Some_0
}

/// The outcomes of the requirements, one per gate.
pub open spec fn met_flags(gates: Seq<TokenGate>, balances: Seq<Amount>) -> Seq<bool> {
    Seq::new(gates.len(), |i: int| requirement_met(balances[i], gates[i].min_amount@))
}

/// The holder and every token address read as addresses.
pub open spec fn addresses_valid(gates: Seq<TokenGate>, wallet: Seq<char>) -> bool {
    &&& parsed_address(wallet) is Some
    &&& forall|i: int| 0 <= i < gates.len() ==> match #[trigger] gates[i].token_address {
        Some(t) => parsed_address(t@) is Some,
        None => true,
    }
}

/// Whether two texts are equal.
pub fn same_text(a: &str, b: &str) -> (r: bool)
    ensures
        r == (a@ == b@),
{
    if a.unicode_len() != b.unicode_len() {
        return false;
    }
    let r = crate::text::starts_with(a, b);
    assert(a@ =~= a@.subrange(0, b@.len() as int));
    r
}

/// Whether `balance` reaches `min_amount`, and the balance in decimal.
pub fn check_balance(balance: &Amount, min_amount: &str) -> (r: Result<(bool, String), GateError>)
    ensures
        parsed_amount(min_amount@) is None ==> r == Err::<(bool, String), GateError>(GateError::InvalidAmount),
        parsed_amount(min_amount@) matches Some(m) ==> r matches Ok((met, text)) && met == (balance.value()
            >= m) && text@ == decimal_text(balance.value()),
{
    let balance_text = amount_to_string(balance);
    let minimum = match parse_amount(min_amount) {
        None => {
            return Err(GateError::InvalidAmount);
        },
        Some(m) => m,
    };
    Ok((balance.at_least(&minimum), balance_text))
}

/// The balances to fetch for `gates`, one per requirement, in order; nothing
/// to fetch when there are no requirements.
pub fn balance_queries(gates: &Vec<TokenGate>, wallet_address: &str) -> (r: Result<
    Vec<BalanceQuery>,
    GateError,
>)
    ensures
        gates@.len() == 0 ==> (r matches Ok(q) && q@.len() == 0),
        gates@.len() > 0 ==> (r is Ok <==> addresses_valid(gates@, wallet_address@)),
        r matches Err(e) ==> e == GateError::InvalidAddress,
        r matches Ok(q) ==> q@.len() == gates@.len() && forall|i: int|
            0 <= i < q@.len() ==> parsed_address(wallet_address@) == Some(#[trigger] q@[i].holder@) && match
                gates@[i].token_address {
                Some(t) => (q@[i].token matches Some(a) && parsed_address(t@) == Some(a@)),
                None => q@[i].token is None,
            },
{
    let mut queries: Vec<BalanceQuery> = Vec::new();
    if gates.len() == 0 {
        return Ok(queries);
    }
    let holder = match parse_address(wallet_address) {
        None => {
            return Err(GateError::InvalidAddress);
        },
        Some(a) => a,
    };
    let mut i: usize = 0;
    while i < gates.len()
        invariant
            i <= gates@.len(),
            queries@.len() == i,
            parsed_address(wallet_address@) == Some(holder@),
            forall|j: int| 0 <= j < i ==> match #[trigger] gates@[j].token_address {
                Some(t) => parsed_address(t@) is Some,
                None => true,
            },
            forall|j: int|
                0 <= j < i ==> parsed_address(wallet_address@) == Some(#[trigger] queries@[j].holder@) && match
                    gates@[j].token_address {
                    Some(t) => (queries@[j].token matches Some(a) && parsed_address(t@) == Some(a@)),
                    None => queries@[j].token is None,
                },
        decreases gates@.len() - i,
    {
        let token = match &gates[i].token_address {
            None => None,
            Some(t) => match parse_address(t.as_str()) {
                None => {
                    return Err(GateError::InvalidAddress);
                },
                Some(a) => Some(a),
            },
        };
        queries.push(BalanceQuery { token, holder: holder.clone() });
        i = i + 1;
    }
    Ok(queries)
}

/// Evaluates a conversation's gate against the balances found, one per
/// requirement in order. No requirements let every wallet in; a minimum that
/// does not read as an amount fails the whole evaluation.
pub fn verify_token_gates(gates: &Vec<TokenGate>, balances: &Vec<Amount>) -> (r: Result<
    VerifyTokenGateResponse,
    GateError,
>)
    requires
        balances@.len() == gates@.len(),
    ensures
        gates@.len() == 0 ==> (r matches Ok(v) && v.allowed && v.requirements_met@.len() == 0),
        r is Err <==> !minimums_valid(gates@),
        r matches Err(e) ==> e == GateError::InvalidAmount,
        r matches Ok(v) ==> gates@.len() > 0 ==> v.allowed == gate_allows(
            gates@[0].operator@,
            met_flags(gates@, balances@),
        ),
        r matches Ok(v) ==> v.requirements_met@.len() == gates@.len() && forall|i: int|
            0 <= i < gates@.len() ==> {
                let s = #[trigger] v.requirements_met@[i];
                &&& s.token@ == gates@[i].token_symbol@
                &&& s.required@ == gates@[i].min_amount@
                &&& s.balance@ == decimal_text(balances@[i].value())
                &&& s.met == requirement_met(balances@[i], gates@[i].min_amount@)
            },
{
    let mut statuses: Vec<RequirementStatus> = Vec::new();
    if gates.len() == 0 {
        return Ok(VerifyTokenGateResponse { allowed: true, requirements_met: statuses });
    }
    let mut all_met = true;
    let mut any_met = false;
    let mut i: usize = 0;
    while i < gates.len()
        invariant
            balances@.len() == gates@.len(),
            i <= gates@.len(),
            statuses@.len() == i,
            forall|j: int| 0 <= j < i ==> (#[trigger] parsed_amount(gates@[j].min_amount@)) is Some,
            forall|j: int|
                0 <= j < i ==> {
                    let s = #[trigger] statuses@[j];
                    &&& s.token@ == gates@[j].token_symbol@
                    &&& s.required@ == gates@[j].min_amount@
                    &&& s.balance@ == decimal_text(balances@[j].value())
                    &&& s.met == requirement_met(balances@[j], gates@[j].min_amount@)
                },
            all_met == (forall|j: int| 0 <= j < i ==> #[trigger] statuses@[j].met),
            any_met == (exists|j: int| 0 <= j < i && #[trigger] statuses@[j].met),
        decreases gates@.len() - i,
    {
        let gate = &gates[i];
        let (met, balance) = match check_balance(&balances[i], gate.min_amount.as_str()) {
            Err(e) => {
                assert(!minimums_valid(gates@)) by {
                    assert(parsed_amount(gates@[i as int].min_amount@) is None);
                }
                return Err(e);
            },
            Ok(pair) => pair,
        };
        let ghost prev = statuses@;
        statuses.push(
            RequirementStatus {
                token: gate.token_symbol.clone(),
                required: gate.min_amount.clone(),
                balance,
                met,
            },
        );
        assert(forall|j: int| 0 <= j < i ==> statuses@[j] == prev[j]);
        assert(statuses@[i as int].met == met);
        proof {
            if all_met && met {
                assert forall|j: int| 0 <= j < i + 1 implies #[trigger] statuses@[j].met by {
                    if j < i {
                        assert(prev[j].met);
                    }
                }
            }
            if any_met {
                let j = choose|j: int| 0 <= j < i && #[trigger] prev[j].met;
                assert(statuses@[j].met);
            }
            if !any_met && !met {
                assert forall|j: int| 0 <= j < i + 1 implies !#[trigger] statuses@[j].met by {
                    if j < i {
                        assert(!prev[j].met);
                    }
                }
            }
        }
        if met {
            any_met = true;
        } else {
            all_met = false;
        }
        i = i + 1;
    }
    let ghost flags = met_flags(gates@, balances@);
    assert forall|j: int| 0 <= j < gates@.len() implies flags[j] == statuses@[j].met by {}
    let operator = gates[0].operator.as_str();
    proof {
        reveal_strlit("AND");
        reveal_strlit("OR");
        assert(OPERATOR_AND@ =~= and_text());
        assert(OPERATOR_OR@ =~= or_text());
    }
    let allowed = if same_text(operator, OPERATOR_AND) {
        assert(all_met == (forall|j: int| 0 <= j < flags.len() ==> #[trigger] flags[j])) by {
            if all_met {
                assert forall|j: int| 0 <= j < flags.len() implies #[trigger] flags[j] by {
                    assert(statuses@[j].met);
                }
            } else {
                let j = choose|j: int| 0 <= j < gates@.len() && !#[trigger] statuses@[j].met;
                assert(!flags[j]);
            }
        }
        all_met
    } else if same_text(operator, OPERATOR_OR) {
        assert(any_met == (exists|j: int| 0 <= j < flags.len() && #[trigger] flags[j])) by {
            if any_met {
                let j = choose|j: int| 0 <= j < gates@.len() && #[trigger] statuses@[j].met;
                assert(flags[j]);
            } else {
                assert forall|j: int| 0 <= j < flags.len() implies !#[trigger] flags[j] by {
                    assert(!statuses@[j].met);
                }
            }
        }
        any_met
    } else {
        false
    };
    Ok(VerifyTokenGateResponse { allowed, requirements_met: statuses })
}

/// A copy of an optional text.
fn copy_option(o: &Option<String>) -> (r: Option<String>)
    ensures
        string_option(r) == string_option(*o),
{
    match o {
        Some(s) => Some(s.clone()),
        None => None,
    }
}

impl TokenRequirementResponse {
    /// The requirement that a stored gate row holds.
    pub fn from_gate(gate: &TokenGate) -> (r: TokenRequirementResponse)
        ensures
            string_option(r.token_address) == string_option(gate.token_address),
            r.token_symbol@ == gate.token_symbol@,
            r.min_amount@ == gate.min_amount@,
    {
        TokenRequirementResponse {
            token_address: copy_option(&gate.token_address),
            token_symbol: gate.token_symbol.clone(),
            min_amount: gate.min_amount.clone(),
        }
    }
}

/// A conversation's gate as clients see it, from its stored rows: none when
/// there are no rows, else the rows' requirements under the first row's
/// operator.
pub fn gate_response(gates: &Vec<TokenGate>) -> (r: Option<TokenGateResponse>)
    ensures
        r is None <==> gates@.len() == 0,
        r matches Some(g) ==> g.operator@ == gates@[0].operator@ && g.requirements@.len() == gates@.len()
            && forall|i: int|
            0 <= i < gates@.len() ==> {
                let q = #[trigger] g.requirements@[i];
                &&& string_option(q.token_address) == string_option(gates@[i].token_address)
                &&& q.token_symbol@ == gates@[i].token_symbol@
                &&& q.min_amount@ == gates@[i].min_amount@
            },
{
    if gates.len() == 0 {
        return None;
    }
    let mut requirements: Vec<TokenRequirementResponse> = Vec::new();
    let mut i: usize = 0;
    while i < gates.len()
        invariant
            i <= gates@.len(),
            requirements@.len() == i,
            forall|j: int|
                0 <= j < i ==> {
                    let q = #[trigger] requirements@[j];
                    &&& string_option(q.token_address) == string_option(gates@[j].token_address)
                    &&& q.token_symbol@ == gates@[j].token_symbol@
                    &&& q.min_amount@ == gates@[j].min_amount@
                },
        decreases gates@.len() - i,
    {
        requirements.push(TokenRequirementResponse::from_gate(&gates[i]));
        i = i + 1;
    }
    Some(TokenGateResponse { requirements, operator: gates[0].operator.clone() })
}

/// The rows that replace a conversation's gate: one per requirement, in
/// order, each under the request's operator.
pub fn gate_rows(conversation_id: &str, req: &CreateTokenGateRequest) -> (r: Vec<TokenGate>)
    ensures
        r@.len() == req.requirements@.len(),
        forall|i: int|
            0 <= i < r@.len() ==> {
                let g = #[trigger] r@[i];
                &&& g.conversation_id@ == conversation_id@
                &&& string_option(g.token_address) == string_option(req.requirements@[i].token_address)
                &&& g.token_symbol@ == req.requirements@[i].token_symbol@
                &&& g.min_amount@ == req.requirements@[i].min_amount@
                &&& g.operator@ == req.operator@
            },
{
    let mut rows: Vec<TokenGate> = Vec::new();
    let mut i: usize = 0;
    while i < req.requirements.len()
        invariant
            i <= req.requirements@.len(),
            rows@.len() == i,
            forall|j: int|
                0 <= j < i ==> {
                    let g = #[trigger] rows@[j];
                    &&& g.conversation_id@ == conversation_id@
                    &&& string_option(g.token_address) == string_option(req.requirements@[j].token_address)
                    &&& g.token_symbol@ == req.requirements@[j].token_symbol@
                    &&& g.min_amount@ == req.requirements@[j].min_amount@
                    &&& g.operator@ == req.operator@
                },
        decreases req.requirements@.len() - i,
    {
        let requirement = &req.requirements[i];
        rows.push(
            TokenGate {
                conversation_id: conversation_id.to_owned(),
                token_address: copy_option(&requirement.token_address),
                token_symbol: requirement.token_symbol.clone(),
                min_amount: requirement.min_amount.clone(),
                operator: req.operator.clone(),
            },
        );
        i = i + 1;
    }
    rows
}

/// Under `AND`, one unmet requirement denies access; under `OR`, one met
/// requirement grants it.
pub proof fn lemma_operator_combination(met: Seq<bool>, i: int)
    requires
        0 <= i < met.len(),
    ensures
        !met[i] ==> !gate_allows(and_text(), met),
        met[i] ==> gate_allows(or_text(), met),
{
    assert(and_text() != or_text());
}

} // verus!
