//! What the library asks of the ICRC-1 ledger and how it reports the answers.
//! The calls themselves are made by the canister around the library.

use vstd::prelude::*;
use crate::principal::{
    check_principal, parsed_principal, principal_result_view, principal_text_of, InvalidPrincipal,
    PrincipalId,
};
use crate::text::{decimal, decimal_text};

verus! {

/// A memo attached to a ledger transfer.
#[derive(Clone, Debug)]
pub struct Memo {
    pub memo: String,
}

/// An ICRC-1 account: an owner and an optional 32-byte subaccount.
#[derive(Debug)]
pub struct Account {
    pub owner: PrincipalId,
    pub subaccount: Option<[u8; 32]>,
}

/// The argument of `icrc1_transfer`. Token quantities are held as integers.
#[derive(Debug)]
pub struct TransferArg {
    pub from_subaccount: Option<[u8; 32]>,
    pub to: Account,
    pub fee: Option<u128>,
    pub created_at_time: Option<u64>,
    pub memo: Option<Memo>,
    pub amount: u128,
}

/// How an `icrc1_transfer` call ended, with the texts its report shows.
#[derive(Debug)]
pub enum TransferOutcome {
    /// The ledger accepted the transfer in the block with this index (decimal text).
    Completed { block_index: String },
    /// The ledger refused the transfer; `error` is the refusal as printed.
    Rejected { error: String },
    /// The call itself failed; `error` is the failure as printed.
    CallFailed { error: String },
}

/// The textual id of the FREEOS ICRC-1 ledger canister.
pub open spec fn ledger_canister_text() -> Seq<char> {
    "mxzaz-hqaaa-aaaar-qaada-cai"@
}

/// The principal of the FREEOS ICRC-1 ledger canister, decoded from its text.
pub fn ledger_canister() -> (r: Result<PrincipalId, InvalidPrincipal>)
    ensures
        principal_result_view(r) == parsed_principal(ledger_canister_text()),
{
    check_principal("mxzaz-hqaaa-aaaar-qaada-cai")
}

/// The account whose balance `icrc1_balance_of` is asked for: the principal's
/// default account.
pub fn balance_request(principal_to_check: &PrincipalId) -> (r: Account)
    ensures
        r.owner@ == principal_to_check@,
        r.subaccount is None,
{
    Account { owner: principal_to_check.duplicate(), subaccount: None }
}

/// The `icrc1_transfer` argument that sends `amount` tokens to the
/// recipient's default account, with no fee, memo, creation time or source
/// subaccount given.
pub fn transfer_request(recipient: &PrincipalId, amount: u64) -> (r: TransferArg)
    ensures
        r.to.owner@ == recipient@,
        r.to.subaccount is None,
        r.from_subaccount is None,
        r.fee is None,
        r.created_at_time is None,
        r.memo is None,
        r.amount == amount,
{
    TransferArg {
        from_subaccount: None,
        to: Account { owner: recipient.duplicate(), subaccount: None },
        fee: None,
        created_at_time: None,
        memo: None,
        amount: amount as u128,
    }
}

/// The report of a mint: the recipient's balance after it, in words and as
/// a number.
pub fn mint_report(recipient: &PrincipalId, new_balance: u64) -> (r: (String, u64))
    ensures
        r.0@ == "Balance of "@ + principal_text_of(recipient@) + " is now: "@ + decimal(
            new_balance as nat,
        ),
        r.1 == new_balance,
{
    let mut s = String::from_str("Balance of ");
    let who = recipient.to_text();
    s.append(who.as_str());
    s.append(" is now: ");
    let n = decimal_text(new_balance);
    s.append(n.as_str());
    (s, new_balance)
}

/// The report of a transfer once the recipient's balance has been read back.
pub open spec fn transfer_report_text(who: Seq<char>, outcome: TransferOutcome, balance: u64) -> Seq<
    char,
> {
    match outcome {
        TransferOutcome::Completed { block_index } => "Transfer successful for "@ + who
            + " with block index: "@ + block_index@ + ", New balance is now: "@ + decimal(
            balance as nat,
        ),
        TransferOutcome::Rejected { error } => "Transfer failed with error: "@ + error@
            + ", balance of "@ + who + " remains at: "@ + decimal(balance as nat),
        TransferOutcome::CallFailed { error } => "Inter-canister call failed: "@ + error@
            + ", balance of "@ + who + " remains at: "@ + decimal(balance as nat),
    }
}

/// The report of a transfer to `recipient`, given how the ledger call ended
/// and the balance read afterwards; the number returned is that balance.
pub fn transfer_report(recipient: &PrincipalId, outcome: &TransferOutcome, balance: u64) -> (r: (
    String,
    u64,
))
    ensures
        r.0@ == transfer_report_text(principal_text_of(recipient@), *outcome, balance),
        r.1 == balance,
{
    let who = recipient.to_text();
    let n = decimal_text(balance);
    let mut s;
    match outcome {
        TransferOutcome::Completed { block_index } => {
            s = String::from_str("Transfer successful for ");
            s.append(who.as_str());
            s.append(" with block index: ");
            s.append(block_index.as_str());
            s.append(", New balance is now: ");
            s.append(n.as_str());
        },
        TransferOutcome::Rejected { error } => {
            s = String::from_str("Transfer failed with error: ");
            s.append(error.as_str());
            s.append(", balance of ");
            s.append(who.as_str());
            s.append(" remains at: ");
            s.append(n.as_str());
        },
        TransferOutcome::CallFailed { error } => {
            s = String::from_str("Inter-canister call failed: ");
            s.append(error.as_str());
            s.append(", balance of ");
            s.append(who.as_str());
            s.append(" remains at: ");
            s.append(n.as_str());
        },
    }
    (s, balance)
}

/// The report of a failed balance query: the failure as printed, and a
/// balance of zero.
pub fn balance_failure_report(error: &str) -> (r: (String, u64))
    ensures
        r.0@ == "Balance query failed: "@ + error@,
        r.1 == 0,
{
    let mut s = String::from_str("Balance query failed: ");
    s.append(error);
    (s, 0)
}

/// Every transfer report ends with `": "` and the decimal rendering of the
/// balance it returns, names the recipient, and opens with the words of its
/// outcome.
pub proof fn law_transfer_report_shows_balance(who: Seq<char>, outcome: TransferOutcome, balance: u64)
    ensures
        ({
            let t = transfer_report_text(who, outcome, balance);
            let d = decimal(balance as nat);
            &&& t.len() >= d.len() + 2
            &&& t.subrange(t.len() - d.len(), t.len() as int) == d
            &&& t[t.len() - d.len() - 2] == ':'
            &&& t[t.len() - d.len() - 1] == ' '
        }),
        outcome matches TransferOutcome::Completed { block_index } ==> transfer_report_text(
            who,
            outcome,
            balance,
        ).take(24 + who.len() as int) == "Transfer successful for "@ + who,
{
    let t = transfer_report_text(who, outcome, balance);
    let d = decimal(balance as nat);
    reveal_strlit("Transfer successful for ");
    reveal_strlit(", New balance is now: ");
    reveal_strlit(" remains at: ");
    match outcome {
        TransferOutcome::Completed { block_index } => {
            let p = "Transfer successful for "@ + who + " with block index: "@ + block_index@
                + ", New balance is now: "@;
            assert(t == p + d);
            assert(t.subrange(t.len() - d.len(), t.len() as int) =~= d);
            assert(t[t.len() - d.len() - 2] == p[p.len() - 2]);
            assert(t[t.len() - d.len() - 1] == p[p.len() - 1]);
            assert(t.take(24 + who.len() as int) =~= "Transfer successful for "@ + who);
        },
        TransferOutcome::Rejected { error } => {
            let p = "Transfer failed with error: "@ + error@ + ", balance of "@ + who
                + " remains at: "@;
            assert(t == p + d);
            assert(t.subrange(t.len() - d.len(), t.len() as int) =~= d);
            assert(t[t.len() - d.len() - 2] == p[p.len() - 2]);
            assert(t[t.len() - d.len() - 1] == p[p.len() - 1]);
        },
        TransferOutcome::CallFailed { error } => {
            let p = "Inter-canister call failed: "@ + error@ + ", balance of "@ + who
                + " remains at: "@;
            assert(t == p + d);
            assert(t.subrange(t.len() - d.len(), t.len() as int) =~= d);
            assert(t[t.len() - d.len() - 2] == p[p.len() - 2]);
            assert(t[t.len() - d.len() - 1] == p[p.len() - 1]);
        },
    }
}

} // verus!
