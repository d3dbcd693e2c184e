//! Checks on PROTON account names taken from swap records.

use vstd::prelude::*;

verus! {

/// The answer to a PROTON account check: the account when it is usable,
/// otherwise a message saying why not.
#[derive(Clone, Debug)]
pub struct ProtonResult {
    pub ok: Option<String>,
    pub err: Option<String>,
}

/// A PROTON account name is usable when it is not empty.
pub open spec fn proton_account_usable(account: Seq<char>) -> bool {
    account.len() > 0
}

/// Whether the PROTON account name is non-empty.
fn is_valid_proton_account(account: &str) -> (r: bool)
    ensures
        r == proton_account_usable(account@),
{
    if account.is_empty() {
        return false;
    } else {
        return true;
    }
}

/// Checks a PROTON account name: a non-empty name comes back in `ok`, an empty
/// one gives `err` with the message "Invalid Proton account".
pub fn proton_account_to_check(account_to_check: &str) -> (r: ProtonResult)
    ensures
        proton_account_usable(account_to_check@) ==> r.ok.deep_view() == Some(account_to_check@)
            && r.err is None,
        !proton_account_usable(account_to_check@) ==> r.ok is None && r.err.deep_view() == Some(
            "Invalid Proton account"@,
        ),
        r.ok is Some <==> r.err is None,
{
    let valid = is_valid_proton_account(account_to_check);
    if valid {
        ProtonResult { ok: Some(String::from_str(account_to_check)), err: None }
    } else {
        ProtonResult { ok: None, err: Some(String::from_str("Invalid Proton account")) }
    }
}

/// Every non-empty PROTON account name is usable, and the empty name is not.
pub proof fn law_nonempty_names_are_usable(account: Seq<char>)
    ensures
        proton_account_usable(account) <==> account.len() > 0,
        proton_account_usable(account) <==> account != Seq::<char>::empty(),
{
    if account.len() > 0 {
        assert(account != Seq::<char>::empty());
    } else {
        assert(account =~= Seq::<char>::empty());
    }
}

} // verus!
