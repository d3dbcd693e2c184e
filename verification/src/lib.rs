//! Verified core of the FREEOS swap canister: the rules that decide what is
//! requested from the PROTON chain, how each returned swap row drives minting,
//! and what the ledger calls are asked and answered.

pub mod json;
pub mod ledger;
pub mod principal;
pub mod proton;
pub mod swap;
pub mod text;

pub use ledger::{
    balance_failure_report, balance_request, ledger_canister, mint_report, transfer_report,
    transfer_request, Account, Memo, TransferArg, TransferOutcome,
};
pub use principal::{check_principal, InvalidPrincipal, PrincipalId, MAX_PRINCIPAL_BYTES};
pub use proton::{proton_account_to_check, ProtonResult};
pub use json::{JsonNumber, JsonValue};
pub use swap::{
    clean_dynamic_content, decide_row, http_failure_message, read_swap_response, row_actions, scan_row, swap_response_from_json,
    swap_table_request, unix_seconds_from_nanos, Header, HttpMethod, HttpReply, RowAction,
    SwapRequest, SwapResponse, SwapRow, SWAP_REQUEST_CYCLES,
};
pub use text::{amount_text, decimal_text, split_piece};
