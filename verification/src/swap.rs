//! The swap-table request sent to the PROTON chain, the cleaning of its
//! replies, and the rules that turn the returned rows into mints.

use vstd::prelude::*;
use crate::json::{
    field, json_field, json_parse, json_view, parse_json, str_field, str_field_of, u64_field,
    u64_field_of, JsonValue, SpecJson,
};
use crate::principal::{check_principal, parsed_principal, PrincipalId};
use crate::proton::{proton_account_to_check, proton_account_usable};
use crate::text::{nth_piece, split_piece};

verus! {

/// `candid::Nat`, the arbitrary-precision natural number of Candid, carried
/// through unread.
#[verifier::external_type_specification]
#[verifier::external_body]
pub struct ExNat(candid::Nat);

/// An HTTP header.
#[derive(Debug)]
pub struct Header {
    pub name: String,
    pub value: String,
}

/// The HTTP methods an outcall may use.
#[derive(Clone, Copy, Debug, PartialEq, Eq)]
pub enum HttpMethod {
    Get,
    Post,
    Head,
}

/// Everything the canister needs to issue the swap-table outcall, apart from
/// its own principal, which names the transform function.
#[derive(Debug)]
pub struct SwapRequest {
    pub url: String,
    pub method: HttpMethod,
    pub body: Option<Vec<u8>>,
    pub max_response_bytes: Option<u64>,
    pub headers: Vec<Header>,
    pub transform_method: String,
    pub transform_context: Vec<u8>,
    pub cycles: u128,
}

/// The endpoint that serves the PROTON table rows.
pub open spec fn swap_table_url() -> Seq<char> {
    "https://api-xprnetwork-test.saltant.io/v1/chain/get_table_rows"@
}

/// The JSON body asking for the swap rows.
pub open spec fn swap_table_query() -> Seq<char> {
    "{\"json\":true,\"code\":\"freeosgov2\",\"lower_bound\":1730065553,\"upper_bound\":1730065936,\"table\":\"swaps\",\"scope\":\"freeosgov2\",\"limit\":100}"@
}

/// The host part of a URL: its third `/`-separated piece, or nothing.
pub open spec fn url_host(url: Seq<char>) -> Seq<char> {
    match nth_piece(url, '/', 2) {
        Some(host) => host,
        None => Seq::empty(),
    }
}

/// The cycles paid for the outcall.
pub const SWAP_REQUEST_CYCLES: u128 = 21_850_258_000;

fn header(name: &str, value: String) -> (r: Header)
    ensures
        r.name@ == name@,
        r.value@ == value@,
{
    Header { name: String::from_str(name), value }
}

/// The POST outcall that fetches the swap rows: JSON body, headers naming the
/// host, the agent and the content type, and `clean_dynamic_content` as the
/// transform with an empty context.
pub fn swap_table_request() -> (r: SwapRequest)
    ensures
        r.url@ == swap_table_url(),
        r.method == HttpMethod::Post,
        r.body matches Some(b) && b@ == vstd::utf8::encode_utf8(swap_table_query()),
        r.max_response_bytes is None,
        r.headers@.len() == 3,
        r.headers@[0].name@ == "Host"@,
        r.headers@[0].value@ == url_host(swap_table_url()),
        r.headers@[1].name@ == "User-Agent"@,
        r.headers@[1].value@ == "IC-Agent"@,
        r.headers@[2].name@ == "Content-Type"@,
        r.headers@[2].value@ == "application/json"@,
        r.transform_method@ == "clean_dynamic_content"@,
        r.transform_context@.len() == 0,
        r.cycles == SWAP_REQUEST_CYCLES,
{
    let url = "https://api-xprnetwork-test.saltant.io/v1/chain/get_table_rows";
    let query = "{\"json\":true,\"code\":\"freeosgov2\",\"lower_bound\":1730065553,\"upper_bound\":1730065936,\"table\":\"swaps\",\"scope\":\"freeosgov2\",\"limit\":100}";
    let host = match split_piece(url, '/', 2) {
        Some(h) => h,
        None => String::new(),
    };
    let mut headers: Vec<Header> = Vec::new();
    headers.push(header("Host", host));
    headers.push(header("User-Agent", String::from_str("IC-Agent")));
    headers.push(header("Content-Type", String::from_str("application/json")));
    SwapRequest {
        url: String::from_str(url),
        method: HttpMethod::Post,
        body: Some(query.as_bytes_vec()),
        max_response_bytes: None,
        headers,
        transform_method: String::from_str("clean_dynamic_content"),
        transform_context: Vec::new(),
        cycles: SWAP_REQUEST_CYCLES,
    }
}

/// A reply to an HTTP outcall.
#[derive(Debug)]
pub struct HttpReply {
    pub status: candid::Nat,
    pub headers: Vec<Header>,
    pub body: Vec<u8>,
}

/// The transform applied to every outcall reply so that replicas agree on it:
/// the headers are dropped, the status and the body are kept.
pub fn clean_dynamic_content(reply: HttpReply) -> (r: HttpReply)
    ensures
        r.status == reply.status,
        r.headers@.len() == 0,
        r.body@ == reply.body@,
{
    let mut response = reply;
    response.headers.clear();
    response
}

/// The message returned when the outcall itself fails, given the rejection
/// code and the message as printed.
pub fn http_failure_message(rejection_code: &str, message: &str) -> (r: String)
    ensures
        r@ == "The http_request resulted into error. RejectionCode: "@ + rejection_code@
            + ", Error: "@ + message@,
{
    let mut s = String::from_str("The http_request resulted into error. RejectionCode: ");
    s.append(rejection_code);
    s.append(", Error: ");
    s.append(message);
    s
}

/// Whole seconds since the epoch for a timestamp in nanoseconds.
pub fn unix_seconds_from_nanos(time_nanos: u64) -> (r: u64)
    ensures
        r == time_nanos / 1_000_000_000,
{
    time_nanos / 1_000_000_000
}

/// Later timestamps never give fewer seconds.
pub proof fn law_unix_seconds_monotone(earlier: u64, later: u64)
    requires
        earlier <= later,
    ensures
        earlier / 1_000_000_000 <= later / 1_000_000_000,
{
    vstd::arithmetic::div_mod::lemma_div_is_ordered(earlier as int, later as int, 1_000_000_000);
}

/// The fields of a swap row: PROTON account, IC principal, amount text and
/// UTC time, each present only when the row holds it with the expected JSON
/// type (strings, and an integer fitting `u64` for the time).
pub type RowFields = (Option<Seq<char>>, Option<Seq<char>>, Option<Seq<char>>, Option<u64>);

/// A swap row of the PROTON table, as far as the swap reads it.
#[derive(Debug)]
pub struct SwapRow {
    pub proton_account: Option<String>,
    pub ic_principal: Option<String>,
    pub amount: Option<String>,
    pub utc_time: Option<u64>,
}

/// The fields of a row, as plain values.
pub open spec fn row_fields(row: SwapRow) -> RowFields {
    (
        row.proton_account.deep_view(),
        row.ic_principal.deep_view(),
        row.amount.deep_view(),
        row.utc_time,
    )
}

/// The fields of each row in order.
pub open spec fn rows_fields(rows: Seq<SwapRow>) -> Seq<RowFields> {
    rows.map_values(|row: SwapRow| row_fields(row))
}

/// The fields a JSON row holds: the string members `proton_account`,
/// `ic_principal` and `amount`, and the unsigned member `utc_time`.
pub open spec fn row_fields_of(v: SpecJson) -> RowFields {
    (
        str_field(v, "proton_account"@),
        str_field(v, "ic_principal"@),
        str_field(v, "amount"@),
        u64_field(v, "utc_time"@),
    )
}

/// Reads the swap fields of one JSON row.
fn row_from_json(v: &JsonValue) -> (r: SwapRow)
    ensures
        row_fields(r) == row_fields_of(json_view(*v)),
{
    SwapRow {
        proton_account: str_field_of(v, "proton_account"),
        ic_principal: str_field_of(v, "ic_principal"),
        amount: str_field_of(v, "amount"),
        utc_time: u64_field_of(v, "utc_time"),
    }
}

/// What a swap-table reply holds.
#[derive(Debug)]
pub enum SwapResponse {
    /// The body is not JSON; `error` is the parser's reason.
    Unparsable { error: String },
    /// The body is JSON without a `rows` array.
    MissingRows,
    /// The rows, in the order of the reply.
    Rows(Vec<SwapRow>),
}

/// What a parsed document holds for the swap: its member `rows`, when it is
/// an array, with the swap fields of each element.
pub open spec fn swap_rows_of(v: SpecJson) -> Option<Seq<RowFields>> {
    match json_field(v, "rows"@) {
        Some(SpecJson::Array(items)) => Some(items.map_values(|i: SpecJson| row_fields_of(i))),
        _ => None,
    }
}

/// Reads the swap rows out of a parsed reply document.
pub fn swap_response_from_json(doc: &JsonValue) -> (r: SwapResponse)
    ensures
        match swap_rows_of(json_view(*doc)) {
            Some(fields) => r matches SwapResponse::Rows(rows) && rows_fields(rows@) == fields,
            None => r is MissingRows,
        },
{
    match field(doc, "rows") {
        Some(JsonValue::Array(items)) => {
            let ghost spec_items = json_view(JsonValue::Array(*items))->Array_0;
            let mut rows: Vec<SwapRow> = Vec::new();
            let mut i: usize = 0;
            while i < items.len()
                invariant
                    i <= items@.len(),
                    spec_items.len() == items@.len(),
                    forall|j: int|
                        0 <= j < items@.len() ==> #[trigger] spec_items[j] == json_view(items@[j]),
                    rows@.len() == i,
                    forall|j: int|
                        0 <= j < i ==> row_fields(#[trigger] rows@[j]) == row_fields_of(
                            spec_items[j],
                        ),
                decreases items@.len() - i,
            {
                let row = row_from_json(&items[i]);
                rows.push(row);
                i = i + 1;
            }
            assert(rows_fields(rows@) =~= spec_items.map_values(|x: SpecJson| row_fields_of(x)));
            SwapResponse::Rows(rows)
        },
        _ => SwapResponse::MissingRows,
    }
}

/// Reads the swap rows out of a reply body: the body is parsed with
/// `serde_json`, then read as `swap_response_from_json` reads a document.
pub fn read_swap_response(body: &str) -> (r: SwapResponse)
    ensures
        match json_parse(body@) {
            Err(e) => r matches SwapResponse::Unparsable { error } && error@ == e,
            Ok(v) => match swap_rows_of(v) {
                Some(fields) => r matches SwapResponse::Rows(rows) && rows_fields(rows@) == fields,
                None => r is MissingRows,
            },
        },
{
    match parse_json(body) {
        Err(error) => SwapResponse::Unparsable { error },
        Ok(doc) => swap_response_from_json(&doc),
    }
}

/// What to do for one swap row.
#[derive(Debug)]
pub enum RowAction {
    /// Mint `amount` units (of 0.0001 FREEOS) to `recipient`.
    Mint { recipient: PrincipalId, amount: u64 },
    /// Mint nothing: the row is a problem record.
    Skip,
}

/// The recipient and amount of a mint, or `None` for a skip.
pub open spec fn action_view(action: RowAction) -> Option<(Seq<u8>, u64)> {
    match action {
        RowAction::Mint { recipient, amount } => Some((recipient@, amount)),
        RowAction::Skip => None,
    }
}

/// The principal a row's `ic_principal` text names, when present and accepted.
pub open spec fn row_principal(ic_principal: Option<Seq<char>>) -> Option<Seq<u8>> {
    match ic_principal {
        Some(text) => match parsed_principal(text) {
            Ok(bytes) => Some(bytes),
            Err(_) => None,
        },
        None => None,
    }
}

/// The mint a row asks for: its own principal and its own amount, when the
/// row has a usable PROTON account, a valid principal, a readable amount and
/// a UTC time; otherwise the row is a problem record and mints nothing.
pub open spec fn row_mint(
    proton_account: Option<Seq<char>>,
    principal: Option<Seq<u8>>,
    amount: Option<u64>,
    utc_time: Option<u64>,
) -> Option<(Seq<u8>, u64)> {
    match (proton_account, principal, amount, utc_time) {
        (Some(account), Some(p), Some(units), Some(_)) => if proton_account_usable(account) {
            Some((p, units))
        } else {
            None
        },
        _ => None,
    }
}

/// The principal of an optional decoded principal.
pub open spec fn found_view(found: Option<PrincipalId>) -> Option<Seq<u8>> {
    match found {
        Some(p) => Some(p@),
        None => None,
    }
}

/// The action for a row, given its PROTON account, the principal it names
/// (if valid), its amount in units (if readable) and its UTC time.
pub fn decide_row(
    proton_account: Option<&str>,
    found: Option<PrincipalId>,
    amount_units: Option<u64>,
    utc_time: Option<u64>,
) -> (r: RowAction)
    ensures
        action_view(r) == row_mint(
            match proton_account {
                Some(a) => Some(a@),
                None => None,
            },
            found_view(found),
            amount_units,
            utc_time,
        ),
{
    let account_ok = match proton_account {
        Some(account) => proton_account_to_check(account).ok.is_some(),
        None => false,
    };
    match (found, amount_units, utc_time) {
        (Some(recipient), Some(amount), Some(_)) => {
            if account_ok {
                RowAction::Mint { recipient, amount }
            } else {
                RowAction::Skip
            }
        },
        _ => RowAction::Skip,
    }
}

/// The action for a swap row, given its amount in units (when the amount
/// text could be read); the principal text is decoded with `candid`.
pub fn scan_row(row: &SwapRow, amount_units: Option<u64>) -> (r: RowAction)
    ensures
        action_view(r) == row_mint(
            row.proton_account.deep_view(),
            row_principal(row.ic_principal.deep_view()),
            amount_units,
            row.utc_time,
        ),
{
    let found = match &row.ic_principal {
        Some(text) => match check_principal(text.as_str()) {
            Ok(p) => Some(p),
            Err(_) => None,
        },
        None => None,
    };
    let account = match &row.proton_account {
        Some(a) => Some(a.as_str()),
        None => None,
    };
    decide_row(account, found, amount_units, row.utc_time)
}

/// The amount in units given for row `i`, if any.
pub open spec fn units_at(units: Seq<Option<u64>>, i: int) -> Option<u64> {
    if 0 <= i < units.len() {
        units[i]
    } else {
        None
    }
}

/// The action for every row of a reply, in order, given the amount in units
/// read for each row (`units[i]` for row `i`; a row without an entry has no
/// readable amount).
pub fn row_actions(rows: &Vec<SwapRow>, units: &Vec<Option<u64>>) -> (r: Vec<RowAction>)
    ensures
        r@.len() == rows@.len(),
        forall|i: int|
            0 <= i < rows@.len() ==> action_view(#[trigger] r@[i]) == row_mint(
                rows@[i].proton_account.deep_view(),
                row_principal(rows@[i].ic_principal.deep_view()),
                units_at(units@, i),
                rows@[i].utc_time,
            ),
{
    let mut actions: Vec<RowAction> = Vec::new();
    let mut i: usize = 0;
    while i < rows.len()
        invariant
            i <= rows@.len(),
            actions@.len() == i,
            forall|j: int|
                0 <= j < i ==> action_view(#[trigger] actions@[j]) == row_mint(
                    rows@[j].proton_account.deep_view(),
                    row_principal(rows@[j].ic_principal.deep_view()),
                    units_at(units@, j),
                    rows@[j].utc_time,
                ),
        decreases rows@.len() - i,
    {
        let amount = if i < units.len() {
            units[i]
        } else {
            None
        };
        let action = scan_row(&rows[i], amount);
        actions.push(action);
        i = i + 1;
    }
    actions
}

/// A row as the mint rules see it: PROTON account, valid principal, amount in
/// units, UTC time.
pub type RowInput = (Option<Seq<char>>, Option<Seq<u8>>, Option<u64>, Option<u64>);

/// The mint a row asks for.
pub open spec fn row_mint_of(row: RowInput) -> Option<(Seq<u8>, u64)> {
    row_mint(row.0, row.1, row.2, row.3)
}

/// The mints a sequence of rows asks for, in order.
pub open spec fn mints(rows: Seq<RowInput>) -> Seq<(Seq<u8>, u64)>
    decreases rows.len(),
{
    if rows.len() == 0 {
        Seq::empty()
    } else {
        match row_mint_of(rows.last()) {
            Some(m) => mints(rows.drop_last()).push(m),
            None => mints(rows.drop_last()),
        }
    }
}

/// A row mints only to its own principal and its own amount, and only when
/// its PROTON account is usable and its time is present.
pub proof fn law_row_mints_its_own(row: RowInput)
    ensures
        row_mint_of(row) matches Some((p, units)) ==> {
            &&& row.0 matches Some(account) && account.len() > 0
            &&& row.1 == Some(p)
            &&& row.2 == Some(units)
            &&& row.3 is Some
        },
        row.0 matches Some(account) && account.len() > 0 && row.1 is Some && row.2 is Some
            && row.3 is Some ==> row_mint_of(row) == Some((row.1->0, row.2->0)),
{
}

/// The mints of consecutive runs of rows are the runs' mints, one after the
/// other: each row's mint depends on that row alone.
pub proof fn law_mints_concatenate(a: Seq<RowInput>, b: Seq<RowInput>)
    ensures
        mints(a + b) == mints(a) + mints(b),
    decreases b.len(),
{
    if b.len() == 0 {
        assert(a + b =~= a);
        assert(mints(a) + mints(b) =~= mints(a));
    } else {
        law_mints_concatenate(a, b.drop_last());
        assert((a + b).drop_last() =~= a + b.drop_last());
        assert((a + b).last() == b.last());
        match row_mint_of(b.last()) {
            Some(m) => {
                assert(mints(a) + mints(b.drop_last()).push(m) =~= (mints(a) + mints(
                    b.drop_last(),
                )).push(m));
            },
            None => {},
        }
    }
}

/// A problem record between other rows mints nothing and leaves the mints of
/// every other row as they are; a well-formed row adds exactly its own mint.
pub proof fn law_each_row_stands_alone(a: Seq<RowInput>, row: RowInput, b: Seq<RowInput>)
    ensures
        row_mint_of(row) is None ==> mints(a + seq![row] + b) == mints(a) + mints(b),
        row_mint_of(row) matches Some(m) ==> mints(a + seq![row] + b) == mints(a) + seq![m]
            + mints(b),
{
    law_mints_concatenate(a + seq![row], b);
    law_mints_concatenate(a, seq![row]);
    let single = seq![row];
    assert(single.drop_last() =~= Seq::<RowInput>::empty());
    assert(mints(single.drop_last()) =~= Seq::<(Seq<u8>, u64)>::empty());
    match row_mint_of(row) {
        Some(m) => {
            assert(mints(single) =~= seq![m]);
        },
        None => {
            assert(mints(single) =~= Seq::<(Seq<u8>, u64)>::empty());
            assert(mints(a) + mints(single) =~= mints(a));
        },
    }
}

/// A row whose principal text `candid` accepts mints to exactly the decoded
/// principal, whatever its length, when the row also has a non-empty PROTON
/// account, an amount and a time; a rejected text mints nothing.
pub proof fn law_decoded_principal_receives_mint(
    account: Seq<char>,
    text: Seq<char>,
    units: u64,
    utc_time: u64,
)
    ensures
        parsed_principal(text) matches Ok(bytes) ==> row_principal(Some(text)) == Some(bytes),
        parsed_principal(text) is Err ==> row_principal(Some(text)) is None,
        row_principal(None) is None,
        account.len() > 0 ==> (parsed_principal(text) matches Ok(bytes) ==> row_mint(
            Some(account),
            row_principal(Some(text)),
            Some(units),
            Some(utc_time),
        ) == Some((bytes, units))),
        account.len() == 0 ==> row_mint(
            Some(account),
            row_principal(Some(text)),
            Some(units),
            Some(utc_time),
        ) is None,
{
}

/// The rows read from a document are its `rows` array, element for element:
/// as many rows as items, and row `i` holds the string members
/// `proton_account`, `ic_principal`, `amount` and the unsigned member
/// `utc_time` of item `i`. A document whose `rows` member is not an array
/// has no rows.
pub proof fn law_every_row_is_read(v: SpecJson)
    ensures
        json_field(v, "rows"@) matches Some(SpecJson::Array(items)) ==> {
            &&& swap_rows_of(v) matches Some(f)
            &&& f.len() == items.len()
            &&& forall|i: int|
                0 <= i < items.len() ==> #[trigger] f[i] == (
                    str_field(items[i], "proton_account"@),
                    str_field(items[i], "ic_principal"@),
                    str_field(items[i], "amount"@),
                    u64_field(items[i], "utc_time"@),
                )
        },
        !(json_field(v, "rows"@) matches Some(SpecJson::Array(_))) ==> swap_rows_of(v) is None,
{
}

/// The fields of a list of rows are the fields of each row, in order, one
/// entry per row.
pub proof fn law_rows_fields_per_row(rows: Seq<SwapRow>)
    ensures
        rows_fields(rows).len() == rows.len(),
        forall|i: int|
            0 <= i < rows.len() ==> #[trigger] rows_fields(rows)[i] == (
                rows[i].proton_account.deep_view(),
                rows[i].ic_principal.deep_view(),
                rows[i].amount.deep_view(),
                rows[i].utc_time,
            ),
{
}

} // verus!
