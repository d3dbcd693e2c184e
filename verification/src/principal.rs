//! Principals of the Internet Computer, held as their significant bytes.
//! Text encoding and decoding are left to `candid`.

use vstd::prelude::*;

verus! {

/// The most bytes a principal can have.
pub const MAX_PRINCIPAL_BYTES: usize = 29;

/// What `candid::Principal::from_text` yields for a text: the principal's
/// bytes, or the text of the error it rejects the input with.
pub uninterp spec fn parsed_principal(text: Seq<char>) -> Result<Seq<u8>, Seq<char>>;

/// The textual form `candid::Principal::to_text` gives to a principal with
/// these bytes.
pub uninterp spec fn principal_text_of(bytes: Seq<u8>) -> Seq<char>;

/// Does `text` decode to the principal with these bytes?
pub open spec fn decodes_to(text: Seq<char>, bytes: Seq<u8>) -> bool {
    parsed_principal(text) matches Ok(b) && b == bytes
}

/// Bytes and error texts of a decoding result, as plain values.
pub open spec fn bytes_result_view(r: Result<Vec<u8>, String>) -> Result<Seq<u8>, Seq<char>> {
    match r {
        Ok(b) => Ok(b@),
        Err(e) => Err(e@),
    }
}

/// Decodes a principal with `candid::Principal::from_text`, keeping the
/// significant bytes of an accepted principal and the `Display` text of the
/// `PrincipalError` of a rejected one. Claimed: the result is what
/// `parsed_principal` names for the text, and an accepted principal has at
/// most 29 bytes (the source rejects longer ones with `TextTooLong`).
#[verifier::external_body]
fn principal_bytes_from_text(text: &str) -> (r: Result<Vec<u8>, String>)
    ensures
        bytes_result_view(r) == parsed_principal(text@),
        r matches Ok(b) ==> b@.len() <= MAX_PRINCIPAL_BYTES,
{
    candid::Principal::from_text(text).map(|p| p.as_slice().to_vec()).map_err(|e| e.to_string())
}

/// Renders a principal with `candid::Principal::from_slice` followed by
/// `to_text`. Claimed: the text is what `principal_text_of` names for the
/// bytes, and `from_text` accepts that text back as the same bytes (the
/// source's `from_text` decodes the checksum and bytes that `to_text`
/// encoded, and accepts exactly when the lower-cased input equals the
/// re-encoding, which `to_text`'s lower-case output does). `from_slice`
/// panics above 29 bytes, which `requires` rules out.
#[verifier::external_body]
fn principal_text_from_bytes(bytes: &[u8]) -> (r: String)
    requires
        bytes@.len() <= MAX_PRINCIPAL_BYTES,
    ensures
        r@ == principal_text_of(bytes@),
        decodes_to(r@, bytes@),
{
    candid::Principal::from_slice(bytes).to_text()
}

/// A principal text that `candid` rejects, with the reason it gives.
#[derive(Debug)]
pub struct InvalidPrincipal {
    pub message: String,
}

/// A principal, held as its significant bytes (at most 29 of them).
#[derive(Debug)]
pub struct PrincipalId {
    bytes: Vec<u8>,
}

impl View for PrincipalId {
    type V = Seq<u8>;

    closed spec fn view(&self) -> Seq<u8> {
        self.bytes@
    }
}

/// The bytes of a decoded principal, or the error text, as plain values.
pub open spec fn principal_result_view(r: Result<PrincipalId, InvalidPrincipal>) -> Result<
    Seq<u8>,
    Seq<char>,
> {
    match r {
        Ok(id) => Ok(id@),
        Err(e) => Err(e.message@),
    }
}

impl PrincipalId {
    #[verifier::type_invariant]
    spec fn fits(self) -> bool {
        self.bytes@.len() <= MAX_PRINCIPAL_BYTES
    }

    /// A principal with the given bytes; `None` when there are more than 29.
    pub fn from_bytes(bytes: Vec<u8>) -> (r: Option<PrincipalId>)
        ensures
            r is Some <==> bytes@.len() <= MAX_PRINCIPAL_BYTES,
            r matches Some(p) ==> p@ == bytes@,
    {
        if bytes.len() <= MAX_PRINCIPAL_BYTES {
            Some(PrincipalId { bytes })
        } else {
            None
        }
    }

    /// The significant bytes.
    pub fn as_bytes(&self) -> (r: &[u8])
        ensures
            r@ == self@,
            r@.len() <= MAX_PRINCIPAL_BYTES,
    {
        proof {
            use_type_invariant(self);
        }
        self.bytes.as_slice()
    }

    /// A second principal with the same bytes.
    pub fn duplicate(&self) -> (r: PrincipalId)
        ensures
            r@ == self@,
    {
        proof {
            use_type_invariant(self);
        }
        let mut bytes: Vec<u8> = Vec::new();
        let mut i: usize = 0;
        while i < self.bytes.len()
            invariant
                i <= self.bytes@.len(),
                self.bytes@.len() <= MAX_PRINCIPAL_BYTES,
                bytes@ == self.bytes@.take(i as int),
            decreases self.bytes@.len() - i,
        {
            bytes.push(self.bytes[i]);
            i = i + 1;
            assert(bytes@ =~= self.bytes@.take(i as int));
        }
        assert(bytes@ =~= self.bytes@);
        PrincipalId { bytes }
    }

    /// The textual form of the principal, as `candid` prints it; decoding
    /// that text gives the principal back.
    pub fn to_text(&self) -> (r: String)
        ensures
            r@ == principal_text_of(self@),
            parsed_principal(r@) matches Ok(b) && b == self@,
    {
        proof {
            use_type_invariant(self);
        }
        principal_text_from_bytes(self.bytes.as_slice())
    }
}

/// Decodes the textual form of a principal; a text that `candid` rejects
/// gives its reason.
pub fn check_principal(principal_to_check: &str) -> (r: Result<PrincipalId, InvalidPrincipal>)
    ensures
        principal_result_view(r) == parsed_principal(principal_to_check@),
{
    match principal_bytes_from_text(principal_to_check) {
        Ok(bytes) => Ok(PrincipalId { bytes }),
        Err(message) => Err(InvalidPrincipal { message }),
    }
}

} // verus!
