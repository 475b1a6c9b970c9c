//! Minimal STUN subset for external-address discovery.
//!
//! Encodes a Binding Request, parses a Binding Response that carries
//! XOR-MAPPED-ADDRESS or ERROR-CODE, and authenticates responses by their
//! transaction id before trusting them.
//!
//! [`is_stun_packet`] separates STUN from QUIC on a shared socket: STUN
//! messages start with two zero bits, QUIC packets always set bit `0x40`.

use vstd::prelude::*;
use vstd::string::StringExecFns;
use vstd::utf8::encode_utf8;

use crate::addr::{IpAddr, SocketAddr};
use crate::text::{lossy_trimmed, push_decimal, push_hex, quote};
use crate::wire::{push_bytes, push_u16, push_u32, read_u16, read_u32, same_bytes};

verus! {

/// STUN magic cookie.
pub const MAGIC_COOKIE: u32 = 0x2112_a442;

/// Binding Request message type.
pub const BINDING_REQUEST: u16 = 0x0001;

/// Binding Response (success) message type.
pub const BINDING_SUCCESS: u16 = 0x0101;

/// Binding Error Response message type.
pub const BINDING_ERROR: u16 = 0x0111;

/// XOR-MAPPED-ADDRESS attribute type.
pub const ATTR_XOR_MAPPED_ADDRESS: u16 = 0x0020;

/// ERROR-CODE attribute type.
pub const ATTR_ERROR_CODE: u16 = 0x0009;

/// Fixed header size: type(2) + len(2) + cookie(4) + txn(12).
pub const HEADER_LEN: usize = 20;

/// Attribute TLV header size: type(2) + len(2).
pub const ATTR_HEADER_LEN: usize = 4;

/// The upper half of the magic cookie, which masks ports.
pub const PORT_MASK: u16 = 0x2112;

/// Random 96-bit transaction id identifying one request/response pair.
#[derive(Debug, Clone, Copy, Eq)]
pub struct TransactionId([u8; 12]);

impl View for TransactionId {
    type V = Seq<u8>;

    closed spec fn view(&self) -> Seq<u8> {
        self.0@
    }
}

/// A transaction id is twelve bytes long.
pub proof fn lemma_txn_len(txn: TransactionId)
    ensures
        txn@.len() == 12,
{
    assert(txn.0@.len() == 12);
}

impl PartialEq for TransactionId {
    fn eq(&self, other: &Self) -> (res: bool) {
        same_bytes(self.0.as_slice(), other.0.as_slice())
    }
}

impl vstd::std_specs::cmp::PartialEqSpecImpl for TransactionId {
    open spec fn obeys_eq_spec() -> bool {
        true
    }

    open spec fn eq_spec(&self, other: &Self) -> bool {
        self@ == other@
    }
}

impl TransactionId {
    /// A fresh id from the thread's random generator: twelve bytes, which ones
    /// is chance.
    pub fn random() -> (res: Self)
        ensures
            res@.len() == 12,
    {
        let id = crate::rng::random_bytes(12);
        TransactionId::from_slice(id.as_slice(), 0)
    }

    pub fn from_bytes(bytes: [u8; 12]) -> (res: Self)
        ensures
            res@ == bytes@,
    {
        TransactionId(bytes)
    }

    pub fn as_bytes(&self) -> (res: &[u8; 12])
        ensures
            res@ == self@,
    {
        &self.0
    }

    /// The twelve bytes that start at offset `at`.
    fn from_slice(buf: &[u8], at: usize) -> (res: Self)
        requires
            at + 12 <= buf@.len(),
        ensures
            res@ == buf@.subrange(at as int, at + 12),
    {
        assert(buf@.len() == buf.len());
        let bytes: [u8; 12] = [
            buf[at],
            buf[at + 1],
            buf[at + 2],
            buf[at + 3],
            buf[at + 4],
            buf[at + 5],
            buf[at + 6],
            buf[at + 7],
            buf[at + 8],
            buf[at + 9],
            buf[at + 10],
            buf[at + 11],
        ];
        assert(bytes@ =~= buf@.subrange(at as int, at + 12));
        TransactionId(bytes)
    }
}

// ---------------------------------------------------------------------------
// Message layout
// ---------------------------------------------------------------------------

/// The twenty header bytes of a message whose attributes take `msg_len` bytes.
pub open spec fn header_bytes(msg_type: u16, msg_len: nat, txn: Seq<u8>) -> Seq<u8> {
    crate::wire::be_bytes(msg_type as nat, 2) + crate::wire::be_bytes(msg_len, 2)
        + crate::wire::be_bytes(MAGIC_COOKIE as nat, 4) + txn
}

/// The message type that a datagram claims.
pub open spec fn type_of(buf: Seq<u8>) -> u16 {
    crate::wire::be_value(buf.subrange(0, 2)) as u16
}

/// The attribute length that a datagram claims.
pub open spec fn length_of(buf: Seq<u8>) -> nat {
    crate::wire::be_value(buf.subrange(2, 4))
}

/// The cookie in a datagram.
pub open spec fn cookie_of(buf: Seq<u8>) -> u32 {
    crate::wire::be_value(buf.subrange(4, 8)) as u32
}

/// The transaction id in a datagram.
pub open spec fn txn_of(buf: Seq<u8>) -> Seq<u8> {
    buf.subrange(8, 20)
}

/// The attribute section that a datagram claims.
pub open spec fn attrs_of(buf: Seq<u8>) -> Seq<u8> {
    buf.subrange(HEADER_LEN as int, HEADER_LEN + length_of(buf))
}

/// Whether a buffer plausibly starts a STUN message.
pub open spec fn stun_like(buf: Seq<u8>) -> bool {
    buf.len() >= HEADER_LEN && buf[0] < 0x40
}

/// The next multiple of four.
pub open spec fn pad4(n: nat) -> nat {
    ((n + 3) / 4 * 4) as nat
}

/// A byte string padded with zeros to four-byte alignment.
pub open spec fn padded(value: Seq<u8>) -> Seq<u8> {
    value + Seq::new((pad4(value.len()) - value.len()) as nat, |i: int| 0u8)
}

/// One attribute on the wire: type, length of the bare value, padded value.
pub open spec fn attr_bytes(attr_type: u16, value: Seq<u8>) -> Seq<u8> {
    crate::wire::be_bytes(attr_type as nat, 2) + crate::wire::be_bytes(value.len(), 2) + padded(
        value,
    )
}

/// The value of the first attribute of type `attr_type` whose value has at
/// least `min_len` bytes. The walk ends at the first attribute that does not
/// fit in what is left.
pub open spec fn find_attr(attrs: Seq<u8>, attr_type: u16, min_len: nat) -> Option<Seq<u8>>
    decreases attrs.len(),
{
    if attrs.len() < ATTR_HEADER_LEN {
        None
    } else {
        let this_type = crate::wire::be_value(attrs.subrange(0, 2));
        let value_end = ATTR_HEADER_LEN + crate::wire::be_value(attrs.subrange(2, 4));
        if attrs.len() < value_end {
            None
        } else if this_type == attr_type && value_end >= ATTR_HEADER_LEN + min_len {
            Some(attrs.subrange(ATTR_HEADER_LEN as int, value_end as int))
        } else if pad4(value_end as nat) >= attrs.len() {
            None
        } else {
            find_attr(attrs.skip(pad4(value_end as nat) as int), attr_type, min_len)
        }
    }
}

/// The mask over addresses: magic cookie, then transaction id.
pub open spec fn xor_mask(txn: Seq<u8>) -> Seq<u8> {
    crate::wire::be_bytes(MAGIC_COOKIE as nat, 4) + txn
}

/// Octets under the mask.
pub open spec fn masked(octets: Seq<u8>, txn: Seq<u8>) -> Seq<u8> {
    Seq::new(octets.len(), |i: int| octets[i] ^ xor_mask(txn)[i])
}

/// The value of an XOR-MAPPED-ADDRESS attribute.
pub open spec fn xor_mapped_value(octets: Seq<u8>, port: u16, txn: Seq<u8>) -> Seq<u8> {
    seq![
        0x00u8,
        if octets.len() == 4 {
            0x01u8
        } else {
            0x02u8
        },
    ] + crate::wire::be_bytes((port ^ PORT_MASK) as nat, 2) + masked(octets, txn)
}

/// The address that an XOR-MAPPED-ADDRESS value stands for.
pub open spec fn unmask_address(value: Seq<u8>, txn: Seq<u8>) -> Option<
    crate::addr::SocketAddrView,
> {
    if value.len() < 4 {
        None
    } else {
        let port = crate::wire::be_value(value.subrange(2, 4)) as u16 ^ PORT_MASK;
        if value[1] == 0x01 && value.len() >= 8 {
            Some(crate::addr::plain_addr(masked(value.subrange(4, 8), txn), port))
        } else if value[1] == 0x02 && value.len() >= 20 {
            Some(crate::addr::plain_addr(masked(value.subrange(4, 20), txn), port))
        } else {
            None
        }
    }
}

/// The error that an ERROR-CODE value stands for.
pub open spec fn error_of_value(value: Seq<u8>) -> StunErrorView {
    StunErrorView {
        code: ((value[2] % 8) * 100 + value[3]) as u16,
        reason: crate::text::trimmed(crate::text::lossy_text(value.skip(4))),
    }
}

// ---------------------------------------------------------------------------
// Errors
// ---------------------------------------------------------------------------

/// One parsed failure reason carried by an ERROR-CODE attribute.
#[derive(Debug, Clone)]
pub struct StunError {
    /// Full code, e.g. `420` for Unknown Attributes.
    pub code: u16,
    /// Reason phrase, trimmed; may be empty.
    pub reason: String,
}

/// A [`StunError`] as plain values.
#[verifier::ext_equal]
pub struct StunErrorView {
    pub code: u16,
    pub reason: Seq<char>,
}

impl View for StunError {
    type V = StunErrorView;

    open spec fn view(&self) -> StunErrorView {
        StunErrorView { code: self.code, reason: self.reason@ }
    }
}

impl PartialEq for StunError {
    fn eq(&self, other: &Self) -> (res: bool) {
        self.code == other.code && self.reason == other.reason
    }
}

impl vstd::std_specs::cmp::PartialEqSpecImpl for StunError {
    open spec fn obeys_eq_spec() -> bool {
        true
    }

    open spec fn eq_spec(&self, other: &Self) -> bool {
        self@ == other@
    }
}

/// A successfully parsed Binding Response.
#[derive(Debug, Clone, Copy)]
pub struct BindingResponse {
    /// The server-reflexive address, unmasked.
    pub xor_mapped_address: SocketAddr,
}

/// Why a datagram is not a Binding Request.
#[derive(Debug, Clone, Copy, PartialEq, Eq, Structural)]
pub enum RequestError {
    TooShort,
    NotStun,
    UnexpectedType(u16),
    CookieMismatch,
}

/// Why a datagram is not a Binding Response to our request.
#[derive(Debug, Clone)]
pub enum ResponseError {
    /// Shorter than the fixed header; carries the datagram's length.
    TooShort(usize),
    NotStun,
    UnexpectedType(u16),
    CookieMismatch(u32),
    /// A success response for some other transaction.
    TransactionMismatch,
    /// An error response for some other transaction.
    ErrorTransactionMismatch,
    /// The claimed attribute length exceeds the datagram.
    Truncated,
    NoErrorCode,
    /// The server rejected our own request.
    Server(StunError),
    NoAddress,
}

/// A [`ResponseError`] as plain values.
pub enum ResponseErrorView {
    TooShort(usize),
    NotStun,
    UnexpectedType(u16),
    CookieMismatch(u32),
    TransactionMismatch,
    ErrorTransactionMismatch,
    Truncated,
    NoErrorCode,
    Server(StunErrorView),
    NoAddress,
}

impl View for ResponseError {
    type V = ResponseErrorView;

    open spec fn view(&self) -> ResponseErrorView {
        match self {
            ResponseError::TooShort(n) => ResponseErrorView::TooShort(*n),
            ResponseError::NotStun => ResponseErrorView::NotStun,
            ResponseError::UnexpectedType(t) => ResponseErrorView::UnexpectedType(*t),
            ResponseError::CookieMismatch(c) => ResponseErrorView::CookieMismatch(*c),
            ResponseError::TransactionMismatch => ResponseErrorView::TransactionMismatch,
            ResponseError::ErrorTransactionMismatch => ResponseErrorView::ErrorTransactionMismatch,
            ResponseError::Truncated => ResponseErrorView::Truncated,
            ResponseError::NoErrorCode => ResponseErrorView::NoErrorCode,
            ResponseError::Server(e) => ResponseErrorView::Server(e@),
            ResponseError::NoAddress => ResponseErrorView::NoAddress,
        }
    }
}

/// Why a datagram is not an error response addressed to us.
#[derive(Debug, Clone, Copy, PartialEq, Eq, Structural)]
pub enum AuthError {
    TooShort,
    NotErrorResponse,
    CookieMismatch,
    TransactionMismatch,
    /// The claimed attribute length exceeds the datagram.
    Truncated,
    NoErrorCode,
}

/// The diagnostic for an unexpected message type.
pub open spec fn unexpected_type_text(msg_type: u16) -> Seq<char> {
    "unexpected message type 0x"@ + crate::text::hex(msg_type as nat, 4)
}

fn unexpected_type(msg_type: u16) -> (res: String)
    ensures
        res@ == unexpected_type_text(msg_type),
{
    let mut out = "unexpected message type 0x".to_owned();
    push_hex(&mut out, msg_type as u64, 4);
    out
}

impl RequestError {
    /// The diagnostic.
    pub open spec fn text(self) -> Seq<char> {
        match self {
            RequestError::TooShort => "datagram too short"@,
            RequestError::NotStun => "not a STUN packet"@,
            RequestError::UnexpectedType(t) => unexpected_type_text(t),
            RequestError::CookieMismatch => "magic cookie mismatch"@,
        }
    }

    pub fn to_string(&self) -> (res: String)
        ensures
            res@ == self.text(),
    {
        match self {
            RequestError::TooShort => "datagram too short".to_owned(),
            RequestError::NotStun => "not a STUN packet".to_owned(),
            RequestError::UnexpectedType(t) => unexpected_type(*t),
            RequestError::CookieMismatch => "magic cookie mismatch".to_owned(),
        }
    }
}

impl ResponseErrorView {
    /// The diagnostic.
    pub open spec fn text(self) -> Seq<char> {
        match self {
            ResponseErrorView::TooShort(n) => "datagram shorter than STUN header ("@
                + crate::text::decimal(n as nat) + ")"@,
            ResponseErrorView::NotStun => "not a STUN packet (top bits set)"@,
            ResponseErrorView::UnexpectedType(t) => unexpected_type_text(t),
            ResponseErrorView::CookieMismatch(c) => "magic cookie mismatch (0x"@
                + crate::text::hex(c as nat, 8) + ")"@,
            ResponseErrorView::TransactionMismatch =>
                "transaction id mismatch (spoofed or stale response)"@,
            ResponseErrorView::ErrorTransactionMismatch =>
                "transaction id mismatch on error response"@,
            ResponseErrorView::Truncated => "message length exceeds the datagram"@,
            ResponseErrorView::NoErrorCode => "no ERROR-CODE attribute in error response"@,
            ResponseErrorView::Server(e) => "server returned error StunError { code: "@
                + crate::text::decimal(e.code as nat) + ", reason: "@ + crate::text::quoted(
                e.reason,
            ) + " }"@,
            ResponseErrorView::NoAddress => "no valid XOR-MAPPED-ADDRESS in success response"@,
        }
    }
}

impl ResponseError {
    pub fn to_string(&self) -> (res: String)
        ensures
            res@ == self@.text(),
    {
        match self {
            ResponseError::TooShort(n) => {
                let mut out = "datagram shorter than STUN header (".to_owned();
                push_decimal(&mut out, *n as u64);
                out.append(")");
                out
            },
            ResponseError::NotStun => "not a STUN packet (top bits set)".to_owned(),
            ResponseError::UnexpectedType(t) => unexpected_type(*t),
            ResponseError::CookieMismatch(c) => {
                let mut out = "magic cookie mismatch (0x".to_owned();
                push_hex(&mut out, *c as u64, 8);
                out.append(")");
                out
            },
            ResponseError::TransactionMismatch =>
                "transaction id mismatch (spoofed or stale response)".to_owned(),
            ResponseError::ErrorTransactionMismatch =>
                "transaction id mismatch on error response".to_owned(),
            ResponseError::Truncated => "message length exceeds the datagram".to_owned(),
            ResponseError::NoErrorCode => "no ERROR-CODE attribute in error response".to_owned(),
            ResponseError::Server(e) => {
                let mut out = "server returned error StunError { code: ".to_owned();
                push_decimal(&mut out, e.code as u64);
                out.append(", reason: ");
                let reason = quote(e.reason.as_str());
                out.append(reason.as_str());
                out.append(" }");
                out
            },
            ResponseError::NoAddress =>
                "no valid XOR-MAPPED-ADDRESS in success response".to_owned(),
        }
    }
}

impl AuthError {
    /// The diagnostic.
    pub open spec fn text(self) -> Seq<char> {
        match self {
            AuthError::TooShort => "datagram too short"@,
            AuthError::NotErrorResponse => "not an error response"@,
            AuthError::CookieMismatch => "magic cookie mismatch"@,
            AuthError::TransactionMismatch => "transaction id mismatch"@,
            AuthError::Truncated => "message length exceeds the datagram"@,
            AuthError::NoErrorCode => "no ERROR-CODE attribute"@,
        }
    }

    pub fn to_string(&self) -> (res: String)
        ensures
            res@ == self.text(),
    {
        match self {
            AuthError::TooShort => "datagram too short".to_owned(),
            AuthError::NotErrorResponse => "not an error response".to_owned(),
            AuthError::CookieMismatch => "magic cookie mismatch".to_owned(),
            AuthError::TransactionMismatch => "transaction id mismatch".to_owned(),
            AuthError::Truncated => "message length exceeds the datagram".to_owned(),
            AuthError::NoErrorCode => "no ERROR-CODE attribute".to_owned(),
        }
    }
}

// ---------------------------------------------------------------------------
// Encoding
// ---------------------------------------------------------------------------

fn push_header(out: &mut Vec<u8>, msg_type: u16, msg_len: u16, txn: &TransactionId)
    ensures
        final(out)@ == old(out)@ + header_bytes(msg_type, msg_len as nat, txn@),
{
    push_u16(out, msg_type);
    push_u16(out, msg_len);
    push_u32(out, MAGIC_COOKIE);
    push_bytes(out, txn.as_bytes().as_slice());
    assert(out@ =~= old(out)@ + header_bytes(msg_type, msg_len as nat, txn@));
}

/// Encode a Binding Request carrying no attributes.
///
/// Layout: `type=0x0001 | msg-len=0 | magic cookie | transaction id`.
pub fn encode_binding_request(txn: &TransactionId) -> (res: Vec<u8>)
    ensures
        res@ == header_bytes(BINDING_REQUEST, 0, txn@),
{
    let mut buf: Vec<u8> = Vec::with_capacity(HEADER_LEN);
    push_header(&mut buf, BINDING_REQUEST, 0, txn);
    assert(buf@ =~= header_bytes(BINDING_REQUEST, 0, txn@));
    buf
}

/// The Binding Success Response that reports an address.
pub open spec fn success_bytes(octets: Seq<u8>, port: u16, txn: Seq<u8>) -> Seq<u8> {
    let attr = attr_bytes(ATTR_XOR_MAPPED_ADDRESS, xor_mapped_value(octets, port, txn));
    header_bytes(BINDING_SUCCESS, attr.len(), txn) + attr
}

fn push_masked(out: &mut Vec<u8>, octets: &[u8], txn: &TransactionId)
    requires
        octets@.len() <= 16,
    ensures
        final(out)@ == old(out)@ + masked(octets@, txn@),
{
    let mut mask: Vec<u8> = Vec::with_capacity(16);
    push_u32(&mut mask, MAGIC_COOKIE);
    push_bytes(&mut mask, txn.as_bytes().as_slice());
    proof {
        lemma_txn_len(*txn);
        crate::wire::lemma_be_bytes_len(MAGIC_COOKIE as nat, 4);
    }
    assert(mask@ =~= xor_mask(txn@));
    let mut i: usize = 0;
    while i < octets.len()
        invariant
            i <= octets@.len() <= 16,
            mask@ == xor_mask(txn@),
            mask@.len() == 16,
            out@ == old(out)@ + masked(octets@, txn@).take(i as int),
        decreases octets@.len() - i,
    {
        out.push(octets[i] ^ mask[i]);
        i = i + 1;
        assert(out@ =~= old(out)@ + masked(octets@, txn@).take(i as int));
    }
    assert(masked(octets@, txn@).take(i as int) =~= masked(octets@, txn@));
}

/// Build a Binding Success Response with XOR-MAPPED-ADDRESS, as a server
/// would answer a request it received from `observed`.
pub fn encode_binding_success(observed: SocketAddr, txn: &TransactionId) -> (res: Vec<u8>)
    ensures
        res@ == success_bytes(observed@.octets, observed@.port, txn@),
{
    let mut value: Vec<u8> = Vec::with_capacity(20);
    let masked_port = observed.port() ^ PORT_MASK;
    value.push(0x00);
    match observed.ip() {
        IpAddr::V4(ip) => {
            value.push(0x01);
            push_u16(&mut value, masked_port);
            push_masked(&mut value, ip.as_slice(), txn);
            assert(ip@.len() == 4);
        },
        IpAddr::V6(ip) => {
            value.push(0x02);
            push_u16(&mut value, masked_port);
            push_masked(&mut value, ip.as_slice(), txn);
            assert(ip@.len() == 16);
        },
    }
    let ghost v = xor_mapped_value(observed@.octets, observed@.port, txn@);
    assert(value@ =~= v);
    proof {
        crate::wire::lemma_be_bytes_len(masked_port as nat, 2);
    }
    let value_len: u16 = value.len() as u16;
    let mut buf: Vec<u8> = Vec::with_capacity(HEADER_LEN + ATTR_HEADER_LEN + value.len());
    // The message length counts complete attributes, TLV headers included.
    push_header(&mut buf, BINDING_SUCCESS, 4 + value_len, txn);
    push_u16(&mut buf, ATTR_XOR_MAPPED_ADDRESS);
    push_u16(&mut buf, value_len);
    push_bytes(&mut buf, value.as_slice());
    proof {
        crate::wire::lemma_be_bytes_len(ATTR_XOR_MAPPED_ADDRESS as nat, 2);
        crate::wire::lemma_be_bytes_len(value_len as nat, 2);
        assert(padded(v) =~= v);
        assert(buf@ =~= success_bytes(observed@.octets, observed@.port, txn@));
    }
    buf
}

/// The value of an ERROR-CODE attribute, before padding.
pub open spec fn error_value(code: u16, reason: Seq<char>) -> Seq<u8> {
    seq![0x00u8, 0x00u8, ((code / 100) % 8) as u8, (code % 100) as u8] + encode_utf8(reason)
}

/// The Binding Error Response that reports a code and a reason. Its length
/// fields hold the low 16 bits of the lengths.
pub open spec fn error_bytes(code: u16, reason: Seq<char>, txn: Seq<u8>) -> Seq<u8> {
    let attr = attr_bytes(ATTR_ERROR_CODE, error_value(code, reason));
    header_bytes(BINDING_ERROR, attr.len(), txn) + attr
}

/// Build a Binding Error Response with an ERROR-CODE attribute.
pub fn encode_binding_error(code: u16, reason: &str, txn: &TransactionId) -> (res: Vec<u8>)
    ensures
        res@ == error_bytes(code, reason@, txn@),
{
    let class = (code / 100) as u8;
    let number = (code % 100) as u8;
    proof {
        let hundreds: u16 = code / 100;
        assert((hundreds as u8) & 0x07 == (hundreds % 8) as u8) by (bit_vector);
    }
    let mut value: Vec<u8> = vec![0x00, 0x00, class & 0x07, number];
    push_bytes(&mut value, reason.as_bytes());
    let ghost v = error_value(code, reason@);
    assert(value@ =~= v);
    // Attribute values are padded to a four-byte boundary. The padding counts
    // toward the message length but not toward the attribute's own length.
    let unpadded = value.len();
    while value.len() % 4 != 0
        invariant
            v.len() == unpadded,
            v.len() <= value@.len() <= pad4(v.len()),
            value@ == v + Seq::new((value@.len() - v.len()) as nat, |i: int| 0u8),
        decreases pad4(v.len()) - value@.len(),
    {
        value.push(0);
        assert(value@ =~= v + Seq::new((value@.len() - v.len()) as nat, |i: int| 0u8));
    }
    assert(value@ =~= padded(v));
    // The length fields hold the low 16 bits of the lengths.
    let attr_len: u16 = (unpadded % 0x1_0000) as u16;
    let msg_len: u16 = ((value.len() % 0x1_0000 + ATTR_HEADER_LEN) % 0x1_0000) as u16;
    let mut buf: Vec<u8> = Vec::new();
    push_header(&mut buf, BINDING_ERROR, msg_len, txn);
    push_u16(&mut buf, ATTR_ERROR_CODE);
    push_u16(&mut buf, attr_len);
    push_bytes(&mut buf, value.as_slice());
    proof {
        lemma_one_attr(BINDING_ERROR, ATTR_ERROR_CODE, v, txn@, attr_len, msg_len);
        assert(buf@ =~= error_bytes(code, reason@, txn@));
    }
    buf
}

/// A message of one attribute, spelled with truncated length fields.
proof fn lemma_one_attr(
    msg_type: u16,
    attr_type: u16,
    value: Seq<u8>,
    txn: Seq<u8>,
    attr_len: u16,
    msg_len: u16,
)
    requires
        attr_len == value.len() % 0x1_0000,
        msg_len == (padded(value).len() % 0x1_0000 + 4) % 0x1_0000,
    ensures
        attr_bytes(attr_type, value) == crate::wire::be_bytes(attr_type as nat, 2)
            + crate::wire::be_bytes(attr_len as nat, 2) + padded(value),
        header_bytes(msg_type, attr_bytes(attr_type, value).len(), txn) == header_bytes(
            msg_type,
            msg_len as nat,
            txn,
        ),
{
    let pad = padded(value);
    let total = attr_bytes(attr_type, value).len();
    assert(total == 4 + pad.len()) by {
        crate::wire::lemma_be_bytes_len(attr_type as nat, 2);
        crate::wire::lemma_be_bytes_len(value.len(), 2);
    }
    assert(msg_len == total % 0x1_0000);
    crate::wire::lemma_be_bytes_mod_2(value.len());
    crate::wire::lemma_be_bytes_mod_2(total);
}

// ---------------------------------------------------------------------------
// Parsing
// ---------------------------------------------------------------------------

/// Cheap packet classification: true when the buffer plausibly starts a STUN
/// message.
///
/// STUN keeps its first two bits zero; QUIC always sets bit `0x40` of its
/// first byte, so this never takes a QUIC datagram for STUN.
pub fn is_stun_packet(buf: &[u8]) -> (res: bool)
    ensures
        res == stun_like(buf@),
{
    if buf.len() < HEADER_LEN {
        return false;
    }
    let first = buf[0];
    assert((first & 0xc0 == 0) == (first < 0x40)) by (bit_vector);
    first & 0xc0 == 0
}

/// What a datagram says as a Binding Request: its transaction id.
pub open spec fn request_outcome(buf: Seq<u8>) -> Result<Seq<u8>, RequestError> {
    if buf.len() < HEADER_LEN {
        Err(RequestError::TooShort)
    } else if !stun_like(buf) {
        Err(RequestError::NotStun)
    } else if type_of(buf) != BINDING_REQUEST {
        Err(RequestError::UnexpectedType(type_of(buf)))
    } else if cookie_of(buf) != MAGIC_COOKIE {
        Err(RequestError::CookieMismatch)
    } else {
        Ok(txn_of(buf))
    }
}

/// Parse a Binding Request and return its transaction id.
///
/// Checks type, cookie and length, so that a server only answers well-formed
/// requests.
pub fn parse_binding_request(buf: &[u8]) -> (res: Result<TransactionId, RequestError>)
    ensures
        match res {
            Ok(txn) => request_outcome(buf@) == Ok::<Seq<u8>, RequestError>(txn@),
            Err(e) => request_outcome(buf@) == Err::<Seq<u8>, RequestError>(e),
        },
{
    if buf.len() < HEADER_LEN {
        return Err(RequestError::TooShort);
    }
    if !is_stun_packet(buf) {
        return Err(RequestError::NotStun);
    }
    let msg_type = read_u16(buf, 0);
    if msg_type != BINDING_REQUEST {
        return Err(RequestError::UnexpectedType(msg_type));
    }
    if read_u32(buf, 4) != MAGIC_COOKIE {
        return Err(RequestError::CookieMismatch);
    }
    Ok(TransactionId::from_slice(buf, 8))
}

/// Where the value of the wanted attribute stands in an attribute section.
fn attr_range(attrs: &[u8], attr_type: u16, min_len: usize) -> (res: Option<(usize, usize)>)
    ensures
        match res {
            Some((lo, hi)) => lo <= hi <= attrs@.len() && find_attr(
                attrs@,
                attr_type,
                min_len as nat,
            ) == Some(attrs@.subrange(lo as int, hi as int)),
            None => find_attr(attrs@, attr_type, min_len as nat) is None,
        },
{
    let mut at: usize = 0;
    assert(attrs@.skip(0) =~= attrs@);
    assert(attrs@.len() == attrs.len());
    loop
        invariant
            at <= attrs@.len() == attrs.len(),
            find_attr(attrs@, attr_type, min_len as nat) == find_attr(
                attrs@.skip(at as int),
                attr_type,
                min_len as nat,
            ),
        decreases attrs@.len() - at,
    {
        let ghost rest = attrs@.skip(at as int);
        let left: usize = attrs.len() - at;
        if left < ATTR_HEADER_LEN {
            return None;
        }
        assert(rest.subrange(0, 2) =~= attrs@.subrange(at as int, at + 2));
        assert(rest.subrange(2, 4) =~= attrs@.subrange(at + 2, at + 4));
        let this_type = read_u16(attrs, at);
        let value_len: usize = read_u16(attrs, at + 2) as usize;
        let value_end: usize = ATTR_HEADER_LEN + value_len;
        if left < value_end {
            return None;
        }
        if this_type == attr_type && value_len >= min_len {
            assert(rest.subrange(4, value_end as int) =~= attrs@.subrange(at + 4, at + value_end));
            return Some((at + ATTR_HEADER_LEN, at + value_end));
        }
        // Values are padded to four-byte alignment, and the padding is not
        // counted in the attribute's length.
        let skipped: usize = (value_end + 3) / 4 * 4;
        if skipped >= left {
            return None;
        }
        assert(rest.skip(skipped as int) =~= attrs@.skip(at + skipped));
        at = at + skipped;
    }
}

/// The address in an attribute section: that of the first
/// XOR-MAPPED-ADDRESS, where it holds one.
pub open spec fn address_in(attrs: Seq<u8>, txn: Seq<u8>) -> Option<crate::addr::SocketAddrView> {
    match find_attr(attrs, ATTR_XOR_MAPPED_ADDRESS, 0) {
        Some(value) => unmask_address(value, txn),
        None => None,
    }
}

fn parse_xor_mapped_address(attrs: &[u8], txn: &TransactionId) -> (res: Option<SocketAddr>)
    ensures
        match res {
            Some(a) => address_in(attrs@, txn@) == Some(a@),
            None => address_in(attrs@, txn@) is None,
        },
{
    match attr_range(attrs, ATTR_XOR_MAPPED_ADDRESS, 0) {
        Some((lo, hi)) => decode_xor_mapped(&attrs[lo..hi], txn),
        None => None,
    }
}

fn decode_xor_mapped(value: &[u8], txn: &TransactionId) -> (res: Option<SocketAddr>)
    ensures
        match res {
            Some(a) => unmask_address(value@, txn@) == Some(a@),
            None => unmask_address(value@, txn@) is None,
        },
{
    if value.len() < 4 {
        return None;
    }
    let family = value[1];
    let port = read_u16(value, 2) ^ PORT_MASK;
    if family == 0x01 && value.len() >= 8 {
        let mut octets: Vec<u8> = Vec::with_capacity(4);
        push_masked(&mut octets, &value[4..8], txn);
        assert(octets@ =~= masked(value@.subrange(4, 8), txn@));
        let ip: [u8; 4] = [octets[0], octets[1], octets[2], octets[3]];
        assert(ip@ =~= octets@);
        Some(SocketAddr::new(IpAddr::V4(ip), port))
    } else if family == 0x02 && value.len() >= 20 {
        let mut octets: Vec<u8> = Vec::with_capacity(16);
        push_masked(&mut octets, &value[4..20], txn);
        assert(octets@ =~= masked(value@.subrange(4, 20), txn@));
        let ip = crate::addr::octets16(octets.as_slice());
        Some(SocketAddr::new(IpAddr::V6(ip), port))
    } else {
        None
    }
}

/// The error in an attribute section: that of the first ERROR-CODE with room
/// for a code.
pub open spec fn error_in(attrs: Seq<u8>) -> Option<StunErrorView> {
    match find_attr(attrs, ATTR_ERROR_CODE, 4) {
        Some(value) => Some(error_of_value(value)),
        None => None,
    }
}

fn parse_error_code(attrs: &[u8]) -> (res: Option<StunError>)
    ensures
        match res {
            Some(e) => error_in(attrs@) == Some(e@),
            None => error_in(attrs@) is None,
        },
{
    match attr_range(attrs, ATTR_ERROR_CODE, 4) {
        Some((lo, hi)) => {
            let value = &attrs[lo..hi];
            proof {
                lemma_find_attr_len(attrs@, ATTR_ERROR_CODE, 4);
            }
            let byte: u8 = value[2];
            assert(byte & 0x07 == byte % 8) by (bit_vector);
            let class: u16 = (byte & 0x07) as u16;
            let number: u16 = value[3] as u16;
            let reason = lossy_trimmed(&value[4..value.len()]);
            assert(value@.subrange(4, value@.len() as int) =~= value@.skip(4));
            Some(StunError { code: class * 100 + number, reason })
        },
        None => None,
    }
}

/// A value that was found is as long as was asked for.
proof fn lemma_find_attr_len(attrs: Seq<u8>, attr_type: u16, min_len: nat)
    ensures
        find_attr(attrs, attr_type, min_len) matches Some(v) ==> v.len() >= min_len,
    decreases attrs.len(),
{
    if attrs.len() >= ATTR_HEADER_LEN {
        let value_end = ATTR_HEADER_LEN + crate::wire::be_value(attrs.subrange(2, 4));
        if value_end <= attrs.len() && pad4(value_end as nat) < attrs.len() {
            lemma_find_attr_len(attrs.skip(pad4(value_end as nat) as int), attr_type, min_len);
        }
    }
}

/// What a datagram says as the response to the request with id `expected`:
/// the address it reports.
pub open spec fn response_outcome(buf: Seq<u8>, expected: Seq<u8>) -> Result<
    crate::addr::SocketAddrView,
    ResponseErrorView,
> {
    if buf.len() < HEADER_LEN {
        Err(ResponseErrorView::TooShort(buf.len() as usize))
    } else if !stun_like(buf) {
        Err(ResponseErrorView::NotStun)
    } else if type_of(buf) != BINDING_SUCCESS && type_of(buf) != BINDING_ERROR {
        Err(ResponseErrorView::UnexpectedType(type_of(buf)))
    } else if cookie_of(buf) != MAGIC_COOKIE {
        Err(ResponseErrorView::CookieMismatch(cookie_of(buf)))
    } else if txn_of(buf) != expected {
        if type_of(buf) == BINDING_ERROR {
            Err(ResponseErrorView::ErrorTransactionMismatch)
        } else {
            Err(ResponseErrorView::TransactionMismatch)
        }
    } else if buf.len() < HEADER_LEN + length_of(buf) {
        Err(ResponseErrorView::Truncated)
    } else if type_of(buf) == BINDING_ERROR {
        match error_in(attrs_of(buf)) {
            Some(e) => Err(ResponseErrorView::Server(e)),
            None => Err(ResponseErrorView::NoErrorCode),
        }
    } else {
        match address_in(attrs_of(buf), txn_of(buf)) {
            Some(a) => Ok(a),
            None => Err(ResponseErrorView::NoAddress),
        }
    }
}

/// Parse and authenticate a Binding Response.
///
/// Rejects foreign traffic by design: any length, type, cookie or
/// transaction-id mismatch returns an error, so callers can drop the datagram
/// and keep waiting for the real response.
pub fn parse_binding_response(buf: &[u8], expected_txn: &TransactionId) -> (res: Result<
    BindingResponse,
    ResponseError,
>)
    ensures
        match res {
            Ok(r) => response_outcome(buf@, expected_txn@) == Ok::<
                crate::addr::SocketAddrView,
                ResponseErrorView,
            >(r.xor_mapped_address@),
            Err(e) => response_outcome(buf@, expected_txn@) == Err::<
                crate::addr::SocketAddrView,
                ResponseErrorView,
            >(e@),
        },
{
    if buf.len() < HEADER_LEN {
        return Err(ResponseError::TooShort(buf.len()));
    }
    if !is_stun_packet(buf) {
        return Err(ResponseError::NotStun);
    }
    let msg_type = read_u16(buf, 0);
    let msg_len: usize = read_u16(buf, 2) as usize;
    if msg_type != BINDING_SUCCESS && msg_type != BINDING_ERROR {
        return Err(ResponseError::UnexpectedType(msg_type));
    }
    let cookie = read_u32(buf, 4);
    if cookie != MAGIC_COOKIE {
        return Err(ResponseError::CookieMismatch(cookie));
    }
    let txn = TransactionId::from_slice(buf, 8);
    if txn != *expected_txn {
        // An error is authenticated before it is surfaced, so spoofed errors
        // cannot terminate a live probe.
        return Err(
            if msg_type == BINDING_ERROR {
                ResponseError::ErrorTransactionMismatch
            } else {
                ResponseError::TransactionMismatch
            },
        );
    }
    if buf.len() < HEADER_LEN + msg_len {
        return Err(ResponseError::Truncated);
    }
    let attrs = &buf[HEADER_LEN..HEADER_LEN + msg_len];
    if msg_type == BINDING_ERROR {
        match parse_error_code(attrs) {
            Some(e) => Err(ResponseError::Server(e)),
            None => Err(ResponseError::NoErrorCode),
        }
    } else {
        match parse_xor_mapped_address(attrs, &txn) {
            Some(addr) => Ok(BindingResponse { xor_mapped_address: addr }),
            None => Err(ResponseError::NoAddress),
        }
    }
}

/// What a datagram says as an error response to the request with id
/// `expected`.
pub open spec fn auth_error_outcome(buf: Seq<u8>, expected: Seq<u8>) -> Result<
    StunErrorView,
    AuthError,
> {
    if buf.len() < HEADER_LEN {
        Err(AuthError::TooShort)
    } else if type_of(buf) != BINDING_ERROR {
        Err(AuthError::NotErrorResponse)
    } else if cookie_of(buf) != MAGIC_COOKIE {
        Err(AuthError::CookieMismatch)
    } else if txn_of(buf) != expected {
        Err(AuthError::TransactionMismatch)
    } else if buf.len() < HEADER_LEN + length_of(buf) {
        Err(AuthError::Truncated)
    } else {
        match error_in(attrs_of(buf)) {
            Some(e) => Ok(e),
            None => Err(AuthError::NoErrorCode),
        }
    }
}

/// Extract the [`StunError`] from a Binding *Error* Response, authenticating
/// it against `expected_txn` first.
///
/// `Ok(error)` means the server explicitly rejected *our* request (probing
/// should stop); `Err(_)` means this datagram is not an error response
/// addressed to us (callers may ignore it).
pub fn parse_authenticated_error(buf: &[u8], expected_txn: &TransactionId) -> (res: Result<
    StunError,
    AuthError,
>)
    ensures
        match res {
            Ok(e) => auth_error_outcome(buf@, expected_txn@) == Ok::<StunErrorView, AuthError>(e@),
            Err(e) => auth_error_outcome(buf@, expected_txn@) == Err::<StunErrorView, AuthError>(e),
        },
{
    if buf.len() < HEADER_LEN {
        return Err(AuthError::TooShort);
    }
    if read_u16(buf, 0) != BINDING_ERROR {
        return Err(AuthError::NotErrorResponse);
    }
    if read_u32(buf, 4) != MAGIC_COOKIE {
        return Err(AuthError::CookieMismatch);
    }
    let txn = TransactionId::from_slice(buf, 8);
    if txn != *expected_txn {
        return Err(AuthError::TransactionMismatch);
    }
    let msg_len: usize = read_u16(buf, 2) as usize;
    if buf.len() < HEADER_LEN + msg_len {
        return Err(AuthError::Truncated);
    }
    match parse_error_code(&buf[HEADER_LEN..HEADER_LEN + msg_len]) {
        Some(e) => Ok(e),
        None => Err(AuthError::NoErrorCode),
    }
}

} // verus!
