//! What the STUN codec promises as a whole.

use vstd::prelude::*;
use vstd::utf8::encode_utf8;

use crate::stun::{
    ResponseErrorView, StunErrorView, ATTR_ERROR_CODE, ATTR_XOR_MAPPED_ADDRESS,
    BINDING_ERROR, BINDING_REQUEST, BINDING_SUCCESS, HEADER_LEN, MAGIC_COOKIE, PORT_MASK,
};

verus! {

/// A message of one type that carries an attribute section.
pub open spec fn message(msg_type: u16, attrs: Seq<u8>, txn: Seq<u8>) -> Seq<u8> {
    crate::stun::header_bytes(msg_type, attrs.len(), txn) + attrs
}

/// The fields of a message read back as they were written.
proof fn lemma_message_fields(msg_type: u16, attrs: Seq<u8>, txn: Seq<u8>)
    requires
        txn.len() == 12,
        attrs.len() < 0x1_0000,
    ensures
        message(msg_type, attrs, txn).len() == HEADER_LEN + attrs.len(),
        message(msg_type, attrs, txn)[0] == msg_type / 256,
        crate::stun::type_of(message(msg_type, attrs, txn)) == msg_type,
        crate::stun::length_of(message(msg_type, attrs, txn)) == attrs.len(),
        crate::stun::cookie_of(message(msg_type, attrs, txn)) == MAGIC_COOKIE,
        crate::stun::txn_of(message(msg_type, attrs, txn)) == txn,
        crate::stun::attrs_of(message(msg_type, attrs, txn)) == attrs,
{
    let m = message(msg_type, attrs, txn);
    reveal_with_fuel(crate::wire::byte_range, 5);
    crate::wire::lemma_be_roundtrip(msg_type as nat, 2);
    crate::wire::lemma_be_roundtrip(attrs.len(), 2);
    crate::wire::lemma_be_roundtrip(MAGIC_COOKIE as nat, 4);
    crate::wire::lemma_be_bytes_2(msg_type as nat);
    assert(m.subrange(0, 2) =~= crate::wire::be_bytes(msg_type as nat, 2));
    assert(m.subrange(2, 4) =~= crate::wire::be_bytes(attrs.len(), 2));
    assert(m.subrange(4, 8) =~= crate::wire::be_bytes(MAGIC_COOKIE as nat, 4));
    assert(m.subrange(8, 20) =~= txn);
    assert(m.subrange(20, m.len() as int) =~= attrs);
}

/// The fields of an attribute at the head of a section.
proof fn lemma_attr_head(attr_type: u16, value: Seq<u8>, rest: Seq<u8>)
    requires
        value.len() < 0x1_0000,
    ensures
        crate::stun::attr_bytes(attr_type, value).len() == crate::stun::pad4(4 + value.len()),
        crate::wire::be_value(
            (crate::stun::attr_bytes(attr_type, value) + rest).subrange(0, 2),
        ) == attr_type,
        crate::wire::be_value(
            (crate::stun::attr_bytes(attr_type, value) + rest).subrange(2, 4),
        ) == value.len(),
        (crate::stun::attr_bytes(attr_type, value) + rest).subrange(4, 4 + value.len() as int) == value,
{
    let s = crate::stun::attr_bytes(attr_type, value) + rest;
    reveal_with_fuel(crate::wire::byte_range, 5);
    crate::wire::lemma_be_roundtrip(attr_type as nat, 2);
    crate::wire::lemma_be_roundtrip(value.len(), 2);
    assert(s.subrange(0, 2) =~= crate::wire::be_bytes(attr_type as nat, 2));
    assert(s.subrange(2, 4) =~= crate::wire::be_bytes(value.len(), 2));
    assert(s.subrange(4, 4 + value.len() as int) =~= value);
}

/// A Binding Request reads back as its own transaction id.
pub proof fn law_request_roundtrip(txn: Seq<u8>)
    requires
        txn.len() == 12,
    ensures
        crate::stun::request_outcome(crate::stun::header_bytes(BINDING_REQUEST, 0, txn)) == Ok::<
            Seq<u8>,
            crate::stun::RequestError,
        >(txn),
{
    lemma_message_fields(BINDING_REQUEST, Seq::empty(), txn);
    assert(message(BINDING_REQUEST, Seq::empty(), txn) =~= crate::stun::header_bytes(
        BINDING_REQUEST,
        0,
        txn,
    ));
}

/// The mask undoes itself.
proof fn lemma_mask_involution(octets: Seq<u8>, txn: Seq<u8>)
    ensures
        crate::stun::masked(crate::stun::masked(octets, txn), txn) == octets,
{
    let twice = crate::stun::masked(crate::stun::masked(octets, txn), txn);
    assert forall|i: int| 0 <= i < octets.len() implies twice[i] == octets[i] by {
        let a = octets[i];
        let m = crate::stun::xor_mask(txn)[i];
        assert((a ^ m) ^ m == a) by (bit_vector);
    }
    assert(twice =~= octets);
}

/// The value of an XOR-MAPPED-ADDRESS stands for the address it was made of.
proof fn lemma_unmask(octets: Seq<u8>, port: u16, txn: Seq<u8>)
    requires
        octets.len() == 4 || octets.len() == 16,
    ensures
        crate::stun::xor_mapped_value(octets, port, txn).len() == 4 + octets.len(),
        crate::stun::unmask_address(crate::stun::xor_mapped_value(octets, port, txn), txn) == Some(
            crate::addr::plain_addr(octets, port),
        ),
{
    let v = crate::stun::xor_mapped_value(octets, port, txn);
    let n = octets.len() as int;
    let masked_port = port ^ PORT_MASK;
    reveal_with_fuel(crate::wire::byte_range, 5);
    crate::wire::lemma_be_roundtrip(masked_port as nat, 2);
    assert(v.subrange(2, 4) =~= crate::wire::be_bytes(masked_port as nat, 2));
    assert(v.subrange(4, 4 + n) =~= crate::stun::masked(octets, txn));
    assert((port ^ PORT_MASK) ^ PORT_MASK == port) by (bit_vector);
    lemma_mask_involution(octets, txn);
}

/// What a server encodes for an observed address, the client that sent the
/// request decodes to exactly that address, in both address families.
pub proof fn law_success_roundtrip(octets: Seq<u8>, port: u16, txn: Seq<u8>)
    requires
        octets.len() == 4 || octets.len() == 16,
        txn.len() == 12,
    ensures
        crate::stun::response_outcome(crate::stun::success_bytes(octets, port, txn), txn) == Ok::<
            crate::addr::SocketAddrView,
            ResponseErrorView,
        >(crate::addr::plain_addr(octets, port)),
{
    let v = crate::stun::xor_mapped_value(octets, port, txn);
    let attr = crate::stun::attr_bytes(ATTR_XOR_MAPPED_ADDRESS, v);
    lemma_unmask(octets, port, txn);
    lemma_attr_head(ATTR_XOR_MAPPED_ADDRESS, v, Seq::empty());
    assert(attr + Seq::<u8>::empty() =~= attr);
    assert(crate::stun::find_attr(attr, ATTR_XOR_MAPPED_ADDRESS, 0) == Some(v));
    lemma_message_fields(BINDING_SUCCESS, attr, txn);
}

/// Whether an error response with this reason fits its 16-bit length field.
pub open spec fn reason_fits(reason: Seq<char>) -> bool {
    crate::stun::pad4(8 + encode_utf8(reason).len()) < 0x1_0000
}

/// An ERROR-CODE value stands for the code and the reason it was made of.
proof fn lemma_error_value(code: u16, reason: Seq<char>)
    requires
        code < 800,
    ensures
        crate::stun::error_of_value(crate::stun::error_value(code, reason)) == (StunErrorView {
            code,
            reason: crate::text::trimmed(reason),
        }),
{
    let v = crate::stun::error_value(code, reason);
    assert(v.skip(4) =~= encode_utf8(reason));
    vstd::utf8::encode_utf8_valid_utf8(reason);
    vstd::utf8::encode_utf8_decode_utf8(reason);
    assert((code / 100) % 8 == code / 100);
    assert(code == (code / 100) * 100 + code % 100);
}

/// A section of one attribute holds that attribute.
proof fn lemma_single_attr(attr_type: u16, value: Seq<u8>, min_len: nat)
    requires
        crate::stun::pad4(4 + value.len()) < 0x1_0000,
        min_len <= value.len(),
    ensures
        crate::stun::attr_bytes(attr_type, value).len() == crate::stun::pad4(4 + value.len()),
        crate::stun::find_attr(crate::stun::attr_bytes(attr_type, value), attr_type, min_len)
            == Some(value),
{
    let attr = crate::stun::attr_bytes(attr_type, value);
    lemma_attr_head(attr_type, value, Seq::empty());
    assert(attr + Seq::<u8>::empty() =~= attr);
}

/// An error response reads back, for the client whose transaction it answers,
/// as the code and the trimmed reason it was made of. Codes have one class
/// digit of three bits.
pub proof fn law_error_roundtrip(code: u16, reason: Seq<char>, txn: Seq<u8>)
    requires
        code < 800,
        reason_fits(reason),
        txn.len() == 12,
    ensures
        crate::stun::auth_error_outcome(crate::stun::error_bytes(code, reason, txn), txn) == Ok::<
            StunErrorView,
            crate::stun::AuthError,
        >(StunErrorView { code, reason: crate::text::trimmed(reason) }),
        crate::stun::response_outcome(crate::stun::error_bytes(code, reason, txn), txn) == Err::<
            crate::addr::SocketAddrView,
            ResponseErrorView,
        >(
            ResponseErrorView::Server(
                StunErrorView { code, reason: crate::text::trimmed(reason) },
            ),
        ),
{
    let v = crate::stun::error_value(code, reason);
    assert(v.len() == 4 + encode_utf8(reason).len());
    lemma_error_value(code, reason);
    lemma_single_attr(ATTR_ERROR_CODE, v, 4);
    lemma_message_fields(BINDING_ERROR, crate::stun::attr_bytes(ATTR_ERROR_CODE, v), txn);
}

/// A response for another transaction is rejected as unauthenticated: it
/// neither yields an address nor is it surfaced as a server error.
pub proof fn law_foreign_transaction_rejected(buf: Seq<u8>, expected: Seq<u8>)
    requires
        buf.len() < HEADER_LEN || crate::stun::txn_of(buf) != expected,
    ensures
        crate::stun::response_outcome(buf, expected) matches Err(e) && !(e is Server),
        crate::stun::auth_error_outcome(buf, expected) is Err,
{
}

/// A response for one transaction mismatches when another is expected,
/// whatever it carries.
proof fn lemma_other_transaction(
    msg_type: u16,
    attrs: Seq<u8>,
    txn: Seq<u8>,
    expected: Seq<u8>,
)
    requires
        msg_type == BINDING_SUCCESS || msg_type == BINDING_ERROR,
        attrs.len() < 0x1_0000,
        txn.len() == 12,
        txn != expected,
    ensures
        crate::stun::response_outcome(message(msg_type, attrs, txn), expected) == Err::<
            crate::addr::SocketAddrView,
            ResponseErrorView,
        >(
            if msg_type == BINDING_ERROR {
                ResponseErrorView::ErrorTransactionMismatch
            } else {
                ResponseErrorView::TransactionMismatch
            },
        ),
        msg_type == BINDING_ERROR ==> crate::stun::auth_error_outcome(
            message(msg_type, attrs, txn),
            expected,
        ) == Err::<StunErrorView, crate::stun::AuthError>(
            crate::stun::AuthError::TransactionMismatch,
        ),
{
    lemma_message_fields(msg_type, attrs, txn);
}

/// A success response or an error response made for one transaction is
/// answered, when another transaction is expected, with that very mismatch.
pub proof fn law_other_transaction_mismatch(
    octets: Seq<u8>,
    port: u16,
    code: u16,
    reason: Seq<char>,
    txn: Seq<u8>,
    expected: Seq<u8>,
)
    requires
        octets.len() == 4 || octets.len() == 16,
        reason_fits(reason),
        txn.len() == 12,
        txn != expected,
    ensures
        crate::stun::response_outcome(crate::stun::success_bytes(octets, port, txn), expected)
            == Err::<crate::addr::SocketAddrView, ResponseErrorView>(
            ResponseErrorView::TransactionMismatch,
        ),
        crate::stun::response_outcome(crate::stun::error_bytes(code, reason, txn), expected)
            == Err::<crate::addr::SocketAddrView, ResponseErrorView>(
            ResponseErrorView::ErrorTransactionMismatch,
        ),
        crate::stun::auth_error_outcome(crate::stun::error_bytes(code, reason, txn), expected)
            == Err::<StunErrorView, crate::stun::AuthError>(
            crate::stun::AuthError::TransactionMismatch,
        ),
{
    let v = crate::stun::xor_mapped_value(octets, port, txn);
    let a = crate::stun::attr_bytes(ATTR_XOR_MAPPED_ADDRESS, v);
    assert(a.len() < 0x1_0000) by {
        lemma_unmask(octets, port, txn);
        lemma_attr_head(ATTR_XOR_MAPPED_ADDRESS, v, Seq::empty());
    }
    lemma_other_transaction(BINDING_SUCCESS, a, txn, expected);
    let e = crate::stun::error_value(code, reason);
    let b = crate::stun::attr_bytes(ATTR_ERROR_CODE, e);
    assert(b.len() < 0x1_0000) by {
        lemma_attr_head(ATTR_ERROR_CODE, e, Seq::empty());
    }
    lemma_other_transaction(BINDING_ERROR, b, txn, expected);
}

/// Both parsers agree on which datagrams are a server's rejection of our own
/// request, and on its code and reason.
pub proof fn law_rejection_agreement(buf: Seq<u8>, expected: Seq<u8>, error: StunErrorView)
    ensures
        crate::stun::response_outcome(buf, expected) == Err::<
            crate::addr::SocketAddrView,
            ResponseErrorView,
        >(ResponseErrorView::Server(error)) <==> crate::stun::auth_error_outcome(buf, expected)
            == Ok::<StunErrorView, crate::stun::AuthError>(error),
{
    if buf.len() >= HEADER_LEN && crate::stun::type_of(buf) == BINDING_ERROR {
        let s = buf.subrange(0, 2);
        crate::wire::lemma_be_value_2(s);
        assert(crate::wire::be_value(s) == 0x0111);
        assert(s[0] == 1);
    }
}

/// No QUIC packet is taken for STUN: QUIC sets bit `0x40` of its first byte.
pub proof fn law_quic_is_not_stun(buf: Seq<u8>)
    requires
        buf.len() > 0,
        buf[0] & 0x40 != 0,
    ensures
        !crate::stun::stun_like(buf),
{
    let first = buf[0];
    assert(first & 0x40 != 0 ==> first >= 0x40) by (bit_vector);
}

/// Every message that the encoders make is classified as STUN.
pub proof fn law_encoded_is_stun(
    octets: Seq<u8>,
    port: u16,
    code: u16,
    reason: Seq<char>,
    txn: Seq<u8>,
)
    requires
        txn.len() == 12,
    ensures
        crate::stun::stun_like(crate::stun::header_bytes(BINDING_REQUEST, 0, txn)),
        crate::stun::stun_like(crate::stun::success_bytes(octets, port, txn)),
        crate::stun::stun_like(crate::stun::error_bytes(code, reason, txn)),
{
    lemma_header_is_stun(BINDING_REQUEST, 0, txn);
    let a = crate::stun::attr_bytes(
        ATTR_XOR_MAPPED_ADDRESS,
        crate::stun::xor_mapped_value(octets, port, txn),
    );
    lemma_header_is_stun(BINDING_SUCCESS, a.len(), txn);
    let e = crate::stun::attr_bytes(ATTR_ERROR_CODE, crate::stun::error_value(code, reason));
    lemma_header_is_stun(BINDING_ERROR, e.len(), txn);
}

proof fn lemma_header_is_stun(msg_type: u16, msg_len: nat, txn: Seq<u8>)
    requires
        msg_type < 0x4000,
        txn.len() == 12,
    ensures
        crate::stun::stun_like(crate::stun::header_bytes(msg_type, msg_len, txn)),
        crate::stun::header_bytes(msg_type, msg_len, txn).len() == HEADER_LEN,
{
    crate::wire::lemma_be_bytes_2(msg_type as nat);
    crate::wire::lemma_be_bytes_2(msg_len);
    crate::wire::lemma_be_bytes_len(MAGIC_COOKIE as nat, 4);
}

/// An attribute of another type in front, padding included, does not change
/// what is found behind it.
pub proof fn law_foreign_attribute_skipped(
    foreign: u16,
    value: Seq<u8>,
    rest: Seq<u8>,
    attr_type: u16,
    min_len: nat,
)
    requires
        foreign != attr_type,
        value.len() < 0x1_0000,
    ensures
        crate::stun::find_attr(
            crate::stun::attr_bytes(foreign, value) + rest,
            attr_type,
            min_len,
        ) == crate::stun::find_attr(rest, attr_type, min_len),
{
    let attr = crate::stun::attr_bytes(foreign, value);
    lemma_attr_head(foreign, value, rest);
    assert((attr + rest).skip(attr.len() as int) =~= rest);
}

/// A response with an attribute of some other type spliced in front, and its
/// length field raised to match, reads as the response without it.
pub proof fn law_spliced_response(
    msg_type: u16,
    foreign: u16,
    value: Seq<u8>,
    attrs: Seq<u8>,
    txn: Seq<u8>,
    expected: Seq<u8>,
)
    requires
        msg_type == BINDING_SUCCESS || msg_type == BINDING_ERROR,
        foreign != ATTR_XOR_MAPPED_ADDRESS,
        foreign != ATTR_ERROR_CODE,
        crate::stun::pad4(4 + value.len()) + attrs.len() < 0x1_0000,
        txn.len() == 12,
    ensures
        crate::stun::response_outcome(
            message(msg_type, crate::stun::attr_bytes(foreign, value) + attrs, txn),
            expected,
        ) == crate::stun::response_outcome(message(msg_type, attrs, txn), expected),
{
    let attr = crate::stun::attr_bytes(foreign, value);
    lemma_attr_head(foreign, value, attrs);
    lemma_message_fields(msg_type, attr + attrs, txn);
    lemma_message_fields(msg_type, attrs, txn);
    law_foreign_attribute_skipped(foreign, value, attrs, ATTR_XOR_MAPPED_ADDRESS, 0);
    law_foreign_attribute_skipped(foreign, value, attrs, ATTR_ERROR_CODE, 4);
}

/// An error response is padded: its length is a multiple of four, and its
/// length field counts everything behind the header.
pub proof fn law_error_is_aligned(code: u16, reason: Seq<char>, txn: Seq<u8>)
    requires
        reason_fits(reason),
        txn.len() == 12,
    ensures
        crate::stun::error_bytes(code, reason, txn).len() % 4 == 0,
        crate::stun::error_bytes(code, reason, txn).len() == HEADER_LEN + crate::stun::length_of(
            crate::stun::error_bytes(code, reason, txn),
        ),
{
    let v = crate::stun::error_value(code, reason);
    assert(v.len() == 4 + encode_utf8(reason).len());
    lemma_single_attr(ATTR_ERROR_CODE, v, 4);
    lemma_aligned_message(BINDING_ERROR, crate::stun::attr_bytes(ATTR_ERROR_CODE, v), txn);
    lemma_pad4(4 + v.len());
}

proof fn lemma_pad4(n: nat)
    ensures
        crate::stun::pad4(n) % 4 == 0,
{
}

/// A message is as long as its header and its attributes.
proof fn lemma_aligned_message(msg_type: u16, attrs: Seq<u8>, txn: Seq<u8>)
    requires
        txn.len() == 12,
        attrs.len() < 0x1_0000,
    ensures
        message(msg_type, attrs, txn).len() == HEADER_LEN + attrs.len(),
        crate::stun::length_of(message(msg_type, attrs, txn)) == attrs.len(),
        attrs.len() % 4 == 0 ==> message(msg_type, attrs, txn).len() % 4 == 0,
{
    lemma_message_fields(msg_type, attrs, txn);
}

// ---------------------------------------------------------------------------
// The codec byte by byte
// ---------------------------------------------------------------------------

/// The 16-bit number at offset `at`.
pub open spec fn pair(buf: Seq<u8>, at: int) -> int {
    buf[at] * 256 + buf[at + 1]
}

/// The bytes of the magic cookie.
proof fn lemma_cookie_bytes()
    ensures
        crate::wire::be_bytes(MAGIC_COOKIE as nat, 4) == seq![0x21u8, 0x12u8, 0xa4u8, 0x42u8],
{
    crate::wire::lemma_be_bytes_4(MAGIC_COOKIE as nat);
    crate::wire::lemma_be_bytes_2(MAGIC_COOKIE as nat);
    crate::wire::lemma_be_bytes_2(MAGIC_COOKIE as nat / 65536);
    assert(crate::wire::be_bytes(MAGIC_COOKIE as nat, 4) =~= seq![0x21u8, 0x12u8, 0xa4u8, 0x42u8]);
}

/// A header is the message type, the length of what follows, the magic cookie
/// and the transaction id, in this order.
pub proof fn law_header_layout(msg_type: u16, msg_len: u16, txn: Seq<u8>)
    requires
        txn.len() == 12,
    ensures
        crate::stun::header_bytes(msg_type, msg_len as nat, txn) == seq![
            (msg_type / 256) as u8,
            (msg_type % 256) as u8,
            (msg_len / 256) as u8,
            (msg_len % 256) as u8,
            0x21u8,
            0x12u8,
            0xa4u8,
            0x42u8,
        ] + txn,
{
    lemma_cookie_bytes();
    crate::wire::lemma_be_bytes_2(msg_type as nat);
    crate::wire::lemma_be_bytes_2(msg_len as nat);
    assert(crate::stun::header_bytes(msg_type, msg_len as nat, txn) =~= seq![
        (msg_type / 256) as u8,
        (msg_type % 256) as u8,
        (msg_len / 256) as u8,
        (msg_len % 256) as u8,
        0x21u8,
        0x12u8,
        0xa4u8,
        0x42u8,
    ] + txn);
}

/// A Binding Request is twenty bytes: type 1, no attributes, the magic cookie
/// and the transaction id.
pub proof fn law_request_layout(txn: Seq<u8>)
    requires
        txn.len() == 12,
    ensures
        crate::stun::header_bytes(BINDING_REQUEST, 0, txn) == seq![
            0x00u8,
            0x01u8,
            0x00u8,
            0x00u8,
            0x21u8,
            0x12u8,
            0xa4u8,
            0x42u8,
        ] + txn,
{
    law_header_layout(BINDING_REQUEST, 0, txn);
}

/// A byte under a mask, where the masks are the halves of a 16-bit one.
proof fn lemma_masked_port(port: u16)
    ensures
        ((port ^ PORT_MASK) / 256) as u8 == ((port / 256) as u8) ^ 0x21u8,
        ((port ^ PORT_MASK) % 256) as u8 == ((port % 256) as u8) ^ 0x12u8,
{
    assert(((port ^ 0x2112u16) / 256) as u8 == ((port / 256) as u8) ^ 0x21u8) by (bit_vector);
    assert(((port ^ 0x2112u16) % 256) as u8 == ((port % 256) as u8) ^ 0x12u8) by (bit_vector);
}

/// A Binding Success Response byte by byte. The port is masked with 21 12;
/// byte `i` of the address is masked with byte `i` of 21 12 a4 42 for the
/// first four bytes and with byte `i - 4` of the transaction id after them.
pub proof fn law_success_layout(octets: Seq<u8>, port: u16, txn: Seq<u8>)
    requires
        octets.len() == 4 || octets.len() == 16,
        txn.len() == 12,
    ensures
        ({
            let b = crate::stun::success_bytes(octets, port, txn);
            &&& b.len() == 28 + octets.len()
            &&& b.subrange(0, 20) == seq![
                0x01u8,
                0x01u8,
                0x00u8,
                (8 + octets.len()) as u8,
                0x21u8,
                0x12u8,
                0xa4u8,
                0x42u8,
            ] + txn
            &&& b.subrange(20, 24) == seq![0x00u8, 0x20u8, 0x00u8, (4 + octets.len()) as u8]
            &&& b[24] == 0
            &&& b[25] == (if octets.len() == 4 {
                1
            } else {
                2int
            })
            &&& b[26] == ((port / 256) as u8) ^ 0x21u8
            &&& b[27] == ((port % 256) as u8) ^ 0x12u8
            &&& b[28] == octets[0] ^ 0x21u8
            &&& b[29] == octets[1] ^ 0x12u8
            &&& b[30] == octets[2] ^ 0xa4u8
            &&& b[31] == octets[3] ^ 0x42u8
            &&& forall|i: int|
                4 <= i < octets.len() ==> #[trigger] b[28 + i] == octets[i] ^ txn[i - 4]
        }),
{
    let b = crate::stun::success_bytes(octets, port, txn);
    let v = crate::stun::xor_mapped_value(octets, port, txn);
    let attr = crate::stun::attr_bytes(ATTR_XOR_MAPPED_ADDRESS, v);
    lemma_unmask(octets, port, txn);
    lemma_attr_head(ATTR_XOR_MAPPED_ADDRESS, v, Seq::empty());
    assert(crate::stun::padded(v) =~= v);
    crate::wire::lemma_be_bytes_2(ATTR_XOR_MAPPED_ADDRESS as nat);
    crate::wire::lemma_be_bytes_2(v.len());
    crate::wire::lemma_be_bytes_2((port ^ PORT_MASK) as nat);
    lemma_masked_port(port);
    lemma_cookie_bytes();
    law_header_layout(BINDING_SUCCESS, (8 + octets.len()) as u16, txn);
    assert(attr =~= seq![0x00u8, 0x20u8, 0x00u8, (4 + octets.len()) as u8] + v);
    assert(b.subrange(0, 20) =~= seq![
        0x01u8,
        0x01u8,
        0x00u8,
        (8 + octets.len()) as u8,
        0x21u8,
        0x12u8,
        0xa4u8,
        0x42u8,
    ] + txn);
    assert(b.subrange(20, 24) =~= attr.subrange(0, 4));
    assert forall|i: int| 0 <= i < octets.len() implies #[trigger] b[28 + i] == octets[i]
        ^ crate::stun::xor_mask(txn)[i] by {
        assert(b[28 + i] == v[4 + i]);
    }
    assert(b[28int + 0] == octets[0] ^ 0x21u8);
    assert(b[28int + 1] == octets[1] ^ 0x12u8);
    assert(b[28int + 2] == octets[2] ^ 0xa4u8);
    assert(b[28int + 3] == octets[3] ^ 0x42u8);
    assert(b[24] == v[0] && b[25] == v[1] && b[26] == v[2] && b[27] == v[3]);
}

/// An attribute byte by byte: type, length of the bare value, the value, and
/// zeros up to a multiple of four.
pub proof fn law_attribute_layout(attr_type: u16, value: Seq<u8>)
    requires
        value.len() < 0x1_0000,
    ensures
        ({
            let a = crate::stun::attr_bytes(attr_type, value);
            &&& a.len() % 4 == 0
            &&& 4 + value.len() <= a.len() < 8 + value.len()
            &&& pair(a, 0) == attr_type
            &&& pair(a, 2) == value.len()
            &&& a.subrange(4, 4 + value.len() as int) == value
            &&& forall|i: int| 4 + value.len() <= i < a.len() ==> #[trigger] a[i] == 0
        }),
{
    let a = crate::stun::attr_bytes(attr_type, value);
    crate::wire::lemma_be_bytes_2(attr_type as nat);
    crate::wire::lemma_be_bytes_2(value.len());
    assert(a.subrange(4, 4 + value.len() as int) =~= value);
}

/// A Binding Error Response byte by byte: the hundreds of the code and the
/// rest of it, then the reason in UTF-8, padded with zeros to a multiple of
/// four. The attribute's length leaves the padding out, the message's counts
/// it.
pub proof fn law_error_layout(code: u16, reason: Seq<char>, txn: Seq<u8>)
    requires
        encode_utf8(reason).len() < 0x1_0000 - 16,
        txn.len() == 12,
    ensures
        ({
            let b = crate::stun::error_bytes(code, reason, txn);
            let n = encode_utf8(reason).len() as int;
            &&& b.len() % 4 == 0
            &&& 28 + n <= b.len() < 32 + n
            &&& b.subrange(0, 2) == seq![0x01u8, 0x11u8]
            &&& pair(b, 2) == b.len() - 20
            &&& b.subrange(4, 20) == seq![0x21u8, 0x12u8, 0xa4u8, 0x42u8] + txn
            &&& b.subrange(20, 22) == seq![0x00u8, 0x09u8]
            &&& pair(b, 22) == 4 + n
            &&& b[24] == 0 && b[25] == 0
            &&& b[26] == code / 100 % 8
            &&& b[27] == code % 100
            &&& b.subrange(28, 28 + n) == encode_utf8(reason)
            &&& forall|i: int| 28 + n <= i < b.len() ==> #[trigger] b[i] == 0
        }),
{
    let b = crate::stun::error_bytes(code, reason, txn);
    let n = encode_utf8(reason).len() as int;
    let v = crate::stun::error_value(code, reason);
    let attr = crate::stun::attr_bytes(ATTR_ERROR_CODE, v);
    assert(v.len() == 4 + n);
    law_attribute_layout(ATTR_ERROR_CODE, v);
    law_header_layout(BINDING_ERROR, attr.len() as u16, txn);
    lemma_error_parts(b, attr, v, code, encode_utf8(reason), txn);
}

/// A header with an attribute behind it, part by part.
proof fn lemma_error_parts(
    b: Seq<u8>,
    attr: Seq<u8>,
    v: Seq<u8>,
    code: u16,
    reason: Seq<u8>,
    txn: Seq<u8>,
)
    requires
        txn.len() == 12,
        attr.len() < 0x1_0000,
        b == seq![
            0x01u8,
            0x11u8,
            (attr.len() / 256) as u8,
            (attr.len() % 256) as u8,
            0x21u8,
            0x12u8,
            0xa4u8,
            0x42u8,
        ] + txn + attr,
        v == seq![0x00u8, 0x00u8, (code / 100 % 8) as u8, (code % 100) as u8] + reason,
        attr.len() % 4 == 0,
        4 + v.len() <= attr.len() < 8 + v.len(),
        pair(attr, 0) == 9,
        pair(attr, 2) == v.len(),
        attr.subrange(4, 4 + v.len() as int) == v,
        forall|i: int| 4 + v.len() <= i < attr.len() ==> #[trigger] attr[i] == 0,
    ensures
        ({
            let n = reason.len() as int;
            &&& b.len() % 4 == 0
            &&& 28 + n <= b.len() < 32 + n
            &&& b.subrange(0, 2) == seq![0x01u8, 0x11u8]
            &&& pair(b, 2) == b.len() - 20
            &&& b.subrange(4, 20) == seq![0x21u8, 0x12u8, 0xa4u8, 0x42u8] + txn
            &&& b.subrange(20, 22) == seq![0x00u8, 0x09u8]
            &&& pair(b, 22) == 4 + n
            &&& b[24] == 0 && b[25] == 0
            &&& b[26] == code / 100 % 8
            &&& b[27] == code % 100
            &&& b.subrange(28, 28 + n) == reason
            &&& forall|i: int| 28 + n <= i < b.len() ==> #[trigger] b[i] == 0
        }),
{
    let n = reason.len() as int;
    assert(b.subrange(0, 2) =~= seq![0x01u8, 0x11u8]);
    assert(b.subrange(4, 20) =~= seq![0x21u8, 0x12u8, 0xa4u8, 0x42u8] + txn);
    assert(b.subrange(20, 22) =~= seq![0x00u8, 0x09u8]);
    assert forall|i: int| 24 <= i < 28 + n implies #[trigger] b[i] == v[i - 24] by {
        assert(attr.subrange(4, 4 + v.len() as int)[i - 24] == attr[i - 20]);
    }
    assert(b.subrange(28, 28 + n) =~= reason);
}

/// What the fields of a datagram read as, byte by byte.
proof fn lemma_fields(buf: Seq<u8>)
    requires
        buf.len() >= 20,
    ensures
        crate::stun::type_of(buf) == pair(buf, 0),
        crate::stun::length_of(buf) == pair(buf, 2),
        crate::stun::cookie_of(buf) == pair(buf, 4) * 65536 + pair(buf, 6),
        crate::stun::cookie_of(buf) == MAGIC_COOKIE <==> buf.subrange(4, 8) == seq![
            0x21u8,
            0x12u8,
            0xa4u8,
            0x42u8,
        ],
{
    crate::wire::lemma_be_value_2(buf.subrange(0, 2));
    crate::wire::lemma_be_value_2(buf.subrange(2, 4));
    let c = buf.subrange(4, 8);
    crate::wire::lemma_be_value_4(c);
    crate::wire::lemma_be_value_2(c.subrange(0, 2));
    crate::wire::lemma_be_value_2(c.subrange(2, 4));
    assert(c[0] == buf[4] && c[1] == buf[5] && c[2] == buf[6] && c[3] == buf[7]);
    let cookie = seq![0x21u8, 0x12u8, 0xa4u8, 0x42u8];
    if crate::stun::cookie_of(buf) == MAGIC_COOKIE {
        assert(c =~= cookie);
    }
    if c == cookie {
        assert(c[0] == 0x21 && c[1] == 0x12 && c[2] == 0xa4 && c[3] == 0x42);
    }
}

/// Which datagrams are refused as a response, and why: what is wrong first, in
/// the order length, first two bits, type, cookie, transaction, claimed
/// length.
pub proof fn law_refused_responses(buf: Seq<u8>, expected: Seq<u8>)
    requires
        buf.len() <= usize::MAX,
    ensures
        ({
            let res = crate::stun::response_outcome(buf, expected);
            let cookie = seq![0x21u8, 0x12u8, 0xa4u8, 0x42u8];
            &&& buf.len() < 20 ==> res == Err::<crate::addr::SocketAddrView, ResponseErrorView>(
                ResponseErrorView::TooShort(buf.len() as usize),
            )
            &&& buf.len() >= 20 && buf[0] >= 0x40 ==> res == Err::<
                crate::addr::SocketAddrView,
                ResponseErrorView,
            >(ResponseErrorView::NotStun)
            &&& buf.len() >= 20 && buf[0] < 0x40 && pair(buf, 0) != 0x0101 && pair(buf, 0)
                != 0x0111 ==> res == Err::<crate::addr::SocketAddrView, ResponseErrorView>(
                ResponseErrorView::UnexpectedType(pair(buf, 0) as u16),
            )
            &&& buf.len() >= 20 && (pair(buf, 0) == 0x0101 || pair(buf, 0) == 0x0111) ==> {
                &&& buf.subrange(4, 8) != cookie ==> res == Err::<
                    crate::addr::SocketAddrView,
                    ResponseErrorView,
                >(
                    ResponseErrorView::CookieMismatch(
                        (pair(buf, 4) * 65536 + pair(buf, 6)) as u32,
                    ),
                )
                &&& buf.subrange(4, 8) == cookie && buf.subrange(8, 20) != expected ==> res == Err::<
                    crate::addr::SocketAddrView,
                    ResponseErrorView,
                >(
                    if pair(buf, 0) == 0x0111 {
                        ResponseErrorView::ErrorTransactionMismatch
                    } else {
                        ResponseErrorView::TransactionMismatch
                    },
                )
                &&& buf.subrange(4, 8) == cookie && buf.subrange(8, 20) == expected && buf.len()
                    < 20 + pair(buf, 2) ==> res == Err::<
                    crate::addr::SocketAddrView,
                    ResponseErrorView,
                >(ResponseErrorView::Truncated)
            }
        }),
{
    if buf.len() >= 20 {
        lemma_fields(buf);
    }
}

/// An address comes out of a datagram only where it is a whole success
/// response to our own request, and a server's error only where it is a whole
/// error response to it.
pub proof fn law_only_own_responses_count(buf: Seq<u8>, expected: Seq<u8>)
    ensures
        ({
            let res = crate::stun::response_outcome(buf, expected);
            let own = buf.len() >= 20 && buf.subrange(4, 8) == seq![
                0x21u8,
                0x12u8,
                0xa4u8,
                0x42u8,
            ] && buf.subrange(8, 20) == expected && 20 + pair(buf, 2) <= buf.len();
            &&& res is Ok ==> own && buf[0] == 0x01 && buf[1] == 0x01
            &&& (res matches Err(e) && e is Server) ==> own && buf[0] == 0x01 && buf[1] == 0x11
            &&& crate::stun::auth_error_outcome(buf, expected) is Ok ==> own && buf[0] == 0x01
                && buf[1] == 0x11
        }),
{
    if buf.len() >= 20 {
        lemma_fields(buf);
    }
}

/// The head of an attribute section, byte by byte.
proof fn lemma_section_head(buf: Seq<u8>)
    requires
        buf.len() >= 24,
        4 <= pair(buf, 2),
        20 + pair(buf, 2) <= buf.len(),
    ensures
        ({
            let attrs = crate::stun::attrs_of(buf);
            &&& attrs.len() == pair(buf, 2)
            &&& crate::wire::be_value(attrs.subrange(0, 2)) == pair(buf, 20)
            &&& crate::wire::be_value(attrs.subrange(2, 4)) == pair(buf, 22)
            &&& forall|i: int| 0 <= i < attrs.len() ==> #[trigger] attrs[i] == buf[20 + i]
        }),
{
    lemma_fields(buf);
    let attrs = crate::stun::attrs_of(buf);
    crate::wire::lemma_be_value_2(attrs.subrange(0, 2));
    crate::wire::lemma_be_value_2(attrs.subrange(2, 4));
}

/// What a masked byte pair stands for.
proof fn lemma_unmasked_port(hi: u8, lo: u8)
    ensures
        ((hi as u16 * 256 + lo as u16) as u16) ^ PORT_MASK == (hi ^ 0x21u8) as u16 * 256 + (lo
            ^ 0x12u8) as u16,
{
    assert(((hi as u16 * 256 + lo as u16) as u16) ^ 0x2112u16 == (hi ^ 0x21u8) as u16 * 256 + (lo
        ^ 0x12u8) as u16) by (bit_vector);
}

/// A success response to our own request whose first attribute is an
/// XOR-MAPPED-ADDRESS reports the address in it, byte by byte: octet `i` is
/// the byte on the wire under byte `i` of 21 12 a4 42, and from the fifth on
/// under byte `i - 4` of the transaction id.
pub proof fn law_success_is_decoded(buf: Seq<u8>, txn: Seq<u8>)
    requires
        txn.len() == 12,
        buf.len() >= 28,
        buf[0] == 0x01 && buf[1] == 0x01,
        buf.subrange(4, 8) == seq![0x21u8, 0x12u8, 0xa4u8, 0x42u8],
        buf.subrange(8, 20) == txn,
        20 + pair(buf, 2) <= buf.len(),
        buf[20] == 0x00 && buf[21] == 0x20,
        4 + pair(buf, 22) <= pair(buf, 2),
    ensures
        ({
            let res = crate::stun::response_outcome(buf, txn);
            let len = pair(buf, 22);
            let family = buf[25];
            &&& len >= 8 && family == 1 ==> {
                &&& res matches Ok(a)
                &&& a.octets == seq![
                    buf[28] ^ 0x21u8,
                    buf[29] ^ 0x12u8,
                    buf[30] ^ 0xa4u8,
                    buf[31] ^ 0x42u8,
                ]
                &&& a.port == (buf[26] ^ 0x21u8) * 256 + (buf[27] ^ 0x12u8)
                &&& a.flowinfo == 0 && a.scope_id == 0
            }
            &&& len >= 20 && family == 2 ==> {
                &&& res matches Ok(a)
                &&& a.octets.len() == 16
                &&& a.octets[0] == buf[28] ^ 0x21u8
                &&& a.octets[1] == buf[29] ^ 0x12u8
                &&& a.octets[2] == buf[30] ^ 0xa4u8
                &&& a.octets[3] == buf[31] ^ 0x42u8
                &&& forall|i: int|
                    4 <= i < 16 ==> #[trigger] a.octets[i] == buf[28 + i] ^ txn[i - 4]
                &&& a.port == (buf[26] ^ 0x21u8) * 256 + (buf[27] ^ 0x12u8)
                &&& a.flowinfo == 0 && a.scope_id == 0
            }
            &&& !(len >= 8 && family == 1) && !(len >= 20 && family == 2) ==> res == Err::<
                crate::addr::SocketAddrView,
                ResponseErrorView,
            >(ResponseErrorView::NoAddress)
        }),
{
    lemma_fields(buf);
    lemma_section_head(buf);
    lemma_cookie_bytes();
    let attrs = crate::stun::attrs_of(buf);
    let len = pair(buf, 22);
    let v = attrs.subrange(4, 4 + len);
    assert(crate::stun::find_attr(attrs, ATTR_XOR_MAPPED_ADDRESS, 0) == Some(v));
    assert forall|i: int| 0 <= i < len implies #[trigger] v[i] == buf[24 + i] by {
        assert(attrs[4 + i] == buf[20 + (4 + i)]);
    }
    if len >= 4 {
        let p = v.subrange(2, 4);
        crate::wire::lemma_be_value_2(p);
        assert(p[0] == v[2] && p[1] == v[3]);
        lemma_unmasked_port(buf[26], buf[27]);
        assert(v[1] == buf[25] && v[2] == buf[26] && v[3] == buf[27]);
    }
    if len >= 8 {
        assert(v[4] == buf[28] && v[5] == buf[29] && v[6] == buf[30] && v[7] == buf[31]);
        assert(crate::stun::masked(v.subrange(4, 8), txn) =~= seq![
            buf[28] ^ 0x21u8,
            buf[29] ^ 0x12u8,
            buf[30] ^ 0xa4u8,
            buf[31] ^ 0x42u8,
        ]);
    }
    if len >= 20 {
        let w = v.subrange(4, 20);
        let octets = crate::stun::masked(w, txn);
        assert forall|i: int| 4 <= i < 16 implies #[trigger] octets[i] == buf[28 + i]
            ^ txn[i - 4] by {
            assert(w[i] == v[4 + i]);
            assert(v[4 + i] == buf[24 + (4 + i)]);
        }
    }
}

/// An error response to our own request whose first attribute is an ERROR-CODE
/// with room for a code reports that code and the reason behind it.
pub proof fn law_error_is_decoded(buf: Seq<u8>, txn: Seq<u8>)
    requires
        buf.len() >= 28,
        buf[0] == 0x01 && buf[1] == 0x11,
        buf.subrange(4, 8) == seq![0x21u8, 0x12u8, 0xa4u8, 0x42u8],
        buf.subrange(8, 20) == txn,
        20 + pair(buf, 2) <= buf.len(),
        buf[20] == 0x00 && buf[21] == 0x09,
        4 <= pair(buf, 22),
        4 + pair(buf, 22) <= pair(buf, 2),
    ensures
        ({
            let error = StunErrorView {
                code: ((buf[26] % 8) * 100 + buf[27]) as u16,
                reason: crate::text::trimmed(
                    crate::text::lossy_text(buf.subrange(28, 24 + pair(buf, 22))),
                ),
            };
            &&& crate::stun::auth_error_outcome(buf, txn) == Ok::<
                StunErrorView,
                crate::stun::AuthError,
            >(error)
            &&& crate::stun::response_outcome(buf, txn) == Err::<
                crate::addr::SocketAddrView,
                ResponseErrorView,
            >(ResponseErrorView::Server(error))
        }),
{
    lemma_fields(buf);
    lemma_section_head(buf);
    let attrs = crate::stun::attrs_of(buf);
    let v = attrs.subrange(4, 4 + pair(buf, 22));
    assert(crate::stun::find_attr(attrs, ATTR_ERROR_CODE, 4) == Some(v));
    assert(v.skip(4) =~= buf.subrange(28, 24 + pair(buf, 22)));
    assert(v[2] == buf[26]) by {
        assert(attrs[6] == buf[20int + 6]);
    }
    assert(v[3] == buf[27]) by {
        assert(attrs[7] == buf[20int + 7]);
    }
}

/// What stands behind the claimed length of a response is not looked at.
pub proof fn law_trailing_bytes_ignored(buf: Seq<u8>, rest: Seq<u8>, expected: Seq<u8>)
    requires
        buf.len() >= 20,
        20 + pair(buf, 2) <= buf.len(),
    ensures
        crate::stun::response_outcome(buf + rest, expected) == crate::stun::response_outcome(
            buf,
            expected,
        ),
        crate::stun::auth_error_outcome(buf + rest, expected) == crate::stun::auth_error_outcome(
            buf,
            expected,
        ),
        crate::stun::request_outcome(buf + rest) == crate::stun::request_outcome(buf),
{
    let more = buf + rest;
    lemma_fields(buf);
    lemma_fields(more);
    assert(more.subrange(4, 8) =~= buf.subrange(4, 8));
    assert(more.subrange(8, 20) =~= buf.subrange(8, 20));
    assert(crate::stun::attrs_of(more) =~= crate::stun::attrs_of(buf));
}

/// An attribute that is not asked for changes nothing: a response reads as the
/// one with that attribute and its padding cut out, and the length lowered to
/// match. A success response asks for type 0x0020, an error response for type
/// 0x0009 with at least four bytes.
pub proof fn law_other_attribute_stepped_over(buf: Seq<u8>, step: int, expected: Seq<u8>)
    requires
        buf.len() >= 24,
        20 + pair(buf, 2) <= buf.len(),
        pair(buf, 0) == 0x0101 && pair(buf, 20) != 0x0020 || pair(buf, 0) == 0x0111 && (pair(
            buf,
            20,
        ) != 0x0009 || pair(buf, 22) < 4),
        step % 4 == 0,
        4 + pair(buf, 22) <= step < 8 + pair(buf, 22),
        step <= pair(buf, 2),
    ensures
        ({
            let n = pair(buf, 2) - step;
            let cut = buf.subrange(0, 2) + seq![(n / 256) as u8, (n % 256) as u8] + buf.subrange(
                4,
                20,
            ) + buf.skip(20 + step);
            crate::stun::response_outcome(buf, expected) == crate::stun::response_outcome(
                cut,
                expected,
            )
        }),
{
    let n = pair(buf, 2) - step;
    let cut = buf.subrange(0, 2) + seq![(n / 256) as u8, (n % 256) as u8] + buf.subrange(4, 20)
        + buf.skip(20 + step);
    lemma_fields(buf);
    lemma_section_head(buf);
    lemma_fields(cut);
    assert(cut.subrange(4, 8) =~= buf.subrange(4, 8));
    assert(cut.subrange(8, 20) =~= buf.subrange(8, 20));
    assert(pair(cut, 2) == n);
    let attrs = crate::stun::attrs_of(buf);
    let rest = crate::stun::attrs_of(cut);
    assert(rest =~= attrs.skip(step));
    assert(crate::stun::pad4((4 + pair(buf, 22)) as nat) == step);
    if pair(buf, 0) == 0x0101 {
        if step < attrs.len() {
            assert(crate::stun::find_attr(attrs, ATTR_XOR_MAPPED_ADDRESS, 0)
                == crate::stun::find_attr(rest, ATTR_XOR_MAPPED_ADDRESS, 0));
        }
    } else {
        if step < attrs.len() {
            assert(crate::stun::find_attr(attrs, ATTR_ERROR_CODE, 4) == crate::stun::find_attr(
                rest,
                ATTR_ERROR_CODE,
                4,
            ));
        }
    }
}

/// A response to our own request in which no attribute is left, because the
/// section is too short for one or for what it claims, reports that nothing
/// was found.
pub proof fn law_nothing_found(buf: Seq<u8>, txn: Seq<u8>)
    requires
        buf.len() >= 20,
        buf[0] == 0x01 && (buf[1] == 0x01 || buf[1] == 0x11),
        buf.subrange(4, 8) == seq![0x21u8, 0x12u8, 0xa4u8, 0x42u8],
        buf.subrange(8, 20) == txn,
        20 + pair(buf, 2) <= buf.len(),
        pair(buf, 2) < 4 || pair(buf, 2) < 4 + pair(buf, 22),
    ensures
        crate::stun::response_outcome(buf, txn) == Err::<
            crate::addr::SocketAddrView,
            ResponseErrorView,
        >(
            if buf[1] == 0x01 {
                ResponseErrorView::NoAddress
            } else {
                ResponseErrorView::NoErrorCode
            },
        ),
{
    lemma_fields(buf);
    if pair(buf, 2) >= 4 {
        lemma_section_head(buf);
    }
}

/// Which datagrams are refused as an error response to our own request, and
/// why: what is wrong first, in the order length, type, cookie, transaction,
/// claimed length.
pub proof fn law_refused_rejections(buf: Seq<u8>, expected: Seq<u8>)
    ensures
        ({
            let res = crate::stun::auth_error_outcome(buf, expected);
            let cookie = seq![0x21u8, 0x12u8, 0xa4u8, 0x42u8];
            &&& buf.len() < 20 ==> res == Err::<StunErrorView, crate::stun::AuthError>(
                crate::stun::AuthError::TooShort,
            )
            &&& buf.len() >= 20 && pair(buf, 0) != 0x0111 ==> res == Err::<
                StunErrorView,
                crate::stun::AuthError,
            >(crate::stun::AuthError::NotErrorResponse)
            &&& buf.len() >= 20 && pair(buf, 0) == 0x0111 ==> {
                &&& buf.subrange(4, 8) != cookie ==> res == Err::<
                    StunErrorView,
                    crate::stun::AuthError,
                >(crate::stun::AuthError::CookieMismatch)
                &&& buf.subrange(4, 8) == cookie && buf.subrange(8, 20) != expected ==> res == Err::<
                    StunErrorView,
                    crate::stun::AuthError,
                >(crate::stun::AuthError::TransactionMismatch)
                &&& buf.subrange(4, 8) == cookie && buf.subrange(8, 20) == expected && buf.len()
                    < 20 + pair(buf, 2) ==> res == Err::<StunErrorView, crate::stun::AuthError>(
                    crate::stun::AuthError::Truncated,
                )
                &&& buf.subrange(4, 8) == cookie && buf.subrange(8, 20) == expected && buf.len()
                    >= 20 + pair(buf, 2) ==> (res is Ok || res == Err::<
                    StunErrorView,
                    crate::stun::AuthError,
                >(crate::stun::AuthError::NoErrorCode))
            }
        }),
{
    if buf.len() >= 20 {
        lemma_fields(buf);
    }
}

/// Which datagrams are a Binding Request, with which transaction id, and why
/// the others are none.
pub proof fn law_requests_recognized(buf: Seq<u8>)
    ensures
        ({
            let res = crate::stun::request_outcome(buf);
            let cookie = seq![0x21u8, 0x12u8, 0xa4u8, 0x42u8];
            &&& buf.len() < 20 ==> res == Err::<Seq<u8>, crate::stun::RequestError>(
                crate::stun::RequestError::TooShort,
            )
            &&& buf.len() >= 20 && buf[0] >= 0x40 ==> res == Err::<
                Seq<u8>,
                crate::stun::RequestError,
            >(crate::stun::RequestError::NotStun)
            &&& buf.len() >= 20 && buf[0] < 0x40 && pair(buf, 0) != 0x0001 ==> res == Err::<
                Seq<u8>,
                crate::stun::RequestError,
            >(crate::stun::RequestError::UnexpectedType(pair(buf, 0) as u16))
            &&& buf.len() >= 20 && pair(buf, 0) == 0x0001 && buf.subrange(4, 8) != cookie ==> res
                == Err::<Seq<u8>, crate::stun::RequestError>(
                crate::stun::RequestError::CookieMismatch,
            )
            &&& buf.len() >= 20 && pair(buf, 0) == 0x0001 && buf.subrange(4, 8) == cookie ==> res
                == Ok::<Seq<u8>, crate::stun::RequestError>(buf.subrange(8, 20))
        }),
{
    if buf.len() >= 20 {
        lemma_fields(buf);
    }
}

/// A buffer passes for STUN exactly where it holds a header and its first two
/// bits are zero.
pub proof fn law_stun_starts_with_two_zero_bits(buf: Seq<u8>)
    ensures
        crate::stun::stun_like(buf) <==> buf.len() >= 20 && buf[0] & 0xc0 == 0,
{
    if buf.len() >= 20 {
        let first = buf[0];
        assert((first & 0xc0 == 0) == (first < 0x40)) by (bit_vector);
    }
}

/// Two transaction ids are the same exactly where all their bytes are, and two
/// errors exactly where code and reason are.
pub proof fn law_same_transaction(
    a: crate::stun::TransactionId,
    b: crate::stun::TransactionId,
    e: crate::stun::StunError,
    f: crate::stun::StunError,
)
    ensures
        vstd::std_specs::cmp::PartialEqSpec::eq_spec(&a, &b) <==> forall|i: int|
            0 <= i < 12 ==> #[trigger] a@[i] == b@[i],
        vstd::std_specs::cmp::PartialEqSpec::eq_spec(&e, &f) <==> e.code == f.code && e.reason@
            == f.reason@,
{
    crate::stun::lemma_txn_len(a);
    crate::stun::lemma_txn_len(b);
    if forall|i: int| 0 <= i < 12 ==> #[trigger] a@[i] == b@[i] {
        assert(a@ =~= b@);
    }
}

/// What each refusal says: the numbers it was given, in full.
pub proof fn law_refusal_texts(n: usize, msg_type: u16, cookie: u32, code: u16, reason: Seq<char>)
    ensures
        ResponseErrorView::TooShort(n).text() == "datagram shorter than STUN header ("@
            + crate::text::decimal(n as nat) + ")"@,
        ResponseErrorView::NotStun.text() == "not a STUN packet (top bits set)"@,
        ResponseErrorView::UnexpectedType(msg_type).text() == "unexpected message type 0x"@
            + crate::text::hex(msg_type as nat, 4),
        ResponseErrorView::CookieMismatch(cookie).text() == "magic cookie mismatch (0x"@
            + crate::text::hex(cookie as nat, 8) + ")"@,
        ResponseErrorView::TransactionMismatch.text()
            == "transaction id mismatch (spoofed or stale response)"@,
        ResponseErrorView::ErrorTransactionMismatch.text()
            == "transaction id mismatch on error response"@,
        ResponseErrorView::Truncated.text() == "message length exceeds the datagram"@,
        ResponseErrorView::NoErrorCode.text() == "no ERROR-CODE attribute in error response"@,
        ResponseErrorView::Server(StunErrorView { code, reason }).text()
            == "server returned error StunError { code: "@ + crate::text::decimal(code as nat)
            + ", reason: "@ + crate::text::quoted(reason) + " }"@,
        ResponseErrorView::NoAddress.text() == "no valid XOR-MAPPED-ADDRESS in success response"@,
        crate::stun::AuthError::TooShort.text() == "datagram too short"@,
        crate::stun::AuthError::NotErrorResponse.text() == "not an error response"@,
        crate::stun::AuthError::CookieMismatch.text() == "magic cookie mismatch"@,
        crate::stun::AuthError::TransactionMismatch.text() == "transaction id mismatch"@,
        crate::stun::AuthError::Truncated.text() == "message length exceeds the datagram"@,
        crate::stun::AuthError::NoErrorCode.text() == "no ERROR-CODE attribute"@,
{
}

} // verus!
