//! Query and feed identifiers: 128-bit values that travel as sixteen big-endian bytes.

use vstd::arithmetic::power::*;
use vstd::prelude::*;

verus! {

/// The value of `bytes` read as a big-endian number.
pub open spec fn be_value(bytes: Seq<u8>) -> nat
    decreases bytes.len(),
{
    if bytes.len() == 0 {
        0
    } else {
        be_value(bytes.drop_last()) * 256 + bytes.last() as nat
    }
}

/// The low `len` bytes of `value`, most significant first.
pub open spec fn be_bytes(value: nat, len: nat) -> Seq<u8>
    decreases len,
{
    if len == 0 {
        Seq::empty()
    } else {
        be_bytes(value / 256, (len - 1) as nat).push((value % 256) as u8)
    }
}

/// The sixteen bytes of an identifier.
pub open spec fn id_bytes(id: u128) -> Seq<u8> {
    be_bytes(id as nat, 16)
}

/// The identifier that `bytes` stand for: there is one exactly when there are sixteen of them.
pub open spec fn id_of(bytes: Seq<u8>) -> Option<u128> {
    if bytes.len() == 16 {
        Some(be_value(bytes) as u128)
    } else {
        None
    }
}

/// Writes an identifier with `uuid::Uuid::from_u128` and `uuid::Uuid::as_bytes`: the sixteen
/// bytes of the value, most significant first.
#[verifier::external_body]
pub(crate) fn serialize_uuid(id: u128) -> (r: Vec<u8>)
    ensures
        r@ == id_bytes(id),
{
    uuid::Uuid::from_u128(id).as_bytes().to_vec()
}

/// Reads an identifier with `uuid::Uuid::from_slice`, which fails unless it is given sixteen
/// bytes, and `uuid::Uuid::as_u128`, which takes them most significant first.
#[verifier::external_body]
pub(crate) fn deserialize_uuid(bytes: &Vec<u8>) -> (r: Result<u128, uuid::Error>)
    ensures
        r is Ok <==> bytes@.len() == 16,
        r matches Ok(id) ==> id as nat == be_value(bytes@),
{
    uuid::Uuid::from_slice(bytes).map(|id| id.as_u128())
}

/// Why bytes are no identifier, in the words of the `uuid` crate.
#[verifier::external_type_specification]
#[verifier::external_body]
pub struct ExUuidError(uuid::Error);

proof fn lemma_be_bytes_len(value: nat, len: nat)
    ensures
        be_bytes(value, len).len() == len,
    decreases len,
{
    if len > 0 {
        lemma_be_bytes_len(value / 256, (len - 1) as nat);
    }
}

proof fn lemma_be_value_of_bytes(value: nat, len: nat)
    requires
        value < pow(256, len),
    ensures
        be_value(be_bytes(value, len)) == value,
    decreases len,
{
    lemma_pow0(256);
    if len > 0 {
        lemma_pow_adds(256, (len - 1) as nat, 1);
        lemma_pow1(256);
        let p = pow(256, (len - 1) as nat);
        assert(value / 256 < p) by (nonlinear_arith)
            requires
                value < p * 256,
        ;
        lemma_be_value_of_bytes(value / 256, (len - 1) as nat);
        let s = be_bytes(value, len);
        assert(s.drop_last() =~= be_bytes(value / 256, (len - 1) as nat));
    }
}

proof fn lemma_be_bytes_of_value(bytes: Seq<u8>)
    ensures
        be_bytes(be_value(bytes), bytes.len()) == bytes,
    decreases bytes.len(),
{
    if bytes.len() > 0 {
        lemma_be_bytes_of_value(bytes.drop_last());
        let v = be_value(bytes.drop_last());
        assert(be_value(bytes) / 256 == v && be_value(bytes) % 256 == bytes.last());
        assert(be_bytes(be_value(bytes), bytes.len()) =~= bytes);
    } else {
        assert(be_bytes(0, 0) =~= bytes);
    }
}

proof fn lemma_be_value_bound(bytes: Seq<u8>)
    ensures
        be_value(bytes) < pow(256, bytes.len()),
    decreases bytes.len(),
{
    lemma_pow0(256);
    if bytes.len() > 0 {
        lemma_be_value_bound(bytes.drop_last());
        lemma_pow_adds(256, (bytes.len() - 1) as nat, 1);
        lemma_pow1(256);
    }
}

proof fn lemma_pow_sixteen_bytes()
    ensures
        pow(256, 16) == u128::MAX + 1,
{
    lemma_pow_adds(256, 1, 1);
    lemma_pow_adds(256, 2, 2);
    lemma_pow_adds(256, 4, 4);
    lemma_pow_adds(256, 8, 8);
    lemma_pow1(256);
    assert(pow(256, 2) == 0x1_0000int);
    assert(pow(256, 4) == 0x1_0000int * 0x1_0000int);
    assert(pow(256, 8) == 0x1_0000_0000int * 0x1_0000_0000int);
    assert(pow(256, 16) == 0x1_0000_0000_0000_0000int * 0x1_0000_0000_0000_0000int);
}

/// Reading back the bytes of an identifier gives the identifier.
pub proof fn id_round_trip(id: u128)
    ensures
        id_of(id_bytes(id)) == Some(id),
{
    lemma_be_bytes_len(id as nat, 16);
    lemma_pow_sixteen_bytes();
    lemma_be_value_of_bytes(id as nat, 16);
}

/// Bytes that stand for an identifier are exactly the bytes of that identifier, so two
/// identifiers never share an encoding.
pub proof fn id_bytes_round_trip(bytes: Seq<u8>)
    requires
        bytes.len() == 16,
    ensures
        id_of(bytes) matches Some(id) && id_bytes(id) == bytes,
{
    lemma_be_value_bound(bytes);
    lemma_pow_sixteen_bytes();
    lemma_be_bytes_of_value(bytes);
}

proof fn lemma_byte_places(value: nat, len: nat)
    ensures
        ({
            let bytes = be_bytes(value, len);
            &&& bytes.len() == len
            &&& forall|i: int|
                0 <= i < len ==> #[trigger] bytes[i] == (value as int / pow(
                    256,
                    (len - 1 - i) as nat,
                )) % 256
        }),
    decreases len,
{
    lemma_pow0(256);
    if len > 0 {
        let bytes = be_bytes(value, len);
        let front = be_bytes(value / 256, (len - 1) as nat);
        lemma_byte_places(value / 256, (len - 1) as nat);
        assert forall|i: int| 0 <= i < len implies #[trigger] bytes[i] == (value as int / pow(
            256,
            (len - 1 - i) as nat,
        )) % 256 by {
            if i < front.len() {
                let k = (front.len() - 1 - i) as nat;
                assert(bytes[i] == front[i]);
                lemma_pow_positive(256, k);
                lemma_pow_adds(256, 1, k);
                lemma_pow1(256);
                vstd::arithmetic::div_mod::lemma_div_denominator(value as int, 256, pow(256, k));
                assert(k + 1 == (len - 1 - i) as nat);
            } else {
                assert(value as int / pow(256, 0) == value as int);
            }
        }
    }
}

/// An identifier travels as sixteen bytes, the most significant one first.
pub proof fn ids_travel_big_end_first(id: u128)
    ensures
        id_bytes(id).len() == 16,
        forall|i: int|
            0 <= i < 16 ==> #[trigger] id_bytes(id)[i] == (id as int / pow(256, (15 - i) as nat))
                % 256,
{
    lemma_byte_places(id as nat, 16);
}

/// Bytes stand for an identifier exactly where there are sixteen of them, and two identifiers never
/// have the same bytes.
pub proof fn ids_are_told_apart(bytes: Seq<u8>, a: u128, b: u128)
    ensures
        id_of(bytes) is Some <==> bytes.len() == 16,
        id_of(bytes) matches Some(id) ==> id_bytes(id) == bytes,
        id_bytes(a) == id_bytes(b) <==> a == b,
{
    if bytes.len() == 16 {
        id_bytes_round_trip(bytes);
    }
    id_round_trip(a);
    id_round_trip(b);
}

} // verus!
