//! The extension codec's handling of scalar functions.
//!
//! A function whose payload is empty belongs to the inner codec (built-in
//! functions, known by name alone). A non-empty payload is a wire record
//! written by this codec for a foreign function. Serializing the callable and
//! converting type descriptors are done by the caller around these steps.
use vstd::prelude::*;
use crate::wire::{
    decode_record, encode_record, lemma_record_round_trip, record_fits, UdfProto, UdfRecord,
    Volatility,
};

verus! {

/// Why a function payload could not be decoded.
#[derive(Clone, Copy, Debug, PartialEq, Eq, Structural)]
pub enum CodecError {
    /// The payload is not a well-formed wire record.
    Deserialization,
}

/// Where a decoded function payload goes.
pub enum UdfPayload {
    /// Empty payload: the inner codec decodes the function by its name.
    Inner,
    /// A wire record written by this codec.
    Foreign(UdfProto),
}

/// What a payload means, over the record's model.
pub enum PayloadModel {
    Inner,
    Foreign(UdfRecord),
}

impl View for UdfPayload {
    type V = PayloadModel;

    open spec fn view(&self) -> PayloadModel {
        match self {
            UdfPayload::Inner => PayloadModel::Inner,
            UdfPayload::Foreign(p) => PayloadModel::Foreign(p@),
        }
    }
}

/// The meaning of a payload, or `None` when it is malformed.
pub open spec fn payload_of(s: Seq<u8>) -> Option<PayloadModel> {
    if s.len() == 0 {
        Some(PayloadModel::Inner)
    } else {
        match decode_record(s) {
            None => None,
            Some(r) => Some(PayloadModel::Foreign(r)),
        }
    }
}

/// The record written for a foreign function.
pub open spec fn foreign_record(
    volatility: Volatility,
    input_types: Seq<Seq<u8>>,
    return_type: Seq<u8>,
    blob: Seq<u8>,
) -> UdfRecord {
    UdfRecord { volatility, input_types, result_type: Some(return_type), blob }
}

/// Decides where a function payload goes: to the inner codec when it is
/// empty, else through the wire record, which must be well formed.
pub fn try_decode_udf(buf: &[u8]) -> (r: Result<UdfPayload, CodecError>)
    ensures
        match payload_of(buf@) {
            None => r == Err::<UdfPayload, CodecError>(CodecError::Deserialization),
            Some(m) => r matches Ok(p) && p@ == m,
        },
{
    if buf.len() == 0 {
        return Ok(UdfPayload::Inner);
    }
    match UdfProto::decode(buf) {
        None => Err(CodecError::Deserialization),
        Some(p) => Ok(UdfPayload::Foreign(p)),
    }
}

/// Appends the wire record of a foreign function to `buf`: its volatility,
/// its argument and result type descriptors, and its serialized callable.
pub fn try_encode_udf(
    volatility: &Volatility,
    input_types: &[Vec<u8>],
    return_type: &[u8],
    blob: Vec<u8>,
    buf: &mut Vec<u8>,
)
    ensures
        final(buf)@ == old(buf)@ + encode_record(
            foreign_record(
                *volatility,
                input_types@.map_values(|t: Vec<u8>| t@),
                return_type@,
                blob@,
            ),
        ),
{
    let record = UdfProto::try_from_udf(volatility, input_types, return_type, blob);
    assert(record@.input_types =~= input_types@.map_values(|t: Vec<u8>| t@));
    record.encode(buf);
}

/// A foreign function's payload is never empty, and decoding it gives back
/// the same volatility, argument types, result type and serialized callable.
pub proof fn lemma_foreign_round_trip(
    volatility: Volatility,
    input_types: Seq<Seq<u8>>,
    return_type: Seq<u8>,
    blob: Seq<u8>,
)
    requires
        forall|k: int| 0 <= k < input_types.len() ==> #[trigger] input_types[k].len() <= u64::MAX,
        return_type.len() <= u64::MAX,
        blob.len() <= u64::MAX,
    ensures
        ({
            let r = foreign_record(volatility, input_types, return_type, blob);
            &&& encode_record(r).len() > 0
            &&& payload_of(encode_record(r)) == Some(PayloadModel::Foreign(r))
        }),
{
    let r = foreign_record(volatility, input_types, return_type, blob);
    assert(record_fits(r));
    lemma_record_round_trip(r);
    let c = crate::wire::delimited(crate::wire::KEY_RESULT_TYPE, return_type);
    assert(c.len() > 0);
}

/// A payload goes to the inner codec exactly when it is empty: the empty
/// payload that the inner codec writes for a built-in function comes back to
/// it, and no other payload does.
pub proof fn lemma_payload_routing(payload: Seq<u8>)
    ensures
        payload_of(payload) == Some(PayloadModel::Inner) <==> payload.len() == 0,
{
}

} // verus!
