//! The round-trip laws of the codec, stated once in one place.
//!
//! The workhorse proofs live beside the parser
//! ([`crate::parse::lemma_parse_of_ser_message`] and the codec lemmas);
//! this module states the laws a user of the crate relies on, in the
//! form they are usually quoted.

use vstd::prelude::*;

use crate::attribute::{wf_attr, wf_groups, AttrV, GroupV};
use crate::codec::{ser_attr, ser_cont_values, ser_entry, ser_message, ser_value_with_name};
use crate::model::IppHeader;
use crate::parse::{parse_message, MsgV, ParseError};
use crate::value::{
    decode_value, lemma_decode_value_round_trip, value_body, value_tag, wf_value, ValueV,
};

verus! {

/// Decoding inverts encoding: every well-formed value of every
/// supported type, encoded under its canonical tag and body, decodes
/// back to itself.
pub proof fn law_value_round_trip(v: ValueV)
    requires
        wf_value(v),
    ensures
        decode_value(value_tag(v), value_body(v)) == Some(v),
{
    lemma_decode_value_round_trip(v);
}

/// Parsing inverts serialization: every well-formed message, with its
/// group order, attribute order, value order and payload, parses back
/// to itself.
pub proof fn law_message_round_trip(h: IppHeader, gs: Seq<GroupV>, payload: Seq<u8>)
    requires
        wf_groups(gs),
    ensures
        parse_message(ser_message(h, gs, payload)) == Ok::<_, ParseError>(
            MsgV { header: h, groups: gs, payload },
        ),
{
    crate::parse::lemma_parse_of_ser_message(h, gs, payload);
}

/// A multi-value attribute serializes to exactly one entry that
/// carries the name, followed by one nameless continuation entry per
/// remaining value, in value order: the continuation entries are the
/// nameless entries of `values[1..]`, each a single [`ser_entry`] with
/// an empty name.
pub proof fn law_multi_value_layout(a: AttrV)
    requires
        wf_attr(a),
    ensures
        ser_attr(a) == ser_entry(value_tag(a.values[0]), a.name, value_body(a.values[0]))
            + ser_cont_values(a.values.skip(1)),
        forall|vs: Seq<ValueV>|
            vs.len() > 0 ==> #[trigger] ser_cont_values(vs) == ser_entry(
                value_tag(vs[0]),
                Seq::empty(),
                value_body(vs[0]),
            ) + ser_cont_values(vs.skip(1)),
{
}

/// The end-of-attributes tag is immediately followed by the payload:
/// what the parser leaves as residual bytes is exactly the payload the
/// serializer was given, of exactly its length.
pub proof fn law_payload_boundary(h: IppHeader, gs: Seq<GroupV>, payload: Seq<u8>)
    requires
        wf_groups(gs),
    ensures
        parse_message(ser_message(h, gs, payload)) is Ok,
        parse_message(ser_message(h, gs, payload))->Ok_0.payload == payload,
        parse_message(ser_message(h, gs, payload))->Ok_0.payload.len() == payload.len(),
{
    crate::parse::lemma_parse_of_ser_message(h, gs, payload);
}

/// A value under a tag nothing recognizes survives a parse and
/// re-encode byte for byte, carried by the `Other` variant.
pub proof fn law_unknown_tag_passthrough(tag: u8, body: Seq<u8>)
    requires
        !crate::value::is_known_value_tag(tag),
    ensures
        decode_value(tag, body) == Some(ValueV::Other { tag, data: body }),
        value_tag(ValueV::Other { tag, data: body }) == tag,
        value_body(ValueV::Other { tag, data: body }) == body,
{
    crate::value::lemma_unknown_tag_passthrough(tag, body);
}

} // verus!
