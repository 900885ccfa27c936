//! The parser of the IPP wire format.
//!
//! Parsing reads the eight-byte header, then one tag byte at a time:
//! a group delimiter opens a new group, the end-of-attributes tag ends
//! the attribute section, and a value tag introduces an entry whose
//! name either starts a new attribute (non-empty) or continues the
//! previous one (empty).  Whatever follows the end-of-attributes tag is
//! the opaque payload.  The parser stops at the first malformed byte
//! and reports a distinct error for each failure shape.
//!
//! The specification-level parser in this module is the inverse of the
//! serializer of [`crate::codec`]; the lemmas at the end prove it.

use vstd::prelude::*;

use crate::attribute::{attr_views, has_name, value_views, AttrV, GroupV};
use crate::codec::{
    ser_attr, ser_attrs, ser_cont_values, ser_entry, ser_group, ser_groups, ser_header,
    ser_message, ser_value_with_name,
};
use crate::model::{is_group_delimiter, IppHeader, DELIMITER_END_OF_ATTRIBUTES};
use crate::value::{
    decode_value, lemma_decode_value_round_trip, lemma_wf_value_body_len, lemma_wf_value_tag,
    value_body, value_tag, wf_value, IppValue, ValueV,
};
use crate::wire::{lemma_u16_be_round_trip, lemma_u32_be_round_trip, u16_from_be, u32_from_be};

verus! {

/// Why a parse failed.
#[derive(Clone, Copy, PartialEq, Eq, Structural, Debug)]
pub enum ParseError {
    /// The input ended in the middle of a header, an entry or before
    /// the end-of-attributes tag.
    UnexpectedEof,
    /// A tag byte that is neither a delimiter nor a value tag.
    InvalidTag(u8),
    /// A value entry before any group delimiter.
    ValueOutsideGroup,
    /// A continuation entry (empty name) with no attribute before it.
    ContinuationWithoutAttribute,
    /// A second attribute of the same name within one group.
    DuplicateAttribute,
    /// A body whose length does not fit the value tag.
    InvalidValueLength(u8),
}

/// A parsed message: header, groups and the bytes after the
/// end-of-attributes tag.
#[verifier::ext_equal]
pub ghost struct MsgV {
    pub header: IppHeader,
    pub groups: Seq<GroupV>,
    pub payload: Seq<u8>,
}

/// Reads one entry at the head of `b`: its tag, name, body and the
/// remaining bytes.
pub open spec fn parse_entry(b: Seq<u8>) -> Result<(u8, Seq<u8>, Seq<u8>, Seq<u8>), ParseError> {
    if b.len() < 3 {
        Err(ParseError::UnexpectedEof)
    } else {
        let tag = b[0];
        let nlen = u16_from_be(b[1], b[2]) as int;
        if b.len() < 5 + nlen {
            Err(ParseError::UnexpectedEof)
        } else {
            let name = b.subrange(3, 3 + nlen);
            let vlen = u16_from_be(b[3 + nlen], b[4 + nlen]) as int;
            if b.len() < 5 + nlen + vlen {
                Err(ParseError::UnexpectedEof)
            } else {
                Ok((tag, name, b.subrange(5 + nlen, 5 + nlen + vlen), b.skip(5 + nlen + vlen)))
            }
        }
    }
}

/// Whether the head of `b` is a continuation entry: a value tag
/// followed by a zero name-length.
pub open spec fn is_cont_entry(b: Seq<u8>) -> bool {
    b.len() >= 3 && b[0] >= 0x10 && b[1] == 0 && b[2] == 0
}

/// Reads continuation entries while the head of `b` is one, appending
/// their values to `acc`.
pub open spec fn parse_conts(b: Seq<u8>, acc: Seq<ValueV>) -> Result<
    (Seq<ValueV>, Seq<u8>),
    ParseError,
>
    decreases b.len(),
{
    if !is_cont_entry(b) {
        Ok((acc, b))
    } else {
        match parse_entry(b) {
            Err(e) => Err(e),
            Ok((tag, name, body, rest)) => match decode_value(tag, body) {
                None => Err(ParseError::InvalidValueLength(tag)),
                Some(v) => parse_conts(rest, acc.push(v)),
            },
        }
    }
}

/// Reads one attribute: a named entry and its continuation entries.
pub open spec fn parse_attr(b: Seq<u8>) -> Result<(AttrV, Seq<u8>), ParseError> {
    match parse_entry(b) {
        Err(e) => Err(e),
        Ok((tag, name, body, rest)) => {
            if name.len() == 0 {
                Err(ParseError::ContinuationWithoutAttribute)
            } else {
                match decode_value(tag, body) {
                    None => Err(ParseError::InvalidValueLength(tag)),
                    Some(v) => match parse_conts(rest, seq![v]) {
                        Err(e) => Err(e),
                        Ok((vs, rest2)) => Ok((AttrV { name, values: vs }, rest2)),
                    },
                }
            }
        },
    }
}

/// Reading continuation entries never lengthens the input.
pub proof fn lemma_parse_conts_len(b: Seq<u8>, acc: Seq<ValueV>)
    requires
        parse_conts(b, acc) is Ok,
    ensures
        parse_conts(b, acc)->Ok_0.1.len() <= b.len(),
    decreases b.len(),
{
    if is_cont_entry(b) {
        let (tag, name, body, rest) = parse_entry(b)->Ok_0;
        let v = decode_value(tag, body)->Some_0;
        lemma_parse_conts_len(rest, acc.push(v));
    }
}

/// Reading an attribute consumes at least five bytes.
pub proof fn lemma_parse_attr_len(b: Seq<u8>)
    requires
        parse_attr(b) is Ok,
    ensures
        parse_attr(b)->Ok_0.1.len() + 5 <= b.len(),
{
    let (tag, name, body, rest) = parse_entry(b)->Ok_0;
    let v = decode_value(tag, body)->Some_0;
    lemma_parse_conts_len(rest, seq![v]);
}

/// Reads attributes until the head of `b` is a delimiter byte (below
/// 0x10), appending them to `acc` and rejecting a repeated name.
pub open spec fn parse_attrs(b: Seq<u8>, acc: Seq<AttrV>) -> Result<
    (Seq<AttrV>, Seq<u8>),
    ParseError,
>
    decreases b.len(),
    via parse_attrs_decreases
{
    if b.len() == 0 {
        Err(ParseError::UnexpectedEof)
    } else if b[0] < 0x10 {
        Ok((acc, b))
    } else {
        match parse_attr(b) {
            Err(e) => Err(e),
            Ok((a, rest)) => {
                if has_name(acc, a.name) {
                    Err(ParseError::DuplicateAttribute)
                } else {
                    parse_attrs(rest, acc.push(a))
                }
            },
        }
    }
}

#[via_fn]
proof fn parse_attrs_decreases(b: Seq<u8>, acc: Seq<AttrV>) {
    if b.len() > 0 && b[0] >= 0x10 {
        if parse_attr(b) is Ok {
            lemma_parse_attr_len(b);
        }
    }
}

/// Reading attributes never lengthens the input.
pub proof fn lemma_parse_attrs_len(b: Seq<u8>, acc: Seq<AttrV>)
    requires
        parse_attrs(b, acc) is Ok,
    ensures
        parse_attrs(b, acc)->Ok_0.1.len() <= b.len(),
    decreases b.len(),
{
    if b.len() > 0 && b[0] >= 0x10 {
        let (a, rest) = parse_attr(b)->Ok_0;
        lemma_parse_attr_len(b);
        lemma_parse_attrs_len(rest, acc.push(a));
    }
}

/// Reads attribute groups until the end-of-attributes tag; returns
/// them with the remaining bytes, the payload.
pub open spec fn parse_groups(b: Seq<u8>) -> Result<(Seq<GroupV>, Seq<u8>), ParseError>
    decreases b.len(),
    via parse_groups_decreases
{
    if b.len() == 0 {
        Err(ParseError::UnexpectedEof)
    } else if b[0] == DELIMITER_END_OF_ATTRIBUTES {
        Ok((Seq::empty(), b.skip(1)))
    } else if is_group_delimiter(b[0]) {
        match parse_attrs(b.skip(1), Seq::empty()) {
            Err(e) => Err(e),
            Ok((attrs, rest)) => match parse_groups(rest) {
                Err(e) => Err(e),
                Ok((gs, rest2)) => Ok(
                    (seq![GroupV { tag: b[0], attributes: attrs }] + gs, rest2),
                ),
            },
        }
    } else if b[0] >= 0x10 {
        Err(ParseError::ValueOutsideGroup)
    } else {
        Err(ParseError::InvalidTag(b[0]))
    }
}

#[via_fn]
proof fn parse_groups_decreases(b: Seq<u8>) {
    if b.len() > 0 && b[0] != DELIMITER_END_OF_ATTRIBUTES && is_group_delimiter(b[0]) {
        if parse_attrs(b.skip(1), Seq::empty()) is Ok {
            lemma_parse_attrs_len(b.skip(1), Seq::empty());
        }
    }
}

/// Reads a whole message: header, groups, payload.
pub open spec fn parse_message(b: Seq<u8>) -> Result<MsgV, ParseError> {
    if b.len() < 8 {
        Err(ParseError::UnexpectedEof)
    } else {
        let h = IppHeader {
            version_major: b[0],
            version_minor: b[1],
            operation_or_status: u16_from_be(b[2], b[3]),
            request_id: u32_from_be(b[4], b[5], b[6], b[7]),
        };
        match parse_groups(b.skip(8)) {
            Err(e) => Err(e),
            Ok((gs, payload)) => Ok(MsgV { header: h, groups: gs, payload }),
        }
    }
}

/// An entry serialized under any tag, name and body parses back to
/// exactly those parts, leaving the rest untouched.
pub proof fn lemma_parse_entry_of_ser(tag: u8, name: Seq<u8>, body: Seq<u8>, rest: Seq<u8>)
    requires
        name.len() <= 0xFFFF,
        body.len() <= 0xFFFF,
    ensures
        parse_entry(ser_entry(tag, name, body) + rest) == Ok::<_, ParseError>(
            (tag, name, body, rest),
        ),
{
    let b = ser_entry(tag, name, body) + rest;
    let nlen = name.len() as int;
    let vlen = body.len() as int;
    lemma_u16_be_round_trip(name.len() as u16);
    lemma_u16_be_round_trip(body.len() as u16);
    assert(b.len() == 5 + nlen + vlen + rest.len());
    assert(b[0] == tag);
    assert(b[1] == crate::wire::u16_be_bytes(name.len() as u16)[0]);
    assert(b[2] == crate::wire::u16_be_bytes(name.len() as u16)[1]);
    assert(u16_from_be(b[1], b[2]) == nlen);
    assert(b.subrange(3, 3 + nlen) =~= name);
    assert(b[3 + nlen] == crate::wire::u16_be_bytes(body.len() as u16)[0]);
    assert(b[4 + nlen] == crate::wire::u16_be_bytes(body.len() as u16)[1]);
    assert(u16_from_be(b[3 + nlen], b[4 + nlen]) == vlen);
    assert(b.subrange(5 + nlen, 5 + nlen + vlen) =~= body);
    assert(b.skip(5 + nlen + vlen) =~= rest);
}

/// The two length bytes of a non-empty name are not both zero.
proof fn lemma_nonzero_u16_bytes(x: u16)
    requires
        x != 0,
    ensures
        !(crate::wire::u16_be_bytes(x)[0] == 0 && crate::wire::u16_be_bytes(x)[1] == 0),
{
    lemma_u16_be_round_trip(x);
}

/// Serialized continuation entries parse back to their values, in
/// order, appended to whatever was read before them.
#[verifier::rlimit(100)]
pub proof fn lemma_parse_conts_of_ser(vs: Seq<ValueV>, acc: Seq<ValueV>, rest: Seq<u8>)
    requires
        forall|i: int| 0 <= i < vs.len() ==> wf_value(#[trigger] vs[i]),
        !is_cont_entry(rest),
    ensures
        parse_conts(ser_cont_values(vs) + rest, acc) == Ok::<_, ParseError>((acc + vs, rest)),
    decreases vs.len(),
{
    if vs.len() == 0 {
        assert(ser_cont_values(vs) + rest =~= rest);
        assert(acc + vs =~= acc);
    } else {
        let v0 = vs[0];
        let entry = ser_value_with_name(Seq::empty(), v0);
        let tail = vs.skip(1);
        let b = ser_cont_values(vs) + rest;
        lemma_wf_value_tag(v0);
        lemma_wf_value_body_len(v0);
        vstd::seq_lib::lemma_concat_associative(entry, ser_cont_values(tail), rest);
        assert(b =~= entry + (ser_cont_values(tail) + rest));
        lemma_parse_entry_of_ser(
            value_tag(v0),
            Seq::empty(),
            value_body(v0),
            ser_cont_values(tail) + rest,
        );
        assert(b[0] == value_tag(v0));
        assert(b[1] == 0 && b[2] == 0);
        assert(is_cont_entry(b));
        lemma_decode_value_round_trip(v0);
        lemma_parse_conts_of_ser(tail, acc.push(v0), rest);
        assert(acc.push(v0) + tail =~= acc + vs);
    }
}

/// A serialized attribute parses back to itself when what follows does
/// not look like a continuation entry.
#[verifier::rlimit(100)]
pub proof fn lemma_parse_attr_of_ser(a: AttrV, rest: Seq<u8>)
    requires
        crate::attribute::wf_attr(a),
        !is_cont_entry(rest),
    ensures
        parse_attr(ser_attr(a) + rest) == Ok::<_, ParseError>((a, rest)),
{
    let v0 = a.values[0];
    let entry = ser_value_with_name(a.name, v0);
    let conts = ser_cont_values(a.values.skip(1));
    let b = ser_attr(a) + rest;
    assert(wf_value(v0));
    lemma_wf_value_body_len(v0);
    vstd::seq_lib::lemma_concat_associative(entry, conts, rest);
    assert(b =~= entry + (conts + rest));
    lemma_parse_entry_of_ser(value_tag(v0), a.name, value_body(v0), conts + rest);
    lemma_decode_value_round_trip(v0);
    lemma_parse_conts_of_ser(a.values.skip(1), seq![v0], rest);
    assert(seq![v0] + a.values.skip(1) =~= a.values);
    assert(parse_attr(b) == Ok::<_, ParseError>((AttrV { name: a.name, values: a.values }, rest)));
    assert(AttrV { name: a.name, values: a.values } =~= a);
}

/// A serialized attribute list does not begin like a continuation
/// entry: either it is empty and the delimiter behind it is below
/// 0x10, or its first entry carries a non-empty name.
proof fn lemma_attrs_head_not_cont(attrs: Seq<AttrV>, rest: Seq<u8>)
    requires
        forall|i: int| 0 <= i < attrs.len() ==> crate::attribute::wf_attr(#[trigger] attrs[i]),
        rest.len() >= 1,
        rest[0] < 0x10,
    ensures
        !is_cont_entry(ser_attrs(attrs) + rest),
{
    if attrs.len() == 0 {
        assert(ser_attrs(attrs) + rest =~= rest);
    } else {
        let a0 = attrs[0];
        assert(crate::attribute::wf_attr(a0));
        let v0 = a0.values[0];
        let b = ser_attrs(attrs) + rest;
        lemma_nonzero_u16_bytes(a0.name.len() as u16);
        assert(b[1] == crate::wire::u16_be_bytes(a0.name.len() as u16)[0]);
        assert(b[2] == crate::wire::u16_be_bytes(a0.name.len() as u16)[1]);
    }
}

/// A serialized attribute list parses back to itself, appended to the
/// attributes read before it, when all names are distinct.
#[verifier::rlimit(100)]
pub proof fn lemma_parse_attrs_of_ser(attrs: Seq<AttrV>, acc: Seq<AttrV>, rest: Seq<u8>)
    requires
        forall|i: int| 0 <= i < attrs.len() ==> crate::attribute::wf_attr(#[trigger] attrs[i]),
        crate::attribute::distinct_names(acc + attrs),
        rest.len() >= 1,
        rest[0] < 0x10,
    ensures
        parse_attrs(ser_attrs(attrs) + rest, acc) == Ok::<_, ParseError>((acc + attrs, rest)),
    decreases attrs.len(),
{
    if attrs.len() == 0 {
        assert(ser_attrs(attrs) + rest =~= rest);
        assert(acc + attrs =~= acc);
    } else {
        let a0 = attrs[0];
        assert(crate::attribute::wf_attr(a0));
        let tail = attrs.skip(1);
        let b = ser_attrs(attrs) + rest;
        vstd::seq_lib::lemma_concat_associative(ser_attr(a0), ser_attrs(tail), rest);
        assert(b =~= ser_attr(a0) + (ser_attrs(tail) + rest));
        lemma_attrs_head_not_cont(tail, rest);
        lemma_parse_attr_of_ser(a0, ser_attrs(tail) + rest);
        assert(b.len() > 0);
        let v0 = a0.values[0];
        lemma_wf_value_tag(v0);
        assert(b[0] == value_tag(v0));
        assert(b[0] >= 0x10);
        assert(!has_name(acc, a0.name)) by {
            let all = acc + attrs;
            assert(all[acc.len() as int] == a0);
            assert forall|i: int| 0 <= i < acc.len() implies acc[i].name != a0.name by {
                assert(all[i] == acc[i]);
            }
        }
        assert(acc.push(a0) + tail =~= acc + attrs);
        lemma_parse_attrs_of_ser(tail, acc.push(a0), rest);
    }
}

/// A serialized group sequence followed by the end-of-attributes tag
/// and a payload parses back to exactly those groups and that payload.
#[verifier::rlimit(100)]
pub proof fn lemma_parse_groups_of_ser(gs: Seq<GroupV>, payload: Seq<u8>)
    requires
        crate::attribute::wf_groups(gs),
    ensures
        parse_groups(ser_groups(gs) + seq![DELIMITER_END_OF_ATTRIBUTES] + payload) == Ok::<
            _,
            ParseError,
        >((gs, payload)),
    decreases gs.len(),
{
    if gs.len() == 0 {
        let b = ser_groups(gs) + seq![DELIMITER_END_OF_ATTRIBUTES] + payload;
        assert(b =~= seq![DELIMITER_END_OF_ATTRIBUTES] + payload);
        assert(b[0] == DELIMITER_END_OF_ATTRIBUTES);
        assert(b.skip(1) =~= payload);
        assert(parse_groups(b) == Ok::<_, ParseError>((Seq::<GroupV>::empty(), payload)));
        assert(Seq::<GroupV>::empty() =~= gs);
    } else {
        let g0 = gs[0];
        assert(crate::attribute::wf_group(g0));
        let tail = gs.skip(1);
        let trailer = ser_groups(tail) + seq![DELIMITER_END_OF_ATTRIBUTES] + payload;
        let b = ser_groups(gs) + seq![DELIMITER_END_OF_ATTRIBUTES] + payload;
        vstd::seq_lib::lemma_concat_associative(
            ser_group(g0),
            ser_groups(tail),
            seq![DELIMITER_END_OF_ATTRIBUTES] + payload,
        );
        vstd::seq_lib::lemma_concat_associative(
            ser_groups(gs),
            seq![DELIMITER_END_OF_ATTRIBUTES],
            payload,
        );
        vstd::seq_lib::lemma_concat_associative(
            ser_groups(tail),
            seq![DELIMITER_END_OF_ATTRIBUTES],
            payload,
        );
        assert(b =~= ser_group(g0) + trailer);
        assert(b[0] == g0.tag);
        assert(is_group_delimiter(g0.tag) && g0.tag != DELIMITER_END_OF_ATTRIBUTES);
        assert(trailer.len() >= 1);
        assert(trailer[0] < 0x10) by {
            if tail.len() == 0 {
                assert(trailer =~= seq![DELIMITER_END_OF_ATTRIBUTES] + payload);
            } else {
                assert(crate::attribute::wf_group(tail[0]));
                assert(trailer[0] == tail[0].tag);
            }
        }
        assert(b.skip(1) =~= ser_attrs(g0.attributes) + trailer);
        assert(crate::attribute::distinct_names(Seq::<AttrV>::empty() + g0.attributes)) by {
            assert(Seq::<AttrV>::empty() + g0.attributes =~= g0.attributes);
        }
        lemma_parse_attrs_of_ser(g0.attributes, Seq::empty(), trailer);
        assert(Seq::<AttrV>::empty() + g0.attributes =~= g0.attributes);
        lemma_parse_groups_of_ser(tail, payload);
        assert(parse_groups(b) == Ok::<_, ParseError>(
            (seq![GroupV { tag: g0.tag, attributes: g0.attributes }] + tail, payload),
        ));
        assert(seq![GroupV { tag: g0.tag, attributes: g0.attributes }] + tail =~= gs);
    }
}

/// Round trip: a well-formed message serialized and parsed back is the
/// same message — header, group order, attribute order, value order
/// and payload all preserved.
pub proof fn lemma_parse_of_ser_message(h: IppHeader, gs: Seq<GroupV>, payload: Seq<u8>)
    requires
        crate::attribute::wf_groups(gs),
    ensures
        parse_message(ser_message(h, gs, payload)) == Ok::<_, ParseError>(
            MsgV { header: h, groups: gs, payload },
        ),
{
    let b = ser_message(h, gs, payload);
    lemma_u16_be_round_trip(h.operation_or_status);
    lemma_u32_be_round_trip(h.request_id);
    assert(b.len() >= 8);
    assert(b[0] == h.version_major);
    assert(b[1] == h.version_minor);
    assert(b[2] == crate::wire::u16_be_bytes(h.operation_or_status)[0]);
    assert(b[3] == crate::wire::u16_be_bytes(h.operation_or_status)[1]);
    assert(b[4] == crate::wire::u32_be_bytes(h.request_id)[0]);
    assert(b[5] == crate::wire::u32_be_bytes(h.request_id)[1]);
    assert(b[6] == crate::wire::u32_be_bytes(h.request_id)[2]);
    assert(b[7] == crate::wire::u32_be_bytes(h.request_id)[3]);
    assert(u16_from_be(b[2], b[3]) == h.operation_or_status);
    assert(u32_from_be(b[4], b[5], b[6], b[7]) == h.request_id);
    assert(b.skip(8) =~= ser_groups(gs) + seq![DELIMITER_END_OF_ATTRIBUTES] + payload);
    lemma_parse_groups_of_ser(gs, payload);
}

/// Values read by continuation parsing are well-formed when the
/// already-read ones are.
pub proof fn lemma_parse_conts_wf(b: Seq<u8>, acc: Seq<ValueV>)
    requires
        parse_conts(b, acc) is Ok,
        forall|i: int| 0 <= i < acc.len() ==> wf_value(#[trigger] acc[i]),
    ensures
        forall|i: int|
            0 <= i < parse_conts(b, acc)->Ok_0.0.len() ==> wf_value(
                #[trigger] parse_conts(b, acc)->Ok_0.0[i],
            ),
        parse_conts(b, acc)->Ok_0.0.len() >= acc.len(),
    decreases b.len(),
{
    if is_cont_entry(b) {
        let (tag, name, body, rest) = parse_entry(b)->Ok_0;
        let v = decode_value(tag, body)->Some_0;
        crate::value::lemma_decode_value_wf(tag, body);
        lemma_parse_conts_wf(rest, acc.push(v));
    }
}

/// An attribute the parser returns is well-formed.
pub proof fn lemma_parse_attr_wf(b: Seq<u8>)
    requires
        parse_attr(b) is Ok,
        b.len() > 0,
        b[0] >= 0x10,
    ensures
        crate::attribute::wf_attr(parse_attr(b)->Ok_0.0),
{
    let (tag, name, body, rest) = parse_entry(b)->Ok_0;
    let v = decode_value(tag, body)->Some_0;
    crate::value::lemma_decode_value_wf(tag, body);
    lemma_parse_conts_wf(rest, seq![v]);
}

/// Attributes the parser returns are well-formed with pairwise
/// distinct names, provided the already-read ones are.
pub proof fn lemma_parse_attrs_wf(b: Seq<u8>, acc: Seq<AttrV>)
    requires
        parse_attrs(b, acc) is Ok,
        forall|i: int| 0 <= i < acc.len() ==> crate::attribute::wf_attr(#[trigger] acc[i]),
        crate::attribute::distinct_names(acc),
    ensures
        forall|i: int|
            0 <= i < parse_attrs(b, acc)->Ok_0.0.len() ==> crate::attribute::wf_attr(
                #[trigger] parse_attrs(b, acc)->Ok_0.0[i],
            ),
        crate::attribute::distinct_names(parse_attrs(b, acc)->Ok_0.0),
    decreases b.len(),
{
    if b.len() > 0 && b[0] >= 0x10 {
        let (a, rest) = parse_attr(b)->Ok_0;
        lemma_parse_attr_wf(b);
        lemma_parse_attr_len(b);
        assert(crate::attribute::distinct_names(acc.push(a))) by {
            assert(forall|i: int|
                0 <= i < acc.len() ==> acc.push(a)[i] == #[trigger] acc[i]);
            assert(acc.push(a)[acc.len() as int] == a);
        }
        lemma_parse_attrs_wf(rest, acc.push(a));
    }
}

/// Groups the parser returns are well-formed.
pub proof fn lemma_parse_groups_wf(b: Seq<u8>)
    requires
        parse_groups(b) is Ok,
    ensures
        crate::attribute::wf_groups(parse_groups(b)->Ok_0.0),
    decreases b.len(),
{
    if b.len() > 0 && b[0] != DELIMITER_END_OF_ATTRIBUTES && is_group_delimiter(b[0]) {
        let (attrs, rest) = parse_attrs(b.skip(1), Seq::empty())->Ok_0;
        lemma_parse_attrs_wf(b.skip(1), Seq::empty());
        lemma_parse_attrs_len(b.skip(1), Seq::empty());
        lemma_parse_groups_wf(rest);
        let g0 = GroupV { tag: b[0], attributes: attrs };
        let gs = parse_groups(b)->Ok_0.0;
        assert(gs == seq![g0] + parse_groups(rest)->Ok_0.0);
        assert(crate::attribute::wf_group(g0));
        assert(forall|i: int|
            1 <= i < gs.len() ==> #[trigger] gs[i] == parse_groups(rest)->Ok_0.0[i - 1]);
    }
}

/// A parsed message holds only well-formed groups.
pub proof fn lemma_parse_message_wf(b: Seq<u8>)
    requires
        parse_message(b) is Ok,
    ensures
        crate::attribute::wf_groups(parse_message(b)->Ok_0.groups),
{
    lemma_parse_groups_wf(b.skip(8));
}

/// Reads one entry at `pos` (runtime form of [`parse_entry`]).
fn read_entry(b: &Vec<u8>, pos: usize) -> (r: Result<(u8, Vec<u8>, Vec<u8>, usize), ParseError>)
    requires
        pos <= b@.len(),
    ensures
        match r {
            Ok(t) => {
                &&& pos < t.3 <= b@.len()
                &&& parse_entry(b@.skip(pos as int)) == Ok::<_, ParseError>(
                    (t.0, t.1@, t.2@, b@.skip(t.3 as int)),
                )
            },
            Err(e) => parse_entry(b@.skip(pos as int)) == Err::<(u8, Seq<u8>, Seq<u8>, Seq<u8>),
                _,
            >(e),
        },
{
    let n: usize = b.len();
    let ghost s = b@.skip(pos as int);
    if n - pos < 3 {
        return Err(ParseError::UnexpectedEof);
    }
    let tag = b[pos];
    let nlen: usize = crate::wire::read_u16_at(b, pos + 1) as usize;
    proof {
        assert(s[0] == b@[pos as int]);
        assert(s[1] == b@[pos as int + 1]);
        assert(s[2] == b@[pos as int + 2]);
    }
    if n - pos < 5 + nlen {
        return Err(ParseError::UnexpectedEof);
    }
    let name = crate::wire::copy_range(b, pos + 3, pos + 3 + nlen);
    proof {
        assert(name@ =~= s.subrange(3, 3 + nlen as int));
        assert(s[3 + nlen as int] == b@[pos as int + 3 + nlen as int]);
        assert(s[4 + nlen as int] == b@[pos as int + 4 + nlen as int]);
    }
    let vlen: usize = crate::wire::read_u16_at(b, pos + 3 + nlen) as usize;
    if n - pos < 5 + nlen + vlen {
        return Err(ParseError::UnexpectedEof);
    }
    let body = crate::wire::copy_range(b, pos + 5 + nlen, pos + 5 + nlen + vlen);
    let newpos = pos + 5 + nlen + vlen;
    proof {
        assert(body@ =~= s.subrange(5 + nlen as int, 5 + nlen as int + vlen as int));
        assert(b@.skip(newpos as int) =~= s.skip(5 + nlen as int + vlen as int));
    }
    Ok((tag, name, body, newpos))
}

/// Whether the three bytes at `pos` begin a continuation entry.
fn peek_cont(b: &Vec<u8>, pos: usize) -> (r: bool)
    requires
        pos <= b@.len(),
    ensures
        r == is_cont_entry(b@.skip(pos as int)),
{
    let n: usize = b.len();
    if n - pos < 3 {
        return false;
    }
    proof {
        let s = b@.skip(pos as int);
        assert(s[0] == b@[pos as int]);
        assert(s[1] == b@[pos as int + 1]);
        assert(s[2] == b@[pos as int + 2]);
    }
    b[pos] >= 0x10 && b[pos + 1] == 0 && b[pos + 2] == 0
}

/// Reads continuation entries from `pos`, appending their values to
/// `acc` (runtime form of [`parse_conts`]).
fn read_conts(b: &Vec<u8>, pos: usize, acc: Vec<IppValue>) -> (r: Result<
    (Vec<IppValue>, usize),
    ParseError,
>)
    requires
        pos <= b@.len(),
    ensures
        match r {
            Ok(t) => {
                &&& t.1 <= b@.len()
                &&& parse_conts(b@.skip(pos as int), value_views(acc@)) == Ok::<_, ParseError>(
                    (value_views(t.0@), b@.skip(t.1 as int)),
                )
            },
            Err(e) => parse_conts(b@.skip(pos as int), value_views(acc@)) == Err::<
                (Seq<ValueV>, Seq<u8>),
                _,
            >(e),
        },
    decreases b@.len() - pos,
{
    if !peek_cont(b, pos) {
        return Ok((acc, pos));
    }
    match read_entry(b, pos) {
        Err(e) => Err(e),
        Ok((tag, name, body, newpos)) => {
            match crate::value::decode_value_exec(tag, body) {
                None => Err(ParseError::InvalidValueLength(tag)),
                Some(v) => {
                    let mut acc2 = acc;
                    acc2.push(v);
                    proof {
                        assert(value_views(acc2@) =~= value_views(acc@).push(v@));
                    }
                    read_conts(b, newpos, acc2)
                },
            }
        },
    }
}

/// Reads one attribute at `pos` (runtime form of [`parse_attr`]).
fn read_attr(b: &Vec<u8>, pos: usize) -> (r: Result<(crate::attribute::IppAttribute, usize), ParseError>)
    requires
        pos <= b@.len(),
    ensures
        match r {
            Ok(t) => {
                &&& pos < t.1 <= b@.len()
                &&& parse_attr(b@.skip(pos as int)) == Ok::<_, ParseError>(
                    (t.0@, b@.skip(t.1 as int)),
                )
            },
            Err(e) => parse_attr(b@.skip(pos as int)) == Err::<(AttrV, Seq<u8>), _>(e),
        },
{
    match read_entry(b, pos) {
        Err(e) => Err(e),
        Ok((tag, name, body, newpos)) => {
            if name.len() == 0 {
                return Err(ParseError::ContinuationWithoutAttribute);
            }
            match crate::value::decode_value_exec(tag, body) {
                None => Err(ParseError::InvalidValueLength(tag)),
                Some(v) => {
                    let values: Vec<IppValue> = vec![v];
                    proof {
                        assert(value_views(values@) =~= seq![values@[0]@]);
                    }
                    match read_conts(b, newpos, values) {
                        Err(e) => Err(e),
                        Ok((vs, p2)) => {
                            proof {
                                lemma_parse_conts_len(b@.skip(newpos as int), seq![v@]);
                            }
                            let a = crate::attribute::IppAttribute { name, values: vs };
                            Ok((a, p2))
                        },
                    }
                },
            }
        },
    }
}

/// Whether some attribute in `attrs` bears `name`.
fn contains_name(attrs: &Vec<crate::attribute::IppAttribute>, name: &Vec<u8>) -> (r: bool)
    ensures
        r == has_name(attr_views(attrs@), name@),
{
    let n: usize = attrs.len();
    let mut i: usize = 0;
    while i < n
        invariant
            i <= n,
            n == attrs@.len(),
            forall|j: int| 0 <= j < i ==> attr_views(attrs@)[j].name != name@,
        decreases n - i,
    {
        if crate::attribute::bytes_eq(&attrs[i].name, name) {
            proof {
                assert(attr_views(attrs@)[i as int].name == name@);
            }
            return true;
        }
        i = i + 1;
    }
    false
}

/// Reads attributes from `pos` until a delimiter byte, appending them
/// to `acc` (runtime form of [`parse_attrs`]).
fn read_attrs(b: &Vec<u8>, pos: usize, acc: Vec<crate::attribute::IppAttribute>) -> (r: Result<
    (Vec<crate::attribute::IppAttribute>, usize),
    ParseError,
>)
    requires
        pos <= b@.len(),
    ensures
        match r {
            Ok(t) => {
                &&& t.1 <= b@.len()
                &&& parse_attrs(b@.skip(pos as int), attr_views(acc@)) == Ok::<_, ParseError>(
                    (attr_views(t.0@), b@.skip(t.1 as int)),
                )
            },
            Err(e) => parse_attrs(b@.skip(pos as int), attr_views(acc@)) == Err::<
                (Seq<AttrV>, Seq<u8>),
                _,
            >(e),
        },
    decreases b@.len() - pos,
{
    let n: usize = b.len();
    if pos == n {
        return Err(ParseError::UnexpectedEof);
    }
    proof {
        assert(b@.skip(pos as int)[0] == b@[pos as int]);
    }
    if b[pos] < 0x10 {
        return Ok((acc, pos));
    }
    match read_attr(b, pos) {
        Err(e) => Err(e),
        Ok((a, p2)) => {
            if contains_name(&acc, &a.name) {
                return Err(ParseError::DuplicateAttribute);
            }
            let mut acc2 = acc;
            acc2.push(a);
            proof {
                assert(attr_views(acc2@) =~= attr_views(acc@).push(acc2@[acc2@.len() - 1]@));
            }
            read_attrs(b, p2, acc2)
        },
    }
}

/// Reads groups from `pos` through the end-of-attributes tag (runtime
/// form of [`parse_groups`]); on success the returned position is the
/// start of the payload.
fn read_groups(b: &Vec<u8>, pos: usize) -> (r: Result<
    (Vec<crate::attribute::IppAttributeGroup>, usize),
    ParseError,
>)
    requires
        pos <= b@.len(),
    ensures
        match r {
            Ok(t) => {
                &&& t.1 <= b@.len()
                &&& parse_groups(b@.skip(pos as int)) == Ok::<_, ParseError>(
                    (crate::attribute::group_views(t.0@), b@.skip(t.1 as int)),
                )
            },
            Err(e) => parse_groups(b@.skip(pos as int)) == Err::<(Seq<GroupV>, Seq<u8>), _>(e),
        },
    decreases b@.len() - pos,
{
    let n: usize = b.len();
    if pos == n {
        return Err(ParseError::UnexpectedEof);
    }
    proof {
        assert(b@.skip(pos as int)[0] == b@[pos as int]);
    }
    let t = b[pos];
    if t == DELIMITER_END_OF_ATTRIBUTES {
        let gs: Vec<crate::attribute::IppAttributeGroup> = Vec::new();
        proof {
            assert(crate::attribute::group_views(gs@) =~= Seq::<GroupV>::empty());
            assert(b@.skip(pos as int).skip(1) =~= b@.skip(pos as int + 1));
        }
        return Ok((gs, pos + 1));
    }
    if crate::model::is_group_delimiter_exec(t) {
        proof {
            assert(b@.skip(pos as int).skip(1) =~= b@.skip(pos as int + 1));
        }
        let empty_attrs: Vec<crate::attribute::IppAttribute> = Vec::new();
        proof {
            assert(attr_views(empty_attrs@) =~= Seq::<AttrV>::empty());
        }
        match read_attrs(b, pos + 1, empty_attrs) {
            Err(e) => Err(e),
            Ok((attrs, p2)) => {
                proof {
                    lemma_parse_attrs_len(b@.skip(pos as int + 1), Seq::empty());
                }
                match read_groups(b, p2) {
                    Err(e) => Err(e),
                    Ok((gs, p3)) => {
                        let g = crate::attribute::IppAttributeGroup { tag: t, attributes: attrs };
                        let ghost gs_views = crate::attribute::group_views(gs@);
                        let mut out = gs;
                        out.insert(0, g);
                        proof {
                            assert(crate::attribute::group_views(out@) =~= seq![g@] + gs_views);
                        }
                        Ok((out, p3))
                    },
                }
            },
        }
    } else if t >= 0x10 {
        Err(ParseError::ValueOutsideGroup)
    } else {
        Err(ParseError::InvalidTag(t))
    }
}

/// Reads a whole message from `b` (runtime form of
/// [`parse_message`]): the header, the groups, and the offset at which
/// the payload begins.
pub fn read_message(b: &Vec<u8>) -> (r: Result<
    (IppHeader, Vec<crate::attribute::IppAttributeGroup>, usize),
    ParseError,
>)
    ensures
        match r {
            Ok(t) => {
                &&& t.2 <= b@.len()
                &&& parse_message(b@) == Ok::<_, ParseError>(
                    MsgV {
                        header: t.0,
                        groups: crate::attribute::group_views(t.1@),
                        payload: b@.skip(t.2 as int),
                    },
                )
            },
            Err(e) => parse_message(b@) == Err::<MsgV, _>(e),
        },
{
    let n: usize = b.len();
    if n < 8 {
        return Err(ParseError::UnexpectedEof);
    }
    let h = IppHeader {
        version_major: b[0],
        version_minor: b[1],
        operation_or_status: crate::wire::read_u16_at(b, 2),
        request_id: crate::wire::read_u32_at(b, 4),
    };
    match read_groups(b, 8) {
        Err(e) => {
            proof {
                assert(b@.skip(8) =~= b@.skip(8int));
            }
            Err(e)
        },
        Ok((gs, p)) => Ok((h, gs, p)),
    }
}

} // verus!
