//! The serialized form of a message, and the writer that produces it.
//!
//! The wire layout is: eight header bytes; for each group its delimiter
//! tag followed by its attributes; the end-of-attributes tag (0x03);
//! then the opaque payload.  An attribute is written as one entry that
//! carries its name and one nameless continuation entry per further
//! value; every entry is `tag, u16 name-length, name, u16 value-length,
//! value`, all lengths big-endian.

use vstd::prelude::*;

use crate::attribute::{wf_attr, wf_group, AttrV, GroupV, IppAttribute, IppAttributes};
use crate::model::{IppHeader, DELIMITER_END_OF_ATTRIBUTES};
use crate::value::{
    lemma_wf_value_body_len, push_bytes, value_body, value_tag, wf_value, IppValue,
    ValueV,
};
use crate::wire::{push_u16, push_u32, u16_be_bytes, u32_be_bytes};

verus! {

/// One wire entry: a value tag, a length-prefixed name and a
/// length-prefixed body.
pub open spec fn ser_entry(tag: u8, name: Seq<u8>, body: Seq<u8>) -> Seq<u8>
    recommends
        name.len() <= 0xFFFF,
        body.len() <= 0xFFFF,
{
    seq![tag] + u16_be_bytes(name.len() as u16) + name + u16_be_bytes(body.len() as u16) + body
}

/// The wire entry of value `v` under the (possibly empty) name `name`.
pub open spec fn ser_value_with_name(name: Seq<u8>, v: ValueV) -> Seq<u8> {
    ser_entry(value_tag(v), name, value_body(v))
}

/// The continuation entries of the values `vs`, each with an empty
/// name.
pub open spec fn ser_cont_values(vs: Seq<ValueV>) -> Seq<u8>
    decreases vs.len(),
{
    if vs.len() == 0 {
        Seq::empty()
    } else {
        ser_value_with_name(Seq::empty(), vs[0]) + ser_cont_values(vs.skip(1))
    }
}

/// The serialized attribute: the first value carries the name, the
/// remaining values follow as continuation entries, in order.
pub open spec fn ser_attr(a: AttrV) -> Seq<u8>
    recommends
        a.values.len() >= 1,
{
    ser_value_with_name(a.name, a.values[0]) + ser_cont_values(a.values.skip(1))
}

/// The serialized attribute list, in insertion order.
pub open spec fn ser_attrs(s: Seq<AttrV>) -> Seq<u8>
    decreases s.len(),
{
    if s.len() == 0 {
        Seq::empty()
    } else {
        ser_attr(s[0]) + ser_attrs(s.skip(1))
    }
}

/// The serialized group: its delimiter tag, then its attributes.
pub open spec fn ser_group(g: GroupV) -> Seq<u8> {
    seq![g.tag] + ser_attrs(g.attributes)
}

/// The serialized group sequence, in container order.
pub open spec fn ser_groups(gs: Seq<GroupV>) -> Seq<u8>
    decreases gs.len(),
{
    if gs.len() == 0 {
        Seq::empty()
    } else {
        ser_group(gs[0]) + ser_groups(gs.skip(1))
    }
}

/// The eight header bytes: version major and minor, the 16-bit
/// operation-or-status slot, the 32-bit request id, big-endian.
pub open spec fn ser_header(h: IppHeader) -> Seq<u8> {
    seq![h.version_major, h.version_minor] + u16_be_bytes(h.operation_or_status) + u32_be_bytes(
        h.request_id,
    )
}

/// The whole message: header, groups, the end-of-attributes tag, then
/// the payload.
pub open spec fn ser_message(h: IppHeader, gs: Seq<GroupV>, payload: Seq<u8>) -> Seq<u8> {
    ser_header(h) + ser_groups(gs) + seq![DELIMITER_END_OF_ATTRIBUTES] + payload
}

/// Serializing one more continuation value appends one more entry.
pub proof fn lemma_ser_conts_snoc(vs: Seq<ValueV>, i: int)
    requires
        0 <= i < vs.len(),
    ensures
        ser_cont_values(vs.take(i + 1)) == ser_cont_values(vs.take(i)) + ser_value_with_name(
            Seq::empty(),
            vs[i],
        ),
    decreases i,
{
    if i == 0 {
        assert(vs.take(1) =~= seq![vs[0]]);
        assert(vs.take(1).skip(1) =~= Seq::<ValueV>::empty());
        assert(vs.take(0) =~= Seq::<ValueV>::empty());
        assert(ser_cont_values(vs.take(1)) =~= ser_value_with_name(Seq::empty(), vs[0]));
    } else {
        lemma_ser_conts_snoc(vs.skip(1), i - 1);
        assert(vs.take(i + 1).skip(1) =~= vs.skip(1).take(i));
        assert(vs.take(i).skip(1) =~= vs.skip(1).take(i - 1));
        assert(ser_cont_values(vs.take(i + 1)) =~= ser_cont_values(vs.take(i))
            + ser_value_with_name(Seq::empty(), vs[i]));
    }
}

/// Serializing one more attribute appends its entries.
pub proof fn lemma_ser_attrs_snoc(s: Seq<AttrV>, i: int)
    requires
        0 <= i < s.len(),
    ensures
        ser_attrs(s.take(i + 1)) == ser_attrs(s.take(i)) + ser_attr(s[i]),
    decreases i,
{
    if i == 0 {
        assert(s.take(1) =~= seq![s[0]]);
        assert(s.take(1).skip(1) =~= Seq::<AttrV>::empty());
        assert(s.take(0) =~= Seq::<AttrV>::empty());
        assert(s.take(1)[0] == s[0]);
        assert(ser_attrs(s.take(1)) == ser_attr(s[0]) + ser_attrs(s.take(1).skip(1)));
        assert(ser_attrs(s.take(1)) =~= ser_attr(s[0]));
    } else {
        lemma_ser_attrs_snoc(s.skip(1), i - 1);
        assert(s.take(i + 1).skip(1) =~= s.skip(1).take(i));
        assert(s.take(i).skip(1) =~= s.skip(1).take(i - 1));
        assert(ser_attrs(s.take(i + 1)) =~= ser_attrs(s.take(i)) + ser_attr(s[i]));
    }
}

/// Serializing one more group appends its bytes.
pub proof fn lemma_ser_groups_snoc(gs: Seq<GroupV>, i: int)
    requires
        0 <= i < gs.len(),
    ensures
        ser_groups(gs.take(i + 1)) == ser_groups(gs.take(i)) + ser_group(gs[i]),
    decreases i,
{
    if i == 0 {
        assert(gs.take(1) =~= seq![gs[0]]);
        assert(gs.take(1).skip(1) =~= Seq::<GroupV>::empty());
        assert(gs.take(0) =~= Seq::<GroupV>::empty());
        assert(gs.take(1)[0] == gs[0]);
        assert(ser_groups(gs.take(1)) == ser_group(gs[0]) + ser_groups(gs.take(1).skip(1)));
        assert(ser_groups(gs.take(1)) =~= ser_group(gs[0]));
    } else {
        lemma_ser_groups_snoc(gs.skip(1), i - 1);
        assert(gs.take(i + 1).skip(1) =~= gs.skip(1).take(i));
        assert(gs.take(i).skip(1) =~= gs.skip(1).take(i - 1));
        assert(ser_groups(gs.take(i + 1)) =~= ser_groups(gs.take(i)) + ser_group(gs[i]));
    }
}

/// Writes one entry: `v` under `name`, or as a nameless continuation
/// entry when `name` is `None`.
fn write_entry(out: &mut Vec<u8>, name: Option<&Vec<u8>>, v: &IppValue)
    requires
        wf_value(v@),
        match name {
            Some(n) => n@.len() <= 0xFFFF,
            None => true,
        },
    ensures
        final(out)@ == old(out)@ + ser_value_with_name(
            match name {
                Some(n) => n@,
                None => Seq::empty(),
            },
            v@,
        ),
{
    proof {
        lemma_wf_value_body_len(v@);
    }
    let mut body: Vec<u8> = Vec::new();
    v.write_body(&mut body);
    out.push(v.tag());
    match name {
        Some(n) => {
            push_u16(out, n.len() as u16);
            push_bytes(out, n);
        },
        None => {
            push_u16(out, 0);
            proof {
                assert(Seq::<u8>::empty().len() as u16 == 0u16);
                assert(out@ =~= old(out)@ + seq![value_tag(v@)] + u16_be_bytes(0u16)
                    + Seq::<u8>::empty());
            }
        },
    }
    push_u16(out, body.len() as u16);
    push_bytes(out, &body);
    proof {
        let n_seq = match name {
            Some(n) => n@,
            None => Seq::<u8>::empty(),
        };
        assert(out@ =~= old(out)@ + ser_value_with_name(n_seq, v@));
    }
}

/// Writes an attribute: its first value under its name, the rest as
/// continuation entries.
#[verifier::rlimit(50)]
fn write_attr(out: &mut Vec<u8>, a: &IppAttribute)
    requires
        wf_attr(a@),
    ensures
        final(out)@ == old(out)@ + ser_attr(a@),
{
    proof {
        assert(wf_value(a@.values[0]));
    }
    write_entry(out, Some(&a.name), &a.values[0]);
    let n: usize = a.values.len();
    let mut i: usize = 1;
    proof {
        assert(a@.values.skip(1).take(0) =~= Seq::<ValueV>::empty());
    }
    while i < n
        invariant
            1 <= i <= n,
            n == a@.values.len(),
            wf_attr(a@),
            out@ == old(out)@ + ser_value_with_name(a@.name, a@.values[0]) + ser_cont_values(
                a@.values.skip(1).take(i - 1),
            ),
        decreases n - i,
    {
        proof {
            assert(wf_value(a@.values[i as int]));
            assert(a.values@[i as int]@ == a@.values[i as int]);
        }
        write_entry(out, None, &a.values[i]);
        proof {
            lemma_ser_conts_snoc(a@.values.skip(1), i - 1);
            assert(a@.values.skip(1)[i - 1] == a@.values[i as int]);
            vstd::seq_lib::lemma_concat_associative(
                old(out)@ + ser_value_with_name(a@.name, a@.values[0]),
                ser_cont_values(a@.values.skip(1).take(i - 1)),
                ser_value_with_name(Seq::empty(), a@.values[i as int]),
            );
        }
        i = i + 1;
    }
    proof {
        assert(a@.values.skip(1).take(n - 1) =~= a@.values.skip(1));
    }
}

/// Writes a group: its delimiter tag, then its attributes in order.
#[verifier::rlimit(50)]
fn write_group(out: &mut Vec<u8>, g: &crate::attribute::IppAttributeGroup)
    requires
        wf_group(g@),
    ensures
        final(out)@ == old(out)@ + ser_group(g@),
{
    out.push(g.tag);
    let n: usize = g.attributes.len();
    let mut i: usize = 0;
    proof {
        assert(g@.attributes.take(0) =~= Seq::<AttrV>::empty());
        assert(out@ =~= old(out)@ + seq![g@.tag] + ser_attrs(g@.attributes.take(0)));
    }
    while i < n
        invariant
            i <= n,
            n == g@.attributes.len(),
            wf_group(g@),
            out@ == old(out)@ + seq![g@.tag] + ser_attrs(g@.attributes.take(i as int)),
        decreases n - i,
    {
        proof {
            assert(wf_attr(g@.attributes[i as int]));
            assert(g.attributes@[i as int]@ == g@.attributes[i as int]);
        }
        write_attr(out, &g.attributes[i]);
        proof {
            lemma_ser_attrs_snoc(g@.attributes, i as int);
            vstd::seq_lib::lemma_concat_associative(
                old(out)@ + seq![g@.tag],
                ser_attrs(g@.attributes.take(i as int)),
                ser_attr(g@.attributes[i as int]),
            );
        }
        i = i + 1;
    }
    proof {
        assert(g@.attributes.take(n as int) =~= g@.attributes);
    }
}

/// Writes the eight header bytes.
pub fn write_header(out: &mut Vec<u8>, h: &IppHeader)
    ensures
        final(out)@ == old(out)@ + ser_header(*h),
{
    out.push(h.version_major);
    out.push(h.version_minor);
    push_u16(out, h.operation_or_status);
    push_u32(out, h.request_id);
    proof {
        assert(out@ =~= old(out)@ + ser_header(*h));
    }
}

/// Writes header, groups and the end-of-attributes tag: everything of
/// the message but the payload.
#[verifier::rlimit(50)]
pub fn write_metadata(out: &mut Vec<u8>, h: &IppHeader, attrs: &IppAttributes)
    requires
        crate::attribute::wf_groups(attrs@),
    ensures
        final(out)@ == old(out)@ + ser_header(*h) + ser_groups(attrs@) + seq![
            DELIMITER_END_OF_ATTRIBUTES,
        ],
{
    write_header(out, h);
    let n: usize = attrs.groups.len();
    let mut i: usize = 0;
    proof {
        assert(attrs@.take(0) =~= Seq::<GroupV>::empty());
        assert(out@ =~= old(out)@ + ser_header(*h) + ser_groups(attrs@.take(0)));
    }
    while i < n
        invariant
            i <= n,
            n == attrs@.len(),
            crate::attribute::wf_groups(attrs@),
            out@ == old(out)@ + ser_header(*h) + ser_groups(attrs@.take(i as int)),
        decreases n - i,
    {
        proof {
            assert(wf_group(attrs@[i as int]));
            assert(attrs.groups@[i as int]@ == attrs@[i as int]);
        }
        write_group(out, &attrs.groups[i]);
        proof {
            lemma_ser_groups_snoc(attrs@, i as int);
            vstd::seq_lib::lemma_concat_associative(
                old(out)@ + ser_header(*h),
                ser_groups(attrs@.take(i as int)),
                ser_group(attrs@[i as int]),
            );
        }
        i = i + 1;
    }
    out.push(DELIMITER_END_OF_ATTRIBUTES);
    proof {
        assert(attrs@.take(n as int) =~= attrs@);
        assert(out@ =~= old(out)@ + ser_header(*h) + ser_groups(attrs@) + seq![
            DELIMITER_END_OF_ATTRIBUTES,
        ]);
    }
}

} // verus!
