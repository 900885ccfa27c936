//! Typed IPP attribute values and their body codec.
//!
//! Every value on the wire is a tag byte followed by a length-prefixed
//! body.  This module defines the value model, the canonical tag and body
//! of each variant, the decoder from a tag and a body, and the proof that
//! decoding inverts encoding.  String-like values hold raw bytes: the
//! character set of an IPP message is implied by its companion
//! `attributes-charset` attribute, not by the wire format itself.

use vstd::prelude::*;

use crate::wire::{
    i32_be_bytes, i32_from_be, lemma_i32_be_round_trip, lemma_u16_be_round_trip, push_i32,
    push_u16, read_i32_at, read_u16_at, u16_be_bytes, u16_from_be,
};

verus! {

pub const TAG_INTEGER: u8 = 0x21;

pub const TAG_BOOLEAN: u8 = 0x22;

pub const TAG_ENUM: u8 = 0x23;

pub const TAG_OCTET_STRING: u8 = 0x30;

pub const TAG_DATETIME: u8 = 0x31;

pub const TAG_RESOLUTION: u8 = 0x32;

pub const TAG_RANGE_OF_INTEGER: u8 = 0x33;

pub const TAG_BEG_COLLECTION: u8 = 0x34;

pub const TAG_TEXT_WITH_LANGUAGE: u8 = 0x35;

pub const TAG_NAME_WITH_LANGUAGE: u8 = 0x36;

pub const TAG_END_COLLECTION: u8 = 0x37;

pub const TAG_TEXT_WITHOUT_LANGUAGE: u8 = 0x41;

pub const TAG_NAME_WITHOUT_LANGUAGE: u8 = 0x42;

pub const TAG_KEYWORD: u8 = 0x44;

pub const TAG_URI: u8 = 0x45;

pub const TAG_URI_SCHEME: u8 = 0x46;

pub const TAG_CHARSET: u8 = 0x47;

pub const TAG_NATURAL_LANGUAGE: u8 = 0x48;

pub const TAG_MIME_MEDIA_TYPE: u8 = 0x49;

pub const TAG_MEMBER_ATTR_NAME: u8 = 0x4A;

/// A calendar timestamp, eleven bytes on the wire (RFC 2579 DateAndTime).
#[derive(Clone, Copy, PartialEq, Eq, Structural, Debug)]
pub struct IppDateTime {
    pub year: u16,
    pub month: u8,
    pub day: u8,
    pub hour: u8,
    pub minutes: u8,
    pub seconds: u8,
    pub deciseconds: u8,
    pub utc_dir: u8,
    pub utc_hours: u8,
    pub utc_minutes: u8,
}

/// A printing resolution, nine bytes on the wire: two signed 32-bit
/// counts and a unit byte (3 = dots per inch, 4 = dots per centimetre).
#[derive(Clone, Copy, PartialEq, Eq, Structural, Debug)]
pub struct IppResolution {
    pub cross_feed: i32,
    pub feed: i32,
    pub units: u8,
}

/// An IPP attribute value.  String-like variants hold the raw bytes of
/// the wire body; `Other` preserves a value with an unrecognized tag so
/// that it can be carried and re-emitted byte for byte.
#[derive(Clone, PartialEq, Eq, Debug)]
pub enum IppValue {
    Integer(i32),
    Boolean(bool),
    Enum(i32),
    OctetString(Vec<u8>),
    DateTime(IppDateTime),
    Resolution(IppResolution),
    RangeOfInteger { min: i32, max: i32 },
    TextWithLanguage { language: Vec<u8>, text: Vec<u8> },
    NameWithLanguage { language: Vec<u8>, name: Vec<u8> },
    TextWithoutLanguage(Vec<u8>),
    NameWithoutLanguage(Vec<u8>),
    Keyword(Vec<u8>),
    Uri(Vec<u8>),
    UriScheme(Vec<u8>),
    Charset(Vec<u8>),
    NaturalLanguage(Vec<u8>),
    MimeMediaType(Vec<u8>),
    MemberAttrName(Vec<u8>),
    Other { tag: u8, data: Vec<u8> },
}

/// The mathematical model of an [`IppValue`].
#[verifier::ext_equal]
pub ghost enum ValueV {
    Integer(i32),
    Boolean(bool),
    Enum(i32),
    OctetString(Seq<u8>),
    DateTime(IppDateTime),
    Resolution(IppResolution),
    RangeOfInteger { min: i32, max: i32 },
    TextWithLanguage { language: Seq<u8>, text: Seq<u8> },
    NameWithLanguage { language: Seq<u8>, name: Seq<u8> },
    TextWithoutLanguage(Seq<u8>),
    NameWithoutLanguage(Seq<u8>),
    Keyword(Seq<u8>),
    Uri(Seq<u8>),
    UriScheme(Seq<u8>),
    Charset(Seq<u8>),
    NaturalLanguage(Seq<u8>),
    MimeMediaType(Seq<u8>),
    MemberAttrName(Seq<u8>),
    Other { tag: u8, data: Seq<u8> },
}

impl View for IppValue {
    type V = ValueV;

    open spec fn view(&self) -> ValueV {
        match self {
            IppValue::Integer(x) => ValueV::Integer(*x),
            IppValue::Boolean(b) => ValueV::Boolean(*b),
            IppValue::Enum(x) => ValueV::Enum(*x),
            IppValue::OctetString(s) => ValueV::OctetString(s@),
            IppValue::DateTime(d) => ValueV::DateTime(*d),
            IppValue::Resolution(r) => ValueV::Resolution(*r),
            IppValue::RangeOfInteger { min, max } => ValueV::RangeOfInteger {
                min: *min,
                max: *max,
            },
            IppValue::TextWithLanguage { language, text } => ValueV::TextWithLanguage {
                language: language@,
                text: text@,
            },
            IppValue::NameWithLanguage { language, name } => ValueV::NameWithLanguage {
                language: language@,
                name: name@,
            },
            IppValue::TextWithoutLanguage(s) => ValueV::TextWithoutLanguage(s@),
            IppValue::NameWithoutLanguage(s) => ValueV::NameWithoutLanguage(s@),
            IppValue::Keyword(s) => ValueV::Keyword(s@),
            IppValue::Uri(s) => ValueV::Uri(s@),
            IppValue::UriScheme(s) => ValueV::UriScheme(s@),
            IppValue::Charset(s) => ValueV::Charset(s@),
            IppValue::NaturalLanguage(s) => ValueV::NaturalLanguage(s@),
            IppValue::MimeMediaType(s) => ValueV::MimeMediaType(s@),
            IppValue::MemberAttrName(s) => ValueV::MemberAttrName(s@),
            IppValue::Other { tag, data } => ValueV::Other { tag: *tag, data: data@ },
        }
    }
}

/// Whether `t` is a value tag with a shape this codec decodes into a
/// typed variant.  Any other tag at or above 0x10 decodes to `Other`.
pub open spec fn is_known_value_tag(t: u8) -> bool {
    ||| t == TAG_INTEGER
    ||| t == TAG_BOOLEAN
    ||| t == TAG_ENUM
    ||| t == TAG_OCTET_STRING
    ||| t == TAG_DATETIME
    ||| t == TAG_RESOLUTION
    ||| t == TAG_RANGE_OF_INTEGER
    ||| t == TAG_TEXT_WITH_LANGUAGE
    ||| t == TAG_NAME_WITH_LANGUAGE
    ||| t == TAG_TEXT_WITHOUT_LANGUAGE
    ||| t == TAG_NAME_WITHOUT_LANGUAGE
    ||| t == TAG_KEYWORD
    ||| t == TAG_URI
    ||| t == TAG_URI_SCHEME
    ||| t == TAG_CHARSET
    ||| t == TAG_NATURAL_LANGUAGE
    ||| t == TAG_MIME_MEDIA_TYPE
    ||| t == TAG_MEMBER_ATTR_NAME
}

/// The canonical tag byte of a value.
pub open spec fn value_tag(v: ValueV) -> u8 {
    match v {
        ValueV::Integer(_) => TAG_INTEGER,
        ValueV::Boolean(_) => TAG_BOOLEAN,
        ValueV::Enum(_) => TAG_ENUM,
        ValueV::OctetString(_) => TAG_OCTET_STRING,
        ValueV::DateTime(_) => TAG_DATETIME,
        ValueV::Resolution(_) => TAG_RESOLUTION,
        ValueV::RangeOfInteger { .. } => TAG_RANGE_OF_INTEGER,
        ValueV::TextWithLanguage { .. } => TAG_TEXT_WITH_LANGUAGE,
        ValueV::NameWithLanguage { .. } => TAG_NAME_WITH_LANGUAGE,
        ValueV::TextWithoutLanguage(_) => TAG_TEXT_WITHOUT_LANGUAGE,
        ValueV::NameWithoutLanguage(_) => TAG_NAME_WITHOUT_LANGUAGE,
        ValueV::Keyword(_) => TAG_KEYWORD,
        ValueV::Uri(_) => TAG_URI,
        ValueV::UriScheme(_) => TAG_URI_SCHEME,
        ValueV::Charset(_) => TAG_CHARSET,
        ValueV::NaturalLanguage(_) => TAG_NATURAL_LANGUAGE,
        ValueV::MimeMediaType(_) => TAG_MIME_MEDIA_TYPE,
        ValueV::MemberAttrName(_) => TAG_MEMBER_ATTR_NAME,
        ValueV::Other { tag, .. } => tag,
    }
}

/// The canonical body bytes of a value (the bytes after the `u16` length
/// prefix).
pub open spec fn value_body(v: ValueV) -> Seq<u8> {
    match v {
        ValueV::Integer(x) => i32_be_bytes(x),
        ValueV::Boolean(b) => seq![if b { 1u8 } else { 0u8 }],
        ValueV::Enum(x) => i32_be_bytes(x),
        ValueV::OctetString(s) => s,
        ValueV::DateTime(d) => u16_be_bytes(d.year) + seq![
            d.month,
            d.day,
            d.hour,
            d.minutes,
            d.seconds,
            d.deciseconds,
            d.utc_dir,
            d.utc_hours,
            d.utc_minutes,
        ],
        ValueV::Resolution(r) => i32_be_bytes(r.cross_feed) + i32_be_bytes(r.feed) + seq![r.units],
        ValueV::RangeOfInteger { min, max } => i32_be_bytes(min) + i32_be_bytes(max),
        ValueV::TextWithLanguage { language, text } => u16_be_bytes(language.len() as u16)
            + language + u16_be_bytes(text.len() as u16) + text,
        ValueV::NameWithLanguage { language, name } => u16_be_bytes(language.len() as u16)
            + language + u16_be_bytes(name.len() as u16) + name,
        ValueV::TextWithoutLanguage(s) => s,
        ValueV::NameWithoutLanguage(s) => s,
        ValueV::Keyword(s) => s,
        ValueV::Uri(s) => s,
        ValueV::UriScheme(s) => s,
        ValueV::Charset(s) => s,
        ValueV::NaturalLanguage(s) => s,
        ValueV::MimeMediaType(s) => s,
        ValueV::MemberAttrName(s) => s,
        ValueV::Other { data, .. } => data,
    }
}

/// A value the codec can emit: variable-length bodies fit their `u16`
/// length prefix, and an `Other` value carries a tag that is a value tag
/// (at least 0x10) and not one of the recognized ones, so that nothing
/// decodes it differently.
pub open spec fn wf_value(v: ValueV) -> bool {
    match v {
        ValueV::OctetString(s) => s.len() <= 0xFFFF,
        ValueV::TextWithLanguage { language, text } => 4 + language.len() + text.len() <= 0xFFFF,
        ValueV::NameWithLanguage { language, name } => 4 + language.len() + name.len() <= 0xFFFF,
        ValueV::TextWithoutLanguage(s) => s.len() <= 0xFFFF,
        ValueV::NameWithoutLanguage(s) => s.len() <= 0xFFFF,
        ValueV::Keyword(s) => s.len() <= 0xFFFF,
        ValueV::Uri(s) => s.len() <= 0xFFFF,
        ValueV::UriScheme(s) => s.len() <= 0xFFFF,
        ValueV::Charset(s) => s.len() <= 0xFFFF,
        ValueV::NaturalLanguage(s) => s.len() <= 0xFFFF,
        ValueV::MimeMediaType(s) => s.len() <= 0xFFFF,
        ValueV::MemberAttrName(s) => s.len() <= 0xFFFF,
        ValueV::Other { tag, data } => 0x10 <= tag && !is_known_value_tag(tag) && data.len()
            <= 0xFFFF,
        _ => true,
    }
}

pub proof fn lemma_wf_value_body_len(v: ValueV)
    requires
        wf_value(v),
    ensures
        value_body(v).len() <= 0xFFFF,
{
}

pub proof fn lemma_wf_value_tag(v: ValueV)
    requires
        wf_value(v),
    ensures
        value_tag(v) >= 0x10,
{
}

/// Decodes a body under a value tag.  `None` means the body does not
/// have the length or shape the tag demands.
pub open spec fn decode_value(tag: u8, body: Seq<u8>) -> Option<ValueV> {
    if tag == TAG_INTEGER {
        if body.len() == 4 {
            Some(ValueV::Integer(i32_from_be(body[0], body[1], body[2], body[3])))
        } else {
            None
        }
    } else if tag == TAG_BOOLEAN {
        if body.len() == 1 {
            Some(ValueV::Boolean(body[0] != 0))
        } else {
            None
        }
    } else if tag == TAG_ENUM {
        if body.len() == 4 {
            Some(ValueV::Enum(i32_from_be(body[0], body[1], body[2], body[3])))
        } else {
            None
        }
    } else if tag == TAG_OCTET_STRING {
        Some(ValueV::OctetString(body))
    } else if tag == TAG_DATETIME {
        if body.len() == 11 {
            Some(
                ValueV::DateTime(
                    IppDateTime {
                        year: u16_from_be(body[0], body[1]),
                        month: body[2],
                        day: body[3],
                        hour: body[4],
                        minutes: body[5],
                        seconds: body[6],
                        deciseconds: body[7],
                        utc_dir: body[8],
                        utc_hours: body[9],
                        utc_minutes: body[10],
                    },
                ),
            )
        } else {
            None
        }
    } else if tag == TAG_RESOLUTION {
        if body.len() == 9 {
            Some(
                ValueV::Resolution(
                    IppResolution {
                        cross_feed: i32_from_be(body[0], body[1], body[2], body[3]),
                        feed: i32_from_be(body[4], body[5], body[6], body[7]),
                        units: body[8],
                    },
                ),
            )
        } else {
            None
        }
    } else if tag == TAG_RANGE_OF_INTEGER {
        if body.len() == 8 {
            Some(
                ValueV::RangeOfInteger {
                    min: i32_from_be(body[0], body[1], body[2], body[3]),
                    max: i32_from_be(body[4], body[5], body[6], body[7]),
                },
            )
        } else {
            None
        }
    } else if tag == TAG_TEXT_WITH_LANGUAGE || tag == TAG_NAME_WITH_LANGUAGE {
        if body.len() >= 2 {
            let llen = u16_from_be(body[0], body[1]) as int;
            if body.len() >= 4 + llen {
                let slen = u16_from_be(body[2 + llen], body[3 + llen]) as int;
                if body.len() == 4 + llen + slen {
                    let language = body.subrange(2, 2 + llen);
                    let s = body.subrange(4 + llen, 4 + llen + slen);
                    if tag == TAG_TEXT_WITH_LANGUAGE {
                        Some(ValueV::TextWithLanguage { language, text: s })
                    } else {
                        Some(ValueV::NameWithLanguage { language, name: s })
                    }
                } else {
                    None
                }
            } else {
                None
            }
        } else {
            None
        }
    } else if tag == TAG_TEXT_WITHOUT_LANGUAGE {
        Some(ValueV::TextWithoutLanguage(body))
    } else if tag == TAG_NAME_WITHOUT_LANGUAGE {
        Some(ValueV::NameWithoutLanguage(body))
    } else if tag == TAG_KEYWORD {
        Some(ValueV::Keyword(body))
    } else if tag == TAG_URI {
        Some(ValueV::Uri(body))
    } else if tag == TAG_URI_SCHEME {
        Some(ValueV::UriScheme(body))
    } else if tag == TAG_CHARSET {
        Some(ValueV::Charset(body))
    } else if tag == TAG_NATURAL_LANGUAGE {
        Some(ValueV::NaturalLanguage(body))
    } else if tag == TAG_MIME_MEDIA_TYPE {
        Some(ValueV::MimeMediaType(body))
    } else if tag == TAG_MEMBER_ATTR_NAME {
        Some(ValueV::MemberAttrName(body))
    } else {
        Some(ValueV::Other { tag, data: body })
    }
}

/// Decoding inverts encoding: the canonical body of a well-formed value,
/// read back under its canonical tag, is the value itself.
pub proof fn lemma_decode_value_round_trip(v: ValueV)
    requires
        wf_value(v),
    ensures
        decode_value(value_tag(v), value_body(v)) == Some(v),
{
    match v {
        ValueV::Integer(x) => {
            lemma_i32_be_round_trip(x);
        },
        ValueV::Enum(x) => {
            lemma_i32_be_round_trip(x);
        },
        ValueV::DateTime(d) => {
            lemma_u16_be_round_trip(d.year);
        },
        ValueV::Resolution(r) => {
            let body = value_body(v);
            lemma_i32_be_round_trip(r.cross_feed);
            lemma_i32_be_round_trip(r.feed);
            assert(body.subrange(0, 4) =~= i32_be_bytes(r.cross_feed));
            assert(body.subrange(4, 8) =~= i32_be_bytes(r.feed));
        },
        ValueV::RangeOfInteger { min, max } => {
            let body = value_body(v);
            lemma_i32_be_round_trip(min);
            lemma_i32_be_round_trip(max);
            assert(body.subrange(0, 4) =~= i32_be_bytes(min));
            assert(body.subrange(4, 8) =~= i32_be_bytes(max));
        },
        ValueV::TextWithLanguage { language, text } => {
            lemma_with_language_round_trip(language, text);
        },
        ValueV::NameWithLanguage { language, name } => {
            lemma_with_language_round_trip(language, name);
        },
        _ => {},
    }
}

/// The body of a text-with-language or name-with-language value reads
/// back as the language and string it was built from.
proof fn lemma_with_language_round_trip(language: Seq<u8>, s: Seq<u8>)
    requires
        4 + language.len() + s.len() <= 0xFFFF,
    ensures
        ({
            let body = u16_be_bytes(language.len() as u16) + language + u16_be_bytes(
                s.len() as u16,
            ) + s;
            &&& body.len() == 4 + language.len() + s.len()
            &&& u16_from_be(body[0], body[1]) == language.len()
            &&& u16_from_be(body[2 + language.len() as int], body[3 + language.len() as int])
                == s.len()
            &&& body.subrange(2, 2 + language.len() as int) == language
            &&& body.subrange(
                4 + language.len() as int,
                4 + language.len() as int + s.len() as int,
            ) == s
        }),
{
    let llen = language.len() as int;
    let slen = s.len() as int;
    let body = u16_be_bytes(language.len() as u16) + language + u16_be_bytes(s.len() as u16) + s;
    lemma_u16_be_round_trip(language.len() as u16);
    lemma_u16_be_round_trip(s.len() as u16);
    assert(body[0] == u16_be_bytes(language.len() as u16)[0]);
    assert(body[1] == u16_be_bytes(language.len() as u16)[1]);
    assert(body[2 + llen] == u16_be_bytes(s.len() as u16)[0]);
    assert(body[3 + llen] == u16_be_bytes(s.len() as u16)[1]);
    assert(body.subrange(2, 2 + llen) =~= language);
    assert(body.subrange(4 + llen, 4 + llen + slen) =~= s);
}

/// Appends every byte of `data` to `out`.
pub fn push_bytes(out: &mut Vec<u8>, data: &Vec<u8>)
    ensures
        final(out)@ == old(out)@ + data@,
{
    let n: usize = data.len();
    let mut i: usize = 0;
    while i < n
        invariant
            i <= n,
            n == data@.len(),
            out@ == old(out)@ + data@.take(i as int),
        decreases n - i,
    {
        out.push(data[i]);
        proof {
            assert(old(out)@ + data@.take(i as int) + seq![data@[i as int]] =~= old(out)@
                + data@.take(i as int + 1));
        }
        i = i + 1;
    }
    proof {
        assert(data@.take(n as int) =~= data@);
    }
}

impl IppValue {
    /// The canonical tag byte of this value.
    pub fn tag(&self) -> (t: u8)
        ensures
            t == value_tag(self@),
    {
        match self {
            IppValue::Integer(_) => TAG_INTEGER,
            IppValue::Boolean(_) => TAG_BOOLEAN,
            IppValue::Enum(_) => TAG_ENUM,
            IppValue::OctetString(_) => TAG_OCTET_STRING,
            IppValue::DateTime(_) => TAG_DATETIME,
            IppValue::Resolution(_) => TAG_RESOLUTION,
            IppValue::RangeOfInteger { .. } => TAG_RANGE_OF_INTEGER,
            IppValue::TextWithLanguage { .. } => TAG_TEXT_WITH_LANGUAGE,
            IppValue::NameWithLanguage { .. } => TAG_NAME_WITH_LANGUAGE,
            IppValue::TextWithoutLanguage(_) => TAG_TEXT_WITHOUT_LANGUAGE,
            IppValue::NameWithoutLanguage(_) => TAG_NAME_WITHOUT_LANGUAGE,
            IppValue::Keyword(_) => TAG_KEYWORD,
            IppValue::Uri(_) => TAG_URI,
            IppValue::UriScheme(_) => TAG_URI_SCHEME,
            IppValue::Charset(_) => TAG_CHARSET,
            IppValue::NaturalLanguage(_) => TAG_NATURAL_LANGUAGE,
            IppValue::MimeMediaType(_) => TAG_MIME_MEDIA_TYPE,
            IppValue::MemberAttrName(_) => TAG_MEMBER_ATTR_NAME,
            IppValue::Other { tag, .. } => *tag,
        }
    }

    /// Appends the canonical body bytes of this value to `out`.
    pub fn write_body(&self, out: &mut Vec<u8>)
        requires
            wf_value(self@),
        ensures
            final(out)@ == old(out)@ + value_body(self@),
    {
        match self {
            IppValue::Integer(x) => push_i32(out, *x),
            IppValue::Boolean(b) => out.push(if *b { 1u8 } else { 0u8 }),
            IppValue::Enum(x) => push_i32(out, *x),
            IppValue::OctetString(s) => push_bytes(out, s),
            IppValue::DateTime(d) => {
                push_u16(out, d.year);
                out.push(d.month);
                out.push(d.day);
                out.push(d.hour);
                out.push(d.minutes);
                out.push(d.seconds);
                out.push(d.deciseconds);
                out.push(d.utc_dir);
                out.push(d.utc_hours);
                out.push(d.utc_minutes);
                proof {
                    assert(out@ =~= old(out)@ + value_body(self@));
                }
            },
            IppValue::Resolution(r) => {
                push_i32(out, r.cross_feed);
                push_i32(out, r.feed);
                out.push(r.units);
                proof {
                    assert(out@ =~= old(out)@ + value_body(self@));
                }
            },
            IppValue::RangeOfInteger { min, max } => {
                push_i32(out, *min);
                push_i32(out, *max);
                proof {
                    assert(out@ =~= old(out)@ + value_body(self@));
                }
            },
            IppValue::TextWithLanguage { language, text } => {
                write_with_language(out, language, text);
            },
            IppValue::NameWithLanguage { language, name } => {
                write_with_language(out, language, name);
            },
            IppValue::TextWithoutLanguage(s) => push_bytes(out, s),
            IppValue::NameWithoutLanguage(s) => push_bytes(out, s),
            IppValue::Keyword(s) => push_bytes(out, s),
            IppValue::Uri(s) => push_bytes(out, s),
            IppValue::UriScheme(s) => push_bytes(out, s),
            IppValue::Charset(s) => push_bytes(out, s),
            IppValue::NaturalLanguage(s) => push_bytes(out, s),
            IppValue::MimeMediaType(s) => push_bytes(out, s),
            IppValue::MemberAttrName(s) => push_bytes(out, s),
            IppValue::Other { data, .. } => push_bytes(out, data),
        }
    }

    /// Whether this value may be emitted: its variable-length parts fit
    /// their `u16` length prefixes and an `Other` tag collides with
    /// nothing.
    pub fn is_well_formed(&self) -> (r: bool)
        ensures
            r == wf_value(self@),
    {
        match self {
            IppValue::OctetString(s) => s.len() <= 0xFFFF,
            IppValue::TextWithLanguage { language, text } => language.len() <= 0xFFFF - 4
                && text.len() <= 0xFFFF - 4 - language.len(),
            IppValue::NameWithLanguage { language, name } => language.len() <= 0xFFFF - 4
                && name.len() <= 0xFFFF - 4 - language.len(),
            IppValue::TextWithoutLanguage(s) => s.len() <= 0xFFFF,
            IppValue::NameWithoutLanguage(s) => s.len() <= 0xFFFF,
            IppValue::Keyword(s) => s.len() <= 0xFFFF,
            IppValue::Uri(s) => s.len() <= 0xFFFF,
            IppValue::UriScheme(s) => s.len() <= 0xFFFF,
            IppValue::Charset(s) => s.len() <= 0xFFFF,
            IppValue::NaturalLanguage(s) => s.len() <= 0xFFFF,
            IppValue::MimeMediaType(s) => s.len() <= 0xFFFF,
            IppValue::MemberAttrName(s) => s.len() <= 0xFFFF,
            IppValue::Other { tag, data } => 0x10 <= *tag && !is_known_value_tag_exec(*tag)
                && data.len() <= 0xFFFF,
            _ => true,
        }
    }
}

/// Whether `t` is one of the tags the codec decodes into a typed
/// variant.
pub fn is_known_value_tag_exec(t: u8) -> (r: bool)
    ensures
        r == is_known_value_tag(t),
{
    t == TAG_INTEGER || t == TAG_BOOLEAN || t == TAG_ENUM || t == TAG_OCTET_STRING
        || t == TAG_DATETIME || t == TAG_RESOLUTION || t == TAG_RANGE_OF_INTEGER
        || t == TAG_TEXT_WITH_LANGUAGE || t == TAG_NAME_WITH_LANGUAGE
        || t == TAG_TEXT_WITHOUT_LANGUAGE || t == TAG_NAME_WITHOUT_LANGUAGE || t == TAG_KEYWORD
        || t == TAG_URI || t == TAG_URI_SCHEME || t == TAG_CHARSET || t == TAG_NATURAL_LANGUAGE
        || t == TAG_MIME_MEDIA_TYPE || t == TAG_MEMBER_ATTR_NAME
}

/// Writes the `u16` language-length, language, `u16` string-length,
/// string shape shared by the two with-language value bodies.
fn write_with_language(out: &mut Vec<u8>, language: &Vec<u8>, s: &Vec<u8>)
    requires
        4 + language@.len() + s@.len() <= 0xFFFF,
    ensures
        final(out)@ == old(out)@ + u16_be_bytes(language@.len() as u16) + language@ + u16_be_bytes(
            s@.len() as u16,
        ) + s@,
{
    let llen: u16 = language.len() as u16;
    let slen: u16 = s.len() as u16;
    push_u16(out, llen);
    push_bytes(out, language);
    push_u16(out, slen);
    push_bytes(out, s);
}

/// Decodes a body under a value tag (runtime form of
/// [`decode_value`]).
pub fn decode_value_exec(tag: u8, body: Vec<u8>) -> (r: Option<IppValue>)
    ensures
        match r {
            Some(v) => decode_value(tag, body@) == Some(v@),
            None => decode_value(tag, body@) is None,
        },
{
    let n: usize = body.len();
    if tag == TAG_INTEGER {
        if n == 4 {
            Some(IppValue::Integer(read_i32_at(&body, 0)))
        } else {
            None
        }
    } else if tag == TAG_BOOLEAN {
        if n == 1 {
            Some(IppValue::Boolean(body[0] != 0))
        } else {
            None
        }
    } else if tag == TAG_ENUM {
        if n == 4 {
            Some(IppValue::Enum(read_i32_at(&body, 0)))
        } else {
            None
        }
    } else if tag == TAG_OCTET_STRING {
        Some(IppValue::OctetString(body))
    } else if tag == TAG_DATETIME {
        if n == 11 {
            Some(
                IppValue::DateTime(
                    IppDateTime {
                        year: read_u16_at(&body, 0),
                        month: body[2],
                        day: body[3],
                        hour: body[4],
                        minutes: body[5],
                        seconds: body[6],
                        deciseconds: body[7],
                        utc_dir: body[8],
                        utc_hours: body[9],
                        utc_minutes: body[10],
                    },
                ),
            )
        } else {
            None
        }
    } else if tag == TAG_RESOLUTION {
        if n == 9 {
            Some(
                IppValue::Resolution(
                    IppResolution {
                        cross_feed: read_i32_at(&body, 0),
                        feed: read_i32_at(&body, 4),
                        units: body[8],
                    },
                ),
            )
        } else {
            None
        }
    } else if tag == TAG_RANGE_OF_INTEGER {
        if n == 8 {
            Some(
                IppValue::RangeOfInteger {
                    min: read_i32_at(&body, 0),
                    max: read_i32_at(&body, 4),
                },
            )
        } else {
            None
        }
    } else if tag == TAG_TEXT_WITH_LANGUAGE || tag == TAG_NAME_WITH_LANGUAGE {
        if n < 2 {
            return None;
        }
        let llen: usize = read_u16_at(&body, 0) as usize;
        if n < 4 + llen {
            return None;
        }
        let slen: usize = read_u16_at(&body, 2 + llen) as usize;
        if n != 4 + llen + slen {
            return None;
        }
        let language = crate::wire::copy_range(&body, 2, 2 + llen);
        let s = crate::wire::copy_range(&body, 4 + llen, 4 + llen + slen);
        if tag == TAG_TEXT_WITH_LANGUAGE {
            Some(IppValue::TextWithLanguage { language, text: s })
        } else {
            Some(IppValue::NameWithLanguage { language, name: s })
        }
    } else if tag == TAG_TEXT_WITHOUT_LANGUAGE {
        Some(IppValue::TextWithoutLanguage(body))
    } else if tag == TAG_NAME_WITHOUT_LANGUAGE {
        Some(IppValue::NameWithoutLanguage(body))
    } else if tag == TAG_KEYWORD {
        Some(IppValue::Keyword(body))
    } else if tag == TAG_URI {
        Some(IppValue::Uri(body))
    } else if tag == TAG_URI_SCHEME {
        Some(IppValue::UriScheme(body))
    } else if tag == TAG_CHARSET {
        Some(IppValue::Charset(body))
    } else if tag == TAG_NATURAL_LANGUAGE {
        Some(IppValue::NaturalLanguage(body))
    } else if tag == TAG_MIME_MEDIA_TYPE {
        Some(IppValue::MimeMediaType(body))
    } else if tag == TAG_MEMBER_ATTR_NAME {
        Some(IppValue::MemberAttrName(body))
    } else {
        Some(IppValue::Other { tag, data: body })
    }
}

/// A value whose tag nothing recognizes decodes to `Other` and carries
/// its body bytes unchanged, so it re-encodes byte for byte.
pub proof fn lemma_unknown_tag_passthrough(tag: u8, body: Seq<u8>)
    requires
        !is_known_value_tag(tag),
    ensures
        decode_value(tag, body) == Some(ValueV::Other { tag, data: body }),
        value_tag(ValueV::Other { tag, data: body }) == tag,
        value_body(ValueV::Other { tag, data: body }) == body,
{
}

/// A decoded value is well-formed and re-encodes under the tag it was
/// read with.
pub proof fn lemma_decode_value_wf(tag: u8, body: Seq<u8>)
    requires
        0x10 <= tag,
        body.len() <= 0xFFFF,
        decode_value(tag, body) is Some,
    ensures
        wf_value(decode_value(tag, body)->Some_0),
        value_tag(decode_value(tag, body)->Some_0) == tag,
{
    if tag == TAG_TEXT_WITH_LANGUAGE || tag == TAG_NAME_WITH_LANGUAGE {
        let llen = u16_from_be(body[0], body[1]) as int;
        let slen = u16_from_be(body[2 + llen], body[3 + llen]) as int;
        assert(body.len() == 4 + llen + slen);
    }
}

} // verus!
