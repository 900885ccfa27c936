//! The request/response object: header, attribute groups and optional
//! payload, with the standard operation attributes seeded on
//! construction.

use vstd::prelude::*;

use crate::attribute::{
    add_attr_groups, add_attr_list, wf_groups, AttrV, GroupV, IppAttribute, IppAttributeGroup, IppAttributes,
};
use crate::codec::{ser_groups, ser_header, ser_message, write_metadata};
use crate::model::{
    DelimiterTag, IppHeader, IppVersion, Operation, DELIMITER_END_OF_ATTRIBUTES,
    DELIMITER_OPERATION_ATTRIBUTES,
};
use crate::names::{
    attributes_charset, attributes_natural_language, en, http_prefix, https_prefix, ipp_prefix,
    ipps_prefix, printer_uri, spec_attributes_charset, spec_attributes_natural_language, spec_en,
    spec_http_prefix, spec_https_prefix, spec_ipp_prefix, spec_ipps_prefix, spec_printer_uri,
    spec_utf_8, utf_8,
};
use crate::parse::{parse_message, read_message, MsgV, ParseError};
use crate::value::{IppValue, ValueV};
use crate::wire::copy_range;

verus! {

/// Whether `s` begins with `prefix`.
pub open spec fn starts_with(s: Seq<u8>, prefix: Seq<u8>) -> bool {
    s.len() >= prefix.len() && s.subrange(0, prefix.len() as int) == prefix
}

/// The printer URI with its scheme moved onto IPP: `http://` becomes
/// `ipp://` and `https://` becomes `ipps://`; any other URI is kept
/// unchanged.
pub open spec fn spec_rewrite_scheme(uri: Seq<u8>) -> Seq<u8> {
    if starts_with(uri, spec_http_prefix()) {
        spec_ipp_prefix() + uri.skip(spec_http_prefix().len() as int)
    } else if starts_with(uri, spec_https_prefix()) {
        spec_ipps_prefix() + uri.skip(spec_https_prefix().len() as int)
    } else {
        uri
    }
}

/// Whether `s` begins with `prefix` (runtime form).
pub fn starts_with_exec(s: &Vec<u8>, prefix: &Vec<u8>) -> (r: bool)
    ensures
        r == starts_with(s@, prefix@),
{
    let pn: usize = prefix.len();
    if s.len() < pn {
        return false;
    }
    let mut i: usize = 0;
    while i < pn
        invariant
            i <= pn,
            pn == prefix@.len(),
            pn <= s@.len(),
            forall|j: int| 0 <= j < i ==> s@[j] == prefix@[j],
        decreases pn - i,
    {
        if s[i] != prefix[i] {
            proof {
                assert(s@.subrange(0, pn as int)[i as int] != prefix@[i as int]);
            }
            return false;
        }
        i = i + 1;
    }
    proof {
        assert(s@.subrange(0, pn as int) =~= prefix@);
    }
    true
}

/// Rewrites the URI scheme as [`spec_rewrite_scheme`] says.
pub fn rewrite_scheme(uri: &Vec<u8>) -> (r: Vec<u8>)
    ensures
        r@ == spec_rewrite_scheme(uri@),
{
    let http = http_prefix();
    let https = https_prefix();
    if starts_with_exec(uri, &http) {
        let mut r = ipp_prefix();
        let tail = copy_range(uri, 7, uri.len());
        crate::value::push_bytes(&mut r, &tail);
        proof {
            assert(r@ =~= spec_ipp_prefix() + uri@.skip(7));
        }
        r
    } else if starts_with_exec(uri, &https) {
        let mut r = ipps_prefix();
        let tail = copy_range(uri, 8, uri.len());
        crate::value::push_bytes(&mut r, &tail);
        proof {
            assert(r@ =~= spec_ipps_prefix() + uri@.skip(8));
        }
        r
    } else {
        copy_range(uri, 0, uri.len())
    }
}

/// A URI whose scheme was `http` comes out under `ipp`, and `https`
/// under `ipps`; the rest of the URI is untouched.
pub proof fn lemma_rewrite_scheme(uri: Seq<u8>)
    ensures
        starts_with(uri, spec_http_prefix()) ==> spec_rewrite_scheme(uri) == spec_ipp_prefix()
            + uri.skip(7),
        starts_with(uri, spec_https_prefix()) ==> spec_rewrite_scheme(uri) == spec_ipps_prefix()
            + uri.skip(8),
        starts_with(uri, spec_http_prefix()) ==> starts_with(
            spec_rewrite_scheme(uri),
            spec_ipp_prefix(),
        ),
        starts_with(uri, spec_https_prefix()) ==> starts_with(
            spec_rewrite_scheme(uri),
            spec_ipps_prefix(),
        ),
{
    if starts_with(uri, spec_http_prefix()) {
        assert((spec_ipp_prefix() + uri.skip(7)).subrange(0, 6) =~= spec_ipp_prefix());
    } else if starts_with(uri, spec_https_prefix()) {
        assert((spec_ipps_prefix() + uri.skip(8)).subrange(0, 7) =~= spec_ipps_prefix());
    }
}

/// The `attributes-charset = "utf-8"` attribute every message starts
/// with.
pub open spec fn charset_attr() -> AttrV {
    AttrV { name: spec_attributes_charset(), values: seq![ValueV::Charset(spec_utf_8())] }
}

/// The `attributes-natural-language = "en"` attribute that follows it.
pub open spec fn language_attr() -> AttrV {
    AttrV {
        name: spec_attributes_natural_language(),
        values: seq![ValueV::NaturalLanguage(spec_en())],
    }
}

/// The `printer-uri` attribute of a request, scheme already rewritten.
pub open spec fn uri_attr(uri: Seq<u8>) -> AttrV {
    AttrV { name: spec_printer_uri(), values: seq![ValueV::Uri(spec_rewrite_scheme(uri))] }
}

/// The charset and language attributes stand first in the operation
/// attributes, before anything else.
pub open spec fn has_standard_prelude(gs: Seq<GroupV>) -> bool {
    &&& gs.len() >= 1
    &&& gs[0].tag == DELIMITER_OPERATION_ATTRIBUTES
    &&& gs[0].attributes.len() >= 2
    &&& gs[0].attributes[0] == charset_attr()
    &&& gs[0].attributes[1] == language_attr()
}

/// A pull parser over a received byte buffer.
pub struct IppParser {
    data: Vec<u8>,
}

impl View for IppParser {
    type V = Seq<u8>;

    closed spec fn view(&self) -> Seq<u8> {
        self.data@
    }
}

impl IppParser {
    /// A parser over `data`.
    pub fn new(data: Vec<u8>) -> (r: IppParser)
        ensures
            r@ == data@,
    {
        IppParser { data }
    }
}

/// An IPP message: a request or a response, depending on how the
/// 16-bit header slot is read.
pub struct IppRequestResponse {
    header: IppHeader,
    attributes: IppAttributes,
    payload: Option<Vec<u8>>,
}

impl View for IppRequestResponse {
    type V = MsgV;

    closed spec fn view(&self) -> MsgV {
        MsgV {
            header: self.header,
            groups: self.attributes@,
            payload: match self.payload {
                Some(p) => p@,
                None => Seq::empty(),
            },
        }
    }
}

/// Anything that exposes an IPP header.
pub trait IppRequestTrait {
    /// The message header.
    fn header(&self) -> &IppHeader;
}

impl IppRequestTrait for IppRequestResponse {
    fn header(&self) -> &IppHeader {
        &self.header
    }
}

impl IppRequestResponse {
    /// A request for `operation` against `uri`, with the charset,
    /// natural-language and printer-uri attributes seeded in that
    /// order and the URI scheme rewritten onto IPP.
    pub fn new(operation: Operation, uri: &Vec<u8>) -> (r: IppRequestResponse)
        requires
            uri@.len() <= 0xFFFF,
        ensures
            r@.header.version_major == 1 && r@.header.version_minor == 1,
            r@.header.operation_or_status == operation.spec_code(),
            r@.header.request_id == 1,
            r@.groups == seq![
                GroupV {
                    tag: DELIMITER_OPERATION_ATTRIBUTES,
                    attributes: seq![charset_attr(), language_attr(), uri_attr(uri@)],
                },
            ],
            r@.payload == Seq::<u8>::empty(),
            wf_groups(r@.groups),
            has_standard_prelude(r@.groups),
    {
        let hdr = IppHeader::new(IppVersion::Ipp11, operation.code(), 1);
        let mut retval = IppRequestResponse {
            header: hdr,
            attributes: IppAttributes::new(),
            payload: None,
        };
        let ghost t = DELIMITER_OPERATION_ATTRIBUTES;
        let a1 = IppAttribute::new(attributes_charset(), IppValue::Charset(utf_8()));
        proof {
            assert(a1@ =~~= charset_attr());
        }
        retval.set_attribute(DelimiterTag::OperationAttributes, a1);
        proof {
            assert(retval@.groups =~~= seq![
                GroupV { tag: t, attributes: seq![charset_attr()] },
            ]);
        }
        let a2 = IppAttribute::new(attributes_natural_language(), IppValue::NaturalLanguage(en()));
        proof {
            assert(a2@ =~~= language_attr());
            assert(charset_attr().name != language_attr().name);
        }
        retval.set_attribute(DelimiterTag::OperationAttributes, a2);
        proof {
            assert(seq![charset_attr()].skip(1) =~= Seq::<AttrV>::empty());
            assert(add_attr_list(Seq::<AttrV>::empty(), language_attr()) =~~= seq![
                language_attr(),
            ]);
            assert(add_attr_list(seq![charset_attr()], language_attr()) =~~= seq![
                charset_attr(),
                language_attr(),
            ]);
            assert(retval@.groups =~~= seq![
                GroupV { tag: t, attributes: seq![charset_attr(), language_attr()] },
            ]);
        }
        let a3 = IppAttribute::new(printer_uri(), IppValue::Uri(rewrite_scheme(uri)));
        proof {
            assert(a3@ =~~= uri_attr(uri@));
            assert(charset_attr().name != uri_attr(uri@).name);
            assert(language_attr().name != uri_attr(uri@).name);
        }
        retval.set_attribute(DelimiterTag::OperationAttributes, a3);
        proof {
            assert(seq![charset_attr(), language_attr()].skip(1) =~= seq![language_attr()]);
            assert(seq![language_attr()].skip(1) =~= Seq::<AttrV>::empty());
            assert(add_attr_list(Seq::<AttrV>::empty(), uri_attr(uri@)) =~~= seq![uri_attr(uri@)]);
            assert(add_attr_list(seq![language_attr()], uri_attr(uri@)) =~~= seq![
                language_attr(),
                uri_attr(uri@),
            ]);
            assert(add_attr_list(
                seq![charset_attr(), language_attr()],
                uri_attr(uri@),
            ) =~~= seq![charset_attr(), language_attr(), uri_attr(uri@)]);
            assert(retval@.groups =~~= seq![
                GroupV {
                    tag: t,
                    attributes: seq![charset_attr(), language_attr(), uri_attr(uri@)],
                },
            ]);
            assert(spec_rewrite_scheme(uri@).len() <= 0xFFFF);
            assert(crate::attribute::wf_attr(charset_attr()));
            assert(crate::attribute::wf_attr(language_attr()));
            assert(crate::attribute::wf_attr(uri_attr(uri@)));
            assert(crate::attribute::wf_group(retval@.groups[0]));
            assert(wf_groups(retval@.groups));
        }
        retval
    }

    /// A response carrying `status` and echoing `id`, with the charset
    /// and natural-language attributes seeded in that order.
    pub fn new_response(status: u16, id: u32) -> (r: IppRequestResponse)
        ensures
            r@.header.version_major == 1 && r@.header.version_minor == 1,
            r@.header.operation_or_status == status,
            r@.header.request_id == id,
            r@.groups == seq![
                GroupV {
                    tag: DELIMITER_OPERATION_ATTRIBUTES,
                    attributes: seq![charset_attr(), language_attr()],
                },
            ],
            r@.payload == Seq::<u8>::empty(),
            wf_groups(r@.groups),
            has_standard_prelude(r@.groups),
    {
        let hdr = IppHeader::new(IppVersion::Ipp11, status, id);
        let mut retval = IppRequestResponse {
            header: hdr,
            attributes: IppAttributes::new(),
            payload: None,
        };
        let ghost t = DELIMITER_OPERATION_ATTRIBUTES;
        let a1 = IppAttribute::new(attributes_charset(), IppValue::Charset(utf_8()));
        proof {
            assert(a1@ =~~= charset_attr());
        }
        retval.set_attribute(DelimiterTag::OperationAttributes, a1);
        proof {
            assert(retval@.groups =~~= seq![
                GroupV { tag: t, attributes: seq![charset_attr()] },
            ]);
        }
        let a2 = IppAttribute::new(attributes_natural_language(), IppValue::NaturalLanguage(en()));
        proof {
            assert(a2@ =~~= language_attr());
            assert(charset_attr().name != language_attr().name);
        }
        retval.set_attribute(DelimiterTag::OperationAttributes, a2);
        proof {
            assert(seq![charset_attr()].skip(1) =~= Seq::<AttrV>::empty());
            assert(add_attr_list(Seq::<AttrV>::empty(), language_attr()) =~~= seq![
                language_attr(),
            ]);
            assert(add_attr_list(seq![charset_attr()], language_attr()) =~~= seq![
                charset_attr(),
                language_attr(),
            ]);
            assert(retval@.groups =~~= seq![
                GroupV { tag: t, attributes: seq![charset_attr(), language_attr()] },
            ]);
        }
        retval
    }

    /// Parses a message from the parser's buffer; the bytes after the
    /// end-of-attributes tag become the payload.
    pub fn from_parser(parser: IppParser) -> (r: Result<IppRequestResponse, ParseError>)
        ensures
            match r {
                Ok(m) => parse_message(parser@) == Ok::<_, ParseError>(m@) && wf_groups(m@.groups),
                Err(e) => parse_message(parser@) == Err::<MsgV, _>(e),
            },
    {
        let data = parser.data;
        match read_message(&data) {
            Err(e) => Err(e),
            Ok((h, gs, p)) => {
                let payload = copy_range(&data, p, data.len());
                proof {
                    crate::parse::lemma_parse_message_wf(data@);
                    assert(payload@ =~= data@.skip(p as int));
                }
                let r = IppRequestResponse {
                    header: h,
                    attributes: IppAttributes { groups: gs },
                    payload: Some(payload),
                };
                Ok(r)
            },
        }
    }

    /// The message header.
    pub fn header(&self) -> (r: &IppHeader)
        ensures
            *r == self@.header,
    {
        &self.header
    }

    /// The message header, for updating.
    pub fn header_mut(&mut self) -> (r: &mut IppHeader)
        ensures
            *r == old(self)@.header,
            final(self)@.header == *final(r),
            final(self)@.groups == old(self)@.groups,
            final(self)@.payload == old(self)@.payload,
    {
        &mut self.header
    }

    /// The attribute groups.
    pub fn attributes(&self) -> (r: &IppAttributes)
        ensures
            r@ == self@.groups,
    {
        &self.attributes
    }

    /// The payload, if one was attached or parsed.
    pub fn payload(&self) -> (r: &Option<Vec<u8>>)
        ensures
            match r {
                Some(p) => self@.payload == p@,
                None => self@.payload == Seq::<u8>::empty(),
            },
    {
        &self.payload
    }

    /// Attaches the document bytes that follow the attributes.
    pub fn set_payload(&mut self, payload: Vec<u8>)
        ensures
            final(self)@.payload == payload@,
            final(self)@.header == old(self)@.header,
            final(self)@.groups == old(self)@.groups,
    {
        self.payload = Some(payload);
    }

    /// Inserts `attribute` under the group `group`, creating the group
    /// at the end on first use and replacing an attribute of the same
    /// name in place.
    pub fn set_attribute(&mut self, group: DelimiterTag, attribute: IppAttribute)
        ensures
            final(self)@.groups == add_attr_groups(
                old(self)@.groups,
                group.spec_as_u8(),
                attribute@,
            ),
            final(self)@.header == old(self)@.header,
            final(self)@.payload == old(self)@.payload,
    {
        self.attributes.add(group, attribute);
    }

    /// Whether every group can be emitted: delimiters valid, names
    /// distinct, values within their length prefixes.
    pub fn is_well_formed(&self) -> (r: bool)
        ensures
            r == wf_groups(self@.groups),
    {
        let n: usize = self.attributes.groups.len();
        let mut i: usize = 0;
        while i < n
            invariant
                i <= n,
                n == self@.groups.len(),
                forall|j: int| 0 <= j < i ==> crate::attribute::wf_group(#[trigger] self@.groups[j]),
            decreases n - i,
        {
            if !group_well_formed(&self.attributes.groups[i]) {
                proof {
                    assert(!crate::attribute::wf_group(self@.groups[i as int]));
                }
                return false;
            }
            i = i + 1;
        }
        true
    }

    /// The header and attribute bytes, everything up to and including
    /// the end-of-attributes tag.  A transport must send these as one
    /// chunk: some printer firmware rejects metadata split across HTTP
    /// chunks.
    pub fn metadata_bytes(&self) -> (r: Vec<u8>)
        requires
            wf_groups(self@.groups),
        ensures
            r@ == ser_header(self@.header) + ser_groups(self@.groups) + seq![
                DELIMITER_END_OF_ATTRIBUTES,
            ],
    {
        let mut out: Vec<u8> = Vec::new();
        write_metadata(&mut out, &self.header, &self.attributes);
        out
    }

    /// The whole message as one byte buffer: metadata first, then the
    /// payload.
    pub fn into_reader(self) -> (r: Vec<u8>)
        requires
            wf_groups(self@.groups),
        ensures
            r@ == ser_message(self@.header, self@.groups, self@.payload),
    {
        let mut out: Vec<u8> = Vec::new();
        write_metadata(&mut out, &self.header, &self.attributes);
        match self.payload {
            Some(p) => {
                crate::value::push_bytes(&mut out, &p);
                proof {
                    assert(out@ =~= ser_message(self@.header, self@.groups, self@.payload));
                }
            },
            None => {
                proof {
                    assert(out@ =~= ser_message(self@.header, self@.groups, self@.payload));
                }
            },
        }
        out
    }
}

/// Whether one group can be emitted.
fn group_well_formed(g: &IppAttributeGroup) -> (r: bool)
    ensures
        r == crate::attribute::wf_group(g@),
{
    if !crate::model::is_group_delimiter_exec(g.tag) {
        return false;
    }
    let n: usize = g.attributes.len();
    let mut i: usize = 0;
    while i < n
        invariant
            i <= n,
            n == g@.attributes.len(),
            forall|j: int| 0 <= j < i ==> crate::attribute::wf_attr(#[trigger] g@.attributes[j]),
            forall|j1: int, j2: int|
                0 <= j1 < j2 < i ==> g@.attributes[j1].name != g@.attributes[j2].name,
        decreases n - i,
    {
        if !g.attributes[i].is_well_formed() {
            proof {
                assert(!crate::attribute::wf_attr(g@.attributes[i as int]));
            }
            return false;
        }
        let mut j: usize = 0;
        while j < i
            invariant
                j <= i < n,
                n == g@.attributes.len(),
                forall|k: int| 0 <= k < j ==> g@.attributes[k].name != g@.attributes[i as int].name,
            decreases i - j,
        {
            if crate::attribute::bytes_eq(&g.attributes[j].name, &g.attributes[i].name) {
                proof {
                    assert(g@.attributes[j as int].name == g@.attributes[i as int].name);
                }
                return false;
            }
            j = j + 1;
        }
        i = i + 1;
    }
    true
}

} // verus!
