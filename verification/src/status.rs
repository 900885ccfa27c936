//! The error taxonomy, IPP status classification and the printer
//! readiness rules.

use vstd::prelude::*;

use crate::attribute::{AttrV, GroupV};
use crate::operation::byte_views;
use crate::names::{
    printer_is_accepting_jobs, printer_state, printer_state_reasons, spec_none_reason,
    spec_printer_is_accepting_jobs, spec_printer_state, spec_printer_state_reasons,
    spec_report_suffix,
};
use crate::parse::ParseError;
use crate::request::IppRequestResponse;
use crate::value::ValueV;

verus! {

/// What a response's 16-bit status code means, by range.
#[derive(Clone, Copy, PartialEq, Eq, Structural, Debug)]
pub enum StatusClass {
    Successful,
    Informational,
    Redirection,
    ClientError,
    ServerError,
    Unknown,
}

/// The class of a status code: 0x0000-0x00FF successful, 0x0100-0x01FF
/// informational, 0x0200-0x02FF redirection, 0x0400-0x04FF client
/// error, 0x0500-0x05FF server error.
pub open spec fn spec_status_class(code: u16) -> StatusClass {
    if code <= 0x00FF {
        StatusClass::Successful
    } else if code <= 0x01FF {
        StatusClass::Informational
    } else if code <= 0x02FF {
        StatusClass::Redirection
    } else if 0x0400 <= code && code <= 0x04FF {
        StatusClass::ClientError
    } else if 0x0500 <= code && code <= 0x05FF {
        StatusClass::ServerError
    } else {
        StatusClass::Unknown
    }
}

/// The class of a status code (runtime form).
pub fn status_class(code: u16) -> (r: StatusClass)
    ensures
        r == spec_status_class(code),
{
    if code <= 0x00FF {
        StatusClass::Successful
    } else if code <= 0x01FF {
        StatusClass::Informational
    } else if code <= 0x02FF {
        StatusClass::Redirection
    } else if 0x0400 <= code && code <= 0x04FF {
        StatusClass::ClientError
    } else if 0x0500 <= code && code <= 0x05FF {
        StatusClass::ServerError
    } else {
        StatusClass::Unknown
    }
}

/// Whether a status code reports a client or server error.
pub open spec fn spec_is_error_status(code: u16) -> bool {
    code >= 0x0400
}

/// Whether a status code reports a client or server error (runtime
/// form).
pub fn is_error_status(code: u16) -> (r: bool)
    ensures
        r == spec_is_error_status(code),
{
    code >= 0x0400
}

/// Everything that can go wrong between building a request and
/// understanding the response.  Transport failures carry the peer's
/// message as bytes; the transport itself lives outside this crate.
#[derive(Clone, PartialEq, Eq, Debug)]
pub enum IppError {
    /// The underlying HTTP, TLS or socket exchange failed.
    HttpError(Vec<u8>),
    /// The peer answered with an HTTP status other than 200.
    RequestError(u16),
    /// The response body was not a well-formed IPP message.
    ParseError(ParseError),
    /// The printer URI could not be parsed.
    InvalidUri,
    /// An attribute is present but carries the wrong value type.
    InvalidAttributeType,
    /// A required attribute is absent from the response.
    MissingAttribute,
    /// The response's IPP status code reports an error.
    StatusError(u16),
    /// The printer is not ready to accept a job.
    PrinterStateError { state: i32, accepting: bool, reasons: Vec<Vec<u8>> },
    /// Reading the payload failed.
    IoError(Vec<u8>),
    /// The operation exceeded its configured time bound.
    Timeout,
}

/// Whether a printer-state reason keeps the printer usable: `none`, or
/// any reason ending in `-report`.
pub open spec fn is_benign_reason(r: Seq<u8>) -> bool {
    r == spec_none_reason() || (r.len() >= 7 && r.skip(r.len() - 7) == spec_report_suffix())
}

/// Whether a reason is benign (runtime form).
pub fn benign_reason(r: &Vec<u8>) -> (b: bool)
    ensures
        b == is_benign_reason(r@),
{
    let none_word = crate::names::none_reason();
    if crate::attribute::bytes_eq(r, &none_word) {
        return true;
    }
    let n: usize = r.len();
    if n < 7 {
        proof {
            assert(r@ != spec_none_reason());
        }
        return false;
    }
    let tail = crate::wire::copy_range(r, n - 7, n);
    let suffix = crate::names::report_suffix();
    let eq = crate::attribute::bytes_eq(&tail, &suffix);
    proof {
        assert(r@.subrange(n - 7, n as int) =~= r@.skip(n - 7));
    }
    eq
}

/// A printer is ready when it accepts jobs, its state is idle (3) or
/// processing (4), and every reported reason is benign.
pub open spec fn printer_ready(state: i32, accepting: bool, reasons: Seq<Seq<u8>>) -> bool {
    &&& accepting
    &&& state == 3 || state == 4
    &&& forall|i: int| 0 <= i < reasons.len() ==> is_benign_reason(#[trigger] reasons[i])
}

/// Whether the printer is ready (runtime form).
pub fn check_printer_ready(state: i32, accepting: bool, reasons: &Vec<Vec<u8>>) -> (r: bool)
    ensures
        r == printer_ready(state, accepting, byte_views(reasons@)),
{
    if !accepting || !(state == 3 || state == 4) {
        return false;
    }
    let n: usize = reasons.len();
    let mut i: usize = 0;
    while i < n
        invariant
            i <= n,
            n == reasons@.len(),
            forall|j: int|
                0 <= j < i ==> is_benign_reason(#[trigger] byte_views(reasons@)[j]),
        decreases n - i,
    {
        if !benign_reason(&reasons[i]) {
            proof {
                assert(!is_benign_reason(byte_views(reasons@)[i as int]));
            }
            return false;
        }
        i = i + 1;
    }
    true
}

/// The first attribute named `name`, if any.
pub open spec fn find_attr_spec(attrs: Seq<AttrV>, name: Seq<u8>) -> Option<AttrV>
    decreases attrs.len(),
{
    if attrs.len() == 0 {
        None
    } else if attrs[0].name == name {
        Some(attrs[0])
    } else {
        find_attr_spec(attrs.skip(1), name)
    }
}

/// The first group under `tag`, if any.
pub open spec fn first_group_spec(gs: Seq<GroupV>, tag: u8) -> Option<GroupV>
    decreases gs.len(),
{
    if gs.len() == 0 {
        None
    } else if gs[0].tag == tag {
        Some(gs[0])
    } else {
        first_group_spec(gs.skip(1), tag)
    }
}

/// The index characterization of [`find_attr_spec`].
pub proof fn lemma_find_attr_spec(attrs: Seq<AttrV>, name: Seq<u8>, i: int)
    requires
        0 <= i < attrs.len(),
        attrs[i].name == name,
        forall|j: int| 0 <= j < i ==> attrs[j].name != name,
    ensures
        find_attr_spec(attrs, name) == Some(attrs[i]),
    decreases i,
{
    if i > 0 {
        lemma_find_attr_spec(attrs.skip(1), name, i - 1);
    }
}

/// When no attribute bears the name, the search is empty.
pub proof fn lemma_find_attr_spec_none(attrs: Seq<AttrV>, name: Seq<u8>)
    requires
        forall|j: int| 0 <= j < attrs.len() ==> attrs[j].name != name,
    ensures
        find_attr_spec(attrs, name) is None,
    decreases attrs.len(),
{
    if attrs.len() > 0 {
        lemma_find_attr_spec_none(attrs.skip(1), name);
    }
}

/// The index characterization of [`first_group_spec`].
pub proof fn lemma_first_group_spec(gs: Seq<GroupV>, tag: u8, i: int)
    requires
        0 <= i < gs.len(),
        gs[i].tag == tag,
        forall|j: int| 0 <= j < i ==> gs[j].tag != tag,
    ensures
        first_group_spec(gs, tag) == Some(gs[i]),
    decreases i,
{
    if i > 0 {
        lemma_first_group_spec(gs.skip(1), tag, i - 1);
    }
}

/// When no group bears the tag, the search is empty.
pub proof fn lemma_first_group_spec_none(gs: Seq<GroupV>, tag: u8)
    requires
        forall|j: int| 0 <= j < gs.len() ==> gs[j].tag != tag,
    ensures
        first_group_spec(gs, tag) is None,
    decreases gs.len(),
{
    if gs.len() > 0 {
        lemma_first_group_spec_none(gs.skip(1), tag);
    }
}

/// The bytes of the keyword values among `vs`, in order; other value
/// shapes are ignored.
pub open spec fn keyword_strings(vs: Seq<ValueV>) -> Seq<Seq<u8>>
    decreases vs.len(),
{
    if vs.len() == 0 {
        Seq::empty()
    } else {
        (match vs[0] {
            ValueV::Keyword(k) => seq![k],
            _ => Seq::empty(),
        }) + keyword_strings(vs.skip(1))
    }
}

/// Collecting one more value appends its keyword, if it is one.
pub proof fn lemma_keyword_strings_snoc(vs: Seq<ValueV>, i: int)
    requires
        0 <= i < vs.len(),
    ensures
        keyword_strings(vs.take(i + 1)) == keyword_strings(vs.take(i)) + (match vs[i] {
            ValueV::Keyword(k) => seq![k],
            _ => Seq::empty(),
        }),
    decreases i,
{
    if i == 0 {
        assert(vs.take(1)[0] == vs[0]);
        assert(vs.take(1).skip(1) =~= Seq::<ValueV>::empty());
        assert(vs.take(0) =~= Seq::<ValueV>::empty());
        assert(keyword_strings(vs.take(1)) =~= (match vs[0] {
            ValueV::Keyword(k) => seq![k],
            _ => Seq::<Seq<u8>>::empty(),
        }));
    } else {
        lemma_keyword_strings_snoc(vs.skip(1), i - 1);
        assert(vs.take(i + 1)[0] == vs[0]);
        assert(vs.take(i)[0] == vs[0]);
        assert(vs.take(i + 1).skip(1) =~= vs.skip(1).take(i));
        assert(vs.take(i).skip(1) =~= vs.skip(1).take(i - 1));
        assert(vs.skip(1)[i - 1] == vs[i]);
        assert(keyword_strings(vs.take(i + 1)) =~= keyword_strings(vs.take(i)) + (match vs[i] {
            ValueV::Keyword(k) => seq![k],
            _ => Seq::<Seq<u8>>::empty(),
        }));
    }
}

/// What the readiness check reads out of a response: the first
/// printer-attributes group's `printer-state` enum, the
/// `printer-is-accepting-jobs` boolean, and the keyword values of
/// `printer-state-reasons` (absent means none reported).
pub open spec fn spec_printer_status(gs: Seq<GroupV>) -> Result<(i32, bool, Seq<Seq<u8>>), IppError> {
    match first_group_spec(gs, crate::model::DELIMITER_PRINTER_ATTRIBUTES) {
        None => Err(IppError::MissingAttribute),
        Some(g) => match find_attr_spec(g.attributes, spec_printer_state()) {
            None => Err(IppError::MissingAttribute),
            Some(a) => if !(a.values.len() >= 1 && a.values[0] is Enum) {
                Err(IppError::InvalidAttributeType)
            } else {
                match find_attr_spec(g.attributes, spec_printer_is_accepting_jobs()) {
                    None => Err(IppError::MissingAttribute),
                    Some(b) => if !(b.values.len() >= 1 && b.values[0] is Boolean) {
                        Err(IppError::InvalidAttributeType)
                    } else {
                        Ok(
                            (
                                a.values[0]->Enum_0,
                                b.values[0]->Boolean_0,
                                match find_attr_spec(g.attributes, spec_printer_state_reasons()) {
                                    None => Seq::empty(),
                                    Some(rr) => keyword_strings(rr.values),
                                },
                            ),
                        )
                    },
                }
            },
        },
    }
}

/// Reads the readiness triple out of a response, as
/// [`spec_printer_status`] says.
pub fn printer_status(resp: &IppRequestResponse) -> (r: Result<(i32, bool, Vec<Vec<u8>>), IppError>)
    ensures
        match r {
            Ok(t) => spec_printer_status(resp@.groups) == Ok::<_, IppError>(
                (t.0, t.1, byte_views(t.2@)),
            ),
            Err(e) => spec_printer_status(resp@.groups) == Err::<(i32, bool, Seq<Seq<u8>>), _>(e),
        },
{
    let attrs = resp.attributes();
    let gi = match attrs.find_group_from(crate::model::DELIMITER_PRINTER_ATTRIBUTES, 0) {
        None => {
            proof {
                lemma_first_group_spec_none(
                    resp@.groups,
                    crate::model::DELIMITER_PRINTER_ATTRIBUTES,
                );
            }
            return Err(IppError::MissingAttribute);
        },
        Some(i) => {
            proof {
                lemma_first_group_spec(
                    resp@.groups,
                    crate::model::DELIMITER_PRINTER_ATTRIBUTES,
                    i as int,
                );
            }
            i
        },
    };
    let group = attrs.group_at(gi);
    let ghost g = resp@.groups[gi as int];
    let state_name = printer_state();
    let state: i32 = match group.find_attribute(&state_name) {
        None => {
            proof {
                lemma_find_attr_spec_none(g.attributes, spec_printer_state());
            }
            return Err(IppError::MissingAttribute);
        },
        Some(ai) => {
            proof {
                lemma_find_attr_spec(g.attributes, spec_printer_state(), ai as int);
            }
            let a = group.attribute_at(ai);
            if a.values.len() < 1 {
                return Err(IppError::InvalidAttributeType);
            }
            match a.value() {
                crate::value::IppValue::Enum(v) => *v,
                _ => {
                    return Err(IppError::InvalidAttributeType);
                },
            }
        },
    };
    let accepting_name = printer_is_accepting_jobs();
    let accepting: bool = match group.find_attribute(&accepting_name) {
        None => {
            proof {
                lemma_find_attr_spec_none(g.attributes, spec_printer_is_accepting_jobs());
            }
            return Err(IppError::MissingAttribute);
        },
        Some(ai) => {
            proof {
                lemma_find_attr_spec(g.attributes, spec_printer_is_accepting_jobs(), ai as int);
            }
            let a = group.attribute_at(ai);
            if a.values.len() < 1 {
                return Err(IppError::InvalidAttributeType);
            }
            match a.value() {
                crate::value::IppValue::Boolean(v) => *v,
                _ => {
                    return Err(IppError::InvalidAttributeType);
                },
            }
        },
    };
    let reasons_name = printer_state_reasons();
    let mut reasons: Vec<Vec<u8>> = Vec::new();
    match group.find_attribute(&reasons_name) {
        None => {
            proof {
                lemma_find_attr_spec_none(g.attributes, spec_printer_state_reasons());
                assert(byte_views(reasons@) =~= Seq::<Seq<u8>>::empty());
            }
        },
        Some(ai) => {
            proof {
                lemma_find_attr_spec(g.attributes, spec_printer_state_reasons(), ai as int);
            }
            let a = group.attribute_at(ai);
            let ghost vs = a@.values;
            let n: usize = a.values.len();
            let mut k: usize = 0;
            proof {
                assert(byte_views(reasons@) =~= keyword_strings(vs.take(0)));
            }
            while k < n
                invariant
                    k <= n,
                    n == vs.len(),
                    vs == a@.values,
                    a@ == g.attributes[ai as int],
                    ai < g.attributes.len(),
                    byte_views(reasons@) == keyword_strings(vs.take(k as int)),
                decreases n - k,
            {
                let ghost pre = reasons@;
                match &a.values[k] {
                    crate::value::IppValue::Keyword(kw) => {
                        let kw2 = crate::wire::copy_range(kw, 0, kw.len());
                        reasons.push(kw2);
                        proof {
                            assert(kw2@ =~= kw@);
                        }
                    },
                    _ => {},
                }
                proof {
                    lemma_keyword_strings_snoc(vs, k as int);
                    assert(vs[k as int] == a.values@[k as int]@);
                    assert(byte_views(reasons@) =~= keyword_strings(vs.take(k as int + 1)));
                }
                k = k + 1;
            }
            proof {
                assert(vs.take(n as int) =~= vs);
            }
        },
    }
    Ok((state, accepting, reasons))
}

/// Decides readiness from a response: `Ok` exactly when the status
/// triple is present, typed right and ready; a printer that is present
/// but not ready comes back as `PrinterStateError` carrying the triple.
pub fn evaluate_printer_status(resp: &IppRequestResponse) -> (r: Result<(), IppError>)
    ensures
        match r {
            Ok(()) => {
                &&& spec_printer_status(resp@.groups) is Ok
                &&& printer_ready(
                    spec_printer_status(resp@.groups)->Ok_0.0,
                    spec_printer_status(resp@.groups)->Ok_0.1,
                    spec_printer_status(resp@.groups)->Ok_0.2,
                )
            },
            Err(e) => match spec_printer_status(resp@.groups) {
                Err(e2) => e == e2,
                Ok(t) => {
                    &&& !printer_ready(t.0, t.1, t.2)
                    &&& e matches IppError::PrinterStateError { state, accepting, reasons }
                        && state == t.0 && accepting == t.1 && byte_views(reasons@) == t.2
                },
            },
        },
{
    match printer_status(resp) {
        Err(e) => Err(e),
        Ok((state, accepting, reasons)) => {
            if check_printer_ready(state, accepting, &reasons) {
                Ok(())
            } else {
                Err(IppError::PrinterStateError { state, accepting, reasons })
            }
        },
    }
}

} // verus!
