//! Builders for the common IPP operations.  Each builder populates the
//! attributes its operation requires and hands back a fully formed
//! request.

use vstd::prelude::*;

use crate::attribute::{
    add_attr_groups, attr_views, lemma_add_attr_list_absent, value_views, wf_groups, AttrV, GroupV,
    IppAttribute,
};
use crate::model::{
    DelimiterTag, IppHeader, IppVersion, Operation, DELIMITER_JOB_ATTRIBUTES,
    DELIMITER_OPERATION_ATTRIBUTES,
};
use crate::names::{
    job_id, job_name, last_document, requested_attributes, requesting_user_name, spec_job_id,
    spec_job_name, spec_last_document, spec_requested_attributes, spec_requesting_user_name,
};
use crate::request::{
    charset_attr, has_standard_prelude, language_attr, uri_attr, IppRequestResponse,
};
use crate::value::{IppValue, ValueV};

verus! {

/// The `job-name` attribute.
pub open spec fn job_name_attr(j: Seq<u8>) -> AttrV {
    AttrV { name: spec_job_name(), values: seq![ValueV::NameWithoutLanguage(j)] }
}

/// The `requesting-user-name` attribute.
pub open spec fn user_name_attr(u: Seq<u8>) -> AttrV {
    AttrV { name: spec_requesting_user_name(), values: seq![ValueV::NameWithoutLanguage(u)] }
}

/// The `job-id` attribute.
pub open spec fn job_id_attr(id: i32) -> AttrV {
    AttrV { name: spec_job_id(), values: seq![ValueV::Integer(id)] }
}

/// The `last-document` attribute of Send-Document.
pub open spec fn last_document_attr(b: bool) -> AttrV {
    AttrV { name: spec_last_document(), values: seq![ValueV::Boolean(b)] }
}

/// The multi-valued `requested-attributes` attribute: one keyword per
/// requested name.
pub open spec fn requested_attrs_attr(names: Seq<Seq<u8>>) -> AttrV {
    AttrV {
        name: spec_requested_attributes(),
        values: names.map_values(|n: Seq<u8>| ValueV::Keyword(n)),
    }
}

/// Extra job attributes merged into the job-attributes group, first to
/// last.
pub open spec fn apply_extras(gs: Seq<GroupV>, extras: Seq<AttrV>) -> Seq<GroupV>
    decreases extras.len(),
{
    if extras.len() == 0 {
        gs
    } else {
        apply_extras(add_attr_groups(gs, DELIMITER_JOB_ATTRIBUTES, extras[0]), extras.skip(1))
    }
}

/// Merging one more extra attribute applies one more insertion.
pub proof fn lemma_apply_extras_snoc(gs: Seq<GroupV>, s: Seq<AttrV>, i: int)
    requires
        0 <= i < s.len(),
    ensures
        apply_extras(gs, s.take(i + 1)) == add_attr_groups(
            apply_extras(gs, s.take(i)),
            DELIMITER_JOB_ATTRIBUTES,
            s[i],
        ),
    decreases i,
{
    if i == 0 {
        assert(s.take(1)[0] == s[0]);
        assert(s.take(1).skip(1) =~= Seq::<AttrV>::empty());
        assert(s.take(0) =~= Seq::<AttrV>::empty());
        assert(apply_extras(gs, s.take(1)) == apply_extras(
            add_attr_groups(gs, DELIMITER_JOB_ATTRIBUTES, s[0]),
            Seq::<AttrV>::empty(),
        ));
        assert(apply_extras(gs, s.take(0)) == gs);
    } else {
        let gs2 = add_attr_groups(gs, DELIMITER_JOB_ATTRIBUTES, s[0]);
        lemma_apply_extras_snoc(gs2, s.skip(1), i - 1);
        assert(s.take(i + 1)[0] == s[0]);
        assert(s.take(i)[0] == s[0]);
        assert(s.take(i + 1).skip(1) =~= s.skip(1).take(i));
        assert(s.take(i).skip(1) =~= s.skip(1).take(i - 1));
        assert(s.skip(1)[i - 1] == s[i]);
        assert(apply_extras(gs, s.take(i + 1)) == apply_extras(gs2, s.skip(1).take(i)));
        assert(apply_extras(gs, s.take(i)) == apply_extras(gs2, s.skip(1).take(i - 1)));
    }
}

/// Inserting under another delimiter leaves the first group alone.
pub proof fn lemma_add_preserves_group0(gs: Seq<GroupV>, tag: u8, a: AttrV)
    requires
        gs.len() >= 1,
        gs[0].tag != tag,
    ensures
        add_attr_groups(gs, tag, a).len() >= 1,
        add_attr_groups(gs, tag, a)[0] == gs[0],
{
}

/// Appending an attribute whose name is fresh extends the first group
/// in place.
pub proof fn lemma_append_to_group0(gs: Seq<GroupV>, tag: u8, a: AttrV)
    requires
        gs.len() >= 1,
        gs[0].tag == tag,
        forall|j: int| 0 <= j < gs[0].attributes.len() ==> gs[0].attributes[j].name != a.name,
    ensures
        add_attr_groups(gs, tag, a) == gs.update(
            0,
            GroupV { tag, attributes: gs[0].attributes.push(a) },
        ),
{
    lemma_add_attr_list_absent(gs[0].attributes, a);
    assert(seq![GroupV { tag, attributes: gs[0].attributes.push(a) }] + gs.skip(1) =~= gs.update(
        0,
        GroupV { tag, attributes: gs[0].attributes.push(a) },
    ));
}

/// The operation-attributes group every Print-Job request carries:
/// charset, language, the rewritten URI, then the optional job name
/// and requesting user name.
pub open spec fn print_job_groups(
    uri: Seq<u8>,
    jn: Option<Seq<u8>>,
    un: Option<Seq<u8>>,
) -> Seq<GroupV> {
    seq![
        GroupV {
            tag: DELIMITER_OPERATION_ATTRIBUTES,
            attributes: seq![charset_attr(), language_attr(), uri_attr(uri)] + (match jn {
                Some(j) => seq![job_name_attr(j)],
                None => Seq::empty(),
            }) + (match un {
                Some(u) => seq![user_name_attr(u)],
                None => Seq::empty(),
            }),
        },
    ]
}

/// Builds a Print-Job request: operation 0x0002, the document bytes as
/// payload, optional job name, user name and extra job attributes.
pub struct PrintJobBuilder {
    pub uri: Vec<u8>,
    pub payload: Vec<u8>,
    pub job_name: Option<Vec<u8>>,
    pub user_name: Option<Vec<u8>>,
    pub extras: Vec<IppAttribute>,
}

impl PrintJobBuilder {
    /// Sets the `job-name` attribute.
    pub fn job_title(self, title: Vec<u8>) -> (r: PrintJobBuilder)
        ensures
            r.uri == self.uri,
            r.payload == self.payload,
            r.job_name == Some(title),
            r.user_name == self.user_name,
            r.extras == self.extras,
    {
        PrintJobBuilder { job_name: Some(title), ..self }
    }

    /// Sets the `requesting-user-name` attribute.
    pub fn user_name(self, user: Vec<u8>) -> (r: PrintJobBuilder)
        ensures
            r.uri == self.uri,
            r.payload == self.payload,
            r.job_name == self.job_name,
            r.user_name == Some(user),
            r.extras == self.extras,
    {
        PrintJobBuilder { user_name: Some(user), ..self }
    }

    /// Adds an extra attribute for the job-attributes group, merged
    /// verbatim in the order given.
    pub fn attribute(self, attr: IppAttribute) -> (r: PrintJobBuilder)
        ensures
            r.uri == self.uri,
            r.payload == self.payload,
            r.job_name == self.job_name,
            r.user_name == self.user_name,
            r.extras@ == self.extras@.push(attr),
    {
        let mut b = self;
        b.extras.push(attr);
        b
    }

    /// The finished request.
    pub fn build(self) -> (r: IppRequestResponse)
        requires
            self.uri@.len() <= 0xFFFF,
            match self.job_name {
                Some(j) => j@.len() <= 0xFFFF,
                None => true,
            },
            match self.user_name {
                Some(u) => u@.len() <= 0xFFFF,
                None => true,
            },
        ensures
            r@.header.version_major == 1 && r@.header.version_minor == 1,
            r@.header.operation_or_status == Operation::PrintJob.spec_code(),
            r@.header.request_id == 1,
            r@.groups == apply_extras(
                print_job_groups(
                    self.uri@,
                    match self.job_name {
                        Some(j) => Some(j@),
                        None => None,
                    },
                    match self.user_name {
                        Some(u) => Some(u@),
                        None => None,
                    },
                ),
                attr_views(self.extras@),
            ),
            r@.payload == self.payload@,
            has_standard_prelude(r@.groups),
            r@.groups[0].attributes[2] == uri_attr(self.uri@),
            self.extras@.len() == 0 ==> wf_groups(r@.groups),
    {
        let ghost jn: Option<Seq<u8>> = match &self.job_name {
            Some(j) => Some(j@),
            None => None,
        };
        let ghost un: Option<Seq<u8>> = match &self.user_name {
            Some(u) => Some(u@),
            None => None,
        };
        let mut req = IppRequestResponse::new(Operation::PrintJob, &self.uri);
        let ghost base0 = req@.groups;
        if let Some(j) = self.job_name {
            let a = IppAttribute::new(job_name(), IppValue::NameWithoutLanguage(j));
            proof {
                assert(a@ =~~= job_name_attr(j@));
                lemma_append_to_group0(req@.groups, DELIMITER_OPERATION_ATTRIBUTES, a@);
            }
            req.set_attribute(DelimiterTag::OperationAttributes, a);
        }
        if let Some(u) = self.user_name {
            let a = IppAttribute::new(requesting_user_name(), IppValue::NameWithoutLanguage(u));
            proof {
                assert(a@ =~~= user_name_attr(u@));
                lemma_append_to_group0(req@.groups, DELIMITER_OPERATION_ATTRIBUTES, a@);
            }
            req.set_attribute(DelimiterTag::OperationAttributes, a);
        }
        proof {
            assert(req@.groups =~~= print_job_groups(self.uri@, jn, un));
            assert(crate::attribute::wf_group(req@.groups[0])) by {
                if jn is Some {
                    assert(crate::attribute::wf_attr(job_name_attr(jn->Some_0)));
                }
                if un is Some {
                    assert(crate::attribute::wf_attr(user_name_attr(un->Some_0)));
                }
            }
            assert(wf_groups(req@.groups));
        }
        let ghost base = req@.groups;
        let ghost extra_views = attr_views(self.extras@);
        let mut extras = self.extras;
        let mut k: usize = 0;
        let n: usize = extras.len();
        proof {
            assert(extra_views.take(0) =~= Seq::<AttrV>::empty());
            assert(attr_views(extras@) =~= extra_views.skip(0));
        }
        while k < n
            invariant
                k <= n,
                n == extra_views.len(),
                extras@.len() == n - k,
                attr_views(extras@) == extra_views.skip(k as int),
                req@.groups == apply_extras(base, extra_views.take(k as int)),
                req@.groups.len() >= 1 && req@.groups[0] == base[0],
                base.len() == 1 && base[0].tag == DELIMITER_OPERATION_ATTRIBUTES,
                req@.header == (IppHeader {
                    version_major: 1,
                    version_minor: 1,
                    operation_or_status: Operation::PrintJob.spec_code(),
                    request_id: 1,
                }),
                req@.payload == Seq::<u8>::empty(),
            decreases n - k,
        {
            let ghost pre = extras@;
            let a = extras.remove(0);
            proof {
                assert(a@ == extra_views.skip(k as int)[0]);
                assert(a@ == extra_views[k as int]);
                lemma_add_preserves_group0(req@.groups, DELIMITER_JOB_ATTRIBUTES, a@);
                lemma_apply_extras_snoc(base, extra_views, k as int);
            }
            req.set_attribute(DelimiterTag::JobAttributes, a);
            k = k + 1;
            proof {
                assert(extras@ =~= pre.skip(1));
                assert(attr_views(extras@) =~= attr_views(pre).skip(1));
                assert(attr_views(pre).skip(1) =~= extra_views.skip(k as int));
            }
        }
        proof {
            assert(extra_views.take(n as int) =~= extra_views);
        }
        req.set_payload(self.payload);
        req
    }
}

/// The byte sequences of a list of byte vectors.
pub open spec fn byte_views(s: Seq<Vec<u8>>) -> Seq<Seq<u8>> {
    s.map_values(|v: Vec<u8>| v@)
}

/// Builds a Get-Printer-Attributes request: operation 0x000B with an
/// optional `requested-attributes` keyword list.
pub struct GetPrinterAttributesBuilder {
    pub uri: Vec<u8>,
    pub requested: Vec<Vec<u8>>,
}

impl GetPrinterAttributesBuilder {
    /// Appends attribute names to request; an empty list means all.
    pub fn attributes(self, names: Vec<Vec<u8>>) -> (r: GetPrinterAttributesBuilder)
        ensures
            r.uri == self.uri,
            r.requested@ == self.requested@ + names@,
    {
        let mut b = self;
        let mut names = names;
        b.requested.append(&mut names);
        b
    }

    /// The finished request.
    pub fn build(self) -> (r: IppRequestResponse)
        requires
            self.uri@.len() <= 0xFFFF,
            forall|i: int| 0 <= i < self.requested@.len() ==> self.requested@[i]@.len() <= 0xFFFF,
        ensures
            r@.header.version_major == 1 && r@.header.version_minor == 1,
            r@.header.operation_or_status == Operation::GetPrinterAttributes.spec_code(),
            r@.header.request_id == 1,
            r@.groups == seq![
                GroupV {
                    tag: DELIMITER_OPERATION_ATTRIBUTES,
                    attributes: seq![charset_attr(), language_attr(), uri_attr(self.uri@)] + (
                    if self.requested@.len() > 0 {
                        seq![requested_attrs_attr(byte_views(self.requested@))]
                    } else {
                        Seq::empty()
                    }),
                },
            ],
            r@.payload == Seq::<u8>::empty(),
            has_standard_prelude(r@.groups),
            wf_groups(r@.groups),
    {
        let ghost req_views = byte_views(self.requested@);
        let mut req = IppRequestResponse::new(Operation::GetPrinterAttributes, &self.uri);
        if self.requested.len() > 0 {
            let mut values: Vec<IppValue> = Vec::new();
            let mut names = self.requested;
            let n: usize = names.len();
            let mut k: usize = 0;
            proof {
                assert(byte_views(names@) =~= req_views.skip(0));
                assert(value_views(values@) =~= req_views.take(0).map_values(
                    |x: Seq<u8>| ValueV::Keyword(x),
                ));
            }
            while k < n
                invariant
                    k <= n,
                    n == req_views.len(),
                    names@.len() == n - k,
                    byte_views(names@) == req_views.skip(k as int),
                    value_views(values@) == req_views.take(k as int).map_values(
                        |x: Seq<u8>| ValueV::Keyword(x),
                    ),
                decreases n - k,
            {
                let ghost pre = names@;
                let ghost values_pre = values@;
                let v = names.remove(0);
                proof {
                    assert(byte_views(pre)[0] == pre[0]@);
                    assert(v@ == req_views.skip(k as int)[0]);
                    assert(v@ == req_views[k as int]);
                }
                values.push(IppValue::Keyword(v));
                k = k + 1;
                proof {
                    assert(names@ =~= pre.skip(1));
                    assert(byte_views(names@) =~= byte_views(pre).skip(1));
                    assert(byte_views(pre).skip(1) =~= req_views.skip(k as int));
                    assert(value_views(values@) =~= value_views(values_pre).push(
                        ValueV::Keyword(req_views[k - 1]),
                    ));
                    assert(value_views(values@) =~= req_views.take(k as int).map_values(
                        |x: Seq<u8>| ValueV::Keyword(x),
                    ));
                }
            }
            let a = crate::attribute::IppAttribute::with_values(requested_attributes(), values);
            proof {
                assert(req_views.take(n as int) =~= req_views);
                assert(a@ =~~= requested_attrs_attr(req_views));
                lemma_append_to_group0(req@.groups, DELIMITER_OPERATION_ATTRIBUTES, a@);
            }
            req.set_attribute(DelimiterTag::OperationAttributes, a);
            proof {
                assert(req@.groups =~~= seq![
                    GroupV {
                        tag: DELIMITER_OPERATION_ATTRIBUTES,
                        attributes: seq![
                            charset_attr(),
                            language_attr(),
                            uri_attr(self.uri@),
                            requested_attrs_attr(req_views),
                        ],
                    },
                ]);
                assert(crate::attribute::wf_attr(requested_attrs_attr(req_views))) by {
                    let vs = requested_attrs_attr(req_views).values;
                    assert(forall|i: int|
                        0 <= i < vs.len() ==> crate::value::wf_value(#[trigger] vs[i]));
                }
                assert(crate::attribute::wf_group(req@.groups[0]));
                assert(wf_groups(req@.groups));
                assert(req@.groups =~~= seq![
                    GroupV {
                        tag: DELIMITER_OPERATION_ATTRIBUTES,
                        attributes: seq![charset_attr(), language_attr(), uri_attr(self.uri@)]
                            + seq![requested_attrs_attr(byte_views(self.requested@))],
                    },
                ]);
            }
        } else {
            proof {
                assert(seq![charset_attr(), language_attr(), uri_attr(self.uri@)] + Seq::<
                    AttrV,
                >::empty() =~= seq![charset_attr(), language_attr(), uri_attr(self.uri@)]);
            }
        }
        req
    }
}

/// Entry points for the operation builders.
pub struct IppOperationBuilder;

impl IppOperationBuilder {
    /// A Print-Job builder for `uri` that will carry `payload` as the
    /// document.
    pub fn print_job(uri: Vec<u8>, payload: Vec<u8>) -> (r: PrintJobBuilder)
        ensures
            r.uri == uri,
            r.payload == payload,
            r.job_name is None,
            r.user_name is None,
            r.extras@ == Seq::<IppAttribute>::empty(),
    {
        let r = PrintJobBuilder { uri, payload, job_name: None, user_name: None, extras: Vec::new() };
        proof {
            assert(r.extras@ =~= Seq::<IppAttribute>::empty());
        }
        r
    }

    /// A Get-Printer-Attributes builder for `uri`.
    pub fn get_printer_attributes(uri: Vec<u8>) -> (r: GetPrinterAttributesBuilder)
        ensures
            r.uri == uri,
            r.requested@ == Seq::<Vec<u8>>::empty(),
    {
        let r = GetPrinterAttributesBuilder { uri, requested: Vec::new() };
        proof {
            assert(r.requested@ =~= Seq::<Vec<u8>>::empty());
        }
        r
    }

    /// A Validate-Job request: operation 0x0004.
    pub fn validate_job(uri: &Vec<u8>) -> (r: IppRequestResponse)
        requires
            uri@.len() <= 0xFFFF,
        ensures
            r@.header.operation_or_status == Operation::ValidateJob.spec_code(),
            r@.groups == seq![
                GroupV {
                    tag: DELIMITER_OPERATION_ATTRIBUTES,
                    attributes: seq![charset_attr(), language_attr(), uri_attr(uri@)],
                },
            ],
            has_standard_prelude(r@.groups),
            wf_groups(r@.groups),
            r@.payload == Seq::<u8>::empty(),
    {
        IppRequestResponse::new(Operation::ValidateJob, uri)
    }

    /// A Create-Job request: operation 0x0005.
    pub fn create_job(uri: &Vec<u8>) -> (r: IppRequestResponse)
        requires
            uri@.len() <= 0xFFFF,
        ensures
            r@.header.operation_or_status == Operation::CreateJob.spec_code(),
            r@.groups == seq![
                GroupV {
                    tag: DELIMITER_OPERATION_ATTRIBUTES,
                    attributes: seq![charset_attr(), language_attr(), uri_attr(uri@)],
                },
            ],
            has_standard_prelude(r@.groups),
            wf_groups(r@.groups),
            r@.payload == Seq::<u8>::empty(),
    {
        IppRequestResponse::new(Operation::CreateJob, uri)
    }

    /// A Get-Jobs request: operation 0x000A.
    pub fn get_jobs(uri: &Vec<u8>) -> (r: IppRequestResponse)
        requires
            uri@.len() <= 0xFFFF,
        ensures
            r@.header.operation_or_status == Operation::GetJobs.spec_code(),
            r@.groups == seq![
                GroupV {
                    tag: DELIMITER_OPERATION_ATTRIBUTES,
                    attributes: seq![charset_attr(), language_attr(), uri_attr(uri@)],
                },
            ],
            has_standard_prelude(r@.groups),
            wf_groups(r@.groups),
            r@.payload == Seq::<u8>::empty(),
    {
        IppRequestResponse::new(Operation::GetJobs, uri)
    }

    /// A Cancel-Job request: operation 0x0008 with the job id.
    pub fn cancel_job(uri: &Vec<u8>, job: i32) -> (r: IppRequestResponse)
        requires
            uri@.len() <= 0xFFFF,
        ensures
            r@.header.operation_or_status == Operation::CancelJob.spec_code(),
            r@.groups == seq![
                GroupV {
                    tag: DELIMITER_OPERATION_ATTRIBUTES,
                    attributes: seq![
                        charset_attr(),
                        language_attr(),
                        uri_attr(uri@),
                        job_id_attr(job),
                    ],
                },
            ],
            has_standard_prelude(r@.groups),
            wf_groups(r@.groups),
            r@.payload == Seq::<u8>::empty(),
    {
        with_job_id(IppRequestResponse::new(Operation::CancelJob, uri), Ghost(uri@), job)
    }

    /// A Get-Job-Attributes request: operation 0x0009 with the job id.
    pub fn get_job_attributes(uri: &Vec<u8>, job: i32) -> (r: IppRequestResponse)
        requires
            uri@.len() <= 0xFFFF,
        ensures
            r@.header.operation_or_status == Operation::GetJobAttributes.spec_code(),
            r@.groups == seq![
                GroupV {
                    tag: DELIMITER_OPERATION_ATTRIBUTES,
                    attributes: seq![
                        charset_attr(),
                        language_attr(),
                        uri_attr(uri@),
                        job_id_attr(job),
                    ],
                },
            ],
            has_standard_prelude(r@.groups),
            wf_groups(r@.groups),
            r@.payload == Seq::<u8>::empty(),
    {
        with_job_id(IppRequestResponse::new(Operation::GetJobAttributes, uri), Ghost(uri@), job)
    }

    /// A Send-Document request: operation 0x0006 with the job id, the
    /// `last-document` flag and the document bytes as payload.
    pub fn send_document(uri: &Vec<u8>, job: i32, payload: Vec<u8>, last: bool) -> (r:
        IppRequestResponse)
        requires
            uri@.len() <= 0xFFFF,
        ensures
            r@.header.operation_or_status == Operation::SendDocument.spec_code(),
            r@.groups == seq![
                GroupV {
                    tag: DELIMITER_OPERATION_ATTRIBUTES,
                    attributes: seq![
                        charset_attr(),
                        language_attr(),
                        uri_attr(uri@),
                        job_id_attr(job),
                        last_document_attr(last),
                    ],
                },
            ],
            has_standard_prelude(r@.groups),
            wf_groups(r@.groups),
            r@.payload == payload@,
    {
        let mut req = with_job_id(
            IppRequestResponse::new(Operation::SendDocument, uri),
            Ghost(uri@),
            job,
        );
        let a = crate::attribute::IppAttribute::new(last_document(), IppValue::Boolean(last));
        proof {
            assert(a@ =~~= last_document_attr(last));
            lemma_append_to_group0(req@.groups, DELIMITER_OPERATION_ATTRIBUTES, a@);
        }
        req.set_attribute(DelimiterTag::OperationAttributes, a);
        proof {
            assert(req@.groups =~~= seq![
                GroupV {
                    tag: DELIMITER_OPERATION_ATTRIBUTES,
                    attributes: seq![
                        charset_attr(),
                        language_attr(),
                        uri_attr(uri@),
                        job_id_attr(job),
                        last_document_attr(last),
                    ],
                },
            ]);
            assert(crate::attribute::wf_group(req@.groups[0]));
        }
        req.set_payload(payload);
        req
    }

    /// The CUPS extension operations.
    pub fn cups() -> CupsBuilder {
        CupsBuilder {  }
    }
}

/// Appends the `job-id` attribute to a freshly built request.
fn with_job_id(req: IppRequestResponse, Ghost(uri): Ghost<Seq<u8>>, job: i32) -> (r:
    IppRequestResponse)
    requires
        req@.groups == seq![
            GroupV {
                tag: DELIMITER_OPERATION_ATTRIBUTES,
                attributes: seq![charset_attr(), language_attr(), uri_attr(uri)],
            },
        ],
        wf_groups(req@.groups),
    ensures
        r@.header == req@.header,
        r@.payload == req@.payload,
        r@.groups == seq![
            GroupV {
                tag: DELIMITER_OPERATION_ATTRIBUTES,
                attributes: seq![charset_attr(), language_attr(), uri_attr(uri), job_id_attr(job)],
            },
        ],
        wf_groups(r@.groups),
        has_standard_prelude(r@.groups),
{
    let mut req = req;
    let a = crate::attribute::IppAttribute::new(job_id(), IppValue::Integer(job));
    proof {
        assert(a@ =~~= job_id_attr(job));
        lemma_append_to_group0(req@.groups, DELIMITER_OPERATION_ATTRIBUTES, a@);
    }
    req.set_attribute(DelimiterTag::OperationAttributes, a);
    proof {
        assert(req@.groups =~~= seq![
            GroupV {
                tag: DELIMITER_OPERATION_ATTRIBUTES,
                attributes: seq![charset_attr(), language_attr(), uri_attr(uri), job_id_attr(job)],
            },
        ]);
        assert(crate::attribute::wf_group(req@.groups[0]));
    }
    req
}

/// Builds the CUPS extension requests, which need no printer URI: the
/// operation attributes hold only charset and language.
pub struct CupsBuilder {}

impl CupsBuilder {
    /// A CUPS-Get-Printers request: operation 0x4002.
    pub fn get_printers(&self) -> (r: IppRequestResponse)
        ensures
            r@.header.operation_or_status == Operation::CupsGetPrinters.spec_code(),
            r@.header.request_id == 1,
            r@.groups == seq![
                GroupV {
                    tag: DELIMITER_OPERATION_ATTRIBUTES,
                    attributes: seq![charset_attr(), language_attr()],
                },
            ],
            has_standard_prelude(r@.groups),
            wf_groups(r@.groups),
            r@.payload == Seq::<u8>::empty(),
    {
        IppRequestResponse::new_response(Operation::CupsGetPrinters.code(), 1)
    }

    /// A CUPS-Get-Default request: operation 0x4001.
    pub fn get_default(&self) -> (r: IppRequestResponse)
        ensures
            r@.header.operation_or_status == Operation::CupsGetDefault.spec_code(),
            r@.header.request_id == 1,
            r@.groups == seq![
                GroupV {
                    tag: DELIMITER_OPERATION_ATTRIBUTES,
                    attributes: seq![charset_attr(), language_attr()],
                },
            ],
            has_standard_prelude(r@.groups),
            wf_groups(r@.groups),
            r@.payload == Seq::<u8>::empty(),
    {
        IppRequestResponse::new_response(Operation::CupsGetDefault.code(), 1)
    }

    /// A CUPS-Get-Classes request: operation 0x4005.
    pub fn get_classes(&self) -> (r: IppRequestResponse)
        ensures
            r@.header.operation_or_status == Operation::CupsGetClasses.spec_code(),
            r@.header.request_id == 1,
            r@.groups == seq![
                GroupV {
                    tag: DELIMITER_OPERATION_ATTRIBUTES,
                    attributes: seq![charset_attr(), language_attr()],
                },
            ],
            has_standard_prelude(r@.groups),
            wf_groups(r@.groups),
            r@.payload == Seq::<u8>::empty(),
    {
        IppRequestResponse::new_response(Operation::CupsGetClasses.code(), 1)
    }
}

} // verus!
