//! The attribute names and keyword values that the request builders and
//! the readiness check use, as byte strings of the wire.

use vstd::prelude::*;

verus! {

/// The bytes of `"attributes-charset"`.
pub open spec fn spec_attributes_charset() -> Seq<u8> {
    seq![97u8, 116u8, 116u8, 114u8, 105u8, 98u8, 117u8, 116u8, 101u8, 115u8, 45u8, 99u8, 104u8, 97u8, 114u8, 115u8, 101u8, 116u8]
}

/// The bytes of `"attributes-charset"`.
pub fn attributes_charset() -> (r: Vec<u8>)
    ensures
        r@ == spec_attributes_charset(),
{
    let v: Vec<u8> = vec![97u8, 116u8, 116u8, 114u8, 105u8, 98u8, 117u8, 116u8, 101u8, 115u8, 45u8, 99u8, 104u8, 97u8, 114u8, 115u8, 101u8, 116u8];
    proof {
        assert(v@ =~= spec_attributes_charset());
    }
    v
}

/// The bytes of `"attributes-natural-language"`.
pub open spec fn spec_attributes_natural_language() -> Seq<u8> {
    seq![97u8, 116u8, 116u8, 114u8, 105u8, 98u8, 117u8, 116u8, 101u8, 115u8, 45u8, 110u8, 97u8, 116u8, 117u8, 114u8, 97u8, 108u8, 45u8, 108u8, 97u8, 110u8, 103u8, 117u8, 97u8, 103u8, 101u8]
}

/// The bytes of `"attributes-natural-language"`.
pub fn attributes_natural_language() -> (r: Vec<u8>)
    ensures
        r@ == spec_attributes_natural_language(),
{
    let v: Vec<u8> = vec![97u8, 116u8, 116u8, 114u8, 105u8, 98u8, 117u8, 116u8, 101u8, 115u8, 45u8, 110u8, 97u8, 116u8, 117u8, 114u8, 97u8, 108u8, 45u8, 108u8, 97u8, 110u8, 103u8, 117u8, 97u8, 103u8, 101u8];
    proof {
        assert(v@ =~= spec_attributes_natural_language());
    }
    v
}

/// The bytes of `"printer-uri"`.
pub open spec fn spec_printer_uri() -> Seq<u8> {
    seq![112u8, 114u8, 105u8, 110u8, 116u8, 101u8, 114u8, 45u8, 117u8, 114u8, 105u8]
}

/// The bytes of `"printer-uri"`.
pub fn printer_uri() -> (r: Vec<u8>)
    ensures
        r@ == spec_printer_uri(),
{
    let v: Vec<u8> = vec![112u8, 114u8, 105u8, 110u8, 116u8, 101u8, 114u8, 45u8, 117u8, 114u8, 105u8];
    proof {
        assert(v@ =~= spec_printer_uri());
    }
    v
}

/// The bytes of `"requested-attributes"`.
pub open spec fn spec_requested_attributes() -> Seq<u8> {
    seq![114u8, 101u8, 113u8, 117u8, 101u8, 115u8, 116u8, 101u8, 100u8, 45u8, 97u8, 116u8, 116u8, 114u8, 105u8, 98u8, 117u8, 116u8, 101u8, 115u8]
}

/// The bytes of `"requested-attributes"`.
pub fn requested_attributes() -> (r: Vec<u8>)
    ensures
        r@ == spec_requested_attributes(),
{
    let v: Vec<u8> = vec![114u8, 101u8, 113u8, 117u8, 101u8, 115u8, 116u8, 101u8, 100u8, 45u8, 97u8, 116u8, 116u8, 114u8, 105u8, 98u8, 117u8, 116u8, 101u8, 115u8];
    proof {
        assert(v@ =~= spec_requested_attributes());
    }
    v
}

/// The bytes of `"job-name"`.
pub open spec fn spec_job_name() -> Seq<u8> {
    seq![106u8, 111u8, 98u8, 45u8, 110u8, 97u8, 109u8, 101u8]
}

/// The bytes of `"job-name"`.
pub fn job_name() -> (r: Vec<u8>)
    ensures
        r@ == spec_job_name(),
{
    let v: Vec<u8> = vec![106u8, 111u8, 98u8, 45u8, 110u8, 97u8, 109u8, 101u8];
    proof {
        assert(v@ =~= spec_job_name());
    }
    v
}

/// The bytes of `"requesting-user-name"`.
pub open spec fn spec_requesting_user_name() -> Seq<u8> {
    seq![114u8, 101u8, 113u8, 117u8, 101u8, 115u8, 116u8, 105u8, 110u8, 103u8, 45u8, 117u8, 115u8, 101u8, 114u8, 45u8, 110u8, 97u8, 109u8, 101u8]
}

/// The bytes of `"requesting-user-name"`.
pub fn requesting_user_name() -> (r: Vec<u8>)
    ensures
        r@ == spec_requesting_user_name(),
{
    let v: Vec<u8> = vec![114u8, 101u8, 113u8, 117u8, 101u8, 115u8, 116u8, 105u8, 110u8, 103u8, 45u8, 117u8, 115u8, 101u8, 114u8, 45u8, 110u8, 97u8, 109u8, 101u8];
    proof {
        assert(v@ =~= spec_requesting_user_name());
    }
    v
}

/// The bytes of `"job-id"`.
pub open spec fn spec_job_id() -> Seq<u8> {
    seq![106u8, 111u8, 98u8, 45u8, 105u8, 100u8]
}

/// The bytes of `"job-id"`.
pub fn job_id() -> (r: Vec<u8>)
    ensures
        r@ == spec_job_id(),
{
    let v: Vec<u8> = vec![106u8, 111u8, 98u8, 45u8, 105u8, 100u8];
    proof {
        assert(v@ =~= spec_job_id());
    }
    v
}

/// The bytes of `"job-state"`.
pub open spec fn spec_job_state() -> Seq<u8> {
    seq![106u8, 111u8, 98u8, 45u8, 115u8, 116u8, 97u8, 116u8, 101u8]
}

/// The bytes of `"job-state"`.
pub fn job_state() -> (r: Vec<u8>)
    ensures
        r@ == spec_job_state(),
{
    let v: Vec<u8> = vec![106u8, 111u8, 98u8, 45u8, 115u8, 116u8, 97u8, 116u8, 101u8];
    proof {
        assert(v@ =~= spec_job_state());
    }
    v
}

/// The bytes of `"last-document"`.
pub open spec fn spec_last_document() -> Seq<u8> {
    seq![108u8, 97u8, 115u8, 116u8, 45u8, 100u8, 111u8, 99u8, 117u8, 109u8, 101u8, 110u8, 116u8]
}

/// The bytes of `"last-document"`.
pub fn last_document() -> (r: Vec<u8>)
    ensures
        r@ == spec_last_document(),
{
    let v: Vec<u8> = vec![108u8, 97u8, 115u8, 116u8, 45u8, 100u8, 111u8, 99u8, 117u8, 109u8, 101u8, 110u8, 116u8];
    proof {
        assert(v@ =~= spec_last_document());
    }
    v
}

/// The bytes of `"printer-name"`.
pub open spec fn spec_printer_name() -> Seq<u8> {
    seq![112u8, 114u8, 105u8, 110u8, 116u8, 101u8, 114u8, 45u8, 110u8, 97u8, 109u8, 101u8]
}

/// The bytes of `"printer-name"`.
pub fn printer_name() -> (r: Vec<u8>)
    ensures
        r@ == spec_printer_name(),
{
    let v: Vec<u8> = vec![112u8, 114u8, 105u8, 110u8, 116u8, 101u8, 114u8, 45u8, 110u8, 97u8, 109u8, 101u8];
    proof {
        assert(v@ =~= spec_printer_name());
    }
    v
}

/// The bytes of `"device-uri"`.
pub open spec fn spec_device_uri() -> Seq<u8> {
    seq![100u8, 101u8, 118u8, 105u8, 99u8, 101u8, 45u8, 117u8, 114u8, 105u8]
}

/// The bytes of `"device-uri"`.
pub fn device_uri() -> (r: Vec<u8>)
    ensures
        r@ == spec_device_uri(),
{
    let v: Vec<u8> = vec![100u8, 101u8, 118u8, 105u8, 99u8, 101u8, 45u8, 117u8, 114u8, 105u8];
    proof {
        assert(v@ =~= spec_device_uri());
    }
    v
}

/// The bytes of `"printer-state"`.
pub open spec fn spec_printer_state() -> Seq<u8> {
    seq![112u8, 114u8, 105u8, 110u8, 116u8, 101u8, 114u8, 45u8, 115u8, 116u8, 97u8, 116u8, 101u8]
}

/// The bytes of `"printer-state"`.
pub fn printer_state() -> (r: Vec<u8>)
    ensures
        r@ == spec_printer_state(),
{
    let v: Vec<u8> = vec![112u8, 114u8, 105u8, 110u8, 116u8, 101u8, 114u8, 45u8, 115u8, 116u8, 97u8, 116u8, 101u8];
    proof {
        assert(v@ =~= spec_printer_state());
    }
    v
}

/// The bytes of `"printer-state-reasons"`.
pub open spec fn spec_printer_state_reasons() -> Seq<u8> {
    seq![112u8, 114u8, 105u8, 110u8, 116u8, 101u8, 114u8, 45u8, 115u8, 116u8, 97u8, 116u8, 101u8, 45u8, 114u8, 101u8, 97u8, 115u8, 111u8, 110u8, 115u8]
}

/// The bytes of `"printer-state-reasons"`.
pub fn printer_state_reasons() -> (r: Vec<u8>)
    ensures
        r@ == spec_printer_state_reasons(),
{
    let v: Vec<u8> = vec![112u8, 114u8, 105u8, 110u8, 116u8, 101u8, 114u8, 45u8, 115u8, 116u8, 97u8, 116u8, 101u8, 45u8, 114u8, 101u8, 97u8, 115u8, 111u8, 110u8, 115u8];
    proof {
        assert(v@ =~= spec_printer_state_reasons());
    }
    v
}

/// The bytes of `"printer-is-accepting-jobs"`.
pub open spec fn spec_printer_is_accepting_jobs() -> Seq<u8> {
    seq![112u8, 114u8, 105u8, 110u8, 116u8, 101u8, 114u8, 45u8, 105u8, 115u8, 45u8, 97u8, 99u8, 99u8, 101u8, 112u8, 116u8, 105u8, 110u8, 103u8, 45u8, 106u8, 111u8, 98u8, 115u8]
}

/// The bytes of `"printer-is-accepting-jobs"`.
pub fn printer_is_accepting_jobs() -> (r: Vec<u8>)
    ensures
        r@ == spec_printer_is_accepting_jobs(),
{
    let v: Vec<u8> = vec![112u8, 114u8, 105u8, 110u8, 116u8, 101u8, 114u8, 45u8, 105u8, 115u8, 45u8, 97u8, 99u8, 99u8, 101u8, 112u8, 116u8, 105u8, 110u8, 103u8, 45u8, 106u8, 111u8, 98u8, 115u8];
    proof {
        assert(v@ =~= spec_printer_is_accepting_jobs());
    }
    v
}

/// The bytes of `"utf-8"`.
pub open spec fn spec_utf_8() -> Seq<u8> {
    seq![117u8, 116u8, 102u8, 45u8, 56u8]
}

/// The bytes of `"utf-8"`.
pub fn utf_8() -> (r: Vec<u8>)
    ensures
        r@ == spec_utf_8(),
{
    let v: Vec<u8> = vec![117u8, 116u8, 102u8, 45u8, 56u8];
    proof {
        assert(v@ =~= spec_utf_8());
    }
    v
}

/// The bytes of `"en"`.
pub open spec fn spec_en() -> Seq<u8> {
    seq![101u8, 110u8]
}

/// The bytes of `"en"`.
pub fn en() -> (r: Vec<u8>)
    ensures
        r@ == spec_en(),
{
    let v: Vec<u8> = vec![101u8, 110u8];
    proof {
        assert(v@ =~= spec_en());
    }
    v
}

/// The bytes of `"none"`.
pub open spec fn spec_none_reason() -> Seq<u8> {
    seq![110u8, 111u8, 110u8, 101u8]
}

/// The bytes of `"none"`.
pub fn none_reason() -> (r: Vec<u8>)
    ensures
        r@ == spec_none_reason(),
{
    let v: Vec<u8> = vec![110u8, 111u8, 110u8, 101u8];
    proof {
        assert(v@ =~= spec_none_reason());
    }
    v
}

/// The bytes of `"-report"`.
pub open spec fn spec_report_suffix() -> Seq<u8> {
    seq![45u8, 114u8, 101u8, 112u8, 111u8, 114u8, 116u8]
}

/// The bytes of `"-report"`.
pub fn report_suffix() -> (r: Vec<u8>)
    ensures
        r@ == spec_report_suffix(),
{
    let v: Vec<u8> = vec![45u8, 114u8, 101u8, 112u8, 111u8, 114u8, 116u8];
    proof {
        assert(v@ =~= spec_report_suffix());
    }
    v
}

/// The bytes of `"http://"`.
pub open spec fn spec_http_prefix() -> Seq<u8> {
    seq![104u8, 116u8, 116u8, 112u8, 58u8, 47u8, 47u8]
}

/// The bytes of `"http://"`.
pub fn http_prefix() -> (r: Vec<u8>)
    ensures
        r@ == spec_http_prefix(),
{
    let v: Vec<u8> = vec![104u8, 116u8, 116u8, 112u8, 58u8, 47u8, 47u8];
    proof {
        assert(v@ =~= spec_http_prefix());
    }
    v
}

/// The bytes of `"https://"`.
pub open spec fn spec_https_prefix() -> Seq<u8> {
    seq![104u8, 116u8, 116u8, 112u8, 115u8, 58u8, 47u8, 47u8]
}

/// The bytes of `"https://"`.
pub fn https_prefix() -> (r: Vec<u8>)
    ensures
        r@ == spec_https_prefix(),
{
    let v: Vec<u8> = vec![104u8, 116u8, 116u8, 112u8, 115u8, 58u8, 47u8, 47u8];
    proof {
        assert(v@ =~= spec_https_prefix());
    }
    v
}

/// The bytes of `"ipp://"`.
pub open spec fn spec_ipp_prefix() -> Seq<u8> {
    seq![105u8, 112u8, 112u8, 58u8, 47u8, 47u8]
}

/// The bytes of `"ipp://"`.
pub fn ipp_prefix() -> (r: Vec<u8>)
    ensures
        r@ == spec_ipp_prefix(),
{
    let v: Vec<u8> = vec![105u8, 112u8, 112u8, 58u8, 47u8, 47u8];
    proof {
        assert(v@ =~= spec_ipp_prefix());
    }
    v
}

/// The bytes of `"ipps://"`.
pub open spec fn spec_ipps_prefix() -> Seq<u8> {
    seq![105u8, 112u8, 112u8, 115u8, 58u8, 47u8, 47u8]
}

/// The bytes of `"ipps://"`.
pub fn ipps_prefix() -> (r: Vec<u8>)
    ensures
        r@ == spec_ipps_prefix(),
{
    let v: Vec<u8> = vec![105u8, 112u8, 112u8, 115u8, 58u8, 47u8, 47u8];
    proof {
        assert(v@ =~= spec_ipps_prefix());
    }
    v
}

/// The bytes of `"true"`.
pub open spec fn spec_true_lit() -> Seq<u8> {
    seq![116u8, 114u8, 117u8, 101u8]
}

/// The bytes of `"true"`.
pub fn true_lit() -> (r: Vec<u8>)
    ensures
        r@ == spec_true_lit(),
{
    let v: Vec<u8> = vec![116u8, 114u8, 117u8, 101u8];
    proof {
        assert(v@ =~= spec_true_lit());
    }
    v
}

/// The bytes of `"false"`.
pub open spec fn spec_false_lit() -> Seq<u8> {
    seq![102u8, 97u8, 108u8, 115u8, 101u8]
}

/// The bytes of `"false"`.
pub fn false_lit() -> (r: Vec<u8>)
    ensures
        r@ == spec_false_lit(),
{
    let v: Vec<u8> = vec![102u8, 97u8, 108u8, 115u8, 101u8];
    proof {
        assert(v@ =~= spec_false_lit());
    }
    v
}

/// The bytes of `"dpi"`.
pub open spec fn spec_dpi_suffix() -> Seq<u8> {
    seq![100u8, 112u8, 105u8]
}

/// The bytes of `"dpi"`.
pub fn dpi_suffix() -> (r: Vec<u8>)
    ensures
        r@ == spec_dpi_suffix(),
{
    let v: Vec<u8> = vec![100u8, 112u8, 105u8];
    proof {
        assert(v@ =~= spec_dpi_suffix());
    }
    v
}

/// The bytes of `"dpcm"`.
pub open spec fn spec_dpcm_suffix() -> Seq<u8> {
    seq![100u8, 112u8, 99u8, 109u8]
}

/// The bytes of `"dpcm"`.
pub fn dpcm_suffix() -> (r: Vec<u8>)
    ensures
        r@ == spec_dpcm_suffix(),
{
    let v: Vec<u8> = vec![100u8, 112u8, 99u8, 109u8];
    proof {
        assert(v@ =~= spec_dpcm_suffix());
    }
    v
}

} // verus!
