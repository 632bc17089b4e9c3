//! The field diagnostics an inspection report lists beside a certificate: name
//! attributes whose value cannot be shown as text, extensions that are unknown or
//! malformed, and the text of every subject directory attribute value, each with
//! its position in the certificate.
use vstd::prelude::*;
use crate::certificate::CertificateInfo;
use crate::decoding::{reports, DecodeDiagnostic};
use crate::extensions::additional::{text_result_matches, value_text_outcome, DirectoryAttribute};
use crate::extensions::diagnostics::extension_diagnostic;
use crate::extensions::{ExtensionDetails, ExtensionInfo};
use crate::names::{attribute_diagnostic, DistinguishedName, NameAttribute};

verus! {

/// Which of the certificate's names an entry refers to.
#[derive(Clone, Copy, Debug, PartialEq, Eq, Structural)]
pub enum NameSide {
    Subject,
    Issuer,
}

/// A name attribute whose value has a diagnostic, by position.
#[derive(Clone, Debug)]
pub struct NameDiagnostic {
    pub name: NameSide,
    pub rdn_index: usize,
    pub attribute_index: usize,
    pub diagnostic: DecodeDiagnostic,
}

/// An extension with a diagnostic, by position.
#[derive(Clone, Debug)]
pub struct ExtensionDiagnostic {
    pub index: usize,
    pub oid: String,
    pub diagnostic: DecodeDiagnostic,
}

/// The value texts of one subject directory attribute, by position.
#[derive(Clone, Debug)]
pub struct DirectoryValues {
    pub extension_index: usize,
    pub attribute_index: usize,
    pub values: Vec<Result<String, DecodeDiagnostic>>,
}

/// Everything an inspection report lists beside the certificate.
#[derive(Clone, Debug)]
pub struct InspectionDiagnostics {
    pub name_diagnostics: Vec<NameDiagnostic>,
    pub directory_attribute_values: Vec<DirectoryValues>,
    pub extension_diagnostics: Vec<ExtensionDiagnostic>,
}

/// A name attribute's diagnostic, if its value cannot be shown as text.
pub open spec fn name_attribute_diagnostic(a: NameAttribute) -> Option<(crate::decoding::DecodeIssue, Seq<char>)> {
    attribute_diagnostic(a.value_tag, a.value_hex@)
}

/// `(r1, a1)` comes before `(r2, a2)` in encoded order.
pub open spec fn position_before(r1: int, a1: int, r2: int, a2: int) -> bool {
    r1 < r2 || (r1 == r2 && a1 < a2)
}

/// `e` reports the diagnostic of the attribute of `n` at its position.
pub open spec fn reports_attribute(n: DistinguishedName, e: NameDiagnostic) -> bool {
    &&& e.rdn_index < n.rdns@.len()
    &&& e.attribute_index < n.rdns@[e.rdn_index as int]@.len()
    &&& match name_attribute_diagnostic(n.rdns@[e.rdn_index as int]@[e.attribute_index as int]) {
        Some((issue, field)) => reports(e.diagnostic, issue, field),
        None => false,
    }
}

/// `s` lists, once each and in encoded order, the attributes of `n` that have a
/// diagnostic, as entries for `side`.
pub open spec fn lists_name_diagnostics(n: DistinguishedName, side: NameSide, s: Seq<NameDiagnostic>) -> bool {
    &&& forall|i: int| 0 <= i < s.len() ==> (#[trigger] s[i]).name == side && reports_attribute(n, s[i])
    &&& forall|i: int, j: int| 0 <= i < j < s.len() ==> position_before(
        (#[trigger] s[i]).rdn_index as int,
        s[i].attribute_index as int,
        (#[trigger] s[j]).rdn_index as int,
        s[j].attribute_index as int,
    )
    &&& forall|r: int, a: int| 0 <= r < n.rdns@.len() && 0 <= a < n.rdns@[r]@.len()
        && (#[trigger] name_attribute_diagnostic(n.rdns@[r]@[a])) is Some ==> exists|i: int|
            0 <= i < s.len() && (#[trigger] s[i]).rdn_index == r && s[i].attribute_index == a
}

/// `e` reports the diagnostic of the extension at its index.
pub open spec fn reports_extension(exts: Seq<ExtensionInfo>, e: ExtensionDiagnostic) -> bool {
    &&& e.index < exts.len()
    &&& e.oid@ == exts[e.index as int].oid@
    &&& match extension_diagnostic(exts[e.index as int]) {
        Some((issue, field)) => reports(e.diagnostic, issue, field),
        None => false,
    }
}

/// `s` lists, once each and in order, the extensions that have a diagnostic.
pub open spec fn lists_extension_diagnostics(exts: Seq<ExtensionInfo>, s: Seq<ExtensionDiagnostic>) -> bool {
    &&& forall|i: int| 0 <= i < s.len() ==> reports_extension(exts, #[trigger] s[i])
    &&& forall|i: int, j: int| 0 <= i < j < s.len() ==> (#[trigger] s[i]).index < (#[trigger] s[j]).index
    &&& forall|k: int| 0 <= k < exts.len() && (#[trigger] extension_diagnostic(exts[k])) is Some ==> exists|i: int|
        0 <= i < s.len() && (#[trigger] s[i]).index == k
}

/// The subject directory attributes an extension holds.
pub open spec fn directory_attributes(e: ExtensionInfo) -> Option<Seq<DirectoryAttribute>> {
    match e.details {
        ExtensionDetails::SubjectDirectoryAttributes(attributes) => Some(attributes@),
        _ => None,
    }
}

/// The extension holds a subject directory attribute at index `a`.
pub open spec fn has_attribute(e: ExtensionInfo, a: int) -> bool {
    match directory_attributes(e) {
        Some(attributes) => 0 <= a < attributes.len(),
        None => false,
    }
}

/// `v` holds the text, or the diagnostic, of each value of `a`, in order.
pub open spec fn values_shown(a: DirectoryAttribute, v: Seq<Result<String, DecodeDiagnostic>>) -> bool {
    &&& v.len() == a.values_der_hex@.len()
    &&& forall|t: int| 0 <= t < v.len() ==> text_result_matches(#[trigger] v[t], value_text_outcome(a.values_der_hex@[t]@))
}

/// `e` shows the values of the directory attribute at its position.
pub open spec fn shows_attribute(exts: Seq<ExtensionInfo>, e: DirectoryValues) -> bool {
    &&& e.extension_index < exts.len()
    &&& match directory_attributes(exts[e.extension_index as int]) {
        Some(attributes) => e.attribute_index < attributes.len() && values_shown(attributes[e.attribute_index as int], e.values@),
        None => false,
    }
}

/// `s` shows, once each and in encoded order, every subject directory attribute.
pub open spec fn lists_directory_values(exts: Seq<ExtensionInfo>, s: Seq<DirectoryValues>) -> bool {
    &&& forall|i: int| 0 <= i < s.len() ==> shows_attribute(exts, #[trigger] s[i])
    &&& forall|i: int, j: int| 0 <= i < j < s.len() ==> position_before(
        (#[trigger] s[i]).extension_index as int,
        s[i].attribute_index as int,
        (#[trigger] s[j]).extension_index as int,
        s[j].attribute_index as int,
    )
    &&& forall|k: int, a: int| 0 <= k < exts.len() && #[trigger] has_attribute(exts[k], a) ==> exists|i: int|
            0 <= i < s.len() && (#[trigger] s[i]).extension_index == k && s[i].attribute_index == a
}


/// The attributes of one name that have a diagnostic, in encoded order.
fn name_diagnostics(n: &DistinguishedName, side: NameSide) -> (r: Vec<NameDiagnostic>)
    ensures
        lists_name_diagnostics(*n, side, r@),
{
    let mut out: Vec<NameDiagnostic> = Vec::new();
    let mut r: usize = 0;
    while r < n.rdns.len()
        invariant
            r <= n.rdns@.len(),
            forall|i: int| 0 <= i < out@.len() ==> (#[trigger] out@[i]).name == side
                && reports_attribute(*n, out@[i]) && out@[i].rdn_index < r,
            forall|i: int, j: int| 0 <= i < j < out@.len() ==> position_before(
                (#[trigger] out@[i]).rdn_index as int,
                out@[i].attribute_index as int,
                (#[trigger] out@[j]).rdn_index as int,
                out@[j].attribute_index as int,
            ),
            forall|r2: int, a: int| 0 <= r2 < r && 0 <= a < n.rdns@[r2]@.len()
                && (#[trigger] name_attribute_diagnostic(n.rdns@[r2]@[a])) is Some ==> exists|i: int|
                    0 <= i < out@.len() && (#[trigger] out@[i]).rdn_index == r2 && out@[i].attribute_index == a,
        decreases n.rdns@.len() - r,
    {
        let rdn = &n.rdns[r];
        let mut a: usize = 0;
        while a < rdn.len()
            invariant
                r < n.rdns@.len(),
                *rdn == n.rdns@[r as int],
                a <= rdn@.len(),
                forall|i: int| 0 <= i < out@.len() ==> (#[trigger] out@[i]).name == side
                    && reports_attribute(*n, out@[i])
                    && position_before(out@[i].rdn_index as int, out@[i].attribute_index as int, r as int, a as int),
                forall|i: int, j: int| 0 <= i < j < out@.len() ==> position_before(
                    (#[trigger] out@[i]).rdn_index as int,
                    out@[i].attribute_index as int,
                    (#[trigger] out@[j]).rdn_index as int,
                    out@[j].attribute_index as int,
                ),
                forall|r2: int, a2: int| 0 <= r2 < n.rdns@.len() && 0 <= a2 < n.rdns@[r2]@.len()
                    && position_before(r2, a2, r as int, a as int)
                    && (#[trigger] name_attribute_diagnostic(n.rdns@[r2]@[a2])) is Some ==> exists|i: int|
                        0 <= i < out@.len() && (#[trigger] out@[i]).rdn_index == r2 && out@[i].attribute_index == a2,
            decreases rdn@.len() - a,
        {
            let ghost before = out@;
            match rdn[a].diagnostic() {
                Some(d) => {
                    out.push(NameDiagnostic { name: side, rdn_index: r, attribute_index: a, diagnostic: d });
                    proof {
                        assert forall|r2: int, a2: int| 0 <= r2 < n.rdns@.len() && 0 <= a2 < n.rdns@[r2]@.len()
                            && position_before(r2, a2, r as int, a + 1)
                            && (#[trigger] name_attribute_diagnostic(n.rdns@[r2]@[a2])) is Some implies exists|i: int|
                                0 <= i < out@.len() && (#[trigger] out@[i]).rdn_index == r2 && out@[i].attribute_index == a2 by {
                            if r2 == r && a2 == a {
                                assert(out@[before.len() as int].rdn_index == r2);
                            } else {
                                let i = choose|i: int| 0 <= i < before.len() && (#[trigger] before[i]).rdn_index == r2
                                    && before[i].attribute_index == a2;
                                assert(out@[i] == before[i]);
                            }
                        }
                    }
                },
                None => {
                    proof {
                        assert forall|r2: int, a2: int| 0 <= r2 < n.rdns@.len() && 0 <= a2 < n.rdns@[r2]@.len()
                            && position_before(r2, a2, r as int, a + 1)
                            && (#[trigger] name_attribute_diagnostic(n.rdns@[r2]@[a2])) is Some implies exists|i: int|
                                0 <= i < out@.len() && (#[trigger] out@[i]).rdn_index == r2 && out@[i].attribute_index == a2 by {
                            if r2 == r && a2 == a {
                                assert(name_attribute_diagnostic(n.rdns@[r as int]@[a as int]) is None);
                            }
                        }
                    }
                },
            }
            a = a + 1;
        }
        r = r + 1;
    }
    out
}


/// The extensions that have a diagnostic, in order.
fn extension_diagnostics(exts: &Vec<ExtensionInfo>) -> (r: Vec<ExtensionDiagnostic>)
    ensures
        lists_extension_diagnostics(exts@, r@),
{
    let mut out: Vec<ExtensionDiagnostic> = Vec::new();
    let mut k: usize = 0;
    while k < exts.len()
        invariant
            k <= exts@.len(),
            forall|i: int| 0 <= i < out@.len() ==> reports_extension(exts@, #[trigger] out@[i]) && out@[i].index < k,
            forall|i: int, j: int| 0 <= i < j < out@.len() ==> (#[trigger] out@[i]).index < (#[trigger] out@[j]).index,
            forall|k2: int| 0 <= k2 < k && (#[trigger] extension_diagnostic(exts@[k2])) is Some ==> exists|i: int|
                0 <= i < out@.len() && (#[trigger] out@[i]).index == k2,
        decreases exts@.len() - k,
    {
        let ghost before = out@;
        match exts[k].diagnostic() {
            Some(d) => {
                out.push(ExtensionDiagnostic { index: k, oid: exts[k].oid.clone(), diagnostic: d });
                proof {
                    assert forall|k2: int| 0 <= k2 < k + 1 && (#[trigger] extension_diagnostic(exts@[k2])) is Some
                        implies exists|i: int| 0 <= i < out@.len() && (#[trigger] out@[i]).index == k2 by {
                        if k2 == k {
                            assert(out@[before.len() as int].index == k2);
                        } else {
                            let i = choose|i: int| 0 <= i < before.len() && (#[trigger] before[i]).index == k2;
                            assert(out@[i] == before[i]);
                        }
                    }
                }
            },
            None => {},
        }
        k = k + 1;
    }
    out
}

/// The value texts of every subject directory attribute, in encoded order.
fn directory_values(exts: &Vec<ExtensionInfo>) -> (r: Vec<DirectoryValues>)
    ensures
        lists_directory_values(exts@, r@),
{
    let mut out: Vec<DirectoryValues> = Vec::new();
    let mut k: usize = 0;
    while k < exts.len()
        invariant
            k <= exts@.len(),
            forall|i: int| 0 <= i < out@.len() ==> shows_attribute(exts@, #[trigger] out@[i])
                && out@[i].extension_index < k,
            forall|i: int, j: int| 0 <= i < j < out@.len() ==> position_before(
                (#[trigger] out@[i]).extension_index as int,
                out@[i].attribute_index as int,
                (#[trigger] out@[j]).extension_index as int,
                out@[j].attribute_index as int,
            ),
            forall|k2: int, a: int| 0 <= k2 < k && #[trigger] has_attribute(exts@[k2], a) ==> exists|i: int|
                    0 <= i < out@.len() && (#[trigger] out@[i]).extension_index == k2 && out@[i].attribute_index == a,
        decreases exts@.len() - k,
    {
        if let ExtensionDetails::SubjectDirectoryAttributes(attributes) = &exts[k].details {
            let mut a: usize = 0;
            while a < attributes.len()
                invariant
                    k < exts@.len(),
                    directory_attributes(exts@[k as int]) == Some(attributes@),
                    a <= attributes@.len(),
                    forall|i: int| 0 <= i < out@.len() ==> shows_attribute(exts@, #[trigger] out@[i])
                        && position_before(out@[i].extension_index as int, out@[i].attribute_index as int, k as int, a as int),
                    forall|i: int, j: int| 0 <= i < j < out@.len() ==> position_before(
                        (#[trigger] out@[i]).extension_index as int,
                        out@[i].attribute_index as int,
                        (#[trigger] out@[j]).extension_index as int,
                        out@[j].attribute_index as int,
                    ),
                    forall|k2: int, a2: int| 0 <= k2 < exts@.len() && #[trigger] has_attribute(exts@[k2], a2)
                        && position_before(k2, a2, k as int, a as int) ==> exists|i: int|
                            0 <= i < out@.len() && (#[trigger] out@[i]).extension_index == k2 && out@[i].attribute_index == a2,
                decreases attributes@.len() - a,
            {
                let ghost before = out@;
                let values = attributes[a].text_values();
                out.push(DirectoryValues { extension_index: k, attribute_index: a, values });
                proof {
                    assert forall|k2: int, a2: int| 0 <= k2 < exts@.len() && #[trigger] has_attribute(exts@[k2], a2)
                        && position_before(k2, a2, k as int, a + 1) implies exists|i: int|
                            0 <= i < out@.len() && (#[trigger] out@[i]).extension_index == k2 && out@[i].attribute_index == a2 by {
                        if k2 == k && a2 == a {
                            assert(out@[before.len() as int].extension_index == k2);
                        } else {
                            let i = choose|i: int| 0 <= i < before.len() && (#[trigger] before[i]).extension_index == k2
                                && before[i].attribute_index == a2;
                            assert(out@[i] == before[i]);
                        }
                    }
                }
                a = a + 1;
            }
        }
        proof {
            assert forall|k2: int, a2: int| 0 <= k2 < k + 1 && #[trigger] has_attribute(exts@[k2], a2) implies exists|i: int|
                0 <= i < out@.len() && (#[trigger] out@[i]).extension_index == k2 && out@[i].attribute_index == a2 by {
                if k2 < k {
                    assert(has_attribute(exts@[k2], a2));
                }
            }
        }
        k = k + 1;
    }
    out
}

/// The diagnostics an inspection report lists beside the certificate: the name
/// attributes with a diagnostic (subject first, then issuer), the value texts of
/// every subject directory attribute, and the extensions with a diagnostic, each
/// by position and in encoded order.
pub fn inspect_diagnostics(info: &CertificateInfo) -> (r: InspectionDiagnostics)
    ensures
        exists|k: int| #![trigger r.name_diagnostics@.subrange(0, k)] 0 <= k <= r.name_diagnostics@.len()
            && lists_name_diagnostics(info.subject, NameSide::Subject, r.name_diagnostics@.subrange(0, k))
            && lists_name_diagnostics(info.issuer, NameSide::Issuer, r.name_diagnostics@.subrange(k, r.name_diagnostics@.len() as int)),
        lists_directory_values(info.extensions@, r.directory_attribute_values@),
        lists_extension_diagnostics(info.extensions@, r.extension_diagnostics@),
{
    let mut names = name_diagnostics(&info.subject, NameSide::Subject);
    let ghost subject = names@;
    let mut issuer = name_diagnostics(&info.issuer, NameSide::Issuer);
    let ghost issuer_part = issuer@;
    names.append(&mut issuer);
    proof {
        let k = subject.len() as int;
        assert(names@.subrange(0, k) =~= subject);
        assert(names@.subrange(k, names@.len() as int) =~= issuer_part);
        assert(0 <= k <= names@.len()
            && lists_name_diagnostics(info.subject, NameSide::Subject, names@.subrange(0, k))
            && lists_name_diagnostics(info.issuer, NameSide::Issuer, names@.subrange(k, names@.len() as int)));
    }
    let r = InspectionDiagnostics {
        name_diagnostics: names,
        directory_attribute_values: directory_values(&info.extensions),
        extension_diagnostics: extension_diagnostics(&info.extensions),
    };
    assert(r.name_diagnostics@.subrange(0, subject.len() as int) =~= subject);
    r
}

} // verus!
