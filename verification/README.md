# x509-info

Owned X.509 certificate information for applications: subject/issuer names,
algorithms and key sizes, validity, serial, fingerprints and the common
extensions, decoded into owned Rust values. Parsing is not signature
verification, chain building, trust, revocation or policy evaluation.

The library is written in Verus. Its own functions in `src/` carry contracts
that Verus proves: what a parse returns or which error it reports, how each
extension value is decoded, when a supported extension is `Malformed`, how OID
labels are looked up and overridden, what a summary copies, and how a report
is projected and laid out. The parsers of `x509-parser`/`asn1-rs`, the
RustCrypto crates (`x509-cert`, `der`, `pkcs1`, `sha2`, `pem-rfc7468`,
`base64ct`) and `oid-registry` do the ASN.1 and encoding work. They are called
through small trusted wrappers in `src/backend.rs` and `src/rustcrypto.rs`
(and `serde_json`'s string escaping in `src/layout.rs`, `Arc::clone` in
`src/oids.rs`). Those wrappers are not proved: Verus takes their contracts,
which state what the library relies on, as given.

## Layout

- `src/lib.rs`: parse options, errors, validity interval and the input budget.
- `src/certificate.rs`: `parse_der`/`parse_pem` (and `*_with_names`), the owned
  `CertificateInfo` and `PublicKeyInfo`, SHA-256 fingerprints.
- `src/algorithms.rs`: algorithm identifiers, RSA-PSS parameters, nominal key sizes.
- `src/keys.rs`: public-key fields parsed from the retained key bytes.
- `src/names.rs`: distinguished names with RDN grouping and raw values retained.
- `src/extensions/`: GeneralNames and every supported extension decoder, field
  details of otherName/EDI names, and diagnostics for malformed values.
- `src/decoding.rs`: DER primitives, string decoding and field diagnostics.
- `src/oids.rs`: caller-owned OID labels with canonical dotted-decimal syntax.
- `src/summary.rs`: the owned summary without raw encodings.
- `src/report.rs`: which serialized report fields carry octets, and how the
  report schema names and describes them.
- `src/encoding.rs`: the report tree's binary projection (octet strings, FIDO
  AAGUIDs as UUID text), textual projection (Base64 under `_base64` keys) and
  TOML form (no nulls, large integers as decimal text).
- `src/layout.rs`: the plain-text report layout.
- `src/enrichment.rs`: otherName, ediPartyName and x400Address objects of a
  serialized report gain their decoded fields or a diagnostic.
- `src/schema.rs`: the report schema's presentation rules (renamed byte
  properties, `required` lists, AAGUID, UUID and enriched-name entries).
- `src/inspection.rs`: the name, extension and directory-attribute diagnostics
  that a report lists beside the certificate, by position.
- `src/text.rs`, `src/ip.rs`: hex text and IP address notation.
- `app/`: the command-line tool (file I/O, argument parsing, JSON/YAML/CBOR/
  MessagePack/TOML output and JSON Schema), over serializable copies of the
  library's result types.

## Use

```rust
use x509_info::{parse_der, ParseOptions};
let info = parse_der(&der, ParseOptions::default())?;
let details = info.summary();
println!("{}", details.subject.display);
```

`OidNames::default()` combines built-in application labels with the upstream
`oid-registry` tables; `insert` adds caller labels, and the `*_with_names`
functions use them. Labels are presentation text; program logic should use OIDs.
