//! Bundles of a WASM module and its configuration, their digests, the OCI URIs they are
//! published under, and the local cache that holds them.

use vstd::prelude::*;

use sha2::{Digest, Sha256};

use crate::bundle::cache::CacheError;
use crate::bundle::oci::OciError;
use crate::text::{push_char, chars_of, concat_str, first_index, has_char, has_prefix, last_index, str_eq, string_from_chars, sub_vec};

pub mod cache;
pub mod messages;
pub mod oci;

verus! {

/// A bundle consisting of WASM module and configuration
#[derive(Debug, Clone)]
pub struct Bundle {
    /// The WASM module bytes
    pub wasm: Vec<u8>,
    /// The configuration YAML bytes
    pub config: Vec<u8>,
    /// Bundle metadata
    pub metadata: BundleMetadata,
}

/// Bundle metadata
#[derive(Debug, Clone)]
pub struct BundleMetadata {
    /// Registry URI
    pub registry: String,
    /// Bundle version
    pub version: String,
    /// SHA256 digest of WASM module
    pub wasm_digest: String,
    /// SHA256 digest of config
    pub config_digest: String,
    /// Pull time, in seconds since the Unix epoch
    pub pulled_at: u64,
}

/// Bundle distribution errors
#[derive(Debug)]
pub enum BundleError {
    /// OCI operation failed
    OciError(OciError),
    /// Cache operation failed
    CacheError(CacheError),
    /// Digest mismatch
    DigestMismatch {
        /// The digest expected
        expected: String,
        /// The digest computed
        computed: String,
    },
    /// Bundle not found
    NotFound(String),
    /// Invalid URI
    InvalidUri(String),
    /// Authentication failed
    AuthenticationFailed(String),
    /// IO error, by its message
    IoError(String),
    /// Configuration error
    ConfigError(String),
}

/// The SHA-256 hash of the bytes (`sha2::Sha256`).
pub uninterp spec fn sha256_of(content: Seq<u8>) -> Seq<u8>;

/// `sha2::Sha256::digest`: the SHA-256 hash of the bytes, 32 bytes long.
#[verifier::external_body]
pub(crate) fn sha256(content: &[u8]) -> (r: Vec<u8>)
    ensures
        r@ == sha256_of(content@),
        r@.len() == 32,
{
    Sha256::digest(content).to_vec()
}

/// The lowercase hexadecimal digit for a value below 16.
pub open spec fn hex_digit(n: int) -> char {
    if n < 10 {
        (48 + n) as char
    } else {
        (87 + n) as char
    }
}

/// Bytes as lowercase hexadecimal text, two digits per byte.
pub open spec fn hex_text(b: Seq<u8>) -> Seq<char>
    decreases b.len(),
{
    if b.len() == 0 {
        seq![]
    } else {
        seq![hex_digit(b[0] as int / 16), hex_digit(b[0] as int % 16)] + hex_text(b.drop_first())
    }
}

/// The lowercase hexadecimal digit for a value below 16.
fn hex_char(n: u8) -> (c: char)
    requires
        n < 16,
    ensures
        c == hex_digit(n as int),
{
    if n < 10 {
        (48 + n) as char
    } else {
        (87 + n) as char
    }
}

/// The bytes as lowercase hexadecimal text, two digits per byte.
pub(crate) fn hex_encode(bytes: &[u8]) -> (r: String)
    ensures
        r@ == hex_text(bytes@),
{
    let mut out = String::new();
    let mut i: usize = 0;
    assert(bytes@.skip(0) =~= bytes@);
    while i < bytes.len()
        invariant
            i <= bytes.len(),
            hex_text(bytes@) == out@ + hex_text(bytes@.skip(i as int)),
        decreases bytes.len() - i,
    {
        let b = bytes[i];
        let ghost rest = bytes@.skip(i as int);
        assert(rest[0] == b);
        assert(rest.drop_first() =~= bytes@.skip(i + 1));
        let ghost before = out@;
        push_char(&mut out, hex_char(b / 16));
        push_char(&mut out, hex_char(b % 16));
        assert(out@ =~= before + seq![hex_digit(b as int / 16), hex_digit(b as int % 16)]);
        i = i + 1;
    }
    assert(bytes@.skip(i as int).len() == 0);
    assert(out@ + Seq::<char>::empty() =~= out@);
    out
}

/// The digest text of content: `sha256:` and the hash in hexadecimal.
pub open spec fn digest_of(content: Seq<u8>) -> Seq<char> {
    "sha256:"@ + hex_text(sha256_of(content))
}

/// Compute SHA256 digest of content
pub fn compute_digest(content: &[u8]) -> (r: String)
    ensures
        r@ == digest_of(content@),
{
    let hash = sha256(content);
    let hex = hex_encode(hash.as_slice());
    concat_str("sha256:", hex.as_str())
}

/// Verify content against expected digest
pub fn verify_digest(content: &[u8], expected: &str) -> (r: Result<(), BundleError>)
    ensures
        r is Ok <==> digest_of(content@) == expected@,
        r matches Err(e) ==> (e matches BundleError::DigestMismatch { expected: x, computed: c }
            && x@ == expected@ && c@ == digest_of(content@)),
{
    let computed = compute_digest(content);
    if !str_eq(computed.as_str(), expected) {
        return Err(BundleError::DigestMismatch { expected: expected.to_string(), computed });
    }
    Ok(())
}

/// The parts of an OCI URI `oci://<registry>/<repository>[:<tag>|@<digest>]`: registry,
/// repository and tag (or digest), or the message that rejects it.
pub open spec fn oci_parts(uri: Seq<char>) -> Result<(Seq<char>, Seq<char>, Option<Seq<char>>), Seq<char>> {
    if !has_prefix(uri, "oci://"@) {
        Err("URI must start with 'oci://': "@ + uri)
    } else {
        let rest = uri.subrange("oci://"@.len() as int, uri.len() as int);
        match crate::text::first_index_of(rest, '/') {
            None => Err("Invalid OCI URI format: "@ + rest),
            Some(p) => {
                let registry = rest.subrange(0, p);
                let path = rest.subrange(p + 1, rest.len() as int);
                match crate::text::last_index_of(path, '@') {
                    Some(a) => Ok(
                        (registry, path.subrange(0, a), Some(path.subrange(a + 1, path.len() as int))),
                    ),
                    None => match crate::text::last_index_of(path, ':') {
                        Some(c) => Ok(
                            (
                                registry,
                                path.subrange(0, c),
                                Some(path.subrange(c + 1, path.len() as int)),
                            ),
                        ),
                        None => Ok((registry, path, None)),
                    },
                }
            },
        }
    }
}

/// What follows `oci://` in a URI.
pub open spec fn oci_rest(uri: Seq<char>) -> Seq<char> {
    uri.subrange("oci://"@.len() as int, uri.len() as int)
}

/// What follows the first `/` after `oci://`: the repository with its tag or digest.
pub open spec fn oci_path(uri: Seq<char>) -> Seq<char> {
    match crate::text::first_index_of(oci_rest(uri), '/') {
        Some(p) => oci_rest(uri).subrange(p + 1, oci_rest(uri).len() as int),
        None => seq![],
    }
}

pub(crate) proof fn lemma_first_none(s: Seq<char>, c: char)
    ensures
        (crate::text::first_index_of(s, c) is None) == !has_char(s, c),
    decreases s.len(),
{
    if s.len() > 0 {
        lemma_first_none(s.drop_first(), c);
        if has_char(s, c) && s[0] != c {
            let i = choose|i: int| 0 <= i < s.len() && s[i] == c;
            assert(s.drop_first()[i - 1] == c);
        }
        if has_char(s.drop_first(), c) {
            let i = choose|i: int| 0 <= i < s.drop_first().len() && s.drop_first()[i] == c;
            assert(s[i + 1] == c);
        }
        if s[0] == c {
            assert(has_char(s, c));
        }
    }
}

pub(crate) proof fn lemma_last_none(s: Seq<char>, c: char)
    ensures
        (crate::text::last_index_of(s, c) is None) == !has_char(s, c),
    decreases s.len(),
{
    if s.len() > 0 {
        lemma_last_none(s.drop_last(), c);
        if has_char(s, c) && s.last() != c {
            let i = choose|i: int| 0 <= i < s.len() && s[i] == c;
            assert(s.drop_last()[i] == c);
        }
        if has_char(s.drop_last(), c) {
            let i = choose|i: int| 0 <= i < s.drop_last().len() && s.drop_last()[i] == c;
            assert(s[i] == c);
        }
        if s.last() == c {
            assert(s[s.len() - 1] == c);
        }
    }
}

/// An OCI URI is rejected exactly when it does not start with `oci://` or has no `/` after
/// it; an accepted one has no tag exactly when its repository part has neither `@` nor
/// `:`.
pub proof fn lemma_oci_uri_shape(uri: Seq<char>)
    ensures
        oci_parts(uri) is Err <==> (!has_prefix(uri, "oci://"@) || !has_char(oci_rest(uri), '/')),
        oci_parts(uri) matches Ok((_, _, tag)) ==> (tag is None <==> (!has_char(oci_path(uri), '@')
            && !has_char(oci_path(uri), ':'))),
{
    if has_prefix(uri, "oci://"@) {
        lemma_first_none(oci_rest(uri), '/');
        lemma_last_none(oci_path(uri), '@');
        lemma_last_none(oci_path(uri), ':');
    }
}

/// Parse OCI URI into registry, repository, and tag
pub fn parse_oci_uri(uri: &str) -> (r: Result<(String, String, Option<String>), BundleError>)
    ensures
        match oci_parts(uri@) {
            Ok((reg, repo, tag)) => r matches Ok((a, b, c)) && a@ == reg && b@ == repo && match tag {
                Some(t) => c matches Some(x) && x@ == t,
                None => c is None,
            },
            Err(m) => r matches Err(BundleError::InvalidUri(x)) && x@ == m,
        },
{
    if !crate::text::starts_with(uri, "oci://") {
        return Err(BundleError::InvalidUri(concat_str("URI must start with 'oci://': ", uri)));
    }
    let all = chars_of(uri);
    let n = chars_of("oci://").len();
    let rest = sub_vec(&all, n, all.len());
    let slash = match first_index(&rest, '/') {
        Some(p) => p,
        None => {
            let text = string_from_chars(&rest);
            return Err(BundleError::InvalidUri(concat_str("Invalid OCI URI format: ", text.as_str())));
        },
    };
    let registry = string_from_chars(&sub_vec(&rest, 0, slash));
    let path = sub_vec(&rest, slash + 1, rest.len());
    match last_index(&path, '@') {
        Some(a) => {
            let repo = string_from_chars(&sub_vec(&path, 0, a));
            let digest = string_from_chars(&sub_vec(&path, a + 1, path.len()));
            Ok((registry, repo, Some(digest)))
        },
        None => match last_index(&path, ':') {
            Some(c) => {
                let repo = string_from_chars(&sub_vec(&path, 0, c));
                let tag = string_from_chars(&sub_vec(&path, c + 1, path.len()));
                Ok((registry, repo, Some(tag)))
            },
            None => {
                let repo = string_from_chars(&path);
                proof {
                    let ghost spec_rest = uri@.subrange("oci://"@.len() as int, uri@.len() as int);
                    assert(spec_rest == rest@);
                    assert(oci_parts(uri@) == Ok::<(Seq<char>, Seq<char>, Option<Seq<char>>), Seq<char>>((registry@, path@, None)));
                }
                Ok((registry, repo, None))
            },
        },
    }
}

impl Bundle {
    /// Create a new bundle from WASM and config bytes, with their digests, pulled at
    /// `pulled_at` (seconds since the Unix epoch)
    pub fn new(wasm: Vec<u8>, config: Vec<u8>, registry: String, version: String, pulled_at: u64) -> (r: Bundle)
        ensures
            r.wasm@ == wasm@,
            r.config@ == config@,
            r.metadata.registry == registry,
            r.metadata.version == version,
            r.metadata.wasm_digest@ == digest_of(wasm@),
            r.metadata.config_digest@ == digest_of(config@),
            r.metadata.pulled_at == pulled_at,
    {
        let wasm_digest = compute_digest(wasm.as_slice());
        let config_digest = compute_digest(config.as_slice());
        Bundle {
            wasm,
            config,
            metadata: BundleMetadata { registry, version, wasm_digest, config_digest, pulled_at },
        }
    }

    /// A bundle read from a directory: its metadata when the directory has one, else
    /// metadata with no registry or version, the contents' digests, and the time `now`.
    pub fn assemble(wasm: Vec<u8>, config: Vec<u8>, metadata: Option<BundleMetadata>, now: u64) -> (r: Bundle)
        ensures
            r.wasm@ == wasm@,
            r.config@ == config@,
            match metadata {
                Some(m) => r.metadata == m,
                None => {
                    &&& r.metadata.registry@.len() == 0
                    &&& r.metadata.version@.len() == 0
                    &&& r.metadata.wasm_digest@ == digest_of(wasm@)
                    &&& r.metadata.config_digest@ == digest_of(config@)
                    &&& r.metadata.pulled_at == now
                },
            },
    {
        match metadata {
            Some(m) => Bundle { wasm, config, metadata: m },
            None => Bundle::new(wasm, config, String::new(), String::new(), now),
        }
    }

    /// Verify bundle integrity: both digests match the contents.
    pub fn verify(&self) -> (r: Result<(), BundleError>)
        ensures
            r is Ok <==> (digest_of(self.wasm@) == self.metadata.wasm_digest@ && digest_of(
                self.config@,
            ) == self.metadata.config_digest@),
            r matches Err(e) ==> e is DigestMismatch,
    {
        verify_digest(self.wasm.as_slice(), self.metadata.wasm_digest.as_str())?;
        verify_digest(self.config.as_slice(), self.metadata.config_digest.as_str())?;
        Ok(())
    }
}

/// A bundle made by [`Bundle::new`] verifies: its digests are those of its contents.
pub proof fn lemma_new_bundle_verifies(b: Bundle, wasm: Seq<u8>, config: Seq<u8>)
    requires
        b.wasm@ == wasm,
        b.config@ == config,
        b.metadata.wasm_digest@ == digest_of(wasm),
        b.metadata.config_digest@ == digest_of(config),
    ensures
        digest_of(b.wasm@) == b.metadata.wasm_digest@ && digest_of(b.config@)
            == b.metadata.config_digest@,
{
}

} // verus!
