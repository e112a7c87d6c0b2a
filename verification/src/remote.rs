//! Firmware sources and the resolver that decides, for a release, whether
//! its payload is already on disk or must be fetched over the network.
//!
//! A remote's kind fixes how a release's source URI is interpreted: a
//! bundled-local remote keeps payloads beside its cached metadata file, a
//! filesystem-directory remote encodes a local path behind a scheme
//! prefix (parsed, whatever the scheme's length), and every other kind
//! calls for a network fetch whose URI may be rewritten against the
//! remote's base URI.

use vstd::prelude::*;
use crate::bytes::{
    append_range, copy_bytes, find_byte_from, idx_of, last_idx_of, rfind_byte, trim_trailing,
    trim_trailing_bytes, COLON, SLASH,
};

verus! {

/// How a remote serves its firmware payloads.
#[derive(Clone, Copy, Debug, PartialEq, Eq, Structural)]
pub enum RemoteKind {
    /// A kind this client does not know; treated as a download source.
    Unknown,
    /// Payloads are fetched over the network.
    Download,
    /// Payloads sit on disk beside the remote's cached metadata file.
    Local,
    /// Payloads sit in a local directory named by the release URI.
    Directory,
}

/// How a remote's metadata is signed.
#[derive(Clone, Copy, Debug, PartialEq, Eq, Structural)]
pub enum KeyringKind {
    Unknown,
    NoSignature,
    GPG,
    PKCS7,
}

/// A configured firmware source.
#[derive(Debug, PartialEq)]
pub struct Remote {
    /// The remote's stable identity, matched against a release's
    /// remote identity.
    pub remote_id: String,
    /// Whether the daemon considers this remote active.
    pub enabled: bool,
    /// Fixes how release URIs from this remote are interpreted.
    pub kind: RemoteKind,
    /// How the remote's metadata is signed.
    pub keyring: KeyringKind,
    /// When configured, release URIs are rewritten against this base.
    pub firmware_base_uri: Option<Vec<u8>>,
    /// The remote's own source URI; relative release URIs resolve against
    /// its directory.
    pub uri: Option<Vec<u8>>,
    /// Path of the remote's cached metadata file; bundled payloads sit in
    /// its directory.
    pub filename_cache: Option<Vec<u8>>,
    /// Username for authenticated fetches.
    pub username: Option<String>,
    /// Password for authenticated fetches.
    pub password: Option<String>,
}

impl Default for Remote {
    /// A disabled remote of unknown kind with nothing configured.
    fn default() -> (r: Remote)
        ensures
            r.remote_id@ == Seq::<char>::empty(),
            !r.enabled,
            r.kind == RemoteKind::Unknown,
            r.keyring == KeyringKind::Unknown,
            r.firmware_base_uri is None,
            r.uri is None,
            r.filename_cache is None,
            r.username is None,
            r.password is None,
    {
        Remote {
            remote_id: String::new(),
            enabled: false,
            kind: RemoteKind::Unknown,
            keyring: KeyringKind::Unknown,
            firmware_base_uri: None,
            uri: None,
            filename_cache: None,
            username: None,
            password: None,
        }
    }
}

/// The byte-string views of an optional byte string.
pub open spec fn opt_bytes(o: Option<Vec<u8>>) -> Option<Seq<u8>> {
    match o {
        Some(v) => Some(v@),
        None => None,
    }
}

/// Whether `u` opens with a scheme: its first `:` is followed by `//`.
pub open spec fn spec_has_scheme(u: Seq<u8>) -> bool {
    let c = idx_of(u, COLON, 0);
    c + 2 < u.len() && u[c + 1] == SLASH && u[c + 2] == SLASH
}

/// `u` with its parsed scheme prefix removed: everything after the first
/// `://`. The scheme's length does not matter; `file://x` and
/// `archive://x` both leave `x`.
pub open spec fn spec_strip_scheme(u: Seq<u8>) -> Seq<u8>
    recommends
        spec_has_scheme(u),
{
    u.skip(idx_of(u, COLON, 0) + 3)
}

/// Whether the URI opens with a scheme prefix, so that
/// `spec_strip_scheme` applies to it.
pub fn has_scheme_prefix(uri: &Vec<u8>) -> (r: bool)
    ensures
        r == spec_has_scheme(uri@),
{
    let c = find_byte_from(uri, COLON, 0);
    c < uri.len() && uri.len() - c > 2 && uri[c + 1] == SLASH && uri[c + 2] == SLASH
}

/// The path-and-query portion of a URI: everything from the first `/`
/// after scheme and host for an absolute URI, the whole input otherwise.
pub open spec fn spec_path_and_query(u: Seq<u8>) -> Seq<u8> {
    if spec_has_scheme(u) {
        let c = idx_of(u, COLON, 0);
        u.skip(idx_of(u, SLASH, c + 3))
    } else {
        u
    }
}

/// `path` appended to `base` with exactly one `/` between them.
pub open spec fn spec_join_base(base: Seq<u8>, path: Seq<u8>) -> Seq<u8> {
    let b = trim_trailing(base, SLASH);
    if path.len() > 0 && path[0] == SLASH {
        b + path
    } else {
        b + seq![SLASH] + path
    }
}

/// `rel` resolved against the directory of `remote_uri`: the last path
/// segment of `remote_uri` is replaced by `rel`. Without any `/` in
/// `remote_uri` the relative name is returned unchanged.
pub open spec fn spec_resolve_against(remote_uri: Seq<u8>, rel: Seq<u8>) -> Seq<u8> {
    let d = last_idx_of(remote_uri, SLASH);
    if d >= 0 {
        remote_uri.take(d + 1) + rel
    } else {
        rel
    }
}

/// The URI a release's payload is fetched from.
///
/// With a configured base URI only scheme and host of the release URI are
/// rewritten: its path-and-query is appended to the base. Without one, a
/// URI that holds a `/` is used unmodified, and a bare relative name is
/// resolved against the remote's own source URI's directory.
pub open spec fn spec_firmware_uri(
    base: Option<Seq<u8>>,
    remote_uri: Option<Seq<u8>>,
    uri: Seq<u8>,
) -> Seq<u8> {
    match base {
        Some(b) => spec_join_base(b, spec_path_and_query(uri)),
        None => {
            if idx_of(uri, SLASH, 0) < uri.len() {
                uri
            } else {
                match remote_uri {
                    Some(ru) => spec_resolve_against(ru, uri),
                    None => uri,
                }
            }
        },
    }
}

/// The on-disk path of a bundled payload: the release URI joined to the
/// directory of the remote's cached metadata file.
pub open spec fn spec_local_payload_path(filename_cache: Option<Seq<u8>>, uri: Seq<u8>) -> Seq<
    u8,
> {
    match filename_cache {
        Some(c) => {
            let d = last_idx_of(c, SLASH);
            if d >= 0 {
                c.take(d + 1) + uri
            } else {
                uri
            }
        },
        None => uri,
    }
}

/// Whether payloads of this kind are already on disk, so that resolving a
/// release of it never calls for network access.
pub open spec fn spec_is_local_kind(kind: RemoteKind) -> bool {
    kind == RemoteKind::Local || kind == RemoteKind::Directory
}

/// Where a release's firmware payload lives: the two outcomes are
/// mutually exclusive, and only `Fetch` ever leads to network access.
#[derive(Debug, PartialEq)]
pub enum FirmwareLocation {
    /// The payload is already on disk at this path.
    LocalFile(Vec<u8>),
    /// The payload must be fetched from this URI.
    Fetch(Vec<u8>),
}

impl Remote {
    /// The URI to fetch a release's payload from, per `spec_firmware_uri`.
    pub fn firmware_uri(&self, uri: &Vec<u8>) -> (r: Vec<u8>)
        ensures
            r@ == spec_firmware_uri(opt_bytes(self.firmware_base_uri), opt_bytes(self.uri), uri@),
    {
        match &self.firmware_base_uri {
            Some(base) => {
                let mut out = trim_trailing_bytes(base, SLASH);
                let c = find_byte_from(uri, COLON, 0);
                let has_scheme = c < uri.len() && uri.len() - c > 2 && uri[c + 1] == SLASH && uri[c
                    + 2] == SLASH;
                assert(has_scheme == spec_has_scheme(uri@));
                let p = if has_scheme {
                    find_byte_from(uri, SLASH, c + 3)
                } else {
                    0
                };
                assert(uri@.subrange(p as int, uri@.len() as int) =~= spec_path_and_query(uri@));
                if !(p < uri.len() && uri[p] == SLASH) {
                    out.push(SLASH);
                    proof {
                        let path = spec_path_and_query(uri@);
                        assert(out@ =~= trim_trailing(base@, SLASH) + seq![SLASH]);
                    }
                }
                append_range(&mut out, uri, p, uri.len());
                proof {
                    let path = spec_path_and_query(uri@);
                    let b = trim_trailing(base@, SLASH);
                    if path.len() > 0 && path[0] == SLASH {
                        assert(out@ =~= b + path);
                    } else {
                        assert(out@ =~= b + seq![SLASH] + path);
                    }
                }
                out
            },
            None => {
                let s = find_byte_from(uri, SLASH, 0);
                if s < uri.len() {
                    copy_bytes(uri)
                } else {
                    match &self.uri {
                        Some(ru) => {
                            match rfind_byte(ru, SLASH) {
                                Some(d) => {
                                    let mut out: Vec<u8> = Vec::new();
                                    append_range(&mut out, ru, 0, d + 1);
                                    append_range(&mut out, uri, 0, uri.len());
                                    proof {
                                        assert(out@ =~= ru@.take(d + 1) + uri@);
                                    }
                                    out
                                },
                                None => copy_bytes(uri),
                            }
                        },
                        None => copy_bytes(uri),
                    }
                }
            },
        }
    }
}

/// Decides where the payload of a release with source URI `uri` lives,
/// given its owning remote.
///
/// The outcome is `LocalFile` exactly for the bundled-local and
/// filesystem-directory kinds: for those the fetch pipeline is never
/// invoked and no network access takes place. Every other kind yields the
/// fetch URI of `spec_firmware_uri`.
pub fn resolve_firmware_location(remote: &Remote, uri: &Vec<u8>) -> (r: FirmwareLocation)
    requires
        remote.kind == RemoteKind::Directory ==> spec_has_scheme(uri@),
    ensures
        r is LocalFile <==> spec_is_local_kind(remote.kind),
        remote.kind == RemoteKind::Local ==> (r matches FirmwareLocation::LocalFile(p) && p@
            == spec_local_payload_path(opt_bytes(remote.filename_cache), uri@)),
        remote.kind == RemoteKind::Directory ==> (r matches FirmwareLocation::LocalFile(p) && p@
            == spec_strip_scheme(uri@)),
        !spec_is_local_kind(remote.kind) ==> (r matches FirmwareLocation::Fetch(u) && u@
            == spec_firmware_uri(
            opt_bytes(remote.firmware_base_uri),
            opt_bytes(remote.uri),
            uri@,
        )),
{
    match remote.kind {
        RemoteKind::Local => {
            match &remote.filename_cache {
                Some(cache) => {
                    match rfind_byte(cache, SLASH) {
                        Some(d) => {
                            let mut out: Vec<u8> = Vec::new();
                            append_range(&mut out, cache, 0, d + 1);
                            append_range(&mut out, uri, 0, uri.len());
                            proof {
                                assert(out@ =~= cache@.take(d + 1) + uri@);
                            }
                            FirmwareLocation::LocalFile(out)
                        },
                        None => FirmwareLocation::LocalFile(copy_bytes(uri)),
                    }
                },
                None => FirmwareLocation::LocalFile(copy_bytes(uri)),
            }
        },
        RemoteKind::Directory => {
            let c = find_byte_from(uri, COLON, 0);
            let mut out: Vec<u8> = Vec::new();
            append_range(&mut out, uri, c + 3, uri.len());
            proof {
                assert(out@ =~= spec_strip_scheme(uri@));
            }
            FirmwareLocation::LocalFile(out)
        },
        _ => FirmwareLocation::Fetch(remote.firmware_uri(uri)),
    }
}

} // verus!
