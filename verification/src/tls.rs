//! The decision logic of the TLS session layer.
//!
//! The deployment pins certificates instead of validating chains: a
//! client accepts a server certificate exactly when it is
//! byte-identical to the certificate it was configured with.  This is
//! a deliberate trust-pinning strategy for an operator-managed fleet
//! with out-of-band certificate distribution — it is *not* equivalent
//! to CA-chain validation and must not be "fixed" into one.
//!
//! PEM material is parsed here from bytes already read from disk; the
//! handshake and socket plumbing live outside the library.

use rustls_pemfile::Item;
use std::io::Cursor;
use vstd::prelude::*;

verus! {

/// Errors of TLS configuration material.
#[derive(Debug)]
pub enum TlsConfigError {
    /// The key file's first PEM section is not a PKCS#8 private key.
    InvalidKey,
    /// The certificate file holds no certificate.
    NoCertificate,
    /// The PEM text could not be decoded at all.
    PemRead(String),
}

/// One recognised section of a PEM file.
#[derive(Debug)]
pub enum PemItem {
    /// A DER-encoded x509 certificate.
    X509Certificate(Vec<u8>),
    /// A DER-encoded plaintext RSA private key.
    RsaKey(Vec<u8>),
    /// A DER-encoded plaintext PKCS#8 private key.
    Pkcs8Key(Vec<u8>),
    /// A SEC1-encoded plaintext EC private key.
    EcKey(Vec<u8>),
    /// A certificate revocation list.
    Crl(Vec<u8>),
}

/// The DER bytes of the first recognised PEM section of `bytes`
/// (unrecognised section types are skipped over), when that section
/// is a PKCS#8 private key; `None` otherwise.
pub uninterp spec fn pem_first_pkcs8(bytes: Seq<u8>) -> Option<Seq<u8>>;

/// The DER bytes of the certificates among the PEM sections of
/// `bytes`, in order; `None` when the PEM text cannot be decoded.
pub uninterp spec fn pem_certs_of(bytes: Seq<u8>) -> Option<Seq<Seq<u8>>>;

/// Relies on rustls_pemfile::read_one over an in-memory reader: the
/// outcome depends on the bytes alone; it yields the first section
/// whose type it recognises, skipping others, and each recognised
/// section kind is carried over one to one.
#[verifier::external_body]
fn pem_read_one(bytes: &Vec<u8>) -> (r: Result<Option<PemItem>, String>)
    ensures
        (r matches Ok(item) && item matches Some(i) && i is Pkcs8Key) <==> pem_first_pkcs8(
            bytes@,
        ) is Some,
        r matches Ok(Some(PemItem::Pkcs8Key(k))) ==> k@ == pem_first_pkcs8(bytes@)->Some_0,
{
    match rustls_pemfile::read_one(&mut Cursor::new(bytes.as_slice())) {
        Ok(Some(Item::X509Certificate(d))) => Ok(Some(PemItem::X509Certificate(d))),
        Ok(Some(Item::RSAKey(d))) => Ok(Some(PemItem::RsaKey(d))),
        Ok(Some(Item::PKCS8Key(d))) => Ok(Some(PemItem::Pkcs8Key(d))),
        Ok(Some(Item::ECKey(d))) => Ok(Some(PemItem::EcKey(d))),
        Ok(Some(Item::Crl(d))) => Ok(Some(PemItem::Crl(d))),
        Ok(_) => Ok(None),
        Err(e) => Err(format!("{e}")),
    }
}

/// Relies on rustls_pemfile::certs over an in-memory reader: returns
/// the DER contents of every certificate section, in order, and fails
/// only on undecodable PEM text; the outcome depends on the bytes
/// alone.
#[verifier::external_body]
fn pem_read_certs(bytes: &Vec<u8>) -> (r: Result<Vec<Vec<u8>>, String>)
    ensures
        r is Ok <==> pem_certs_of(bytes@) is Some,
        r matches Ok(certs) ==> certs.deep_view() == pem_certs_of(bytes@)->Some_0,
{
    rustls_pemfile::certs(&mut Cursor::new(bytes.as_slice())).map_err(|e| format!("{e}"))
}

/// Extract the private key from the PEM bytes of a key file.
///
/// The first recognised PEM section must be a PKCS#8 private key; its
/// DER bytes are returned.  Anything else — other key encodings
/// included — is rejected, as the daemon's key files are generated as
/// PKCS#8.
pub fn load_key(pem_bytes: &Vec<u8>) -> (r: Result<Vec<u8>, TlsConfigError>)
    ensures
        r is Ok <==> pem_first_pkcs8(pem_bytes@) is Some,
        r matches Ok(k) ==> k@ == pem_first_pkcs8(pem_bytes@)->Some_0,
        r is Err ==> r->Err_0 is InvalidKey,
{
    match pem_read_one(pem_bytes) {
        Ok(Some(PemItem::Pkcs8Key(der))) => Ok(der),
        _ => Err(TlsConfigError::InvalidKey),
    }
}

/// Extract the end-entity certificate from the PEM bytes of a
/// certificate file: the first certificate section's DER bytes.
pub fn load_cert(pem_bytes: &Vec<u8>) -> (r: Result<Vec<u8>, TlsConfigError>)
    ensures
        r is Ok <==> (pem_certs_of(pem_bytes@) is Some && pem_certs_of(pem_bytes@)->Some_0.len()
            > 0),
        r matches Ok(c) ==> c@ == pem_certs_of(pem_bytes@)->Some_0[0],
        r is Err ==> (r->Err_0 is PemRead <==> pem_certs_of(pem_bytes@) is None),
{
    match pem_read_certs(pem_bytes) {
        Ok(mut certs) => {
            if certs.len() == 0 {
                return Err(TlsConfigError::NoCertificate);
            }
            let ghost all = certs.deep_view();
            let first = certs.remove(0);
            assert(first@ == all[0]);
            Ok(first)
        },
        Err(msg) => Err(TlsConfigError::PemRead(msg)),
    }
}

/// The pinning decision: a presented end-entity certificate is
/// accepted exactly when it is byte-identical to the pinned one.
pub fn check_pinned_cert(presented: &Vec<u8>, pinned: &Vec<u8>) -> (r: bool)
    ensures
        r == (presented@ == pinned@),
{
    if presented.len() != pinned.len() {
        return false;
    }
    let mut i: usize = 0;
    while i < presented.len()
        invariant
            0 <= i <= presented@.len(),
            presented@.len() == pinned@.len(),
            forall|j: int| 0 <= j < i ==> presented@[j] == pinned@[j],
        decreases presented@.len() - i,
    {
        if presented[i] != pinned[i] {
            return false;
        }
        i = i + 1;
    }
    proof {
        assert(presented@ =~= pinned@);
    }
    true
}

/// Tunable bounds of the transport layer.
///
/// The frame-length bound is finite on purpose: an unbounded bound
/// would let a peer force unbounded buffering.  A well-formed tuning
/// keeps every chunk (plus its envelope) within one frame.
pub struct TransportTuning {
    /// Longest accepted length-delimited frame, in bytes.
    pub max_frame_length: usize,
    /// Target size of one file chunk, in bytes.
    pub chunk_size: usize,
    /// Channels admitted per distinct peer address.
    pub max_channels_per_peer: usize,
    /// Channel-handling tasks run concurrently, system-wide.
    pub max_concurrent_channels: usize,
}

/// Envelope allowance: a chunk request additionally carries the
/// transfer key, permissions, paths and framing overhead.
pub const CHUNK_ENVELOPE_ALLOWANCE: usize = 65536;

impl TransportTuning {
    /// A tuning is sane when chunks are non-empty and fit into one
    /// frame together with their envelope, and at least one channel
    /// may run.
    pub open spec fn wf(self) -> bool {
        &&& self.chunk_size >= 1
        &&& self.chunk_size + CHUNK_ENVELOPE_ALLOWANCE <= self.max_frame_length
        &&& self.max_channels_per_peer >= 1
        &&& self.max_concurrent_channels >= 1
    }

    /// The recommended tuning: 5 MiB chunks, 64 MiB frames, one
    /// channel per peer, ten concurrent channels.
    pub fn recommended() -> (r: TransportTuning)
        ensures
            r.wf(),
            r.max_frame_length == 67108864,
            r.chunk_size == 5242880,
            r.max_channels_per_peer == 1,
            r.max_concurrent_channels == 10,
    {
        TransportTuning {
            max_frame_length: 67108864,
            chunk_size: 5242880,
            max_channels_per_peer: 1,
            max_concurrent_channels: 10,
        }
    }
}

} // verus!
