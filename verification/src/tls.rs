//! The relay's TLS identity and server configuration: a stored certificate
//! and key where both were found, a fresh self-signed pair otherwise.

use vstd::prelude::*;

verus! {

/// `quinn::ServerConfig`: the QUIC server configuration built from the
/// identity. The library only builds and hands it out.
#[verifier::external_type_specification]
#[verifier::external_body]
pub struct ExServerConfig(quinn::ServerConfig);

/// `rcgen::generate_simple_self_signed`: a fresh key pair and a certificate
/// self-signed with it for `subject_alt_names`, answered as the
/// certificate's DER and the key's PKCS#8 DER, or `None` where rcgen reports
/// an error. The key is random, so nothing is stated of the pair.
#[verifier::external_body]
fn generate_self_signed(subject_alt_names: Vec<String>) -> (r: Option<(Vec<u8>, Vec<u8>)>) {
    match rcgen::generate_simple_self_signed(subject_alt_names) {
        Ok(certified) => Some((certified.cert.der().to_vec(), certified.signing_key.serialize_der())),
        Err(_) => None,
    }
}

/// Whether `quinn::ServerConfig::with_single_cert` accepts this certificate
/// (DER) and PKCS#8 key (DER): rustls, with the *ring* provider, takes it
/// where the key parses and its public key matches the certificate's.
pub uninterp spec fn identity_accepted(cert_der: Seq<u8>, key_pkcs8_der: Seq<u8>) -> bool;

/// `quinn::ServerConfig::with_single_cert` on one certificate (DER) and its
/// PKCS#8 key (DER), or `None` where it reports an error. Whether it succeeds
/// depends on the two byte strings alone, and is named `identity_accepted`.
/// The configuration itself holds a random handshake-token key, so nothing
/// more is stated of it.
#[verifier::external_body]
fn server_config_from_der(cert_der: Vec<u8>, key_pkcs8_der: Vec<u8>) -> (r: Option<quinn::ServerConfig>)
    ensures
        r is Some <==> identity_accepted(cert_der@, key_pkcs8_der@),
{
    quinn::ServerConfig::with_single_cert(
        vec![rustls::pki_types::CertificateDer::from(cert_der)],
        rustls::pki_types::PrivateKeyDer::Pkcs8(key_pkcs8_der.into()),
    ).ok()
}

/// The names a generated certificate is made for.
fn certificate_names() -> (r: Vec<String>)
    ensures
        r@.len() == 1,
        r@[0]@ == "localhost"@,
{
    let mut names: Vec<String> = Vec::new();
    names.push(String::from_str("localhost"));
    names
}

/// The identity to serve, as `(certificate DER, PKCS#8 key DER, generated)`.
/// Where a stored certificate and key were both found they are answered
/// unchanged and nothing is to be written; otherwise a fresh self-signed
/// pair for the names of `certificate_names` ("localhost") is made, and it
/// is to be written.
pub fn load_or_generate_certificate(stored: Option<(Vec<u8>, Vec<u8>)>) -> (r: Result<(Vec<u8>, Vec<u8>, bool), &'static str>)
    ensures
        stored matches Some((cert, key)) ==> r matches Ok((c, k, generated)) && c@ == cert@ && k@ == key@ && !generated,
        stored is None ==> (r matches Ok((_, _, generated)) && generated) || r == Err::<(Vec<u8>, Vec<u8>, bool), &'static str>(
            "failed to generate certificate",
        ),
{
    match stored {
        Some((cert, key)) => Ok((cert, key, false)),
        None => {
            let names = certificate_names();
            match generate_self_signed(names) {
                Some((cert, key)) => Ok((cert, key, true)),
                None => Err("failed to generate certificate"),
            }
        },
    }
}

/// The QUIC server configuration for `cert` and `key`, with the pair to
/// write back where it was generated. It succeeds exactly where
/// `with_single_cert` accepts the pair.
pub fn configure_identity(cert: Vec<u8>, key: Vec<u8>, generated: bool) -> (r: Result<(quinn::ServerConfig, Option<(Vec<u8>, Vec<u8>)>), &'static str>)
    ensures
        r is Ok <==> identity_accepted(cert@, key@),
        r matches Ok((_, to_write)) ==> if generated {
            to_write matches Some((c, k)) && c@ == cert@ && k@ == key@
        } else {
            to_write is None
        },
        r matches Err(e) ==> e == "failed to create server config",
{
    let to_write = if generated {
        Some((cert.clone(), key.clone()))
    } else {
        None
    };
    match server_config_from_der(cert, key) {
        Some(config) => Ok((config, to_write)),
        None => Err("failed to create server config"),
    }
}

/// The QUIC server configuration for the identity that
/// `load_or_generate_certificate` chooses, with the certificate and key to
/// write back where that identity was generated. A stored identity is
/// served exactly where `with_single_cert` accepts it; a generated one is
/// handed back only where it was accepted, so that, written and read back,
/// it is served again.
pub fn make_server_config(stored: Option<(Vec<u8>, Vec<u8>)>) -> (r: Result<(quinn::ServerConfig, Option<(Vec<u8>, Vec<u8>)>), &'static str>)
    ensures
        stored matches Some((c, k)) ==> match r {
            Ok((_, to_write)) => to_write is None && identity_accepted(c@, k@),
            Err(e) => e == "failed to create server config" && !identity_accepted(c@, k@),
        },
        stored is None ==> match r {
            Ok((_, to_write)) => to_write matches Some((c, k)) && identity_accepted(c@, k@),
            Err(e) => e == "failed to generate certificate" || e == "failed to create server config",
        },
{
    let (cert, key, generated) = load_or_generate_certificate(stored)?;
    configure_identity(cert, key, generated)
}

} // verus!
