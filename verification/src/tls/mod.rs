//! The TLS identity of the listener that clients connect to.

use rustls::pki_types::{CertificateDer, PrivateKeyDer};
use rustls::ServerConfig;
use std::sync::Arc;
use tokio_rustls::TlsAcceptor;
use vstd::prelude::*;

use crate::words::says;

verus! {

/// The TLS settings. The certificate chain and the private key of the listener are kept as PEM files.
#[derive(Debug, Clone)]
pub struct TlsConfig {
    pub enabled: bool,
    pub cert_path: String,
    pub key_path: String,
    pub require_tls: bool,
    pub upstream_tls: bool,
}

/// A certificate of the `rustls` crate; it is carried through.
#[verifier::external_type_specification]
#[verifier::external_body]
pub struct ExCertificateDer<'a>(CertificateDer<'a>);

/// A private key of the `rustls` crate; it is carried through.
#[verifier::external_type_specification]
#[verifier::external_body]
pub struct ExPrivateKeyDer<'a>(PrivateKeyDer<'a>);

/// The server configuration of the `rustls` crate, opaque but for [`settings_of`].
#[verifier::external_type_specification]
#[verifier::external_body]
pub struct ExServerConfig(ServerConfig);

/// The error of the `rustls` crate; it is carried through to the caller.
#[verifier::external_type_specification]
#[verifier::external_body]
pub struct ExTlsError(rustls::Error);

/// The acceptor of the `tokio-rustls` crate, opaque but for [`config_of`].
#[verifier::external_type_specification]
#[verifier::external_body]
pub struct ExTlsAcceptor(TlsAcceptor);

/// What `rustls_pemfile::certs` finds in a PEM file, in order: its certificates, and for each section
/// that cannot be read the words of the error.
pub uninterp spec fn pem_certs(pem: Seq<u8>) -> Seq<Result<CertificateDer<'static>, Seq<char>>>;

/// What `rustls_pemfile::private_key` finds in a PEM file: its first private key if it has one, or the
/// words of the error where a section before that cannot be read.
pub uninterp spec fn pem_private_key(pem: Seq<u8>) -> Result<
    Option<PrivateKeyDer<'static>>,
    Seq<char>,
>;

/// What a server configuration was made with.
pub struct Settings {
    /// Whether clients are asked for a certificate.
    pub client_auth: bool,
    /// The certificates that the server shows.
    pub chain: Seq<CertificateDer<'static>>,
    /// The private key of the first of them.
    pub key: PrivateKeyDer<'static>,
}

/// What a server configuration was made with.
pub uninterp spec fn settings_of(config: ServerConfig) -> Settings;

/// The configuration by which an acceptor answers clients.
pub uninterp spec fn config_of(acceptor: TlsAcceptor) -> ServerConfig;

/// Whether the sections that were found are these certificates, and errors of these words.
pub open spec fn found_as(
    sections: Seq<Result<CertificateDer<'static>, std::io::Error>>,
    named: Seq<Result<CertificateDer<'static>, Seq<char>>>,
) -> bool {
    &&& sections.len() == named.len()
    &&& forall|i: int|
        0 <= i < named.len() ==> match (#[trigger] sections[i], named[i]) {
            (Ok(cert), Ok(other)) => cert == other,
            (Err(error), Err(words)) => says(error, words),
            _ => false,
        }
}

/// `rustls_pemfile::certs`: the certificates of a PEM file in order, with an error for each section
/// that cannot be read.
#[verifier::external_body]
pub(crate) fn certs(pem: &[u8]) -> (sections: Vec<
    Result<CertificateDer<'static>, std::io::Error>,
>)
    ensures
        found_as(sections@, pem_certs(pem@)),
{
    let mut pem: &[u8] = pem;
    rustls_pemfile::certs(&mut pem).collect()
}

/// `rustls_pemfile::private_key`: the first private key of a PEM file.
#[verifier::external_body]
pub(crate) fn private_key(pem: &[u8]) -> (result: Result<
    Option<PrivateKeyDer<'static>>,
    std::io::Error,
>)
    ensures
        match pem_private_key(pem@) {
            Ok(key) => result matches Ok(found) && found == key,
            Err(words) => result matches Err(error) && says(error, words),
        },
{
    let mut pem: &[u8] = pem;
    rustls_pemfile::private_key(&mut pem)
}

/// `ServerConfig::builder`, `with_no_client_auth` and `with_single_cert`: a configuration that asks
/// clients for no certificate and shows this chain. Whether the key is accepted is up to the
/// cryptography provider of the process, and not stated. The crate features name exactly one
/// provider; without one in the process `builder` would panic.
#[verifier::external_body]
pub(crate) fn single_cert_config(
    chain: Vec<CertificateDer<'static>>,
    key: PrivateKeyDer<'static>,
) -> (result: Result<ServerConfig, rustls::Error>)
    ensures
        result matches Ok(config) ==> settings_of(config) == plain_settings(chain@, key),
{
    ServerConfig::builder().with_no_client_auth().with_single_cert(chain, key)
}

/// The settings of a server that asks clients for no certificate.
pub open spec fn plain_settings(
    chain: Seq<CertificateDer<'static>>,
    key: PrivateKeyDer<'static>,
) -> Settings {
    Settings { client_auth: false, chain, key }
}

/// `TlsAcceptor::from`: the acceptor answers by the given configuration.
#[verifier::external_body]
pub(crate) fn acceptor_from(config: Arc<ServerConfig>) -> (acceptor: TlsAcceptor)
    ensures
        config_of(acceptor) == *config,
{
    TlsAcceptor::from(config)
}

/// Why the listener has no TLS identity.
#[derive(Debug)]
pub enum TlsError {
    /// The path of the certificates or of the key is empty.
    PathsNotSet,
    /// The certificates cannot be read.
    Certificates(std::io::Error),
    /// The key cannot be read.
    PrivateKey(std::io::Error),
    /// The key file holds no private key.
    NoPrivateKey,
    /// The key is not accepted for the certificates.
    ServerConfig(rustls::Error),
}

impl TlsError {
    /// The words for the error. Those of the outside error behind it, where there is one, are not
    /// among them.
    pub open spec fn text(self) -> Seq<char> {
        match self {
            TlsError::PathsNotSet => "TLS enabled but cert_path or key_path not set"@,
            TlsError::Certificates(_) => "Parsing TLS certificates"@,
            TlsError::PrivateKey(_) => "Parsing TLS private key"@,
            TlsError::NoPrivateKey => "No private key found in key file"@,
            TlsError::ServerConfig(_) => "Building TLS server config"@,
        }
    }

    /// The error in words, without those of the outside error behind it.
    pub fn message(&self) -> (text: &'static str)
        ensures
            text@ == self.text(),
    {
        match self {
            TlsError::PathsNotSet => "TLS enabled but cert_path or key_path not set",
            TlsError::Certificates(_) => "Parsing TLS certificates",
            TlsError::PrivateKey(_) => "Parsing TLS private key",
            TlsError::NoPrivateKey => "No private key found in key file",
            TlsError::ServerConfig(_) => "Building TLS server config",
        }
    }
}

impl TlsConfig {
    /// Whether both paths are given.
    pub open spec fn is_set(self) -> bool {
        self.cert_path@.len() > 0 && self.key_path@.len() > 0
    }

    /// Fails where a path is missing.
    pub fn check_paths(&self) -> (result: Result<(), TlsError>)
        ensures
            result is Ok <==> self.is_set(),
            result matches Err(error) ==> error is PathsNotSet,
    {
        if self.cert_path.as_str().is_empty() || self.key_path.as_str().is_empty() {
            Err(TlsError::PathsNotSet)
        } else {
            Ok(())
        }
    }
}

/// All certificates in order, or the first error.
pub open spec fn joined<C, E>(sections: Seq<Result<C, E>>) -> Result<Seq<C>, E>
    decreases sections.len(),
{
    if sections.len() == 0 {
        Ok(seq![])
    } else {
        match (joined(sections.drop_last()), sections.last()) {
            (Err(error), _) => Err(error),
            (Ok(_), Err(error)) => Err(error),
            (Ok(chain), Ok(cert)) => Ok(chain.push(cert)),
        }
    }
}

/// What follows an error makes no difference.
proof fn lemma_first_error<C, E>(sections: Seq<Result<C, E>>, count: int)
    requires
        0 <= count <= sections.len(),
        joined(sections.take(count)) is Err,
    ensures
        joined(sections) == joined(sections.take(count)),
    decreases sections.len(),
{
    if count == sections.len() {
        assert(sections.take(count) =~= sections);
    } else {
        assert(sections.drop_last().take(count) =~= sections.take(count));
        lemma_first_error(sections.drop_last(), count);
    }
}

/// Certificates are joined where no section failed, every one of them and in order; else the first error
/// is what comes of them.
pub proof fn law_joined_whole<C, E>(sections: Seq<Result<C, E>>)
    ensures
        joined(sections) is Ok <==> (forall|i: int|
            0 <= i < sections.len() ==> (#[trigger] sections[i]) is Ok),
        joined(sections) matches Ok(chain) ==> chain.len() == sections.len() && forall|i: int|
            0 <= i < sections.len() ==> (#[trigger] sections[i]) == Ok::<C, E>(chain[i]),
        joined(sections) matches Err(error) ==> exists|i: int|
            0 <= i < sections.len() && (#[trigger] sections[i]) == Err::<C, E>(error) && forall|j: int|
                0 <= j < i ==> (#[trigger] sections[j]) is Ok,
    decreases sections.len(),
{
    if sections.len() > 0 {
        let earlier = sections.drop_last();
        law_joined_whole(earlier);
        assert(forall|i: int| 0 <= i < earlier.len() ==> (#[trigger] earlier[i]) == sections[i]);
        if let Err(error) = joined(earlier) {
            let i = choose|i: int|
                0 <= i < earlier.len() && (#[trigger] earlier[i]) == Err::<C, E>(error) && forall|
                    j: int,
                |
                    0 <= j < i ==> (#[trigger] earlier[j]) is Ok;
            assert(sections[i] == Err::<C, E>(error));
            assert forall|j: int| 0 <= j < i implies (#[trigger] sections[j]) is Ok by {
                assert(earlier[j] is Ok);
            }
        } else {
            assert forall|i: int| 0 <= i < earlier.len() implies (#[trigger] sections[i]) is Ok by {
                assert(earlier[i] is Ok);
            }
            assert(sections[sections.len() - 1] == sections.last());
            if joined(sections) is Ok {
                let chain = joined(sections)->Ok_0;
                assert forall|i: int| 0 <= i < sections.len() implies (#[trigger] sections[i]) == Ok::<
                    C,
                    E,
                >(chain[i]) by {
                    if i < earlier.len() {
                        assert(earlier[i] == Ok::<C, E>(joined(earlier)->Ok_0[i]));
                    }
                }
            }
        }
    }
}

/// What was found and its name join alike.
proof fn lemma_joined_alike(
    sections: Seq<Result<CertificateDer<'static>, std::io::Error>>,
    named: Seq<Result<CertificateDer<'static>, Seq<char>>>,
)
    requires
        found_as(sections, named),
    ensures
        match joined(named) {
            Ok(chain) => joined(sections) matches Ok(certs) && certs == chain,
            Err(words) => joined(sections) matches Err(error) && says(error, words),
        },
    decreases named.len(),
{
    if named.len() > 0 {
        let last = sections[named.len() - 1];
        assert forall|i: int| 0 <= i < named.drop_last().len() implies match (
            #[trigger] sections.drop_last()[i],
            named.drop_last()[i],
        ) {
            (Ok(cert), Ok(other)) => cert == other,
            (Err(error), Err(words)) => says(error, words),
            _ => false,
        } by {
            let section = sections[i];
        }
        lemma_joined_alike(sections.drop_last(), named.drop_last());
    }
}

/// Joins the certificates that were found in a PEM file. A section that could not be read fails them
/// all, with the first such error.
pub fn join_certificates(
    sections: Vec<Result<CertificateDer<'static>, std::io::Error>>,
) -> (result: Result<Vec<CertificateDer<'static>>, std::io::Error>)
    ensures
        match joined(sections@) {
            Ok(chain) => result matches Ok(certs) && certs@ == chain,
            Err(first) => result matches Err(error) && error == first,
        },
{
    let ghost all = sections@;
    let mut certs: Vec<CertificateDer<'static>> = Vec::new();
    for section in iter: sections
        invariant
            iter.seq() == all,
            joined(all.take(iter.index())) == Ok::<_, std::io::Error>(certs@),
    {
        proof {
            assert(all.take(iter.index() + 1).drop_last() =~= all.take(iter.index()));
        }
        match section {
            Ok(cert) => certs.push(cert),
            Err(error) => {
                proof {
                    lemma_first_error(all, iter.index() + 1);
                }
                return Err(error);
            },
        }
    }
    proof {
        assert(all.take(all.len() as int) =~= all);
    }
    Ok(certs)
}

/// Joins what the two PEM files were found to hold: the certificates, and a key, which has to be
/// there. The certificates are looked at first.
pub fn select_identity(
    certs: Result<Vec<CertificateDer<'static>>, std::io::Error>,
    key: Result<Option<PrivateKeyDer<'static>>, std::io::Error>,
) -> (result: Result<(Vec<CertificateDer<'static>>, PrivateKeyDer<'static>), TlsError>)
    ensures
        match (certs, key) {
            (Err(error), _) => result == Err::<
                (Vec<CertificateDer<'static>>, PrivateKeyDer<'static>),
                _,
            >(TlsError::Certificates(error)),
            (Ok(_), Err(error)) => result == Err::<
                (Vec<CertificateDer<'static>>, PrivateKeyDer<'static>),
                _,
            >(TlsError::PrivateKey(error)),
            (Ok(_), Ok(None)) => result matches Err(error) && error is NoPrivateKey,
            (Ok(chain), Ok(Some(found))) => result == Ok::<_, TlsError>((chain, found)),
        },
{
    let chain = match certs {
        Ok(chain) => chain,
        Err(error) => return Err(TlsError::Certificates(error)),
    };
    match key {
        Ok(Some(found)) => Ok((chain, found)),
        Ok(None) => Err(TlsError::NoPrivateKey),
        Err(error) => Err(TlsError::PrivateKey(error)),
    }
}

/// Makes an acceptor of the configuration, if there is one.
pub fn finish_acceptor(config: Result<ServerConfig, rustls::Error>) -> (result: Result<
    Arc<TlsAcceptor>,
    TlsError,
>)
    ensures
        match config {
            Ok(made) => result matches Ok(acceptor) && config_of(*acceptor) == made,
            Err(error) => result == Err::<Arc<TlsAcceptor>, _>(TlsError::ServerConfig(error)),
        },
{
    match config {
        Ok(made) => Ok(Arc::new(acceptor_from(Arc::new(made)))),
        Err(error) => Err(TlsError::ServerConfig(error)),
    }
}

/// What comes of the configuration and its two files. Past the files, only the cryptography provider of
/// the process decides: it accepts the key for the certificates, or the error is
/// [`TlsError::ServerConfig`].
pub open spec fn built(
    config: TlsConfig,
    cert_pem: Seq<u8>,
    key_pem: Seq<u8>,
    result: Result<Arc<TlsAcceptor>, TlsError>,
) -> bool {
    if !config.is_set() {
        result matches Err(error) && error is PathsNotSet
    } else {
        match (joined(pem_certs(cert_pem)), pem_private_key(key_pem)) {
            (Err(words), _) => result matches Err(TlsError::Certificates(error)) && says(
                error,
                words,
            ),
            (Ok(_), Err(words)) => result matches Err(TlsError::PrivateKey(error)) && says(
                error,
                words,
            ),
            (Ok(_), Ok(None)) => result matches Err(error) && error is NoPrivateKey,
            (Ok(chain), Ok(Some(key))) => match result {
                Ok(acceptor) => settings_of(config_of(*acceptor)) == plain_settings(chain, key),
                Err(error) => error is ServerConfig,
            },
        }
    }
}

/// An acceptor shows clients every certificate of the certificate file, in the order of the file, and
/// answers with the key that was found in the key file. It asks clients for no certificate.
pub proof fn law_acceptor_shows_whole_chain(
    config: TlsConfig,
    cert_pem: Seq<u8>,
    key_pem: Seq<u8>,
    result: Result<Arc<TlsAcceptor>, TlsError>,
)
    requires
        built(config, cert_pem, key_pem, result),
        result is Ok,
    ensures
        ({
            let settings = settings_of(config_of(*(result->Ok_0)));
            let sections = pem_certs(cert_pem);
            &&& settings.chain.len() == sections.len()
            &&& forall|i: int|
                0 <= i < sections.len() ==> (#[trigger] sections[i]) == Ok::<_, Seq<char>>(
                    settings.chain[i],
                )
            &&& pem_private_key(key_pem) matches Ok(Some(key)) && key == settings.key
            &&& !settings.client_auth
        }),
{
    law_joined_whole(pem_certs(cert_pem));
}

/// Each refusal comes exactly where it is due: an empty path, a section of the certificate file that
/// cannot be read, a key file that cannot be read, and one without a key, looked at in this order. A file
/// that cannot be read is refused with the words of its first error.
pub proof fn law_refusals(
    config: TlsConfig,
    cert_pem: Seq<u8>,
    key_pem: Seq<u8>,
    result: Result<Arc<TlsAcceptor>, TlsError>,
)
    requires
        built(config, cert_pem, key_pem, result),
    ensures
        ({
            let set = config.cert_path@.len() > 0 && config.key_path@.len() > 0;
            let readable = forall|i: int|
                0 <= i < pem_certs(cert_pem).len() ==> (#[trigger] pem_certs(cert_pem)[i]) is Ok;
            let key = pem_private_key(key_pem);
            &&& (result matches Err(TlsError::PathsNotSet)) <==> !set
            &&& (result matches Err(TlsError::Certificates(_))) <==> set && !readable
            &&& (result matches Err(TlsError::PrivateKey(_))) <==> set && readable && key is Err
            &&& (result matches Err(TlsError::NoPrivateKey)) <==> set && readable && key
                == Ok::<Option<PrivateKeyDer<'static>>, Seq<char>>(None)
        }),
        result matches Err(TlsError::Certificates(error)) ==> exists|i: int|
            0 <= i < pem_certs(cert_pem).len() && says(
                error,
                (#[trigger] pem_certs(cert_pem)[i])->Err_0,
            ) && pem_certs(cert_pem)[i] is Err && forall|j: int|
                0 <= j < i ==> (#[trigger] pem_certs(cert_pem)[j]) is Ok,
        result matches Err(TlsError::PrivateKey(error)) ==> (pem_private_key(key_pem) matches Err(words)
            && says(error, words)),
{
    let sections = pem_certs(cert_pem);
    law_joined_whole(sections);
    if let Err(words) = joined(sections) {
        let i = choose|i: int|
            0 <= i < sections.len() && (#[trigger] sections[i]) == Err::<
                CertificateDer<'static>,
                _,
            >(words) && forall|j: int| 0 <= j < i ==> (#[trigger] sections[j]) is Ok;
        assert(sections[i]->Err_0 == words);
    }
}

/// Each refusal has its own words, and those of an outside error are not among them.
pub proof fn law_refusal_words(error: TlsError)
    ensures
        error.text() == match error {
            TlsError::PathsNotSet => "TLS enabled but cert_path or key_path not set"@,
            TlsError::Certificates(_) => "Parsing TLS certificates"@,
            TlsError::PrivateKey(_) => "Parsing TLS private key"@,
            TlsError::NoPrivateKey => "No private key found in key file"@,
            TlsError::ServerConfig(_) => "Building TLS server config"@,
        },
{
}

/// Only the two paths and what the files hold count, as long as the cryptography provider decides alike:
/// the acceptor is made both times with the same settings, or fails both times with the same words.
pub proof fn law_only_paths_and_files_count(
    one: TlsConfig,
    other: TlsConfig,
    cert_pem: Seq<u8>,
    key_pem: Seq<u8>,
    result: Result<Arc<TlsAcceptor>, TlsError>,
    other_result: Result<Arc<TlsAcceptor>, TlsError>,
)
    requires
        one.cert_path@ == other.cert_path@,
        one.key_path@ == other.key_path@,
        built(one, cert_pem, key_pem, result),
        built(other, cert_pem, key_pem, other_result),
        result matches Err(TlsError::ServerConfig(_)) <==> other_result matches Err(
            TlsError::ServerConfig(_),
        ),
    ensures
        match (result, other_result) {
            (Ok(acceptor), Ok(same)) => settings_of(config_of(*acceptor)) == settings_of(
                config_of(*same),
            ),
            (Err(error), Err(same)) => error.text() == same.text(),
            _ => false,
        },
{
}

/// Build a TLS acceptor for client-facing connections, from what the two files of the configuration
/// hold.
pub fn build_server_tls_acceptor(
    config: &TlsConfig,
    cert_pem: &[u8],
    key_pem: &[u8],
) -> (result: Result<Arc<TlsAcceptor>, TlsError>)
    ensures
        built(*config, cert_pem@, key_pem@, result),
        result matches Ok(acceptor) ==> joined(pem_certs(cert_pem@)) == Ok::<_, Seq<char>>(
            settings_of(config_of(*acceptor)).chain,
        ),
{
    match config.check_paths() {
        Ok(_) => {},
        Err(error) => return Err(error),
    }
    let sections = certs(cert_pem);
    proof {
        lemma_joined_alike(sections@, pem_certs(cert_pem@));
    }
    match select_identity(join_certificates(sections), private_key(key_pem)) {
        Ok((chain, key)) => finish_acceptor(single_cert_config(chain, key)),
        Err(error) => Err(error),
    }
}

} // verus!
