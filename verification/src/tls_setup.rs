//! What the two ends of an authenticated connection are set up with.

use std::sync::Arc;

use vstd::prelude::*;

verus! {

/// `rustls::RootCertStore`, the roots that a client trusts.
#[verifier::external_type_specification]
#[verifier::external_body]
pub struct ExRootCertStore(rustls::RootCertStore);

/// `rustls::ClientConfig`, the settings of a client.
#[verifier::external_type_specification]
#[verifier::external_body]
pub struct ExClientConfig(rustls::ClientConfig);

/// `rustls::ServerConfig`, the settings of a server.
#[verifier::external_type_specification]
#[verifier::external_body]
pub struct ExServerConfig(rustls::ServerConfig);

/// `rustls::Error`, why settings were refused.
#[verifier::external_type_specification]
#[verifier::external_body]
pub struct ExTlsError(rustls::Error);

/// A root that a client trusts: the subject, its public key, and the names to which it is held.
pub type Anchor = (Seq<u8>, Seq<u8>, Option<Seq<u8>>);

/// The root that a certificate stands for, by `rustls::RootCertStore::add`. None where it refuses
/// the certificate.
pub uninterp spec fn anchor_of(der: Seq<u8>) -> Option<(Seq<u8>, Seq<u8>, Option<Seq<u8>>)>;

/// The roots that a store holds, in the order in which they were added.
pub uninterp spec fn store_roots(store: rustls::RootCertStore) -> Seq<
    (Seq<u8>, Seq<u8>, Option<Seq<u8>>),
>;

/// Whether a server can prove itself with the certificate and the private key, by
/// `rustls::ConfigBuilder::with_single_cert`: the key is one that can sign, and the certificate is
/// not one for another key.
pub uninterp spec fn identity_accepted(cert: Seq<u8>, key: Seq<u8>) -> bool;

/// The roots that a client with these settings trusts, by the `rustls::RootCertStore` that was
/// handed to `rustls::ConfigBuilder::with_root_certificates`.
pub uninterp spec fn client_roots(config: rustls::ClientConfig) -> Seq<
    (Seq<u8>, Seq<u8>, Option<Seq<u8>>),
>;

/// Whether a client with these settings tells the server which name it wants to reach: the field
/// `rustls::ClientConfig::enable_sni`.
pub uninterp spec fn client_sni(config: rustls::ClientConfig) -> bool;

/// The protocols that a server with these settings offers above the connection, the one that it
/// likes best first: the field `rustls::ServerConfig::alpn_protocols`.
pub uninterp spec fn server_alpn(config: rustls::ServerConfig) -> Seq<Seq<u8>>;

/// The certificate and the private key with which a server with these settings proves itself, by
/// `rustls::ConfigBuilder::with_single_cert`.
pub uninterp spec fn server_identity(config: rustls::ServerConfig) -> (Seq<u8>, Seq<u8>);

/// Why an end of a connection could not be set up.
#[derive(Debug, Clone, Copy, PartialEq, Eq, Structural)]
pub enum TlsFault {
    /// The root is no certificate that can be trusted.
    BadRoot,
    /// The certificate and the key do not make an identity.
    BadIdentity,
}

/// `rustls::RootCertStore::empty`: a store without roots.
#[verifier::external_body]
fn empty_store() -> (r: rustls::RootCertStore)
    ensures
        store_roots(r) == Seq::<Anchor>::empty(),
{
    rustls::RootCertStore::empty()
}

/// `rustls::RootCertStore::add`: puts the root that a certificate stands for behind the others, or
/// leaves the store as it was where it refuses the certificate.
#[verifier::external_body]
fn add_root(store: &mut rustls::RootCertStore, der: &Vec<u8>) -> (r: Result<(), rustls::Error>)
    ensures
        match r {
            Ok(_) => anchor_of(der@) is Some && store_roots(*final(store)) == store_roots(
                *old(store),
            ).push(anchor_of(der@).unwrap()),
            Err(_) => anchor_of(der@) is None && store_roots(*final(store)) == store_roots(
                *old(store),
            ),
        },
{
    store.add(rustls::pki_types::CertificateDer::from(der.as_slice()))
}

/// `rustls::RootCertStore::len`: the number of roots.
#[verifier::external_body]
fn count_roots(store: &rustls::RootCertStore) -> (r: usize)
    ensures
        r == store_roots(*store).len(),
{
    store.len()
}

/// A client of authenticated connections.
pub struct TlsClient {
    config: Arc<rustls::ClientConfig>,
    roots: rustls::RootCertStore,
    sni: bool,
}

impl TlsClient {
    /// The roots and the choice that the client remembers are those of its settings.
    #[verifier::type_invariant]
    spec fn remembers_settings(self) -> bool {
        &&& client_roots(*self.config) == store_roots(self.roots)
        &&& client_sni(*self.config) == self.sni
    }

    /// The settings of the client.
    pub closed spec fn settings(&self) -> Arc<rustls::ClientConfig> {
        self.config
    }

    /// The roots that the client trusts.
    pub open spec fn trusted(&self) -> Seq<Anchor> {
        client_roots(*self.settings())
    }

    /// Whether the client tells the server which name it wants to reach.
    pub open spec fn names_server(&self) -> bool {
        client_sni(*self.settings())
    }

    /// A client that trusts the root that a certificate stands for, and no other.
    pub fn new(root: &Vec<u8>, sni: bool) -> (r: Result<TlsClient, TlsFault>)
        ensures
            match r {
                Ok(client) => anchor_of(root@) is Some && client.trusted() == seq![
                    anchor_of(root@).unwrap(),
                ] && client.names_server() == sni,
                Err(fault) => anchor_of(root@) is None && fault == TlsFault::BadRoot,
            },
    {
        let mut roots = empty_store();
        match add_root(&mut roots, root) {
            Ok(_) => {},
            Err(_) => return Err(TlsFault::BadRoot),
        }
        assert(store_roots(roots) =~= seq![anchor_of(root@).unwrap()]);
        let config = Arc::new(build_client(&roots, sni));
        Ok(TlsClient { config, roots, sni })
    }

    /// How many roots the client trusts.
    pub fn count_trusted(&self) -> (r: usize)
        ensures
            r == self.trusted().len(),
    {
        proof {
            use_type_invariant(self);
        }
        count_roots(&self.roots)
    }

    /// Whether the client tells the server which name it wants to reach.
    pub fn sends_name(&self) -> (r: bool)
        ensures
            r == self.names_server(),
    {
        proof {
            use_type_invariant(self);
        }
        self.sni
    }

    /// The settings of the client, to be shared by its connections.
    pub fn config(&self) -> (r: Arc<rustls::ClientConfig>)
        ensures
            r == self.settings(),
    {
        self.config.clone()
    }
}

/// `rustls::ClientConfig::builder_with_provider` with the algorithms of `ring`, the protocol
/// versions that are safe by default, a copy of these roots and no identity of the client, then the
/// field `enable_sni` as it is wished: a client with these settings trusts just these roots, and
/// names the server or not. The algorithms of `ring` serve those versions, so that the settings are
/// never refused.
#[verifier::external_body]
fn build_client(roots: &rustls::RootCertStore, sni: bool) -> (r: rustls::ClientConfig)
    ensures
        client_roots(r) == store_roots(*roots),
        client_sni(r) == sni,
{
    let provider = Arc::new(rustls::crypto::ring::default_provider());
    let mut config = rustls::ClientConfig::builder_with_provider(provider)
        .with_safe_default_protocol_versions()
        .unwrap()
        .with_root_certificates(roots.clone())
        .with_no_client_auth();
    config.enable_sni = sni;
    config
}

/// What a list of protocols holds.
pub open spec fn protocol_names(alpn: Seq<Vec<u8>>) -> Seq<Seq<u8>> {
    alpn.map_values(|protocol: Vec<u8>| protocol@)
}

/// A server of authenticated connections.
pub struct TlsServer {
    config: Arc<rustls::ServerConfig>,
    alpn: Vec<Vec<u8>>,
}

impl TlsServer {
    /// The protocols that the server remembers are those of its settings.
    #[verifier::type_invariant]
    spec fn remembers_settings(self) -> bool {
        server_alpn(*self.config) == protocol_names(self.alpn@)
    }

    /// The settings of the server.
    pub closed spec fn settings(&self) -> Arc<rustls::ServerConfig> {
        self.config
    }

    /// The protocols that the server offers above the connection.
    pub open spec fn offers(&self) -> Seq<Seq<u8>> {
        server_alpn(*self.settings())
    }

    /// The certificate and the private key with which the server proves itself.
    pub open spec fn proves(&self) -> (Seq<u8>, Seq<u8>) {
        server_identity(*self.settings())
    }

    /// A server that proves itself with a certificate and its private key.
    pub fn new(cert: &Vec<u8>, key: &Vec<u8>, alpn: Vec<Vec<u8>>) -> (r: Result<
        TlsServer,
        TlsFault,
    >)
        ensures
            match r {
                Ok(server) => {
                    &&& identity_accepted(cert@, key@)
                    &&& server.proves() == (cert@, key@)
                    &&& server.offers() == protocol_names(alpn@)
                },
                Err(fault) => !identity_accepted(cert@, key@) && fault == TlsFault::BadIdentity,
            },
    {
        match build_server(cert, key, &alpn) {
            Ok(config) => Ok(TlsServer { config: Arc::new(config), alpn }),
            Err(_) => Err(TlsFault::BadIdentity),
        }
    }

    /// The protocols that the server offers above the connection.
    pub fn protocols(&self) -> (r: &Vec<Vec<u8>>)
        ensures
            protocol_names(r@) == self.offers(),
    {
        proof {
            use_type_invariant(self);
        }
        &self.alpn
    }

    /// The settings of the server, to be shared by its connections.
    pub fn config(&self) -> (r: Arc<rustls::ServerConfig>)
        ensures
            r == self.settings(),
    {
        self.config.clone()
    }
}

/// `rustls::ServerConfig::builder_with_provider` with the algorithms of `ring`, the protocol
/// versions that are safe by default, no identity of clients and `with_single_cert` for this
/// identity, then the field `alpn_protocols` as a copy of these protocols. It fails where the
/// identity is refused; else a server with these settings proves itself with this identity, and
/// offers these protocols. The algorithms of `ring` serve those versions, so that nothing else is
/// refused.
#[verifier::external_body]
fn build_server(cert: &Vec<u8>, key: &Vec<u8>, alpn: &Vec<Vec<u8>>) -> (r: Result<
    rustls::ServerConfig,
    rustls::Error,
>)
    ensures
        match r {
            Ok(config) => {
                &&& identity_accepted(cert@, key@)
                &&& server_identity(config) == (cert@, key@)
                &&& server_alpn(config) == alpn@.map_values(|protocol: Vec<u8>| protocol@)
            },
            Err(_) => !identity_accepted(cert@, key@),
        },
{
    let cert = rustls::pki_types::CertificateDer::from(cert.clone());
    let key = rustls::pki_types::PrivatePkcs8KeyDer::from(key.clone());
    let provider = Arc::new(rustls::crypto::ring::default_provider());
    let mut config = rustls::ServerConfig::builder_with_provider(provider)
        .with_safe_default_protocol_versions()
        .unwrap()
        .with_no_client_auth()
        .with_single_cert(vec![cert], key.into())?;
    config.alpn_protocols = alpn.clone();
    Ok(config)
}

} // verus!
