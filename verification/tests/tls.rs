//! Authenticated connections, from the settings of both ends to the handshake between them.

use std::io::{Read, Write};
use std::sync::Arc;

use dns_pool::config::{IpAddress, NameServerConfig, Protocol, ResolverConfig, SocketAddress};
use dns_pool::encrypted::{
    https_acceptor, identity_case, is_supported, options, rejected, resolver, RefusalFault,
};
use dns_pool::error::{IoErrorKind, ProtoError, ProtoErrorKind};
use dns_pool::lookups::{query, LookupCheck};
use dns_pool::message::Message;
use dns_pool::record::RData;
use dns_pool::tls_exchange::{
    acceptor, config, frame, rejection, TestProvider, TlsServing, Want,
};
use dns_pool::tls_setup::{TlsClient, TlsFault, TlsServer};

/// The root that signed the identity.
const ROOT: [u8; 316] = [
    48, 130, 1, 56, 48, 129, 223, 160, 3, 2, 1, 2, 2, 1, 1, 48,
    10, 6, 8, 42, 134, 72, 206, 61, 4, 3, 2, 48, 18, 49, 16, 48,
    14, 6, 3, 85, 4, 3, 12, 7, 84, 101, 115, 116, 32, 67, 65, 48,
    30, 23, 13, 50, 48, 48, 49, 48, 49, 48, 48, 48, 48, 48, 48, 90,
    23, 13, 52, 53, 48, 49, 48, 49, 48, 48, 48, 48, 48, 48, 90, 48,
    18, 49, 16, 48, 14, 6, 3, 85, 4, 3, 12, 7, 84, 101, 115, 116,
    32, 67, 65, 48, 89, 48, 19, 6, 7, 42, 134, 72, 206, 61, 2, 1,
    6, 8, 42, 134, 72, 206, 61, 3, 1, 7, 3, 66, 0, 4, 12, 233,
    26, 77, 104, 250, 120, 225, 154, 76, 151, 147, 75, 124, 40, 139, 79, 83,
    148, 80, 176, 111, 228, 40, 81, 194, 73, 215, 234, 235, 117, 231, 91, 182,
    94, 56, 12, 41, 144, 12, 90, 184, 58, 0, 187, 248, 4, 143, 252, 222,
    122, 124, 157, 80, 7, 207, 198, 243, 72, 77, 171, 105, 221, 15, 163, 38,
    48, 36, 48, 18, 6, 3, 85, 29, 19, 1, 1, 255, 4, 8, 48, 6,
    1, 1, 255, 2, 1, 0, 48, 14, 6, 3, 85, 29, 15, 1, 1, 255,
    4, 4, 3, 2, 1, 6, 48, 10, 6, 8, 42, 134, 72, 206, 61, 4,
    3, 2, 3, 72, 0, 48, 69, 2, 32, 71, 155, 177, 227, 154, 61, 97,
    217, 222, 25, 75, 60, 71, 194, 145, 172, 83, 166, 89, 83, 11, 179, 31,
    179, 180, 19, 177, 59, 221, 169, 23, 100, 2, 33, 0, 227, 60, 252, 81,
    125, 229, 112, 171, 234, 111, 134, 183, 141, 219, 41, 60, 97, 44, 145, 106,
    252, 224, 192, 150, 31, 186, 230, 116, 232, 176, 18, 2,
];

/// A root of the same name with another key.
const OTHER_ROOT: [u8; 317] = [
    48, 130, 1, 57, 48, 129, 223, 160, 3, 2, 1, 2, 2, 1, 1, 48,
    10, 6, 8, 42, 134, 72, 206, 61, 4, 3, 2, 48, 18, 49, 16, 48,
    14, 6, 3, 85, 4, 3, 12, 7, 84, 101, 115, 116, 32, 67, 65, 48,
    30, 23, 13, 50, 48, 48, 49, 48, 49, 48, 48, 48, 48, 48, 48, 90,
    23, 13, 52, 53, 48, 49, 48, 49, 48, 48, 48, 48, 48, 48, 90, 48,
    18, 49, 16, 48, 14, 6, 3, 85, 4, 3, 12, 7, 84, 101, 115, 116,
    32, 67, 65, 48, 89, 48, 19, 6, 7, 42, 134, 72, 206, 61, 2, 1,
    6, 8, 42, 134, 72, 206, 61, 3, 1, 7, 3, 66, 0, 4, 252, 183,
    191, 169, 55, 220, 139, 216, 162, 213, 75, 26, 197, 99, 220, 107, 125, 239,
    94, 36, 92, 49, 225, 122, 85, 42, 138, 224, 12, 158, 89, 244, 243, 242,
    50, 3, 246, 25, 44, 148, 179, 62, 197, 242, 122, 36, 154, 108, 202, 157,
    110, 24, 47, 106, 35, 66, 56, 164, 83, 15, 159, 26, 240, 113, 163, 38,
    48, 36, 48, 18, 6, 3, 85, 29, 19, 1, 1, 255, 4, 8, 48, 6,
    1, 1, 255, 2, 1, 0, 48, 14, 6, 3, 85, 29, 15, 1, 1, 255,
    4, 4, 3, 2, 1, 6, 48, 10, 6, 8, 42, 134, 72, 206, 61, 4,
    3, 2, 3, 73, 0, 48, 70, 2, 33, 0, 153, 207, 137, 76, 162, 34,
    113, 209, 204, 109, 227, 239, 170, 0, 76, 103, 140, 229, 193, 17, 181, 213,
    60, 225, 254, 192, 67, 156, 36, 32, 221, 4, 2, 33, 0, 131, 104, 73,
    52, 145, 9, 192, 95, 46, 154, 64, 62, 57, 40, 150, 84, 131, 248, 86,
    207, 233, 138, 217, 92, 1, 189, 65, 113, 147, 153, 210, 25,
];

/// The certificate of `ns.example.test` and of 127.0.0.1.
const CERT: [u8; 374] = [
    48, 130, 1, 114, 48, 130, 1, 24, 160, 3, 2, 1, 2, 2, 1, 2,
    48, 10, 6, 8, 42, 134, 72, 206, 61, 4, 3, 2, 48, 18, 49, 16,
    48, 14, 6, 3, 85, 4, 3, 12, 7, 84, 101, 115, 116, 32, 67, 65,
    48, 30, 23, 13, 50, 48, 48, 49, 48, 49, 48, 48, 48, 48, 48, 48,
    90, 23, 13, 52, 53, 48, 49, 48, 49, 48, 48, 48, 48, 48, 48, 90,
    48, 26, 49, 24, 48, 22, 6, 3, 85, 4, 3, 12, 15, 110, 115, 46,
    101, 120, 97, 109, 112, 108, 101, 46, 116, 101, 115, 116, 48, 89, 48, 19,
    6, 7, 42, 134, 72, 206, 61, 2, 1, 6, 8, 42, 134, 72, 206, 61,
    3, 1, 7, 3, 66, 0, 4, 248, 130, 26, 234, 185, 251, 13, 163, 50,
    118, 238, 150, 87, 82, 120, 157, 180, 224, 154, 111, 97, 220, 217, 73, 25,
    181, 1, 146, 122, 70, 222, 104, 171, 126, 197, 251, 151, 228, 101, 200, 252,
    217, 211, 120, 117, 104, 73, 84, 215, 219, 224, 179, 162, 156, 31, 81, 131,
    170, 254, 176, 127, 142, 151, 83, 163, 87, 48, 85, 48, 12, 6, 3, 85,
    29, 19, 1, 1, 255, 4, 2, 48, 0, 48, 14, 6, 3, 85, 29, 15,
    1, 1, 255, 4, 4, 3, 2, 7, 128, 48, 19, 6, 3, 85, 29, 37,
    4, 12, 48, 10, 6, 8, 43, 6, 1, 5, 5, 7, 3, 1, 48, 32,
    6, 3, 85, 29, 17, 4, 25, 48, 23, 130, 15, 110, 115, 46, 101, 120,
    97, 109, 112, 108, 101, 46, 116, 101, 115, 116, 135, 4, 127, 0, 0, 1,
    48, 10, 6, 8, 42, 134, 72, 206, 61, 4, 3, 2, 3, 72, 0, 48,
    69, 2, 32, 71, 65, 210, 64, 156, 121, 48, 224, 41, 119, 227, 14, 177,
    217, 111, 189, 100, 171, 48, 206, 99, 225, 189, 122, 230, 200, 234, 84, 95,
    24, 109, 211, 2, 33, 0, 137, 92, 54, 217, 246, 187, 42, 192, 179, 80,
    90, 173, 24, 20, 203, 171, 105, 211, 200, 101, 73, 19, 104, 254, 89, 197,
    138, 16, 15, 176, 104, 26,
];

/// The key of the certificate, made up for these tests.
const KEY: [u8; 138] = [
    48, 129, 135, 2, 1, 0, 48, 19, 6, 7, 42, 134, 72, 206, 61, 2,
    1, 6, 8, 42, 134, 72, 206, 61, 3, 1, 7, 4, 109, 48, 107, 2,
    1, 1, 4, 32, 187, 232, 149, 52, 63, 98, 9, 87, 142, 35, 82, 188,
    98, 68, 129, 63, 31, 42, 57, 92, 34, 113, 46, 129, 147, 190, 171, 109,
    64, 27, 33, 43, 161, 68, 3, 66, 0, 4, 248, 130, 26, 234, 185, 251,
    13, 163, 50, 118, 238, 150, 87, 82, 120, 157, 180, 224, 154, 111, 97, 220,
    217, 73, 25, 181, 1, 146, 122, 70, 222, 104, 171, 126, 197, 251, 151, 228,
    101, 200, 252, 217, 211, 120, 117, 104, 73, 84, 215, 219, 224, 179, 162, 156,
    31, 81, 131, 170, 254, 176, 127, 142, 151, 83,
];

/// A key for which there is no certificate, made up for these tests.
const OTHER_KEY: [u8; 138] = [
    48, 129, 135, 2, 1, 0, 48, 19, 6, 7, 42, 134, 72, 206, 61, 2,
    1, 6, 8, 42, 134, 72, 206, 61, 3, 1, 7, 4, 109, 48, 107, 2,
    1, 1, 4, 32, 48, 66, 98, 170, 248, 122, 177, 165, 39, 19, 151, 130,
    27, 101, 71, 159, 74, 186, 69, 90, 82, 130, 165, 27, 31, 249, 246, 112,
    122, 49, 82, 116, 161, 68, 3, 66, 0, 4, 235, 25, 202, 202, 87, 193,
    73, 253, 234, 73, 72, 137, 10, 174, 156, 18, 47, 153, 47, 71, 72, 66,
    90, 68, 220, 116, 161, 54, 187, 209, 1, 159, 106, 208, 31, 114, 205, 110,
    107, 32, 118, 180, 172, 169, 146, 178, 229, 217, 131, 212, 66, 248, 56, 53,
    149, 182, 26, 248, 65, 93, 186, 36, 229, 42,
];

fn address() -> SocketAddress {
    SocketAddress { ip: IpAddress::V4(0x7f00_0001), port: 853 }
}

/// Carries what one end has to say to the other. Gives the error with which it is heard, if any.
fn carry<A, B>(
    from: &mut rustls::ConnectionCommon<A>,
    to: &mut rustls::ConnectionCommon<B>,
) -> Option<String> {
    let mut wire: Vec<u8> = Vec::new();
    while from.wants_write() {
        from.write_tls(&mut wire).unwrap();
    }
    let mut rest: &[u8] = &wire;
    let mut heard = None;
    while !rest.is_empty() {
        to.read_tls(&mut rest).unwrap();
        if let Err(error) = to.process_new_packets() {
            heard = Some(format!("{error:?}"));
        }
    }
    heard
}

/// Takes out what an end has heard.
fn hear<A>(end: &mut rustls::ConnectionCommon<A>, length: usize) -> Vec<u8> {
    let mut bytes = vec![0; length];
    end.reader().read_exact(&mut bytes).unwrap();
    bytes
}

fn round_trip(server_name: &str) {
    let server = acceptor(&CERT.to_vec(), &KEY.to_vec()).unwrap();
    let config = config(address(), &String::from(server_name));
    let setup = dns_pool::tls_exchange::resolver(config, &ROOT.to_vec()).unwrap();
    let name = rustls::pki_types::ServerName::try_from(String::from(server_name)).unwrap();
    let mut client = rustls::ClientConnection::new(setup.client.config(), name).unwrap();
    let mut server = rustls::ServerConnection::new(server.config()).unwrap();
    for _ in 0..4 {
        assert_eq!(carry(&mut client, &mut server), None);
        assert_eq!(carry(&mut server, &mut client), None);
    }
    let mut serving = TlsServing::new();
    let mut check = LookupCheck::new();
    let mut index = 0;
    while let Some(record_type) = check.next_lookup() {
        let mut request = Message::new();
        request.header.id = 500 + index as u16;
        request.add_query(query(index));
        assert_eq!(request.queries[0].query_type, record_type);
        client.writer().write_all(&frame(&request.to_vec().unwrap())).unwrap();
        assert_eq!(carry(&mut client, &mut server), None);
        loop {
            match serving.wants() {
                Want::Length => {
                    let length = hear(&mut server, 2);
                    let length = u16::from_be_bytes([length[0], length[1]]);
                    serving = serving.on_length(length).ok().unwrap();
                }
                Want::Request(length) => {
                    let bytes = hear(&mut server, length);
                    let (next, out) = serving.on_request(&bytes).ok().unwrap();
                    serving = next;
                    server.writer().write_all(&out).unwrap();
                    break;
                }
                Want::End => panic!("a lookup is left"),
            }
        }
        assert_eq!(carry(&mut server, &mut client), None);
        let length = hear(&mut client, 2);
        let bytes = hear(&mut client, usize::from(u16::from_be_bytes([length[0], length[1]])));
        let response = Message::from_vec(&bytes).unwrap();
        assert_eq!(response.header.id, 500 + index as u16);
        let addresses = response
            .answers
            .iter()
            .map(|record| match &record.data {
                RData::A(address) => IpAddress::V4(*address),
                RData::Aaaa { hi, lo } => IpAddress::V6 { hi: *hi, lo: *lo },
                _ => panic!("no address: {record:?}"),
            })
            .collect();
        check = check.check_answer(&addresses).unwrap();
        index += 1;
    }
    assert_eq!(serving.wants(), Want::End);
}

#[test]
fn test_local_tls_dns_name_and_ip() {
    round_trip("ns.example.test");
    round_trip("127.0.0.1");
}

/// Lets a client and a server talk in memory until both are done, or one of them refuses. Gives
/// whether the server was content, and the client's error.
fn handshake(client: &TlsClient, server: &TlsServer, name: &str) -> (bool, Option<String>) {
    let name = rustls::pki_types::ServerName::try_from(String::from(name)).unwrap();
    let mut client = rustls::ClientConnection::new(client.config(), name).unwrap();
    let mut server = rustls::ServerConnection::new(server.config()).unwrap();
    let mut server_ok = true;
    let mut client_error: Option<String> = None;
    for _ in 0..10 {
        server_ok = carry(&mut client, &mut server).is_none() && server_ok;
        client_error = carry(&mut server, &mut client).or(client_error);
    }
    (server_ok && !server.is_handshaking(), client_error)
}

#[test]
fn certificate_requires_correct_root_and_name() {
    let server = acceptor(&CERT.to_vec(), &KEY.to_vec()).unwrap();
    for (root, name, expected) in [
        (ROOT.to_vec(), "ns.example.test", true),
        (ROOT.to_vec(), "wrong.example.test", false),
        (OTHER_ROOT.to_vec(), "ns.example.test", false),
    ] {
        let client = TlsClient::new(&root, true).unwrap();
        let (server_ok, client_error) = handshake(&client, &server, name);
        assert_eq!(server_ok, expected);
        assert_eq!(client_error.is_none(), expected);
    }
}

fn https_rejects_identity(wrong_name: bool) {
    let server = https_acceptor(&CERT.to_vec(), &KEY.to_vec()).unwrap();
    let case = identity_case(wrong_name);
    let root = if case.own_root { ROOT.to_vec() } else { OTHER_ROOT.to_vec() };
    let setup =
        resolver(address(), &String::from(case.server_name), &root, Protocol::Https).unwrap();
    let (server_ok, error) = handshake(&setup.client, &server, case.server_name);
    assert_eq!(rejected(!server_ok, error.as_deref(), case.expected), Ok(()));
}

#[test]
fn test_local_https_rejects_wrong_name() {
    https_rejects_identity(true);
}

#[test]
fn test_local_https_rejects_untrusted_root() {
    https_rejects_identity(false);
}

#[test]
fn identity_cases_have_their_names() {
    let wrong = identity_case(true);
    assert_eq!(wrong.server_name, "wrong.example.test");
    assert!(wrong.own_root);
    assert_eq!(wrong.expected, "NotValidForName");
    let untrusted = identity_case(false);
    assert_eq!(untrusted.server_name, "ns.example.test");
    assert!(!untrusted.own_root);
    assert_eq!(untrusted.expected, "BadSignature");
}

#[test]
fn a_client_trusts_one_root() {
    let client = TlsClient::new(&ROOT.to_vec(), true).unwrap();
    assert_eq!(client.count_trusted(), 1);
    assert!(client.sends_name());
    assert!(client.config().enable_sni);
    let silent = TlsClient::new(&ROOT.to_vec(), false).unwrap();
    assert!(!silent.sends_name());
    assert!(!silent.config().enable_sni);
}

#[test]
fn a_root_that_is_no_certificate_is_refused() {
    assert!(matches!(TlsClient::new(&vec![1, 2, 3], true), Err(TlsFault::BadRoot)));
    assert!(matches!(
        resolver(address(), &String::from("ns.example.test"), &vec![], Protocol::Quic),
        Err(TlsFault::BadRoot)
    ));
}

#[test]
fn a_key_must_belong_to_the_certificate() {
    assert!(matches!(acceptor(&CERT.to_vec(), &OTHER_KEY.to_vec()), Err(TlsFault::BadIdentity)));
    assert!(matches!(https_acceptor(&CERT.to_vec(), &vec![0]), Err(TlsFault::BadIdentity)));
    assert!(acceptor(&CERT.to_vec(), &KEY.to_vec()).is_ok());
}

#[test]
fn settings_hold_what_an_end_was_set_up_with() {
    let setup = resolver(
        address(),
        &String::from("ns.example.test"),
        &ROOT.to_vec(),
        Protocol::Https,
    )
    .unwrap();
    let server = https_acceptor(&CERT.to_vec(), &KEY.to_vec()).unwrap();
    let name = rustls::pki_types::ServerName::try_from(String::from("ns.example.test")).unwrap();
    let mut client =
        rustls::ClientConnection::new(setup.config.group.client_config.unwrap(), name).unwrap();
    let mut server = rustls::ServerConnection::new(server.config()).unwrap();
    for _ in 0..10 {
        assert_eq!(carry(&mut client, &mut server), None);
        assert_eq!(carry(&mut server, &mut client), None);
    }
    assert!(!client.is_handshaking() && !server.is_handshaking());
    // The server shows the certificate that it was given, and hears the name it is asked for.
    let shown = client.peer_certificates().unwrap();
    assert_eq!(shown.len(), 1);
    assert_eq!(shown[0].as_ref(), CERT.as_slice());
    assert_eq!(server.server_name(), Some("ns.example.test"));
}

#[test]
fn only_the_http_server_offers_a_protocol() {
    let plain = acceptor(&CERT.to_vec(), &KEY.to_vec()).unwrap();
    assert!(plain.protocols().is_empty());
    assert!(plain.config().alpn_protocols.is_empty());
    let http = https_acceptor(&CERT.to_vec(), &KEY.to_vec()).unwrap();
    assert_eq!(http.protocols(), &vec![b"h2".to_vec()]);
    assert_eq!(http.config().alpn_protocols, vec![b"h2".to_vec()]);
}

#[test]
fn resolvers_reach_one_server() {
    for protocol in [Protocol::Https, Protocol::H3, Protocol::Quic] {
        let name = String::from("ns.example.test");
        let setup = resolver(address(), &name, &ROOT.to_vec(), protocol).unwrap();
        assert_eq!(setup.options, options());
        assert_eq!(setup.config.group.servers.len(), 1);
        let server = &setup.config.group.servers[0];
        assert_eq!(server.socket_addr, address());
        assert_eq!(server.protocol, protocol);
        assert_eq!(server.tls_dns_name.as_deref(), Some("ns.example.test"));
        assert!(server.trust_negative_responses);
        assert!(setup.config.domain.is_none());
        assert!(setup.config.search.is_empty());
        assert!(setup.client.sends_name());
        assert!(Arc::ptr_eq(
            setup.config.group.client_config.as_ref().unwrap(),
            &setup.client.config()
        ));
        assert!(is_supported(protocol));
    }
    assert!(!is_supported(Protocol::Tls));
    assert!(!is_supported(Protocol::Udp));
    assert!(!is_supported(Protocol::Tcp));
}

#[test]
fn stream_resolvers_do_not_name_the_server() {
    let config: ResolverConfig<rustls::ClientConfig> =
        config(address(), &String::from("127.0.0.1"));
    assert!(config.group.client_config.is_none());
    assert_eq!(config.group.servers[0].protocol, Protocol::Tls);
    let setup = dns_pool::tls_exchange::resolver(config, &ROOT.to_vec()).unwrap();
    assert!(!setup.client.sends_name());
    assert_eq!(setup.config.group.servers[0].tls_dns_name.as_deref(), Some("127.0.0.1"));
    assert!(setup.config.group.client_config.is_some());
    // The server proves itself without being told its name.
    let server = acceptor(&CERT.to_vec(), &KEY.to_vec()).unwrap();
    let (server_ok, error) = handshake(&setup.client, &server, "127.0.0.1");
    assert!(server_ok);
    assert_eq!(error, None);
}

#[test]
fn refusals_must_be_the_ones_that_are_due() {
    assert_eq!(rejected(false, Some("BadSignature"), "BadSignature"), Err(RefusalFault::ServerAccepted));
    assert_eq!(rejected(true, None, "BadSignature"), Err(RefusalFault::ClientResolved));
    assert_eq!(rejected(true, Some("Timeout"), "BadSignature"), Err(RefusalFault::OtherError));
    assert_eq!(rejected(true, Some("xBadSignature)"), "BadSignature"), Ok(()));
    assert_eq!(rejected(true, Some("BadSignatur"), "BadSignature"), Err(RefusalFault::OtherError));
    assert_eq!(rejected(true, Some("any"), ""), Ok(()));
}

#[test]
fn a_timeout_refuses_nothing() {
    let refused = ProtoError::new(ProtoErrorKind::Io(IoErrorKind::ConnectionRefused));
    assert_eq!(rejection(true, Some(refused)), Ok(()));
    let other = ProtoError::new(ProtoErrorKind::Io(IoErrorKind::Other));
    assert_eq!(rejection(true, Some(other)), Err(RefusalFault::OtherError));
    let timeout = ProtoError::new(ProtoErrorKind::Timeout);
    assert_eq!(rejection(true, Some(timeout)), Err(RefusalFault::OtherError));
    assert_eq!(rejection(true, None), Err(RefusalFault::ClientResolved));
    assert_eq!(rejection(false, None), Err(RefusalFault::ServerAccepted));
}

#[test]
fn a_provider_with_its_own_root_plans_the_connection() {
    let provider = TestProvider::new(ROOT.to_vec());
    let mut server: NameServerConfig<()> = NameServerConfig::new(address(), Protocol::Tls);
    server.tls_dns_name = Some(String::from("ns.example.test"));
    server.bind_addr = Some(SocketAddress { ip: IpAddress::V4(1), port: 2 });
    let plan = provider.new_connection(&server, &options());
    assert_eq!(plan.root, ROOT.to_vec());
    assert_eq!(plan.socket_addr, address());
    assert_eq!(plan.bind_addr, server.bind_addr);
    assert_eq!(plan.server_name, "ns.example.test");
    assert_eq!(plan.timeout, 2000);
}
