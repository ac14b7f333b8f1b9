//! A pool of DNS name servers, and the local servers and lookups that show it at work.
//!
//! The pool sorts name servers into those that are reached by datagrams and those that are reached
//! over streams. A request goes to several connections at once, is tried again where they are busy,
//! and moves on from datagrams to streams where an answer was cut or none came. The local servers
//! answer in the wire format of DNS, over plain, authenticated and framed transports, and with
//! signed records.
//!
//! Nothing here does input or output: the functions decide what to send, what to wait for and what
//! a result is, and the caller carries it out.

pub mod answer_laws;
pub mod body;
pub mod canonical;
pub mod canonical_form_laws;
pub mod canonical_laws;
pub mod change_laws;
pub mod config;
pub mod conn_journey;
pub mod conn_laws;
pub mod conn_loop;
pub mod conn_set;
pub mod dnssec;
pub mod encrypted;
pub mod error;
pub mod error_laws;
pub mod http_serving;
pub mod keyset;
pub mod keyset_laws;
pub mod local_dns;
pub mod local_name_laws;
pub mod local_names;
pub mod lookups;
pub mod message;
pub mod name;
pub mod name_laws;
pub mod name_server;
pub mod operation_laws;
pub mod pool;
pub mod pool_choice_laws;
pub mod pool_laws;
pub mod pool_operation_laws;
pub mod pool_send;
pub mod record;
pub mod replies;
pub mod round_laws;
pub mod serving_laws;
pub mod signed_lookup;
pub mod signed_responses;
pub mod signing_laws;
pub mod streams;
pub mod text;
pub mod tls_exchange;
pub mod tls_setup;
pub mod transport_laws;
pub mod value_laws;
pub mod wire_entry_laws;
pub mod wire_fixture;
pub mod wire_format;
pub mod wire_laws;
pub mod wire_layout_laws;
pub mod wire_pointer_laws;
pub mod wire_read;
pub mod wire_read_laws;
pub mod wire_sizes;
pub mod wire_write;
pub mod zone_laws;
