//! Resource records: owner name, class, time to live and typed data.

use vstd::prelude::*;

use crate::name::{copy_bytes, Name};

verus! {

/// The class of the Internet.
pub const CLASS_IN: u16 = 1;

/// The type of a record or of a question.
#[derive(Debug, Clone, Copy, PartialEq, Eq, Structural)]
pub enum RecordType {
    A,
    NS,
    CNAME,
    SOA,
    PTR,
    AAAA,
    OPT,
    DS,
    RRSIG,
    DNSKEY,
    /// A type that has no name here, by its code.
    Unknown(u16),
}

/// The code that stands for a type on the wire.
pub open spec fn type_code(t: RecordType) -> u16 {
    match t {
        RecordType::A => 1,
        RecordType::NS => 2,
        RecordType::CNAME => 5,
        RecordType::SOA => 6,
        RecordType::PTR => 12,
        RecordType::AAAA => 28,
        RecordType::OPT => 41,
        RecordType::DS => 43,
        RecordType::RRSIG => 46,
        RecordType::DNSKEY => 48,
        RecordType::Unknown(code) => code,
    }
}

/// The type that a code stands for.
pub open spec fn type_of(code: u16) -> RecordType {
    if code == 1 {
        RecordType::A
    } else if code == 2 {
        RecordType::NS
    } else if code == 5 {
        RecordType::CNAME
    } else if code == 6 {
        RecordType::SOA
    } else if code == 12 {
        RecordType::PTR
    } else if code == 28 {
        RecordType::AAAA
    } else if code == 41 {
        RecordType::OPT
    } else if code == 43 {
        RecordType::DS
    } else if code == 46 {
        RecordType::RRSIG
    } else if code == 48 {
        RecordType::DNSKEY
    } else {
        RecordType::Unknown(code)
    }
}

/// Whether the type is the one that its code stands for.
pub open spec fn type_ok(t: RecordType) -> bool {
    type_of(type_code(t)) == t
}

impl RecordType {
    /// The code that stands for the type on the wire.
    pub fn code(self) -> (r: u16)
        ensures
            r == type_code(self),
    {
        match self {
            RecordType::A => 1,
            RecordType::NS => 2,
            RecordType::CNAME => 5,
            RecordType::SOA => 6,
            RecordType::PTR => 12,
            RecordType::AAAA => 28,
            RecordType::OPT => 41,
            RecordType::DS => 43,
            RecordType::RRSIG => 46,
            RecordType::DNSKEY => 48,
            RecordType::Unknown(code) => code,
        }
    }

    /// The type that a code stands for.
    pub fn from_code(code: u16) -> (r: RecordType)
        ensures
            r == type_of(code),
            type_ok(r),
            type_code(r) == code,
    {
        match code {
            1 => RecordType::A,
            2 => RecordType::NS,
            5 => RecordType::CNAME,
            6 => RecordType::SOA,
            12 => RecordType::PTR,
            28 => RecordType::AAAA,
            41 => RecordType::OPT,
            43 => RecordType::DS,
            46 => RecordType::RRSIG,
            48 => RecordType::DNSKEY,
            _ => RecordType::Unknown(code),
        }
    }
}

/// The start of a zone of authority.
#[derive(Debug, PartialEq)]
pub struct Soa {
    pub mname: Name,
    pub rname: Name,
    pub serial: u32,
    pub refresh: u32,
    pub retry: u32,
    pub expire: u32,
    pub minimum: u32,
}

pub struct SoaView {
    pub mname: Seq<Seq<u8>>,
    pub rname: Seq<Seq<u8>>,
    pub serial: u32,
    pub refresh: u32,
    pub retry: u32,
    pub expire: u32,
    pub minimum: u32,
}

/// A public key of a zone.
#[derive(Debug, PartialEq)]
pub struct Dnskey {
    pub flags: u16,
    pub protocol: u8,
    pub algorithm: u8,
    pub public_key: Vec<u8>,
}

pub struct DnskeyView {
    pub flags: u16,
    pub protocol: u8,
    pub algorithm: u8,
    pub public_key: Seq<u8>,
}

/// The digest by which a parent zone vouches for a key of its child.
#[derive(Debug, PartialEq)]
pub struct Ds {
    pub key_tag: u16,
    pub algorithm: u8,
    pub digest_type: u8,
    pub digest: Vec<u8>,
}

pub struct DsView {
    pub key_tag: u16,
    pub algorithm: u8,
    pub digest_type: u8,
    pub digest: Seq<u8>,
}

/// A signature over a set of records of one name and type.
#[derive(Debug, PartialEq)]
pub struct Rrsig {
    pub type_covered: RecordType,
    pub algorithm: u8,
    pub num_labels: u8,
    pub original_ttl: u32,
    pub sig_expiration: u32,
    pub sig_inception: u32,
    pub key_tag: u16,
    pub signer_name: Name,
    pub sig: Vec<u8>,
}

pub struct RrsigView {
    pub type_covered: RecordType,
    pub algorithm: u8,
    pub num_labels: u8,
    pub original_ttl: u32,
    pub sig_expiration: u32,
    pub sig_inception: u32,
    pub key_tag: u16,
    pub signer_name: Seq<Seq<u8>>,
    pub sig: Seq<u8>,
}

/// The data of a record.
#[derive(Debug, PartialEq)]
pub enum RData {
    /// An IPv4 address, its first byte the most significant.
    A(u32),
    /// An IPv6 address in two halves, its first byte the most significant of `hi`.
    Aaaa { hi: u64, lo: u64 },
    Ns(Name),
    Cname(Name),
    Ptr(Name),
    Soa(Soa),
    Ds(Ds),
    Rrsig(Rrsig),
    Dnskey(Dnskey),
    /// No data at all, as in an update that speaks of a whole set.
    Empty(RecordType),
    /// Data of a type that is not taken apart here.
    Unknown { code: u16, data: Vec<u8> },
}

pub enum RDataView {
    A(u32),
    Aaaa { hi: u64, lo: u64 },
    Ns(Seq<Seq<u8>>),
    Cname(Seq<Seq<u8>>),
    Ptr(Seq<Seq<u8>>),
    Soa(SoaView),
    Ds(DsView),
    Rrsig(RrsigView),
    Dnskey(DnskeyView),
    Empty(RecordType),
    Unknown { code: u16, data: Seq<u8> },
}

/// A resource record.
#[derive(Debug, PartialEq)]
pub struct Record {
    pub name: Name,
    pub class: u16,
    pub ttl: u32,
    pub data: RData,
}

pub struct RecordView {
    pub name: Seq<Seq<u8>>,
    pub class: u16,
    pub ttl: u32,
    pub data: RDataView,
}

impl View for Soa {
    type V = SoaView;

    open spec fn view(&self) -> SoaView {
        SoaView {
            mname: self.mname@,
            rname: self.rname@,
            serial: self.serial,
            refresh: self.refresh,
            retry: self.retry,
            expire: self.expire,
            minimum: self.minimum,
        }
    }
}

impl View for Dnskey {
    type V = DnskeyView;

    open spec fn view(&self) -> DnskeyView {
        DnskeyView {
            flags: self.flags,
            protocol: self.protocol,
            algorithm: self.algorithm,
            public_key: self.public_key@,
        }
    }
}

impl View for Ds {
    type V = DsView;

    open spec fn view(&self) -> DsView {
        DsView {
            key_tag: self.key_tag,
            algorithm: self.algorithm,
            digest_type: self.digest_type,
            digest: self.digest@,
        }
    }
}

impl View for Rrsig {
    type V = RrsigView;

    open spec fn view(&self) -> RrsigView {
        RrsigView {
            type_covered: self.type_covered,
            algorithm: self.algorithm,
            num_labels: self.num_labels,
            original_ttl: self.original_ttl,
            sig_expiration: self.sig_expiration,
            sig_inception: self.sig_inception,
            key_tag: self.key_tag,
            signer_name: self.signer_name@,
            sig: self.sig@,
        }
    }
}

impl View for RData {
    type V = RDataView;

    open spec fn view(&self) -> RDataView {
        match *self {
            RData::A(address) => RDataView::A(address),
            RData::Aaaa { hi, lo } => RDataView::Aaaa { hi, lo },
            RData::Ns(name) => RDataView::Ns(name@),
            RData::Cname(name) => RDataView::Cname(name@),
            RData::Ptr(name) => RDataView::Ptr(name@),
            RData::Soa(soa) => RDataView::Soa(soa@),
            RData::Ds(ds) => RDataView::Ds(ds@),
            RData::Rrsig(rrsig) => RDataView::Rrsig(rrsig@),
            RData::Dnskey(dnskey) => RDataView::Dnskey(dnskey@),
            RData::Empty(t) => RDataView::Empty(t),
            RData::Unknown { code, data } => RDataView::Unknown { code, data: data@ },
        }
    }
}

impl View for Record {
    type V = RecordView;

    open spec fn view(&self) -> RecordView {
        RecordView { name: self.name@, class: self.class, ttl: self.ttl, data: self.data@ }
    }
}

/// The type of the data.
pub open spec fn data_type(data: RDataView) -> RecordType {
    match data {
        RDataView::A(_) => RecordType::A,
        RDataView::Aaaa { hi: _, lo: _ } => RecordType::AAAA,
        RDataView::Ns(_) => RecordType::NS,
        RDataView::Cname(_) => RecordType::CNAME,
        RDataView::Ptr(_) => RecordType::PTR,
        RDataView::Soa(_) => RecordType::SOA,
        RDataView::Ds(_) => RecordType::DS,
        RDataView::Rrsig(_) => RecordType::RRSIG,
        RDataView::Dnskey(_) => RecordType::DNSKEY,
        RDataView::Empty(t) => t,
        RDataView::Unknown { code, data: _ } => type_of(code),
    }
}

/// The four bytes of an IPv4 address as one number.
pub open spec fn ipv4(a: u8, b: u8, c: u8, d: u8) -> int {
    a * 0x100_0000 + b * 0x1_0000 + c * 0x100 + d
}

/// Four groups of an IPv6 address as one number.
pub open spec fn ipv6_half(a: u16, b: u16, c: u16, d: u16) -> int {
    a * 0x1_0000_0000_0000 + b * 0x1_0000_0000 + c * 0x1_0000 + d
}

impl Clone for Soa {
    fn clone(&self) -> (r: Soa)
        ensures
            r@ == self@,
    {
        Soa {
            mname: self.mname.clone(),
            rname: self.rname.clone(),
            serial: self.serial,
            refresh: self.refresh,
            retry: self.retry,
            expire: self.expire,
            minimum: self.minimum,
        }
    }
}

impl Clone for Dnskey {
    fn clone(&self) -> (r: Dnskey)
        ensures
            r@ == self@,
    {
        Dnskey {
            flags: self.flags,
            protocol: self.protocol,
            algorithm: self.algorithm,
            public_key: copy_bytes(&self.public_key),
        }
    }
}

impl Clone for Ds {
    fn clone(&self) -> (r: Ds)
        ensures
            r@ == self@,
    {
        Ds {
            key_tag: self.key_tag,
            algorithm: self.algorithm,
            digest_type: self.digest_type,
            digest: copy_bytes(&self.digest),
        }
    }
}

impl Clone for Rrsig {
    fn clone(&self) -> (r: Rrsig)
        ensures
            r@ == self@,
    {
        Rrsig {
            type_covered: self.type_covered,
            algorithm: self.algorithm,
            num_labels: self.num_labels,
            original_ttl: self.original_ttl,
            sig_expiration: self.sig_expiration,
            sig_inception: self.sig_inception,
            key_tag: self.key_tag,
            signer_name: self.signer_name.clone(),
            sig: copy_bytes(&self.sig),
        }
    }
}

impl Clone for RData {
    fn clone(&self) -> (r: RData)
        ensures
            r@ == self@,
    {
        match self {
            RData::A(address) => RData::A(*address),
            RData::Aaaa { hi, lo } => RData::Aaaa { hi: *hi, lo: *lo },
            RData::Ns(name) => RData::Ns(name.clone()),
            RData::Cname(name) => RData::Cname(name.clone()),
            RData::Ptr(name) => RData::Ptr(name.clone()),
            RData::Soa(soa) => RData::Soa(soa.clone()),
            RData::Ds(ds) => RData::Ds(ds.clone()),
            RData::Rrsig(rrsig) => RData::Rrsig(rrsig.clone()),
            RData::Dnskey(dnskey) => RData::Dnskey(dnskey.clone()),
            RData::Empty(t) => RData::Empty(*t),
            RData::Unknown { code, data } => RData::Unknown {
                code: *code,
                data: copy_bytes(data),
            },
        }
    }
}

impl Clone for Record {
    fn clone(&self) -> (r: Record)
        ensures
            r@ == self@,
    {
        Record {
            name: self.name.clone(),
            class: self.class,
            ttl: self.ttl,
            data: self.data.clone(),
        }
    }
}

impl RData {
    /// The data of an address record for an IPv4 address.
    pub fn a(a: u8, b: u8, c: u8, d: u8) -> (r: RData)
        ensures
            r@ == RDataView::A(ipv4(a, b, c, d) as u32),
            0 <= ipv4(a, b, c, d) <= u32::MAX,
    {
        RData::A(a as u32 * 0x100_0000 + b as u32 * 0x1_0000 + c as u32 * 0x100 + d as u32)
    }

    /// The data of an address record for an IPv6 address, group by group.
    pub fn aaaa(a: u16, b: u16, c: u16, d: u16, e: u16, f: u16, g: u16, h: u16) -> (r: RData)
        ensures
            r@ == (RDataView::Aaaa {
                hi: ipv6_half(a, b, c, d) as u64,
                lo: ipv6_half(e, f, g, h) as u64,
            }),
            0 <= ipv6_half(a, b, c, d) <= u64::MAX,
            0 <= ipv6_half(e, f, g, h) <= u64::MAX,
    {
        let hi: u64 = a as u64 * 0x1_0000_0000_0000 + b as u64 * 0x1_0000_0000 + c as u64 * 0x1_0000
            + d as u64;
        let lo: u64 = e as u64 * 0x1_0000_0000_0000 + f as u64 * 0x1_0000_0000 + g as u64 * 0x1_0000
            + h as u64;
        RData::Aaaa { hi, lo }
    }

    /// The type of the data.
    pub fn record_type(&self) -> (r: RecordType)
        ensures
            r == data_type(self@),
    {
        match self {
            RData::A(_) => RecordType::A,
            RData::Aaaa { .. } => RecordType::AAAA,
            RData::Ns(_) => RecordType::NS,
            RData::Cname(_) => RecordType::CNAME,
            RData::Ptr(_) => RecordType::PTR,
            RData::Soa(_) => RecordType::SOA,
            RData::Ds(_) => RecordType::DS,
            RData::Rrsig(_) => RecordType::RRSIG,
            RData::Dnskey(_) => RecordType::DNSKEY,
            RData::Empty(t) => *t,
            RData::Unknown { code, .. } => RecordType::from_code(*code),
        }
    }
}

impl Record {
    /// A record of the Internet class.
    pub fn from_rdata(name: Name, ttl: u32, data: RData) -> (r: Record)
        ensures
            r@ == (RecordView { name: name@, class: CLASS_IN, ttl, data: data@ }),
    {
        Record { name, class: CLASS_IN, ttl, data }
    }

    /// The type of the record's data.
    pub fn record_type(&self) -> (r: RecordType)
        ensures
            r == data_type(self@.data),
    {
        self.data.record_type()
    }
}

} // verus!
