//! The lookups that are put to an authenticated server, in their order, and what comes of each.

use vstd::prelude::*;

use crate::config::IpAddress;
use crate::local_names::{lemma_local_names, www_name};
use crate::message::{MessageView, Query};
use crate::name::labels_len;
use crate::record::{ipv4, ipv6_half, RData, RDataView, Record, RecordType};
use crate::replies::{
    answer_bytes, answer_message, answerable, law_reply_is_read, law_request_is_taken,
    message_fault, open_request, request_fault, RequestFault,
};
use crate::wire_fixture::{
    lemma_www_answerable, local_ipv4, local_ipv6, www_query, www_record, ANSWER_TTL,
};
use crate::wire_format::{data_bytes, message_bytes, message_ok, read_message};

verus! {

/// The number of lookups over one connection.
pub const COUNT: usize = 4;

/// The first two lookups are for the IPv4 address, the others for the IPv6 address.
pub open spec fn lookup_type(index: nat) -> RecordType {
    if index < 2 {
        RecordType::A
    } else {
        RecordType::AAAA
    }
}

/// The data that a lookup finds.
pub open spec fn lookup_data(index: nat) -> RDataView {
    if index < 2 {
        local_ipv4()
    } else {
        local_ipv6()
    }
}

/// The address that a lookup finds.
pub open spec fn lookup_address(index: nat) -> IpAddress {
    if index < 2 {
        IpAddress::V4(ipv4(93, 184, 215, 14) as u32)
    } else {
        IpAddress::V6 {
            hi: ipv6_half(0x2606, 0x2800, 0x21f, 0xcb07) as u64,
            lo: ipv6_half(0x6820, 0x80da, 0xaf6b, 0x8b2c) as u64,
        }
    }
}

/// What is wrong with the bytes of the request of a lookup, if anything is.
pub open spec fn lookup_fault(bytes: Seq<u8>, index: nat) -> Option<RequestFault> {
    request_fault(bytes, www_query(lookup_type(index)), false)
}

/// The bytes of the reply to the request of a lookup.
pub open spec fn lookup_reply(bytes: Seq<u8>, index: nat) -> Seq<u8> {
    message_bytes(
        answer_message(
            read_message(bytes).unwrap().header.id,
            www_query(lookup_type(index)),
            www_record(lookup_data(index)),
        ),
    )
}

/// Every lookup can be answered, in a reply of some hundred bytes at most.
proof fn lemma_lookup(index: nat)
    ensures
        answerable(www_query(lookup_type(index)), www_record(lookup_data(index))),
        28 + labels_len(www_query(lookup_type(index)).name) + labels_len(
            www_record(lookup_data(index)).name,
        ) + data_bytes(www_record(lookup_data(index)).data).len() <= 100,
{
    lemma_www_answerable();
    lemma_local_names();
}

/// The question of a lookup.
pub fn query(index: usize) -> (r: Query)
    ensures
        r@ == www_query(lookup_type(index as nat)),
{
    Query::query(
        www_name(),
        if index < 2 {
            RecordType::A
        } else {
            RecordType::AAAA
        },
    )
}

/// The data that a lookup finds.
pub fn data(index: usize) -> (r: RData)
    ensures
        r@ == lookup_data(index as nat),
{
    if index < 2 {
        RData::a(93, 184, 215, 14)
    } else {
        RData::aaaa(0x2606, 0x2800, 0x21f, 0xcb07, 0x6820, 0x80da, 0xaf6b, 0x8b2c)
    }
}

/// The identifier of the request of a lookup, or what is wrong with it.
pub fn check_request(bytes: &[u8], index: usize) -> (r: Result<u16, RequestFault>)
    ensures
        match r {
            Ok(id) => lookup_fault(bytes@, index as nat) is None && id == read_message(
                bytes@,
            ).unwrap().header.id,
            Err(fault) => lookup_fault(bytes@, index as nat) == Some(fault),
        },
{
    open_request(bytes, &query(index), false)
}

/// The reply to the request of a lookup.
pub fn reply(bytes: &[u8], index: usize) -> (r: Vec<u8>)
    requires
        lookup_fault(bytes@, index as nat) is None,
    ensures
        r@ == lookup_reply(bytes@, index as nat),
        r.len() <= 100,
{
    let id: u16 = match check_request(bytes, index) {
        Ok(id) => id,
        Err(_) => 0,
    };
    proof {
        lemma_lookup(index as nat);
    }
    answer_bytes(id, query(index), Record::from_rdata(www_name(), ANSWER_TTL, data(index)))
}

/// A server that goes through the lookups of one connection.
pub struct Serving {
    served: usize,
}

impl Serving {
    #[verifier::type_invariant]
    spec fn in_bounds(self) -> bool {
        self.served <= COUNT
    }

    /// How many lookups were served.
    pub closed spec fn count(&self) -> nat {
        self.served as nat
    }

    /// A server that has served no lookup yet.
    pub fn new() -> (r: Serving)
        ensures
            r.count() == 0,
    {
        Serving { served: 0 }
    }

    /// The number of the lookup that comes next. None where all were served.
    pub fn next_index(&self) -> (r: Option<usize>)
        ensures
            r == if self.count() < COUNT {
                Some(self.count() as usize)
            } else {
                None
            },
            self.count() <= COUNT,
    {
        proof {
            use_type_invariant(self);
        }
        if self.served < COUNT {
            Some(self.served)
        } else {
            None
        }
    }

    /// Serves the lookup that comes next: gives the bytes of the reply, or says what is wrong with
    /// the request.
    pub fn serve(self, bytes: &[u8]) -> (r: Result<(Serving, Vec<u8>), RequestFault>)
        requires
            self.count() < COUNT,
        ensures
            match r {
                Ok((next, reply)) => lookup_fault(bytes@, self.count()) is None && next.count()
                    == self.count() + 1 && reply@ == lookup_reply(bytes@, self.count())
                    && reply.len() <= 100,
                Err(fault) => lookup_fault(bytes@, self.count()) == Some(fault),
            },
    {
        match check_request(bytes, self.served) {
            Ok(_) => Ok((Serving { served: self.served + 1 }, reply(bytes, self.served))),
            Err(fault) => Err(fault),
        }
    }
}

/// A client that checks what comes of the lookups of one connection.
pub struct LookupCheck {
    checked: usize,
}

impl LookupCheck {
    #[verifier::type_invariant]
    spec fn in_bounds(self) -> bool {
        self.checked <= COUNT
    }

    /// How many lookups came out as they should.
    pub closed spec fn count(&self) -> nat {
        self.checked as nat
    }

    /// A client that has looked up nothing yet.
    pub fn new() -> (r: LookupCheck)
        ensures
            r.count() == 0,
    {
        LookupCheck { checked: 0 }
    }

    /// The type of the lookup that comes next. None where all were checked.
    pub fn next_lookup(&self) -> (r: Option<RecordType>)
        ensures
            r == if self.count() < COUNT {
                Some(lookup_type(self.count()))
            } else {
                None
            },
            self.count() <= COUNT,
    {
        proof {
            use_type_invariant(self);
        }
        if self.checked >= COUNT {
            None
        } else if self.checked < 2 {
            Some(RecordType::A)
        } else {
            Some(RecordType::AAAA)
        }
    }

    /// Checks what came of the lookup that comes next: just the one address. None where it came out
    /// otherwise.
    pub fn check_answer(self, addresses: &Vec<IpAddress>) -> (r: Option<LookupCheck>)
        requires
            self.count() < COUNT,
        ensures
            match r {
                Some(next) => addresses@ == seq![lookup_address(self.count())] && next.count()
                    == self.count() + 1,
                None => addresses@ != seq![lookup_address(self.count())],
            },
    {
        let expected = match data(self.checked) {
            RData::A(address) => IpAddress::V4(address),
            RData::Aaaa { hi, lo } => IpAddress::V6 { hi, lo },
            _ => IpAddress::V4(0),
        };
        assert(expected == lookup_address(self.count()));
        if addresses.len() == 1 && addresses[0] == expected {
            assert(addresses@ =~= seq![expected]);
            Some(LookupCheck { checked: self.checked + 1 })
        } else {
            assert(addresses@ != seq![expected]) by {
                if addresses@ == seq![expected] {
                    assert(addresses@[0] == seq![expected][0]);
                }
            }
            None
        }
    }
}

/// Every lookup comes out: a client that asks its question is answered, and the response that it
/// reads repeats its identifier and its question and holds the one address that it checks for.
pub proof fn law_lookup_round_trip(m: MessageView, index: nat)
    requires
        message_ok(m),
        message_fault(m, www_query(lookup_type(index)), false) is None,
    ensures
        lookup_fault(message_bytes(m), index) is None,
        read_message(lookup_reply(message_bytes(m), index)) == Some(
            answer_message(
                m.header.id,
                www_query(lookup_type(index)),
                www_record(lookup_data(index)),
            ),
        ),
        match lookup_address(index) {
            IpAddress::V4(address) => lookup_data(index) == RDataView::A(address),
            IpAddress::V6 { hi, lo } => lookup_data(index) == (RDataView::Aaaa { hi, lo }),
        },
{
    law_request_is_taken(m, www_query(lookup_type(index)), false, Seq::empty());
    assert(message_bytes(m) + Seq::<u8>::empty() =~= message_bytes(m));
    lemma_lookup(index);
    law_reply_is_read(
        m.header.id,
        www_query(lookup_type(index)),
        www_record(lookup_data(index)),
    );
}

} // verus!
