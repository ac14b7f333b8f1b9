//! What the operations on messages, names and signatures come to, said of their results.

use vstd::prelude::*;
#[allow(unused_imports)]
use vstd::string::StringSliceAdditionalSpecFns;

use crate::canonical_form_laws::law_one_signed_record;
use crate::dnssec::{delegation, dnskey, key_tag, signature, signed, signed_by, Signer};
use crate::message::{record_views, Message, MessageType, Query};
use crate::name::{counted_labels, lower_labels, Name};
use crate::name_laws::{
    dotted, law_only_spellings_are_names, law_same_names_are_the_same_in_small_letters,
    law_texts_spell_names, plain_labels,
};
use crate::record::{Dnskey, RData, RDataView, Record, RecordType, RecordView};
use crate::replies::{answer_with, echo, open_request, RequestFault};
use crate::wire_format::{data_bytes, message_bytes, message_ok, read_message};
use crate::wire_laws::law_message_is_read_back;

verus! {

/// A message that is written and read is the same message; it can be written if and only if the
/// format carries it and it takes at most 65535 bytes.
pub proof fn law_messages_survive_the_wire(
    message: Message,
    written: Option<Vec<u8>>,
    bytes: &[u8],
    read: Option<Message>,
)
    requires
        call_ensures(Message::to_vec, (&message,), written),
        written is Some ==> bytes@ == written->Some_0@,
        call_ensures(Message::from_vec, (bytes,), read),
    ensures
        written is Some <==> message_ok(message@) && message_bytes(message@).len() <= 65535,
        written is Some ==> written->Some_0@ == message_bytes(message@),
        written is Some ==> read is Some && read->Some_0@ == message@,
{
    if written is Some {
        law_message_is_read_back(message@, Seq::empty());
        assert(message_bytes(message@) + Seq::<u8>::empty() =~= message_bytes(message@));
    }
}

/// Whoever sends everything back says what was said: the bytes that go back are read as the same
/// message.
pub proof fn law_echoes_say_the_same(bytes: &[u8], r: Option<Vec<u8>>)
    requires
        call_ensures(echo, (bytes,), r),
    ensures
        r matches Some(out) ==> read_message(bytes@) is Some && read_message(out@) == read_message(
            bytes@,
        ),
        read_message(bytes@) is None ==> r is None,
        read_message(bytes@) is Some && message_ok(read_message(bytes@)->Some_0) && message_bytes(
            read_message(bytes@)->Some_0,
        ).len() <= 65535 ==> r is Some,
{
    if let Some(m) = read_message(bytes@) {
        if message_ok(m) {
            law_message_is_read_back(m, Seq::empty());
            assert(message_bytes(m) + Seq::<u8>::empty() =~= message_bytes(m));
        }
    }
}

/// A question that is made is of the Internet class, and so is a record; two questions are the same
/// for the same name in whatever case, and the same type and class.
pub proof fn law_questions_and_records_are_of_the_internet(
    name: Name,
    query_type: RecordType,
    ttl: u32,
    data: RData,
    q: Query,
    r: Record,
    other: Query,
    same: bool,
)
    requires
        call_ensures(Query::query, (name, query_type), q),
        call_ensures(Record::from_rdata, (name, ttl, data), r),
        call_ensures(Query::same_as, (&q, &other), same),
    ensures
        q@.name == name@ && q@.query_type == query_type && q@.query_class == 1,
        r@.name == name@ && r@.class == 1 && r@.ttl == ttl && r@.data == data@,
        same <==> lower_labels(other@.name) == lower_labels(name@) && other@.query_type
            == query_type && other@.query_class == 1,
{
    law_same_names_are_the_same_in_small_letters(name@, other@.name);
}

/// What is asked of a message: whether it was cut, and how much its sender takes, which is 512 bytes
/// at least.
pub proof fn law_what_messages_say(message: Message, cut: bool, takes: u16)
    requires
        call_ensures(Message::truncated, (&message,), cut),
        call_ensures(Message::max_payload, (&message,), takes),
    ensures
        cut <==> message@.header.truncated,
        message@.edns is None ==> takes == 512,
        message@.edns matches Some(e) ==> takes == vstd::math::max(512, e.max_payload as int),
{
}

/// A request for the one question gives its identifier, and any other says what is wrong with it.
pub proof fn law_requests_are_opened(
    bytes: &[u8],
    query: Query,
    standard: bool,
    r: Result<u16, RequestFault>,
)
    requires
        call_ensures(open_request, (bytes, &query, standard), r),
    ensures
        r is Ok <==> {
            &&& read_message(bytes@) is Some
            &&& ({
                let m = read_message(bytes@)->Some_0;
                &&& m.header.message_type == MessageType::Query
                &&& standard ==> m.header.op_code == 0
                &&& m.queries.len() == 1
                &&& lower_labels(m.queries[0].name) == lower_labels(query@.name)
                &&& m.queries[0].query_type == query@.query_type
                &&& m.queries[0].query_class == query@.query_class
            })
        },
        r matches Ok(id) ==> id == read_message(bytes@)->Some_0.header.id,
        read_message(bytes@) is None ==> r == Err::<u16, RequestFault>(RequestFault::Unreadable),
{
    crate::answer_laws::law_which_requests_are_taken(bytes@, query@, standard);
}

/// A response that is made says that all is well, and holds the question and the answer.
pub proof fn law_responses_are_made(id: u16, query: Query, record: Record, r: Message)
    requires
        call_ensures(answer_with, (id, query, record), r),
    ensures
        r@.header.id == id,
        crate::answer_laws::plain_response(r@.header),
        r@.queries == seq![query@],
        r@.answers == seq![record@],
        r@.name_servers.len() == 0 && r@.additionals.len() == 0 && r@.edns is None,
{
}

/// Names that texts spell: every name whose bytes stand for themselves is spelled by its labels with
/// dots behind them, and a text that spells a name is of this form.
pub proof fn law_names_are_spelled(text: &str, r: Option<Name>, labels: Seq<Seq<u8>>)
    requires
        call_ensures(Name::from_ascii, (text,), r),
    ensures
        r matches Some(name) ==> {
            &&& crate::name::name_ok(name@)
            &&& text.spec_bytes() == dotted(name@) || text.spec_bytes().push(0x2e) == dotted(name@)
                || (text.spec_bytes() == seq![0x2eu8] && name@.len() == 0)
        },
        crate::name::name_ok(labels) && plain_labels(labels) && labels.len() > 0 && (
        text.spec_bytes() == dotted(labels) || text.spec_bytes() == dotted(labels).drop_last())
            ==> r is Some && r->Some_0@ == labels,
{
    if let Some(name) = r {
        law_only_spellings_are_names(text.spec_bytes(), name@);
    }
    if crate::name::name_ok(labels) && plain_labels(labels) && labels.len() > 0 {
        law_texts_spell_names(labels);
    }
}

/// When names are the same, how they look in small letters, and how many labels a signature counts.
pub proof fn law_names_are_compared(
    a: Name,
    b: Name,
    same: bool,
    exact: bool,
    low: Name,
    counted: u8,
)
    requires
        call_ensures(Name::same_as, (&a, &b), same),
        call_ensures(Name::eq_case, (&a, &b), exact),
        call_ensures(Name::to_lowercase, (&a,), low),
        call_ensures(Name::num_labels, (&a,), counted),
    ensures
        same <==> lower_labels(a@) == lower_labels(b@),
        exact <==> a@ == b@,
        low@ == lower_labels(a@),
        counted == counted_labels(a@),
{
    law_same_names_are_the_same_in_small_letters(a@, b@);
}

/// The tag of a key, its record, and the record by which a parent vouches for it.
pub proof fn law_keys_are_tagged_and_served<D: Fn(&Vec<u8>) -> Vec<u8>>(
    key: Dnskey,
    tag: u16,
    signer: Signer,
    record: Record,
    digest: D,
    ds: Record,
)
    requires
        call_ensures(Dnskey::calculate_key_tag, (&key,), tag),
        call_ensures(dnskey, (&signer,), record),
        call_ensures(delegation::<D>, (&signer, &digest), ds),
    ensures
        tag == key_tag(key@),
        record@.name == signer@.name && record@.class == 1 && record@.ttl == 300 && record@.data
            == RDataView::Dnskey(signer@.key),
        ds@.name == signer@.name && ds@.class == 1 && ds@.ttl == 300,
        ds@.data matches RDataView::Ds(d) && d.key_tag == key_tag(signer@.key) && d.algorithm
            == signer@.key.algorithm && d.digest_type == 2,
{
}

/// A record that is signed comes before its signature, which is by the signer and may be kept for as
/// long as the record. The signature of a set may be kept for a minute.
pub proof fn law_records_come_with_their_signature<F: Fn(&Signer, &Vec<u8>) -> Vec<u8>>(
    record: Record,
    signer: Signer,
    now: u32,
    sign: F,
    pair: Vec<Record>,
    records: Vec<Record>,
    one: Record,
)
    requires
        call_ensures(signed::<F>, (record, &signer, now, &sign), pair),
        call_ensures(signature::<F>, (&records, &signer, now, &sign), one),
    ensures
        pair@.len() == 2,
        pair@[0]@ == record@,
        signed_by(sign, signer, seq![record@], now, record@.ttl, pair@[1]@),
        signed_by(sign, signer, record_views(records@), now, 60, one@),
{
}

/// What the signature of one record is made over: its own fields and the record, both as they would
/// be written with small letters.
pub proof fn law_what_one_signature_is_made_over<F: Fn(&Signer, &Vec<u8>) -> Vec<u8>>(
    sign: F,
    signer: Signer,
    record: RecordView,
    now: u32,
    ttl: u32,
    made: RecordView,
)
    requires
        signed_by(sign, signer, seq![record], now, ttl, made),
        crate::dnssec::time_ok(now),
        crate::name::name_ok(record.name),
        record.class == 1,
    ensures
        made.data matches RDataView::Rrsig(r) && exists|bytes: Vec<u8>, sig: Vec<u8>|
            {
                &&& #[trigger] call_ensures(sign, (&signer, &bytes), sig)
                &&& sig@ == r.sig
                &&& bytes@ == data_bytes(
                    RDataView::Rrsig(
                        crate::record::RrsigView {
                            signer_name: lower_labels(r.signer_name),
                            sig: Seq::empty(),
                            ..r
                        },
                    ),
                ) + crate::wire_format::record_bytes(
                    RecordView {
                        name: lower_labels(record.name),
                        class: 1,
                        ttl: r.original_ttl,
                        data: crate::canonical::lower_data(record.data),
                    },
                )
            },
{
    crate::signing_laws::law_fields_of_signatures(sign, signer, seq![record], now, ttl, made);
    let r = made.data->Rrsig_0;
    let unsigned = crate::record::RrsigView { sig: Seq::empty(), ..r };
    let (bytes, sig) = choose|bytes: Vec<u8>, sig: Vec<u8>|
        {
            &&& #[trigger] call_ensures(sign, (&signer, &bytes), sig)
            &&& sig@ == r.sig
            &&& crate::canonical::to_be_signed(record.name, unsigned, seq![record], bytes@)
        };
    law_one_signed_record(unsigned, record, bytes@);
    assert(call_ensures(sign, (&signer, &bytes), sig));
}

} // verus!
