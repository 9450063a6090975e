//! The RPC service: metadata answers, subscription requests, and the
//! status a failure is reported with.

use crate::error::{Error, FromByteSliceError, FromHexError, ParseError};
use crate::felt::{
    be_value, byte_slice_felt, felt_hex, felts_view, field_modulus, short_string_felt, Felt,
};
use crate::subscription::{
    requests_view, ModelMetadata, ModelMetadataView, SubscribeRequest, SubscribeRequestView,
    SubscriberManager, SubscriberView, Subscription,
};
use crate::types;
use crate::types::{
    byte_runs, queries_view, Clause, ClauseType, Code, EntityQuery, EntityQueryView,
    MetadataResponse, ModelRow, Status, WorldMetadata, WorldRow,
};
use vstd::utf8::encode_utf8;
use vstd::prelude::*;
use vstd::string::*;

verus! {

/// The value of a hex digit, where the byte is one.
pub open spec fn hex_digit(c: u8) -> Option<u8> {
    if 0x30 <= c <= 0x39 {
        Some((c - 0x30) as u8)
    } else if 0x61 <= c <= 0x66 {
        Some((c - 0x61 + 10) as u8)
    } else if 0x41 <= c <= 0x46 {
        Some((c - 0x41 + 10) as u8)
    } else {
        None
    }
}

/// Whether a text is hex: an even number of bytes, each a hex digit of
/// either case.
pub open spec fn is_hex(text: Seq<u8>) -> bool {
    &&& text.len() % 2 == 0
    &&& forall|i: int| 0 <= i < text.len() ==> hex_digit(#[trigger] text[i]) is Some
}

/// The bytes a hex text spells: each pair of digits is one byte, the
/// first digit its high half.
pub open spec fn hex_decoded(text: Seq<u8>) -> Seq<u8> {
    Seq::new(
        text.len() / 2,
        |i: int| (hex_digit(text[2 * i]).unwrap() * 16 + hex_digit(text[2 * i + 1]).unwrap()) as u8,
    )
}

/// The place of the first byte of a text that is no hex digit.
pub open spec fn first_non_hex(text: Seq<u8>) -> int {
    choose|i: int|
        0 <= i < text.len() && hex_digit(text[i]) is None && forall|j: int|
            0 <= j < i ==> hex_digit(#[trigger] text[j]) is Some
}

/// What a text decodes to as hex: its bytes, or why it is no hex. An odd
/// number of bytes is refused first, then the first byte that is no hex
/// digit, with its place.
pub open spec fn hex_decoding(text: Seq<u8>) -> Result<Seq<u8>, FromHexError> {
    if text.len() % 2 != 0 {
        Err(FromHexError::OddLength)
    } else if is_hex(text) {
        Ok(hex_decoded(text))
    } else {
        Err(
            FromHexError::InvalidHexCharacter {
                c: text[first_non_hex(text)] as char,
                index: first_non_hex(text) as usize,
            },
        )
    }
}

/// `hex::decode`: the bytes that a hex text spells; for a text of odd
/// length the error that says so, and else for the first byte that is no
/// hex digit the error that holds it, as a character, and its place.
#[verifier::external_body]
fn hex_decode(text: &str) -> (r: Result<Vec<u8>, FromHexError>)
    ensures
        match r {
            Ok(bytes) => hex_decoding(text.spec_bytes()) == Ok::<Seq<u8>, FromHexError>(bytes@),
            Err(e) => hex_decoding(text.spec_bytes()) == Err::<Seq<u8>, FromHexError>(e),
        },
{
    match hex::decode(text) {
        Ok(bytes) => Ok(bytes),
        Err(hex::FromHexError::InvalidHexCharacter { c, index }) => {
            Err(FromHexError::InvalidHexCharacter { c, index })
        },
        Err(hex::FromHexError::OddLength) => Err(FromHexError::OddLength),
        Err(hex::FromHexError::InvalidStringLength) => Err(FromHexError::InvalidStringLength),
    }
}

/// What the keys of a clause read as: the elements, or the error of the
/// first key that is no element.
pub open spec fn keys_felts(keys: Seq<Seq<u8>>) -> Result<Seq<Seq<u8>>, FromByteSliceError>
    decreases keys.len(),
{
    if keys.len() == 0 {
        Ok(Seq::empty())
    } else {
        match keys_felts(keys.drop_last()) {
            Err(e) => Err(e),
            Ok(felts) => match byte_slice_felt(keys.last()) {
                Err(e) => Err(e),
                Ok(felt) => Ok(felts.push(felt)),
            },
        }
    }
}

/// What one query asks for, before the model's size is known: the key
/// filter and the model's name as an element. A clause that is no keys
/// clause is unsupported; then a key that is no element is refused, then a
/// name that is no short string.
pub open spec fn query_target(query: EntityQueryView) -> Result<(Seq<Seq<u8>>, Seq<u8>), Error> {
    match query.keys {
        None => Err(Error::UnsupportedQuery),
        Some(raw) => match keys_felts(raw) {
            Err(e) => Err(Error::Parse(ParseError::FromByteSliceError(e))),
            Ok(keys) => match short_string_felt(query.model) {
                Err(e) => Err(Error::Parse(ParseError::CairoShortStringToFelt(e))),
                Ok(name) => Ok((keys, name)),
            },
        },
    }
}

/// A run of elements, or the failure to read one, as values.
pub open spec fn felts_result_view<E>(r: Result<Vec<Felt>, E>) -> Result<Seq<Seq<u8>>, E> {
    match r {
        Ok(felts) => Ok(felts_view(felts@)),
        Err(e) => Err(e),
    }
}

/// A query's target, or the failure to read it, as values.
pub open spec fn target_view(r: Result<(Vec<Felt>, Felt), Error>) -> Result<
    (Seq<Seq<u8>>, Seq<u8>),
    Error,
> {
    match r {
        Ok((keys, name)) => Ok((felts_view(keys@), name@)),
        Err(e) => Err(e),
    }
}

/// Reads the keys of a clause as elements.
pub fn parse_keys(keys: &Vec<Vec<u8>>) -> (r: Result<Vec<Felt>, FromByteSliceError>)
    ensures
        felts_result_view(r) == keys_felts(byte_runs(keys@)),
{
    let ghost raw = byte_runs(keys@);
    let mut felts: Vec<Felt> = Vec::new();
    let mut i: usize = 0;
    proof {
        assert(felts_view(felts@) =~= Seq::<Seq<u8>>::empty());
        assert(raw.take(0).len() == 0);
    }
    while i < keys.len()
        invariant
            i <= keys.len(),
            raw == byte_runs(keys@),
            keys_felts(raw.take(i as int)) == Ok::<Seq<Seq<u8>>, FromByteSliceError>(
                felts_view(felts@),
            ),
        decreases keys.len() - i,
    {
        proof {
            assert(raw.take(i + 1).drop_last() =~= raw.take(i as int));
            assert(raw.take(i + 1).last() == keys@[i as int]@);
        }
        match Felt::from_byte_slice_be(keys[i].as_slice()) {
            Ok(felt) => {
                let ghost before = felts@;
                felts.push(felt);
                proof {
                    assert(felts_view(felts@) =~= felts_view(before).push(felt@));
                }
            },
            Err(e) => {
                proof {
                    lemma_keys_error_stays(raw, i + 1);
                }
                return Err(e);
            },
        }
        i += 1;
    }
    proof {
        assert(raw.take(i as int) =~= raw);
    }
    Ok(felts)
}

/// Once the first keys of a clause fail to read, so does the whole clause,
/// with the same error.
pub proof fn lemma_keys_error_stays(keys: Seq<Seq<u8>>, n: int)
    requires
        0 <= n <= keys.len(),
        keys_felts(keys.take(n)) is Err,
    ensures
        keys_felts(keys) == keys_felts(keys.take(n)),
    decreases keys.len() - n,
{
    if n < keys.len() {
        assert(keys.take(n + 1).drop_last() =~= keys.take(n));
        lemma_keys_error_stays(keys, n + 1);
    } else {
        assert(keys.take(n) =~= keys);
    }
}

impl EntityQuery {
    /// What this query asks for, before the model's size is known.
    pub fn target(&self) -> (r: Result<(Vec<Felt>, Felt), Error>)
        ensures
            target_view(r) == query_target(self@),
    {
        let raw = match &self.clause {
            Some(Clause { clause_type: Some(ClauseType::Keys(clause)) }) => &clause.keys,
            _ => {
                return Err(Error::UnsupportedQuery);
            },
        };
        let keys = match parse_keys(raw) {
            Ok(keys) => keys,
            Err(e) => {
                return Err(Error::Parse(ParseError::FromByteSliceError(e)));
            },
        };
        match Felt::from_short_string(self.model.as_str()) {
            Ok(name) => Ok((keys, name)),
            Err(e) => Err(Error::Parse(ParseError::CairoShortStringToFelt(e))),
        }
    }
}

/// What to do next about a subscription request.
pub enum SubscribePlan {
    /// The size of the model of the query at this index has to be looked
    /// up; every query before it is resolved.
    Lookup(usize),
    /// Every query is resolved: these are the filters to register.
    Register(Vec<SubscribeRequest>),
    /// The request fails with this error.
    Reject(Error),
}

/// What to do next about a subscription request, as a value.
pub enum SubscribePlanView {
    Lookup(int),
    Register(Seq<SubscribeRequestView>),
    Reject(Error),
}

impl View for SubscribePlan {
    type V = SubscribePlanView;

    open spec fn view(&self) -> SubscribePlanView {
        match self {
            SubscribePlan::Lookup(index) => SubscribePlanView::Lookup(*index as int),
            SubscribePlan::Register(requests) => SubscribePlanView::Register(
                requests_view(requests@),
            ),
            SubscribePlan::Reject(e) => SubscribePlanView::Reject(*e),
        }
    }
}

/// The filter that a query's target and its model's stored size make.
pub open spec fn request_of(
    target: (Seq<Seq<u8>>, Seq<u8>),
    packed_size: u32,
) -> SubscribeRequestView {
    SubscribeRequestView {
        keys: target.0,
        model: ModelMetadataView { name: target.1, packed_size: packed_size as usize },
    }
}

/// What to do about `queries` when `lookups` holds the outcome of looking
/// up the stored size of the model of each of the first queries, in
/// order. The queries are taken one by one: the first that cannot be read,
/// or whose lookup failed, rejects the request with its error; the first
/// whose lookup is still missing asks for it; and where neither occurs the
/// filters are registered together.
pub open spec fn subscribe_plan(
    queries: Seq<EntityQueryView>,
    lookups: Seq<Result<u32, Error>>,
) -> SubscribePlanView
    decreases queries.len(),
{
    if queries.len() == 0 {
        SubscribePlanView::Register(Seq::empty())
    } else {
        let index = queries.len() - 1;
        match subscribe_plan(queries.drop_last(), lookups) {
            SubscribePlanView::Register(requests) => match query_target(queries.last()) {
                Err(e) => SubscribePlanView::Reject(e),
                Ok(target) => if index >= lookups.len() {
                    SubscribePlanView::Lookup(index)
                } else {
                    match lookups[index] {
                        Err(e) => SubscribePlanView::Reject(e),
                        Ok(size) => SubscribePlanView::Register(
                            requests.push(request_of(target, size)),
                        ),
                    }
                },
            },
            other => other,
        }
    }
}

/// Once the first queries of a request do not lead to a registration,
/// neither does the whole request: what they led to stands.
pub proof fn lemma_plan_stops(
    queries: Seq<EntityQueryView>,
    lookups: Seq<Result<u32, Error>>,
    n: int,
)
    requires
        0 <= n <= queries.len(),
        !(subscribe_plan(queries.take(n), lookups) is Register),
    ensures
        subscribe_plan(queries, lookups) == subscribe_plan(queries.take(n), lookups),
    decreases queries.len() - n,
{
    if n < queries.len() {
        assert(queries.take(n + 1).drop_last() =~= queries.take(n));
        lemma_plan_stops(queries, lookups, n + 1);
    } else {
        assert(queries.take(n) =~= queries);
    }
}

/// Decides what to do next about a subscription request.
pub fn plan_subscription(
    queries: &Vec<EntityQuery>,
    lookups: &Vec<Result<u32, Error>>,
) -> (plan: SubscribePlan)
    ensures
        plan@ == subscribe_plan(queries_view(queries@), lookups@),
{
    let ghost all = queries_view(queries@);
    let mut requests: Vec<SubscribeRequest> = Vec::new();
    let mut i: usize = 0;
    proof {
        assert(requests_view(requests@) =~= Seq::<SubscribeRequestView>::empty());
        assert(all.take(0).len() == 0);
    }
    while i < queries.len()
        invariant
            i <= queries.len(),
            all == queries_view(queries@),
            subscribe_plan(all.take(i as int), lookups@) == SubscribePlanView::Register(
                requests_view(requests@),
            ),
        decreases queries.len() - i,
    {
        proof {
            assert(all.take(i + 1).drop_last() =~= all.take(i as int));
            assert(all.take(i + 1).last() == queries@[i as int]@);
        }
        let (keys, name) = match queries[i].target() {
            Ok(target) => target,
            Err(e) => {
                proof {
                    lemma_plan_stops(all, lookups@, i + 1);
                }
                return SubscribePlan::Reject(e);
            },
        };
        if i >= lookups.len() {
            proof {
                lemma_plan_stops(all, lookups@, i + 1);
            }
            return SubscribePlan::Lookup(i);
        }
        let packed_size: u32 = match &lookups[i] {
            Ok(size) => *size,
            Err(e) => {
                proof {
                    lemma_plan_stops(all, lookups@, i + 1);
                }
                return SubscribePlan::Reject(e.duplicate());
            },
        };
        let ghost before = requests@;
        let request = SubscribeRequest {
            keys,
            model: ModelMetadata { name, packed_size: packed_size as usize },
        };
        requests.push(request);
        proof {
            assert(requests_view(requests@) =~= requests_view(before).push(request@));
        }
        i += 1;
    }
    proof {
        assert(all.take(i as int) =~= all);
    }
    SubscribePlan::Register(requests)
}

/// Where the stream of one subscriber stands.
#[derive(Clone, Copy, Debug, PartialEq, Eq, Structural)]
pub enum StreamState {
    /// The subscriber is registered; nothing was read yet.
    Registered,
    /// Notifications are being read.
    Streaming,
    /// The client gave the stream up.
    Cancelled,
    /// The channel was closed from the registry's side.
    Closed,
}

/// What happens to the stream of one subscriber.
#[derive(Clone, Copy, Debug, PartialEq, Eq, Structural)]
pub enum StreamEvent {
    /// A notification was handed to the client.
    Delivered,
    /// The client dropped or cancelled the stream.
    Cancelled,
    /// The channel has no sender left and is empty.
    Ended,
}

/// The state of a stream after an event, and whether the subscriber is to
/// be removed from the registry now. A live stream goes on with every
/// notification and ends with a cancellation or the end of its channel,
/// at which its subscriber is removed; a stream that is over stays so.
pub open spec fn stream_transition(state: StreamState, event: StreamEvent) -> (StreamState, bool) {
    match state {
        StreamState::Registered | StreamState::Streaming => match event {
            StreamEvent::Delivered => (StreamState::Streaming, false),
            StreamEvent::Cancelled => (StreamState::Cancelled, true),
            StreamEvent::Ended => (StreamState::Closed, true),
        },
        _ => (state, false),
    }
}

impl StreamState {
    /// The state after `event`, and whether the subscriber is to be
    /// removed from the registry now.
    pub fn step(self, event: StreamEvent) -> (r: (StreamState, bool))
        ensures
            r == stream_transition(self, event),
    {
        match self {
            StreamState::Registered | StreamState::Streaming => match event {
                StreamEvent::Delivered => (StreamState::Streaming, false),
                StreamEvent::Cancelled => (StreamState::Cancelled, true),
                StreamEvent::Ended => (StreamState::Closed, true),
            },
            _ => (self, false),
        }
    }
}

/// How a step of a subscription request ended.
pub enum SubscribeStep {
    /// The size of the model of the query at this index has to be looked
    /// up before the request can go on.
    Lookup(usize),
    /// The subscriber is registered.
    Subscribed(Subscription),
    /// The request failed; nobody was registered.
    Rejected(Error),
}

/// The service of one world: its address, and the registry of those who
/// subscribed to its entities.
pub struct DojoWorld {
    pub world_address: Felt,
    pub subscriber_manager: SubscriberManager,
}

/// The first failure to decode the layout of a stored model, in the
/// store's order, if there is one.
pub open spec fn first_bad_layout(models: Seq<(ModelRow, Vec<u8>)>) -> Option<FromHexError>
    decreases models.len(),
{
    if models.len() == 0 {
        None
    } else {
        match first_bad_layout(models.drop_last()) {
            Some(e) => Some(e),
            None => match hex_decoding(encode_utf8(models.last().0.layout@)) {
                Err(e) => Some(e),
                Ok(_) => None,
            },
        }
    }
}

/// Once the layout of one of the first models fails to decode, that
/// failure is the first of all.
pub proof fn lemma_bad_layout_stays(models: Seq<(ModelRow, Vec<u8>)>, n: int)
    requires
        0 <= n <= models.len(),
        first_bad_layout(models.take(n)) is Some,
    ensures
        first_bad_layout(models) == first_bad_layout(models.take(n)),
    decreases models.len() - n,
{
    if n < models.len() {
        assert(models.take(n + 1).drop_last() =~= models.take(n));
        lemma_bad_layout_stays(models, n + 1);
    } else {
        assert(models.take(n) =~= models);
    }
}

/// Whether `answer` is the answer for the stored model `row` with the
/// encoded schema `schema`: the row's texts and sizes, the layout decoded
/// from hex, and the schema as it is.
pub open spec fn describes(answer: types::ModelMetadata, row: ModelRow, schema: Seq<u8>) -> bool {
    &&& answer.name@ == row.name@
    &&& answer.class_hash@ == row.class_hash@
    &&& answer.packed_size == row.packed_size
    &&& answer.unpacked_size == row.unpacked_size
    &&& answer.layout@ == hex_decoded(encode_utf8(row.layout@))
    &&& answer.schema@ == schema
}

/// The query for the stored row of the world at this address.
pub open spec fn world_query_text(address: Seq<u8>) -> Seq<char> {
    "SELECT world_address, world_class_hash, executor_address, "@
        + "executor_class_hash FROM worlds WHERE id = '"@ + felt_hex(address) + "'"@
}

/// The status that a failed subscription request is answered with: an
/// absent row is not found, anything else is an internal failure; either
/// carries the error's text.
pub open spec fn subscription_status(e: Error) -> (Code, Seq<char>) {
    if e.is_row_not_found() {
        (Code::NotFound, e.text())
    } else {
        (Code::Internal, e.text())
    }
}

/// The status that a failed metadata call is answered with: an absent row
/// is a world that was not found, anything else an internal failure that
/// carries the error's text.
pub open spec fn metadata_status(e: Error) -> (Code, Seq<char>) {
    if e.is_row_not_found() {
        (Code::NotFound, "World not found"@)
    } else {
        (Code::Internal, e.text())
    }
}

impl DojoWorld {
    /// What holds of every service: its registry is in order.
    pub open spec fn wf(&self) -> bool {
        self.subscriber_manager.wf()
    }

    /// The service of the world at `world_address`, with nobody subscribed.
    pub fn new(world_address: Felt) -> (r: DojoWorld)
        ensures
            r.wf(),
            r.world_address == world_address,
            r.subscriber_manager.subscribers() == Seq::<SubscriberView>::empty(),
            r.subscriber_manager.next_id() == 0,
    {
        DojoWorld { world_address, subscriber_manager: SubscriberManager::default() }
    }

    /// The query for the stored row of this world, whose id is its address
    /// as hex text; none where the address is no element of the field.
    pub fn world_query(&self) -> (r: Option<String>)
        ensures
            r is Some <==> be_value(self.world_address@) < field_modulus(),
            r matches Some(query) ==> query@ == world_query_text(self.world_address@),
    {
        match self.world_address.to_hex() {
            Some(id) => Some(
                String::from_str("SELECT world_address, world_class_hash, executor_address, ")
                    .concat("executor_class_hash FROM worlds WHERE id = '")
                    .concat(id.as_str())
                    .concat("'"),
            ),
            None => None,
        }
    }

    /// The answer for one model, from its stored row and its encoded
    /// schema; where the stored layout is no hex text, the parse error that
    /// says why.
    pub fn model_metadata(row: &ModelRow, schema: &Vec<u8>) -> (r: Result<
        types::ModelMetadata,
        Error,
    >)
        ensures
            match hex_decoding(encode_utf8(row.layout@)) {
                Ok(_) => r matches Ok(answer) && describes(answer, *row, schema@),
                Err(e) => r == Err::<types::ModelMetadata, Error>(
                    Error::Parse(ParseError::FromHex(e)),
                ),
            },
    {
        match hex_decode(row.layout.as_str()) {
            Ok(layout) => Ok(
                types::ModelMetadata {
                    name: row.name.clone(),
                    class_hash: row.class_hash.clone(),
                    packed_size: row.packed_size,
                    unpacked_size: row.unpacked_size,
                    layout,
                    schema: schema.clone(),
                },
            ),
            Err(e) => Err(Error::Parse(ParseError::FromHex(e))),
        }
    }

    /// The answer for the world, from its stored row and, for each of its
    /// models in the store's order, the model's row and encoded schema;
    /// where a stored layout is no hex text, the parse error of the first
    /// such model.
    pub fn metadata(world: &WorldRow, models: &Vec<(ModelRow, Vec<u8>)>) -> (r: Result<
        WorldMetadata,
        Error,
    >)
        ensures
            match first_bad_layout(models@) {
                Some(e) => r == Err::<WorldMetadata, Error>(Error::Parse(ParseError::FromHex(e))),
                None => {
                    &&& r matches Ok(answer)
                    &&& answer.world_address@ == world.world_address@
                    &&& answer.world_class_hash@ == world.world_class_hash@
                    &&& answer.executor_address@ == world.executor_address@
                    &&& answer.executor_class_hash@ == world.executor_class_hash@
                    &&& answer.models.len() == models.len()
                    &&& forall|i: int|
                        0 <= i < models.len() ==> describes(
                            #[trigger] answer.models@[i],
                            models@[i].0,
                            models@[i].1@,
                        )
                },
            },
    {
        let mut answers: Vec<types::ModelMetadata> = Vec::new();
        let mut i: usize = 0;
        proof {
            assert(models@.take(0).len() == 0);
        }
        while i < models.len()
            invariant
                i <= models.len(),
                answers.len() == i,
                first_bad_layout(models@.take(i as int)) is None,
                forall|j: int|
                    0 <= j < i ==> describes(#[trigger] answers@[j], models@[j].0, models@[j].1@),
            decreases models.len() - i,
        {
            proof {
                assert(models@.take(i + 1).drop_last() =~= models@.take(i as int));
                assert(models@.take(i + 1).last() == models@[i as int]);
            }
            match DojoWorld::model_metadata(&models[i].0, &models[i].1) {
                Ok(answer) => {
                    answers.push(answer);
                },
                Err(e) => {
                    proof {
                        lemma_bad_layout_stays(models@, i + 1);
                    }
                    return Err(e);
                },
            }
            i += 1;
        }
        proof {
            assert(models@.take(i as int) =~= models@);
        }
        Ok(
            WorldMetadata {
                world_address: world.world_address.clone(),
                world_class_hash: world.world_class_hash.clone(),
                executor_address: world.executor_address.clone(),
                executor_class_hash: world.executor_class_hash.clone(),
                models: answers,
            },
        )
    }

    /// The answer to the world metadata call: the metadata where it could
    /// be had, else the status for the failure.
    pub fn world_metadata(metadata: Result<WorldMetadata, Error>) -> (r: Result<
        MetadataResponse,
        Status,
    >)
        ensures
            match metadata {
                Ok(found) => r == Ok::<MetadataResponse, Status>(
                    MetadataResponse { metadata: Some(found) },
                ),
                Err(e) => r matches Err(status) && (status.code, status.message@)
                    == metadata_status(e),
            },
    {
        match metadata {
            Ok(found) => Ok(MetadataResponse { metadata: Some(found) }),
            Err(e) => {
                let not_found = match &e {
                    Error::Sql(sql) => sql.row_not_found,
                    _ => false,
                };
                if not_found {
                    Err(
                        Status {
                            code: Code::NotFound,
                            message: String::from_str("World not found"),
                        },
                    )
                } else {
                    Err(Status { code: Code::Internal, message: e.message() })
                }
            },
        }
    }

    /// The status that a failed subscription request is answered with.
    pub fn subscribe_status(e: &Error) -> (status: Status)
        ensures
            (status.code, status.message@) == subscription_status(*e),
    {
        let not_found = match e {
            Error::Sql(sql) => sql.row_not_found,
            _ => false,
        };
        if not_found {
            Status { code: Code::NotFound, message: e.message() }
        } else {
            Status { code: Code::Internal, message: e.message() }
        }
    }

    /// Whether another subscriber can still be registered.
    pub fn can_subscribe(&self) -> (r: bool)
        ensures
            r == (self.subscriber_manager.next_id() < u64::MAX),
    {
        self.subscriber_manager.has_free_id()
    }

    /// One step of a subscription request. `lookups` holds what looking up
    /// the stored size of the models of the first queries gave, in order.
    /// The step asks for the next lookup, or rejects the request, or, once
    /// every query is resolved, registers all its filters under one new
    /// subscriber. Unless it registers, the registry stays as it was.
    pub fn subscribe_entities(
        &mut self,
        queries: &Vec<EntityQuery>,
        lookups: &Vec<Result<u32, Error>>,
    ) -> (step: SubscribeStep)
        requires
            old(self).wf(),
            old(self).subscriber_manager.next_id() < u64::MAX,
        ensures
            final(self).wf(),
            final(self).world_address == old(self).world_address,
            match subscribe_plan(queries_view(queries@), lookups@) {
                SubscribePlanView::Lookup(index) => {
                    &&& step matches SubscribeStep::Lookup(asked)
                    &&& asked == index
                    &&& final(self).subscriber_manager == old(self).subscriber_manager
                },
                SubscribePlanView::Reject(e) => {
                    &&& step matches SubscribeStep::Rejected(given)
                    &&& given == e
                    &&& final(self).subscriber_manager == old(self).subscriber_manager
                },
                SubscribePlanView::Register(requests) => {
                    &&& step matches SubscribeStep::Subscribed(subscription)
                    &&& subscription.id == old(self).subscriber_manager.next_id()
                    &&& final(self).subscriber_manager.next_id() == old(
                        self,
                    ).subscriber_manager.next_id() + 1
                    &&& final(self).subscriber_manager.capacity() == old(
                        self,
                    ).subscriber_manager.capacity()
                    &&& final(self).subscriber_manager.subscribers().len() == old(
                        self,
                    ).subscriber_manager.subscribers().len() + 1
                    &&& final(self).subscriber_manager.subscribers().drop_last() == old(
                        self,
                    ).subscriber_manager.subscribers()
                    &&& final(self).subscriber_manager.subscribers().last().id
                        == subscription.id
                    &&& final(self).subscriber_manager.subscribers().last().entries == requests
                },
            },
    {
        match plan_subscription(queries, lookups) {
            SubscribePlan::Lookup(index) => SubscribeStep::Lookup(index),
            SubscribePlan::Reject(e) => SubscribeStep::Rejected(e),
            SubscribePlan::Register(requests) => SubscribeStep::Subscribed(
                self.subscriber_manager.add_subscriber(requests),
            ),
        }
    }
}

/// A request with a query whose clause is no keys clause registers nobody,
/// whatever the lookups gave; and where every query before that one was
/// resolved, the request is rejected as an unsupported query.
pub proof fn lemma_non_keys_clause_registers_nobody(
    queries: Seq<EntityQueryView>,
    lookups: Seq<Result<u32, Error>>,
    index: int,
)
    requires
        0 <= index < queries.len(),
        queries[index].keys is None,
    ensures
        !(subscribe_plan(queries, lookups) is Register),
        subscribe_plan(queries.take(index), lookups) is Register ==> subscribe_plan(
            queries,
            lookups,
        ) == SubscribePlanView::Reject(Error::UnsupportedQuery),
{
    assert(queries.take(index + 1).drop_last() =~= queries.take(index));
    assert(queries.take(index + 1).last() == queries[index]);
    lemma_plan_stops(queries, lookups, index + 1);
}

} // verus!
