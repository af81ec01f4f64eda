use vstd::prelude::*;
use cosmwasm_std::Response;

use crate::error::{ContractError, ContractErrorView, QueryError, QueryErrorView};
use crate::msg::{
    ExecuteMsg, ExecuteMsgView, FeedListResponse, FeedResponse, InstantiateMsg, QueryMsg,
    QueryMsgView, QueryResponse, QueryResponseView,
};
use crate::response::{empty_response, response_attributes, response_message_count, with_attribute};
use crate::state::{feed_views, is_page, Feed, FeedStore, FeedStoreView, FeedView, State};

verus! {

/// The most feeds that one listing returns.
pub const MAX_LIMIT: u64 = 30;

/// The number of feeds that a listing returns when no limit is given.
pub const DEFAULT_LIMIT: u64 = 10;

/// What an execution comes to: the attributes of its response, or its error.
pub enum Outcome {
    Done(Seq<(Seq<char>, Seq<char>)>),
    Failed(ContractErrorView),
}

/// The outcome of an execution's result.
pub open spec fn outcome_of(r: Result<Response, ContractError>) -> Outcome {
    match r {
        Ok(resp) => Outcome::Done(response_attributes(resp)),
        Err(e) => Outcome::Failed(e@),
    }
}

/// A successful execution asks the chain to run no further message.
pub open spec fn sends_no_message(r: Result<Response, ContractError>) -> bool {
    r matches Ok(resp) ==> response_message_count(resp) == 0
}

// ---------------------------------------------------------------------------
// The model of each operation

/// The state after instantiation with the administrator `admin`: the
/// counter restarts at zero, the feeds stay as they are.
pub open spec fn spec_instantiate(m: FeedStoreView, admin: Seq<char>) -> FeedStoreView {
    FeedStoreView { admin: Some(admin), counter: Some(0), feeds: m.feeds }
}

/// The attributes of the response to an instantiation.
pub open spec fn instantiate_attributes(admin: Seq<char>) -> Seq<(Seq<char>, Seq<char>)> {
    seq![("method"@, "instantiate"@), ("owner"@, admin), ("feed_counter"@, "0"@)]
}

/// The id that a new feed gets: the counter, unless a feed is stored under
/// it already, in which case the one after it.
pub open spec fn next_feed_id(m: FeedStoreView) -> u128 {
    if m.feeds.contains_key(m.counter_value()) {
        (m.counter_value() + 1) as u128
    } else {
        m.counter_value()
    }
}

/// Creating a feed has no next id: a feed is stored under the counter and the
/// counter is the largest `u128`.
pub open spec fn create_overflows(m: FeedStoreView) -> bool {
    m.feeds.contains_key(m.counter_value()) && m.counter_value() == u128::MAX
}

/// Creating a feed owned by `address` with the text `message`, on behalf of
/// `sender`: only the owner may create it; it is stored under the next id,
/// which becomes the counter.
pub open spec fn spec_create_feed(
    m: FeedStoreView,
    sender: Seq<char>,
    address: Seq<char>,
    message: Seq<char>,
) -> (FeedStoreView, Outcome) {
    if sender != address {
        (m, Outcome::Failed(ContractErrorView::Unauthorized))
    } else {
        let id = next_feed_id(m);
        (
            FeedStoreView {
                admin: m.admin,
                counter: Some(id),
                feeds: m.feeds.insert(id, FeedView { id, address, message }),
            },
            Outcome::Done(seq![("method"@, "feedcreated"@)]),
        )
    }
}

/// Replacing the text of the feed `id` on behalf of `sender`: the feed must
/// exist and belong to the sender; only its text changes.
pub open spec fn spec_update_feed(
    m: FeedStoreView,
    sender: Seq<char>,
    id: u128,
    message: Seq<char>,
) -> (FeedStoreView, Outcome) {
    if !m.feeds.contains_key(id) {
        (m, Outcome::Failed(ContractErrorView::CustomError("Feed not found!"@)))
    } else if m.feeds[id].address != sender {
        (m, Outcome::Failed(ContractErrorView::Unauthorized))
    } else {
        let old = m.feeds[id];
        (
            FeedStoreView {
                admin: m.admin,
                counter: m.counter,
                feeds: m.feeds.insert(id, FeedView { id: old.id, address: old.address, message }),
            },
            Outcome::Done(
                seq![("action"@, "updated_feed"@), ("update_by"@, sender), ("message"@, message)],
            ),
        )
    }
}

/// An execution message, on behalf of `sender`.
pub open spec fn spec_execute(m: FeedStoreView, sender: Seq<char>, msg: ExecuteMsgView) -> (
    FeedStoreView,
    Outcome,
) {
    match msg {
        ExecuteMsgView::CreateFeed { address, message } => spec_create_feed(
            m,
            sender,
            address,
            message,
        ),
        ExecuteMsgView::UpdateFeed { id, message } => spec_update_feed(m, sender, id, message),
    }
}

/// The execution message can be carried out (it does not run out of ids).
pub open spec fn execute_defined(m: FeedStoreView, msg: ExecuteMsgView) -> bool {
    match msg {
        ExecuteMsgView::CreateFeed { .. } => !create_overflows(m),
        ExecuteMsgView::UpdateFeed { .. } => true,
    }
}

/// The number of feeds that a listing with this limit returns at most.
pub open spec fn page_size(limit: Option<u64>) -> nat {
    let l = match limit {
        Some(l) => l,
        None => DEFAULT_LIMIT,
    };
    if l < MAX_LIMIT {
        l as nat
    } else {
        MAX_LIMIT as nat
    }
}

/// The highest id that a listing with this offset returns: the counter minus
/// the offset; with no offset, no bound.
pub open spec fn listing_bound(m: FeedStoreView, offset: Option<u128>) -> Option<u128> {
    match offset {
        Some(o) => Some((m.counter_value() - o) as u128),
        None => None,
    }
}

/// The offset is no greater than the counter.
pub open spec fn offset_fits(m: FeedStoreView, offset: Option<u128>) -> bool {
    offset matches Some(o) ==> o <= m.counter_value()
}

/// The query can be answered: a single feed is asked for only once a counter
/// exists, and then the feed must be stored and belong to the given owner;
/// a listing's offset must not exceed the counter.
pub open spec fn query_defined(m: FeedStoreView, msg: QueryMsgView) -> bool {
    match msg {
        QueryMsgView::GetFeed { address, feed_id } => m.counter is None || m.has_feed_of(
            address,
            feed_id,
        ),
        QueryMsgView::GetAllFeeds { offset, .. } => offset_fits(m, offset),
        QueryMsgView::GetAllFeedsByOwner { offset, .. } => offset_fits(m, offset),
    }
}

/// The error of a single-feed query made before any counter exists.
pub open spec fn no_feeds_error() -> QueryErrorView {
    QueryErrorView::NotFound("There are no feeds to get"@)
}

/// The view of a query's result.
pub open spec fn query_result_view(r: Result<QueryResponse, QueryError>) -> Result<
    QueryResponseView,
    QueryErrorView,
> {
    match r {
        Ok(resp) => Ok(resp@),
        Err(e) => Err(e@),
    }
}

/// The answer to a single-feed query on the state `m`: an error before any
/// counter exists, otherwise the feed stored under `feed_id`.
pub open spec fn spec_get_feed(m: FeedStoreView, feed_id: u128) -> Result<FeedView, QueryErrorView> {
    match m.counter {
        None => Err(no_feeds_error()),
        Some(_) => Ok(m.feeds[feed_id]),
    }
}

/// The view of a single-feed query's result.
pub open spec fn feed_result_view(r: Result<FeedResponse, QueryError>) -> Result<
    FeedView,
    QueryErrorView,
> {
    match r {
        Ok(resp) => Ok(resp.feed@),
        Err(e) => Err(e@),
    }
}

/// `r` is the listing of the state `m` for the given owner filter, offset and
/// limit.
pub open spec fn listing_page(
    r: Seq<FeedView>,
    m: FeedStoreView,
    owner: Option<Seq<char>>,
    offset: Option<u128>,
    limit: Option<u64>,
) -> bool {
    is_page(r, m.feeds, owner, listing_bound(m, offset), page_size(limit))
}

/// `r` is the answer to the query `msg` on the state `m`.
pub open spec fn query_answers(
    m: FeedStoreView,
    msg: QueryMsgView,
    r: Result<QueryResponseView, QueryErrorView>,
) -> bool {
    match msg {
        QueryMsgView::GetFeed { address, feed_id } => match spec_get_feed(m, feed_id) {
            Ok(f) => r == Ok::<QueryResponseView, QueryErrorView>(QueryResponseView::Feed(f)),
            Err(e) => r == Err::<QueryResponseView, QueryErrorView>(e),
        },
        QueryMsgView::GetAllFeeds { offset, limit } => r matches Ok(
            QueryResponseView::FeedList(page),
        ) && listing_page(page, m, None, offset, limit),
        QueryMsgView::GetAllFeedsByOwner { offset, limit, address } => r matches Ok(
            QueryResponseView::FeedList(page),
        ) && listing_page(page, m, Some(address), offset, limit),
    }
}

// ---------------------------------------------------------------------------
// The operations

/// Instantiates the contract with the administrator `msg.admin_address` (an
/// address that the chain has validated): saves it, sets the feed counter to
/// zero and leaves the feeds alone.
pub fn instantiate(store: &mut FeedStore, msg: InstantiateMsg) -> (r: Response)
    ensures
        final(store)@ == spec_instantiate(old(store)@, msg.admin_address@),
        response_attributes(r) == instantiate_attributes(msg.admin_address@),
        response_message_count(r) == 0,
{
    let admin_address = msg.admin_address;
    let feedcounter: u128 = 0;
    let state = State { admin_address: admin_address.clone() };
    store.save_state(state);
    store.save_counter(feedcounter);
    proof {
        reveal_strlit("method");
        reveal_strlit("owner");
        reveal_strlit("feed_counter");
    }
    let r = empty_response();
    let r = with_attribute(r, "method", "instantiate".to_owned());
    let r = with_attribute(r, "owner", admin_address);
    // the counter starts at zero
    let r = with_attribute(r, "feed_counter", "0".to_owned());
    r
}

/// Carries out an execution message on behalf of `sender`.
pub fn execute(store: &mut FeedStore, sender: &String, msg: ExecuteMsg) -> (r: Result<
    Response,
    ContractError,
>)
    requires
        execute_defined(old(store)@, msg@),
    ensures
        final(store)@ == spec_execute(old(store)@, sender@, msg@).0,
        outcome_of(r) == spec_execute(old(store)@, sender@, msg@).1,
        sends_no_message(r),
{
    match msg {
        ExecuteMsg::CreateFeed { address, message } => create_feed(store, sender, address, message),
        ExecuteMsg::UpdateFeed { id, message } => update_feed(store, sender, id, message),
    }
}

/// Whether [`execute`] can carry out `msg` on this store (creating a feed
/// needs an id to be left).
pub fn execute_is_defined(store: &FeedStore, msg: &ExecuteMsg) -> (r: bool)
    ensures
        r == execute_defined(store@, msg@),
{
    match msg {
        ExecuteMsg::CreateFeed { .. } => {
            let c = match store.counter() {
                Some(c) => c,
                None => 0,
            };
            !(store.contains(c) && c == u128::MAX)
        },
        ExecuteMsg::UpdateFeed { .. } => true,
    }
}

/// Creates a feed owned by `address` (an address that the chain has
/// validated) with the text `message`, on behalf of `sender`.
pub fn create_feed(store: &mut FeedStore, sender: &String, address: String, message: String) -> (r:
    Result<Response, ContractError>)
    requires
        !create_overflows(old(store)@),
    ensures
        final(store)@ == spec_create_feed(old(store)@, sender@, address@, message@).0,
        outcome_of(r) == spec_create_feed(old(store)@, sender@, address@, message@).1,
        sends_no_message(r),
{
    let feed_counter = match store.counter() {
        Some(counter) => counter,
        None => 0u128,
    };
    let found = store.contains(feed_counter);
    let feed = if !found {
        Feed { id: feed_counter, address: address, message: message }
    } else {
        Feed { id: feed_counter + 1, address: address, message: message }
    };
    if !(*sender == feed.address) {
        return Err(ContractError::Unauthorized {  });
    }
    let id = feed.id;
    store.save(feed);
    store.save_counter(id);
    proof {
        reveal_strlit("method");
    }
    let r = empty_response();
    let r = with_attribute(r, "method", "feedcreated".to_owned());
    Ok(r)
}

/// Replaces the text of the feed `id` with `message`, on behalf of `sender`.
pub fn update_feed(store: &mut FeedStore, sender: &String, id: u128, message: String) -> (r: Result<
    Response,
    ContractError,
>)
    ensures
        final(store)@ == spec_update_feed(old(store)@, sender@, id, message@).0,
        outcome_of(r) == spec_update_feed(old(store)@, sender@, id, message@).1,
        sends_no_message(r),
{
    let (fid, owner) = match store.get(id) {
        Some(feed) => (feed.id, feed.address.clone()),
        None => {
            return Err(ContractError::CustomError { val: "Feed not found!".to_owned() });
        },
    };
    if !(*sender == owner) {
        return Err(ContractError::Unauthorized {  });
    }
    let text = message.clone();
    let feed_update = Feed { id: fid, address: owner, message };
    store.save(feed_update);
    proof {
        reveal_strlit("action");
        reveal_strlit("update_by");
        reveal_strlit("message");
    }
    let r = empty_response();
    let r = with_attribute(r, "action", "updated_feed".to_owned());
    let r = with_attribute(r, "update_by", sender.clone());
    let r = with_attribute(r, "message", text);
    assert(response_attributes(r) =~= seq![
        ("action"@, "updated_feed"@),
        ("update_by"@, sender@),
        ("message"@, message@),
    ]);
    Ok(r)
}

/// Answers a query.
pub fn query(store: &FeedStore, msg: QueryMsg) -> (r: Result<QueryResponse, QueryError>)
    requires
        query_defined(store@, msg@),
    ensures
        query_answers(store@, msg@, query_result_view(r)),
{
    match msg {
        QueryMsg::GetFeed { address, feed_id } => match get_feed(store, address, feed_id) {
            Ok(resp) => Ok(QueryResponse::Feed(resp)),
            Err(e) => Err(e),
        },
        QueryMsg::GetAllFeeds { offset, limit } => Ok(
            QueryResponse::FeedList(get_all_feeds(store, offset, limit)),
        ),
        QueryMsg::GetAllFeedsByOwner { offset, limit, address } => Ok(
            QueryResponse::FeedList(get_all_feeds_by_owner(store, offset, limit, address)),
        ),
    }
}

/// Whether [`query`] can answer `msg` on this store.
pub fn query_is_defined(store: &FeedStore, msg: &QueryMsg) -> (r: bool)
    ensures
        r == query_defined(store@, msg@),
{
    match msg {
        QueryMsg::GetFeed { address, feed_id } => match store.counter() {
            None => true,
            Some(_) => match store.get(*feed_id) {
                Some(f) => f.address == *address,
                None => false,
            },
        },
        QueryMsg::GetAllFeeds { offset, .. } => offset_is_valid(store, *offset),
        QueryMsg::GetAllFeedsByOwner { offset, .. } => offset_is_valid(store, *offset),
    }
}

fn offset_is_valid(store: &FeedStore, offset: Option<u128>) -> (r: bool)
    ensures
        r == offset_fits(store@, offset),
{
    match offset {
        Some(o) => o <= counter_value(store),
        None => true,
    }
}

fn counter_value(store: &FeedStore) -> (r: u128)
    ensures
        r == store@.counter_value(),
{
    match store.counter() {
        Some(c) => c,
        None => 0,
    }
}

/// The feed `feed_id` of the owner `address` (an address that the chain has
/// validated).
pub fn get_feed(store: &FeedStore, address: String, feed_id: u128) -> (r: Result<
    FeedResponse,
    QueryError,
>)
    requires
        store@.counter is None || store@.has_feed_of(address@, feed_id),
    ensures
        feed_result_view(r) == spec_get_feed(store@, feed_id),
{
    match store.counter() {
        Some(_) => {},
        None => {
            return Err(QueryError::NotFound { kind: "There are no feeds to get".to_owned() });
        },
    }
    match store.get(feed_id) {
        Some(f) => Ok(FeedResponse { feed: f.duplicate() }),
        None => {
            proof {
                assert(false);
            }
            Err(QueryError::NotFound { kind: "Feed not found".to_owned() })
        },
    }
}

fn num_items(limit: Option<u64>) -> (r: usize)
    ensures
        r == page_size(limit),
{
    let l = match limit {
        Some(l) => l,
        None => DEFAULT_LIMIT,
    };
    let m = if l < MAX_LIMIT {
        l
    } else {
        MAX_LIMIT
    };
    m as usize
}

fn bound_of(store: &FeedStore, offset: Option<u128>) -> (r: Option<u128>)
    requires
        offset_fits(store@, offset),
    ensures
        r == listing_bound(store@, offset),
{
    let total_count = counter_value(store);
    match offset {
        Some(o) => Some(total_count - o),
        None => None,
    }
}

/// A page of all feeds, newest first: at most `limit` of them (10 when no
/// limit is given, never more than 30), none with an id above the counter
/// minus `offset` when an offset is given.
pub fn get_all_feeds(store: &FeedStore, offset: Option<u128>, limit: Option<u64>) -> (r:
    FeedListResponse)
    requires
        offset_fits(store@, offset),
    ensures
        listing_page(feed_views(r.feeds@), store@, None, offset, limit),
{
    let n = num_items(limit);
    let finish = bound_of(store, offset);
    let list = store.page(None, finish, n);
    FeedListResponse { feeds: list }
}

/// A page of the feeds of the owner `address` (an address that the chain has
/// validated), newest first, bounded as in [`get_all_feeds`].
pub fn get_all_feeds_by_owner(
    store: &FeedStore,
    offset: Option<u128>,
    limit: Option<u64>,
    address: String,
) -> (r: FeedListResponse)
    requires
        offset_fits(store@, offset),
    ensures
        listing_page(feed_views(r.feeds@), store@, Some(address@), offset, limit),
{
    let n = num_items(limit);
    let finish = bound_of(store, offset);
    let list = store.page(Some(&address), finish, n);
    FeedListResponse { feeds: list }
}

} // verus!
