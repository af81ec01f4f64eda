use vstd::prelude::*;

use crate::state::{Feed, FeedView};

verus! {

/// The message that instantiates the contract.
pub struct InstantiateMsg {
    pub admin_address: String,
}

/// The messages that change the contract's state.
pub enum ExecuteMsg {
    /// Posts `message` as a new feed owned by `address`.
    CreateFeed { address: String, message: String },
    /// Replaces the text of the feed `id`.
    UpdateFeed { id: u128, message: String },
}

/// The mathematical value of an [`ExecuteMsg`].
pub enum ExecuteMsgView {
    CreateFeed { address: Seq<char>, message: Seq<char> },
    UpdateFeed { id: u128, message: Seq<char> },
}

impl View for ExecuteMsg {
    type V = ExecuteMsgView;

    open spec fn view(&self) -> ExecuteMsgView {
        match self {
            ExecuteMsg::CreateFeed { address, message } => ExecuteMsgView::CreateFeed {
                address: address@,
                message: message@,
            },
            ExecuteMsg::UpdateFeed { id, message } => ExecuteMsgView::UpdateFeed {
                id: *id,
                message: message@,
            },
        }
    }
}

/// The messages that read the contract's state.
pub enum QueryMsg {
    /// The feed `feed_id` of the owner `address`.
    GetFeed { address: String, feed_id: u128 },
    /// A page of all feeds, newest first.
    GetAllFeeds { offset: Option<u128>, limit: Option<u64> },
    /// A page of the feeds of the owner `address`, newest first.
    GetAllFeedsByOwner { offset: Option<u128>, limit: Option<u64>, address: String },
}

/// The mathematical value of a [`QueryMsg`].
pub enum QueryMsgView {
    GetFeed { address: Seq<char>, feed_id: u128 },
    GetAllFeeds { offset: Option<u128>, limit: Option<u64> },
    GetAllFeedsByOwner { offset: Option<u128>, limit: Option<u64>, address: Seq<char> },
}

impl View for QueryMsg {
    type V = QueryMsgView;

    open spec fn view(&self) -> QueryMsgView {
        match self {
            QueryMsg::GetFeed { address, feed_id } => QueryMsgView::GetFeed {
                address: address@,
                feed_id: *feed_id,
            },
            QueryMsg::GetAllFeeds { offset, limit } => QueryMsgView::GetAllFeeds {
                offset: *offset,
                limit: *limit,
            },
            QueryMsg::GetAllFeedsByOwner { offset, limit, address } =>
                QueryMsgView::GetAllFeedsByOwner { offset: *offset, limit: *limit, address: address@ },
        }
    }
}

/// The answer to [`QueryMsg::GetFeed`].
pub struct FeedResponse {
    pub feed: Feed,
}

/// The answer to the listing queries.
pub struct FeedListResponse {
    pub feeds: Vec<Feed>,
}

/// The answer to any query.
pub enum QueryResponse {
    Feed(FeedResponse),
    FeedList(FeedListResponse),
}

/// The mathematical value of a [`QueryResponse`].
pub enum QueryResponseView {
    Feed(FeedView),
    FeedList(Seq<FeedView>),
}

impl View for QueryResponse {
    type V = QueryResponseView;

    open spec fn view(&self) -> QueryResponseView {
        match self {
            QueryResponse::Feed(r) => QueryResponseView::Feed(r.feed@),
            QueryResponse::FeedList(r) => QueryResponseView::FeedList(
                r.feeds@.map_values(|f: Feed| f@),
            ),
        }
    }
}

} // verus!
