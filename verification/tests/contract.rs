use feed_contract::contract::{
    create_feed, execute, execute_is_defined, get_all_feeds, get_all_feeds_by_owner, get_feed,
    instantiate, query, query_is_defined, update_feed,
};
use feed_contract::error::{ContractError, QueryError};
use feed_contract::msg::{ExecuteMsg, InstantiateMsg, QueryMsg, QueryResponse};
use feed_contract::state::{Feed, FeedStore, State};

fn s(x: &str) -> String {
    x.to_string()
}

fn attrs(res: &cosmwasm_std::Response) -> Vec<(String, String)> {
    res.attributes.iter().map(|a| (a.key.clone(), a.value.clone())).collect()
}

fn ids(feeds: &[Feed]) -> Vec<u128> {
    feeds.iter().map(|f| f.id).collect()
}

fn instantiated() -> FeedStore {
    let mut store = FeedStore::new();
    let msg = InstantiateMsg { admin_address: s("admin") };
    instantiate(&mut store, msg);
    store
}

/// A store where "creator" owns the even ids and "other" the odd ids, 0..count.
fn store_with(count: u128) -> FeedStore {
    let mut store = instantiated();
    for i in 0..count {
        let owner = if i % 2 == 0 { s("creator") } else { s("other") };
        let msg = ExecuteMsg::CreateFeed { address: owner.clone(), message: format!("post {}", i) };
        execute(&mut store, &owner, msg).unwrap();
    }
    store
}

#[test]
fn proper_initialization() {
    let mut store = FeedStore::new();

    let msg = InstantiateMsg { admin_address: "admin".to_string() };

    // we can just call .unwrap() to assert this was a success
    let res = instantiate(&mut store, msg);
    assert_eq!(0, res.messages.len());
}

#[test]
fn create_feed_test() {
    let mut store = FeedStore::new();

    let msg = InstantiateMsg { admin_address: "admin".to_string() };
    let _res = instantiate(&mut store, msg);

    // no one else can create the feed for now
    let unauth_sender = "anyone".to_string();
    let msg = ExecuteMsg::CreateFeed {
        address: "someone".to_string(),
        message: "Testing Message Functionality".to_string(),
    };
    let res = execute(&mut store, &unauth_sender, msg);
    match res {
        Err(ContractError::Unauthorized {}) => {},
        _ => panic!("Must return unauthorized error"),
    }

    // only the original creator can create the feed
    let auth_sender = "creator".to_string();
    for _ in 0..8 {
        let msg = ExecuteMsg::CreateFeed {
            address: auth_sender.clone(),
            message: "Testing Message Functionality".to_string(),
        };
        let _res = execute(&mut store, &auth_sender, msg).unwrap();
    }

    // checking the feed
    let msg = QueryMsg::GetFeed { address: auth_sender.clone(), feed_id: 1 };
    let res = query(&store, msg).unwrap();
    match res {
        QueryResponse::Feed(value) => assert_eq!(1, value.feed.id),
        _ => panic!("Must return a single feed"),
    }
}

#[test]
fn instantiate_attributes_and_state() {
    let mut store = FeedStore::new();
    let res = instantiate(&mut store, InstantiateMsg { admin_address: s("admin") });
    assert_eq!(
        attrs(&res),
        vec![
            (s("method"), s("instantiate")),
            (s("owner"), s("admin")),
            (s("feed_counter"), s("0")),
        ]
    );
    assert_eq!(store.counter(), Some(0));
    assert_eq!(store.state().unwrap().admin_address, s("admin"));
    assert!(!store.contains(0));
}

#[test]
fn instantiate_keeps_feeds_and_resets_counter() {
    let mut store = store_with(3);
    assert_eq!(store.counter(), Some(2));
    instantiate(&mut store, InstantiateMsg { admin_address: s("boss") });
    assert_eq!(store.counter(), Some(0));
    assert!(store.contains(0) && store.contains(1) && store.contains(2));
    assert_eq!(store.state().unwrap().admin_address, s("boss"));
}

#[test]
fn create_feed_assigns_ids_from_zero() {
    let mut store = instantiated();
    let me = s("creator");
    let res = create_feed(&mut store, &me, me.clone(), s("hello")).unwrap();
    assert_eq!(attrs(&res), vec![(s("method"), s("feedcreated"))]);
    assert_eq!(res.messages.len(), 0);
    assert_eq!(store.counter(), Some(0));
    let f = store.get(0).unwrap();
    assert_eq!((f.id, f.address.clone(), f.message.clone()), (0, s("creator"), s("hello")));
    create_feed(&mut store, &me, me.clone(), s("again")).unwrap();
    assert_eq!(store.counter(), Some(1));
    assert_eq!(store.get(1).unwrap().message, s("again"));
    assert_eq!(store.get(0).unwrap().message, s("hello"));
}

#[test]
fn create_feed_without_counter_starts_at_zero() {
    let mut store = FeedStore::new();
    let me = s("creator");
    create_feed(&mut store, &me, me.clone(), s("first")).unwrap();
    assert_eq!(store.counter(), Some(0));
    assert_eq!(store.get(0).unwrap().message, s("first"));
}

#[test]
fn unauthorized_create_changes_nothing() {
    let mut store = store_with(2);
    let res = create_feed(&mut store, &s("mallory"), s("creator"), s("spoof"));
    assert!(matches!(res, Err(ContractError::Unauthorized {})));
    assert_eq!(store.counter(), Some(1));
    assert!(!store.contains(2));
}

#[test]
fn update_feed_by_owner() {
    let mut store = store_with(3);
    let res = update_feed(&mut store, &s("other"), 1, s("edited")).unwrap();
    assert_eq!(
        attrs(&res),
        vec![
            (s("action"), s("updated_feed")),
            (s("update_by"), s("other")),
            (s("message"), s("edited")),
        ]
    );
    let f = store.get(1).unwrap();
    assert_eq!((f.id, f.address.clone(), f.message.clone()), (1, s("other"), s("edited")));
    assert_eq!(store.counter(), Some(2));
    let msg = QueryMsg::GetFeed { address: s("other"), feed_id: 1 };
    match query(&store, msg).unwrap() {
        QueryResponse::Feed(r) => assert_eq!(r.feed.message, s("edited")),
        _ => panic!("Must return a single feed"),
    }
}

#[test]
fn update_feed_by_stranger_is_refused() {
    let mut store = store_with(3);
    let msg = ExecuteMsg::UpdateFeed { id: 1, message: s("hacked") };
    let res = execute(&mut store, &s("creator"), msg);
    assert!(matches!(res, Err(ContractError::Unauthorized {})));
    assert_eq!(store.get(1).unwrap().message, s("post 1"));
}

#[test]
fn update_missing_feed_is_not_found() {
    let mut store = store_with(2);
    let res = update_feed(&mut store, &s("creator"), 7, s("nothing"));
    match res {
        Err(ContractError::CustomError { val }) => assert_eq!(val, s("Feed not found!")),
        _ => panic!("Must return not found"),
    }
    assert!(!store.contains(7));
}

#[test]
fn get_feed_before_any_counter() {
    let store = FeedStore::new();
    match get_feed(&store, s("creator"), 0) {
        Err(QueryError::NotFound { kind }) => assert_eq!(kind, s("There are no feeds to get")),
        _ => panic!("Must return not found"),
    }
}

#[test]
fn get_feed_returns_the_owned_feed() {
    let store = store_with(4);
    let r = get_feed(&store, s("creator"), 2).unwrap();
    assert_eq!((r.feed.id, r.feed.address, r.feed.message), (2, s("creator"), s("post 2")));
}

#[test]
fn listing_defaults_to_ten_newest() {
    let store = store_with(15);
    let r = get_all_feeds(&store, None, None);
    assert_eq!(ids(&r.feeds), vec![14, 13, 12, 11, 10, 9, 8, 7, 6, 5]);
}

#[test]
fn listing_limit_is_capped_at_thirty() {
    let store = store_with(40);
    let r = get_all_feeds(&store, None, Some(100));
    assert_eq!(r.feeds.len(), 30);
    assert_eq!(r.feeds[0].id, 39);
    assert_eq!(r.feeds[29].id, 10);
}

#[test]
fn listing_with_offset_and_limit() {
    let store = store_with(10);
    // counter is 9, so an offset of 3 starts at id 6
    let r = get_all_feeds(&store, Some(3), Some(4));
    assert_eq!(ids(&r.feeds), vec![6, 5, 4, 3]);
    let r = get_all_feeds(&store, Some(9), Some(4));
    assert_eq!(ids(&r.feeds), vec![0]);
    let r = get_all_feeds(&store, Some(0), Some(0));
    assert!(r.feeds.is_empty());
}

#[test]
fn listing_by_owner() {
    let store = store_with(10);
    let r = get_all_feeds_by_owner(&store, None, None, s("other"));
    assert_eq!(ids(&r.feeds), vec![9, 7, 5, 3, 1]);
    let r = get_all_feeds_by_owner(&store, Some(2), Some(2), s("creator"));
    assert_eq!(ids(&r.feeds), vec![6, 4]);
    assert!(r.feeds.iter().all(|f| f.address == s("creator")));
    let r = get_all_feeds_by_owner(&store, None, None, s("nobody"));
    assert!(r.feeds.is_empty());
}

#[test]
fn query_listing_messages() {
    let store = store_with(5);
    let msg = QueryMsg::GetAllFeeds { offset: Some(1), limit: Some(2) };
    match query(&store, msg).unwrap() {
        QueryResponse::FeedList(r) => assert_eq!(ids(&r.feeds), vec![3, 2]),
        _ => panic!("Must return a list"),
    }
    let msg = QueryMsg::GetAllFeedsByOwner { offset: None, limit: Some(1), address: s("creator") };
    match query(&store, msg).unwrap() {
        QueryResponse::FeedList(r) => assert_eq!(ids(&r.feeds), vec![4]),
        _ => panic!("Must return a list"),
    }
}

#[test]
fn defined_queries() {
    let store = store_with(3);
    assert!(query_is_defined(&store, &QueryMsg::GetFeed { address: s("other"), feed_id: 1 }));
    assert!(!query_is_defined(&store, &QueryMsg::GetFeed { address: s("creator"), feed_id: 1 }));
    assert!(!query_is_defined(&store, &QueryMsg::GetFeed { address: s("other"), feed_id: 5 }));
    assert!(query_is_defined(&FeedStore::new(), &QueryMsg::GetFeed { address: s("x"), feed_id: 5 }));
    assert!(query_is_defined(&store, &QueryMsg::GetAllFeeds { offset: Some(2), limit: None }));
    assert!(!query_is_defined(&store, &QueryMsg::GetAllFeeds { offset: Some(3), limit: None }));
    assert!(query_is_defined(&store, &QueryMsg::GetAllFeeds { offset: None, limit: None }));
}

#[test]
fn creating_past_the_last_id_is_undefined() {
    let feeds = vec![Feed { id: u128::MAX, address: s("a"), message: s("m") }];
    let store = FeedStore::from_parts(None, Some(u128::MAX), feeds).unwrap();
    let msg = ExecuteMsg::CreateFeed { address: s("a"), message: s("n") };
    assert!(!execute_is_defined(&store, &msg));
    let ok = FeedStore::from_parts(None, Some(u128::MAX), vec![]).unwrap();
    assert!(execute_is_defined(&ok, &msg));
    assert!(execute_is_defined(&store, &ExecuteMsg::UpdateFeed { id: 0, message: s("x") }));
}

#[test]
fn from_parts_requires_increasing_ids() {
    let good = vec![
        Feed { id: 0, address: s("a"), message: s("x") },
        Feed { id: 4, address: s("b"), message: s("y") },
    ];
    let store = FeedStore::from_parts(Some(State { admin_address: s("admin") }), Some(4), good).unwrap();
    assert!(store.contains(4) && store.contains(0) && !store.contains(1));
    assert_eq!(store.state().unwrap().admin_address, s("admin"));
    let bad = vec![
        Feed { id: 4, address: s("b"), message: s("y") },
        Feed { id: 0, address: s("a"), message: s("x") },
    ];
    assert!(FeedStore::from_parts(None, None, bad).is_none());
    let dup = vec![
        Feed { id: 1, address: s("b"), message: s("y") },
        Feed { id: 1, address: s("a"), message: s("x") },
    ];
    assert!(FeedStore::from_parts(None, None, dup).is_none());
}

#[test]
fn save_replaces_and_inserts_in_order() {
    let mut store = FeedStore::new();
    store.save(Feed { id: 5, address: s("a"), message: s("five") });
    store.save(Feed { id: 2, address: s("a"), message: s("two") });
    store.save(Feed { id: 5, address: s("b"), message: s("FIVE") });
    assert_eq!(store.get(5).unwrap().message, s("FIVE"));
    assert_eq!(store.get(2).unwrap().message, s("two"));
    store.save_counter(5);
    let r = get_all_feeds(&store, None, None);
    assert_eq!(ids(&r.feeds), vec![5, 2]);
}

#[test]
fn consecutive_pages_join() {
    let store = store_with(12);
    let a = get_all_feeds(&store, Some(1), Some(3));
    let b = get_all_feeds(&store, Some(4), Some(3));
    let both = get_all_feeds(&store, Some(1), Some(6));
    let mut joined = ids(&a.feeds);
    joined.extend(ids(&b.feeds));
    assert_eq!(joined, ids(&both.feeds));
    assert_eq!(joined, vec![10, 9, 8, 7, 6, 5]);
}

#[test]
fn larger_offset_drops_newest_of_owner() {
    let store = store_with(10);
    let near = get_all_feeds_by_owner(&store, Some(1), Some(30), s("creator"));
    let far = get_all_feeds_by_owner(&store, Some(4), Some(30), s("creator"));
    assert_eq!(ids(&near.feeds), vec![8, 6, 4, 2, 0]);
    assert_eq!(ids(&far.feeds), vec![4, 2, 0]);
}

#[test]
fn smaller_limit_is_prefix() {
    let store = store_with(8);
    let small = get_all_feeds(&store, None, Some(3));
    let large = get_all_feeds(&store, None, Some(6));
    assert_eq!(ids(&small.feeds), ids(&large.feeds)[..3].to_vec());
}

#[test]
fn owner_listing_matches_full_listing_when_all_owned() {
    let mut store = instantiated();
    let me = s("creator");
    for i in 0..5 {
        create_feed(&mut store, &me, me.clone(), format!("m{}", i)).unwrap();
    }
    let mine = get_all_feeds_by_owner(&store, Some(1), Some(3), me.clone());
    let all = get_all_feeds(&store, Some(1), Some(3));
    assert_eq!(ids(&mine.feeds), ids(&all.feeds));
}

#[test]
fn created_ids_count_the_feeds() {
    let mut store = instantiated();
    let me = s("creator");
    for n in 0..6u128 {
        create_feed(&mut store, &me, me.clone(), s("x")).unwrap();
        assert_eq!(store.counter(), Some(n));
        assert!(store.contains(n) && !store.contains(n + 1));
    }
}
