# feed-contract

A CosmWasm contract that keeps a public feed of posts: each address posts
messages under increasing ids, may edit its own posts, and anyone can list
the posts, newest first, in pages.

- `src/` is the verified library (Verus): the contract's state
  (`state::FeedStore`, a map from id to feed kept as a vector sorted by id),
  the operations `instantiate`, `execute` (`create_feed`, `update_feed`) and
  `query` (`get_feed`, `get_all_feeds`, `get_all_feeds_by_owner`) with
  contracts over a mathematical model of the state, and the laws that relate
  them (`laws.rs`). Responses are built with `cosmwasm_std::Response`.
- `app/` holds the CosmWasm entry points: address validation through the
  chain's API, the storage layout (`cw-storage-plus`), the contract version
  (`cw2`), and the serialisable copies of the message types.
- `tests/` runs the library on concrete values.
