use vstd::prelude::*;

use crate::contract::{
    create_overflows, execute_defined, instantiate_attributes, listing_bound, listing_page,
    next_feed_id, page_size, query_answers, query_defined, spec_create_feed, spec_execute,
    spec_get_feed, spec_instantiate, spec_update_feed, Outcome,
};
use crate::error::ContractErrorView;
use crate::error::QueryErrorView;
use crate::msg::{ExecuteMsgView, QueryMsgView, QueryResponseView};
use crate::state::{eligible, is_page, FeedStoreView, FeedView};

verus! {

/// A feed that its owner has just created can be read back under the id it
/// was given, with the owner and text it was created with.
pub proof fn law_create_then_get(m: FeedStoreView, sender: Seq<char>, message: Seq<char>)
    requires
        !create_overflows(m),
    ensures
        spec_create_feed(m, sender, sender, message).1 is Done,
        spec_create_feed(m, sender, sender, message).0.counter == Some(next_feed_id(m)),
        query_defined(
            spec_create_feed(m, sender, sender, message).0,
            QueryMsgView::GetFeed { address: sender, feed_id: next_feed_id(m) },
        ),
        query_answers(
            spec_create_feed(m, sender, sender, message).0,
            QueryMsgView::GetFeed { address: sender, feed_id: next_feed_id(m) },
            Ok(QueryResponseView::Feed(FeedView { id: next_feed_id(m), address: sender, message })),
        ),
{
}

/// After its owner has replaced the text of a feed, reading the feed gives the
/// new text, with the same id and owner.
pub proof fn law_update_then_get(m: FeedStoreView, sender: Seq<char>, id: u128, message: Seq<char>)
    requires
        m.ids_match(),
        m.counter is Some,
        m.has_feed_of(sender, id),
    ensures
        spec_update_feed(m, sender, id, message).1 is Done,
        query_defined(
            spec_update_feed(m, sender, id, message).0,
            QueryMsgView::GetFeed { address: sender, feed_id: id },
        ),
        query_answers(
            spec_update_feed(m, sender, id, message).0,
            QueryMsgView::GetFeed { address: sender, feed_id: id },
            Ok(QueryResponseView::Feed(FeedView { id, address: sender, message })),
        ),
{
}

/// A refused execution leaves the state exactly as it was.
pub proof fn law_refusal_changes_nothing(m: FeedStoreView, sender: Seq<char>, msg: ExecuteMsgView)
    requires
        spec_execute(m, sender, msg).1 is Failed,
    ensures
        spec_execute(m, sender, msg).0 == m,
{
}

/// Only the owner named in the message may create a feed, and only the owner
/// of a feed may change it; a change keeps the feed's id and owner.
pub proof fn law_only_owner_writes(m: FeedStoreView, sender: Seq<char>, msg: ExecuteMsgView)
    requires
        spec_execute(m, sender, msg).1 is Done,
    ensures
        msg matches ExecuteMsgView::CreateFeed { address, .. } ==> address == sender,
        msg matches ExecuteMsgView::UpdateFeed { id, .. } ==> {
            &&& m.has_feed_of(sender, id)
            &&& spec_execute(m, sender, msg).0.feeds[id].id == m.feeds[id].id
            &&& spec_execute(m, sender, msg).0.feeds[id].address == m.feeds[id].address
        },
{
}

/// When no stored feed has an id above the counter, a new feed gets an id
/// that no stored feed has: creating never overwrites a feed, every other
/// feed stays as it was, and the store keeps that property.
pub proof fn law_create_keeps_feeds(
    m: FeedStoreView,
    sender: Seq<char>,
    address: Seq<char>,
    message: Seq<char>,
)
    requires
        m.ids_match(),
        m.ids_bounded(),
        !create_overflows(m),
    ensures
        !m.feeds.contains_key(next_feed_id(m)),
        forall|k: u128| #[trigger]
            m.feeds.contains_key(k) ==> spec_create_feed(m, sender, address, message).0.feeds.contains_key(
                k,
            ) && spec_create_feed(m, sender, address, message).0.feeds[k] == m.feeds[k],
        spec_create_feed(m, sender, address, message).0.ids_match(),
        spec_create_feed(m, sender, address, message).0.ids_bounded(),
{
    let c = m.counter_value();
    if m.feeds.contains_key(next_feed_id(m)) {
        assert(next_feed_id(m) <= c);
        assert(m.feeds.contains_key(c));
    }
}

/// Two feeds created one after the other get consecutive ids.
pub proof fn law_consecutive_ids(
    m: FeedStoreView,
    sender: Seq<char>,
    first: Seq<char>,
    second: Seq<char>,
)
    requires
        !create_overflows(m),
        next_feed_id(m) < u128::MAX,
    ensures
        !create_overflows(spec_create_feed(m, sender, sender, first).0),
        next_feed_id(spec_create_feed(m, sender, sender, first).0) == next_feed_id(m) + 1,
{
}

/// Every execution that can be carried out keeps each feed filed under its own
/// id and no id above the counter.
pub proof fn law_execute_keeps_invariants(m: FeedStoreView, sender: Seq<char>, msg: ExecuteMsgView)
    requires
        m.ids_match(),
        m.ids_bounded(),
        execute_defined(m, msg),
    ensures
        spec_execute(m, sender, msg).0.ids_match(),
        spec_execute(m, sender, msg).0.ids_bounded(),
        spec_execute(m, sender, msg).0.admin == m.admin,
{
    match msg {
        ExecuteMsgView::CreateFeed { address, message } => {
            law_create_keeps_feeds(m, sender, address, message);
        },
        ExecuteMsgView::UpdateFeed { id, message } => {
            let m2 = spec_execute(m, sender, msg).0;
            assert forall|k: u128| #[trigger] m2.feeds.contains_key(k) implies k
                <= m2.counter_value() by {
                assert(m.feeds.contains_key(k));
            }
        },
    }
}

/// When no stored feed has an id above the counter, no execution changes or
/// removes a feed of another owner than the sender.
pub proof fn law_others_feeds_untouched(m: FeedStoreView, sender: Seq<char>, msg: ExecuteMsgView)
    requires
        m.ids_match(),
        m.ids_bounded(),
        execute_defined(m, msg),
    ensures
        forall|k: u128| #[trigger]
            m.feeds.contains_key(k) && m.feeds[k].address != sender ==> spec_execute(
                m,
                sender,
                msg,
            ).0.feeds.contains_key(k) && spec_execute(m, sender, msg).0.feeds[k] == m.feeds[k],
{
    match msg {
        ExecuteMsgView::CreateFeed { address, message } => {
            law_create_keeps_feeds(m, sender, address, message);
        },
        ExecuteMsgView::UpdateFeed { id, message } => {},
    }
}

/// Creating a feed reads nothing but the counter and whether a feed is stored
/// under it: two states that agree on those give the same outcome, the same
/// new counter and the same new feed.
pub proof fn law_create_reads_counter_entry(
    m1: FeedStoreView,
    m2: FeedStoreView,
    sender: Seq<char>,
    address: Seq<char>,
    message: Seq<char>,
)
    requires
        m1.counter == m2.counter,
        m1.feeds.contains_key(m1.counter_value()) == m2.feeds.contains_key(m2.counter_value()),
    ensures
        next_feed_id(m1) == next_feed_id(m2),
        spec_create_feed(m1, sender, address, message).1 == spec_create_feed(
            m2,
            sender,
            address,
            message,
        ).1,
        spec_create_feed(m1, sender, address, message).0.counter == spec_create_feed(
            m2,
            sender,
            address,
            message,
        ).0.counter,
        spec_create_feed(m1, sender, address, message).1 is Done ==> spec_create_feed(
            m1,
            sender,
            address,
            message,
        ).0.feeds[next_feed_id(m1)] == spec_create_feed(m2, sender, address, message).0.feeds[next_feed_id(
            m2,
        )],
{
}

/// Updating the feed `id` reads nothing but that feed: two states that agree
/// on it give the same outcome and the same updated feed.
pub proof fn law_update_reads_its_feed(
    m1: FeedStoreView,
    m2: FeedStoreView,
    sender: Seq<char>,
    id: u128,
    message: Seq<char>,
)
    requires
        m1.feeds.contains_key(id) == m2.feeds.contains_key(id),
        m1.feeds.contains_key(id) ==> m1.feeds[id] == m2.feeds[id],
    ensures
        spec_update_feed(m1, sender, id, message).1 == spec_update_feed(m2, sender, id, message).1,
        spec_update_feed(m1, sender, id, message).1 is Done ==> spec_update_feed(
            m1,
            sender,
            id,
            message,
        ).0.feeds[id] == spec_update_feed(m2, sender, id, message).0.feeds[id],
{
}

/// A single-feed query reads nothing but the counter and the feed asked for.
pub proof fn law_get_reads_its_feed(m1: FeedStoreView, m2: FeedStoreView, feed_id: u128)
    requires
        m1.counter is Some <==> m2.counter is Some,
        m1.feeds.contains_key(feed_id) == m2.feeds.contains_key(feed_id),
        m1.feeds.contains_key(feed_id) ==> m1.feeds[feed_id] == m2.feeds[feed_id],
        m1.counter is Some ==> m1.feeds.contains_key(feed_id),
    ensures
        spec_get_feed(m1, feed_id) == spec_get_feed(m2, feed_id),
{
}

/// Instantiating a contract that holds no feed (or only the feed with id
/// zero) gives a state with both invariants, in which the next feed gets the
/// id zero (or one).
pub proof fn law_instantiate_fresh(m: FeedStoreView, admin: Seq<char>)
    requires
        m.ids_match(),
        forall|k: u128| #[trigger] m.feeds.contains_key(k) ==> k == 0,
    ensures
        spec_instantiate(m, admin).ids_match(),
        spec_instantiate(m, admin).ids_bounded(),
        spec_instantiate(m, admin).counter == Some(0u128),
        spec_instantiate(m, admin).admin == Some(admin),
        next_feed_id(spec_instantiate(m, admin)) == (if m.feeds.contains_key(0) {
            1u128
        } else {
            0u128
        }),
{
}

/// A newly created feed heads every listing that it passes: with no offset,
/// the listing of all feeds, and that of its owner's feeds, start with it.
pub proof fn law_new_feed_listed_first(
    m: FeedStoreView,
    sender: Seq<char>,
    message: Seq<char>,
    owner: Option<Seq<char>>,
    r: Seq<FeedView>,
    n: nat,
)
    requires
        m.ids_bounded(),
        !create_overflows(m),
        owner == None::<Seq<char>> || owner == Some(sender),
        n >= 1,
        is_page(r, spec_create_feed(m, sender, sender, message).0.feeds, owner, None, n),
    ensures
        r.len() >= 1,
        r[0] == (FeedView { id: next_feed_id(m), address: sender, message }),
{
    let m2 = spec_create_feed(m, sender, sender, message).0;
    let id = next_feed_id(m);
    assert(m2.feeds.contains_key(id));
    assert(eligible(m2.feeds[id], owner, None));
    if r.len() == 0 {
        assert(r.len() < n);
    }
    assert(m2.feeds.contains_key(r[0].id));
    if r[0].id != id {
        assert(m.feeds.contains_key(r[0].id));
        assert(r[0].id <= m.counter_value());
        let last = r.len() - 1;
        if last > 0 {
            assert(r[0].id > r[last].id);
        }
        assert(id > r[last].id);
        let p = choose|p: int| 0 <= p < r.len() && #[trigger] r[p].id == id;
        if p > 0 {
            assert(r[0].id > r[p].id);
        }
    }
}

/// An execution message does exactly what the operation it names does.
pub proof fn law_execute_dispatches(m: FeedStoreView, sender: Seq<char>, msg: ExecuteMsgView)
    ensures
        msg matches ExecuteMsgView::CreateFeed { address, message } ==> spec_execute(
            m,
            sender,
            msg,
        ) == spec_create_feed(m, sender, address, message),
        msg matches ExecuteMsgView::UpdateFeed { id, message } ==> spec_execute(m, sender, msg)
            == spec_update_feed(m, sender, id, message),
{
}

/// An execution depends on nothing but the state, the sender and the
/// message: the same three give the same new state and the same outcome.
pub proof fn law_execute_deterministic(
    m1: FeedStoreView,
    m2: FeedStoreView,
    sender: Seq<char>,
    msg: ExecuteMsgView,
)
    requires
        m1 == m2,
    ensures
        spec_execute(m1, sender, msg) == spec_execute(m2, sender, msg),
{
}

/// A query message is answered exactly as the operation it names answers.
pub proof fn law_query_dispatches(
    m: FeedStoreView,
    msg: QueryMsgView,
    r: Result<QueryResponseView, QueryErrorView>,
)
    ensures
        msg matches QueryMsgView::GetFeed { feed_id, .. } ==> (query_answers(m, msg, r) <==> r == (
        match spec_get_feed(m, feed_id) {
            Ok(f) => Ok::<QueryResponseView, QueryErrorView>(QueryResponseView::Feed(f)),
            Err(e) => Err::<QueryResponseView, QueryErrorView>(e),
        })),
        msg matches QueryMsgView::GetAllFeeds { offset, limit } ==> (query_answers(m, msg, r) <==> (
        r matches Ok(QueryResponseView::FeedList(page)) && listing_page(page, m, None, offset, limit))),
        msg matches QueryMsgView::GetAllFeedsByOwner { offset, limit, address } ==> (query_answers(
            m,
            msg,
            r,
        ) <==> (r matches Ok(QueryResponseView::FeedList(page)) && listing_page(
            page,
            m,
            Some(address),
            offset,
            limit,
        ))),
{
}

/// The ids below `n`.
pub open spec fn ids_below(n: int) -> Set<u128> {
    Set::new(|k: u128| k < n)
}

/// There are exactly `n` ids below `n`.
pub proof fn lemma_ids_below(n: int)
    requires
        0 <= n <= u128::MAX + 1,
    ensures
        ids_below(n).finite(),
        ids_below(n).len() == n,
    decreases n,
{
    if n == 0 {
        assert(ids_below(0) =~= Set::<u128>::empty());
    } else {
        lemma_ids_below(n - 1);
        assert(ids_below(n) =~= ids_below(n - 1).insert((n - 1) as u128));
    }
}

/// The store as the contract builds it: a counter exists, every feed is filed
/// under its own id, and the ids are exactly 0 through the counter, or there
/// is no feed and the counter is zero.
pub open spec fn contiguous(m: FeedStoreView) -> bool {
    &&& m.counter is Some
    &&& m.ids_match()
    &&& {
        ||| m.feeds.dom() == Set::<u128>::empty() && m.counter_value() == 0
        ||| m.feeds.dom() == ids_below(m.counter_value() + 1)
    }
}

/// Creating a feed in a contiguous store keeps it contiguous, whether it
/// succeeds or not; a new feed's id is the number of feeds before it, and the
/// number of feeds grows by one.
pub proof fn law_create_counts(
    m: FeedStoreView,
    sender: Seq<char>,
    address: Seq<char>,
    message: Seq<char>,
)
    requires
        contiguous(m),
        m.counter_value() < u128::MAX,
    ensures
        !create_overflows(m),
        m.feeds.dom().finite(),
        contiguous(spec_create_feed(m, sender, address, message).0),
        spec_create_feed(m, sender, address, message).1 is Done ==> {
            &&& next_feed_id(m) == m.feeds.dom().len()
            &&& spec_create_feed(m, sender, address, message).0.feeds.dom().finite()
            &&& spec_create_feed(m, sender, address, message).0.feeds.dom().len() == m.feeds.dom().len()
                + 1
        },
{
    let c = m.counter_value();
    let m2 = spec_create_feed(m, sender, address, message).0;
    let id = next_feed_id(m);
    if m.feeds.dom() == Set::<u128>::empty() && c == 0 {
        assert(!m.feeds.contains_key(0));
        assert(id == 0);
        if sender == address {
            assert(m2.feeds.dom() =~= ids_below(1));
            lemma_ids_below(1);
        }
    } else {
        assert(m.feeds.contains_key(c));
        assert(id == c + 1);
        lemma_ids_below(c + 1);
        if sender == address {
            assert(m2.feeds.dom() =~= ids_below(c + 2));
            lemma_ids_below(c + 2);
        }
    }
}

/// In a store whose ids are exactly 0 through the counter, the page of all
/// feeds up to a bound `b` no greater than the counter is the feeds `b`,
/// `b - 1`, and so on, `n` of them or down to 0.
proof fn lemma_full_page(m: FeedStoreView, b: u128, n: nat, r: Seq<FeedView>)
    requires
        m.ids_match(),
        m.feeds.dom() == ids_below(m.counter_value() + 1),
        b <= m.counter_value(),
        is_page(r, m.feeds, None, Some(b), n),
    ensures
        r == Seq::new(if n < b + 1 { n } else { (b + 1) as nat }, |i: int| m.feeds[(b - i) as u128]),
{
    let len: nat = if n < b + 1 { n } else { (b + 1) as nat };
    let t = Seq::new(len, |i: int| m.feeds[(b - i) as u128]);
    assert forall|i: int| 0 <= i < t.len() implies {
        &&& m.feeds.contains_key(#[trigger] t[i].id)
        &&& m.feeds[t[i].id] == t[i]
        &&& eligible(t[i], None, Some(b))
    } by {
        let k = (b - i) as u128;
        assert(m.feeds.contains_key(k));
        assert(t[i].id == k);
    }
    assert forall|i: int, j: int| 0 <= i < j < t.len() implies #[trigger] t[i].id > #[trigger] t[j].id by {
        assert(m.feeds.contains_key((b - i) as u128));
        assert(m.feeds.contains_key((b - j) as u128));
    }
    assert forall|k: u128|
        #[trigger] m.feeds.contains_key(k) && eligible(m.feeds[k], None, Some(b)) && (t.len() < n
            || (t.len() > 0 && k > t[t.len() - 1].id)) implies exists|i: int|
        0 <= i < t.len() && #[trigger] t[i].id == k by {
        assert(m.feeds[k].id == k);
        if t.len() > 0 {
            assert(m.feeds.contains_key((b - (t.len() - 1)) as u128));
        }
        let i = b - k;
        assert(t[i].id == k);
    }
    assert(is_page(t, m.feeds, None, Some(b), n));
    law_page_is_unique(r, t, m.feeds, None, Some(b), n);
}

/// A page of a store without feeds is empty.
proof fn lemma_empty_page(
    m: Map<u128, FeedView>,
    owner: Option<Seq<char>>,
    upper: Option<u128>,
    n: nat,
    r: Seq<FeedView>,
)
    requires
        m.dom() == Set::<u128>::empty(),
        is_page(r, m, owner, upper, n),
    ensures
        r.len() == 0,
{
    if r.len() > 0 {
        assert(m.contains_key(r[0].id));
    }
}

/// In a contiguous store, consecutive pages of the listing of all feeds join
/// without overlap or gap: the page at offset `o` followed by the page at
/// offset `o + l` (both of size `l`) is the page at offset `o` of size `2 l`.
pub proof fn law_consecutive_pages(
    m: FeedStoreView,
    o: u128,
    l: u64,
    r1: Seq<FeedView>,
    r2: Seq<FeedView>,
    r3: Seq<FeedView>,
)
    requires
        contiguous(m),
        o + l <= m.counter_value(),
        2 * l <= 30,
        listing_page(r1, m, None, Some(o), Some(l)),
        listing_page(r2, m, None, Some((o + l) as u128), Some(l)),
        listing_page(r3, m, None, Some(o), Some((2 * l) as u64)),
    ensures
        r1 + r2 == r3,
{
    let c = m.counter_value();
    assert(page_size(Some(l)) == l);
    assert(page_size(Some((2 * l) as u64)) == 2 * l);
    if m.feeds.dom() == Set::<u128>::empty() && c == 0 {
        lemma_empty_page(m.feeds, None, Some((c - o) as u128), l as nat, r1);
        lemma_empty_page(m.feeds, None, Some((c - o - l) as u128), l as nat, r2);
        lemma_empty_page(m.feeds, None, Some((c - o) as u128), (2 * l) as nat, r3);
        assert(r1 + r2 =~= r3);
    } else {
        let b = (c - o) as u128;
        let b2 = (c - o - l) as u128;
        lemma_full_page(m, b, l as nat, r1);
        lemma_full_page(m, b2, l as nat, r2);
        lemma_full_page(m, b, (2 * l) as nat, r3);
        assert(r1.len() == l);
        assert forall|i: int| 0 <= i < r3.len() implies #[trigger] (r1 + r2)[i] == r3[i] by {
            if i >= l {
                assert((r1 + r2)[i] == r2[i - l]);
                assert((b2 - (i - l)) as u128 == (b - i) as u128);
            }
        }
        assert(r1 + r2 =~= r3);
    }
}

/// The ids of the feeds that pass a listing's filters.
pub open spec fn eligible_ids(
    m: Map<u128, FeedView>,
    owner: Option<Seq<char>>,
    upper: Option<u128>,
) -> Set<u128> {
    Set::new(|k: u128| m.contains_key(k) && eligible(m[k], owner, upper))
}

/// The ids of the feeds that `owner` owns.
pub open spec fn owned_ids(m: FeedStoreView, owner: Seq<char>) -> Set<u128> {
    Set::new(|k: u128| m.feeds.contains_key(k) && m.feeds[k].address == owner)
}

/// When no more feeds pass the filters than the page may hold, the page holds
/// every one of them.
proof fn lemma_page_complete(
    r: Seq<FeedView>,
    m: Map<u128, FeedView>,
    owner: Option<Seq<char>>,
    upper: Option<u128>,
    n: nat,
)
    requires
        is_page(r, m, owner, upper, n),
        eligible_ids(m, owner, upper).finite(),
        eligible_ids(m, owner, upper).len() <= n,
    ensures
        forall|k: u128|
            #[trigger] eligible_ids(m, owner, upper).contains(k) ==> exists|i: int|
                0 <= i < r.len() && #[trigger] r[i].id == k,
{
    let e = eligible_ids(m, owner, upper);
    let ids = r.map_values(|f: FeedView| f.id);
    assert forall|k: u128| #[trigger] e.contains(k) implies exists|i: int|
        0 <= i < r.len() && #[trigger] r[i].id == k by {
        if r.len() >= n && !(exists|i: int| 0 <= i < r.len() && #[trigger] r[i].id == k) {
            assert(ids.no_duplicates()) by {
                assert forall|i: int, j: int| 0 <= i < ids.len() && 0 <= j < ids.len() && i != j implies ids[i]
                    != ids[j] by {
                    if i < j {
                        assert(r[i].id > r[j].id);
                    } else {
                        assert(r[j].id > r[i].id);
                    }
                }
            }
            ids.unique_seq_to_set();
            let grown = ids.to_set().insert(k);
            assert(!ids.to_set().contains(k)) by {
                if ids.to_set().contains(k) {
                    let i = choose|i: int| 0 <= i < ids.len() && ids[i] == k;
                    assert(r[i].id == k);
                }
            }
            assert(grown.subset_of(e)) by {
                assert forall|x: u128| grown.contains(x) implies e.contains(x) by {
                    if x != k {
                        let i = choose|i: int| 0 <= i < ids.len() && ids[i] == x;
                        assert(m.contains_key(r[i].id));
                    }
                }
            }
            vstd::seq_lib::seq_to_set_is_finite(ids);
            vstd::set_lib::lemma_len_subset(grown, e);
        }
    }
}

/// The first position from `i` on whose id is at most `b` (the length when
/// there is none).
spec fn first_at_most(r: Seq<FeedView>, b: u128, i: int) -> int
    decreases r.len() - i,
{
    if i >= r.len() || i < 0 {
        r.len() as int
    } else if r[i].id <= b {
        i
    } else {
        first_at_most(r, b, i + 1)
    }
}

proof fn lemma_first_at_most(r: Seq<FeedView>, b: u128, i: int)
    requires
        0 <= i <= r.len(),
        forall|x: int, y: int| 0 <= x < y < r.len() ==> #[trigger] r[x].id > #[trigger] r[y].id,
        forall|j: int| 0 <= j < i ==> #[trigger] r[j].id > b,
    ensures
        i <= first_at_most(r, b, i) <= r.len(),
        forall|j: int| 0 <= j < first_at_most(r, b, i) ==> #[trigger] r[j].id > b,
        forall|j: int| first_at_most(r, b, i) <= j < r.len() ==> #[trigger] r[j].id <= b,
    decreases r.len() - i,
{
    if i < r.len() {
        if r[i].id <= b {
            assert forall|j: int| i <= j < r.len() implies #[trigger] r[j].id <= b by {
                if j > i {
                    assert(r[i].id > r[j].id);
                }
            }
        } else {
            lemma_first_at_most(r, b, i + 1);
        }
    }
}

/// When an owner has no more feeds than a page holds, a listing of the
/// owner's feeds at a larger offset is a suffix of the listing at a smaller
/// one: a larger offset only drops the newest feeds.
pub proof fn law_owner_listing_suffix(
    m: FeedStoreView,
    address: Seq<char>,
    o1: u128,
    o2: u128,
    limit: Option<u64>,
    r1: Seq<FeedView>,
    r2: Seq<FeedView>,
)
    requires
        o1 <= o2 <= m.counter_value(),
        owned_ids(m, address).finite(),
        owned_ids(m, address).len() <= page_size(limit),
        listing_page(r1, m, Some(address), Some(o1), limit),
        listing_page(r2, m, Some(address), Some(o2), limit),
    ensures
        r2.len() <= r1.len(),
        r2 == r1.subrange(r1.len() - r2.len(), r1.len() as int),
{
    let c = m.counter_value();
    let b1 = (c - o1) as u128;
    let b2 = (c - o2) as u128;
    let n = page_size(limit);
    let e1 = eligible_ids(m.feeds, Some(address), Some(b1));
    assert(e1.subset_of(owned_ids(m, address)));
    vstd::set_lib::lemma_len_subset(e1, owned_ids(m, address));
    lemma_page_complete(r1, m.feeds, Some(address), Some(b1), n);
    lemma_first_at_most(r1, b2, 0);
    let j0 = first_at_most(r1, b2, 0);
    let t = r1.subrange(j0, r1.len() as int);
    assert forall|i: int| 0 <= i < t.len() implies {
        &&& m.feeds.contains_key(#[trigger] t[i].id)
        &&& m.feeds[t[i].id] == t[i]
        &&& eligible(t[i], Some(address), Some(b2))
    } by {
        assert(t[i] == r1[i + j0]);
        assert(r1[i + j0].id <= b2);
    }
    assert forall|i: int, j: int| 0 <= i < j < t.len() implies #[trigger] t[i].id > #[trigger] t[j].id by {
        assert(t[i] == r1[i + j0]);
        assert(t[j] == r1[j + j0]);
    }
    assert forall|k: u128|
        #[trigger] m.feeds.contains_key(k) && eligible(m.feeds[k], Some(address), Some(b2)) && (t.len()
            < n || (t.len() > 0 && k > t[t.len() - 1].id)) implies exists|i: int|
        0 <= i < t.len() && #[trigger] t[i].id == k by {
        assert(e1.contains(k));
        let p = choose|p: int| 0 <= p < r1.len() && #[trigger] r1[p].id == k;
        assert(p >= j0);
        assert(t[p - j0].id == k);
    }
    assert(is_page(t, m.feeds, Some(address), Some(b2), n));
    law_page_is_unique(r2, t, m.feeds, Some(address), Some(b2), n);
}

/// A page with a smaller size is the start of the page with a larger size
/// for the same filters.
pub proof fn law_smaller_page_is_prefix(
    r1: Seq<FeedView>,
    r2: Seq<FeedView>,
    m: Map<u128, FeedView>,
    owner: Option<Seq<char>>,
    upper: Option<u128>,
    n1: nat,
    n2: nat,
)
    requires
        n1 <= n2,
        is_page(r1, m, owner, upper, n1),
        is_page(r2, m, owner, upper, n2),
    ensures
        r1.len() <= r2.len(),
        r1 == r2.take(r1.len() as int),
{
    let len: int = if n1 < r2.len() { n1 as int } else { r2.len() as int };
    let t = r2.take(len);
    assert forall|i: int, j: int| 0 <= i < j < t.len() implies #[trigger] t[i].id > #[trigger] t[j].id by {
        assert(t[i] == r2[i]);
        assert(t[j] == r2[j]);
    }
    assert forall|i: int| 0 <= i < t.len() implies {
        &&& m.contains_key(#[trigger] t[i].id)
        &&& m[t[i].id] == t[i]
        &&& eligible(t[i], owner, upper)
    } by {
        assert(t[i] == r2[i]);
    }
    assert forall|k: u128|
        #[trigger] m.contains_key(k) && eligible(m[k], owner, upper) && (t.len() < n1 || (t.len() > 0
            && k > t[t.len() - 1].id)) implies exists|i: int| 0 <= i < t.len() && #[trigger] t[i].id
        == k by {
        if t.len() < n1 {
            assert(r2.len() < n2);
            let p = choose|p: int| 0 <= p < r2.len() && #[trigger] r2[p].id == k;
            assert(t[p].id == k);
        } else {
            let last = t.len() - 1;
            assert(t[last] == r2[last]);
            if r2.len() - 1 > last {
                assert(r2[last].id > r2[r2.len() - 1].id);
            }
            let p = choose|p: int| 0 <= p < r2.len() && #[trigger] r2[p].id == k;
            if p > last {
                assert(r2[last].id > r2[p].id);
            }
            assert(t[p].id == k);
        }
    }
    assert(is_page(t, m, owner, upper, n1));
    law_page_is_unique(r1, t, m, owner, upper, n1);
}

/// When every stored feed belongs to `owner`, the listing of the owner's
/// feeds is the listing of all feeds.
pub proof fn law_owner_listing_when_all_owned(
    r1: Seq<FeedView>,
    r2: Seq<FeedView>,
    m: Map<u128, FeedView>,
    owner: Seq<char>,
    upper: Option<u128>,
    n: nat,
)
    requires
        forall|k: u128| #[trigger] m.contains_key(k) ==> m[k].address == owner,
        is_page(r1, m, Some(owner), upper, n),
        is_page(r2, m, None, upper, n),
    ensures
        r1 == r2,
{
    assert forall|i: int| 0 <= i < r1.len() implies eligible(#[trigger] r1[i], None, upper) by {
        assert(m.contains_key(r1[i].id));
    }
    assert(is_page(r1, m, None, upper, n));
    law_page_is_unique(r1, r2, m, None, upper, n);
}

/// `r` holds every stored feed that passes the filters.
pub open spec fn lists_all(
    r: Seq<FeedView>,
    m: Map<u128, FeedView>,
    owner: Option<Seq<char>>,
    upper: Option<u128>,
) -> bool {
    forall|k: u128|
        #[trigger] m.contains_key(k) && eligible(m[k], owner, upper) ==> exists|i: int|
            0 <= i < r.len() && #[trigger] r[i].id == k
}

/// Every listing, of all feeds or of one owner's, with or without an offset,
/// holds at most 30 feeds; at most the limit when one is given, and at most
/// 10 when none is. It falls short of that size only when it holds every
/// feed that passes its filters.
pub proof fn law_listing_size(
    r: Seq<FeedView>,
    m: FeedStoreView,
    owner: Option<Seq<char>>,
    offset: Option<u128>,
    limit: Option<u64>,
)
    requires
        listing_page(r, m, owner, offset, limit),
    ensures
        r.len() <= 30,
        limit matches Some(l) ==> r.len() <= l,
        limit is None ==> r.len() <= 10,
        limit matches Some(l) ==> (r.len() < l && r.len() < 30 ==> lists_all(
            r,
            m.feeds,
            owner,
            listing_bound(m, offset),
        )),
        limit is None ==> (r.len() < 10 ==> lists_all(r, m.feeds, owner, listing_bound(m, offset))),
{
}

/// A successful update of the feed `id` changes that feed's text and nothing
/// else: every other feed, the set of stored ids, the counter and the
/// configuration stay as they were, and the feed keeps its id and owner.
pub proof fn law_update_touches_only_its_feed(
    m: FeedStoreView,
    sender: Seq<char>,
    id: u128,
    message: Seq<char>,
)
    ensures
        spec_update_feed(m, sender, id, message).0.counter == m.counter,
        spec_update_feed(m, sender, id, message).0.admin == m.admin,
        forall|k: u128| #[trigger]
            spec_update_feed(m, sender, id, message).0.feeds.contains_key(k) <==> m.feeds.contains_key(
                k,
            ),
        forall|k: u128|
            k != id && #[trigger] m.feeds.contains_key(k) ==> spec_update_feed(
                m,
                sender,
                id,
                message,
            ).0.feeds[k] == m.feeds[k],
        spec_update_feed(m, sender, id, message).1 is Done ==> {
            &&& spec_update_feed(m, sender, id, message).0.feeds[id].message == message
            &&& spec_update_feed(m, sender, id, message).0.feeds[id].id == m.feeds[id].id
            &&& spec_update_feed(m, sender, id, message).0.feeds[id].address == m.feeds[id].address
        },
{
}

/// The response to an instantiation names the administrator of the message,
/// the one that the state saves, under the key "owner"; different
/// administrators give different responses.
pub proof fn law_instantiate_names_admin(m: FeedStoreView, admin: Seq<char>, other: Seq<char>)
    ensures
        instantiate_attributes(admin).len() == 3,
        instantiate_attributes(admin)[0] == ("method"@, "instantiate"@),
        instantiate_attributes(admin)[1] == ("owner"@, admin),
        instantiate_attributes(admin)[2] == ("feed_counter"@, "0"@),
        spec_instantiate(m, admin).admin == Some(instantiate_attributes(admin)[1].1),
        admin != other ==> instantiate_attributes(admin) != instantiate_attributes(other),
{
    if admin != other {
        assert(instantiate_attributes(admin)[1] != instantiate_attributes(other)[1]);
    }
}

/// A creation answers, whatever the state and the text, with the single
/// attribute ("method", "feedcreated") when the sender is the named owner,
/// and is refused as unauthorized otherwise.
pub proof fn law_create_response_fixed(
    m: FeedStoreView,
    sender: Seq<char>,
    address: Seq<char>,
    message: Seq<char>,
)
    ensures
        sender == address ==> spec_create_feed(m, sender, address, message).1 == Outcome::Done(
            seq![("method"@, "feedcreated"@)],
        ),
        sender != address ==> spec_create_feed(m, sender, address, message).1 == Outcome::Failed(
            ContractErrorView::Unauthorized,
        ),
{
}

/// A successful creation stores the feed under the counter, or under the id
/// after it when a feed is stored under the counter already; the new feed
/// has the owner and text of the message, the counter becomes its id, and
/// every other feed stays as it was.
pub proof fn law_create_effect(
    m: FeedStoreView,
    sender: Seq<char>,
    address: Seq<char>,
    message: Seq<char>,
)
    requires
        !create_overflows(m),
        spec_create_feed(m, sender, address, message).1 is Done,
    ensures
        spec_create_feed(m, sender, address, message).0.counter matches Some(id) && {
            let m2 = spec_create_feed(m, sender, address, message).0;
            let c = m.counter_value();
            &&& (if m.feeds.contains_key(c) {
                id == c + 1
            } else {
                id == c
            })
            &&& m2.feeds.contains_key(id)
            &&& m2.feeds[id] == (FeedView { id, address: sender, message })
            &&& forall|k: u128|
                k != id ==> (#[trigger] m2.feeds.contains_key(k) <==> m.feeds.contains_key(k))
            &&& forall|k: u128|
                k != id && #[trigger] m.feeds.contains_key(k) ==> m2.feeds[k] == m.feeds[k]
            &&& m2.admin == m.admin
        },
{
}

/// An update answers, when it succeeds, with the attributes ("action",
/// "updated_feed"), ("update_by", the sender), ("message", the new text); it
/// is refused with "Feed not found!" when no feed has the id, and as
/// unauthorized when the feed belongs to someone else.
pub proof fn law_update_response(m: FeedStoreView, sender: Seq<char>, id: u128, message: Seq<char>)
    ensures
        !m.feeds.contains_key(id) ==> spec_update_feed(m, sender, id, message).1 == Outcome::Failed(
            ContractErrorView::CustomError("Feed not found!"@),
        ),
        m.feeds.contains_key(id) && m.feeds[id].address != sender ==> spec_update_feed(
            m,
            sender,
            id,
            message,
        ).1 == Outcome::Failed(ContractErrorView::Unauthorized),
        m.feeds.contains_key(id) && m.feeds[id].address == sender ==> spec_update_feed(
            m,
            sender,
            id,
            message,
        ).1 == Outcome::Done(
            seq![("action"@, "updated_feed"@), ("update_by"@, sender), ("message"@, message)],
        ),
{
}

/// Instantiation saves the administrator, sets the counter to zero and
/// leaves every feed as it was.
pub proof fn law_instantiate_effect(m: FeedStoreView, admin: Seq<char>)
    ensures
        spec_instantiate(m, admin).admin == Some(admin),
        spec_instantiate(m, admin).counter == Some(0u128),
        spec_instantiate(m, admin).feeds == m.feeds,
{
}

/// A single-feed query before any counter exists is refused with the kind
/// "There are no feeds to get"; afterwards it returns the feed stored under
/// the id, which has that id and the owner asked for.
pub proof fn law_get_feed_result(m: FeedStoreView, address: Seq<char>, feed_id: u128)
    requires
        m.ids_match(),
    ensures
        m.counter is None ==> spec_get_feed(m, feed_id) == Err::<FeedView, QueryErrorView>(
            QueryErrorView::NotFound("There are no feeds to get"@),
        ),
        m.counter is Some && m.has_feed_of(address, feed_id) ==> {
            &&& spec_get_feed(m, feed_id) matches Ok(f)
            &&& f == m.feeds[feed_id]
            &&& f.id == feed_id
            &&& f.address == address
        },
{
}

/// What a listing may hold: stored feeds only, owned by the owner asked for
/// when one is, with ids no greater than the counter minus the offset when
/// one is given, newest first; and it starts with the newest such feed
/// unless the limit is zero.
pub proof fn law_listing_window(
    r: Seq<FeedView>,
    m: FeedStoreView,
    owner: Option<Seq<char>>,
    offset: Option<u128>,
    limit: Option<u64>,
)
    requires
        m.ids_match(),
        offset matches Some(o) ==> o <= m.counter_value(),
        listing_page(r, m, owner, offset, limit),
    ensures
        forall|i: int|
            0 <= i < r.len() ==> {
                &&& m.feeds.contains_key(#[trigger] r[i].id)
                &&& m.feeds[r[i].id] == r[i]
                &&& (owner matches Some(a) ==> r[i].address == a)
                &&& (offset matches Some(o) ==> r[i].id + o <= m.counter_value())
            },
        forall|i: int, j: int| 0 <= i < j < r.len() ==> #[trigger] r[i].id > #[trigger] r[j].id,
        forall|k: u128|
            #[trigger] m.feeds.contains_key(k) && (owner matches Some(a) ==> m.feeds[k].address == a)
                && (offset matches Some(o) ==> k + o <= m.counter_value()) ==> (limit == Some(0u64)
                || (r.len() > 0 && r[0].id >= k)),
{
    assert forall|i: int| 0 <= i < r.len() implies (offset matches Some(o) ==> #[trigger] r[i].id
        + o <= m.counter_value()) by {
        assert(m.feeds.contains_key(r[i].id));
        assert(eligible(r[i], owner, listing_bound(m, offset)));
    }
    assert forall|k: u128|
        #[trigger] m.feeds.contains_key(k) && (owner matches Some(a) ==> m.feeds[k].address == a)
            && (offset matches Some(o) ==> k + o <= m.counter_value()) implies (limit == Some(0u64)
            || (r.len() > 0 && r[0].id >= k)) by {
        match offset {
            Some(o) => {
                assert(k <= (m.counter_value() - o) as u128);
            },
            None => {},
        }
        match owner {
            Some(a) => {
                assert(m.feeds[k].address == a);
            },
            None => {},
        }
        assert(eligible(m.feeds[k], owner, listing_bound(m, offset)));
        if limit != Some(0u64) {
            assert(page_size(limit) >= 1);
            if r.len() == 0 {
                assert(r.len() < page_size(limit));
            } else if k > r[0].id {
                let last = r.len() - 1;
                if last > 0 {
                    assert(r[0].id > r[last].id);
                }
                let p = choose|p: int| 0 <= p < r.len() && #[trigger] r[p].id == k;
                if p > 0 {
                    assert(r[0].id > r[p].id);
                }
            }
        }
    }
}

/// A listing is fully determined by the state and the query: two sequences
/// that are both the page for the same filters and size are equal.
pub proof fn law_page_is_unique(
    r1: Seq<FeedView>,
    r2: Seq<FeedView>,
    m: Map<u128, FeedView>,
    owner: Option<Seq<char>>,
    upper: Option<u128>,
    n: nat,
)
    requires
        is_page(r1, m, owner, upper, n),
        is_page(r2, m, owner, upper, n),
    ensures
        r1 == r2,
{
    lemma_page_prefix(r1, r2, m, owner, upper, n);
    lemma_page_prefix(r2, r1, m, owner, upper, n);
    if r1.len() < r2.len() {
        lemma_page_longer(r1, r2, m, owner, upper, n);
    } else if r2.len() < r1.len() {
        lemma_page_longer(r2, r1, m, owner, upper, n);
    }
    assert(r1 =~= r2);
}

/// Two pages agree on every position that both have.
proof fn lemma_page_prefix(
    r1: Seq<FeedView>,
    r2: Seq<FeedView>,
    m: Map<u128, FeedView>,
    owner: Option<Seq<char>>,
    upper: Option<u128>,
    n: nat,
)
    requires
        is_page(r1, m, owner, upper, n),
        is_page(r2, m, owner, upper, n),
    ensures
        forall|i: int| 0 <= i < r1.len() && i < r2.len() ==> #[trigger] r1[i] == r2[i],
{
    assert forall|i: int| 0 <= i < r1.len() && i < r2.len() implies #[trigger] r1[i] == r2[i] by {
        lemma_page_prefix_at(r1, r2, m, owner, upper, n, i);
    }
}

proof fn lemma_page_prefix_at(
    r1: Seq<FeedView>,
    r2: Seq<FeedView>,
    m: Map<u128, FeedView>,
    owner: Option<Seq<char>>,
    upper: Option<u128>,
    n: nat,
    i: int,
)
    requires
        is_page(r1, m, owner, upper, n),
        is_page(r2, m, owner, upper, n),
        0 <= i < r1.len(),
        i < r2.len(),
    ensures
        r1[i] == r2[i],
    decreases i,
{
    if i > 0 {
        lemma_page_prefix_at(r1, r2, m, owner, upper, n, i - 1);
    }
    assert forall|j: int| 0 <= j < i implies r1[j] == r2[j] by {
        if j < i {
            lemma_page_prefix_at(r1, r2, m, owner, upper, n, j);
        }
    }
    let a = r1[i].id;
    let b = r2[i].id;
    if a > b {
        lemma_page_higher(r1, r2, m, owner, upper, n, i);
    } else if b > a {
        lemma_page_higher(r2, r1, m, owner, upper, n, i);
    }
    assert(m.contains_key(r1[i].id));
    assert(m.contains_key(r2[i].id));
}

/// If two pages agree before position `i`, the first holds no higher id than
/// the second at `i`.
proof fn lemma_page_higher(
    r1: Seq<FeedView>,
    r2: Seq<FeedView>,
    m: Map<u128, FeedView>,
    owner: Option<Seq<char>>,
    upper: Option<u128>,
    n: nat,
    i: int,
)
    requires
        is_page(r1, m, owner, upper, n),
        is_page(r2, m, owner, upper, n),
        0 <= i < r1.len(),
        i < r2.len(),
        forall|j: int| 0 <= j < i ==> r1[j] == r2[j],
    ensures
        r1[i].id <= r2[i].id,
{
    if r1[i].id > r2[i].id {
        let a = r1[i].id;
        assert(m.contains_key(a));
        let last = r2.len() - 1;
        if last > i {
            assert(r2[i].id > r2[last].id);
        }
        assert(a > r2[last].id);
        let p = choose|p: int| 0 <= p < r2.len() && #[trigger] r2[p].id == a;
        if p >= i {
            if p > i {
                assert(r2[i].id > r2[p].id);
            }
        } else {
            assert(r1[p] == r2[p]);
            assert(r1[p].id > r1[i].id);
        }
    }
}

/// Of two pages with the same filters that agree where both have entries,
/// the first is at least as long as the second.
proof fn lemma_page_longer(
    r1: Seq<FeedView>,
    r2: Seq<FeedView>,
    m: Map<u128, FeedView>,
    owner: Option<Seq<char>>,
    upper: Option<u128>,
    n: nat,
)
    requires
        is_page(r1, m, owner, upper, n),
        is_page(r2, m, owner, upper, n),
        forall|i: int| 0 <= i < r1.len() && i < r2.len() ==> #[trigger] r1[i] == r2[i],
    ensures
        r1.len() >= r2.len(),
{
    if r1.len() < r2.len() {
        let k = r2[r1.len() as int].id;
        assert(m.contains_key(k));
        let p = choose|p: int| 0 <= p < r1.len() && #[trigger] r1[p].id == k;
        assert(r1[p] == r2[p]);
        assert(r2[p].id > r2[r1.len() as int].id);
    }
}

} // verus!
