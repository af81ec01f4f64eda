use vstd::prelude::*;

verus! {

/// One post of the feed: its id, the address that owns it and its text.
pub struct Feed {
    pub id: u128,
    pub address: String,
    pub message: String,
}

/// The mathematical value of a [`Feed`].
pub struct FeedView {
    pub id: u128,
    pub address: Seq<char>,
    pub message: Seq<char>,
}

impl View for Feed {
    type V = FeedView;

    open spec fn view(&self) -> FeedView {
        FeedView { id: self.id, address: self.address@, message: self.message@ }
    }
}

impl Feed {
    /// A copy of the feed, field by field.
    pub fn duplicate(&self) -> (r: Feed)
        ensures
            r@ == self@,
    {
        Feed { id: self.id, address: self.address.clone(), message: self.message.clone() }
    }
}

/// The contract's configuration: the administrator chosen at instantiation.
pub struct State {
    pub admin_address: String,
}

/// The whole contract state, as the model of the contracts sees it.
pub struct FeedStoreView {
    /// The administrator's address, once the contract was instantiated.
    pub admin: Option<Seq<char>>,
    /// The feed counter: the id of the most recently created feed.
    pub counter: Option<u128>,
    /// The stored feeds, keyed by their id.
    pub feeds: Map<u128, FeedView>,
}

impl FeedStoreView {
    /// The counter as the contract reads it: an absent counter counts as zero.
    pub open spec fn counter_value(self) -> u128 {
        match self.counter {
            Some(c) => c,
            None => 0,
        }
    }

    /// Whether a feed with this id is stored and is owned by `address`.
    pub open spec fn has_feed_of(self, address: Seq<char>, id: u128) -> bool {
        self.feeds.contains_key(id) && self.feeds[id].address == address
    }

    /// Every stored feed is filed under its own id.
    pub open spec fn ids_match(self) -> bool {
        forall|k: u128| #[trigger] self.feeds.contains_key(k) ==> self.feeds[k].id == k
    }

    /// No stored feed has an id above the counter.
    pub open spec fn ids_bounded(self) -> bool {
        forall|k: u128| #[trigger] self.feeds.contains_key(k) ==> k <= self.counter_value()
    }
}

/// The views of a sequence of feeds.
pub open spec fn feed_views(s: Seq<Feed>) -> Seq<FeedView> {
    s.map_values(|f: Feed| f@)
}

/// Whether a feed passes a listing's filters: owned by `owner` when one is
/// given, and with an id no greater than `upper` when a bound is given.
pub open spec fn eligible(f: FeedView, owner: Option<Seq<char>>, upper: Option<u128>) -> bool {
    &&& match owner {
        Some(a) => f.address == a,
        None => true,
    }
    &&& match upper {
        Some(u) => f.id <= u,
        None => true,
    }
}

/// `r` is the page of at most `n` feeds of `m` that pass the filters, newest
/// (highest id) first: it holds only such feeds, in strictly decreasing order
/// of id, and leaves none out that is newer than its last, nor any at all when
/// it is shorter than `n`.
pub open spec fn is_page(
    r: Seq<FeedView>,
    m: Map<u128, FeedView>,
    owner: Option<Seq<char>>,
    upper: Option<u128>,
    n: nat,
) -> bool {
    &&& r.len() <= n
    &&& forall|i: int|
        0 <= i < r.len() ==> {
            &&& m.contains_key(#[trigger] r[i].id)
            &&& m[r[i].id] == r[i]
            &&& eligible(r[i], owner, upper)
        }
    &&& forall|i: int, j: int| 0 <= i < j < r.len() ==> #[trigger] r[i].id > #[trigger] r[j].id
    &&& forall|k: u128|
        #[trigger] m.contains_key(k) && eligible(m[k], owner, upper) && (r.len() < n || (r.len()
            > 0 && k > r[r.len() - 1].id)) ==> exists|i: int| 0 <= i < r.len() && #[trigger] r[i].id == k
}

/// The view of an optional borrowed string.
pub open spec fn opt_str_view(s: Option<&String>) -> Option<Seq<char>> {
    match s {
        Some(a) => Some(a@),
        None => None,
    }
}

/// Feeds in strictly increasing order of id.
pub open spec fn sorted_by_id(s: Seq<Feed>) -> bool {
    forall|i: int, j: int| 0 <= i < j < s.len() ==> #[trigger] s[i].id < #[trigger] s[j].id
}

/// The map from id to feed that a sequence of feeds stands for.
pub open spec fn feeds_map(s: Seq<Feed>) -> Map<u128, FeedView> {
    Map::new(
        |k: u128| exists|i: int| 0 <= i < s.len() && #[trigger] s[i].id == k,
        |k: u128| s[choose|i: int| 0 <= i < s.len() && #[trigger] s[i].id == k]@,
    )
}

/// Every feed that the map holds is filed under its own id, and the map holds
/// finitely many feeds.
pub proof fn lemma_feeds_map_facts(s: Seq<Feed>)
    ensures
        forall|k: u128| #[trigger] feeds_map(s).contains_key(k) ==> feeds_map(s)[k].id == k,
        feeds_map(s).dom().finite(),
{
    let ids = s.map_values(|f: Feed| f.id);
    assert forall|k: u128| #[trigger] feeds_map(s).dom().contains(k) <==> ids.to_set().contains(k) by {
        if feeds_map(s).dom().contains(k) {
            let i = choose|i: int| 0 <= i < s.len() && #[trigger] s[i].id == k;
            assert(ids[i] == k);
        }
        if ids.to_set().contains(k) {
            let i = choose|i: int| 0 <= i < ids.len() && ids[i] == k;
            assert(s[i].id == k);
        }
    }
    assert(feeds_map(s).dom() =~= ids.to_set());
    vstd::seq_lib::seq_to_set_is_finite(ids);
}

/// In a sorted sequence, the feed at position `i` is what the map holds under its id.
pub proof fn lemma_feeds_map_at(s: Seq<Feed>, i: int)
    requires
        sorted_by_id(s),
        0 <= i < s.len(),
    ensures
        feeds_map(s).contains_key(s[i].id),
        feeds_map(s)[s[i].id] == s[i]@,
{
    let k = s[i].id;
    assert(exists|j: int| 0 <= j < s.len() && #[trigger] s[j].id == k);
    let j = choose|j: int| 0 <= j < s.len() && #[trigger] s[j].id == k;
    if j < i {
        assert(s[j].id < s[i].id);
    } else if i < j {
        assert(s[i].id < s[j].id);
    }
}

/// Every id in the map comes from some position of the sequence.
pub proof fn lemma_feeds_map_key(s: Seq<Feed>, k: u128) -> (i: int)
    requires
        sorted_by_id(s),
        feeds_map(s).contains_key(k),
    ensures
        0 <= i < s.len(),
        s[i].id == k,
        feeds_map(s)[k] == s[i]@,
{
    let i = choose|i: int| 0 <= i < s.len() && #[trigger] s[i].id == k;
    lemma_feeds_map_at(s, i);
    i
}

/// Inserting a feed at the place that keeps the order adds it to the map.
pub proof fn lemma_feeds_map_insert(s: Seq<Feed>, p: int, f: Feed)
    requires
        sorted_by_id(s),
        0 <= p <= s.len(),
        forall|i: int| 0 <= i < p ==> #[trigger] s[i].id < f.id,
        forall|i: int| p <= i < s.len() ==> f.id < #[trigger] s[i].id,
    ensures
        sorted_by_id(s.insert(p, f)),
        feeds_map(s.insert(p, f)) == feeds_map(s).insert(f.id, f@),
{
    let t = s.insert(p, f);
    assert forall|i: int, j: int| 0 <= i < j < t.len() implies #[trigger] t[i].id < #[trigger] t[j].id by {
        if j < p {
        } else if j == p {
        } else if i < p {
            assert(t[j] == s[j - 1]);
        } else if i == p {
            assert(t[j] == s[j - 1]);
        } else {
            assert(t[i] == s[i - 1]);
            assert(t[j] == s[j - 1]);
        }
    }
    assert(t[p] == f);
    lemma_feeds_map_at(t, p);
    assert forall|k: u128| #[trigger] feeds_map(t).contains_key(k) <==> feeds_map(s).insert(
        f.id,
        f@,
    ).contains_key(k) by {
        if feeds_map(t).contains_key(k) && k != f.id {
            let i = lemma_feeds_map_key(t, k);
            if i < p {
                assert(t[i] == s[i]);
                lemma_feeds_map_at(s, i);
            } else if i > p {
                assert(t[i] == s[i - 1]);
                lemma_feeds_map_at(s, i - 1);
            }
        }
        if feeds_map(s).contains_key(k) {
            let i = lemma_feeds_map_key(s, k);
            if i < p {
                assert(t[i] == s[i]);
                lemma_feeds_map_at(t, i);
            } else {
                assert(t[i + 1] == s[i]);
                lemma_feeds_map_at(t, i + 1);
            }
        }
    }
    assert forall|k: u128| #[trigger] feeds_map(t).contains_key(k) implies feeds_map(t)[k]
        == feeds_map(s).insert(f.id, f@)[k] by {
        if k != f.id {
            let i = lemma_feeds_map_key(t, k);
            if i < p {
                assert(t[i] == s[i]);
                lemma_feeds_map_at(s, i);
            } else if i > p {
                assert(t[i] == s[i - 1]);
                lemma_feeds_map_at(s, i - 1);
            }
        }
    }
    assert(feeds_map(t) =~= feeds_map(s).insert(f.id, f@));
}

/// Replacing the feed at a position by one with the same id overwrites it in the map.
pub proof fn lemma_feeds_map_update(s: Seq<Feed>, p: int, f: Feed)
    requires
        sorted_by_id(s),
        0 <= p < s.len(),
        s[p].id == f.id,
    ensures
        sorted_by_id(s.update(p, f)),
        feeds_map(s.update(p, f)) == feeds_map(s).insert(f.id, f@),
{
    let t = s.update(p, f);
    assert forall|i: int, j: int| 0 <= i < j < t.len() implies #[trigger] t[i].id < #[trigger] t[j].id by {
        assert(s[i].id < s[j].id);
    }
    lemma_feeds_map_at(t, p);
    assert forall|k: u128| #[trigger] feeds_map(t).contains_key(k) <==> feeds_map(s).insert(
        f.id,
        f@,
    ).contains_key(k) by {
        if feeds_map(t).contains_key(k) && k != f.id {
            let i = lemma_feeds_map_key(t, k);
            lemma_feeds_map_at(s, i);
        }
        if feeds_map(s).contains_key(k) {
            let i = lemma_feeds_map_key(s, k);
            lemma_feeds_map_at(t, i);
        }
    }
    assert forall|k: u128| #[trigger] feeds_map(t).contains_key(k) implies feeds_map(t)[k]
        == feeds_map(s).insert(f.id, f@)[k] by {
        if k != f.id {
            let i = lemma_feeds_map_key(t, k);
            lemma_feeds_map_at(s, i);
        }
    }
    assert(feeds_map(t) =~= feeds_map(s).insert(f.id, f@));
}

/// The contract's storage: its configuration, the feed counter and the feeds,
/// kept in strictly increasing order of id.
///
/// On chain these live in the host's key-value storage, each feed encoded and
/// indexed by id and by owner; that encoding is read and written by the
/// contract's entry points, and this type holds the decoded state (all of it,
/// or the entries that an operation reads).
pub struct FeedStore {
    state: Option<State>,
    counter: Option<u128>,
    feeds: Vec<Feed>,
}

impl View for FeedStore {
    type V = FeedStoreView;

    closed spec fn view(&self) -> FeedStoreView {
        FeedStoreView {
            admin: match self.state {
                Some(st) => Some(st.admin_address@),
                None => None,
            },
            counter: self.counter,
            feeds: feeds_map(self.feeds@),
        }
    }
}

impl FeedStore {
    #[verifier::type_invariant]
    closed spec fn wf(self) -> bool {
        sorted_by_id(self.feeds@)
    }

    /// Every store files each feed under its own id and holds finitely many
    /// feeds.
    pub proof fn lemma_view_facts(&self)
        ensures
            self@.ids_match(),
            self@.feeds.dom().finite(),
    {
        lemma_feeds_map_facts(self.feeds@);
    }

    /// A store with nothing in it: not instantiated, no counter, no feeds.
    pub fn new() -> (r: FeedStore)
        ensures
            r@.admin is None,
            r@.counter is None,
            r@.feeds == Map::<u128, FeedView>::empty(),
    {
        let r = FeedStore { state: None, counter: None, feeds: Vec::new() };
        assert(r@.feeds =~= Map::<u128, FeedView>::empty());
        r
    }

    /// Rebuilds a store from its parts; the feeds must come in strictly
    /// increasing order of id, as storage lists them.
    pub fn from_parts(state: Option<State>, counter: Option<u128>, feeds: Vec<Feed>) -> (r: Option<
        FeedStore,
    >)
        ensures
            r is Some <==> sorted_by_id(feeds@),
            r matches Some(store) ==> {
                &&& store@.admin == (match state {
                    Some(st) => Some(st.admin_address@),
                    None => None::<Seq<char>>,
                })
                &&& store@.counter == counter
                &&& store@.feeds == feeds_map(feeds@)
            },
    {
        let n = feeds.len();
        let mut i: usize = 1;
        while i < n
            invariant
                n == feeds@.len(),
                1 <= i,
                forall|a: int, b: int|
                    0 <= a < b < i && b < n ==> #[trigger] feeds@[a].id < #[trigger] feeds@[b].id,
            decreases n - i,
        {
            if feeds[i - 1].id >= feeds[i].id {
                return None;
            }
            assert forall|a: int, b: int|
                0 <= a < b < i + 1 && b < n implies #[trigger] feeds@[a].id
                < #[trigger] feeds@[b].id by {
                if b == i && a < i - 1 {
                    assert(feeds@[a].id < feeds@[i - 1].id);
                }
            }
            i = i + 1;
        }
        Some(FeedStore { state, counter, feeds })
    }

    /// The administrator's configuration, if the contract was instantiated.
    pub fn state(&self) -> (r: Option<State>)
        ensures
            r matches Some(st) ==> self@.admin == Some(st.admin_address@),
            r is None ==> self@.admin is None,
    {
        match &self.state {
            Some(st) => Some(State { admin_address: st.admin_address.clone() }),
            None => None,
        }
    }

    /// The feed counter, if one was saved.
    pub fn counter(&self) -> (r: Option<u128>)
        ensures
            r == self@.counter,
    {
        self.counter
    }

    /// Searches for `id`: `Ok` with its position, or `Err` with the position
    /// where a feed with that id would be inserted.
    fn position(&self, id: u128) -> (r: Result<usize, usize>)
        ensures
            match r {
                Ok(p) => p < self.feeds@.len() && self.feeds@[p as int].id == id,
                Err(p) => {
                    &&& p <= self.feeds@.len()
                    &&& forall|i: int| 0 <= i < p ==> #[trigger] self.feeds@[i].id < id
                    &&& forall|i: int| p <= i < self.feeds@.len() ==> id < #[trigger] self.feeds@[i].id
                },
            },
    {
        proof {
            use_type_invariant(self);
        }
        let n = self.feeds.len();
        let mut i: usize = 0;
        while i < n
            invariant
                n == self.feeds@.len(),
                i <= n,
                sorted_by_id(self.feeds@),
                forall|j: int| 0 <= j < i ==> #[trigger] self.feeds@[j].id < id,
            decreases n - i,
        {
            let cur = self.feeds[i].id;
            if cur == id {
                return Ok(i);
            }
            if cur > id {
                assert forall|j: int| i <= j < n implies id < #[trigger] self.feeds@[j].id by {
                    if j > i {
                        assert(self.feeds@[i as int].id < self.feeds@[j].id);
                    }
                }
                return Err(i);
            }
            i = i + 1;
        }
        Err(n)
    }

    /// The feed stored under `id`, if any.
    pub fn get(&self, id: u128) -> (r: Option<&Feed>)
        ensures
            match r {
                Some(f) => self@.feeds.contains_key(id) && f@ == self@.feeds[id] && f.id == id,
                None => !self@.feeds.contains_key(id),
            },
    {
        proof {
            use_type_invariant(self);
        }
        match self.position(id) {
            Ok(p) => {
                proof {
                    lemma_feeds_map_at(self.feeds@, p as int);
                }
                Some(&self.feeds[p])
            },
            Err(_) => {
                proof {
                    if self@.feeds.contains_key(id) {
                        lemma_feeds_map_key(self.feeds@, id);
                    }
                }
                None
            },
        }
    }

    /// Whether a feed is stored under `id`.
    pub fn contains(&self, id: u128) -> (r: bool)
        ensures
            r == self@.feeds.contains_key(id),
    {
        match self.get(id) {
            Some(_) => true,
            None => false,
        }
    }

    /// Stores `feed` under its id, replacing any feed stored there.
    pub fn save(&mut self, feed: Feed)
        ensures
            final(self)@.admin == old(self)@.admin,
            final(self)@.counter == old(self)@.counter,
            final(self)@.feeds == old(self)@.feeds.insert(feed.id, feed@),
    {
        proof {
            use_type_invariant(&*self);
        }
        let pos = self.position(feed.id);
        let mut v: Vec<Feed> = Vec::new();
        std::mem::swap(&mut v, &mut self.feeds);
        match pos {
            Ok(p) => {
                proof {
                    lemma_feeds_map_update(v@, p as int, feed);
                }
                v.set(p, feed);
            },
            Err(p) => {
                proof {
                    lemma_feeds_map_insert(v@, p as int, feed);
                }
                v.insert(p, feed);
            },
        }
        self.feeds = v;
    }

    /// The page of at most `n` stored feeds that pass the filters (owner
    /// `owner` when given, id at most `upper` when given), newest first.
    pub fn page(&self, owner: Option<&String>, upper: Option<u128>, n: usize) -> (r: Vec<Feed>)
        ensures
            is_page(feed_views(r@), self@.feeds, opt_str_view(owner), upper, n as nat),
    {
        proof {
            use_type_invariant(self);
        }
        let ghost s = self.feeds@;
        let ghost ow = opt_str_view(owner);
        let len = self.feeds.len();
        let mut r: Vec<Feed> = Vec::new();
        let ghost mut ix: Seq<int> = Seq::empty();
        let mut i = len;
        while i > 0 && r.len() < n
            invariant
                s == self.feeds@,
                len == s.len(),
                sorted_by_id(s),
                ow == opt_str_view(owner),
                i <= len,
                r@.len() <= n,
                ix.len() == r@.len(),
                forall|j: int|
                    0 <= j < r@.len() ==> {
                        &&& i <= #[trigger] ix[j] < len
                        &&& r@[j]@ == s[ix[j]]@
                        &&& eligible(r@[j]@, ow, upper)
                    },
                forall|a: int, b: int| 0 <= a < b < r@.len() ==> #[trigger] ix[a] > #[trigger] ix[b],
                forall|idx: int|
                    i <= idx < len && eligible(#[trigger] s[idx]@, ow, upper) ==> exists|j: int|
                        0 <= j < ix.len() && #[trigger] ix[j] == idx,
            decreases i,
        {
            i = i - 1;
            let f = &self.feeds[i];
            let owned = match owner {
                Some(a) => f.address == *a,
                None => true,
            };
            let below = match upper {
                Some(u) => f.id <= u,
                None => true,
            };
            let ghost old_ix = ix;
            let ghost old_r = r@;
            if owned && below {
                r.push(f.duplicate());
                proof {
                    ix = ix.push(i as int);
                    assert(ix[ix.len() - 1] == i as int);
                    assert(r@[r@.len() - 1]@ == s[i as int]@);
                    assert(eligible(s[i as int]@, ow, upper));
                    assert forall|j: int| 0 <= j < r@.len() - 1 implies ix[j] == old_ix[j] && r@[j]
                        == old_r[j] by {}
                }
            }
            proof {
                assert forall|idx: int|
                    i <= idx < len && eligible(#[trigger] s[idx]@, ow, upper) implies exists|j: int|
                    0 <= j < ix.len() && #[trigger] ix[j] == idx by {
                    if idx == i {
                        assert(ix[ix.len() - 1] == idx);
                    } else {
                        let j = choose|j: int| 0 <= j < old_ix.len() && #[trigger] old_ix[j] == idx;
                        assert(ix[j] == old_ix[j]);
                    }
                }
            }
        }
        let ghost rv = feed_views(r@);
        proof {
            let m = self@.feeds;
            assert(m == feeds_map(s));
            assert forall|j: int| 0 <= j < rv.len() implies {
                &&& m.contains_key(#[trigger] rv[j].id)
                &&& m[rv[j].id] == rv[j]
                &&& eligible(rv[j], ow, upper)
            } by {
                lemma_feeds_map_at(s, ix[j]);
            }
            assert forall|a: int, b: int| 0 <= a < b < rv.len() implies #[trigger] rv[a].id
                > #[trigger] rv[b].id by {
                assert(ix[a] > ix[b]);
                assert(s[ix[b]].id < s[ix[a]].id);
            }
            assert forall|k: u128|
                #[trigger] m.contains_key(k) && eligible(m[k], ow, upper) && (rv.len() < n || (
                rv.len() > 0 && k > rv[rv.len() - 1].id)) implies exists|j: int|
                0 <= j < rv.len() && #[trigger] rv[j].id == k by {
                let idx = lemma_feeds_map_key(s, k);
                if idx >= i {
                    let j = choose|j: int| 0 <= j < ix.len() && #[trigger] ix[j] == idx;
                    assert(rv[j].id == k);
                } else {
                    let last = rv.len() - 1;
                    assert(ix[last] >= i);
                    assert(s[idx].id < s[ix[last]].id);
                }
            }
        }
        r
    }

    /// Saves the configuration.
    pub fn save_state(&mut self, state: State)
        ensures
            final(self)@.admin == Some(state.admin_address@),
            final(self)@.counter == old(self)@.counter,
            final(self)@.feeds == old(self)@.feeds,
    {
        proof {
            use_type_invariant(&*self);
        }
        self.state = Some(state);
    }

    /// Saves the feed counter.
    pub fn save_counter(&mut self, counter: u128)
        ensures
            final(self)@.admin == old(self)@.admin,
            final(self)@.counter == Some(counter),
            final(self)@.feeds == old(self)@.feeds,
    {
        proof {
            use_type_invariant(&*self);
        }
        self.counter = Some(counter);
    }
}

} // verus!
