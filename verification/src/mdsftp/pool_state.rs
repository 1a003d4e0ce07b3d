//! The bookkeeping of a pool of MDSFTP connections: which connections lead
//! to which node, which one a new channel uses, and which are swept.
use multimap::MultiMap;
use vstd::prelude::*;
use crate::error::{MDSFTPError, MDSFTPResult};

verus! {

#[verifier::external_type_specification]
#[verifier::external_body]
#[verifier::reject_recursive_types(K)]
#[verifier::reject_recursive_types(V)]
#[verifier::reject_recursive_types(S)]
pub struct ExMultiMap<K, V, S>(MultiMap<K, V, S>);

/// The connections of each node, in the multimap that files them.
pub type NodeConnections = MultiMap<u128, u128>;

/// The connections of each node, oldest first.
pub type ConnectionsView = Map<u128, Seq<u128>>;

/// The values a multimap holds, listed under each key in insertion order.
pub uninterp spec fn multimap_contents(m: MultiMap<u128, u128>) -> Map<u128, Seq<u128>>;

/// Calls `multimap::MultiMap::new`: claims that the map is empty.
#[verifier::external_body]
fn multimap_new() -> (r: NodeConnections)
    ensures
        multimap_contents(r) == ConnectionsView::empty(),
{
    MultiMap::new()
}

/// Calls `multimap::MultiMap::insert`: claims that `v` is appended to the
/// values of `k`, which start out empty when `k` is new.
#[verifier::external_body]
fn multimap_insert(m: &mut MultiMap<u128, u128>, k: u128, v: u128)
    ensures
        multimap_contents(*final(m)) == multimap_contents(*old(m)).insert(
            k,
            if multimap_contents(*old(m)).contains_key(k) {
                multimap_contents(*old(m))[k].push(v)
            } else {
                seq![v]
            },
        ),
{
    m.insert(k, v)
}

/// Calls `multimap::MultiMap::insert_many`: claims that the values are
/// appended, in order, to those of `k`, which start out empty when `k` is
/// new.
#[verifier::external_body]
fn multimap_insert_many(m: &mut MultiMap<u128, u128>, k: u128, vs: Vec<u128>)
    ensures
        multimap_contents(*final(m)) == multimap_contents(*old(m)).insert(
            k,
            if multimap_contents(*old(m)).contains_key(k) {
                multimap_contents(*old(m))[k] + vs@
            } else {
                vs@
            },
        ),
{
    m.insert_many(k, vs)
}

/// Calls `multimap::MultiMap::get_vec` and copies the values: claims that
/// they are the values of `k`, and that there are none when `k` is absent.
#[verifier::external_body]
fn multimap_get_vec(m: &MultiMap<u128, u128>, k: u128) -> (r: Option<Vec<u128>>)
    ensures
        match r {
            Some(vs) => multimap_contents(*m).contains_key(k) && vs@ == multimap_contents(*m)[k],
            None => !multimap_contents(*m).contains_key(k),
        },
{
    m.get_vec(&k).cloned()
}

/// Calls `multimap::MultiMap::remove`: claims that `k` and its values are
/// gone, and hands back those values.
#[verifier::external_body]
fn multimap_remove(m: &mut MultiMap<u128, u128>, k: u128) -> (r: Option<Vec<u128>>)
    ensures
        multimap_contents(*final(m)) == multimap_contents(*old(m)).remove(k),
        match r {
            Some(vs) => multimap_contents(*old(m)).contains_key(k) && vs@ == multimap_contents(
                *old(m),
            )[k],
            None => !multimap_contents(*old(m)).contains_key(k),
        },
{
    m.remove(&k)
}

/// Calls `multimap::MultiMap::keys` and collects them: claims that each key
/// comes once, in some order.
#[verifier::external_body]
fn multimap_keys(m: &MultiMap<u128, u128>) -> (r: Vec<u128>)
    ensures
        r@.to_set() == multimap_contents(*m).dom(),
        r@.no_duplicates(),
{
    m.keys().copied().collect()
}

/// Calls `multimap::MultiMap::clear`: claims that the map is empty.
#[verifier::external_body]
fn multimap_clear(m: &mut MultiMap<u128, u128>)
    ensures
        multimap_contents(*final(m)) == ConnectionsView::empty(),
{
    m.clear()
}

/// The index of the first least value among `loads`.
pub open spec fn is_first_least(loads: Seq<usize>, i: int) -> bool {
    &&& 0 <= i < loads.len()
    &&& forall|j: int| 0 <= j < loads.len() ==> loads[i] <= #[trigger] loads[j]
    &&& forall|j: int| 0 <= j < i ==> loads[i] < #[trigger] loads[j]
}

/// The position of the least loaded connection: the first of those with
/// the fewest channels, or none when there is no connection.
pub fn least_loaded(loads: &[usize]) -> (r: Option<usize>)
    ensures
        loads@.len() == 0 <==> r is None,
        r matches Some(i) ==> is_first_least(loads@, i as int),
{
    if loads.len() == 0 {
        return None;
    }
    let mut best: usize = 0;
    let mut i: usize = 1;
    while i < loads.len()
        invariant
            1 <= i <= loads@.len(),
            best < i,
            forall|j: int| 0 <= j < i ==> loads@[best as int] <= #[trigger] loads@[j],
            forall|j: int| 0 <= j < best ==> loads@[best as int] < #[trigger] loads@[j],
        decreases loads@.len() - i,
    {
        if loads[i] < loads[best] {
            best = i;
        }
        i = i + 1;
    }
    Some(best)
}

/// How long an idle connection lives: five minutes, in nanoseconds.
pub const STALE_TIMEOUT_NANOS: u128 = 300000000000;

/// Whether a connection is swept: idle longer than the timeout, with no
/// channel open.
pub fn is_stale(idle_nanos: u128, channel_count: usize) -> (r: bool)
    ensures
        r == (idle_nanos > STALE_TIMEOUT_NANOS && channel_count == 0),
{
    idle_nanos > STALE_TIMEOUT_NANOS && channel_count == 0
}

/// The size settings of a pool.
#[derive(Debug, Clone, Copy, PartialEq, Eq)]
pub struct MDSFTPPoolConfigHolder {
    pub fragment_size: u32,
    pub buffer_size: u16,
}

impl MDSFTPPoolConfigHolder {
    /// The default settings: fragments of `u16::MAX` bytes, a buffer of 16.
    pub fn default_config() -> (r: Self)
        ensures
            r == (MDSFTPPoolConfigHolder { fragment_size: 65535, buffer_size: 16 }),
    {
        MDSFTPPoolConfigHolder { fragment_size: 65535, buffer_size: 16 }
    }
}

impl Default for MDSFTPPoolConfigHolder {
    fn default() -> (r: Self)
        ensures
            r == (MDSFTPPoolConfigHolder { fragment_size: 65535, buffer_size: 16 }),
    {
        MDSFTPPoolConfigHolder::default_config()
    }
}

/// The connections of node `n` that survive the first `i` swept pairs.
pub open spec fn kept_after(
    conns: Map<u128, Seq<u128>>,
    swept: Seq<(u128, u128)>,
    i: int,
    n: u128,
) -> Seq<u128> {
    if conns.contains_key(n) {
        conns[n].filter(|c: u128| !swept.subrange(0, i).contains((n, c)))
    } else {
        Seq::<u128>::empty()
    }
}

/// Filtering twice is filtering by both predicates.
proof fn lemma_filter_filter(s: Seq<u128>, p: spec_fn(u128) -> bool, q: spec_fn(u128) -> bool)
    ensures
        s.filter(p).filter(q) == s.filter(|x: u128| p(x) && q(x)),
    decreases s.len(),
{
    reveal_with_fuel(Seq::filter, 1);
    if s.len() > 0 {
        let t = s.drop_last();
        let a = s.last();
        lemma_filter_filter(t, p, q);
        if p(a) {
            assert(t.filter(p).push(a).drop_last() =~= t.filter(p));
        }
    }
}

/// What one more swept pair does to the connections of a node.
proof fn lemma_sweep_step(
    conns: Map<u128, Seq<u128>>,
    swept: Seq<(u128, u128)>,
    i: int,
    n: u128,
)
    requires
        0 <= i < swept.len(),
    ensures
        kept_after(conns, swept, i + 1, n) == if swept[i].0 == n {
            kept_after(conns, swept, i, n).filter(other_than(swept[i].1))
        } else {
            kept_after(conns, swept, i, n)
        },
{
    reveal_with_fuel(Seq::filter, 1);
    let s0 = swept.subrange(0, i);
    let s1 = swept.subrange(0, i + 1);
    let before = |c: u128| !s0.contains((n, c));
    let after = |c: u128| !s1.contains((n, c));
    assert(s1 =~= s0.push(swept[i]));
    assert forall|c: u128| #[trigger] s1.contains((n, c)) == (s0.contains((n, c)) || swept[i] == (n, c)) by {
        if s0.contains((n, c)) {
            let k = choose|k: int| 0 <= k < s0.len() && #[trigger] s0[k] == (n, c);
            assert(s1[k] == (n, c));
        }
        if s1.contains((n, c)) {
            let k = choose|k: int| 0 <= k < s1.len() && #[trigger] s1[k] == (n, c);
            if k < i {
                assert(s0[k] == (n, c));
            }
        }
        if swept[i] == (n, c) {
            assert(s1[i] == (n, c));
        }
    }
    if conns.contains_key(n) {
        if swept[i].0 == n {
            let q = other_than(swept[i].1);
            lemma_filter_filter(conns[n], before, q);
            assert(after =~= |x: u128| before(x) && q(x));
        } else {
            assert(after =~= before);
        }
    }
}

/// Every connection but `conn`.
pub open spec fn other_than(conn: u128) -> spec_fn(u128) -> bool {
    |c: u128| c != conn
}

/// What one swept pair `(node, conn)` leaves of the connections `m`: `conn`
/// is dropped from the node's list, and the node too when nothing is left.
pub open spec fn sweep_one(m: Map<u128, Seq<u128>>, node: u128, conn: u128) -> Map<u128, Seq<u128>> {
    let nk = if m.contains_key(node) {
        m[node].filter(other_than(conn))
    } else {
        Seq::<u128>::empty()
    };
    if nk.len() > 0 {
        m.remove(node).insert(node, nk)
    } else {
        m.remove(node)
    }
}

/// `cur` files, under each node, what the first `i` swept pairs leave of
/// its connections in `conns`, and no node with nothing left.
pub open spec fn swept_state(
    conns: Map<u128, Seq<u128>>,
    swept: Seq<(u128, u128)>,
    i: int,
    cur: Map<u128, Seq<u128>>,
) -> bool {
    forall|n: u128|
        {
            let kept = kept_after(conns, swept, i, n);
            &&& (#[trigger] cur.contains_key(n)) == (kept.len() > 0)
            &&& kept.len() > 0 ==> cur[n] == kept
        }
}

/// Before any pair is swept, a well-formed map of connections is its own
/// sweep state.
proof fn lemma_sweep_start(conns: Map<u128, Seq<u128>>, swept: Seq<(u128, u128)>)
    requires
        forall|n: u128| #[trigger] conns.contains_key(n) ==> conns[n].len() > 0,
    ensures
        swept_state(conns, swept, 0, conns),
{
    assert forall|n: u128| conns.contains_key(n) implies #[trigger] kept_after(conns, swept, 0, n)
        == conns[n] by {
        let s0 = swept.subrange(0, 0);
        assert(s0 =~= Seq::<(u128, u128)>::empty());
        lemma_filter_all(conns[n], |c: u128| !s0.contains((n, c)));
    }
    assert forall|n: u128| !conns.contains_key(n) implies #[trigger] kept_after(conns, swept, 0, n).len() == 0 by {}
}

/// Sweeping one more pair takes the sweep state one step on.
proof fn lemma_sweep_state_step(
    conns: Map<u128, Seq<u128>>,
    swept: Seq<(u128, u128)>,
    i: int,
    before: Map<u128, Seq<u128>>,
)
    requires
        0 <= i < swept.len(),
        swept_state(conns, swept, i, before),
    ensures
        swept_state(conns, swept, i + 1, sweep_one(before, swept[i].0, swept[i].1)),
{
    let node = swept[i].0;
    let conn = swept[i].1;
    let after = sweep_one(before, node, conn);
    assert forall|n: u128| true implies {
        let kept = kept_after(conns, swept, i + 1, n);
        &&& (#[trigger] after.contains_key(n)) == (kept.len() > 0)
        &&& kept.len() > 0 ==> after[n] == kept
    } by {
        lemma_sweep_step(conns, swept, i, n);
        let k0 = kept_after(conns, swept, i, n);
        assert(before.contains_key(n) == (k0.len() > 0));
        if n == node && !before.contains_key(n) {
            assert(k0 =~= Seq::<u128>::empty());
            lemma_filter_empty(other_than(conn));
        }
    }
}

/// Filtering by a predicate that every item meets keeps the sequence.
proof fn lemma_filter_all(s: Seq<u128>, p: spec_fn(u128) -> bool)
    requires
        forall|x: u128| #[trigger] p(x),
    ensures
        s.filter(p) == s,
    decreases s.len(),
{
    reveal_with_fuel(Seq::filter, 1);
    if s.len() > 0 {
        lemma_filter_all(s.drop_last(), p);
        assert(s.drop_last().push(s.last()) =~= s);
    }
}

/// Filtering the empty sequence gives the empty sequence.
proof fn lemma_filter_empty(p: spec_fn(u128) -> bool)
    ensures
        Seq::<u128>::empty().filter(p) == Seq::<u128>::empty(),
{
    reveal_with_fuel(Seq::filter, 1);
}

/// Sweeping removes exactly the swept connections: a connection of a node
/// is left after all the swept pairs if and only if its pair is not one of
/// them.
pub proof fn lemma_sweep_removes_exactly(
    conns: Map<u128, Seq<u128>>,
    swept: Seq<(u128, u128)>,
    n: u128,
    c: u128,
)
    requires
        conns.contains_key(n),
        conns[n].contains(c),
    ensures
        kept_after(conns, swept, swept.len() as int, n).contains(c) <==> !swept.contains((n, c)),
{
    let all = swept.subrange(0, swept.len() as int);
    assert(all =~= swept);
    let pred = |x: u128| !all.contains((n, x));
    let kept = kept_after(conns, swept, swept.len() as int, n);
    assert(kept == conns[n].filter(pred));
    let i = choose|i: int| 0 <= i < conns[n].len() && conns[n][i] == c;
    if !swept.contains((n, c)) {
        conns[n].lemma_filter_contains(pred, i);
    } else if kept.contains(c) {
        let j = choose|j: int| 0 <= j < kept.len() && kept[j] == c;
        conns[n].lemma_filter_pred(pred, j);
    }
}

/// The connections of a pool, filed under the node they lead to. A
/// connection is named by its local identifier (the sixteen bytes of its
/// UUID, read big-endian).
pub struct PoolState {
    connections: MultiMap<u128, u128>,
    shutting_down: bool,
    has_packet_handler: bool,
}

impl PoolState {
    /// The connections of each node, oldest first.
    pub closed spec fn connections(&self) -> Map<u128, Seq<u128>> {
        multimap_contents(self.connections)
    }

    pub closed spec fn is_shutting_down(&self) -> bool {
        self.shutting_down
    }

    pub closed spec fn has_handler(&self) -> bool {
        self.has_packet_handler
    }

    /// No node is filed with an empty list of connections.
    pub open spec fn wf(&self) -> bool {
        forall|n: u128| #[trigger] self.connections().contains_key(n) ==> self.connections()[n].len() > 0
    }

    /// An empty pool, not shutting down, without a packet handler.
    pub fn new() -> (r: Self)
        ensures
            r.wf(),
            r.connections() == Map::<u128, Seq<u128>>::empty(),
            !r.is_shutting_down(),
            !r.has_handler(),
    {
        PoolState { connections: multimap_new(), shutting_down: false, has_packet_handler: false }
    }

    /// Records that the pool has a handler for incoming channels.
    pub fn set_packet_handler(&mut self)
        ensures
            final(self).connections() == old(self).connections(),
            final(self).is_shutting_down() == old(self).is_shutting_down(),
            final(self).has_handler(),
    {
        self.has_packet_handler = true;
    }

    /// The connections that lead to `node`, oldest first.
    pub fn connections_of(&self, node: u128) -> (r: Vec<u128>)
        ensures
            r@ == (if self.connections().contains_key(node) {
                self.connections()[node]
            } else {
                Seq::<u128>::empty()
            }),
    {
        match multimap_get_vec(&self.connections, node) {
            Some(vs) => vs,
            None => Vec::new(),
        }
    }

    /// The connection a new channel to `node` uses: of the node's
    /// connections, the first with the fewest channels (`loads` gives the
    /// channel count of each, in order). None when the node has none.
    pub fn pick_connection(&self, node: u128, loads: &[usize]) -> (r: Option<u128>)
        requires
            loads@.len() == (if self.connections().contains_key(node) {
                self.connections()[node].len()
            } else {
                0
            }),
        ensures
            match r {
                None => !self.connections().contains_key(node) || self.connections()[node].len()
                    == 0,
                Some(c) => exists|i: int|
                    is_first_least(loads@, i) && self.connections()[node][i] == c,
            },
    {
        let conns = self.connections_of(node);
        match least_loaded(loads) {
            None => None,
            Some(i) => Some(conns[i]),
        }
    }

    /// Checks that a new outgoing connection may be made: the pool needs a
    /// packet handler and must not be shutting down.
    pub fn check_connect(&self) -> (r: MDSFTPResult<()>)
        ensures
            !self.has_handler() ==> r == Err::<(), MDSFTPError>(MDSFTPError::NoPacketHandler),
            self.has_handler() && self.is_shutting_down() ==> r == Err::<(), MDSFTPError>(
                MDSFTPError::ShuttingDown,
            ),
            self.has_handler() && !self.is_shutting_down() ==> r is Ok,
    {
        if !self.has_packet_handler {
            return Err(MDSFTPError::NoPacketHandler);
        }
        if self.shutting_down {
            return Err(MDSFTPError::ShuttingDown);
        }
        Ok(())
    }

    /// Checks that an incoming connection may be accepted: the pool must
    /// not be shutting down and needs a packet handler.
    pub fn check_accept(&self) -> (r: MDSFTPResult<()>)
        ensures
            self.is_shutting_down() ==> r == Err::<(), MDSFTPError>(MDSFTPError::ShuttingDown),
            !self.is_shutting_down() && !self.has_handler() ==> r == Err::<(), MDSFTPError>(
                MDSFTPError::NoPacketHandler,
            ),
            !self.is_shutting_down() && self.has_handler() ==> r is Ok,
    {
        if self.shutting_down {
            return Err(MDSFTPError::ShuttingDown);
        }
        if !self.has_packet_handler {
            return Err(MDSFTPError::NoPacketHandler);
        }
        Ok(())
    }

    /// Files a connection under the node it leads to, after the node's
    /// other connections.
    pub fn add_connection(&mut self, node: u128, conn: u128)
        requires
            old(self).wf(),
        ensures
            final(self).wf(),
            final(self).connections() == old(self).connections().insert(
                node,
                if old(self).connections().contains_key(node) {
                    old(self).connections()[node].push(conn)
                } else {
                    seq![conn]
                },
            ),
            final(self).is_shutting_down() == old(self).is_shutting_down(),
            final(self).has_handler() == old(self).has_handler(),
    {
        multimap_insert(&mut self.connections, node, conn);
        proof {
            assert forall|n: u128| #[trigger] self.connections().contains_key(n) implies self.connections()[n].len() > 0 by {
                if n != node {
                    assert(old(self).connections().contains_key(n));
                }
            }
        }
    }

    /// The connections to check for staleness: the first connection of
    /// each node, each node once.
    pub fn sweep_candidates(&self) -> (r: Vec<(u128, u128)>)
        requires
            self.wf(),
        ensures
            r@.len() == self.connections().dom().len(),
            forall|i: int|
                0 <= i < r@.len() ==> {
                    let (n, c) = #[trigger] r@[i];
                    &&& self.connections().contains_key(n)
                    &&& c == self.connections()[n][0]
                },
            forall|n: u128|
                self.connections().contains_key(n) ==> exists|i: int|
                    0 <= i < r@.len() && (#[trigger] r@[i]).0 == n,
            forall|i: int, j: int| 0 <= i < j < r@.len() ==> r@[i].0 != r@[j].0,
    {
        let keys = multimap_keys(&self.connections);
        proof {
            keys@.unique_seq_to_set();
        }
        let mut out: Vec<(u128, u128)> = Vec::new();
        let mut i: usize = 0;
        while i < keys.len()
            invariant
                self.wf(),
                i <= keys@.len(),
                keys@.to_set() == self.connections().dom(),
                keys@.no_duplicates(),
                out@.len() == i,
                forall|j: int| 0 <= j < i ==> (#[trigger] out@[j]).0 == keys@[j],
                forall|j: int|
                    0 <= j < i ==> {
                        let (n, c) = #[trigger] out@[j];
                        &&& self.connections().contains_key(n)
                        &&& c == self.connections()[n][0]
                    },
            decreases keys@.len() - i,
        {
            let n = keys[i];
            assert(keys@.to_set().contains(n));
            let conns = self.connections_of(n);
            out.push((n, conns[0]));
            i = i + 1;
        }
        assert forall|n: u128| self.connections().contains_key(n) implies exists|i: int|
            0 <= i < out@.len() && (#[trigger] out@[i]).0 == n by {
            assert(keys@.to_set().contains(n));
            let k = choose|k: int| 0 <= k < keys@.len() && keys@[k] == n;
            assert(out@[k].0 == n);
        }
        out
    }

    /// Forgets the swept connections: each `(node, connection)` pair is
    /// dropped from the node's list, and a node left with no connection is
    /// dropped too.
    pub fn remove_connections(&mut self, swept: &[(u128, u128)])
        requires
            old(self).wf(),
        ensures
            final(self).wf(),
            final(self).is_shutting_down() == old(self).is_shutting_down(),
            final(self).has_handler() == old(self).has_handler(),
            forall|n: u128|
                {
                    let kept = kept_after(old(self).connections(), swept@, swept@.len() as int, n);
                    &&& (#[trigger] final(self).connections().contains_key(n)) == (kept.len() > 0)
                    &&& kept.len() > 0 ==> final(self).connections()[n] == kept
                },
    {
        let mut i: usize = 0;
        proof {
            lemma_sweep_start(old(self).connections(), swept@);
        }
        while i < swept.len()
            invariant
                self.wf(),
                i <= swept@.len(),
                self.is_shutting_down() == old(self).is_shutting_down(),
                self.has_handler() == old(self).has_handler(),
                swept_state(old(self).connections(), swept@, i as int, self.connections()),
            decreases swept@.len() - i,
        {
            let (node, conn) = swept[i];
            let ghost before = self.connections();
            match multimap_remove(&mut self.connections, node) {
                None => {},
                Some(vs) => {
                    let mut kept: Vec<u128> = Vec::new();
                    let mut j: usize = 0;
                    while j < vs.len()
                        invariant
                            j <= vs@.len(),
                            kept@ == vs@.subrange(0, j as int).filter(other_than(conn)),
                        decreases vs@.len() - j,
                    {
                        let c = vs[j];
                        proof {
                            reveal_with_fuel(Seq::filter, 1);
                            assert(vs@.subrange(0, j + 1).drop_last() =~= vs@.subrange(
                                0,
                                j as int,
                            ));
                        }
                        if c != conn {
                            kept.push(c);
                        }
                        j = j + 1;
                    }
                    assert(vs@.subrange(0, vs@.len() as int) =~= vs@);
                    if kept.len() > 0 {
                        multimap_insert_many(&mut self.connections, node, kept);
                    }
                },
            }
            proof {
                assert(self.connections() =~= sweep_one(before, node, conn));
                assert(swept@[i as int] == (node, conn));
                lemma_sweep_state_step(old(self).connections(), swept@, i as int, before);
                assert forall|n: u128| #[trigger] self.connections().contains_key(n) implies self.connections()[n].len() > 0 by {
                    assert(swept_state(old(self).connections(), swept@, i + 1, self.connections()));
                    assert(kept_after(old(self).connections(), swept@, i + 1, n).len() > 0);
                }
            }
            i = i + 1;
        }
        proof {
            assert(swept@.subrange(0, swept@.len() as int) =~= swept@);
        }
    }

    /// Shuts the pool down: it accepts and makes no more connections, and
    /// forgets the ones it had (each must then be closed).
    pub fn close(&mut self)
        ensures
            final(self).wf(),
            final(self).connections() == Map::<u128, Seq<u128>>::empty(),
            final(self).is_shutting_down(),
            final(self).has_handler() == old(self).has_handler(),
    {
        self.shutting_down = true;
        multimap_clear(&mut self.connections);
    }
}

} // verus!
