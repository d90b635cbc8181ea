//! The participants of a transaction taken together: whatever happens, and in whatever order, no
//! two of them decide it differently.
use super::laws::{self, Event};
use super::xact_state_manager::{ActionView, ManagerView, Phase};
use crate::decoder;
use crate::id::{NodeId, XactId};
use crate::pg::xact_controller::{self, PgStepView};
use crate::vote::{ReasonView, VoteView};
use crate::xact::state::{self, StateView};
use crate::xact::{self, StatusView, XactView};
use vstd::prelude::*;

verus! {

/// One transaction on all nodes.
#[verifier::ext_equal]
pub struct Cluster<C> {
    pub xact_id: XactId,
    /// The node whose database the transaction comes from.
    pub coordinator: NodeId,
    /// The encoded read/write set of the transaction.
    pub data: Seq<u8>,
    pub nodes: Map<NodeId, ManagerView<C>>,
    /// The votes that nodes sent to the others.
    pub cast: Map<NodeId, Option<ReasonView>>,
}

/// The numbers of the nodes that take part in the transaction.
pub open spec fn participants(data: Seq<u8>) -> Set<usize> {
    match decoder::decoded(data) {
        Ok(rwset) => rwset.header.participants,
        Err(_) => Set::empty(),
    }
}

/// Whether a node sent its vote for the transaction.
pub open spec fn said_yes(cast: Map<NodeId, Option<ReasonView>>, node: NodeId) -> bool {
    cast.contains_key(node) && cast[node] is None
}

/// Whether a node sent its vote against the transaction.
pub open spec fn said_no(cast: Map<NodeId, Option<ReasonView>>, node: NodeId) -> bool {
    cast.contains_key(node) && cast[node] is Some
}

/// Whether a vote that comes to a node was sent by the node that it names.
pub open spec fn genuine_vote(
    cast: Map<NodeId, Option<ReasonView>>,
    node: NodeId,
    vote: VoteView,
) -> bool {
    vote.from != node && cast.contains_key(vote.from) && cast[vote.from] == vote.rollback_reason
}

/// Whether all of a list of votes that came to a node were sent by the nodes that they name.
pub open spec fn genuine_votes(
    cast: Map<NodeId, Option<ReasonView>>,
    node: NodeId,
    votes: Seq<VoteView>,
) -> bool {
    forall|i: int| 0 <= i < votes.len() ==> genuine_vote(cast, node, #[trigger] votes[i])
}

/// Whether what happens to a node comes from where it must: the transaction from the database of
/// the coordinator or from the coordinator itself, and votes from those who cast them.
pub open spec fn genuine<C>(s: Cluster<C>, node: NodeId, event: Event<C>) -> bool {
    match event {
        Event::LocalXact(data, _) => node == s.coordinator && data == s.data,
        Event::Prepare(from, data) => {
            &&& node != s.coordinator
            &&& NodeId(from) == s.coordinator
            &&& data == s.data
        },
        Event::Vote(vote) => genuine_vote(s.cast, node, vote),
        _ => true,
    }
}

/// Whether something can happen to a node.
pub open spec fn can_happen<C>(s: Cluster<C>, node: NodeId, event: Event<C>) -> bool {
    &&& s.nodes.contains_key(node)
    &&& laws::possible(s.nodes[node], event)
    &&& genuine(s, node, event)
}

/// The cluster after something happened to a node. What a node sends as its vote is cast.
pub open spec fn after_event<C>(s: Cluster<C>, node: NodeId, event: Event<C>) -> Cluster<C> {
    let (next, action) = laws::step(s.nodes[node], event);
    Cluster {
        nodes: s.nodes.insert(node, next),
        cast: match action {
            ActionView::Vote { message, .. } => s.cast.insert(node, message.rollback_reason),
            _ => s.cast,
        },
        ..s
    }
}

/// Whether a series of events can happen, one after the other.
pub open spec fn can_all_happen<C>(s: Cluster<C>, events: Seq<(NodeId, Event<C>)>) -> bool
    decreases events.len(),
{
    events.len() > 0 ==> {
        &&& can_all_happen(s, events.drop_last())
        &&& can_happen(after_events(s, events.drop_last()), events.last().0, events.last().1)
    }
}

/// The cluster after a series of events.
pub open spec fn after_events<C>(s: Cluster<C>, events: Seq<(NodeId, Event<C>)>) -> Cluster<C>
    decreases events.len(),
{
    if events.len() == 0 {
        s
    } else {
        after_event(after_events(s, events.drop_last()), events.last().0, events.last().1)
    }
}

/// Whether nothing has happened yet.
pub open spec fn is_fresh<C>(s: Cluster<C>) -> bool {
    &&& s.cast == Map::<NodeId, Option<ReasonView>>::empty()
    &&& forall|n: NodeId| #[trigger]
        s.nodes.contains_key(n) ==> state::indexable(n) && s.nodes[n] == (ManagerView {
            xact_id: s.xact_id,
            node_id: n,
            coordinator_id: None,
            xact: XactView::<C>::Unknown(Seq::empty()),
            measuring: false,
            phase: Phase::Idle,
        })
}

/// Whether a transaction is rolled back on account of a node.
pub open spec fn rolled_back_by(status: StatusView, node: NodeId) -> bool {
    match status {
        StatusView::Rollbacking(info) => info.by == node,
        StatusView::Rollbacked(info) => info.by == node,
        _ => false,
    }
}

/// The node on whose account a transaction is rolled back.
pub open spec fn culprit(status: StatusView) -> NodeId {
    match status {
        StatusView::Rollbacking(info) => info.by,
        StatusView::Rollbacked(info) => info.by,
        _ => arbitrary(),
    }
}

/// Whether what a node counts rests on what was cast, on its own vote, and on that of the
/// coordinator, which is for the transaction.
spec fn justified(
    cast: Map<NodeId, Option<ReasonView>>,
    coordinator: NodeId,
    s: StateView,
) -> bool {
    &&& forall|q: NodeId|
        s.voted.contains(#[trigger] state::index_of(q)) ==> q == coordinator || q == s.node_id
            || said_yes(cast, q)
    &&& s.status.rolls_back() ==> rolled_back_by(s.status, s.node_id) || said_no(
        cast,
        culprit(s.status),
    )
    &&& s.voted.contains(state::index_of(s.node_id)) ==> !rolled_back_by(s.status, s.node_id)
    &&& xact::laws::consistent(s)
}

/// What is invariant of one node.
spec fn node_inv<C>(s: Cluster<C>, n: NodeId) -> bool {
    let m = s.nodes[n];
    let own = state::index_of(n);
    &&& m.wf()
    &&& m.node_id == n
    &&& m.xact_id == s.xact_id
    &&& s.cast.contains_key(n) ==> m.xact is Surrogate && m.phase != Phase::Executing
    &&& match m.xact {
        XactView::Unknown(votes) => genuine_votes(s.cast, n, votes),
        XactView::Local { state, .. } => {
            &&& n == s.coordinator
            &&& state.participants == participants(s.data)
            &&& justified(s.cast, s.coordinator, state)
            &&& state.voted.contains(own)
        },
        XactView::Surrogate { state, .. } => {
            &&& n != s.coordinator
            &&& state.participants == participants(s.data)
            &&& state.participants.contains(own)
            &&& justified(s.cast, s.coordinator, state)
            &&& genuine_votes(s.cast, n, state.pending)
            &&& m.phase == Phase::Executing ==> !state.voted.contains(own)
                && !state.status.rolls_back()
            &&& said_yes(s.cast, n) ==> state.voted.contains(own)
            &&& said_no(s.cast, n) ==> state.status.rolls_back()
        },
    }
}

/// What is invariant of all nodes together.
spec fn inv<C>(s: Cluster<C>) -> bool {
    &&& forall|n: NodeId| #[trigger] s.nodes.contains_key(n) ==> node_inv(s, n)
    &&& forall|n: NodeId| #[trigger] s.cast.contains_key(n) ==> s.nodes.contains_key(n)
}

/// A vote that was cast keeps what a node counts justified.
proof fn lemma_vote_justified(
    cast: Map<NodeId, Option<ReasonView>>,
    coordinator: NodeId,
    s: StateView,
    vote: VoteView,
)
    requires
        justified(cast, coordinator, s),
        genuine_vote(cast, s.node_id, vote),
    ensures
        justified(cast, coordinator, state::after_vote(s, vote)),
{
    let t = state::after_vote(s, vote);
    assert forall|q: NodeId| t.voted.contains(#[trigger] state::index_of(q)) implies q
        == coordinator || q == t.node_id || said_yes(cast, q) by {
        if !s.voted.contains(state::index_of(q)) {
            assert(state::index_of(q) == state::index_of(vote.from));
            assert(q == vote.from);
        }
    }
}

/// Votes that were cast keep what a node counts justified, and no vote is taken back.
proof fn lemma_votes_justified(
    cast: Map<NodeId, Option<ReasonView>>,
    coordinator: NodeId,
    s: StateView,
    votes: Seq<VoteView>,
)
    requires
        justified(cast, coordinator, s),
        genuine_votes(cast, s.node_id, votes),
    ensures
        justified(cast, coordinator, state::after_votes(s, votes)),
        s.voted.subset_of(state::after_votes(s, votes).voted),
        s.status.rolls_back() ==> state::after_votes(s, votes) == s,
    decreases votes.len(),
{
    if votes.len() > 0 && state::takes_votes(s.status) {
        assert(genuine_vote(cast, s.node_id, votes[0]));
        lemma_vote_justified(cast, coordinator, s, votes[0]);
        assert forall|i: int| 0 <= i < votes.drop_first().len() implies genuine_vote(
            cast,
            s.node_id,
            #[trigger] votes.drop_first()[i],
        ) by {
            assert(votes.drop_first()[i] == votes[i + 1]);
        }
        lemma_votes_justified(
            cast,
            coordinator,
            state::after_vote(s, votes[0]),
            votes.drop_first(),
        );
    }
}

/// The own vote of a node, and after it votes that were cast, keep what it counts justified.
proof fn lemma_own_vote_justified(
    cast: Map<NodeId, Option<ReasonView>>,
    coordinator: NodeId,
    s: StateView,
    reason: Option<ReasonView>,
    votes: Seq<VoteView>,
)
    requires
        justified(cast, coordinator, s),
        genuine_votes(cast, s.node_id, votes),
        !s.voted.contains(state::index_of(s.node_id)),
        !s.status.rolls_back(),
    ensures
        justified(cast, coordinator, state::after_votes(s, state::own_and(s, reason, votes))),
        state::takes_votes(s.status) && s.status is Waiting && reason is None ==> state::after_votes(
            s,
            state::own_and(s, reason, votes),
        ).voted.contains(state::index_of(s.node_id)),
{
    let all = state::own_and(s, reason, votes);
    assert(all.drop_first() == votes);
    if state::takes_votes(s.status) {
        let first = state::after_vote(s, all[0]);
        assert forall|q: NodeId| first.voted.contains(#[trigger] state::index_of(q)) implies q
            == coordinator || q == first.node_id || said_yes(cast, q) by {
            if !s.voted.contains(state::index_of(q)) {
                assert(state::index_of(q) == state::index_of(s.node_id));
                assert(q == s.node_id);
            }
        }
        lemma_votes_justified(cast, coordinator, first, votes);
    }
}

/// A vote that a node casts changes nothing of what the others rely on.
proof fn lemma_cast_grows<C>(s: Cluster<C>, t: Cluster<C>, caster: NodeId, n: NodeId)
    requires
        node_inv(s, n),
        n != caster,
        t.nodes[n] == s.nodes[n],
        t.xact_id == s.xact_id,
        t.coordinator == s.coordinator,
        t.data == s.data,
        t.cast == s.cast || (!s.cast.contains_key(caster) && exists|vote: Option<ReasonView>|
            t.cast == #[trigger] s.cast.insert(caster, vote)),
    ensures
        node_inv(t, n),
{
    match s.nodes[n].xact {
        XactView::Unknown(votes) => {
            lemma_genuine_grows(s, t, caster, n, votes);
        },
        XactView::Local { state, .. } => {
            assert(justified(t.cast, t.coordinator, state));
        },
        XactView::Surrogate { state, .. } => {
            lemma_genuine_grows(s, t, caster, n, state.pending);
            assert(justified(t.cast, t.coordinator, state));
        },
    }
}

proof fn lemma_genuine_grows<C>(
    s: Cluster<C>,
    t: Cluster<C>,
    caster: NodeId,
    n: NodeId,
    votes: Seq<VoteView>,
)
    requires
        genuine_votes(s.cast, n, votes),
        t.cast == s.cast || (!s.cast.contains_key(caster) && exists|vote: Option<ReasonView>|
            t.cast == #[trigger] s.cast.insert(caster, vote)),
    ensures
        genuine_votes(t.cast, n, votes),
{
    assert forall|i: int| 0 <= i < votes.len() implies genuine_vote(
        t.cast,
        n,
        #[trigger] votes[i],
    ) by {
        assert(genuine_vote(s.cast, n, votes[i]));
    }
}

/// The coordinator keeps the invariant when it takes in the transaction.
proof fn lemma_local<C>(s: Cluster<C>, n: NodeId, data: Seq<u8>, commit_tx: C)
    requires
        inv(s),
        can_happen(s, n, Event::LocalXact(data, commit_tx)),
    ensures
        node_inv(after_event(s, n, Event::LocalXact(data, commit_tx)), n),
{
    let event = Event::LocalXact(data, commit_tx);
    let m = s.nodes[n];
    laws::law_wf(m, event);
    if let Ok(rwset) = decoder::decoded(data) {
        let new = state::new_state(XactId(0), n, n, rwset.header.participants);
        let waiting = StateView { status: StatusView::Waiting, ..new };
        let votes = m.xact.early_votes();
        let all = state::own_and(new, None, votes);
        xact::lemma_votes_frame(waiting, all);
        lemma_own_vote_justified(s.cast, s.coordinator, waiting, None, votes);
        assert(all == state::own_and(waiting, None, votes));
    }
}

/// Any other node keeps the invariant when it takes in the transaction.
proof fn lemma_prepare<C>(s: Cluster<C>, n: NodeId, from: u32, data: Seq<u8>)
    requires
        inv(s),
        can_happen(s, n, Event::<C>::Prepare(from, data)),
    ensures
        node_inv(after_event(s, n, Event::<C>::Prepare(from, data)), n),
{
    let event = Event::<C>::Prepare(from, data);
    let m = s.nodes[n];
    laws::law_wf(m, event);
    if let Ok(rwset) = decoder::decoded(data) {
        let new = state::new_state(s.xact_id, n, s.coordinator, rwset.header.participants);
        let waiting = StateView { status: StatusView::Waiting, ..new };
        let begun = state::after_vote(waiting, state::yes(s.coordinator));
        assert forall|q: NodeId| begun.voted.contains(#[trigger] state::index_of(q)) implies q
            == s.coordinator by {
            assert(state::index_of(q) == state::index_of(s.coordinator));
        }
        assert(justified(s.cast, s.coordinator, begun));
        assert(begun.voted.contains(state::index_of(n)) ==> n == s.coordinator);
        let pending = StateView { pending: m.xact.early_votes(), ..begun };
        assert(justified(s.cast, s.coordinator, pending));
    }
}

/// A node keeps the invariant when its database answers.
proof fn lemma_pg<C>(s: Cluster<C>, n: NodeId, reply: Result<bool, ReasonView>)
    requires
        inv(s),
        can_happen(s, n, Event::<C>::PgReplied(reply)),
    ensures
        node_inv(after_event(s, n, Event::<C>::PgReplied(reply)), n),
        after_event(s, n, Event::<C>::PgReplied(reply)).cast == s.cast || !s.cast.contains_key(n),
{
    let event = Event::<C>::PgReplied(reply);
    let m = s.nodes[n];
    let t = after_event(s, n, event);
    laws::law_wf(m, event);
    laws::law_own_vote(m, event);
    laws::law_consistent(m, event);
    if let XactView::Surrogate { state, controller } = m.xact {
        let reason = match xact_controller::next(controller, reply).1 {
            PgStepView::Finished(Some(failure)) => Some(failure.reason),
            _ => None,
        };
        let cleared = StateView { pending: Seq::empty(), ..state };
        let all = state::own_and(state, reason, state.pending);
        xact::lemma_votes_frame(cleared, all);
        if m.phase == Phase::Executing {
            assert(justified(s.cast, s.coordinator, cleared));
            lemma_own_vote_justified(s.cast, s.coordinator, cleared, reason, state.pending);
            assert(all == state::own_and(cleared, reason, state.pending));
            if let XactView::Surrogate { state: next, .. } = t.nodes[n].xact {
                assert(justified(s.cast, s.coordinator, next));
                lemma_own_cast(s.cast, t.cast, s.coordinator, next);
                lemma_genuine_grows(s, t, n, n, next.pending);
            }
        }
    }
}

/// What a node counts is justified whatever it casts itself.
proof fn lemma_own_cast(
    before: Map<NodeId, Option<ReasonView>>,
    after: Map<NodeId, Option<ReasonView>>,
    coordinator: NodeId,
    s: StateView,
)
    requires
        justified(before, coordinator, s),
        !before.contains_key(s.node_id),
        after == before || exists|vote: Option<ReasonView>|
            after == #[trigger] before.insert(s.node_id, vote),
    ensures
        justified(after, coordinator, s),
{
}

/// Whatever happens to a node, all nodes keep the invariant.
proof fn lemma_step<C>(s: Cluster<C>, n: NodeId, event: Event<C>)
    requires
        inv(s),
        can_happen(s, n, event),
    ensures
        inv(after_event(s, n, event)),
{
    let m = s.nodes[n];
    let t = after_event(s, n, event);
    assert(node_inv(s, n));
    laws::law_wf(m, event);
    laws::law_own_vote(m, event);
    match event {
        Event::LocalXact(data, commit_tx) => {
            lemma_local(s, n, data, commit_tx);
        },
        Event::Prepare(from, data) => {
            lemma_prepare::<C>(s, n, from, data);
        },
        Event::Vote(vote) => {
            match m.xact {
                XactView::Unknown(votes) => {
                    assert(genuine_votes(s.cast, n, votes.push(vote)));
                },
                XactView::Local { state, .. } => {
                    lemma_vote_justified(s.cast, s.coordinator, state, vote);
                },
                XactView::Surrogate { state, .. } => {
                    lemma_vote_justified(s.cast, s.coordinator, state, vote);
                },
            }
            assert(node_inv(t, n));
        },
        Event::PgReplied(reply) => {
            lemma_pg::<C>(s, n, reply);
        },
        _ => {
            assert(node_inv(t, n));
        },
    }
    assert forall|other: NodeId| #[trigger] t.nodes.contains_key(other) implies node_inv(
        t,
        other,
    ) by {
        if other != n {
            assert(s.nodes.contains_key(other));
            lemma_cast_grows(s, t, n, other);
        }
    }
}

proof fn lemma_fresh<C>(s: Cluster<C>)
    requires
        is_fresh(s),
    ensures
        inv(s),
{
}

proof fn lemma_reachable<C>(s: Cluster<C>, events: Seq<(NodeId, Event<C>)>)
    requires
        is_fresh(s),
        can_all_happen(s, events),
    ensures
        inv(after_events(s, events)),
        after_events(s, events).nodes.dom() == s.nodes.dom(),
        after_events(s, events).data == s.data,
        after_events(s, events).coordinator == s.coordinator,
    decreases events.len(),
{
    if events.len() == 0 {
        lemma_fresh(s);
    } else {
        lemma_reachable(s, events.drop_last());
        lemma_step(
            after_events(s, events.drop_last()),
            events.last().0,
            events.last().1,
        );
    }
}

/// No two nodes decide a transaction differently: whatever happens to them, and in whatever order,
/// it never comes to pass that one is bound to commit it, or has, and another is bound to roll it
/// back, or has.
pub proof fn law_atomic_commitment<C>(
    s: Cluster<C>,
    events: Seq<(NodeId, Event<C>)>,
    a: NodeId,
    b: NodeId,
)
    requires
        is_fresh(s),
        can_all_happen(s, events),
        s.nodes.contains_key(a),
        s.nodes.contains_key(b),
    ensures
        !(after_events(s, events).nodes[a].xact.status().commits() && after_events(
            s,
            events,
        ).nodes[b].xact.status().rolls_back()),
{
    lemma_reachable(s, events);
    let t = after_events(s, events);
    assert(node_inv(t, a) && node_inv(t, b));
    if t.nodes[a].xact.status().commits() && t.nodes[b].xact.status().rolls_back() {
        let q = culprit(t.nodes[b].xact.status());
        if q != b {
            assert(t.cast.contains_key(q));
            assert(node_inv(t, q));
        }
        assert(participants(t.data).contains(state::index_of(q)));
    }
}

/// A node that is bound to commit a transaction, or has, has the vote of every other participant,
/// cast and for the transaction, but for that of the coordinator, which casts none.
pub proof fn law_commit_needs_every_vote<C>(
    s: Cluster<C>,
    events: Seq<(NodeId, Event<C>)>,
    a: NodeId,
    q: NodeId,
)
    requires
        is_fresh(s),
        can_all_happen(s, events),
        s.nodes.contains_key(a),
        after_events(s, events).nodes[a].xact.status().commits(),
        participants(s.data).contains(state::index_of(q)),
        q != a,
        q != s.coordinator,
    ensures
        said_yes(after_events(s, events).cast, q),
{
    lemma_reachable(s, events);
    let t = after_events(s, events);
    assert(node_inv(t, a));
}

} // verus!
