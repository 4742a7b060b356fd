//! Joining the cluster: connecting to every peer before a node becomes a follower.

use vstd::prelude::*;

use crate::database::{peer_texts, PeerArgs};
use crate::messages::PingInput;
use crate::raft::error::SetupError;
use crate::raft::node::RaftImpl;
use crate::raft::state::{RaftNodeType, RaftStableData};
use crate::text::{decimal, decimal_text, texts};

verus! {

/// How often a node tries to connect to a peer.
pub const CONNECT_ATTEMPTS: u32 = 10;

/// The milliseconds that a node waits before it connects to its peers, and behind each
/// failed attempt.
pub const CONNECT_PAUSE: u64 = 5000;

/// How far a node has got with connecting to its peers: they are tried one behind the other.
#[derive(Debug)]
pub struct Connecting {
    /// The peers to connect to.
    pub peers: Vec<PeerArgs>,
    /// The peer that is tried now.
    pub next: usize,
    /// How often it was tried without success.
    pub attempt: u32,
    /// The peers that were given up.
    pub error_vec: Vec<String>,
}

/// What matters of [`Connecting`].
pub struct ConnectingView {
    pub peers: Seq<Seq<char>>,
    pub next: int,
    pub attempt: int,
    pub failed: Seq<Seq<char>>,
}

impl View for Connecting {
    type V = ConnectingView;

    open spec fn view(&self) -> ConnectingView {
        ConnectingView {
            peers: peer_texts(self.peers@),
            next: self.next as int,
            attempt: self.attempt as int,
            failed: texts(self.error_vec@),
        }
    }
}

impl ConnectingView {
    /// There is a peer to try, and it is not given up yet, or there is none.
    pub open spec fn wf(self) -> bool {
        0 <= self.next <= self.peers.len() && 0 <= self.attempt < CONNECT_ATTEMPTS
    }

    /// Whether every peer is connected or given up.
    pub open spec fn done(self) -> bool {
        self.next >= self.peers.len()
    }

    /// The start, with no peer tried.
    pub open spec fn start(peers: Seq<Seq<char>>) -> ConnectingView {
        ConnectingView { peers, next: 0, attempt: 0, failed: seq![] }
    }

    /// How far the node is after one more attempt.
    pub open spec fn after(self, connected: bool) -> ConnectingView {
        if connected {
            ConnectingView { next: self.next + 1, attempt: 0, ..self }
        } else if self.attempt + 1 < CONNECT_ATTEMPTS {
            ConnectingView { attempt: self.attempt + 1, ..self }
        } else {
            ConnectingView {
                next: self.next + 1,
                attempt: 0,
                failed: self.failed.push(self.peers[self.next]),
                ..self
            }
        }
    }

    /// How far the node is after a number of attempts.
    pub open spec fn after_all(self, attempts: Seq<bool>) -> ConnectingView
        decreases attempts.len(),
    {
        if attempts.len() == 0 {
            self
        } else {
            self.after_all(attempts.drop_last()).after(attempts.last())
        }
    }
}

/// The message with which a node greets a peer that it has connected to.
pub fn ping_input(port: u16) -> (input: PingInput)
    ensures
        input.requester@ == decimal_text(port as nat),
{
    PingInput { requester: decimal(port as u64) }
}

impl<C> RaftImpl<C> {
    /// Starts to connect to the peers.
    pub fn connect_to_peers(peers: Vec<PeerArgs>) -> (connecting: Connecting)
        ensures
            connecting@ == ConnectingView::start(peer_texts(peers@)),
            connecting@.wf(),
    {
        let connecting = Connecting { peers, next: 0, attempt: 0, error_vec: Vec::new() };
        assert(texts(connecting.error_vec@) =~= seq![]);
        connecting
    }
}

impl Connecting {
    /// The address of the peer to try, if there is one left.
    pub fn target(&self) -> (addr: Option<String>)
        ensures
            match addr {
                Some(addr) => !self@.done() && addr@ == self@.peers[self@.next],
                None => self@.done(),
            },
    {
        if self.next < self.peers.len() {
            Some(self.peers[self.next].addr.clone())
        } else {
            None
        }
    }

    /// Takes the outcome of an attempt. Where it failed, the node has to wait.
    pub fn attempted(&mut self, connected: bool) -> (pause: Option<u64>)
        requires
            old(self)@.wf(),
            !old(self)@.done(),
        ensures
            final(self)@ == old(self)@.after(connected),
            final(self)@.wf(),
            pause == if connected {
                None
            } else {
                Some(CONNECT_PAUSE)
            },
            connected <==> pause is None,
            pause matches Some(millis) ==> millis == 5000,
    {
        assert(self.next < self.peers.len());
        if connected {
            self.next = self.next + 1;
            self.attempt = 0;
            return None;
        }
        self.attempt = self.attempt + 1;
        if self.attempt == CONNECT_ATTEMPTS {
            self.error_vec.push(self.peers[self.next].addr.clone());
            assert(texts(self.error_vec@) =~= texts(old(self).error_vec@).push(
                self@.peers[self@.next],
            ));
            self.next = self.next + 1;
            self.attempt = 0;
        }
        Some(CONNECT_PAUSE)
    }

    /// Ends the setup: a node that reached all its peers becomes a follower.
    ///
    /// `Err`: the addresses of the peers that were given up.
    pub fn finish(self, raft_stable_data: &mut RaftStableData) -> (result: Result<(), SetupError>)
        requires
            self@.done(),
        ensures
            match result {
                Ok(()) => {
                    &&& self@.failed.len() == 0
                    &&& *final(raft_stable_data) == (RaftStableData {
                        node_type: RaftNodeType::Follower(false),
                        ..*old(raft_stable_data)
                    })
                },
                Err(SetupError::FailedToConnectToPeers(failed)) => {
                    &&& self@.failed.len() > 0
                    &&& texts(failed@) == self@.failed
                    &&& *final(raft_stable_data) == *old(raft_stable_data)
                },
            },
    {
        if self.error_vec.len() > 0 {
            Err(SetupError::FailedToConnectToPeers(self.error_vec))
        } else {
            raft_stable_data.node_type = RaftNodeType::Follower(false);
            Ok(())
        }
    }
}

/// The attempts on one peer: `failures` that fail and, where it is not given up, one that
/// succeeds.
pub open spec fn attempts_on(failures: int) -> Seq<bool> {
    let failed = Seq::new(failures as nat, |i: int| false);
    if failures < CONNECT_ATTEMPTS {
        failed.push(true)
    } else {
        failed
    }
}

/// The attempts on the first `n` peers, where each fails as often as `failures` says.
pub open spec fn attempts_on_all(failures: Seq<int>, n: int) -> Seq<bool>
    decreases n,
{
    if n <= 0 {
        seq![]
    } else {
        attempts_on_all(failures, n - 1) + attempts_on(failures[n - 1])
    }
}

/// Those of the first `n` peers on which every attempt fails.
pub open spec fn unreachable(peers: Seq<Seq<char>>, failures: Seq<int>, n: int) -> Seq<Seq<char>>
    decreases n,
{
    if n <= 0 {
        seq![]
    } else if failures[n - 1] >= CONNECT_ATTEMPTS {
        unreachable(peers, failures, n - 1).push(peers[n - 1])
    } else {
        unreachable(peers, failures, n - 1)
    }
}

/// Attempts can be made in two goes.
proof fn lemma_after_all_splits(start: ConnectingView, first: Seq<bool>, second: Seq<bool>)
    ensures
        start.after_all(first + second) == start.after_all(first).after_all(second),
    decreases second.len(),
{
    if second.len() == 0 {
        assert(first + second =~= first);
    } else {
        lemma_after_all_splits(start, first, second.drop_last());
        assert((first + second).drop_last() =~= first + second.drop_last());
    }
}

/// Failed attempts that do not exhaust the patience only add up.
proof fn lemma_failures(start: ConnectingView, failures: int)
    requires
        start.wf(),
        start.attempt == 0,
        0 <= failures < CONNECT_ATTEMPTS,
    ensures
        start.after_all(Seq::new(failures as nat, |i: int| false)) == (ConnectingView {
            attempt: failures,
            ..start
        }),
    decreases failures,
{
    let all = Seq::new(failures as nat, |i: int| false);
    if failures > 0 {
        lemma_failures(start, failures - 1);
        assert(all.drop_last() =~= Seq::new((failures - 1) as nat, |i: int| false));
    }
}

/// What the attempts on one peer lead to.
proof fn lemma_attempts_on(start: ConnectingView, failures: int)
    requires
        start.wf(),
        start.attempt == 0,
        0 <= failures <= CONNECT_ATTEMPTS,
    ensures
        start.after_all(attempts_on(failures)) == (ConnectingView {
            next: start.next + 1,
            failed: if failures == CONNECT_ATTEMPTS {
                start.failed.push(start.peers[start.next])
            } else {
                start.failed
            },
            ..start
        }),
{
    let all = attempts_on(failures);
    if failures < CONNECT_ATTEMPTS {
        lemma_failures(start, failures);
        assert(all.drop_last() =~= Seq::new(failures as nat, |i: int| false));
    } else {
        lemma_failures(start, failures - 1);
        assert(all.drop_last() =~= Seq::new((failures - 1) as nat, |i: int| false));
    }
}

/// A node gives up exactly the peers on which every attempt fails, in the order in which they
/// were given, whatever happens with the others.
pub proof fn law_gives_up_the_unreachable(peers: Seq<Seq<char>>, failures: Seq<int>)
    requires
        failures.len() == peers.len(),
        forall|i: int| 0 <= i < failures.len() ==> 0 <= #[trigger] failures[i] <= CONNECT_ATTEMPTS,
    ensures
        ({
            let end = ConnectingView::start(peers).after_all(
                attempts_on_all(failures, peers.len() as int),
            );
            end.done() && end.failed == unreachable(peers, failures, peers.len() as int)
        }),
{
    lemma_gives_up(peers, failures, peers.len() as int);
}

/// The first `n` peers of [`law_gives_up_the_unreachable`].
proof fn lemma_gives_up(peers: Seq<Seq<char>>, failures: Seq<int>, n: int)
    requires
        failures.len() == peers.len(),
        0 <= n <= peers.len(),
        forall|i: int| 0 <= i < failures.len() ==> 0 <= #[trigger] failures[i] <= CONNECT_ATTEMPTS,
    ensures
        ConnectingView::start(peers).after_all(attempts_on_all(failures, n)) == (ConnectingView {
            peers,
            next: n,
            attempt: 0,
            failed: unreachable(peers, failures, n),
        }),
    decreases n,
{
    if n > 0 {
        lemma_gives_up(peers, failures, n - 1);
        let start = ConnectingView::start(peers);
        lemma_after_all_splits(
            start,
            attempts_on_all(failures, n - 1),
            attempts_on(failures[n - 1]),
        );
        lemma_attempts_on(
            start.after_all(attempts_on_all(failures, n - 1)),
            failures[n - 1],
        );
    }
}

/// Before the first attempt no peer was tried and none given up.
pub proof fn law_connecting_starts_with_the_first(peers: Seq<Seq<char>>)
    ensures
        ConnectingView::start(peers).peers == peers,
        ConnectingView::start(peers).next == 0,
        ConnectingView::start(peers).attempt == 0,
        ConnectingView::start(peers).failed.len() == 0,
        ConnectingView::start(peers).done() <==> peers.len() == 0,
{
}

/// A peer that answers is left for the next one, and nobody is given up.
pub proof fn law_connected_peers_are_done(connecting: ConnectingView)
    ensures
        connecting.after(true).next == connecting.next + 1,
        connecting.after(true).attempt == 0,
        connecting.after(true).failed == connecting.failed,
        connecting.after(true).peers == connecting.peers,
{
}

/// A peer that does not answer is tried again until the tenth attempt on it has failed. It is given up
/// with that one, and the next peer gets ten attempts of its own.
pub proof fn law_peers_get_ten_attempts(connecting: ConnectingView)
    requires
        connecting.wf(),
        !connecting.done(),
    ensures
        0 <= connecting.attempt < 10,
        connecting.attempt < 9 ==> {
            &&& connecting.after(false).next == connecting.next
            &&& connecting.after(false).attempt == connecting.attempt + 1
            &&& connecting.after(false).failed == connecting.failed
        },
        connecting.attempt == 9 ==> {
            &&& connecting.after(false).next == connecting.next + 1
            &&& connecting.after(false).attempt == 0
            &&& connecting.after(false).failed == connecting.failed.push(
                connecting.peers[connecting.next],
            )
        },
        connecting.after(false).peers == connecting.peers,
{
}

/// Every peer is tried: as long as one is left that was neither connected nor given up, the node is
/// not done.
pub proof fn law_nobody_is_left_out(connecting: ConnectingView)
    requires
        connecting.wf(),
    ensures
        connecting.done() <==> connecting.next == connecting.peers.len(),
{
}

/// What matters of a node that connects is what it holds.
pub proof fn law_connecting_is_seen_as_it_is(connecting: Connecting)
    ensures
        connecting@.peers == connecting.peers@.map_values(|peer: PeerArgs| peer.addr@),
        connecting@.next == connecting.next,
        connecting@.attempt == connecting.attempt,
        connecting@.failed == connecting.error_vec@.map_values(|addr: String| addr@),
{
}

/// The peers that are given up are those on which ten attempts fail, in the order of the peers.
pub proof fn law_given_up_are_those_that_never_answer(peers: Seq<Seq<char>>, failures: Seq<int>)
    requires
        failures.len() == peers.len(),
        forall|i: int| 0 <= i < failures.len() ==> 0 <= #[trigger] failures[i] <= 10,
    ensures
        ConnectingView::start(peers).after_all(
            attempts_on_all(failures, peers.len() as int),
        ).failed == Seq::new(peers.len(), |i: int| i).filter(
            |i: int| failures[i] == 10,
        ).map_values(|i: int| peers[i]),
{
    law_gives_up_the_unreachable(peers, failures);
    lemma_unreachable_in_order(peers, failures, peers.len() as int);
}

/// The first `n` peers of [`law_given_up_are_those_that_never_answer`].
proof fn lemma_unreachable_in_order(peers: Seq<Seq<char>>, failures: Seq<int>, n: int)
    requires
        failures.len() == peers.len(),
        0 <= n <= peers.len(),
        forall|i: int| 0 <= i < failures.len() ==> 0 <= #[trigger] failures[i] <= 10,
    ensures
        unreachable(peers, failures, n) == Seq::new(n as nat, |i: int| i).filter(
            |i: int| failures[i] == 10,
        ).map_values(|i: int| peers[i]),
    decreases n,
{
    reveal(Seq::filter);
    let all = Seq::new(n as nat, |i: int| i);
    let silent = |i: int| failures[i] == 10;
    let addr = |i: int| peers[i];
    if n > 0 {
        lemma_unreachable_in_order(peers, failures, n - 1);
        let before = Seq::new((n - 1) as nat, |i: int| i);
        assert(all.drop_last() =~= before);
        assert(before.filter(silent).push(n - 1).map_values(addr) =~= before.filter(
            silent,
        ).map_values(addr).push(peers[n - 1]));
    }
    assert(unreachable(peers, failures, n) =~= all.filter(silent).map_values(addr));
}

} // verus!
