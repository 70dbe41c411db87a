//! The unbounded list channel and its adaptive dequeue protocol.
//!
//! The queue is a singly linked list of nodes held in an arena; a node's
//! identity is its arena index, and links are indices, so the `USE`/`MULTI`
//! tag bits that the concurrent algorithm packs into the head pointer are
//! held here beside the head index as two flags of the same logical word.
//! The first node is a sentinel whose payload slot is never filled; `head`
//! always names the sentinel or an already consumed node, and the node after
//! it carries the next value owed to a receiver.
//!
//! The arena owns every node's storage, so dropping the channel releases
//! them all; a payload slot that was never filled, or already handed out,
//! is empty and nothing is destroyed twice.

use vstd::prelude::*;

use crate::err::{SendTimeoutError, TryRecvError, TrySendError};
use crate::monitor::{remove_first, CaseId, Monitor};

verus! {

/// One heap cell of the list. `value` is `None` for the sentinel and for
/// nodes whose payload has already been handed to a receiver; `freed` marks
/// storage that has been reclaimed and must never be read again.
struct Node<T> {
    next: Option<usize>,
    value: Option<T>,
    freed: bool,
}

/// What a channel looks like from outside: the histories and flags that the
/// contracts speak of. `sent` and `received` list every value ever appended
/// and every value ever handed out, each in order.
pub ghost struct ChannelState<T> {
    pub sent: Seq<T>,
    pub received: Seq<T>,
    pub pending: Seq<T>,
    pub closed: bool,
    pub multi: bool,
    pub cases: Seq<CaseId>,
}

/// The unbounded channel queue.
pub struct Channel<T> {
    /// Every node ever allocated for this channel; indices are stable.
    arena: Vec<Node<T>>,
    /// Index of the sentinel or of the last consumed node.
    head: usize,
    /// The `USE` tag bit: a receiver is examining the node after `head`.
    /// Set and cleared within one fast-path pop.
    in_use: bool,
    /// The `MULTI` tag bit: receiver contention has been observed at least
    /// once; the queue is permanently on the safe multi-receiver path.
    multi: bool,
    /// Index of the last appended node.
    tail: usize,
    /// Counters of successful appends and removals, wrapping.
    send_count: usize,
    recv_count: usize,
    closed: bool,
    /// Registrations of receivers that are about to park.
    receivers: Monitor,
    /// Nodes unlinked on the safe path, awaiting deferred reclamation.
    deferred: Vec<usize>,
    /// The arena indices of the list, from `head` to `tail` along `next`.
    links: Ghost<Seq<usize>>,
    /// Every value handed to a receiver, in order.
    taken: Ghost<Seq<T>>,
    /// Every value ever appended, in order.
    pushed: Ghost<Seq<T>>,
}

impl<T> View for Channel<T> {
    type V = ChannelState<T>;

    closed spec fn view(&self) -> ChannelState<T> {
        ChannelState {
            sent: self.pushed@,
            received: self.taken@,
            pending: self.pending_values(),
            closed: self.closed,
            multi: self.multi,
            cases: self.receivers@,
        }
    }
}

impl<T> Channel<T> {
    /// The values still awaiting a receiver: the payloads of the nodes after
    /// `head`, in list order.
    closed spec fn pending_values(self) -> Seq<T> {
        Seq::new((self.links@.len() - 1) as nat, |k: int| self.arena@[self.links@[k + 1] as int].value->0)
    }

    /// Well-formedness: the list is acyclic and fully connected from `head`
    /// to `tail`, the sentinel discipline and the counter law hold, and no
    /// linked or deferred node has been reclaimed.
    pub closed spec fn wf(self) -> bool {
        let a = self.arena@;
        let ls = self.links@;
        let d = self.deferred@;
        &&& ls.len() >= 1
        &&& ls.len() <= a.len()
        &&& ls[0] == self.head
        &&& ls.last() == self.tail
        &&& forall|k: int| 0 <= k < ls.len() ==> ls[k] < a.len()
        &&& forall|k: int| 0 <= k < ls.len() ==> !(#[trigger] a[ls[k] as int].freed)
        &&& forall|k: int| 0 <= k < ls.len() - 1 ==> a[#[trigger] ls[k] as int].next == Some(
            ls[k + 1],
        )
        &&& a[ls.last() as int].next is None
        &&& forall|i: int, j: int| 0 <= i < j < ls.len() ==> ls[i] != ls[j]
        &&& a[self.head as int].value is None
        &&& forall|k: int| 1 <= k < ls.len() ==> (#[trigger] a[ls[k] as int].value) is Some
        &&& !self.in_use
        &&& forall|k: int| 0 <= k < d.len() ==> d[k] < a.len()
        &&& forall|k: int| 0 <= k < d.len() ==> !(#[trigger] a[d[k] as int].freed)
        &&& forall|k: int| 0 <= k < d.len() ==> (#[trigger] a[d[k] as int].value) is None
        &&& forall|i: int, j: int| 0 <= i < j < d.len() ==> d[i] != d[j]
        &&& forall|i: int, j: int| 0 <= i < d.len() && 0 <= j < ls.len() ==> d[i] != ls[j]
        &&& d.len() > 0 ==> self.multi
        &&& vstd::wrapping::usize_specs::wrapping_sub(self.send_count, self.recv_count)
            == ls.len() - 1
        &&& self.pushed@ == self.taken@ + self.pending_values()
    }

    /// A new, open channel holding only the sentinel.
    pub fn new() -> (c: Channel<T>)
        ensures
            c.wf(),
            c@.sent == Seq::<T>::empty(),
            c@.received == Seq::<T>::empty(),
            c@.pending == Seq::<T>::empty(),
            !c@.closed,
            !c@.multi,
            c@.cases == Seq::<CaseId>::empty(),
    {
        let mut arena: Vec<Node<T>> = Vec::new();
        arena.push(Node { next: None, value: None, freed: false });
        let ghost initial_links: Seq<usize> = seq![0usize];
        let c = Channel {
            arena,
            head: 0,
            in_use: false,
            multi: false,
            tail: 0,
            send_count: 0,
            recv_count: 0,
            closed: false,
            receivers: Monitor::new(),
            deferred: Vec::new(),
            links: Ghost(initial_links),
            taken: Ghost(Seq::empty()),
            pushed: Ghost(Seq::empty()),
        };
        proof {
            assert(c.pending_values() =~= Seq::<T>::empty());
            assert(c.pushed@ =~= c.taken@ + c.pending_values());
        }
        c
    }

    /// Append: allocate a node holding the value, displace `tail` onto it,
    /// link from the displaced node, and count the send. Always succeeds —
    /// the structure is unbounded — and never blocks a producer.
    pub fn push(&mut self, value: T)
        requires
            old(self).wf(),
        ensures
            final(self).wf(),
            final(self)@.sent == old(self)@.sent.push(value),
            final(self)@.pending == old(self)@.pending.push(value),
            final(self)@.received == old(self)@.received,
            final(self)@.closed == old(self)@.closed,
            final(self)@.multi == old(self)@.multi,
            final(self)@.cases == old(self)@.cases,
    {
        let idx = self.arena.len();
        self.arena.push(Node { next: None, value: Some(value), freed: false });
        // Displace the tail onto the new node, then link from the node that
        // was displaced; the order matters in the concurrent algorithm, since
        // a pop may see more data only once the link is installed.
        let prev = self.tail;
        self.tail = idx;
        self.send_count = self.send_count.wrapping_add(1);
        self.arena[prev].next = Some(idx);
        proof {
            self.links@ = self.links@.push(idx);
            self.pushed@ = self.pushed@.push(value);
        }
        proof {
            let ls = old(self).links@;
            assert(forall|k: int| 0 <= k < ls.len() - 1 ==> self.links@[k] != prev as int);
            assert(self.pending_values() =~= old(self).pending_values().push(value));
            assert(self.pushed@ =~= self.taken@ + self.pending_values());
        }
    }

    /// A receiver that found the `USE` bit already set has observed a
    /// concurrent receiver mid-pop: the queue escalates to the safe
    /// multi-receiver path, permanently — the `MULTI` bit is never cleared.
    pub fn on_contention(&mut self)
        requires
            old(self).wf(),
        ensures
            final(self).wf(),
            final(self)@.multi,
            final(self)@.sent == old(self)@.sent,
            final(self)@.received == old(self)@.received,
            final(self)@.pending == old(self)@.pending,
            final(self)@.closed == old(self)@.closed,
            final(self)@.cases == old(self)@.cases,
    {
        self.multi = true;
        proof {
            assert(self.pending_values() =~= old(self).pending_values());
        }
    }

    /// The adaptive pop. On the exclusive fast path (while `MULTI` is
    /// unset) the old head is reclaimed at once, which is safe because the
    /// `USE` bit makes this receiver the only thread that could still hold
    /// it; on the safe path the old head is only scheduled for deferred
    /// reclamation. Returns the oldest pending value, or `None` when the
    /// queue is empty. The mode is never changed by a pop.
    pub fn pop(&mut self) -> (popped: Option<T>)
        requires
            old(self).wf(),
        ensures
            final(self).wf(),
            old(self)@.pending.len() == 0 ==> popped is None
                && final(self)@.pending == old(self)@.pending
                && final(self)@.received == old(self)@.received,
            old(self)@.pending.len() > 0 ==> popped == Some(old(self)@.pending[0])
                && final(self)@.pending == old(self)@.pending.drop_first()
                && final(self)@.received == old(self)@.received.push(old(self)@.pending[0]),
            final(self)@.sent == old(self)@.sent,
            final(self)@.closed == old(self)@.closed,
            final(self)@.multi == old(self)@.multi,
            final(self)@.cases == old(self)@.cases,
            // the displaced node's fate: nothing moves on an empty pop;
            old(self)@.pending.len() == 0
                ==> final(self).linked_nodes() == old(self).linked_nodes()
                && final(self).deferred_nodes() == old(self).deferred_nodes()
                && (forall|i: usize|
                    #[trigger] final(self).node_freed(i) == old(self).node_freed(i)),
            // a successful pop unlinks exactly the old head,
            old(self)@.pending.len() > 0
                ==> final(self).linked_nodes() == old(self).linked_nodes().drop_first(),
            // which the fast path reclaims at once, freeing that node alone,
            old(self)@.pending.len() > 0 && !old(self)@.multi
                ==> final(self).node_freed(old(self).linked_nodes()[0])
                && final(self).deferred_nodes() == old(self).deferred_nodes()
                && (forall|i: usize|
                    i != old(self).linked_nodes()[0]
                        ==> #[trigger] final(self).node_freed(i) == old(self).node_freed(i)),
            // and the safe path only defers, freeing nothing
            old(self)@.pending.len() > 0 && old(self)@.multi
                ==> final(self).deferred_nodes() == old(self).deferred_nodes().push(
                old(self).linked_nodes()[0])
                && (forall|i: usize|
                    #[trigger] final(self).node_freed(i) == old(self).node_freed(i)),
    {
        if !self.multi {
            // Exclusive fast path: claim the USE bit, so that this receiver
            // alone examines the node after head.
            self.in_use = true;
            let h = self.head;
            let next_link = self.arena[h].next;
            match next_link {
                None => {
                    // Nothing after head: release USE and report empty. The
                    // concurrent algorithm re-checks that the tail still
                    // equals head before declaring empty; under exclusive
                    // access no producer can be mid-append, so the re-check
                    // always passes here.
                    self.in_use = false;
                    proof {
                        if self.links@.len() >= 2 {
                            assert(self.arena@[self.links@[0] as int].next == Some(
                                self.links@[1],
                            ));
                        }
                        assert(old(self).pending_values().len() == 0);
                    }
                    None
                },
                Some(nx) => {
                    proof {
                        let ls = self.links@;
                        assert(ls.len() >= 2) by {
                            if ls.len() == 1 {
                                assert(self.arena@[self.head as int].next is None);
                            }
                        }
                        assert(nx == ls[1]);
                        assert(self.arena@[nx as int].value is Some);
                    }
                    // Take the value out of the node after head, advance head
                    // past the consumed node, clearing USE in the same step,
                    // and count the receive.
                    let taken_value = self.arena[nx].value.take();
                    self.head = nx;
                    self.in_use = false;
                    self.recv_count = self.recv_count.wrapping_add(1);
                    // Exclusivity under USE means no other thread can still
                    // hold the displaced head: reclaim it at once.
                    self.arena[h].freed = true;
                    proof {
                        self.links@ = self.links@.drop_first();
                        self.taken@ = self.taken@.push(taken_value->0);
                        self.lemma_pop_reestablishes(*old(self), h, nx);
                    }
                    Some(taken_value.unwrap())
                },
            }
        } else {
            // Safe multi-receiver path: the traversal would run inside a
            // protected section of the reclamation subsystem; unlinked nodes
            // are only deferred, never reclaimed in place.
            let h = self.head;
            let next_link = self.arena[h].next;
            match next_link {
                None => {
                    // Empty, subject to the same tail re-check as above.
                    proof {
                        if self.links@.len() >= 2 {
                            assert(self.arena@[self.links@[0] as int].next == Some(
                                self.links@[1],
                            ));
                        }
                        assert(old(self).pending_values().len() == 0);
                    }
                    None
                },
                Some(nx) => {
                    proof {
                        let ls = self.links@;
                        assert(ls.len() >= 2) by {
                            if ls.len() == 1 {
                                assert(self.arena@[self.head as int].next is None);
                            }
                        }
                        assert(nx == ls[1]);
                        assert(self.arena@[nx as int].value is Some);
                    }
                    let taken_value = self.arena[nx].value.take();
                    // The compare-and-swap of head keeps the MULTI tag, so
                    // the queue never leaves the safe path.
                    self.head = nx;
                    self.recv_count = self.recv_count.wrapping_add(1);
                    // Another receiver may still be examining the displaced
                    // head: schedule it for deferred reclamation instead of
                    // freeing it.
                    self.deferred.push(h);
                    proof {
                        self.links@ = self.links@.drop_first();
                        self.taken@ = self.taken@.push(taken_value->0);
                        self.lemma_pop_reestablishes(*old(self), h, nx);
                    }
                    Some(taken_value.unwrap())
                },
            }
        }
    }

    /// After either pop path has advanced head past one consumed node, the
    /// invariant and the queue abstraction are re-established.
    proof fn lemma_pop_reestablishes(&self, prev: Channel<T>, h: usize, nx: usize)
        requires
            prev.wf(),
            prev.links@.len() >= 2,
            h == prev.links@[0],
            nx == prev.links@[1],
            self.links@ == prev.links@.drop_first(),
            self.head == nx,
            self.tail == prev.tail,
            !self.in_use,
            self.multi == prev.multi,
            self.closed == prev.closed,
            self.receivers@ == prev.receivers@,
            self.pushed@ == prev.pushed@,
            self.taken@ == prev.taken@.push(prev.pending_values()[0]),
            vstd::wrapping::usize_specs::wrapping_sub(self.send_count, self.recv_count)
                == self.links@.len() - 1,
            // the arena is unchanged but for taking the new head's value and
            // possibly reclaiming the displaced node
            self.arena@.len() == prev.arena@.len(),
            self.arena@[nx as int].value is None,
            self.arena@[nx as int].next == prev.arena@[nx as int].next,
            self.arena@[nx as int].freed == prev.arena@[nx as int].freed,
            forall|k: int|
                0 <= k < self.arena@.len() && k != h && k != nx ==> self.arena@[k]
                    == prev.arena@[k],
            self.arena@[h as int].value == prev.arena@[h as int].value,
            self.arena@[h as int].next == prev.arena@[h as int].next,
            // the displaced node is reclaimed at once exactly on the fast
            // path, and deferred exactly on the safe path
            !prev.multi ==> self.deferred@ == prev.deferred@ && self.arena@[h as int].freed,
            prev.multi ==> self.deferred@ == prev.deferred@.push(h) && self.arena@[h as int].freed
                == prev.arena@[h as int].freed,
        ensures
            self.wf(),
            self.pending_values() == prev.pending_values().drop_first(),
    {
        let ls = prev.links@;
        assert(forall|k: int| 0 <= k < self.links@.len() ==> self.links@[k] == ls[k + 1]);
        assert(forall|k: int| 1 <= k < self.links@.len() ==> self.links@[k] != h && self.links@[k]
            != nx);
        assert(self.pending_values() =~= prev.pending_values().drop_first()) by {
            assert(forall|k: int|
                0 <= k < self.links@.len() - 1 ==> self.arena@[#[trigger] self.links@[k + 1] as int]
                    == prev.arena@[ls[k + 2] as int]);
        }
        assert(self.pushed@ =~= self.taken@ + self.pending_values()) by {
            assert(prev.pushed@ == prev.taken@ + prev.pending_values());
        }
    }

    /// The reclamation subsystem certifies that no thread can still be in a
    /// protected section entered before the deferred nodes were unlinked:
    /// every deferred node's storage is freed, each exactly once, and no
    /// other node is touched.
    pub fn reclaim(&mut self)
        requires
            old(self).wf(),
        ensures
            final(self).wf(),
            final(self).deferred_nodes() == Seq::<usize>::empty(),
            forall|k: int|
                0 <= k < old(self).deferred_nodes().len() ==> final(self).node_freed(
                    #[trigger] old(self).deferred_nodes()[k],
                ),
            forall|i: usize|
                !old(self).deferred_nodes().contains(i) ==> #[trigger] final(self).node_freed(i)
                    == old(self).node_freed(i),
            final(self).linked_nodes() == old(self).linked_nodes(),
            final(self)@.sent == old(self)@.sent,
            final(self)@.received == old(self)@.received,
            final(self)@.pending == old(self)@.pending,
            final(self)@.closed == old(self)@.closed,
            final(self)@.multi == old(self)@.multi,
            final(self)@.cases == old(self)@.cases,
    {
        while self.deferred.len() > 0
            invariant
                old(self).wf(),
                self.wf(),
                self.arena@.len() == old(self).arena@.len(),
                self.deferred@.len() <= old(self).deferred@.len(),
                forall|j: int|
                    0 <= j < self.deferred@.len()
                        ==> #[trigger] self.deferred@[j] == old(self).deferred@[j],
                forall|k: int|
                    self.deferred@.len() <= k < old(self).deferred@.len() ==> self.node_freed(
                        #[trigger] old(self).deferred@[k],
                    ),
                forall|i: usize|
                    !old(self).deferred@.contains(i)
                        ==> #[trigger] self.node_freed(i) == old(self).node_freed(i),
                self.links@ == old(self).links@,
                self@.sent == old(self)@.sent,
                self@.received == old(self)@.received,
                self@.pending == old(self)@.pending,
                self@.closed == old(self)@.closed,
                self@.multi == old(self)@.multi,
                self@.cases == old(self)@.cases,
            decreases self.deferred@.len(),
        {
            let ghost pre = *self;
            let unlinked = self.deferred.pop().unwrap();
            self.arena[unlinked].freed = true;
            proof {
                let n = pre.deferred@.len() as int;
                assert(unlinked == old(self).deferred@[n - 1]);
                assert(old(self).deferred@.contains(unlinked)) by {
                    assert(old(self).deferred@[n - 1] == unlinked);
                }
                assert(forall|k: int|
                    0 <= k < self.links@.len() ==> (#[trigger] self.links@[k]) != unlinked);
                assert(self.pending_values() =~= pre.pending_values());
                assert forall|i: usize|
                    !old(self).deferred@.contains(i) implies #[trigger] self.node_freed(i)
                        == old(self).node_freed(i) by {
                    assert(i != unlinked);
                    assert(pre.node_freed(i) == old(self).node_freed(i));
                    assert(self.node_freed(i) == pre.node_freed(i));
                }
            }
        }
        proof {
            assert(self.deferred@ =~= Seq::<usize>::empty());
        }
    }

    /// The length estimator: one consistent snapshot of the two counters;
    /// their wrapping difference is the number of undelivered values. (The
    /// concurrent algorithm re-reads the send counter until it is stable;
    /// a snapshot taken under exclusive access is stable at once.)
    pub fn len(&self) -> (n: usize)
        requires
            self.wf(),
        ensures
            n == self@.pending.len(),
    {
        let send_count = self.send_count;
        let recv_count = self.recv_count;
        send_count.wrapping_sub(recv_count)
    }

    /// Non-blocking send. Rejected with the value handed back when the
    /// channel is closed; otherwise the value is appended and the receiver
    /// registered longest ago, if any, is picked as a best-effort wake hint.
    pub fn try_send(&mut self, value: T) -> (r: Result<(), TrySendError<T>>)
        requires
            old(self).wf(),
        ensures
            final(self).wf(),
            old(self)@.closed ==> (r matches Err(TrySendError::Disconnected(v)) && v == value)
                && final(self)@ == old(self)@,
            !old(self)@.closed ==> r is Ok
                && final(self)@.sent == old(self)@.sent.push(value)
                && final(self)@.pending == old(self)@.pending.push(value)
                && final(self)@.received == old(self)@.received
                && final(self)@.closed == old(self)@.closed
                && final(self)@.multi == old(self)@.multi
                && final(self)@.cases == (if old(self)@.cases.len() == 0 {
                    old(self)@.cases
                } else {
                    old(self)@.cases.drop_first()
                }),
    {
        if self.closed {
            Err(TrySendError::Disconnected(value))
        } else {
            self.push(value);
            let _woken = self.receivers.notify_one();
            Ok(())
        }
    }

    /// Send with the same behaviour as `try_send`; the structure is
    /// unbounded, so a send never has to wait and a deadline never elapses.
    pub fn send(&mut self, value: T) -> (r: Result<(), SendTimeoutError<T>>)
        requires
            old(self).wf(),
        ensures
            final(self).wf(),
            old(self)@.closed ==> (r matches Err(SendTimeoutError::Disconnected(v)) && v == value)
                && final(self)@ == old(self)@,
            !old(self)@.closed ==> r is Ok
                && final(self)@.sent == old(self)@.sent.push(value)
                && final(self)@.pending == old(self)@.pending.push(value)
                && final(self)@.received == old(self)@.received
                && final(self)@.closed == old(self)@.closed
                && final(self)@.multi == old(self)@.multi
                && final(self)@.cases == (if old(self)@.cases.len() == 0 {
                    old(self)@.cases
                } else {
                    old(self)@.cases.drop_first()
                }),
    {
        if self.closed {
            Err(SendTimeoutError::Disconnected(value))
        } else {
            self.push(value);
            let _woken = self.receivers.notify_one();
            Ok(())
        }
    }

    /// Non-blocking receive: the oldest pending value, `Empty` when nothing
    /// is available on an open channel, `Disconnected` when the channel is
    /// closed and drained. Values enqueued before a close stay receivable.
    pub fn try_recv(&mut self) -> (r: Result<T, TryRecvError>)
        requires
            old(self).wf(),
        ensures
            final(self).wf(),
            old(self)@.pending.len() > 0 ==> (r matches Ok(v) && v == old(self)@.pending[0])
                && final(self)@.pending == old(self)@.pending.drop_first()
                && final(self)@.received == old(self)@.received.push(old(self)@.pending[0]),
            old(self)@.pending.len() == 0 ==> final(self)@ == old(self)@
                && (old(self)@.closed ==> r matches Err(TryRecvError::Disconnected))
                && (!old(self)@.closed ==> r matches Err(TryRecvError::Empty)),
            final(self)@.sent == old(self)@.sent,
            final(self)@.closed == old(self)@.closed,
            final(self)@.multi == old(self)@.multi,
            final(self)@.cases == old(self)@.cases,
    {
        let was_closed = self.closed;
        match self.pop() {
            None => if was_closed {
                Err(TryRecvError::Disconnected)
            } else {
                Err(TryRecvError::Empty)
            },
            Some(v) => Ok(v),
        }
    }

    /// Receive with a bounded spin: the non-blocking attempt is retried a
    /// small fixed number of times, tolerating transient races cheaply
    /// before a caller escalates to parking. The retry budget is a tuning
    /// parameter, not a behavioural contract.
    pub fn spin_try_recv(&mut self) -> (r: Result<T, TryRecvError>)
        requires
            old(self).wf(),
        ensures
            final(self).wf(),
            old(self)@.pending.len() > 0 ==> (r matches Ok(v) && v == old(self)@.pending[0])
                && final(self)@.pending == old(self)@.pending.drop_first()
                && final(self)@.received == old(self)@.received.push(old(self)@.pending[0]),
            old(self)@.pending.len() == 0 ==> final(self)@ == old(self)@
                && (old(self)@.closed ==> r matches Err(TryRecvError::Disconnected))
                && (!old(self)@.closed ==> r matches Err(TryRecvError::Empty)),
            final(self)@.sent == old(self)@.sent,
            final(self)@.closed == old(self)@.closed,
            final(self)@.multi == old(self)@.multi,
            final(self)@.cases == old(self)@.cases,
    {
        let mut i: usize = 0;
        while i < 20
            invariant
                old(self).wf(),
                self.wf(),
                self@ == old(self)@,
                i > 0 ==> self@.pending.len() == 0 && !self@.closed,
            decreases 20 - i,
        {
            let was_closed = self.closed;
            match self.pop() {
                Some(v) => {
                    return Ok(v);
                },
                None => {
                    if was_closed {
                        return Err(TryRecvError::Disconnected);
                    }
                },
            }
            i = i + 1;
        }
        Err(TryRecvError::Empty)
    }

    /// The first half of one round of a blocking receive. On `Park` the
    /// caller is registered under `case_id` and should suspend until a
    /// notification, a close, or its deadline, then call `recv_resume`.
    pub fn recv_prepare(&mut self, case_id: CaseId) -> (prepared: RecvPrepared<T>)
        requires
            old(self).wf(),
        ensures
            final(self).wf(),
            old(self)@.pending.len() > 0 ==> (prepared matches RecvPrepared::Value(v)
                && v == old(self)@.pending[0])
                && final(self)@.pending == old(self)@.pending.drop_first()
                && final(self)@.received == old(self)@.received.push(old(self)@.pending[0])
                && final(self)@.cases == old(self)@.cases,
            old(self)@.pending.len() == 0 && old(self)@.closed ==> (prepared matches
                RecvPrepared::Disconnected) && final(self)@ == old(self)@,
            old(self)@.pending.len() == 0 && !old(self)@.closed ==> (prepared matches
                RecvPrepared::Park)
                && final(self)@.pending == old(self)@.pending
                && final(self)@.received == old(self)@.received
                && final(self)@.cases == old(self)@.cases.push(case_id),
            final(self)@.sent == old(self)@.sent,
            final(self)@.closed == old(self)@.closed,
            final(self)@.multi == old(self)@.multi,
    {
        match self.spin_try_recv() {
            Ok(v) => RecvPrepared::Value(v),
            Err(TryRecvError::Disconnected) => RecvPrepared::Disconnected,
            Err(TryRecvError::Empty) => {
                self.receivers.register(case_id);
                // Only an open, still empty channel is worth parking on; a
                // value or a close that arrived between the attempt above
                // and the registration makes this round retry instead.
                if !self.closed && self.len() == 0 {
                    RecvPrepared::Park
                } else {
                    let _was_registered = self.receivers.unregister(case_id);
                    RecvPrepared::Retry
                }
            },
        }
    }

    /// The second half of one round of a blocking receive, after the park.
    /// The registration under `case_id` is withdrawn, if a notification has
    /// not already consumed it. `woke` says whether the park ended by a
    /// notification rather than by the deadline; a wake is a hint, not a
    /// guarantee of data, so the caller re-attempts a pop when it holds and
    /// reports timeout only when it does not.
    pub fn recv_resume(&mut self, case_id: CaseId, woke: bool) -> (timed_out: bool)
        requires
            old(self).wf(),
        ensures
            final(self).wf(),
            timed_out == !woke,
            final(self)@.cases == remove_first(old(self)@.cases, case_id),
            final(self)@.sent == old(self)@.sent,
            final(self)@.received == old(self)@.received,
            final(self)@.pending == old(self)@.pending,
            final(self)@.closed == old(self)@.closed,
            final(self)@.multi == old(self)@.multi,
    {
        let _was_registered = self.receivers.unregister(case_id);
        !woke
    }

    /// One-shot close. Reports whether this call performed the transition;
    /// on that call every registered receiver is to be woken and told the
    /// channel is closed. Close removes no value: everything already
    /// enqueued stays receivable.
    pub fn close(&mut self) -> (performed: bool)
        requires
            old(self).wf(),
        ensures
            final(self).wf(),
            performed == !old(self)@.closed,
            final(self)@.closed,
            final(self)@.sent == old(self)@.sent,
            final(self)@.received == old(self)@.received,
            final(self)@.pending == old(self)@.pending,
            final(self)@.multi == old(self)@.multi,
            old(self)@.closed ==> final(self)@.cases == old(self)@.cases,
            !old(self)@.closed ==> final(self)@.cases == Seq::<CaseId>::empty(),
    {
        if self.closed {
            false
        } else {
            self.closed = true;
            let _aborted = self.receivers.abort_all();
            true
        }
    }

    /// Whether the channel has been closed. The flag is monotone: it never
    /// returns to `false`.
    pub fn is_closed(&self) -> (r: bool)
        ensures
            r == self@.closed,
    {
        self.closed
    }

    /// The registration table of blocked receivers.
    pub fn receivers(&self) -> (m: &Monitor)
        ensures
            m@ == self@.cases,
    {
        &self.receivers
    }

    /// The arena indices still linked in the list, from head to tail.
    pub closed spec fn linked_nodes(self) -> Seq<usize> {
        self.links@
    }

    /// The arena indices unlinked on the safe path and awaiting reclamation.
    pub closed spec fn deferred_nodes(self) -> Seq<usize> {
        self.deferred@
    }

    /// Whether the node at arena index `i` has been reclaimed.
    pub closed spec fn node_freed(self, i: usize) -> bool {
        i < self.arena@.len() && self.arena@[i as int].freed
    }

    /// No loss, no duplication: the sent history is exactly the received
    /// history followed by the pending values. Once the queue is drained,
    /// what was received equals what was sent, value for value; and the
    /// length is exactly the difference of the histories' lengths.
    pub proof fn lemma_no_loss_no_duplication(&self)
        requires
            self.wf(),
        ensures
            self@.sent == self@.received + self@.pending,
            self@.pending.len() == self@.sent.len() - self@.received.len(),
            self@.pending.len() == 0 ==> self@.received == self@.sent,
    {
        if self@.pending.len() == 0 {
            assert(self@.received + self@.pending =~= self@.received);
        }
    }

    /// FIFO delivery: the received values are a prefix of the sent values —
    /// two appends are delivered in their append order, and nothing is
    /// delivered out of turn.
    pub proof fn lemma_fifo(&self)
        requires
            self.wf(),
        ensures
            self@.received.is_prefix_of(self@.sent),
            forall|i: int| 0 <= i < self@.received.len() ==> self@.received[i] == self@.sent[i],
    {
        assert(self@.received =~= self@.sent.subrange(0, self@.received.len() as int));
    }

    /// Safe reclamation: no node still linked in the list has been freed; a
    /// node awaiting deferred reclamation is no longer linked and not yet
    /// freed; and no node is scheduled for reclamation twice. A receiver
    /// therefore never reads a freed node, and a node is freed at most once.
    pub proof fn lemma_reclamation_safe(&self)
        requires
            self.wf(),
        ensures
            forall|k: int|
                0 <= k < self.linked_nodes().len() ==> !self.node_freed(
                    #[trigger] self.linked_nodes()[k],
                ),
            forall|k: int|
                0 <= k < self.deferred_nodes().len() ==> !self.node_freed(
                    #[trigger] self.deferred_nodes()[k],
                ) && !self.linked_nodes().contains(self.deferred_nodes()[k]),
            forall|i: int, j: int|
                0 <= i < j < self.deferred_nodes().len() ==> self.deferred_nodes()[i]
                    != self.deferred_nodes()[j],
            forall|i: int, j: int|
                0 <= i < j < self.linked_nodes().len() ==> self.linked_nodes()[i]
                    != self.linked_nodes()[j],
    {
        assert forall|k: int| 0 <= k < self.deferred_nodes().len() implies !self.linked_nodes()
            .contains(#[trigger] self.deferred_nodes()[k]) by {
            assert(forall|j: int|
                0 <= j < self.links@.len() ==> self.deferred@[k] != #[trigger] self.links@[j]);
        }
    }
}

/// What one round of a blocking receive decided before any parking.
pub enum RecvPrepared<T> {
    /// A value was obtained; no registration remains.
    Value(T),
    /// The channel is closed and drained; no registration remains.
    Disconnected,
    /// Nothing available on an open channel: the receiver is registered and
    /// should park, then call `recv_resume`.
    Park,
    /// Data or a close arrived between the attempt and the registration;
    /// the registration has been withdrawn and the round starts over.
    Retry,
}

} // verus!

