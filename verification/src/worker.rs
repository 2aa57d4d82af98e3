//! The emission worker: the one writer of the device.
//!
//! The worker waits for the next event on the channel and writes it to the
//! device, until the channel reports that no sender is left. Waiting and
//! writing are its caller's business; what to do next is decided here.

use vstd::prelude::*;

verus! {

/// The two states of the worker. `Terminated` is final.
#[derive(Clone, Copy, Debug, PartialEq, Eq, Structural)]
pub enum WorkerState {
    Running,
    Terminated,
}

/// What an attempt to receive from the channel reported.
#[derive(Debug)]
pub enum Received<E> {
    /// The next event in the queue.
    Event(E),
    /// The queue is empty and every sender is gone.
    Disconnected,
}

/// What the worker does next.
#[derive(Debug)]
pub enum Action<E> {
    /// Write this event to the device, then wait for the next one.
    Write(E),
    /// Stop and release the device.
    Exit,
}

/// The state and the action that follow from a state and a receive attempt.
pub open spec fn next<E>(state: WorkerState, received: Received<E>) -> (WorkerState, Action<E>) {
    match (state, received) {
        (WorkerState::Running, Received::Event(event)) => (WorkerState::Running, Action::Write(event)),
        _ => (WorkerState::Terminated, Action::Exit),
    }
}

/// The events that an action writes.
pub open spec fn written<E>(action: Action<E>) -> Seq<E> {
    match action {
        Action::Write(event) => seq![event],
        Action::Exit => Seq::empty(),
    }
}

/// The state of a worker that started running and saw `received`, and the
/// events it has written, in the order of the writes.
pub open spec fn run<E>(received: Seq<Received<E>>) -> (WorkerState, Seq<E>)
    decreases received.len(),
{
    if received.len() == 0 {
        (WorkerState::Running, Seq::empty())
    } else {
        let (state, writes) = run(received.drop_last());
        let (state, action) = next(state, received.last());
        (state, writes + written(action))
    }
}

/// The events of `received`, in order.
pub open spec fn events<E>(received: Seq<Received<E>>) -> Seq<E> {
    Seq::new(received.len(), |i: int| received[i]->Event_0)
}

/// What the worker receives when `sent` went through the channel and no
/// sender has gone yet: the channel is a queue, so each event arrives, in the
/// order of the sends.
pub open spec fn arrivals<E>(sent: Seq<E>) -> Seq<Received<E>> {
    Seq::new(sent.len(), |i: int| Received::Event(sent[i]))
}

/// One step of the worker: an event received while running is written, and
/// the worker stays running whether or not the write succeeds; anything else
/// ends it.
pub fn step<E>(state: WorkerState, received: Received<E>) -> (result: (WorkerState, Action<E>))
    ensures
        result == next(state, received),
{
    match state {
        WorkerState::Running => match received {
            Received::Event(event) => (WorkerState::Running, Action::Write(event)),
            Received::Disconnected => (WorkerState::Terminated, Action::Exit),
        },
        WorkerState::Terminated => (WorkerState::Terminated, Action::Exit),
    }
}

/// While the channel delivers events the worker keeps running and writes
/// each of them, in the order of their arrival.
pub proof fn lemma_writes_in_arrival_order<E>(received: Seq<Received<E>>)
    requires
        forall|i: int| 0 <= i < received.len() ==> received[i] is Event,
    ensures
        run(received).0 == WorkerState::Running,
        run(received).1 == events(received),
    decreases received.len(),
{
    if received.len() > 0 {
        let earlier = received.drop_last();
        lemma_writes_in_arrival_order(earlier);
        assert(run(received).1 =~= events(received));
    }
}

/// The worker writes to the device what was sent on the channel, in the
/// order of the sends.
pub proof fn lemma_writes_what_was_sent<E>(sent: Seq<E>)
    ensures
        run(arrivals(sent)).0 == WorkerState::Running,
        run(arrivals(sent)).1 == sent,
{
    lemma_writes_in_arrival_order(arrivals(sent));
    assert(events(arrivals(sent)) =~= sent);
}

/// A worker that has terminated stays terminated and writes nothing more.
pub proof fn lemma_terminated_is_final<E>(received: Seq<Received<E>>, n: int)
    requires
        0 <= n <= received.len(),
        run(received.take(n)).0 == WorkerState::Terminated,
    ensures
        run(received).0 == WorkerState::Terminated,
        run(received).1 == run(received.take(n)).1,
    decreases received.len() - n,
{
    if n == received.len() {
        assert(received.take(n) =~= received);
    } else {
        let earlier = received.drop_last();
        assert(earlier.take(n) =~= received.take(n));
        lemma_terminated_is_final(earlier, n);
    }
}

/// The worker terminates at the first receive attempt that finds the channel
/// disconnected, and at no other: up to there it has written every event
/// that arrived, and it never writes again.
pub proof fn lemma_disconnect_ends_the_worker<E>(received: Seq<Received<E>>, n: int)
    requires
        0 <= n < received.len(),
        received[n] is Disconnected,
        forall|i: int| 0 <= i < n ==> received[i] is Event,
    ensures
        run(received.take(n)).0 == WorkerState::Running,
        run(received).0 == WorkerState::Terminated,
        run(received).1 == events(received.take(n)),
{
    let before = received.take(n);
    let through = received.take(n + 1);
    lemma_writes_in_arrival_order(before);
    assert(through.drop_last() =~= before);
    assert(through.last() == received[n]);
    assert(run(through).1 =~= run(before).1);
    lemma_terminated_is_final(received, n + 1);
}

} // verus!
