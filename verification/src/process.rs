//! How the server takes in what the transport reports.

use crate::effect::EffectView;
use crate::error::{result_view, Sim2hError, Sim2hErrorView, Sim2hResult};
use crate::events::{
    event_emits, event_ok, event_result, event_state, event_views, events_emit, events_ok,
    events_state, verify_payload, StreamEvent, StreamEventView,
};
use crate::rules::ServerState;
use crate::server::Sim2h;
use vstd::prelude::*;

verus! {

/// One more event is taken in.
proof fn lemma_events_step(
    s: ServerState,
    events: Seq<StreamEventView>,
    event: StreamEventView,
    out: Seq<EffectView>,
    k: int,
)
    requires
        0 <= k <= out.len(),
        events_emit(s, events, out.take(k)),
        event_emits(events_state(s, events), event, out.skip(k)),
    ensures
        events_emit(s, events.push(event), out),
        events_state(s, events.push(event)) == event_state(events_state(s, events), event),
{
    let longer = events.push(event);
    assert(longer.drop_last() =~= events);
    assert(longer.last() == event);
}

/// When the server can take in the first events and then the next, it can take in one more.
proof fn lemma_one_more_ok(s: ServerState, events: Seq<StreamEventView>, n: int)
    requires
        0 <= n < events.len(),
        events_ok(s, events.take(n)),
        event_ok(events_state(s, events.take(n)), events[n]),
    ensures
        events_ok(s, events.take(n + 1)),
{
    let longer = events.take(n + 1);
    assert forall|i: int| 0 <= i < longer.len() implies event_ok(
        events_state(s, longer.take(i)),
        #[trigger] longer[i],
    ) by {
        assert(longer.take(i) =~= events.take(i));
        if i < n {
            assert(events.take(n).take(i) =~= events.take(i));
            assert(longer[i] == events.take(n)[i]);
        }
    }
}

impl Sim2h {
    /// The server can take the event in.
    pub fn accepts(&self, event: &StreamEvent) -> (accepted: bool)
        requires
            self.wf(),
        ensures
            accepted == event_ok(self.state(), event@),
    {
        match event {
            StreamEvent::ReceivedData(uri, Ok(signed)) => {
                if !signed.verified {
                    return true;
                }
                match &signed.payload {
                    Ok(message) => self.accepts_message(uri, message, &signed.source),
                    Err(_) => true,
                }
            },
            _ => true,
        }
    }

    /// Takes in what the transport reports of a connection.
    pub fn handle_event(&mut self, event: StreamEvent) -> (result: Sim2hResult<()>)
        requires
            old(self).wf(),
            event_ok(old(self).state(), event@),
        ensures
            final(self).wf(),
            result_view(result) == event_result(old(self).state(), event@),
            final(self).state() == event_state(old(self).state(), event@),
            final(self).outbox() == old(self).outbox() + final(self).added_since(
                old(self).outbox(),
            ),
            event_emits(
                old(self).state(),
                event@,
                final(self).added_since(old(self).outbox()),
            ),
            final(self).idle_part() == old(self).idle_part(),
    {
        assert(self.outbox() =~= self.outbox() + self.added_since(self.outbox()));
        match event {
            StreamEvent::ReceivedData(uri, received) => match verify_payload(received) {
                Ok((source, wire_message)) => self.handle_message(&uri, wire_message, &source),
                Err(error) => Err(error),
            },
            StreamEvent::IncomingConnectionEstablished(uri) => {
                match self.handle_incoming_connect(uri) {
                    Ok(_) => Ok(()),
                    Err(error) => Err(error),
                }
            },
            StreamEvent::ConnectionClosed(uri) => {
                self.disconnect(&uri);
                Ok(())
            },
            StreamEvent::ConnectResult(_, _) => Ok(()),
            StreamEvent::ErrorOccured(_, _) => Ok(()),
        }
    }

    /// Takes in the events one by one, up to the first that the server cannot take in. Says how
    /// it answered for each, and hands that one back. An event that the server refuses does not
    /// keep it from the next.
    pub fn process_accepted(&mut self, events: Vec<StreamEvent>) -> (taken: (
        Vec<Sim2hResult<()>>,
        Option<StreamEvent>,
    ))
        requires
            old(self).wf(),
        ensures
            final(self).wf(),
            taken.0@.len() <= events@.len(),
            events_ok(old(self).state(), event_views(events@).take(taken.0@.len() as int)),
            match taken.1 {
                Some(event) => {
                    &&& taken.0@.len() < events@.len()
                    &&& event@ == events@[taken.0@.len() as int]@
                    &&& !event_ok(final(self).state(), event@)
                },
                None => taken.0@.len() == events@.len(),
            },
            forall|i: int|
                0 <= i < taken.0@.len() ==> result_view(#[trigger] taken.0@[i]) == event_result(
                    events_state(old(self).state(), event_views(events@).take(i)),
                    events@[i]@,
                ),
            final(self).state() == events_state(
                old(self).state(),
                event_views(events@).take(taken.0@.len() as int),
            ),
            final(self).outbox() == old(self).outbox() + final(self).added_since(
                old(self).outbox(),
            ),
            events_emit(
                old(self).state(),
                event_views(events@).take(taken.0@.len() as int),
                final(self).added_since(old(self).outbox()),
            ),
            final(self).idle_part() == old(self).idle_part(),
    {
        let ghost s = self.state();
        let ghost base = self.outbox();
        let ghost all = events@;
        let ghost views = event_views(all);
        let mut results: Vec<Sim2hResult<()>> = Vec::new();
        assert(views.take(0) =~= Seq::<StreamEventView>::empty());
        assert(self.outbox() =~= base + self.added_since(base));
        for event in iter: events
            invariant
                s == old(self).state(),
                base == old(self).outbox(),
                all == events@,
                self.wf(),
                self.idle_part() == old(self).idle_part(),
                iter.seq() == all,
                views == event_views(all),
                results@.len() == iter.index(),
                events_ok(s, views.take(iter.index())),
                forall|i: int|
                    0 <= i < results@.len() ==> result_view(#[trigger] results@[i])
                        == event_result(events_state(s, views.take(i)), all[i]@),
                self.state() == events_state(s, views.take(iter.index())),
                self.outbox() == base + self.added_since(base),
                events_emit(s, views.take(iter.index()), self.added_since(base)),
        {
            let ghost served = self.outbox();
            let ghost n = iter.index();
            assert(views[n] == event@);
            if !self.accepts(&event) {
                return (results, Some(event));
            }
            let result = self.handle_event(event);
            results.push(result);
            proof {
                let out = self.outbox().skip(base.len() as int);
                let k = served.len() - base.len();
                assert(out.take(k) =~= served.skip(base.len() as int));
                assert(out.skip(k) =~= self.outbox().skip(served.len() as int));
                assert(self.outbox() =~= base + self.added_since(base));
                lemma_events_step(s, views.take(n), event@, out, k);
                assert(views.take(n).push(event@) =~= views.take(n + 1));
                lemma_one_more_ok(s, views, n);
            }
        }
        (results, None)
    }

    /// Takes in what one poll of the transport gave: the events, or why it failed. An event
    /// that the server refuses does not keep it from the next.
    pub fn process(&mut self, polled: Result<Vec<StreamEvent>, String>) -> (result: Sim2hResult<()>)
        requires
            old(self).wf(),
            polled matches Ok(events) ==> events_ok(old(self).state(), event_views(events@)),
        ensures
            final(self).wf(),
            final(self).ticks() == (old(self).ticks() + 1) % 60000,
            final(self).bound() == old(self).bound(),
            match polled {
                Ok(events) => {
                    &&& result_view(result) == Ok::<(), Sim2hErrorView>(())
                    &&& final(self).state() == events_state(
                        old(self).state(),
                        event_views(events@),
                    )
                    &&& final(self).outbox() == old(self).outbox() + final(self).added_since(
                        old(self).outbox(),
                    )
                    &&& events_emit(
                        old(self).state(),
                        event_views(events@),
                        final(self).added_since(old(self).outbox()),
                    )
                },
                Err(text) => {
                    &&& result_view(result) == Err::<(), Sim2hErrorView>(
                        Sim2hErrorView::Transport(text@),
                    )
                    &&& final(self).state() == old(self).state()
                    &&& final(self).outbox() == old(self).outbox()
                },
            },
    {
        self.tick();
        let events = match polled {
            Ok(events) => events,
            Err(text) => return Err(Sim2hError::Transport(text)),
        };
        let ghost views = event_views(events@);
        let (results, _) = self.process_accepted(events);
        proof {
            let n = results@.len() as int;
            if n < views.len() {
                assert(event_ok(events_state(old(self).state(), views.take(n)), views[n]));
            }
            assert(views.take(views.len() as int) =~= views);
        }
        Ok(())
    }
}

} // verus!
