//! The state of a session as far as the transport drives it: whether it has
//! ended, the publish requests that wait for data, and the publish responses
//! that wait to be sent.

use crate::clock::{date_time, spec_date_time};
use crate::status_code::StatusCode;
use crate::supported_message::{
    ResponseHeader, ServiceFault, SupportedMessage, SupportedMessageView,
};
use vstd::prelude::*;

verus! {

/// A publish request that the handler keeps until a subscription has data for it.
#[derive(Clone, Copy, Debug, PartialEq, Eq, Structural)]
pub struct PublishRequestEntry {
    pub request_id: u32,
    /// The handle by which the client knows the request.
    pub request_handle: u32,
    /// The moment, in milliseconds since the Unix epoch, after which the
    /// request is stale.
    pub expires_at: i64,
}

/// A response that waits to be sent, with the id of the request it answers.
#[derive(Debug, Clone, PartialEq, Eq)]
pub struct PublishResponseEntry {
    pub request_id: u32,
    pub response: SupportedMessage,
}

impl View for PublishResponseEntry {
    type V = (u32, SupportedMessageView);

    open spec fn view(&self) -> (u32, SupportedMessageView) {
        (self.request_id, self.response@)
    }
}

/// The responses of a vector as mathematical values.
pub open spec fn response_views(entries: Seq<PublishResponseEntry>) -> Seq<
    (u32, SupportedMessageView),
> {
    entries.map_values(|e: PublishResponseEntry| e@)
}

/// What the subscriptions of a session have ready for the client.
#[derive(Debug, Clone, PartialEq, Eq)]
pub struct Subscriptions {
    /// The responses that wait to be sent, oldest first.
    pub publish_responses: Vec<PublishResponseEntry>,
}

/// The session of a connection.
#[derive(Debug, Clone, PartialEq, Eq)]
pub struct Session {
    /// Set when the transport has finished; never cleared.
    pub terminated: bool,
    /// Set by whoever wants the connection to end after the current message.
    pub terminate_session: bool,
    /// The publish requests that wait for data, oldest first.
    pub publish_request_queue: Vec<PublishRequestEntry>,
    pub subscriptions: Subscriptions,
}

/// A request is stale at `now` when its time has passed.
pub open spec fn spec_is_stale(entry: PublishRequestEntry, now: i64) -> bool {
    entry.expires_at < now
}

/// The answer to a publish request that went stale: a fault that reports a timeout.
pub open spec fn spec_timeout_fault(entry: PublishRequestEntry, now: i64) -> (
    u32,
    SupportedMessageView,
) {
    (
        entry.request_id,
        SupportedMessageView::ServiceFault(
            ServiceFault {
                response_header: ResponseHeader {
                    timestamp: spec_date_time(now),
                    request_handle: entry.request_handle,
                    service_result: StatusCode::BadTimeout,
                },
            },
        ),
    )
}

/// The requests that are still fresh at `now`, in their order.
pub open spec fn spec_fresh(queue: Seq<PublishRequestEntry>, now: i64) -> Seq<
    PublishRequestEntry,
> {
    queue.filter(|e: PublishRequestEntry| !spec_is_stale(e, now))
}

/// The faults that answer the requests that are stale at `now`, in the order of
/// the requests.
pub open spec fn spec_expired(queue: Seq<PublishRequestEntry>, now: i64) -> Seq<
    (u32, SupportedMessageView),
> {
    queue.filter(|e: PublishRequestEntry| spec_is_stale(e, now)).map_values(
        |e: PublishRequestEntry| spec_timeout_fault(e, now),
    )
}

impl Subscriptions {
    /// Subscriptions with nothing ready.
    pub fn new() -> (r: Subscriptions)
        ensures
            r.publish_responses@ == Seq::<PublishResponseEntry>::empty(),
    {
        Subscriptions { publish_responses: Vec::new() }
    }

    /// Adds a response behind those that wait already.
    pub fn enqueue_publish_response(&mut self, entry: PublishResponseEntry)
        ensures
            final(self).publish_responses@ == old(self).publish_responses@.push(entry),
    {
        self.publish_responses.push(entry);
    }

    /// Takes out all responses that wait, oldest first; `None` when none waits.
    pub fn take_publish_responses(&mut self) -> (r: Option<Vec<PublishResponseEntry>>)
        ensures
            final(self).publish_responses@ == Seq::<PublishResponseEntry>::empty(),
            old(self).publish_responses@.len() == 0 ==> r is None,
            old(self).publish_responses@.len() > 0 ==> (r matches Some(taken) && taken@ == old(
                self,
            ).publish_responses@),
    {
        if self.publish_responses.len() == 0 {
            None
        } else {
            let mut taken: Vec<PublishResponseEntry> = Vec::new();
            taken.append(&mut self.publish_responses);
            assert(taken@ =~= old(self).publish_responses@);
            Some(taken)
        }
    }
}

impl Session {
    /// A session that has not ended and holds nothing.
    pub fn new() -> (r: Session)
        ensures
            !r.terminated,
            !r.terminate_session,
            r.publish_request_queue@ == Seq::<PublishRequestEntry>::empty(),
            r.subscriptions.publish_responses@ == Seq::<PublishResponseEntry>::empty(),
    {
        Session {
            terminated: false,
            terminate_session: false,
            publish_request_queue: Vec::new(),
            subscriptions: Subscriptions::new(),
        }
    }

    /// True once the session has ended.
    pub fn terminated(&self) -> (r: bool)
        ensures
            r == self.terminated,
    {
        self.terminated
    }

    /// Marks the session as ended. There is no way back.
    pub fn set_terminated(&mut self)
        ensures
            *final(self) == (Session { terminated: true, ..*old(self) }),
    {
        self.terminated = true;
    }

    /// Keeps a publish request until data is there for it or it goes stale.
    pub fn hold_publish_request(&mut self, entry: PublishRequestEntry)
        ensures
            *final(self) == (Session {
                publish_request_queue: final(self).publish_request_queue,
                ..*old(self)
            }),
            final(self).publish_request_queue@ == old(self).publish_request_queue@.push(entry),
    {
        self.publish_request_queue.push(entry);
    }

    /// Drops the publish requests that are stale at `now` and queues, for each,
    /// a fault that tells the client of the timeout. The requests that stay
    /// keep their order, and the faults follow the responses that wait already
    /// in the order of their requests.
    pub fn expire_stale_publish_requests(&mut self, now: i64)
        ensures
            final(self).terminated == old(self).terminated,
            final(self).terminate_session == old(self).terminate_session,
            final(self).publish_request_queue@ == spec_fresh(
                old(self).publish_request_queue@,
                now,
            ),
            response_views(final(self).subscriptions.publish_responses@) == response_views(
                old(self).subscriptions.publish_responses@,
            ) + spec_expired(old(self).publish_request_queue@, now),
    {
        let ghost queue = self.publish_request_queue@;
        let ghost waiting = response_views(self.subscriptions.publish_responses@);
        let ghost fresh = |e: PublishRequestEntry| !spec_is_stale(e, now);
        let ghost stale = |e: PublishRequestEntry| spec_is_stale(e, now);
        let ghost fault = |e: PublishRequestEntry| spec_timeout_fault(e, now);
        let mut kept: Vec<PublishRequestEntry> = Vec::new();
        let mut i: usize = 0;
        proof {
            reveal(Seq::filter);
            assert(queue.take(0).filter(fresh) =~= Seq::<PublishRequestEntry>::empty());
            assert(queue.take(0).filter(stale).map_values(fault) =~= Seq::<
                (u32, SupportedMessageView),
            >::empty());
            assert(waiting + Seq::<(u32, SupportedMessageView)>::empty() =~= waiting);
        }
        while i < self.publish_request_queue.len()
            invariant
                i <= queue.len(),
                self.publish_request_queue@ == queue,
                self.terminated == old(self).terminated,
                self.terminate_session == old(self).terminate_session,
                fresh == |e: PublishRequestEntry| !spec_is_stale(e, now),
                stale == |e: PublishRequestEntry| spec_is_stale(e, now),
                fault == |e: PublishRequestEntry| spec_timeout_fault(e, now),
                kept@ == queue.take(i as int).filter(fresh),
                response_views(self.subscriptions.publish_responses@) == waiting + queue.take(
                    i as int,
                ).filter(stale).map_values(fault),
            decreases queue.len() - i,
        {
            let entry = self.publish_request_queue[i];
            let ghost before = response_views(self.subscriptions.publish_responses@);
            proof {
                reveal(Seq::filter);
                assert(queue.take(i + 1).drop_last() =~= queue.take(i as int));
                assert(queue.take(i + 1).last() == entry);
            }
            if entry.expires_at < now {
                let response = SupportedMessage::service_fault_for_handle(
                    entry.request_handle,
                    date_time(now),
                    StatusCode::BadTimeout,
                );
                let answer = PublishResponseEntry { request_id: entry.request_id, response };
                self.subscriptions.publish_responses.push(answer);
                proof {
                    assert(response_views(self.subscriptions.publish_responses@) =~= before.push(
                        answer@,
                    ));
                    let old_stale = queue.take(i as int).filter(stale);
                    assert(queue.take(i + 1).filter(stale) == old_stale.push(entry));
                    assert(old_stale.push(entry).map_values(fault) =~= old_stale.map_values(
                        fault,
                    ).push(fault(entry)));
                    assert(before.push(answer@) =~= waiting + old_stale.map_values(fault).push(
                        fault(entry),
                    ));
                }
            } else {
                kept.push(entry);
            }
            i = i + 1;
        }
        proof {
            assert(queue.take(queue.len() as int) =~= queue);
        }
        self.publish_request_queue = kept;
    }
}

} // verus!
