use vstd::prelude::*;

verus! {

/// The live side of a streamed request: items wait in `items` until a
/// consumer attaches; after that each item goes straight to it.
pub enum RequestAsStream<T> {
    NotInitialized { items: Vec<T>, has_end_of_stream: bool },
    Initialized { sink_open: bool },
}

/// The input of a call that streams its requests: a vector known in full,
/// or items that a producer sends while the call runs.
pub enum StreamedRequestInner<T> {
    AsVec { items: Vec<T>, attached: bool },
    AsStream(RequestAsStream<T>),
}

/// A streamed request's state, with the items sent so far and those handed
/// to the consumer, in order.
pub struct StreamedRequestState<T> {
    inner: StreamedRequestInner<T>,
    sent: Ghost<Seq<T>>,
    handed: Ghost<Seq<T>>,
}

impl<T> StreamedRequestState<T> {
    /// The items the producer has sent, in order.
    pub closed spec fn sent(&self) -> Seq<T> {
        self.sent@
    }

    /// The items handed to the consumer, in order.
    pub closed spec fn handed(&self) -> Seq<T> {
        self.handed@
    }

    pub closed spec fn is_live(&self) -> bool {
        self.inner is AsStream
    }

    /// A consumer has attached.
    pub closed spec fn is_attached(&self) -> bool {
        match self.inner {
            StreamedRequestInner::AsVec { attached, .. } => attached,
            StreamedRequestInner::AsStream(RequestAsStream::Initialized { .. }) => true,
            _ => false,
        }
    }

    /// The producer has ended the stream.
    pub closed spec fn is_ended(&self) -> bool {
        match self.inner {
            StreamedRequestInner::AsVec { .. } => true,
            StreamedRequestInner::AsStream(RequestAsStream::NotInitialized {
                has_end_of_stream,
                ..
            }) => has_end_of_stream,
            StreamedRequestInner::AsStream(RequestAsStream::Initialized { sink_open }) => !sink_open,
        }
    }

    /// What the request is, in the terms of [`stream_step`].
    pub open spec fn model(&self) -> StreamModel<T> {
        StreamModel {
            live: self.is_live(),
            attached: self.is_attached(),
            ended: self.is_ended(),
            sent: self.sent(),
            handed: self.handed(),
        }
    }

    /// The items waiting for a consumer.
    pub closed spec fn buffered(&self) -> Seq<T> {
        match self.inner {
            StreamedRequestInner::AsStream(RequestAsStream::NotInitialized { items, .. }) => items@,
            _ => Seq::empty(),
        }
    }

    /// Before a consumer attaches every item sent waits, in order; after, every
    /// item sent has been handed over, in order.
    pub closed spec fn wf(&self) -> bool {
        match self.inner {
            StreamedRequestInner::AsVec { items, attached } => {
                &&& self.sent@ == items@
                &&& self.handed@ == if attached {
                    items@
                } else {
                    Seq::<T>::empty()
                }
            },
            StreamedRequestInner::AsStream(RequestAsStream::NotInitialized { items, .. }) => {
                &&& items@ == self.sent@
                &&& self.handed@ == Seq::<T>::empty()
            },
            StreamedRequestInner::AsStream(RequestAsStream::Initialized { .. }) => self.handed@
                == self.sent@,
        }
    }

    /// A request whose items are all known now.
    pub fn new_as_vec(data: Vec<T>) -> (r: Self)
        ensures
            r.wf(),
            !r.is_live(),
            r.sent() == data@,
    {
        let ghost items = data@;
        StreamedRequestState {
            inner: StreamedRequestInner::AsVec { items: data, attached: false },
            sent: Ghost(items),
            handed: Ghost(Seq::empty()),
        }
    }

    /// A request whose items a producer sends later.
    pub fn new_as_stream() -> (r: Self)
        ensures
            r.wf(),
            r.is_live(),
            !r.is_attached(),
            !r.is_ended(),
            r.sent() == Seq::<T>::empty(),
    {
        let r = StreamedRequestState {
            inner: StreamedRequestInner::AsStream(
                RequestAsStream::NotInitialized { items: Vec::new(), has_end_of_stream: false },
            ),
            sent: Ghost(Seq::empty()),
            handed: Ghost(Seq::empty()),
        };
        r
    }

    pub fn is_stream_mode(&self) -> (r: bool)
        ensures
            r == self.is_live(),
    {
        match &self.inner {
            StreamedRequestInner::AsStream(_) => true,
            StreamedRequestInner::AsVec { .. } => false,
        }
    }

    pub fn has_consumer(&self) -> (r: bool)
        ensures
            r == self.is_attached(),
    {
        match &self.inner {
            StreamedRequestInner::AsVec { attached, .. } => *attached,
            StreamedRequestInner::AsStream(RequestAsStream::Initialized { .. }) => true,
            _ => false,
        }
    }

    pub fn has_ended(&self) -> (r: bool)
        ensures
            r == self.is_ended(),
    {
        match &self.inner {
            StreamedRequestInner::AsVec { .. } => true,
            StreamedRequestInner::AsStream(
                RequestAsStream::NotInitialized { has_end_of_stream, .. },
            ) => *has_end_of_stream,
            StreamedRequestInner::AsStream(RequestAsStream::Initialized { sink_open }) => !*sink_open,
        }
    }

    /// The items of a request known in full.
    pub fn as_vec(&self) -> (r: Option<&Vec<T>>)
        requires
            self.wf(),
        ensures
            r is Some <==> !self.is_live(),
            r matches Some(v) ==> v@ == self.sent(),
    {
        match &self.inner {
            StreamedRequestInner::AsVec { items, .. } => Some(items),
            StreamedRequestInner::AsStream(_) => None,
        }
    }

    /// Sends an item: it waits where no consumer is attached, else it is
    /// returned to be handed to the consumer now.
    pub fn send(&mut self, item: T) -> (r: Option<T>)
        requires
            old(self).wf(),
            old(self).is_live(),
            !old(self).is_ended(),
        ensures
            final(self).wf(),
            final(self).is_live(),
            !final(self).is_ended(),
            final(self).is_attached() == old(self).is_attached(),
            final(self).sent() == old(self).sent().push(item),
            old(self).is_attached() ==> r == Some(item) && final(self).handed() == old(
                self,
            ).handed().push(item),
            !old(self).is_attached() ==> r is None && final(self).handed() == old(self).handed(),
            final(self).model() == stream_step(old(self).model(), StreamOp::Send(item)),
    {
        proof {
            self.sent@ = self.sent@.push(item);
        }
        match &mut self.inner {
            StreamedRequestInner::AsVec { .. } => None,
            StreamedRequestInner::AsStream(RequestAsStream::NotInitialized { items, .. }) => {
                items.push(item);
                None
            },
            StreamedRequestInner::AsStream(RequestAsStream::Initialized { .. }) => {
                proof {
                    self.handed@ = self.handed@.push(item);
                }
                Some(item)
            },
        }
    }

    /// Attaches the consumer: returns the items that waited, to be handed to
    /// it first, in order. Whether the consumer's sink stays open is
    /// `!is_ended()`.
    pub fn set_sender(&mut self) -> (r: Vec<T>)
        requires
            old(self).wf(),
            old(self).is_live(),
            !old(self).is_attached(),
        ensures
            final(self).wf(),
            final(self).is_live(),
            final(self).is_attached(),
            final(self).is_ended() == old(self).is_ended(),
            final(self).sent() == old(self).sent(),
            r@ == old(self).sent(),
            final(self).handed() == old(self).sent(),
            final(self).model() == stream_step(old(self).model(), StreamOp::Attach),
    {
        let mut inner = StreamedRequestInner::AsVec { items: Vec::new(), attached: false };
        core::mem::swap(&mut inner, &mut self.inner);
        match inner {
            StreamedRequestInner::AsStream(
                RequestAsStream::NotInitialized { items, has_end_of_stream },
            ) => {
                self.inner = StreamedRequestInner::AsStream(
                    RequestAsStream::Initialized { sink_open: !has_end_of_stream },
                );
                proof {
                    self.handed@ = self.sent@;
                }
                items
            },
            other => {
                self.inner = other;
                Vec::new()
            },
        }
    }

    /// Attaches the consumer of a request known in full; its items are
    /// those of `as_vec`, all handed over at once.
    pub fn attach_materialized(&mut self)
        requires
            old(self).wf(),
            !old(self).is_live(),
            !old(self).is_attached(),
        ensures
            final(self).wf(),
            final(self).model() == stream_step(old(self).model(), StreamOp::Attach),
    {
        match &mut self.inner {
            StreamedRequestInner::AsVec { attached, .. } => {
                *attached = true;
                proof {
                    self.handed@ = self.sent@;
                }
            },
            StreamedRequestInner::AsStream(_) => {},
        }
    }

    /// Ends the stream. Returns whether an attached consumer's sink is to be
    /// closed now.
    pub fn send_eof(&mut self) -> (r: bool)
        requires
            old(self).wf(),
        ensures
            final(self).wf(),
            final(self).is_ended(),
            final(self).is_live() == old(self).is_live(),
            final(self).is_attached() == old(self).is_attached(),
            final(self).sent() == old(self).sent(),
            final(self).handed() == old(self).handed(),
            final(self).buffered() == old(self).buffered(),
            r == (old(self).is_attached() && !old(self).is_ended()),
            final(self).model() == stream_step(old(self).model(), StreamOp::<T>::Eof),
    {
        match &mut self.inner {
            StreamedRequestInner::AsVec { .. } => false,
            StreamedRequestInner::AsStream(
                RequestAsStream::NotInitialized { has_end_of_stream, .. },
            ) => {
                *has_end_of_stream = true;
                false
            },
            StreamedRequestInner::AsStream(RequestAsStream::Initialized { sink_open }) => {
                let was_open = *sink_open;
                *sink_open = false;
                was_open
            },
        }
    }
}

/// A streamed request as seen from outside: its mode, whether a consumer
/// has attached, whether it has ended, what was sent and what was handed to
/// the consumer.
pub struct StreamModel<T> {
    pub live: bool,
    pub attached: bool,
    pub ended: bool,
    pub sent: Seq<T>,
    pub handed: Seq<T>,
}

/// What can be done to a streamed request.
pub enum StreamOp<T> {
    Send(T),
    Attach,
    Eof,
}

/// The effect of one operation: a sent item is handed over at once where a
/// consumer is attached; attaching hands over all that was sent; ending
/// marks the end.
pub open spec fn stream_step<T>(m: StreamModel<T>, op: StreamOp<T>) -> StreamModel<T> {
    match op {
        StreamOp::Send(x) => StreamModel {
            sent: m.sent.push(x),
            handed: if m.attached {
                m.handed.push(x)
            } else {
                m.handed
            },
            ..m
        },
        StreamOp::Attach => StreamModel { attached: true, handed: m.sent, ..m },
        StreamOp::Eof => StreamModel { ended: true, ..m },
    }
}

/// Which operations the request accepts: items are sent only to a live
/// request that has not ended, and a consumer attaches once.
pub open spec fn op_allowed<T>(m: StreamModel<T>, op: StreamOp<T>) -> bool {
    match op {
        StreamOp::Send(_) => m.live && !m.ended,
        StreamOp::Attach => !m.attached,
        StreamOp::Eof => true,
    }
}

/// The request after the given operations, in order.
pub open spec fn run_ops<T>(m: StreamModel<T>, ops: Seq<StreamOp<T>>) -> StreamModel<T>
    decreases ops.len(),
{
    if ops.len() == 0 {
        m
    } else {
        stream_step(run_ops(m, ops.drop_last()), ops.last())
    }
}

/// Each operation is accepted where it comes.
pub open spec fn ops_allowed<T>(m: StreamModel<T>, ops: Seq<StreamOp<T>>) -> bool
    decreases ops.len(),
{
    if ops.len() == 0 {
        true
    } else {
        ops_allowed(m, ops.drop_last()) && op_allowed(run_ops(m, ops.drop_last()), ops.last())
    }
}

/// Until a consumer attaches nothing is handed over; after, all that was
/// sent has been, in order.
pub open spec fn handed_in_order<T>(m: StreamModel<T>) -> bool {
    if m.attached {
        m.handed == m.sent
    } else {
        m.handed == Seq::<T>::empty()
    }
}

proof fn lemma_run_keeps_order<T>(m: StreamModel<T>, ops: Seq<StreamOp<T>>)
    requires
        handed_in_order(m),
        ops_allowed(m, ops),
    ensures
        handed_in_order(run_ops(m, ops)),
    decreases ops.len(),
{
    if ops.len() > 0 {
        lemma_run_keeps_order(m, ops.drop_last());
    }
}

proof fn lemma_nothing_sent_after_eof<T>(m: StreamModel<T>, ops: Seq<StreamOp<T>>, k: int)
    requires
        ops_allowed(m, ops),
        0 <= k < ops.len(),
        ops[k] is Eof,
    ensures
        run_ops(m, ops).ended,
        run_ops(m, ops).sent == run_ops(m, ops.take(k + 1)).sent,
    decreases ops.len(),
{
    if k == ops.len() - 1 {
        assert(ops.take(k + 1) =~= ops);
    } else {
        let front = ops.drop_last();
        lemma_nothing_sent_after_eof(m, front, k);
        assert(front.take(k + 1) =~= ops.take(k + 1));
        assert(front[k] == ops[k]);
    }
}

/// Whatever operations a request accepts, its consumer sees the items in
/// the order they were sent, none lost: nothing is handed over before it
/// attaches, and from then on what it was handed is all that was sent. Once
/// the stream has ended no item is sent, so none reaches the consumer after
/// the end.
pub proof fn lemma_consumer_sees_send_order<T>(m: StreamModel<T>, ops: Seq<StreamOp<T>>, k: int)
    requires
        handed_in_order(m),
        ops_allowed(m, ops),
    ensures
        handed_in_order(run_ops(m, ops)),
        0 <= k < ops.len() && ops[k] is Eof ==> run_ops(m, ops).sent == run_ops(
            m,
            ops.take(k + 1),
        ).sent,
{
    lemma_run_keeps_order(m, ops);
    if 0 <= k < ops.len() && ops[k] is Eof {
        lemma_nothing_sent_after_eof(m, ops, k);
    }
}

/// A well-formed request's handed items are in order.
pub proof fn lemma_state_in_order<T>(s: StreamedRequestState<T>)
    requires
        s.wf(),
    ensures
        handed_in_order(s.model()),
{
}

} // verus!
