use vstd::prelude::*;

verus! {

/// The status codes of gRPC.
#[derive(Debug, Clone, Copy, PartialEq, Eq, Structural)]
pub enum StatusCode {
    Success,
    Cancelled,
    Unknown,
    InvalidArgument,
    DeadlineExceeded,
    NotFound,
    AlreadyExists,
    PermissionDenied,
    ResourceExhausted,
    FailedPrecondition,
    Aborted,
    OutOfRange,
    Unimplemented,
    Internal,
    Unavailable,
    DataLoss,
    Unauthenticated,
}

/// A status that a call ended with.
#[derive(Debug)]
pub struct GrpcStatus {
    pub code: StatusCode,
    pub message: String,
}

/// Why a call failed.
#[derive(Debug)]
pub enum GrpcReadError {
    Timeout,
    TransportError(String),
    TonicStatus(GrpcStatus),
}

/// Only `Unknown` says that the channel itself is dead.
pub open spec fn is_channel_death(err: &GrpcReadError) -> bool {
    err matches GrpcReadError::TonicStatus(s) && s.code == StatusCode::Unknown
}

/// The channel that is current, with the host it was made to and the
/// service it serves.
pub struct ChannelData<C> {
    pub channel: C,
    pub host: String,
    pub service_name: &'static str,
}

/// Holds at most one live channel.
pub struct GrpcChannelHolder<C> {
    channel: Option<ChannelData<C>>,
}

impl<C> GrpcChannelHolder<C> {
    /// The channel held, if any.
    pub closed spec fn current(&self) -> Option<ChannelData<C>> {
        self.channel
    }

    pub fn new() -> (r: Self)
        ensures
            r.current() is None,
    {
        GrpcChannelHolder { channel: None }
    }

    /// Makes `channel` the current one; one held before is let go.
    pub fn set(&mut self, service_name: &'static str, host: String, channel: C)
        ensures
            final(self).current() == Some(ChannelData { channel, host, service_name }),
            final(self).current() == holder_step(
                old(self).current(),
                HolderOp::Publish(ChannelData { channel, host, service_name }),
            ),
    {
        self.channel = Some(ChannelData { channel, host, service_name });
    }

    /// The current channel, if any.
    pub fn get(&self) -> (r: Option<&C>)
        ensures
            r is None <==> self.current() is None,
            r matches Some(c) ==> *c == self.current().unwrap().channel,
    {
        match &self.channel {
            Some(data) => Some(&data.channel),
            None => None,
        }
    }

    /// Lets the current channel go; returns it, with its host and service,
    /// where there was one.
    pub fn drop_channel(&mut self) -> (r: Option<ChannelData<C>>)
        ensures
            final(self).current() is None,
            final(self).current() == holder_step(old(self).current(), HolderOp::<C>::Drop),
            r == old(self).current(),
    {
        self.channel.take()
    }

    /// Lets the channel go where `err` says that it is dead; says whether it
    /// did.
    pub fn drop_channel_if_needed(&mut self, err: &GrpcReadError) -> (r: bool)
        ensures
            r == is_channel_death(err),
            r ==> final(self).current() is None,
            !r ==> final(self).current() == old(self).current(),
    {
        let remove = match err {
            GrpcReadError::TonicStatus(status) => status.code == StatusCode::Unknown,
            _ => false,
        };
        if remove {
            self.channel = None;
        }
        remove
    }
}

/// A change made to a holder: a channel set, or the channel let go.
pub enum HolderOp<C> {
    Publish(ChannelData<C>),
    Drop,
}

/// The holder's channel after one change.
pub open spec fn holder_step<C>(current: Option<ChannelData<C>>, op: HolderOp<C>) -> Option<
    ChannelData<C>,
> {
    match op {
        HolderOp::Publish(data) => Some(data),
        HolderOp::Drop => None,
    }
}

/// The holder's channel after a run of changes, in order.
pub open spec fn holder_run<C>(start: Option<ChannelData<C>>, ops: Seq<HolderOp<C>>) -> Option<
    ChannelData<C>,
>
    decreases ops.len(),
{
    if ops.len() == 0 {
        start
    } else {
        holder_step(holder_run(start, ops.drop_last()), ops.last())
    }
}

/// Whatever the run of changes, a holder holds at most one channel: the one
/// set by the last change where that change set one, none where it let the
/// channel go, and the one it started with where nothing changed.
pub proof fn lemma_holder_holds_last_set<C>(start: Option<ChannelData<C>>, ops: Seq<HolderOp<C>>)
    ensures
        ops.len() == 0 ==> holder_run(start, ops) == start,
        ops.len() > 0 ==> match ops.last() {
            HolderOp::Publish(data) => holder_run(start, ops) == Some(data),
            HolderOp::Drop => holder_run(start, ops) is None,
        },
{
}

/// How the execution of a call under its timeout ended.
pub enum ExecutionOutcome<T> {
    TimedOut,
    Finished(Result<T, GrpcStatus>),
}

/// What a call returns, given how its execution ended; the holder lets the
/// channel go on a timeout and on a status `Unknown`, and keeps it otherwise.
pub fn complete_request<C, T>(
    holder: &mut GrpcChannelHolder<C>,
    outcome: ExecutionOutcome<T>,
) -> (r: Result<T, GrpcReadError>)
    ensures
        outcome is TimedOut ==> r matches Err(GrpcReadError::Timeout),
        outcome is TimedOut ==> final(holder).current() is None,
        outcome matches ExecutionOutcome::Finished(Ok(v)) ==> r == Ok::<T, GrpcReadError>(v),
        outcome matches ExecutionOutcome::Finished(Ok(_)) ==> final(holder).current() == old(holder).current(),
        outcome matches ExecutionOutcome::Finished(Err(s)) ==> r == Err::<T, GrpcReadError>(
            GrpcReadError::TonicStatus(s),
        ),
        outcome matches ExecutionOutcome::Finished(Err(s)) ==> (s.code == StatusCode::Unknown
            ==> final(holder).current() is None),
        outcome matches ExecutionOutcome::Finished(Err(s)) ==> (s.code != StatusCode::Unknown
            ==> final(holder).current() == old(holder).current()),
{
    match outcome {
        ExecutionOutcome::TimedOut => {
            let _ = holder.drop_channel();
            Err(GrpcReadError::Timeout)
        },
        ExecutionOutcome::Finished(Ok(v)) => Ok(v),
        ExecutionOutcome::Finished(Err(status)) => {
            let err = GrpcReadError::TonicStatus(status);
            let _ = holder.drop_channel_if_needed(&err);
            Err(err)
        },
    }
}

/// How a health ping ended, where it ran.
pub enum PingResult {
    Success,
    Timeout,
}

/// How the task that ran a health ping ended.
pub enum PingOutcome {
    Finished(PingResult),
    Panicked,
}

/// Applies the end of a health ping to the holder: a ping that succeeded
/// leaves it as it is; one that timed out or panicked lets the channel go.
/// Returns the reason where the channel was let go.
pub fn apply_ping_outcome<C>(holder: &mut GrpcChannelHolder<C>, outcome: PingOutcome) -> (r:
    Option<&'static str>)
    ensures
        outcome matches PingOutcome::Finished(PingResult::Success) ==> r is None,
        outcome matches PingOutcome::Finished(PingResult::Success) ==> final(holder).current()
            == old(holder).current(),
        outcome matches PingOutcome::Finished(PingResult::Timeout) ==> (r matches Some(reason)
            && reason@ == "Ping Timeout"@),
        outcome is Panicked ==> (r matches Some(reason) && reason@ == "Ping Panic"@),
        !(outcome matches PingOutcome::Finished(PingResult::Success)) ==> final(holder).current() is None,
{
    match outcome {
        PingOutcome::Finished(PingResult::Success) => None,
        PingOutcome::Finished(PingResult::Timeout) => {
            let _ = holder.drop_channel();
            Some("Ping Timeout")
        },
        PingOutcome::Panicked => {
            let _ = holder.drop_channel();
            Some("Ping Panic")
        },
    }
}

} // verus!
