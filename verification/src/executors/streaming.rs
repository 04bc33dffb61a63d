//! The streaming half of the engine: bounded per-stream buffers, the routing
//! of telemetry messages into them, the lifecycle of a streaming session and
//! the status of its worker processes.

use vstd::prelude::*;
use crate::text::same_text;
use crate::text_map::TextMap;

verus! {

/// How many points the flight stream keeps.
pub const MAX_FLIGHT_STREAM_POINTS: usize = 10_000;

/// How many points a scalar stream keeps.
pub const MAX_CHANNEL_STREAM_POINTS: usize = 100;

/// One buffered data point. Each coordinate is the bit pattern of an IEEE 754
/// double: points are stored and handed on, never computed with.
#[derive(Clone, Copy, Debug, PartialEq, Eq)]
pub enum StreamPoint {
    /// A scalar sample: `[x, y]`.
    Plot2D([u64; 2]),
    /// A flight sample: `[lat, lon, alt, pitch, roll, yaw]`.
    FlightData([u64; 6]),
}

impl StreamPoint {
    /// The two coordinates to plot: a scalar sample's own, a flight sample's
    /// latitude and longitude.
    pub fn as_plot2d(&self) -> (r: Option<[u64; 2]>)
        ensures
            r == Some(
                match *self {
                    StreamPoint::Plot2D(coords) => coords,
                    StreamPoint::FlightData(data) => [data[0], data[1]],
                },
            ),
    {
        match self {
            StreamPoint::Plot2D(coords) => Some(*coords),
            StreamPoint::FlightData(data) => Some([data[0], data[1]]),
        }
    }

    /// All six values of a flight sample; `None` for a scalar sample.
    pub fn as_flight_data(&self) -> (r: Option<[u64; 6]>)
        ensures
            r == match *self {
                StreamPoint::FlightData(data) => Some(data),
                StreamPoint::Plot2D(_) => None,
            },
    {
        match self {
            StreamPoint::FlightData(data) => Some(*data),
            _ => None,
        }
    }
}

/// The lifecycle state of one worker process.
#[derive(Clone, Copy, Debug, PartialEq, Eq, Structural)]
pub enum ProcessStatus {
    /// Still alive at the last poll.
    Running,
    /// Exited unsuccessfully, with its exit code where there was one; or the
    /// poll itself failed (`None`).
    Failed(Option<i32>),
    /// Exited successfully of its own accord.
    Finished,
    /// Killed by the engine, or not polled yet.
    Stopped,
}

/// What one non-blocking wait on a worker process gave.
#[derive(Clone, Copy, Debug, PartialEq, Eq, Structural)]
pub enum WaitOutcome {
    /// The process has exited.
    Exited { success: bool, code: Option<i32> },
    /// The process is still alive.
    StillRunning,
    /// The wait call itself failed.
    WaitFailed,
}

/// The status that a wait outcome stands for.
pub open spec fn status_of(outcome: WaitOutcome) -> ProcessStatus {
    match outcome {
        WaitOutcome::Exited { success, code } => if success {
            ProcessStatus::Finished
        } else {
            ProcessStatus::Failed(code)
        },
        WaitOutcome::StillRunning => ProcessStatus::Running,
        WaitOutcome::WaitFailed => ProcessStatus::Failed(None),
    }
}

/// Classifies one wait outcome.
pub fn classify_wait(outcome: WaitOutcome) -> (status: ProcessStatus)
    ensures
        status == status_of(outcome),
{
    match outcome {
        WaitOutcome::Exited { success, code } => if success {
            ProcessStatus::Finished
        } else {
            ProcessStatus::Failed(code)
        },
        WaitOutcome::StillRunning => ProcessStatus::Running,
        WaitOutcome::WaitFailed => ProcessStatus::Failed(None),
    }
}

/// One telemetry message as it came off the wire. Numbers are bit patterns of
/// doubles; a field that the message left out is zero.
#[derive(Clone, Debug, PartialEq, Eq)]
pub struct StreamData {
    pub stream_id: String,
    pub timestamp: u64,
    pub value: u64,
    pub rel_lat: u64,
    pub rel_lon: u64,
    pub altitude: u64,
    pub pitch: u64,
    pub roll: u64,
    pub yaw: u64,
}

/// A telemetry message as a mathematical value.
pub struct StreamDataView {
    pub stream_id: Seq<char>,
    pub timestamp: u64,
    pub value: u64,
    pub rel_lat: u64,
    pub rel_lon: u64,
    pub altitude: u64,
    pub pitch: u64,
    pub roll: u64,
    pub yaw: u64,
}

impl View for StreamData {
    type V = StreamDataView;

    open spec fn view(&self) -> StreamDataView {
        StreamDataView {
            stream_id: self.stream_id@,
            timestamp: self.timestamp,
            value: self.value,
            rel_lat: self.rel_lat,
            rel_lon: self.rel_lon,
            altitude: self.altitude,
            pitch: self.pitch,
            roll: self.roll,
            yaw: self.yaw,
        }
    }
}

/// `buffer` after `item` arrived, for a buffer that keeps at most `capacity`
/// items: the item goes to the end, and where that makes the buffer too long
/// the oldest item leaves.
pub open spec fn pushed<T>(buffer: Seq<T>, capacity: nat, item: T) -> Seq<T> {
    let longer = buffer.push(item);
    if longer.len() > capacity {
        longer.drop_first()
    } else {
        longer
    }
}

/// `buffer` after `items` arrived one after the other.
pub open spec fn pushed_all<T>(buffer: Seq<T>, capacity: nat, items: Seq<T>) -> Seq<T>
    decreases items.len(),
{
    if items.len() == 0 {
        buffer
    } else {
        pushed(pushed_all(buffer, capacity, items.drop_last()), capacity, items.last())
    }
}

/// The newest `capacity` items of `items`, oldest first; all of them where
/// there are no more than that.
pub open spec fn newest<T>(items: Seq<T>, capacity: nat) -> Seq<T> {
    if items.len() > capacity {
        items.subrange(items.len() - capacity, items.len() as int)
    } else {
        items
    }
}

/// Whatever arrives, a buffer never holds more than its capacity, and what it
/// holds is the newest part of everything that ever arrived, in arrival
/// order: eviction always takes the oldest item.
pub proof fn lemma_buffer_keeps_newest<T>(buffer: Seq<T>, capacity: nat, items: Seq<T>)
    requires
        capacity > 0,
        buffer.len() <= capacity,
    ensures
        pushed_all(buffer, capacity, items).len() <= capacity,
        pushed_all(buffer, capacity, items) == newest(buffer + items, capacity),
    decreases items.len(),
{
    if items.len() == 0 {
        assert(buffer + items =~= buffer);
    } else {
        let front = items.drop_last();
        lemma_buffer_keeps_newest(buffer, capacity, front);
        let before = pushed_all(buffer, capacity, front);
        assert((buffer + front).push(items.last()) =~= buffer + items);
        assert(pushed(before, capacity, items.last()) =~= newest(buffer + items, capacity));
    }
}

/// The identifier of the flight stream.
pub open spec fn flight_stream_id() -> Seq<char> {
    "flight_position"@
}

/// The scalar stream that a manager recognises when it is told of no other.
pub open spec fn default_scalar_stream_id() -> Seq<char> {
    "single_scalar_channel"@
}

/// How many points the stream `stream_id` keeps.
pub open spec fn capacity_of(stream_id: Seq<char>) -> nat {
    if stream_id == flight_stream_id() {
        MAX_FLIGHT_STREAM_POINTS as nat
    } else {
        MAX_CHANNEL_STREAM_POINTS as nat
    }
}

/// The flight sample that a message carries.
pub open spec fn flight_point(data: StreamDataView) -> StreamPoint {
    StreamPoint::FlightData(
        [data.rel_lat, data.rel_lon, data.altitude, data.pitch, data.roll, data.yaw],
    )
}

/// The scalar sample that a message carries.
pub open spec fn scalar_point(data: StreamDataView) -> StreamPoint {
    StreamPoint::Plot2D([data.timestamp, data.value])
}

/// The point that a message adds to the stream it names: a flight sample for
/// the flight stream, a scalar sample for a recognised scalar stream, and
/// nothing for any other identifier.
pub open spec fn routed_point(scalar_ids: Seq<Seq<char>>, data: StreamDataView) -> Option<
    StreamPoint,
> {
    if data.stream_id == flight_stream_id() {
        Some(flight_point(data))
    } else if scalar_ids.contains(data.stream_id) {
        Some(scalar_point(data))
    } else {
        None
    }
}

/// What the stream `stream_id` holds; nothing where there is no such stream.
pub open spec fn bucket(streams: Map<Seq<char>, Seq<StreamPoint>>, stream_id: Seq<char>) -> Seq<
    StreamPoint,
> {
    if streams.contains_key(stream_id) {
        streams[stream_id]
    } else {
        Seq::empty()
    }
}

/// The buffers after one message was routed.
pub open spec fn routed_streams(
    streams: Map<Seq<char>, Seq<StreamPoint>>,
    scalar_ids: Seq<Seq<char>>,
    data: StreamDataView,
) -> Map<Seq<char>, Seq<StreamPoint>> {
    match routed_point(scalar_ids, data) {
        Some(point) => streams.insert(
            data.stream_id,
            pushed(bucket(streams, data.stream_id), capacity_of(data.stream_id), point),
        ),
        None => streams,
    }
}

/// Whether `point` is of the kind that the stream `stream_id` holds.
pub open spec fn kind_fits(stream_id: Seq<char>, point: StreamPoint) -> bool {
    if stream_id == flight_stream_id() {
        point is FlightData
    } else {
        point is Plot2D
    }
}

/// The invariant of the buffers: every stream holds at least one point and
/// at most its capacity, all of its own kind.
pub open spec fn bounded(streams: Map<Seq<char>, Seq<StreamPoint>>) -> bool {
    forall|stream_id: Seq<char>| #[trigger]
        streams.contains_key(stream_id) ==> {
            &&& 0 < streams[stream_id].len() <= capacity_of(stream_id)
            &&& forall|i: int|
                0 <= i < streams[stream_id].len() ==> kind_fits(
                    stream_id,
                    #[trigger] streams[stream_id][i],
                )
        }
}

/// Routing a message keeps the invariant of the buffers: no stream ever
/// exceeds its capacity.
pub proof fn lemma_routing_keeps_bounds(
    streams: Map<Seq<char>, Seq<StreamPoint>>,
    scalar_ids: Seq<Seq<char>>,
    data: StreamDataView,
)
    requires
        bounded(streams),
    ensures
        bounded(routed_streams(streams, scalar_ids, data)),
{
    let after = routed_streams(streams, scalar_ids, data);
    if let Some(point) = routed_point(scalar_ids, data) {
        let id = data.stream_id;
        let before = bucket(streams, id);
        let now = pushed(before, capacity_of(id), point);
        assert(kind_fits(id, point));
        assert forall|i: int| 0 <= i < now.len() implies kind_fits(id, #[trigger] now[i]) by {
            let longer = before.push(point);
            let k = if longer.len() > capacity_of(id) { i + 1 } else { i };
            assert(now[i] == longer[k]);
            if k < before.len() {
                assert(streams.contains_key(id));
                assert(kind_fits(id, streams[id][k]));
            }
        }
        assert forall|stream_id: Seq<char>| #[trigger]
            after.contains_key(stream_id) implies {
            &&& 0 < after[stream_id].len() <= capacity_of(stream_id)
            &&& forall|i: int|
                0 <= i < after[stream_id].len() ==> kind_fits(
                    stream_id,
                    #[trigger] after[stream_id][i],
                )
        } by {
            if stream_id != id {
                assert(streams.contains_key(stream_id));
            }
        }
    }
}

/// The state of a stream manager as a mathematical value.
pub struct ManagerView {
    /// The buffers, by stream identifier, oldest point first.
    pub streams: Map<Seq<char>, Seq<StreamPoint>>,
    /// Whether a streaming session is on.
    pub running: bool,
    /// How many worker handles the caller holds for this session.
    pub workers: nat,
    /// One status per worker registered since the last start, in order.
    pub statuses: Seq<ProcessStatus>,
    /// The scalar streams that are buffered.
    pub scalar_ids: Seq<Seq<char>>,
    /// Whether the manager was made with debugging on.
    pub debug: bool,
    /// The sending end that the manager keeps of its hand-off channel.
    pub handoff: crossbeam_channel::Sender<StreamData>,
}

/// The state after `start`: no worker, no status, no buffered point, and the
/// session is on. Starting a running session restarts it.
pub open spec fn started(state: ManagerView) -> ManagerView {
    ManagerView {
        streams: Map::empty(),
        running: true,
        workers: 0,
        statuses: Seq::empty(),
        ..state
    }
}

/// The state after `stop`: the session is off, every worker is given up and
/// marked stopped, and no point is buffered.
pub open spec fn stopped(state: ManagerView) -> ManagerView {
    ManagerView {
        streams: Map::empty(),
        running: false,
        workers: 0,
        statuses: Seq::new(state.statuses.len(), |i: int| ProcessStatus::Stopped),
        ..state
    }
}

/// The state after one more worker was registered.
pub open spec fn registered(state: ManagerView) -> ManagerView {
    ManagerView {
        workers: state.workers + 1,
        statuses: state.statuses.push(ProcessStatus::Stopped),
        ..state
    }
}

/// The state after one message was routed.
pub open spec fn routed(state: ManagerView, data: StreamDataView) -> ManagerView {
    ManagerView { streams: routed_streams(state.streams, state.scalar_ids, data), ..state }
}

/// The state after the messages of `batch` were routed in order.
pub open spec fn routed_all(state: ManagerView, batch: Seq<StreamDataView>) -> ManagerView
    decreases batch.len(),
{
    if batch.len() == 0 {
        state
    } else {
        routed(routed_all(state, batch.drop_last()), batch.last())
    }
}

/// The state after a poll in which the workers, in order, gave
/// `outcomes`: each worker that has an outcome and a status gets the status
/// that its outcome stands for. Nothing is added, removed or reordered.
pub open spec fn polled(state: ManagerView, outcomes: Seq<WaitOutcome>) -> ManagerView {
    ManagerView {
        statuses: Seq::new(
            state.statuses.len(),
            |i: int|
                if i < state.workers && i < outcomes.len() {
                    status_of(outcomes[i])
                } else {
                    state.statuses[i]
                },
        ),
        ..state
    }
}

/// Whatever batch of messages is routed, the invariant of the buffers holds
/// afterwards: no stream exceeds its capacity.
pub proof fn lemma_routing_all_keeps_bounds(state: ManagerView, batch: Seq<StreamDataView>)
    requires
        bounded(state.streams),
    ensures
        bounded(routed_all(state, batch).streams),
        routed_all(state, batch).scalar_ids == state.scalar_ids,
    decreases batch.len(),
{
    if batch.len() > 0 {
        lemma_routing_all_keeps_bounds(state, batch.drop_last());
        let before = routed_all(state, batch.drop_last());
        lemma_routing_keeps_bounds(before.streams, before.scalar_ids, batch.last());
    }
}

/// Stopping and then starting leaves no buffered point and no process
/// status, whatever the state was before.
pub proof fn lemma_stop_then_start_resets(state: ManagerView)
    ensures
        started(stopped(state)).streams == Map::<Seq<char>, Seq<StreamPoint>>::empty(),
        started(stopped(state)).statuses == Seq::<ProcessStatus>::empty(),
        started(stopped(state)).workers == 0,
        started(stopped(state)).running,
{
}

/// The scalar samples of a batch of messages, in order.
pub open spec fn scalar_points(batch: Seq<StreamDataView>) -> Seq<StreamPoint> {
    Seq::new(batch.len(), |i: int| scalar_point(batch[i]))
}

/// Routing a batch of messages that all name one recognised scalar stream
/// pushes their samples, in order, into that stream's buffer.
pub proof fn lemma_scalar_batch_is_pushed(
    state: ManagerView,
    stream_id: Seq<char>,
    batch: Seq<StreamDataView>,
)
    requires
        stream_id != flight_stream_id(),
        state.scalar_ids.contains(stream_id),
        forall|i: int| 0 <= i < batch.len() ==> (#[trigger] batch[i]).stream_id == stream_id,
    ensures
        bucket(routed_all(state, batch).streams, stream_id) == pushed_all(
            bucket(state.streams, stream_id),
            MAX_CHANNEL_STREAM_POINTS as nat,
            scalar_points(batch),
        ),
        routed_all(state, batch).scalar_ids == state.scalar_ids,
    decreases batch.len(),
{
    if batch.len() > 0 {
        let front = batch.drop_last();
        lemma_scalar_batch_is_pushed(state, stream_id, front);
        assert(scalar_points(batch).drop_last() =~= scalar_points(front));
        assert(scalar_points(batch).last() == scalar_point(batch.last()));
        assert(batch.last().stream_id == stream_id);
    }
}

/// After more than a hundred messages for one recognised scalar stream, the
/// stream's buffer holds exactly the hundred most recent samples, oldest
/// first.
pub proof fn lemma_scalar_stream_keeps_newest(
    state: ManagerView,
    stream_id: Seq<char>,
    batch: Seq<StreamDataView>,
)
    requires
        bounded(state.streams),
        stream_id != flight_stream_id(),
        state.scalar_ids.contains(stream_id),
        forall|i: int| 0 <= i < batch.len() ==> (#[trigger] batch[i]).stream_id == stream_id,
        batch.len() > MAX_CHANNEL_STREAM_POINTS,
    ensures
        routed_all(state, batch).streams.contains_key(stream_id),
        routed_all(state, batch).streams[stream_id] == scalar_points(batch).subrange(
            batch.len() - MAX_CHANNEL_STREAM_POINTS,
            batch.len() as int,
        ),
{
    let capacity = MAX_CHANNEL_STREAM_POINTS as nat;
    let before = bucket(state.streams, stream_id);
    let points = scalar_points(batch);
    lemma_scalar_batch_is_pushed(state, stream_id, batch);
    lemma_buffer_keeps_newest(before, capacity, points);
    assert(newest(before + points, capacity) =~= points.subrange(
        batch.len() - capacity,
        batch.len() as int,
    ));
    assert(bucket(routed_all(state, batch).streams, stream_id).len() > 0);
}

/// `crossbeam_channel::Sender`: the sending end of a channel, opaque here.
#[verifier::external_type_specification]
#[verifier::external_body]
#[verifier::reject_recursive_types(T)]
pub struct ExSender<T>(crossbeam_channel::Sender<T>);

/// `crossbeam_channel::Receiver`: the receiving end of a channel, opaque here.
#[verifier::external_type_specification]
#[verifier::external_body]
#[verifier::reject_recursive_types(T)]
pub struct ExReceiver<T>(crossbeam_channel::Receiver<T>);

/// `crossbeam_channel::bounded`: the two ends of a new channel that holds at
/// most `capacity` messages. The call panics on a capacity too large to
/// allocate, which the bound leaves out.
#[verifier::external_body]
fn open_channel(capacity: usize) -> (ends: (
    crossbeam_channel::Sender<StreamData>,
    crossbeam_channel::Receiver<StreamData>,
))
    requires
        capacity <= MAX_FLIGHT_STREAM_POINTS,
{
    crossbeam_channel::bounded(capacity)
}

/// `Receiver::try_recv`: the next queued message, or `None` where none is
/// queued or every sender is gone. It never blocks. What it returns depends
/// on what other threads have sent, so nothing is promised of it.
#[verifier::external_body]
fn try_receive(receiver: &crossbeam_channel::Receiver<StreamData>) -> (r: Option<StreamData>) {
    receiver.try_recv().ok()
}

/// What `Sender::same_channel` returns for two sending ends: whether they
/// belong to one channel.
pub uninterp spec fn same_channel(
    one: crossbeam_channel::Sender<StreamData>,
    other: crossbeam_channel::Sender<StreamData>,
) -> bool;

/// `Sender::same_channel`: whether two sending ends belong to one channel.
/// The contract gives the outcome the name [`same_channel`].
#[verifier::external_body]
fn share_channel(
    one: &crossbeam_channel::Sender<StreamData>,
    other: &crossbeam_channel::Sender<StreamData>,
) -> (r: bool)
    ensures
        r == same_channel(*one, *other),
{
    one.same_channel(other)
}

/// `Sender::clone`: one more sending end of the same channel. The clone
/// shares the channel of the sender it was made from, which is what
/// `Sender::same_channel` tests.
#[verifier::external_body]
fn share_sender(sender: &crossbeam_channel::Sender<StreamData>) -> (r: crossbeam_channel::Sender<
    StreamData,
>)
    ensures
        same_channel(*sender, r),
{
    sender.clone()
}

/// The buffers that a map of point lists stands for.
pub open spec fn streams_of(map: Map<Seq<char>, Vec<StreamPoint>>) -> Map<
    Seq<char>,
    Seq<StreamPoint>,
> {
    map.map_values(|points: Vec<StreamPoint>| points@)
}

/// The stream buffer store with the lifecycle of a streaming session.
///
/// The manager owns the buffers, the session flag, the receiving end of the
/// hand-off channel and one status per worker process. The process handles
/// themselves stay with the caller, in the order in which they were
/// registered; the manager counts them and says when they are to be killed.
pub struct StreamManager {
    streams: TextMap<Vec<StreamPoint>>,
    running: bool,
    receiver: crossbeam_channel::Receiver<StreamData>,
    sender: crossbeam_channel::Sender<StreamData>,
    workers: usize,
    statuses: Vec<ProcessStatus>,
    scalar_ids: Vec<String>,
    debug: bool,
}

impl View for StreamManager {
    type V = ManagerView;

    closed spec fn view(&self) -> ManagerView {
        ManagerView {
            streams: streams_of(self.streams.map()),
            running: self.running,
            workers: self.workers as nat,
            statuses: self.statuses@,
            scalar_ids: self.scalar_ids.deep_view(),
            debug: self.debug,
            handoff: self.sender,
        }
    }
}

impl StreamManager {
    #[verifier::type_invariant]
    spec fn well_formed(self) -> bool {
        &&& bounded(streams_of(self.streams.map()))
        &&& self.workers <= self.statuses@.len()
    }

    /// A manager that buffers the flight stream and the default scalar
    /// stream. No session is on, nothing is buffered, no worker is known.
    pub fn new(debug: bool) -> (manager: Self)
        ensures
            manager@.streams == Map::<Seq<char>, Seq<StreamPoint>>::empty(),
            !manager@.running,
            manager@.workers == 0,
            manager@.statuses == Seq::<ProcessStatus>::empty(),
            manager@.scalar_ids == seq![default_scalar_stream_id()],
            manager@.debug == debug,
    {
        let mut scalar_ids: Vec<String> = Vec::new();
        scalar_ids.push(String::from_str("single_scalar_channel"));
        let manager = Self::with_scalar_streams(debug, scalar_ids);
        assert(manager@.scalar_ids =~= seq![default_scalar_stream_id()]);
        manager
    }

    /// A manager that buffers the flight stream and the scalar streams named
    /// in `scalar_ids`.
    pub fn with_scalar_streams(debug: bool, scalar_ids: Vec<String>) -> (manager: Self)
        ensures
            manager@.streams == Map::<Seq<char>, Seq<StreamPoint>>::empty(),
            !manager@.running,
            manager@.workers == 0,
            manager@.statuses == Seq::<ProcessStatus>::empty(),
            manager@.scalar_ids == scalar_ids.deep_view(),
            manager@.debug == debug,
    {
        let (sender, receiver) = open_channel(MAX_FLIGHT_STREAM_POINTS);
        let streams: TextMap<Vec<StreamPoint>> = TextMap::new();
        assert(streams_of(streams.map()) =~= Map::<Seq<char>, Seq<StreamPoint>>::empty());
        StreamManager {
            streams,
            running: false,
            receiver,
            sender,
            workers: 0,
            statuses: Vec::new(),
            scalar_ids,
            debug,
        }
    }

    /// Whether a streaming session is on.
    pub fn is_running(&self) -> (r: bool)
        ensures
            r == self@.running,
    {
        self.running
    }

    /// Whether the manager was made with debugging on.
    pub fn debug(&self) -> (r: bool)
        ensures
            r == self@.debug,
    {
        self.debug
    }

    /// How many worker handles the caller holds for this session.
    pub fn workers(&self) -> (r: usize)
        ensures
            r == self@.workers,
            r <= self@.statuses.len(),
    {
        proof {
            use_type_invariant(self);
        }
        self.workers
    }

    /// The status of each worker registered since the last start, in order.
    pub fn process_statuses(&self) -> (r: &Vec<ProcessStatus>)
        ensures
            r@ == self@.statuses,
    {
        &self.statuses
    }

    /// The points of the stream `stream_id`, oldest first; `None` where no
    /// message for it was buffered since the buffers were last cleared.
    pub fn stream(&self, stream_id: &str) -> (r: Option<&Vec<StreamPoint>>)
        ensures
            match r {
                Some(points) => self@.streams.contains_key(stream_id@) && points@
                    == self@.streams[stream_id@] && 0 < points.len() <= capacity_of(stream_id@),
                None => !self@.streams.contains_key(stream_id@),
            },
            bounded(self@.streams),
    {
        proof {
            use_type_invariant(self);
        }
        self.streams.get(stream_id)
    }

    /// The identifiers of the streams that hold points, each once.
    pub fn stream_ids(&self) -> (r: Vec<String>)
        ensures
            r.deep_view().no_duplicates(),
            forall|stream_id: Seq<char>|
                r.deep_view().contains(stream_id) <==> self@.streams.contains_key(stream_id),
    {
        self.streams.keys()
    }

    /// The scalar streams that are buffered.
    pub fn scalar_streams(&self) -> (r: &Vec<String>)
        ensures
            r.deep_view() == self@.scalar_ids,
    {
        &self.scalar_ids
    }

    /// One more sending end of the manager's own hand-off channel, for the
    /// listener: what is sent through it is what `update_streams` takes.
    pub fn sender(&self) -> (r: crossbeam_channel::Sender<StreamData>)
        ensures
            same_channel(self@.handoff, r),
    {
        share_sender(&self.sender)
    }

    /// Whether `sender` is a sending end of the manager's own hand-off
    /// channel.
    pub fn is_own_sender(&self, sender: &crossbeam_channel::Sender<StreamData>) -> (r: bool)
        ensures
            r == same_channel(self@.handoff, *sender),
    {
        share_channel(&self.sender, sender)
    }

    /// Whether `stream_id` is one of the scalar streams that are buffered.
    fn recognises(&self, stream_id: &str) -> (r: bool)
        ensures
            r == self@.scalar_ids.contains(stream_id@),
    {
        let mut i: usize = 0;
        while i < self.scalar_ids.len()
            invariant
                i <= self.scalar_ids.len(),
                forall|j: int| 0 <= j < i ==> self.scalar_ids[j]@ != stream_id@,
            decreases self.scalar_ids.len() - i,
        {
            if same_text(self.scalar_ids[i].as_str(), stream_id) {
                assert(self.scalar_ids.deep_view()[i as int] == stream_id@);
                return true;
            }
            i += 1;
        }
        assert forall|j: int|
            0 <= j < self.scalar_ids.deep_view().len() implies self.scalar_ids.deep_view()[j]
            != stream_id@ by {
            assert(self.scalar_ids.deep_view()[j] == self.scalar_ids[j]@);
        }
        false
    }

    /// Takes every queued message out of the hand-off channel and drops it,
    /// so that nothing stale shows up in a later session. At most one full
    /// channel is taken.
    fn discard_queued(&self) {
        let mut taken: usize = 0;
        while taken < MAX_FLIGHT_STREAM_POINTS
            invariant
                taken <= MAX_FLIGHT_STREAM_POINTS,
            decreases MAX_FLIGHT_STREAM_POINTS - taken,
        {
            match try_receive(&self.receiver) {
                Some(_) => {},
                None => {
                    return ;
                },
            }
            taken += 1;
        }
    }

    /// Starts a streaming session, or restarts the one that is on: forgets
    /// every worker and its status, clears every buffer and sets the flag.
    /// Returns how many worker handles the caller has to kill and drop: all
    /// that it holds.
    pub fn start_streaming(&mut self) -> (reclaimed: usize)
        ensures
            final(self)@ == started(old(self)@),
            reclaimed == old(self)@.workers,
    {
        proof {
            use_type_invariant(&*self);
        }
        let reclaimed = self.workers;
        self.workers = 0;
        let mut statuses: Vec<ProcessStatus> = Vec::new();
        core::mem::swap(&mut self.statuses, &mut statuses);
        let mut streams: TextMap<Vec<StreamPoint>> = TextMap::new();
        assert(streams_of(streams.map()) =~= Map::<Seq<char>, Seq<StreamPoint>>::empty());
        core::mem::swap(&mut self.streams, &mut streams);
        self.running = true;
        reclaimed
    }

    /// Stops the streaming session: clears the flag, drops what is queued in
    /// the hand-off channel, gives up every worker, marks every status
    /// stopped and clears every buffer. Returns how many worker handles the
    /// caller has to kill and drop: all that it holds.
    pub fn stop_streaming(&mut self) -> (reclaimed: usize)
        ensures
            final(self)@ == stopped(old(self)@),
            reclaimed == old(self)@.workers,
    {
        proof {
            use_type_invariant(&*self);
        }
        self.running = false;
        self.discard_queued();
        let reclaimed = self.workers;
        self.workers = 0;
        let mut statuses: Vec<ProcessStatus> = Vec::new();
        let count = self.statuses.len();
        let mut i: usize = 0;
        while i < count
            invariant
                i <= count,
                statuses.len() == i,
                forall|j: int| 0 <= j < i ==> statuses[j] == ProcessStatus::Stopped,
            decreases count - i,
        {
            statuses.push(ProcessStatus::Stopped);
            i += 1;
        }
        core::mem::swap(&mut self.statuses, &mut statuses);
        let mut streams: TextMap<Vec<StreamPoint>> = TextMap::new();
        assert(streams_of(streams.map()) =~= Map::<Seq<char>, Seq<StreamPoint>>::empty());
        core::mem::swap(&mut self.streams, &mut streams);
        assert(self@.statuses =~= stopped(old(self)@).statuses);
        reclaimed
    }

    /// Registers one more worker process, whose handle the caller keeps at
    /// the end of its list. Its status starts as stopped until the first poll.
    pub fn add_streaming_process(&mut self)
        ensures
            final(self)@ == registered(old(self)@),
    {
        proof {
            use_type_invariant(&*self);
        }
        let workers = self.workers;
        self.workers = 0;
        let mut statuses: Vec<ProcessStatus> = Vec::new();
        core::mem::swap(&mut self.statuses, &mut statuses);
        statuses.push(ProcessStatus::Stopped);
        core::mem::swap(&mut self.statuses, &mut statuses);
        let count = self.statuses.len();
        assert(workers < count);
        self.workers = workers + 1;
    }

    /// Routes one message: appends its point to the buffer of the stream it
    /// names, evicting the oldest point where the buffer is full. A message
    /// for a stream that is not buffered is dropped; the result says whether
    /// the message was kept.
    pub fn route(&mut self, data: StreamData) -> (kept: bool)
        ensures
            final(self)@ == routed(old(self)@, data@),
            kept == routed_point(old(self)@.scalar_ids, data@).is_some(),
    {
        proof {
            use_type_invariant(&*self);
            lemma_routing_keeps_bounds(self@.streams, self@.scalar_ids, data@);
        }
        let is_flight = same_text(data.stream_id.as_str(), "flight_position");
        let point = if is_flight {
            StreamPoint::FlightData(
                [data.rel_lat, data.rel_lon, data.altitude, data.pitch, data.roll, data.yaw],
            )
        } else if self.recognises(data.stream_id.as_str()) {
            StreamPoint::Plot2D([data.timestamp, data.value])
        } else {
            return false;
        };
        let capacity = if is_flight {
            MAX_FLIGHT_STREAM_POINTS
        } else {
            MAX_CHANNEL_STREAM_POINTS
        };
        let mut streams: TextMap<Vec<StreamPoint>> = TextMap::new();
        assert(streams_of(streams.map()) =~= Map::<Seq<char>, Seq<StreamPoint>>::empty());
        core::mem::swap(&mut self.streams, &mut streams);
        let ghost before = streams.map();
        let mut points = match streams.remove(data.stream_id.as_str()) {
            Some(points) => points,
            None => Vec::new(),
        };
        assert(points@ == bucket(streams_of(before), data.stream_id@));
        if points.len() >= capacity {
            points.remove(0);
        }
        points.push(point);
        assert(points@ =~= pushed(
            bucket(streams_of(before), data.stream_id@),
            capacity as nat,
            point,
        ));
        streams.insert(data.stream_id, points);
        assert(streams_of(streams.map()) =~= routed_streams(
            streams_of(before),
            self.scalar_ids.deep_view(),
            data@,
        ));
        core::mem::swap(&mut self.streams, &mut streams);
        true
    }
}

/// Routes what is queued in the hand-off channel into the buffers, in the
/// order in which it was queued. Nothing happens while no session is on.
///
/// The call never blocks, and takes at most one full channel: what other
/// threads queue meanwhile waits for the next call. Which messages were
/// queued is not in the manager's hands, so the contract says that the new
/// state is the old one with some batch routed.
pub fn update_streams(stream_manager: &mut StreamManager)
    ensures
        !old(stream_manager)@.running ==> final(stream_manager)@ == old(stream_manager)@,
        old(stream_manager)@.running ==> exists|batch: Seq<StreamDataView>|
            batch.len() <= MAX_FLIGHT_STREAM_POINTS && final(stream_manager)@ == routed_all(
                old(stream_manager)@,
                batch,
            ),
{
    if !stream_manager.is_running() {
        return ;
    }
    let ghost mut batch: Seq<StreamDataView> = Seq::empty();
    let mut taken: usize = 0;
    while taken < MAX_FLIGHT_STREAM_POINTS
        invariant
            taken <= MAX_FLIGHT_STREAM_POINTS,
            batch.len() == taken,
            old(stream_manager)@.running,
            stream_manager@ == routed_all(old(stream_manager)@, batch),
        decreases MAX_FLIGHT_STREAM_POINTS - taken,
    {
        match try_receive(&stream_manager.receiver) {
            Some(data) => {
                proof {
                    assert(batch.push(data@).drop_last() =~= batch);
                    batch = batch.push(data@);
                }
                stream_manager.route(data);
            },
            None => {
                return ;
            },
        }
        taken += 1;
    }
}

/// Records what a poll of the workers gave. `outcomes` holds, for each
/// worker handle that the caller holds, in order, what a non-blocking wait
/// on it returned.
pub fn check_process_status(stream_manager: &mut StreamManager, outcomes: &Vec<WaitOutcome>)
    ensures
        final(stream_manager)@ == polled(old(stream_manager)@, outcomes@),
{
    proof {
        use_type_invariant(&*stream_manager);
    }
    let mut statuses: Vec<ProcessStatus> = Vec::new();
    let workers = stream_manager.workers;
    stream_manager.workers = 0;
    core::mem::swap(&mut stream_manager.statuses, &mut statuses);
    let ghost before = statuses@;
    let mut i: usize = 0;
    while i < workers && i < outcomes.len()
        invariant
            i <= workers <= statuses.len(),
            i <= outcomes.len(),
            statuses.len() == before.len(),
            forall|j: int|
                0 <= j < statuses.len() ==> statuses[j] == if j < i {
                    status_of(outcomes[j])
                } else {
                    before[j]
                },
        decreases workers - i,
    {
        statuses.set(i, classify_wait(outcomes[i]));
        i += 1;
    }
    core::mem::swap(&mut stream_manager.statuses, &mut statuses);
    stream_manager.workers = workers;
    assert(stream_manager@.statuses =~= polled(old(stream_manager)@, outcomes@).statuses);
}

} // verus!
