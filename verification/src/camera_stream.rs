//! The camera node's stream lifecycle and frame accounting: an open request is pending
//! until the capture worker reports it opened, only the latest open request counts, a
//! failure while nothing is pending stops streaming, and frames the worker skipped or
//! lost are counted from the sequence numbers it reports.
use vstd::prelude::*;
use crate::camera_selection::{
    key_view, profile_selected, selected_profile, CameraSource, ParameterValue, ProfileChoice, ProfileError, StreamKind,
};
use crate::camera_sources::{source_view, sources_view, SourceView};
use crate::messages::RequestAction;
use crate::text::{owned, str_eq};

verus! {

/// The stream state of the camera node (the frame-rate windows that depend on the clock
/// are kept beside it).
pub struct StreamState {
    pub selected_source_id: Option<String>,
    /// Streaming was asked for and not stopped since.
    pub desired_streaming: bool,
    /// The worker confirmed the stream is open.
    pub streaming: bool,
    /// The open request the worker has not answered yet.
    pub pending_open_request_id: Option<String>,
    /// Whether a latest frame is kept (for calibration and snapshots).
    pub has_latest_frame: bool,
    pub last_sequence: Option<u64>,
    pub last_frame_time_ns: Option<i64>,
    pub frame_window_count: u64,
    pub output_window_count: u64,
    pub dropped_frame_count: u64,
    pub skipped_output_frame_count: u64,
    /// The worker's capture count at the latest accepted output.
    pub worker_capture_count: u64,
}

pub open spec fn text_of(value: Option<String>) -> Option<Seq<char>> {
    match value {
        Some(s) => Some(s@),
        None => None,
    }
}

/// `a - b`, or 0 when `b` is larger (`u64::saturating_sub`).
pub open spec fn sat_sub(a: u64, b: u64) -> u64 {
    if a >= b {
        (a - b) as u64
    } else {
        0
    }
}

/// The frames the worker captured since the last accepted output.
pub open spec fn captured_since(s: StreamState, captured_count: u64) -> u64 {
    sat_sub(captured_count, s.worker_capture_count)
}

/// The frames lost between the last accepted output and this one: the sequence advance
/// not accounted for by frames the worker captured.
pub open spec fn lost_since(s: StreamState, sequence: u64, captured_count: u64) -> u64 {
    match s.last_sequence {
        Some(previous) => sat_sub(sat_sub(sequence, previous), captured_since(s, captured_count)),
        None => 0,
    }
}

pub open spec fn statistics_reset(s: StreamState) -> bool {
    &&& s.last_sequence is None
    &&& s.last_frame_time_ns is None
    &&& s.frame_window_count == 0
    &&& s.output_window_count == 0
    &&& s.dropped_frame_count == 0
    &&& s.skipped_output_frame_count == 0
    &&& s.worker_capture_count == 0
}

pub open spec fn same_control(a: StreamState, b: StreamState) -> bool {
    &&& a.selected_source_id == b.selected_source_id
    &&& a.desired_streaming == b.desired_streaming
    &&& a.streaming == b.streaming
    &&& a.pending_open_request_id == b.pending_open_request_id
    &&& a.has_latest_frame == b.has_latest_frame
}

/// What a camera node uses of its selected camera (the source id is kept in
/// `StreamState`).
pub struct Selection {
    pub color_profile_key: Option<String>,
    pub depth_profile_key: Option<String>,
    /// The capture rate: the highest output rate that both profiles support.
    pub capture_frames_per_second: Option<u32>,
    /// The bits of the floating-point output rate.
    pub output_frames_per_second_bits: Option<u64>,
    pub driver_parameters: Vec<ParameterValue>,
}

/// A selection that passed every check and was saved.
pub struct ChosenSelection {
    pub source_id: String,
    pub color_profile_key: String,
    pub depth_profile_key: String,
    pub maximum_frames_per_second: u32,
    pub output_frames_per_second_bits: u64,
    pub driver_parameters: Vec<ParameterValue>,
}

impl ChosenSelection {
    /// The selection of a source with the profiles chosen for it.
    pub fn from_choice(
        source: &CameraSource,
        choice: &ProfileChoice,
        output_frames_per_second_bits: u64,
        driver_parameters: Vec<ParameterValue>,
    ) -> (res: Self)
        requires
            choice.color < source.profiles@.len(),
            choice.depth < source.profiles@.len(),
        ensures
            res.source_id@ == source.source_id@,
            res.color_profile_key@ == source.profiles@[choice.color as int].key@,
            res.depth_profile_key@ == source.profiles@[choice.depth as int].key@,
            res.maximum_frames_per_second == choice.maximum_frames_per_second,
            res.output_frames_per_second_bits == output_frames_per_second_bits,
            res.driver_parameters@ == driver_parameters@,
    {
        ChosenSelection {
            source_id: source.source_id.clone(),
            color_profile_key: source.profiles[choice.color].key.clone(),
            depth_profile_key: source.profiles[choice.depth].key.clone(),
            maximum_frames_per_second: choice.maximum_frames_per_second,
            output_frames_per_second_bits,
            driver_parameters,
        }
    }
}

/// The node holds exactly the chosen selection, its stream is gone and its statistics
/// start over.
pub open spec fn selection_taken(s: StreamState, selection: Selection, chosen: ChosenSelection) -> bool {
    &&& text_of(s.selected_source_id) == Some(chosen.source_id@)
    &&& !s.desired_streaming
    &&& !s.streaming
    &&& s.pending_open_request_id is None
    &&& !s.has_latest_frame
    &&& statistics_reset(s)
    &&& text_of(selection.color_profile_key) == Some(chosen.color_profile_key@)
    &&& text_of(selection.depth_profile_key) == Some(chosen.depth_profile_key@)
    &&& selection.capture_frames_per_second == Some(chosen.maximum_frames_per_second)
    &&& selection.output_frames_per_second_bits == Some(chosen.output_frames_per_second_bits)
    &&& selection.driver_parameters@ == chosen.driver_parameters@
}

impl Selection {
    /// Nothing selected.
    pub fn new() -> (res: Self)
        ensures
            res.color_profile_key is None,
            res.depth_profile_key is None,
            res.capture_frames_per_second is None,
            res.output_frames_per_second_bits is None,
            res.driver_parameters@.len() == 0,
    {
        Selection {
            color_profile_key: None,
            depth_profile_key: None,
            capture_frames_per_second: None,
            output_frames_per_second_bits: None,
            driver_parameters: Vec::new(),
        }
    }
}

/// What became of a worker output.
#[derive(PartialEq, Eq, Structural)]
pub enum OutputUse {
    /// Not for the current stream: only the state is republished.
    Ignored,
    /// A frame of the current stream: send it on.
    Forwarded,
    /// The stream failed: streaming stopped (a running calibration must fail too).
    Stopped,
}

pub open spec fn stale_open_text() -> Seq<char> {
    "相机启动请求已被后续操作替换"@
}

pub open spec fn changed_during_open_text() -> Seq<char> {
    "相机启动期间选择或运行状态已改变"@
}

impl StreamState {
    /// Nothing selected, nothing streaming.
    pub fn new() -> (res: Self)
        ensures
            res.selected_source_id is None,
            !res.desired_streaming,
            !res.streaming,
            res.pending_open_request_id is None,
            !res.has_latest_frame,
            statistics_reset(res),
    {
        StreamState {
            selected_source_id: None,
            desired_streaming: false,
            streaming: false,
            pending_open_request_id: None,
            has_latest_frame: false,
            last_sequence: None,
            last_frame_time_ns: None,
            frame_window_count: 0,
            output_window_count: 0,
            dropped_frame_count: 0,
            skipped_output_frame_count: 0,
            worker_capture_count: 0,
        }
    }

    /// Forgets the statistics of the previous stream.
    pub fn reset_statistics(&mut self)
        ensures
            statistics_reset(*final(self)),
            same_control(*final(self), *old(self)),
    {
        self.last_sequence = None;
        self.last_frame_time_ns = None;
        self.frame_window_count = 0;
        self.output_window_count = 0;
        self.dropped_frame_count = 0;
        self.skipped_output_frame_count = 0;
        self.worker_capture_count = 0;
    }

    /// Ends a selection request. A refused selection (its error message) changes nothing
    /// and is answered with that error; a chosen one replaces the node's selection, drops
    /// its stream and starts its statistics over.
    pub fn conclude_selection(&mut self, selection: &mut Selection, outcome: Result<ChosenSelection, String>) -> (res:
        Result<(), String>)
        ensures
            match outcome {
                Ok(chosen) => res is Ok && selection_taken(*final(self), *final(selection), chosen),
                Err(e) => res == Err::<(), String>(e) && *final(self) == *old(self) && *final(selection)
                    == *old(selection),
            },
    {
        match outcome {
            Ok(chosen) => {
                self.selected_source_id = Some(chosen.source_id);
                self.desired_streaming = false;
                self.streaming = false;
                self.pending_open_request_id = None;
                self.has_latest_frame = false;
                self.reset_statistics();
                selection.color_profile_key = Some(chosen.color_profile_key);
                selection.depth_profile_key = Some(chosen.depth_profile_key);
                selection.capture_frames_per_second = Some(chosen.maximum_frames_per_second);
                selection.output_frames_per_second_bits = Some(chosen.output_frames_per_second_bits);
                selection.driver_parameters = chosen.driver_parameters;
                Ok(())
            },
            Err(e) => Err(e),
        }
    }

    /// Accounts for a captured frame the worker output: it counts only while streaming
    /// from the selected source. Frames captured since the last output join the rate
    /// window; a sequence advance beyond them counts as dropped frames.
    pub fn accept_capture(
        &mut self,
        source_id: &str,
        sequence: u64,
        received_time_ns: i64,
        captured_count: u64,
        skipped_count: u64,
    ) -> (res: OutputUse)
        requires
            old(self).dropped_frame_count + lost_since(*old(self), sequence, captured_count) <= u64::MAX,
            old(self).frame_window_count + captured_since(*old(self), captured_count) <= u64::MAX,
            old(self).output_window_count < u64::MAX,
        ensures
            ({
                let current = old(self).streaming && (old(self).selected_source_id matches Some(s) && s@
                    == source_id@);
                &&& current ==> {
                    &&& res == OutputUse::Forwarded
                    &&& final(self).dropped_frame_count == old(self).dropped_frame_count + lost_since(
                        *old(self),
                        sequence,
                        captured_count,
                    )
                    &&& final(self).frame_window_count == old(self).frame_window_count + captured_since(
                        *old(self),
                        captured_count,
                    )
                    &&& final(self).output_window_count == old(self).output_window_count + 1
                    &&& final(self).last_sequence == Some(sequence)
                    &&& final(self).worker_capture_count == captured_count
                    &&& final(self).last_frame_time_ns == Some(received_time_ns)
                    &&& final(self).skipped_output_frame_count == skipped_count
                    &&& final(self).has_latest_frame
                    &&& final(self).selected_source_id == old(self).selected_source_id
                    &&& final(self).desired_streaming == old(self).desired_streaming
                    &&& final(self).streaming == old(self).streaming
                    &&& final(self).pending_open_request_id == old(self).pending_open_request_id
                }
                &&& !current ==> res == OutputUse::Ignored && *final(self) == *old(self)
            }),
    {
        let current = self.streaming && match &self.selected_source_id {
            Some(s) => str_eq(s.as_str(), source_id),
            None => false,
        };
        if !current {
            return OutputUse::Ignored;
        }
        let since = captured_count.saturating_sub(self.worker_capture_count);
        match self.last_sequence {
            Some(previous) => {
                let advance = sequence.saturating_sub(previous);
                self.dropped_frame_count = self.dropped_frame_count + advance.saturating_sub(since);
            },
            None => {},
        }
        self.last_sequence = Some(sequence);
        self.worker_capture_count = captured_count;
        self.last_frame_time_ns = Some(received_time_ns);
        self.frame_window_count = self.frame_window_count + since;
        self.skipped_output_frame_count = skipped_count;
        self.has_latest_frame = true;
        self.output_window_count = self.output_window_count + 1;
        OutputUse::Forwarded
    }

    /// A worker failure: ignored while an open request is pending (its completion
    /// reports it); otherwise streaming stops and the latest frame is dropped.
    pub fn capture_failed(&mut self) -> (res: OutputUse)
        ensures
            old(self).pending_open_request_id is Some ==> res == OutputUse::Ignored && *final(self) == *old(
                self,
            ),
            old(self).pending_open_request_id is None ==> {
                &&& res == OutputUse::Stopped
                &&& !final(self).desired_streaming
                &&& !final(self).streaming
                &&& !final(self).has_latest_frame
                &&& final(self).selected_source_id == old(self).selected_source_id
                &&& final(self).pending_open_request_id is None
                &&& final(self).dropped_frame_count == old(self).dropped_frame_count
                &&& final(self).last_sequence == old(self).last_sequence
            },
    {
        if self.pending_open_request_id.is_some() {
            return OutputUse::Ignored;
        }
        self.desired_streaming = false;
        self.streaming = false;
        self.has_latest_frame = false;
        OutputUse::Stopped
    }

    /// An open request was handed to the worker: streaming is wanted and waits for it.
    pub fn open_requested(&mut self, request_id: &str)
        ensures
            final(self).desired_streaming,
            !final(self).streaming,
            !final(self).has_latest_frame,
            text_of(final(self).pending_open_request_id) == Some(request_id@),
            final(self).selected_source_id == old(self).selected_source_id,
            final(self).last_sequence == old(self).last_sequence,
            final(self).dropped_frame_count == old(self).dropped_frame_count,
    {
        self.desired_streaming = true;
        self.streaming = false;
        self.has_latest_frame = false;
        self.pending_open_request_id = Some(owned(request_id));
    }

    /// The worker answered an open request. Only the pending request counts: an older
    /// one is reported as replaced. A successful open starts streaming only if streaming
    /// is still wanted from the same source; a failed current open stops wanting it.
    pub fn opened(&mut self, request_id: &str, source_id: &str, result: Result<(), String>) -> (res: Result<(), String>)
        ensures
            ({
                let current = text_of(old(self).pending_open_request_id) == Some(request_id@);
                let still_wanted = old(self).desired_streaming && text_of(old(self).selected_source_id)
                    == Some(source_id@);
                &&& !current ==> (res matches Err(m) && m@ == stale_open_text()) && *final(self) == *old(
                    self,
                )
                &&& current ==> final(self).pending_open_request_id is None
                &&& current && result is Err ==> res == result && !final(self).desired_streaming
                    && !final(self).streaming
                &&& current && result is Ok && !still_wanted ==> (res matches Err(m) && m@
                    == changed_during_open_text()) && !final(self).desired_streaming && !final(self).streaming
                &&& current && result is Ok && still_wanted ==> res is Ok && final(self).streaming
                    && final(self).desired_streaming && statistics_reset(*final(self))
                &&& final(self).selected_source_id == old(self).selected_source_id
                &&& final(self).has_latest_frame == old(self).has_latest_frame
            }),
    {
        let current = match &self.pending_open_request_id {
            Some(p) => str_eq(p.as_str(), request_id),
            None => false,
        };
        if !current {
            return Err(owned("相机启动请求已被后续操作替换"));
        }
        let still_wanted = self.desired_streaming && match &self.selected_source_id {
            Some(s) => str_eq(s.as_str(), source_id),
            None => false,
        };
        let outcome = match result {
            Err(e) => Err(e),
            Ok(()) => {
                if still_wanted {
                    self.streaming = true;
                    self.reset_statistics();
                    Ok(())
                } else {
                    Err(owned("相机启动期间选择或运行状态已改变"))
                }
            },
        };
        self.pending_open_request_id = None;
        if outcome.is_err() {
            self.desired_streaming = false;
            self.streaming = false;
        }
        outcome
    }

    /// The first half of stopping: drops the latest frame and any pending open, and says
    /// whether the worker must be told to stop (it streams or is asked to).
    pub fn begin_stop(&mut self) -> (stop_needed: bool)
        ensures
            stop_needed == (old(self).streaming || old(self).desired_streaming),
            !final(self).has_latest_frame,
            final(self).pending_open_request_id is None,
            final(self).streaming == old(self).streaming,
            final(self).desired_streaming == old(self).desired_streaming,
            final(self).selected_source_id == old(self).selected_source_id,
            final(self).last_sequence == old(self).last_sequence,
    {
        self.has_latest_frame = false;
        self.pending_open_request_id = None;
        self.streaming || self.desired_streaming
    }

    /// The worker was told to stop.
    pub fn stopped(&mut self)
        ensures
            !final(self).streaming,
            !final(self).desired_streaming,
            final(self).has_latest_frame == old(self).has_latest_frame,
            final(self).pending_open_request_id == old(self).pending_open_request_id,
            final(self).selected_source_id == old(self).selected_source_id,
            final(self).last_sequence == old(self).last_sequence,
    {
        self.desired_streaming = false;
        self.streaming = false;
    }
}

/// Frames lost between two frames of the capture node's stream (sequence numbers that
/// were skipped).
pub fn dropped_between(previous: Option<u64>, sequence: u64) -> (res: u64)
    requires
        previous matches Some(p) ==> p < u64::MAX,
    ensures
        res == match previous {
            Some(p) => if sequence > p + 1 {
                (sequence - p - 1) as u64
            } else {
                0
            },
            None => 0,
        },
{
    match previous {
        Some(p) => {
            if sequence > p + 1 {
                sequence - p - 1
            } else {
                0
            }
        },
        None => 0,
    }
}

/// Why streaming cannot start.
pub enum StartError {
    NothingSelected,
    SourceNotListed,
    Profile(ProfileError),
}

/// What an open request needs: the selected source and its chosen colour and depth
/// profiles (positions in the source's profiles).
pub struct OpenPlan {
    pub source: usize,
    pub color: usize,
    pub depth: usize,
}

pub open spec fn first_listed(ss: Seq<CameraSource>, id: Seq<char>, i: int) -> bool {
    0 <= i < ss.len() && ss[i].source_id@ == id && forall|j: int| 0 <= j < i ==> ss[j].source_id@ != id
}

/// What starting the stream opens: the selected source must be listed (the first with
/// its id), and its chosen colour and depth profiles must be available.
pub fn plan_open(
    sources: &Vec<CameraSource>,
    selected: Option<&str>,
    color_key: Option<&str>,
    depth_key: Option<&str>,
) -> (res: Result<OpenPlan, StartError>)
    ensures
        selected is None ==> res matches Err(StartError::NothingSelected),
        selected is Some && res is Ok ==> first_listed(sources@, selected->0@, res->Ok_0.source as int) && profile_selected(
            sources@[res->Ok_0.source as int].profiles@,
            key_view(color_key),
            StreamKind::Color,
            Ok(res->Ok_0.color),
        ) && profile_selected(
            sources@[res->Ok_0.source as int].profiles@,
            key_view(depth_key),
            StreamKind::Depth,
            Ok(res->Ok_0.depth),
        ),
        selected is Some && res is Err ==> !(res->Err_0 is NothingSelected),
        selected is Some && res is Err && res->Err_0 is SourceNotListed ==> forall|j: int|
            0 <= j < sources@.len() ==> sources@[j].source_id@ != selected->0@,
        selected is Some && res is Err && res->Err_0 is Profile ==> exists|i: int|
            #[trigger] first_listed(sources@, selected->0@, i) && (profile_selected(
                sources@[i].profiles@,
                key_view(color_key),
                StreamKind::Color,
                Err(res->Err_0->Profile_0),
            ) || exists|c: usize|
                #[trigger] profile_selected(sources@[i].profiles@, key_view(color_key), StreamKind::Color, Ok(c))
                    && profile_selected(sources@[i].profiles@, key_view(depth_key), StreamKind::Depth, Err(res->Err_0->Profile_0))),
{
    let id = match selected {
        Some(id) => id,
        None => {
            return Err(StartError::NothingSelected);
        },
    };
    let mut i: usize = 0;
    while i < sources.len()
        invariant
            selected == Some(id),
            i <= sources@.len(),
            forall|j: int| 0 <= j < i ==> sources@[j].source_id@ != id@,
        decreases sources@.len() - i,
    {
        if str_eq(sources[i].source_id.as_str(), id) {
            assert(first_listed(sources@, id@, i as int));
            let color = match selected_profile(&sources[i], color_key, StreamKind::Color) {
                Ok(c) => c,
                Err(e) => {
                    assert(first_listed(sources@, id@, i as int));
                    assert(selected->0@ == id@);
                    assert(exists|k: int| #[trigger] first_listed(sources@, selected->0@, k));
                    return Err(StartError::Profile(e));
                },
            };
            let depth = match selected_profile(&sources[i], depth_key, StreamKind::Depth) {
                Ok(d) => d,
                Err(e) => {
                    assert(first_listed(sources@, id@, i as int));
                    assert(selected->0@ == id@);
                    assert(exists|k: int| #[trigger] first_listed(sources@, selected->0@, k));
                    return Err(StartError::Profile(e));
                },
            };
            return Ok(OpenPlan { source: i, color, depth });
        }
        i += 1;
    }
    Err(StartError::SourceNotListed)
}

pub open spec fn start_error_text(error: StartError) -> Seq<char> {
    match error {
        StartError::NothingSelected => "尚未选择相机"@,
        StartError::SourceNotListed => "所选相机不在最近一次刷新结果中"@,
        StartError::Profile(e) => crate::camera_selection::profile_error_text(e),
    }
}

impl StartError {
    /// The message reported for the refusal.
    pub fn message(&self) -> (res: String)
        ensures
            res@ == start_error_text(*self),
    {
        match self {
            StartError::NothingSelected => owned("尚未选择相机"),
            StartError::SourceNotListed => owned("所选相机不在最近一次刷新结果中"),
            StartError::Profile(e) => e.message(),
        }
    }
}

pub open spec fn kept_after_reset(s: SourceView, id: Seq<char>) -> bool {
    s.source_id != id || s.available
}

/// After a source's saved choices were reset, the list keeps it only while it is
/// available (an unavailable entry only showed the saved choice); the rest stay in order.
pub fn retain_after_reset(sources: Vec<CameraSource>, source_id: &str) -> (res: Vec<CameraSource>)
    ensures
        sources_view(res@) == sources_view(sources@).filter(|s: SourceView| kept_after_reset(s, source_id@)),
{
    let ghost input = sources_view(sources@);
    let ghost keep = |s: SourceView| kept_after_reset(s, source_id@);
    let mut kept: Vec<CameraSource> = Vec::new();
    let mut rest = sources;
    let mut reversed: Vec<CameraSource> = Vec::new();
    let n = rest.len();
    while rest.len() > 0
        invariant
            reversed@.len() + rest@.len() == n,
            input.len() == n,
            forall|k: int| 0 <= k < rest@.len() ==> source_view(#[trigger] rest@[k]) == input[k],
            forall|k: int| 0 <= k < reversed@.len() ==> source_view(#[trigger] reversed@[k]) == input[n - 1 - k],
        decreases rest@.len(),
    {
        let x = rest.pop().unwrap();
        reversed.push(x);
    }
    assert(input.take(0).filter(keep) =~= Seq::<SourceView>::empty());
    while reversed.len() > 0
        invariant
            input.len() == n,
            reversed@.len() <= n,
            forall|k: int| 0 <= k < reversed@.len() ==> source_view(#[trigger] reversed@[k]) == input[n - 1 - k],
            keep == (|s: SourceView| kept_after_reset(s, source_id@)),
            sources_view(kept@) == input.take(n - reversed@.len()).filter(keep),
        decreases reversed@.len(),
    {
        let ghost done = n - reversed@.len();
        let x = reversed.pop().unwrap();
        proof {
            assert(input.take(done + 1).drop_last() =~= input.take(done));
            assert(input.take(done + 1).last() == input[done]);
            input.take(done).lemma_filter_push(input[done], keep);
            assert(input.take(done).push(input[done]) =~= input.take(done + 1));
        }
        if !str_eq(x.source_id.as_str(), source_id) || x.available {
            let ghost before = sources_view(kept@);
            kept.push(x);
            assert(sources_view(kept@) =~= before.push(source_view(x)));
        }
    }
    assert(input.take(n as int) =~= input);
    kept
}

/// The capture worker's bookkeeping for the stream it runs: whether one is open, how
/// many frames it captured and how many of those it did not hand on.
pub struct WorkerState {
    pub active: bool,
    pub captured_count: u64,
    pub skipped_count: u64,
}

/// What happened in the capture worker.
#[derive(PartialEq, Eq, Structural)]
pub enum WorkerEvent {
    /// An open command finished, successfully or not.
    Opened(bool),
    /// A stop or reset command: the stream is closed.
    Closed,
    /// The stream captured a frame; `true` when it was due for output and materialized.
    Captured(bool),
    /// The stream failed.
    Failed,
}

/// What the worker sends on.
#[derive(PartialEq, Eq, Structural)]
pub enum WorkerAction {
    Nothing,
    /// Output the frame with the counts so far.
    Output { captured_count: u64, skipped_count: u64 },
    /// Report the failure (the stream is closed).
    Failure,
}

impl WorkerState {
    /// No stream.
    pub fn new() -> (res: Self)
        ensures
            !res.active && res.captured_count == 0 && res.skipped_count == 0,
    {
        WorkerState { active: false, captured_count: 0, skipped_count: 0 }
    }

    /// Applies an event: a successful open or a close restarts the counts; while a stream
    /// is open every capture counts, a capture not materialized counts as skipped, and a
    /// failure closes the stream. Without an open stream nothing is captured, so a capture
    /// or failure then changes nothing.
    pub fn step(&mut self, event: WorkerEvent) -> (res: WorkerAction)
        requires
            old(self).captured_count < u64::MAX,
            old(self).skipped_count < u64::MAX,
        ensures
            (*final(self), res) == worker_step(*old(self), event),
            // Skipped captures are among the captures.
            old(self).skipped_count <= old(self).captured_count ==> final(self).skipped_count <= final(self).captured_count,
    {
        match event {
            WorkerEvent::Opened(ok) => {
                if ok {
                    self.active = true;
                    self.captured_count = 0;
                    self.skipped_count = 0;
                } else {
                    self.active = false;
                }
                WorkerAction::Nothing
            },
            WorkerEvent::Closed => {
                self.active = false;
                self.captured_count = 0;
                self.skipped_count = 0;
                WorkerAction::Nothing
            },
            WorkerEvent::Captured(materialized) => {
                if !self.active {
                    return WorkerAction::Nothing;
                }
                self.captured_count = self.captured_count + 1;
                if materialized {
                    WorkerAction::Output { captured_count: self.captured_count, skipped_count: self.skipped_count }
                } else {
                    self.skipped_count = self.skipped_count + 1;
                    WorkerAction::Nothing
                }
            },
            WorkerEvent::Failed => {
                if !self.active {
                    return WorkerAction::Nothing;
                }
                self.active = false;
                WorkerAction::Failure
            },
        }
    }
}

/// The worker's state and action after an event.
pub open spec fn worker_step(s: WorkerState, e: WorkerEvent) -> (WorkerState, WorkerAction) {
    match e {
        WorkerEvent::Opened(true) => (WorkerState { active: true, captured_count: 0, skipped_count: 0 }, WorkerAction::Nothing),
        WorkerEvent::Opened(false) => (WorkerState { active: false, ..s }, WorkerAction::Nothing),
        WorkerEvent::Closed => (WorkerState { active: false, captured_count: 0, skipped_count: 0 }, WorkerAction::Nothing),
        WorkerEvent::Captured(materialized) => if !s.active {
            (s, WorkerAction::Nothing)
        } else if materialized {
            let n = WorkerState { captured_count: (s.captured_count + 1) as u64, ..s };
            (n, WorkerAction::Output { captured_count: n.captured_count, skipped_count: n.skipped_count })
        } else {
            (
                WorkerState {
                    captured_count: (s.captured_count + 1) as u64,
                    skipped_count: (s.skipped_count + 1) as u64,
                    ..s
                },
                WorkerAction::Nothing,
            )
        },
        WorkerEvent::Failed => if !s.active {
            (s, WorkerAction::Nothing)
        } else {
            (WorkerState { active: false, ..s }, WorkerAction::Failure)
        },
    }
}

/// The worker's state after a run of events.
pub open spec fn worker_after(s: WorkerState, events: Seq<WorkerEvent>) -> WorkerState
    decreases events.len(),
{
    if events.len() == 0 {
        s
    } else {
        worker_step(worker_after(s, events.drop_last()), events.last()).0
    }
}

/// A stop or reset, a failed open, or a failure of the stream.
pub open spec fn closes_stream(e: WorkerEvent) -> bool {
    e is Closed || e == WorkerEvent::Opened(false) || e is Failed
}

proof fn lemma_stays_closed(s: WorkerState, events: Seq<WorkerEvent>, k: int, j: int)
    requires
        0 <= k < j <= events.len(),
        closes_stream(events[k]),
        forall|m: int| k < m < j ==> #[trigger] events[m] != WorkerEvent::Opened(true),
    ensures
        !worker_after(s, events.take(j)).active,
    decreases j - k,
{
    assert(events.take(j).drop_last() =~= events.take(j - 1));
    assert(events.take(j).last() == events[j - 1]);
    if j - 1 > k {
        lemma_stays_closed(s, events, k, j - 1);
    }
}

/// After a stop, a reset, a failed open or a failure of the stream, the worker hands on
/// no frame until a later open succeeds.
pub proof fn no_frames_until_reopened(s: WorkerState, events: Seq<WorkerEvent>, k: int, j: int)
    requires
        0 <= k < j < events.len(),
        closes_stream(events[k]),
        forall|m: int| k < m <= j ==> #[trigger] events[m] != WorkerEvent::Opened(true),
    ensures
        !(worker_step(worker_after(s, events.take(j)), events[j]).1 is Output),
{
    lemma_stays_closed(s, events, k, j);
}

/// A command to the capture worker, with what the drivers answered when it ran; `D` is
/// what a discovery found (sources and errors), carried unread.
pub enum WorkerCommand<D> {
    Discover { request_id: String, action: RequestAction, found: D },
    Open { request_id: String, action: RequestAction, source_id: String, result: Result<(), String> },
    Stop,
    Reset { request_id: String, action: RequestAction, source_id: String, result: Result<(), String> },
    UpdateToolPose,
}

/// The worker's answer to a command.
pub enum Completion<D> {
    Discovered { request_id: String, action: RequestAction, found: D },
    Opened { request_id: String, action: RequestAction, source_id: String, result: Result<(), String> },
    Reset { request_id: String, action: RequestAction, source_id: String, result: Result<(), String> },
}

/// The answer a command gets: discoveries, opens and resets are answered with their
/// request id, action, source and result; stops and tool-pose updates are not.
pub open spec fn completion_of<D>(command: WorkerCommand<D>) -> Option<Completion<D>> {
    match command {
        WorkerCommand::Discover { request_id, action, found } => Some(Completion::Discovered { request_id, action, found }),
        WorkerCommand::Open { request_id, action, source_id, result } => Some(
            Completion::Opened { request_id, action, source_id, result },
        ),
        WorkerCommand::Stop => None,
        WorkerCommand::Reset { request_id, action, source_id, result } => Some(
            Completion::Reset { request_id, action, source_id, result },
        ),
        WorkerCommand::UpdateToolPose => None,
    }
}

/// The stream event a command amounts to, if any: an open that succeeded or failed, or
/// a close for a stop or reset.
pub open spec fn command_event<D>(command: WorkerCommand<D>) -> Option<WorkerEvent> {
    match command {
        WorkerCommand::Open { result, .. } => Some(WorkerEvent::Opened(result is Ok)),
        WorkerCommand::Stop => Some(WorkerEvent::Closed),
        WorkerCommand::Reset { .. } => Some(WorkerEvent::Closed),
        _ => None,
    }
}

pub open spec fn answered<D>(command: WorkerCommand<D>) -> bool {
    completion_of(command) is Some
}

/// The answers to a run of commands, in order.
pub open spec fn completions<D>(commands: Seq<WorkerCommand<D>>) -> Seq<Completion<D>>
    decreases commands.len(),
{
    if commands.len() == 0 {
        Seq::empty()
    } else {
        let earlier = completions(commands.drop_last());
        match completion_of(commands.last()) {
            Some(c) => earlier.push(c),
            None => earlier,
        }
    }
}

impl WorkerState {
    /// Runs a command: an open, stop or reset changes the stream as its event does
    /// (`step`), and the command gets its answer (`completion_of`).
    pub fn command<D>(&mut self, command: WorkerCommand<D>) -> (res: Option<Completion<D>>)
        ensures
            res == completion_of(command),
            *final(self) == match command_event(command) {
                Some(e) => worker_step(*old(self), e).0,
                None => *old(self),
            },
    {
        match command {
            WorkerCommand::Discover { request_id, action, found } => Some(
                Completion::Discovered { request_id, action, found },
            ),
            WorkerCommand::Open { request_id, action, source_id, result } => {
                if result.is_ok() {
                    self.active = true;
                    self.captured_count = 0;
                    self.skipped_count = 0;
                } else {
                    self.active = false;
                }
                Some(Completion::Opened { request_id, action, source_id, result })
            },
            WorkerCommand::Stop => {
                self.active = false;
                self.captured_count = 0;
                self.skipped_count = 0;
                None
            },
            WorkerCommand::Reset { request_id, action, source_id, result } => {
                self.active = false;
                self.captured_count = 0;
                self.skipped_count = 0;
                Some(Completion::Reset { request_id, action, source_id, result })
            },
            WorkerCommand::UpdateToolPose => None,
        }
    }
}

/// Each discovery, open or reset command is answered exactly once, in command order;
/// stops and tool-pose updates are not answered.
pub proof fn one_answer_per_request<D>(commands: Seq<WorkerCommand<D>>)
    ensures
        completions(commands) == commands.filter(|c: WorkerCommand<D>| answered(c)).map_values(
            |c: WorkerCommand<D>| completion_of(c)->0,
        ),
    decreases commands.len(),
{
    let f = |c: WorkerCommand<D>| answered(c);
    let g = |c: WorkerCommand<D>| completion_of(c)->0;
    if commands.len() == 0 {
        assert(commands.filter(f) =~= Seq::<WorkerCommand<D>>::empty()) by {
            reveal(Seq::filter);
        }
        assert(commands.filter(f).map_values(g) =~= Seq::<Completion<D>>::empty());
    } else {
        let rest = commands.drop_last();
        one_answer_per_request(rest);
        assert(rest.push(commands.last()) =~= commands);
        rest.lemma_filter_push(commands.last(), f);
        if answered(commands.last()) {
            assert(commands.filter(f).map_values(g) =~= rest.filter(f).map_values(g).push(g(commands.last())));
        } else {
            assert(commands.filter(f) == rest.filter(f));
        }
    }
}

/// After a refresh, streaming from the selected camera stops unless the refresh lists it
/// as available.
pub fn refresh_keeps_stream(sources: &Vec<CameraSource>, selected: Option<&str>) -> (res: bool)
    ensures
        res == match selected {
            Some(id) => exists|i: int| 0 <= i < sources@.len() && #[trigger] sources@[i].source_id@ == id@ && sources@[i].available,
            None => true,
        },
{
    let id = match selected {
        Some(id) => id,
        None => {
            return true;
        },
    };
    let mut i: usize = 0;
    while i < sources.len()
        invariant
            selected == Some(id),
            i <= sources@.len(),
            forall|j: int| 0 <= j < i ==> !(#[trigger] sources@[j].source_id@ == id@ && sources@[j].available),
        decreases sources@.len() - i,
    {
        if str_eq(sources[i].source_id.as_str(), id) && sources[i].available {
            return true;
        }
        i += 1;
    }
    false
}

} // verus!
