//! One session of the operator: what it answers to each message, when it
//! starts the workers, and the frames it sends.
//!
//! The session keeps, as ghost state, the frames it has sent so far. Its
//! invariant says what that sequence looks like in every state.

use crate::models::dsl_model::DslConfig;
use crate::models::metrics::{
    is_success, key_text, status_key, status_key_text, summary_of, Classification, Metrics,
    Observation, RequestOutcome, StatusKey, Summary, SummaryView,
};
use crate::utils::hardware::{get_hardware_info, HardwareInfo};
use crate::ws::admission::{count_after_enter, count_after_leave, enter, leave, MAX_SESSIONS};
use crate::ws::capacity::{capacity_verdict, validate_against, ValidationError};
use vstd::prelude::*;
use vstd::string::StringExecFns;

verus! {

/// A frame for the operator.
#[derive(Debug)]
pub enum Frame {
    /// Something went wrong before a test started.
    Error { message: String },
    /// A test was accepted and starts. The frame echoes the configuration
    /// that the session holds, and the reading of the machine.
    StartConfig { hardware: HardwareInfo },
    /// One request completed: its status, or none where it got no response;
    /// the text of its failure; the time it took.
    Process { http_status: Option<u16>, error: Option<String>, duration_ms: u64 },
    /// The test is over.
    FinalMetrics { summary: Summary },
}

/// What a [`Frame`] says.
pub enum FrameView {
    Error { message: Seq<char> },
    StartConfig { hardware: HardwareInfo },
    Process { http_status: Option<u16>, error: Option<Seq<char>>, duration_ms: u64 },
    FinalMetrics { summary: SummaryView },
}

/// An optional text, by its characters.
pub open spec fn text_option(text: Option<String>) -> Option<Seq<char>> {
    match text {
        Some(t) => Some(t@),
        None => None,
    }
}

impl View for Frame {
    type V = FrameView;

    open spec fn view(&self) -> FrameView {
        match self {
            Frame::Error { message } => FrameView::Error { message: message@ },
            Frame::StartConfig { hardware } => FrameView::StartConfig { hardware: *hardware },
            Frame::Process { http_status, error, duration_ms } => FrameView::Process {
                http_status: *http_status,
                error: text_option(*error),
                duration_ms: *duration_ms,
            },
            Frame::FinalMetrics { summary } => FrameView::FinalMetrics { summary: summary@ },
        }
    }
}

/// The status that a progress frame shows: that of the response, or none.
pub open spec fn shown_status(c: Classification) -> Option<u16> {
    match c {
        Classification::HttpStatus(code) => Some(code),
        _ => None,
    }
}

/// What a progress frame shows as its status on the wire: the status of the
/// response in decimal, or `REQUEST_ERROR` where there was none.
pub open spec fn status_label(http_status: Option<u16>) -> Seq<char> {
    match http_status {
        Some(code) => status_key_text(StatusKey::Http(code)),
        None => status_key_text(StatusKey::RequestError),
    }
}

/// What a progress frame shows as its status on the wire.
pub fn label_of_status(http_status: Option<u16>) -> (label: String)
    ensures
        label@ == status_label(http_status),
{
    match http_status {
        Some(code) => key_text(StatusKey::Http(code)),
        None => key_text(StatusKey::RequestError),
    }
}

/// The status that a progress frame shows is the label under which the
/// session counts the request.
pub proof fn lemma_frame_shows_the_counted_label(c: Classification)
    ensures
        status_label(shown_status(c)) == status_key_text(status_key(c, false)),
{
}

/// The progress frame of one outcome. A response has no text of failure.
pub open spec fn process_frame(outcome: &RequestOutcome) -> FrameView {
    FrameView::Process {
        http_status: shown_status(outcome.classification),
        error: if is_success(outcome.classification) {
            None
        } else {
            text_option(outcome.error_detail)
        },
        duration_ms: outcome.elapsed_ms,
    }
}

/// Whether a frame is the progress frame of an observation.
pub open spec fn reports(frame: FrameView, observation: Observation) -> bool {
    &&& frame is Process
    &&& frame->http_status == shown_status(observation.classification)
    &&& frame->duration_ms == observation.elapsed_ms
}

/// The progress frame of one outcome.
pub fn frame_of(outcome: &RequestOutcome) -> (frame: Frame)
    ensures
        frame@ == process_frame(outcome),
        reports(frame@, outcome.observation()),
{
    match outcome.classification {
        Classification::HttpStatus(code) => Frame::Process {
            http_status: Some(code),
            error: None,
            duration_ms: outcome.elapsed_ms,
        },
        _ => Frame::Process {
            http_status: None,
            error: outcome.error_detail.clone(),
            duration_ms: outcome.elapsed_ms,
        },
    }
}


/// Where a session stands.
#[derive(Debug, Clone, Copy, PartialEq, Eq, Structural)]
pub enum Phase {
    /// The connection is not yet admitted.
    Opening,
    /// The session waits for the description of a test.
    AwaitingConfig,
    /// The workers run.
    Running,
    /// The test is over or was given up; nothing more is started.
    Finalizing,
}

/// A message of the operator. A text arrives decoded, or as nothing where
/// it could not be decoded.
#[derive(Debug)]
pub enum Incoming {
    Text(Option<DslConfig>),
    Ping(Vec<u8>),
    Close,
    Other,
}

/// What the session asks of the connection and of the worker pool.
#[derive(Debug)]
pub enum Action {
    /// Send this frame to the operator.
    Send(Frame),
    /// Start the workers on the configuration that the session holds.
    StartPool,
    /// Answer a ping with this payload.
    Pong(Vec<u8>),
    /// Tell the workers to stop.
    Cancel,
    /// Close the connection.
    Stop,
}

/// What an [`Action`] says.
pub enum ActionView {
    Send(FrameView),
    StartPool,
    Pong(Seq<u8>),
    Cancel,
    Stop,
}

impl View for Action {
    type V = ActionView;

    open spec fn view(&self) -> ActionView {
        match self {
            Action::Send(frame) => ActionView::Send(frame@),
            Action::StartPool => ActionView::StartPool,
            Action::Pong(payload) => ActionView::Pong(payload@),
            Action::Cancel => ActionView::Cancel,
            Action::Stop => ActionView::Stop,
        }
    }
}

/// A list of actions, by what they say.
pub open spec fn actions_view(actions: Seq<Action>) -> Seq<ActionView> {
    Seq::new(actions.len(), |i: int| actions[i]@)
}

/// What a text of the operator amounts to.
pub enum TextVerdict {
    /// It describes no test that can be run.
    Undecodable,
    /// It describes a test that the machine cannot carry.
    OverCapacity(ValidationError),
    /// It describes a test that is run.
    Accepted,
}

/// What a decoded text amounts to on a machine of the given reading: it
/// must be decoded and valid, and within the capacity of the machine.
pub open spec fn text_verdict(decoded: &Option<DslConfig>, probe: HardwareInfo) -> TextVerdict {
    match decoded {
        None => TextVerdict::Undecodable,
        Some(config) => if !config.valid() {
            TextVerdict::Undecodable
        } else {
            match capacity_verdict(config.concurrency, probe.cpu_cores, probe.free_mem_kb) {
                Err(e) => TextVerdict::OverCapacity(e),
                Ok(_) => TextVerdict::Accepted,
            }
        },
    }
}

/// The error frame with the given message, as an action.
pub open spec fn send_error(message: Seq<char>) -> ActionView {
    ActionView::Send(FrameView::Error { message })
}

/// The answer to a text. While a test runs and after it, a text is passed
/// over. Before that a text that is not accepted is answered with an error
/// frame; an accepted one starts the test, unless the session was never
/// opened.
pub open spec fn answer_to_text(
    phase: Phase,
    decoded: &Option<DslConfig>,
    probe: HardwareInfo,
) -> Seq<ActionView> {
    match phase {
        Phase::Running => Seq::empty(),
        Phase::Finalizing => Seq::empty(),
        _ => match text_verdict(decoded, probe) {
            TextVerdict::Undecodable => seq![send_error("Invalid config format"@)],
            TextVerdict::OverCapacity(e) => seq![send_error(e.message_text())],
            TextVerdict::Accepted => if phase == Phase::AwaitingConfig {
                seq![
                    ActionView::Send(FrameView::StartConfig { hardware: probe }),
                    ActionView::StartPool,
                ]
            } else {
                seq![send_error("Canal interno não inicializado"@)]
            },
        },
    }
}

/// The answer to a message of the operator.
pub open spec fn answer(phase: Phase, msg: &Incoming, probe: HardwareInfo) -> Seq<ActionView> {
    match msg {
        Incoming::Text(decoded) => answer_to_text(phase, decoded, probe),
        Incoming::Ping(payload) => seq![ActionView::Pong(payload@)],
        Incoming::Close => seq![ActionView::Cancel, ActionView::Stop],
        Incoming::Other => Seq::empty(),
    }
}

/// Whether a message starts a test.
pub open spec fn starts_test(phase: Phase, msg: &Incoming, probe: HardwareInfo) -> bool {
    &&& phase == Phase::AwaitingConfig
    &&& msg matches Incoming::Text(decoded)
    &&& text_verdict(decoded, probe) is Accepted
}

/// Where the session stands after a message.
pub open spec fn phase_after(phase: Phase, msg: &Incoming, probe: HardwareInfo) -> Phase {
    if msg is Close {
        Phase::Finalizing
    } else if starts_test(phase, msg, probe) {
        Phase::Running
    } else {
        phase
    }
}

/// The frames that a list of actions sends, in their order.
pub open spec fn frames_in(actions: Seq<ActionView>) -> Seq<FrameView>
    decreases actions.len(),
{
    if actions.len() == 0 {
        Seq::empty()
    } else {
        match actions.last() {
            ActionView::Send(frame) => frames_in(actions.drop_last()).push(frame),
            _ => frames_in(actions.drop_last()),
        }
    }
}

/// The number of progress frames among `frames`.
pub open spec fn process_count(frames: Seq<FrameView>) -> nat
    decreases frames.len(),
{
    if frames.len() == 0 {
        0
    } else {
        process_count(frames.drop_last()) + if frames.last() is Process {
            1nat
        } else {
            0nat
        }
    }
}

/// One session of the operator.
pub struct WsSession {
    phase: Phase,
    config: Option<DslConfig>,
    metrics: Metrics,
    cancelled: bool,
    completed: bool,
    admitted: bool,
    sent: Ghost<Seq<FrameView>>,
    refusals: Ghost<nat>,
}

impl WsSession {
    /// Where the session stands.
    pub closed spec fn phase(&self) -> Phase {
        self.phase
    }

    /// The test that was accepted, if one was.
    pub closed spec fn config(&self) -> Option<DslConfig> {
        self.config
    }

    /// The observations recorded so far, oldest first.
    pub closed spec fn recorded(&self) -> Seq<Observation> {
        self.metrics@
    }

    /// The frames sent so far, oldest first.
    pub closed spec fn sent(&self) -> Seq<FrameView> {
        self.sent@
    }

    /// Whether the workers were told to stop.
    pub closed spec fn is_cancelled(&self) -> bool {
        self.cancelled
    }

    /// Whether the test ran to its end and its summary was sent.
    pub closed spec fn is_complete(&self) -> bool {
        self.completed
    }

    /// Whether the session is counted among the open ones.
    pub closed spec fn holds_place(&self) -> bool {
        self.admitted
    }

    /// The frames sent are, in this order: error frames; then, once a test
    /// was accepted, one start frame and one progress frame for each
    /// recorded observation; then, once the test is complete, its summary.
    pub closed spec fn wf(&self) -> bool {
        let started = self.config is Some;
        let h = self.metrics@;
        let sent = self.sent@;
        let e = self.refusals@ as int;
        &&& self.metrics.wf()
        &&& !self.metrics.counts_timeouts_apart()
        &&& sent.len() == e + (if started {
            1 + h.len()
        } else {
            0
        }) + (if self.completed {
            1int
        } else {
            0int
        })
        &&& forall|i: int| 0 <= i < e ==> (#[trigger] sent[i]) is Error
        &&& started ==> {
            &&& self.config->0.valid()
            &&& sent[e] is StartConfig
            &&& forall|j: int| 0 <= j < h.len() ==> reports(#[trigger] sent[e + 1 + j], h[j])
        }
        &&& !started ==> h.len() == 0
        &&& self.completed ==> {
            &&& started
            &&& self.phase == Phase::Finalizing
            &&& sent.last() is FinalMetrics
            &&& sent.last()->summary.total_requests == h.len()
        }
        &&& (self.phase == Phase::Opening || self.phase == Phase::AwaitingConfig) ==> !started
        &&& self.phase == Phase::Running ==> started && !self.completed
    }

    /// A session that is not yet admitted: it has sent nothing and holds no
    /// test.
    pub fn new() -> (session: WsSession)
        ensures
            session.wf(),
            session.phase() == Phase::Opening,
            session.config() is None,
            session.sent() == Seq::<FrameView>::empty(),
            session.recorded() == Seq::<Observation>::empty(),
            !session.is_cancelled(),
            !session.is_complete(),
            !session.holds_place(),
    {
        WsSession {
            phase: Phase::Opening,
            config: None,
            metrics: Metrics::new(false),
            cancelled: false,
            completed: false,
            admitted: false,
            sent: Ghost(Seq::empty()),
            refusals: Ghost(0),
        }
    }
}

/// `Local::now` reads the clock of the machine and `format` writes the
/// moment as year, month, day, hour, minute and second. Nothing is known of
/// the moment. The call expects a clock that does not stand before 1970.
#[verifier::external_body]
fn local_timestamp() -> (text: String) {
    chrono::Local::now().format("%Y/%m/%d %H:%M:%S").to_string()
}

/// What handling a message does to a session: the answer is the one that
/// the state and the reading of the machine give; the frames of the answer
/// are sent in their order; an accepted test is kept; `Close` tells the
/// workers to stop; nothing is recorded.
pub open spec fn handled(
    before: &WsSession,
    after: &WsSession,
    msg: &Incoming,
    probe: HardwareInfo,
    actions: Seq<Action>,
) -> bool {
    &&& after.wf()
    &&& actions_view(actions) == answer(before.phase(), msg, probe)
    &&& after.phase() == phase_after(before.phase(), msg, probe)
    &&& after.sent() == before.sent() + frames_in(answer(before.phase(), msg, probe))
    &&& after.recorded() == before.recorded()
    &&& after.is_cancelled() == (before.is_cancelled() || msg is Close)
    &&& after.is_complete() == before.is_complete()
    &&& after.holds_place() == before.holds_place()
    &&& after.config() == if starts_test(before.phase(), msg, probe) {
        msg->Text_0
    } else {
        before.config()
    }
}

impl WsSession {
    /// Sends an error frame before any test has started.
    fn refuse(&mut self, message: String) -> (actions: Vec<Action>)
        requires
            old(self).wf(),
            old(self).phase == Phase::Opening || old(self).phase == Phase::AwaitingConfig,
        ensures
            final(self).wf(),
            actions_view(actions@) == seq![send_error(message@)],
            final(self).sent@ == old(self).sent@.push(FrameView::Error { message: message@ }),
            final(self).phase == old(self).phase,
            final(self).config == old(self).config,
            final(self).metrics == old(self).metrics,
            final(self).cancelled == old(self).cancelled,
            final(self).completed == old(self).completed,
            final(self).admitted == old(self).admitted,
    {
        let frame = Frame::Error { message };
        self.sent = Ghost(self.sent@.push(frame@));
        self.refusals = Ghost(self.refusals@ + 1);
        let mut actions: Vec<Action> = Vec::new();
        actions.push(Action::Send(frame));
        assert(actions_view(actions@) =~= seq![send_error(message@)]);
        actions
    }

    /// Answers one message of the operator on a machine of the given
    /// reading.
    pub fn handle_with(&mut self, msg: Incoming, probe: HardwareInfo) -> (actions: Vec<Action>)
        requires
            old(self).wf(),
        ensures
            handled(old(self), final(self), &msg, probe, actions@),
    {
        let ghost expected = answer(self.phase, &msg, probe);
        proof {
            lemma_frames_of_answer(self.phase, &msg, probe);
        }
        match msg {
            Incoming::Text(decoded) => {
                if self.phase == Phase::Running || self.phase == Phase::Finalizing {
                    let actions: Vec<Action> = Vec::new();
                    assert(actions_view(actions@) =~= expected);
                    assert(self.sent@ + Seq::<FrameView>::empty() =~= self.sent@);
                    return actions;
                }
                let config = match decoded {
                    Some(config) => config,
                    None => {
                        let actions = self.refuse(String::from_str("Invalid config format"));
                        assert(self.sent@ =~= old(self).sent@ + frames_in(expected));
                        return actions;
                    },
                };
                if config.check().is_err() {
                    let actions = self.refuse(String::from_str("Invalid config format"));
                    assert(self.sent@ =~= old(self).sent@ + frames_in(expected));
                    return actions;
                }
                if let Err(e) = validate_against(&config, probe.cpu_cores, probe.free_mem_kb) {
                    let actions = self.refuse(e.message());
                    assert(self.sent@ =~= old(self).sent@ + frames_in(expected));
                    return actions;
                }
                if self.phase != Phase::AwaitingConfig {
                    let actions = self.refuse(String::from_str("Canal interno não inicializado"));
                    assert(self.sent@ =~= old(self).sent@ + frames_in(expected));
                    return actions;
                }
                let frame = Frame::StartConfig { hardware: probe };
                self.sent = Ghost(self.sent@.push(frame@));
                self.config = Some(config);
                self.phase = Phase::Running;
                let mut actions: Vec<Action> = Vec::new();
                actions.push(Action::Send(frame));
                actions.push(Action::StartPool);
                assert(actions_view(actions@) =~= expected);
                assert(self.sent@ =~= old(self).sent@ + frames_in(expected));
                actions
            },
            Incoming::Ping(payload) => {
                let ghost bytes = payload@;
                let mut actions: Vec<Action> = Vec::new();
                actions.push(Action::Pong(payload));
                assert(actions_view(actions@) =~= seq![ActionView::Pong(bytes)]);
                assert(self.sent@ + Seq::<FrameView>::empty() =~= self.sent@);
                actions
            },
            Incoming::Close => {
                self.cancelled = true;
                self.phase = Phase::Finalizing;
                let mut actions: Vec<Action> = Vec::new();
                actions.push(Action::Cancel);
                actions.push(Action::Stop);
                assert(actions_view(actions@) =~= expected);
                assert(self.sent@ + Seq::<FrameView>::empty() =~= self.sent@);
                actions
            },
            Incoming::Other => {
                let actions: Vec<Action> = Vec::new();
                assert(actions_view(actions@) =~= expected);
                assert(self.sent@ + Seq::<FrameView>::empty() =~= self.sent@);
                actions
            },
        }
    }

    /// Answers one message of the operator. A text that describes a valid
    /// test is held against the machine as it is now; the answer is the one
    /// that some reading of the machine gives.
    pub fn handle(&mut self, msg: Incoming) -> (actions: Vec<Action>)
        requires
            old(self).wf(),
        ensures
            exists|probe: HardwareInfo| #[trigger]
                handled(old(self), final(self), &msg, probe, actions@),
    {
        let wants_probe = match &msg {
            Incoming::Text(Some(_)) => self.phase == Phase::Opening || self.phase
                == Phase::AwaitingConfig,
            _ => false,
        };
        let probe = if wants_probe {
            let reading = get_hardware_info();
            HardwareInfo { cpu_cores: reading.0, total_mem_kb: reading.1, free_mem_kb: reading.2 }
        } else {
            HardwareInfo { cpu_cores: 0, total_mem_kb: 0, free_mem_kb: 0 }
        };
        self.handle_with(msg, probe)
    }
}

/// The frames that the answer to a message sends: at most one.
proof fn lemma_frames_of_answer(phase: Phase, msg: &Incoming, probe: HardwareInfo)
    ensures
        ({
            let a = answer(phase, msg, probe);
            &&& a.len() <= 2
            &&& a.len() == 0 ==> frames_in(a) == Seq::<FrameView>::empty()
            &&& a.len() >= 1 ==> frames_in(a) == match a[0] {
                ActionView::Send(frame) => seq![frame],
                _ => Seq::<FrameView>::empty(),
            }
            &&& a.len() == 2 ==> !(a[1] is Send)
        }),
{
    let a = answer(phase, msg, probe);
    reveal_with_fuel(frames_in, 3);
    if a.len() == 1 {
        assert(a.drop_last() =~= Seq::empty());
        match a[0] {
            ActionView::Send(frame) => {
                assert(frames_in(a) =~= seq![frame]);
            },
            _ => {},
        }
    } else if a.len() == 2 {
        assert(a.drop_last().drop_last() =~= Seq::empty());
        match a[0] {
            ActionView::Send(frame) => {
                assert(frames_in(a) =~= seq![frame]);
            },
            _ => {},
        }
    }
}


impl WsSession {
    /// Takes the outcome of one request. While the test runs the outcome is
    /// recorded and its progress frame is handed out to be sent; at any
    /// other time nothing happens.
    pub fn request_finished(&mut self, outcome: &RequestOutcome) -> (frame: Option<Frame>)
        requires
            old(self).wf(),
        ensures
            final(self).wf(),
            final(self).phase() == old(self).phase(),
            final(self).config() == old(self).config(),
            final(self).is_cancelled() == old(self).is_cancelled(),
            final(self).is_complete() == old(self).is_complete(),
            final(self).holds_place() == old(self).holds_place(),
            old(self).phase() == Phase::Running ==> {
                &&& frame matches Some(f)
                &&& f@ == process_frame(outcome)
                &&& final(self).sent() == old(self).sent().push(f@)
                &&& final(self).recorded() == old(self).recorded().push(outcome.observation())
            },
            old(self).phase() != Phase::Running ==> {
                &&& frame is None
                &&& final(self).sent() == old(self).sent()
                &&& final(self).recorded() == old(self).recorded()
            },
    {
        if self.phase != Phase::Running {
            return None;
        }
        let frame = frame_of(outcome);
        self.metrics.record(outcome);
        self.sent = Ghost(self.sent@.push(frame@));
        proof {
            let e = self.refusals@ as int;
            let h = self.metrics@;
            assert forall|j: int| 0 <= j < h.len() implies reports(
                #[trigger] self.sent@[e + 1 + j],
                h[j],
            ) by {
                if j < h.len() - 1 {
                    assert(self.sent@[e + 1 + j] == old(self).sent@[e + 1 + j]);
                    assert(h[j] == old(self).metrics@[j]);
                }
            }
        }
        Some(frame)
    }

    /// Takes the word that every worker has ended, at the moment that
    /// `timestamp` names. While the test runs this ends it: the summary of
    /// what was recorded is handed out to be sent. At any other time nothing
    /// happens.
    pub fn workers_joined_at(&mut self, timestamp: String) -> (frame: Option<Frame>)
        requires
            old(self).wf(),
        ensures
            final(self).wf(),
            final(self).config() == old(self).config(),
            final(self).recorded() == old(self).recorded(),
            final(self).is_cancelled() == old(self).is_cancelled(),
            final(self).holds_place() == old(self).holds_place(),
            old(self).phase() == Phase::Running ==> {
                &&& frame matches Some(f)
                &&& f@ == (FrameView::FinalMetrics {
                    summary: summary_of(
                        old(self).recorded(),
                        false,
                        &old(self).config()->0,
                        timestamp@,
                    ),
                })
                &&& final(self).sent() == old(self).sent().push(f@)
                &&& final(self).phase() == Phase::Finalizing
                &&& final(self).is_complete()
            },
            old(self).phase() != Phase::Running ==> {
                &&& frame is None
                &&& final(self).sent() == old(self).sent()
                &&& final(self).phase() == old(self).phase()
                &&& final(self).is_complete() == old(self).is_complete()
            },
    {
        if self.phase != Phase::Running {
            return None;
        }
        let summary = match &self.config {
            Some(config) => self.metrics.finalize(config, timestamp),
            None => {
                return None;
            },
        };
        let frame = Frame::FinalMetrics { summary };
        self.sent = Ghost(self.sent@.push(frame@));
        self.phase = Phase::Finalizing;
        self.completed = true;
        proof {
            let e = self.refusals@ as int;
            let h = self.metrics@;
            assert forall|j: int| 0 <= j < h.len() implies reports(
                #[trigger] self.sent@[e + 1 + j],
                h[j],
            ) by {
                assert(self.sent@[e + 1 + j] == old(self).sent@[e + 1 + j]);
            }
        }
        Some(frame)
    }

    /// Takes the word that every worker has ended, now. The summary bears
    /// the moment that the clock of the machine shows.
    pub fn workers_joined(&mut self) -> (frame: Option<Frame>)
        requires
            old(self).wf(),
        ensures
            final(self).wf(),
            final(self).config() == old(self).config(),
            final(self).recorded() == old(self).recorded(),
            final(self).is_cancelled() == old(self).is_cancelled(),
            final(self).holds_place() == old(self).holds_place(),
            old(self).phase() == Phase::Running ==> {
                &&& frame matches Some(f)
                &&& exists|timestamp: Seq<char>|
                    f@ == (FrameView::FinalMetrics {
                        summary: #[trigger] summary_of(
                            old(self).recorded(),
                            false,
                            &old(self).config()->0,
                            timestamp,
                        ),
                    })
                &&& final(self).sent() == old(self).sent().push(f@)
                &&& final(self).phase() == Phase::Finalizing
                &&& final(self).is_complete()
            },
            old(self).phase() != Phase::Running ==> {
                &&& frame is None
                &&& final(self).sent() == old(self).sent()
                &&& final(self).phase() == old(self).phase()
                &&& final(self).is_complete() == old(self).is_complete()
            },
    {
        if self.phase != Phase::Running {
            return None;
        }
        self.workers_joined_at(local_timestamp())
    }

    /// Tells the workers to stop, as the end of the test's time does.
    pub fn cancel(&mut self)
        requires
            old(self).wf(),
        ensures
            final(self).wf(),
            final(self).is_cancelled(),
            final(self).phase() == old(self).phase(),
            final(self).config() == old(self).config(),
            final(self).recorded() == old(self).recorded(),
            final(self).sent() == old(self).sent(),
            final(self).is_complete() == old(self).is_complete(),
            final(self).holds_place() == old(self).holds_place(),
    {
        self.cancelled = true;
    }

    /// Where the session stands.
    pub fn current_phase(&self) -> (phase: Phase)
        ensures
            phase == self.phase(),
    {
        self.phase
    }

    /// Whether the workers were told to stop.
    pub fn cancelled(&self) -> (cancelled: bool)
        ensures
            cancelled == self.is_cancelled(),
    {
        self.cancelled
    }

    /// Whether the test ran to its end and its summary was sent.
    pub fn completed(&self) -> (completed: bool)
        ensures
            completed == self.is_complete(),
    {
        self.completed
    }

    /// The test that was accepted, if one was.
    pub fn accepted_config(&self) -> (config: Option<&DslConfig>)
        ensures
            match config {
                Some(c) => self.config() == Some(*c),
                None => self.config() is None,
            },
    {
        self.config.as_ref()
    }

    /// The statistics of the test.
    pub fn metrics(&self) -> (metrics: &Metrics)
        requires
            self.wf(),
        ensures
            metrics.wf(),
            metrics@ == self.recorded(),
            !metrics.counts_timeouts_apart(),
    {
        &self.metrics
    }
}


impl WsSession {
    /// Opens the session where one more may be open. `active` is the count
    /// of open sessions; the new count is handed back. Where the session is
    /// refused, or was opened before, nothing is handed back, and the
    /// session starts no test: the connection is to be closed.
    pub fn started(&mut self, active: usize) -> (admitted: Option<usize>)
        requires
            old(self).wf(),
        ensures
            final(self).wf(),
            final(self).config() == old(self).config(),
            final(self).recorded() == old(self).recorded(),
            final(self).sent() == old(self).sent(),
            final(self).is_cancelled() == old(self).is_cancelled(),
            final(self).is_complete() == old(self).is_complete(),
            admitted is Some <==> old(self).phase() == Phase::Opening && active < MAX_SESSIONS,
            admitted matches Some(count) ==> count == count_after_enter(active) && count
                <= MAX_SESSIONS,
            final(self).phase() == if admitted is Some {
                Phase::AwaitingConfig
            } else {
                Phase::Finalizing
            },
            final(self).holds_place() == (admitted is Some),
    {
        let admitted = if self.phase == Phase::Opening {
            enter(active)
        } else {
            None
        };
        if admitted.is_some() {
            self.phase = Phase::AwaitingConfig;
            self.admitted = true;
        } else {
            self.phase = Phase::Finalizing;
            self.admitted = false;
        }
        admitted
    }

    /// Ends the session. `active` is the count of open sessions; the new
    /// count is handed back, one less where this session was counted.
    pub fn stopped(&mut self, active: usize) -> (count: usize)
        requires
            old(self).wf(),
        ensures
            final(self).wf(),
            final(self).phase() == Phase::Finalizing,
            final(self).is_cancelled(),
            !final(self).holds_place(),
            final(self).config() == old(self).config(),
            final(self).recorded() == old(self).recorded(),
            final(self).sent() == old(self).sent(),
            final(self).is_complete() == old(self).is_complete(),
            count == if old(self).holds_place() {
                count_after_leave(active)
            } else {
                active
            },
            count <= active,
    {
        let count = if self.admitted {
            leave(active)
        } else {
            active
        };
        self.admitted = false;
        self.cancelled = true;
        self.phase = Phase::Finalizing;
        count
    }
}


/// Where the progress frames of `frames` are those from `lo` up to `hi`,
/// their number is the length of that stretch.
proof fn lemma_process_count_of_stretch(frames: Seq<FrameView>, lo: int, hi: int)
    requires
        0 <= lo <= hi <= frames.len(),
        forall|i: int| 0 <= i < frames.len() ==> ((#[trigger] frames[i]) is Process <==> lo <= i < hi),
    ensures
        process_count(frames) == hi - lo,
    decreases frames.len(),
{
    if frames.len() > 0 {
        let rest = frames.drop_last();
        assert forall|i: int| 0 <= i < rest.len() implies rest[i] == frames[i] by {}
        if hi < frames.len() {
            lemma_process_count_of_stretch(rest, lo, hi);
        } else if lo < hi {
            lemma_process_count_of_stretch(rest, lo, hi - 1);
        } else {
            lemma_process_count_of_stretch(rest, 0, 0);
        }
    }
}

/// In every state of a session, one progress frame was sent for each
/// request that was recorded.
pub proof fn lemma_one_progress_frame_per_request(session: &WsSession)
    requires
        session.wf(),
    ensures
        process_count(session.sent()) == session.recorded().len(),
{
    let sent = session.sent@;
    let e = session.refusals@ as int;
    let h = session.metrics@;
    if session.config is Some {
        assert forall|i: int| 0 <= i < sent.len() implies ((#[trigger] sent[i]) is Process <==> e
            + 1 <= i < e + 1 + h.len()) by {
            if i < e {
                assert(sent[i] is Error);
            } else if i == e {
            } else if i < e + 1 + h.len() {
                assert(reports(sent[e + 1 + (i - e - 1)], h[i - e - 1]));
            } else {
                assert(sent[i] == sent.last());
            }
        }
        lemma_process_count_of_stretch(sent, e + 1, e + 1 + h.len());
    } else {
        assert forall|i: int| 0 <= i < sent.len() implies ((#[trigger] sent[i]) is Process <==> 0
            <= i < 0) by {
            assert(sent[i] is Error);
        }
        lemma_process_count_of_stretch(sent, 0, 0);
    }
}

/// In every state of a session the frames sent are in order: there is at
/// most one start frame, and it stands before every progress frame; there
/// is at most one summary, and it stands after every progress frame; and
/// once the test is complete the summary is the last frame sent.
pub proof fn lemma_frames_in_order(session: &WsSession)
    requires
        session.wf(),
    ensures
        forall|i: int, j: int|
            0 <= i < session.sent().len() && 0 <= j < session.sent().len()
                && session.sent()[i] is StartConfig && session.sent()[j] is StartConfig ==> i == j,
        forall|k: int|
            0 <= k < session.sent().len() && session.sent()[k] is Process ==> exists|i: int|
                0 <= i < k && session.sent()[i] is StartConfig,
        forall|i: int, j: int|
            0 <= i < session.sent().len() && 0 <= j < session.sent().len()
                && session.sent()[i] is FinalMetrics && session.sent()[j] is FinalMetrics ==> i
                == j,
        forall|k: int, i: int|
            0 <= k < session.sent().len() && 0 <= i < session.sent().len()
                && session.sent()[k] is Process && session.sent()[i] is FinalMetrics ==> k < i,
        session.is_complete() ==> session.sent().len() > 0 && session.sent().last()
            is FinalMetrics,
{
    let sent = session.sent@;
    let e = session.refusals@ as int;
    let h = session.metrics@;
    let started = session.config is Some;
    assert forall|i: int| 0 <= i < sent.len() implies {
        &&& (#[trigger] sent[i]) is StartConfig <==> started && i == e
        &&& sent[i] is Process <==> started && e + 1 <= i < e + 1 + h.len()
        &&& sent[i] is FinalMetrics <==> session.completed && i == sent.len() - 1
    } by {
        if i < e {
            assert(sent[i] is Error);
        } else if i == e {
        } else if i < e + 1 + h.len() {
            assert(reports(sent[e + 1 + (i - e - 1)], h[i - e - 1]));
        } else {
            assert(sent[i] == sent.last());
        }
    }
    assert forall|k: int| 0 <= k < sent.len() && sent[k] is Process implies exists|i: int|
        0 <= i < k && sent[i] is StartConfig by {
        assert(sent[e] is StartConfig);
    }
}

/// Once the test is complete, the summary that was sent counts as many
/// requests as progress frames were sent.
pub proof fn lemma_summary_counts_progress_frames(session: &WsSession)
    requires
        session.wf(),
        session.is_complete(),
    ensures
        session.sent().len() > 0,
        session.sent().last() is FinalMetrics,
        session.sent().last()->summary.total_requests == process_count(session.sent()),
{
    lemma_one_progress_frame_per_request(session);
}

} // verus!
