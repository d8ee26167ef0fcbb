//! The course of an outgoing call, and the sections of its media leg.
use super::call_test;
use super::call_test::{
    AudioSource, CallAcceptanceResponse, CallAcceptanceResponseV, CallPlan, CallPlanV, Datagram,
    MediaLeg, RecvStats, SendClock, SendStats,
};
use super::turn::SocketAddress;
use crate::bytes;
use crate::text;
use vstd::prelude::*;

verus! {

// -- The course of a call --

/// What a call does next.
#[derive(Clone, Copy, Debug, PartialEq, Eq, Structural)]
pub enum CallStage {
    /// Create the call in one step.
    CreateOneToOne,
    /// Create the conversation, to be joined in a second step.
    CreateConversation,
    /// Join the conversation.
    Join,
    /// Invite the Echo bot.
    InviteEcho,
    /// Invite the callee.
    InviteUser,
    /// Wait for the answer.
    Answer,
    /// Acknowledge the answer, which keeps the call alive.
    Acknowledge,
    /// Register the callbacks of the call leg.
    Register,
    /// Set up the media leg.
    Media,
    /// Send and receive, for as long as the call should last.
    Run,
    /// Stop the recording.
    StopRecording,
    /// End the call.
    HangUp,
    /// Nothing: the call was made.
    Done,
    /// Nothing: the call was not accepted.
    Rejected,
    /// Nothing: the call failed.
    Failed,
}

/// The state of a call.
pub struct CallRun {
    /// The Echo bot is called.
    pub echo: bool,
    /// The user to invite.
    pub callee: Option<String>,
    /// The call is recorded.
    pub record: bool,
    pub stage: CallStage,
    /// The controller of the conversation.
    pub controller: String,
    /// How the call was accepted.
    pub answer: Option<CallAcceptanceResponse>,
    /// Why it was not accepted, where that was said.
    pub reason: Option<String>,
    /// What to show where the call failed.
    pub error: String,
}

/// The model of [`CallRun`].
pub struct CallRunV {
    pub echo: bool,
    pub callee: Option<Seq<char>>,
    pub record: bool,
    pub stage: CallStage,
    pub controller: Seq<char>,
    pub answer: Option<CallAcceptanceResponseV>,
    pub reason: Option<Seq<char>>,
    pub error: Seq<char>,
}

impl View for CallRun {
    type V = CallRunV;

    open spec fn view(&self) -> CallRunV {
        CallRunV {
            echo: self.echo,
            callee: text::opt_text(self.callee),
            record: self.record,
            stage: self.stage,
            controller: self.controller@,
            answer: call_test::opt_acceptance(self.answer),
            reason: text::opt_text(self.reason),
            error: self.error@,
        }
    }
}

/// A text or an error by their views.
pub open spec fn reply_text(r: Result<String, String>) -> Result<Seq<char>, Seq<char>> {
    match r {
        Ok(s) => Ok(s@),
        Err(e) => Err(e@),
    }
}

/// An error that may be missing, by its view.
pub open spec fn reply_done(r: Result<(), String>) -> Result<(), Seq<char>> {
    match r {
        Ok(_) => Ok(()),
        Err(e) => Err(e@),
    }
}

/// A call that starts: in one step with a known callee, else in two.
pub open spec fn new_run(plan: CallPlanV, echo: bool, record: bool) -> CallRunV {
    CallRunV {
        echo,
        callee: plan.callee_mri,
        record,
        stage: if plan.is_1to1_call {
            CallStage::CreateOneToOne
        } else {
            CallStage::CreateConversation
        },
        controller: ""@,
        answer: None,
        reason: None,
        error: ""@,
    }
}

/// A call that failed.
pub open spec fn failed(v: CallRunV, error: Seq<char>) -> CallRunV {
    CallRunV { stage: CallStage::Failed, error, ..v }
}

/// A call that is placed: the callee is invited, where there is one.
pub open spec fn placed(v: CallRunV) -> CallRunV {
    CallRunV {
        stage: if v.echo {
            CallStage::InviteEcho
        } else if v.callee is Some {
            CallStage::InviteUser
        } else {
            CallStage::Answer
        },
        ..v
    }
}

/// A call after its creation.
pub open spec fn after_created(v: CallRunV, reply: Result<Seq<char>, Seq<char>>) -> CallRunV {
    match reply {
        Err(e) => failed(v, e),
        Ok(controller) => {
            let w = CallRunV { controller, ..v };
            if v.stage is CreateOneToOne {
                placed(w)
            } else {
                CallRunV { stage: CallStage::Join, ..w }
            }
        },
    }
}

/// A call after the conversation was joined.
pub open spec fn after_joined(v: CallRunV, reply: Result<(), Seq<char>>) -> CallRunV {
    match reply {
        Err(e) => failed(v, e),
        Ok(_) => placed(v),
    }
}

/// A call after the invitation.
pub open spec fn after_invited(v: CallRunV, reply: Result<(), Seq<char>>) -> CallRunV {
    match reply {
        Err(e) => failed(v, e),
        Ok(_) => CallRunV { stage: CallStage::Answer, ..v },
    }
}

/// A call whose callbacks are registered, where a leg was named.
pub open spec fn registering(v: CallRunV) -> CallRunV {
    CallRunV {
        stage: match v.answer {
            Some(a) => if a.call_leg_url is Some {
                CallStage::Register
            } else {
                CallStage::Media
            },
            None => CallStage::Media,
        },
        ..v
    }
}

/// A call whose acceptance is acknowledged, where it was said how.
pub open spec fn acknowledging(v: CallRunV) -> CallRunV {
    match v.answer {
        Some(a) => if a.acknowledgement_url is Some {
            CallRunV { stage: CallStage::Acknowledge, ..v }
        } else {
            registering(v)
        },
        None => registering(v),
    }
}

/// A call after the wait for its answer; without one it was not accepted.
pub open spec fn after_answer(v: CallRunV, answer: Option<CallAcceptanceResponseV>) -> CallRunV {
    match answer {
        None => CallRunV { stage: CallStage::Rejected, reason: None, ..v },
        Some(a) => match a.rejection_reason {
            Some(r) => CallRunV { stage: CallStage::Rejected, reason: Some(r), ..v },
            None => acknowledging(CallRunV { answer: Some(a), ..v }),
        },
    }
}

/// A call that is ended, where it was said how.
pub open spec fn hanging_up(v: CallRunV) -> CallRunV {
    CallRunV {
        stage: match v.answer {
            Some(a) => if call_test::end_url_of(a) is Some {
                CallStage::HangUp
            } else {
                CallStage::Done
            },
            None => CallStage::Done,
        },
        ..v
    }
}

/// A call after a step whose failure does not matter.
pub open spec fn after_step(v: CallRunV) -> CallRunV {
    match v.stage {
        CallStage::Acknowledge => registering(v),
        CallStage::Register => CallRunV { stage: CallStage::Media, ..v },
        CallStage::StopRecording => hanging_up(v),
        CallStage::HangUp => CallRunV { stage: CallStage::Done, ..v },
        _ => v,
    }
}

/// A call after its media leg was set up.
pub open spec fn after_media(v: CallRunV, ok: bool) -> CallRunV {
    if ok {
        CallRunV { stage: CallStage::Run, ..v }
    } else {
        failed(v, "Failed to set up outgoing media leg"@)
    }
}

/// A call after it has lasted as long as it should; a recording that was started
/// is stopped.
pub open spec fn after_run(v: CallRunV, recording: bool) -> CallRunV {
    if v.record && recording {
        CallRunV { stage: CallStage::StopRecording, ..v }
    } else {
        hanging_up(v)
    }
}

/// True of the stages behind the acceptance of a call.
pub open spec fn is_accepted(stage: CallStage) -> bool {
    stage is Acknowledge || stage is Register || stage is Media || stage is Run || stage
        is StopRecording || stage is HangUp || stage is Done
}

/// What holds of every call: behind its acceptance it has an answer that does not
/// reject it, it acknowledges, registers and hangs up only where it knows how, and
/// it stops a recording only where it was to be recorded.
pub open spec fn run_ok(v: CallRunV) -> bool {
    &&& is_accepted(v.stage) ==> (v.answer matches Some(a) && a.rejection_reason is None)
    &&& v.stage is Acknowledge ==> v.answer->0.acknowledgement_url is Some
    &&& v.stage is Register ==> v.answer->0.call_leg_url is Some
    &&& v.stage is HangUp ==> call_test::end_url_of(v.answer->0) is Some
    &&& v.stage is StopRecording ==> v.record
    &&& v.stage is InviteUser ==> v.callee is Some && !v.echo
    &&& v.stage is InviteEcho ==> v.echo
}

/// What happens in a call.
pub enum CallEventV {
    Created(Result<Seq<char>, Seq<char>>),
    Joined(Result<(), Seq<char>>),
    Invited(Result<(), Seq<char>>),
    Answered(Option<CallAcceptanceResponseV>),
    StepDone,
    MediaReady(bool),
    TimeOver(bool),
}

/// True when an event can happen at a stage.
pub open spec fn can_happen(stage: CallStage, event: CallEventV) -> bool {
    match event {
        CallEventV::Created(_) => stage is CreateOneToOne || stage is CreateConversation,
        CallEventV::Joined(_) => stage is Join,
        CallEventV::Invited(_) => stage is InviteEcho || stage is InviteUser,
        CallEventV::Answered(_) => stage is Answer,
        CallEventV::StepDone => stage is Acknowledge || stage is Register || stage is StopRecording
            || stage is HangUp,
        CallEventV::MediaReady(_) => stage is Media,
        CallEventV::TimeOver(_) => stage is Run,
    }
}

/// A call after an event.
pub open spec fn after_event(v: CallRunV, event: CallEventV) -> CallRunV {
    match event {
        CallEventV::Created(r) => after_created(v, r),
        CallEventV::Joined(r) => after_joined(v, r),
        CallEventV::Invited(r) => after_invited(v, r),
        CallEventV::Answered(a) => after_answer(v, a),
        CallEventV::StepDone => after_step(v),
        CallEventV::MediaReady(ok) => after_media(v, ok),
        CallEventV::TimeOver(recording) => after_run(v, recording),
    }
}

/// Every call stays in order: no media is set up before a call was accepted, and a
/// call that was not accepted is neither acknowledged nor ended.
pub proof fn law_call_in_order(
    plan: CallPlanV,
    echo: bool,
    record: bool,
    v: CallRunV,
    event: CallEventV,
)
    requires
        run_ok(v),
        can_happen(v.stage, event),
    ensures
        run_ok(new_run(plan, echo, record)),
        run_ok(after_event(v, event)),
{
}

/// How many stages are left of a call at most.
pub open spec fn stages_left(stage: CallStage) -> nat {
    match stage {
        CallStage::CreateConversation => 11,
        CallStage::CreateOneToOne => 10,
        CallStage::Join => 10,
        CallStage::InviteEcho => 9,
        CallStage::InviteUser => 9,
        CallStage::Answer => 8,
        CallStage::Acknowledge => 7,
        CallStage::Register => 6,
        CallStage::Media => 5,
        CallStage::Run => 4,
        CallStage::StopRecording => 3,
        CallStage::HangUp => 2,
        CallStage::Done => 0,
        CallStage::Rejected => 0,
        CallStage::Failed => 0,
    }
}

/// Every event brings a call nearer to its end, and none happens after it.
pub proof fn law_call_ends(v: CallRunV, event: CallEventV)
    requires
        can_happen(v.stage, event),
    ensures
        stages_left(after_event(v, event).stage) < stages_left(v.stage),
{
}

/// A call that has run is ended, if it was said how, once the recording is stopped.
pub proof fn law_call_hangs_up(v: CallRunV, recording: bool)
    requires
        run_ok(v),
        v.stage is Run,
    ensures
        ({
            let next = after_run(v, recording);
            let last = if next.stage is StopRecording {
                after_step(next)
            } else {
                next
            };
            last.stage == if call_test::end_url_of(v.answer->0) is Some {
                CallStage::HangUp
            } else {
                CallStage::Done
            }
        }),
{
}

impl CallRun {
    /// Starts a call.
    pub fn new(plan: &CallPlan, echo: bool, record: bool) -> (r: CallRun)
        ensures
            r@ == new_run(plan@, echo, record),
            run_ok(r@),
    {
        CallRun {
            echo,
            callee: text::copy_opt(&plan.callee_mri),
            record,
            stage: if plan.is_1to1_call {
                CallStage::CreateOneToOne
            } else {
                CallStage::CreateConversation
            },
            controller: "".to_string(),
            answer: None,
            reason: None,
            error: "".to_string(),
        }
    }

    fn fail(&mut self, error: String)
        ensures
            final(self)@ == failed(old(self)@, error@),
    {
        self.stage = CallStage::Failed;
        self.error = error;
    }

    fn place(&mut self)
        ensures
            final(self)@ == placed(old(self)@),
    {
        self.stage = if self.echo {
            CallStage::InviteEcho
        } else if self.callee.is_some() {
            CallStage::InviteUser
        } else {
            CallStage::Answer
        };
    }

    /// Takes the controller of the created conversation.
    pub fn on_created(&mut self, reply: Result<String, String>)
        requires
            run_ok(old(self)@),
            can_happen(old(self)@.stage, CallEventV::Created(reply_text(reply))),
        ensures
            final(self)@ == after_created(old(self)@, reply_text(reply)),
            run_ok(final(self)@),
    {
        match reply {
            Err(e) => {
                self.fail(e);
            },
            Ok(c) => {
                self.controller = c;
                match self.stage {
                    CallStage::CreateOneToOne => {
                        self.place();
                    },
                    _ => {
                        self.stage = CallStage::Join;
                    },
                }
            },
        }
    }

    /// The conversation was joined.
    pub fn on_joined(&mut self, reply: Result<(), String>)
        requires
            run_ok(old(self)@),
            can_happen(old(self)@.stage, CallEventV::Joined(reply_done(reply))),
        ensures
            final(self)@ == after_joined(old(self)@, reply_done(reply)),
            run_ok(final(self)@),
    {
        match reply {
            Err(e) => {
                self.fail(e);
            },
            Ok(_) => {
                self.place();
            },
        }
    }

    /// The callee was invited.
    pub fn on_invited(&mut self, reply: Result<(), String>)
        requires
            run_ok(old(self)@),
            can_happen(old(self)@.stage, CallEventV::Invited(reply_done(reply))),
        ensures
            final(self)@ == after_invited(old(self)@, reply_done(reply)),
            run_ok(final(self)@),
    {
        match reply {
            Err(e) => {
                self.fail(e);
            },
            Ok(_) => {
                self.stage = CallStage::Answer;
            },
        }
    }

    fn register(&mut self)
        ensures
            final(self)@ == registering(old(self)@),
    {
        let known = match &self.answer {
            Some(a) => a.call_leg_url.is_some(),
            None => false,
        };
        self.stage = if known {
            CallStage::Register
        } else {
            CallStage::Media
        };
    }

    /// Takes the answer, or nothing where none came in time.
    pub fn on_answer(&mut self, answer: Option<CallAcceptanceResponse>)
        requires
            run_ok(old(self)@),
            old(self)@.stage is Answer,
        ensures
            final(self)@ == after_answer(old(self)@, call_test::opt_acceptance(answer)),
            run_ok(final(self)@),
    {
        match answer {
            None => {
                self.stage = CallStage::Rejected;
                self.reason = None;
            },
            Some(a) => {
                let reason = text::copy_opt(&a.rejection_reason);
                if reason.is_some() {
                    self.stage = CallStage::Rejected;
                    self.reason = reason;
                } else {
                    let known = a.acknowledgement_url.is_some();
                    self.answer = Some(a);
                    if known {
                        self.stage = CallStage::Acknowledge;
                    } else {
                        self.register();
                    }
                }
            },
        }
    }

    fn hang_up(&mut self)
        ensures
            final(self)@ == hanging_up(old(self)@),
    {
        let known = match &self.answer {
            Some(a) => call_test::find_end_url(a).is_some(),
            None => false,
        };
        self.stage = if known {
            CallStage::HangUp
        } else {
            CallStage::Done
        };
    }

    /// A step was made whose failure does not matter.
    pub fn on_step_done(&mut self)
        requires
            run_ok(old(self)@),
            can_happen(old(self)@.stage, CallEventV::StepDone),
        ensures
            final(self)@ == after_step(old(self)@),
            run_ok(final(self)@),
    {
        match self.stage {
            CallStage::Acknowledge => {
                self.register();
            },
            CallStage::Register => {
                self.stage = CallStage::Media;
            },
            CallStage::StopRecording => {
                self.hang_up();
            },
            CallStage::HangUp => {
                self.stage = CallStage::Done;
            },
            _ => {},
        }
    }

    /// The media leg was set up, or could not be.
    pub fn on_media(&mut self, ok: bool)
        requires
            run_ok(old(self)@),
            old(self)@.stage is Media,
        ensures
            final(self)@ == after_media(old(self)@, ok),
            run_ok(final(self)@),
    {
        if ok {
            self.stage = CallStage::Run;
        } else {
            self.fail("Failed to set up outgoing media leg".to_string());
        }
    }

    /// The call has lasted as long as it should.
    pub fn on_time_over(&mut self, recording: bool)
        requires
            run_ok(old(self)@),
            old(self)@.stage is Run,
        ensures
            final(self)@ == after_run(old(self)@, recording),
            run_ok(final(self)@),
    {
        if self.record && recording {
            self.stage = CallStage::StopRecording;
        } else {
            self.hang_up();
        }
    }

    /// The description of the other side's media.
    pub fn remote_sdp(&self) -> (r: String)
        ensures
            r@ == match self@.answer {
                Some(a) => match a.sdp_blob {
                    Some(s) => s,
                    None => ""@,
                },
                None => ""@,
            },
    {
        match &self.answer {
            Some(a) => match &a.sdp_blob {
                Some(s) => s.clone(),
                None => "".to_string(),
            },
            None => "".to_string(),
        }
    }
}

// -- The sections of a media leg --

/// The state of a section of a media leg, audio or video.
#[derive(Clone, Copy, Debug)]
pub struct Section {
    /// The section sends to where connectivity checks come from.
    pub follows_checks: bool,
    /// Where the section sends to.
    pub remote: SocketAddress,
    pub clock: SendClock,
    pub sent: SendStats,
    pub heard: RecvStats,
}

/// What became of a packet that was due.
#[derive(Clone, Copy, Debug, PartialEq, Eq, Structural)]
pub enum PacketFate {
    /// It could not be encrypted; its numbers are used again.
    Unprotected,
    /// It could not be sent.
    Lost,
    /// It was sent with a payload of this length.
    Sent(u32),
}

/// What to do with a datagram.
#[derive(Clone, Copy, Debug, PartialEq, Eq, Structural)]
pub enum DatagramStep {
    /// Answer the connectivity check.
    AnswerCheck,
    /// Take the reports out of it.
    ReadReports,
    /// Take the packet out of it.
    ReadPacket,
    /// Nothing.
    Drop,
}

/// A section that has sent and heard nothing.
pub open spec fn new_section(ssrc: u32, remote: SocketAddress, follows_checks: bool) -> Section {
    Section {
        follows_checks,
        remote,
        clock: clock_after(0),
        sent: SendStats { ssrc, packets_sent: 0, bytes_sent: 0, last_rtp_timestamp: 0 },
        heard: heard_all(Seq::empty()),
    }
}

impl Section {
    /// A section that has sent and heard nothing.
    pub fn new(ssrc: u32, remote: SocketAddress, follows_checks: bool) -> (r: Section)
        ensures
            r == new_section(ssrc, remote, follows_checks),
    {
        Section {
            follows_checks,
            remote,
            clock: SendClock::new(),
            sent: SendStats::new(ssrc),
            heard: RecvStats::new(),
        }
    }

    /// Takes a datagram: a connectivity check is answered, and where the section
    /// follows checks it sends to where the check came from.
    pub fn on_datagram(&mut self, from: SocketAddress, kind: Datagram) -> (r: DatagramStep)
        ensures
            r == match kind {
                Datagram::CheckRequest => DatagramStep::AnswerCheck,
                Datagram::Control => DatagramStep::ReadReports,
                Datagram::Media => DatagramStep::ReadPacket,
                _ => DatagramStep::Drop,
            },
            *final(self) == (Section {
                remote: if kind is CheckRequest && old(self).follows_checks {
                    from
                } else {
                    old(self).remote
                },
                ..*old(self)
            }),
    {
        match kind {
            Datagram::CheckRequest => {
                if self.follows_checks {
                    self.remote = from;
                }
                DatagramStep::AnswerCheck
            },
            Datagram::Control => DatagramStep::ReadReports,
            Datagram::Media => DatagramStep::ReadPacket,
            Datagram::OtherStun => DatagramStep::Drop,
            Datagram::Unreadable => DatagramStep::Drop,
        }
    }

    /// Takes what became of an audio packet. The clock moves on with every packet
    /// that was encrypted; the counters with those that were sent.
    pub fn on_audio_packet(&mut self, fate: PacketFate)
        requires
            fate matches PacketFate::Sent(n) ==> old(self).sent.packets_sent < u32::MAX && old(
                self,
            ).sent.bytes_sent + n <= u32::MAX,
        ensures
            final(self).follows_checks == old(self).follows_checks,
            final(self).remote == old(self).remote,
            final(self).heard == old(self).heard,
            final(self).clock == if fate is Unprotected {
                old(self).clock
            } else {
                next_clock(old(self).clock)
            },
            final(self).sent == match fate {
                PacketFate::Sent(n) => SendStats {
                    ssrc: old(self).sent.ssrc,
                    packets_sent: (old(self).sent.packets_sent + 1) as u32,
                    bytes_sent: (old(self).sent.bytes_sent + n) as u32,
                    last_rtp_timestamp: old(self).clock.timestamp,
                },
                _ => old(self).sent,
            },
    {
        match fate {
            PacketFate::Unprotected => {},
            PacketFate::Lost => {
                self.clock.advance();
            },
            PacketFate::Sent(n) => {
                let stamp: u32 = self.clock.timestamp;
                self.sent.on_sent(n, stamp);
                self.clock.advance();
            },
        }
    }

    /// Takes what became of a video packet, which holds its own numbers.
    pub fn on_video_packet(&mut self, packet: &[u8], header_size: usize, sent: bool)
        requires
            packet@.len() <= u32::MAX,
            sent ==> old(self).sent.packets_sent < u32::MAX && old(self).sent.bytes_sent
                + payload_len(packet@, header_size) <= u32::MAX,
        ensures
            *final(self) == (Section {
                sent: if sent {
                    SendStats {
                        ssrc: old(self).sent.ssrc,
                        packets_sent: (old(self).sent.packets_sent + 1) as u32,
                        bytes_sent: (old(self).sent.bytes_sent + payload_len(
                            packet@,
                            header_size,
                        )) as u32,
                        last_rtp_timestamp: time_stamp(packet@),
                    }
                } else {
                    old(self).sent
                },
                ..*old(self)
            }),
    {
        if sent {
            let (len, stamp) = call_test::rtp_packet_facts(packet, header_size);
            self.sent.on_sent(len as u32, stamp);
        }
    }

    /// Takes a packet that was heard.
    pub fn on_packet(&mut self, sequence_number: u16, ssrc: u32)
        requires
            old(self).heard.packets_received < u32::MAX,
        ensures
            *final(self) == (Section {
                heard: heard_packet(old(self).heard, sequence_number, ssrc),
                ..*old(self)
            }),
    {
        self.heard.on_packet(sequence_number, ssrc);
    }

    /// Takes the time stamps of the sender reports of a control packet; the last one
    /// is kept.
    pub fn on_reports(&mut self, stamps: &[u64])
        ensures
            *final(self) == (Section {
                heard: heard_reports(old(self).heard, stamps@),
                ..*old(self)
            }),
    {
        let mut i: usize = 0;
        proof {
            assert(stamps@.take(0) =~= Seq::empty());
        }
        while i < stamps.len()
            invariant
                i <= stamps@.len(),
                *self == (Section {
                    heard: heard_reports(old(self).heard, stamps@.take(i as int)),
                    ..*old(self)
                }),
            decreases stamps@.len() - i,
        {
            proof {
                assert(stamps@.take(i + 1).drop_last() =~= stamps@.take(i as int));
            }
            self.heard.on_sender_report(stamps[i]);
            i = i + 1;
        }
        proof {
            assert(stamps@.take(i as int) =~= stamps@);
        }
    }

    /// The report that is due: on what was sent, once something was.
    pub fn report(&self) -> (r: Report)
        ensures
            r == if self.sent.packets_sent > 0 {
                Report::Sender
            } else {
                Report::Receiver
            },
    {
        if self.sent.reports_as_sender() {
            Report::Sender
        } else {
            Report::Receiver
        }
    }
}

/// The report on a section.
#[derive(Clone, Copy, Debug, PartialEq, Eq, Structural)]
pub enum Report {
    /// On what was sent, and on what was heard.
    Sender,
    /// On what was heard alone.
    Receiver,
}

/// The length of a packet's payload; none is shorter than nothing.
pub open spec fn payload_len(packet: Seq<u8>, header_size: usize) -> int {
    if packet.len() >= header_size {
        packet.len() - header_size
    } else {
        0
    }
}

/// The time stamp of a packet; zero where it is too short to have one.
pub open spec fn time_stamp(packet: Seq<u8>) -> u32 {
    if packet.len() >= 8 {
        bytes::number32(packet[4], packet[5], packet[6], packet[7]) as u32
    } else {
        0
    }
}

/// What was heard, with one more packet.
pub open spec fn heard_packet(h: RecvStats, sequence_number: u16, ssrc: u32) -> RecvStats {
    RecvStats {
        packets_received: (h.packets_received + 1) as u32,
        highest_seq: if sequence_number > h.highest_seq {
            sequence_number as u32
        } else {
            h.highest_seq
        },
        remote_ssrc: if h.remote_ssrc == 0 {
            ssrc
        } else {
            h.remote_ssrc
        },
        ..h
    }
}

/// What was heard, with more sender reports.
pub open spec fn heard_reports(h: RecvStats, stamps: Seq<u64>) -> RecvStats
    decreases stamps.len(),
{
    if stamps.len() == 0 {
        h
    } else {
        RecvStats {
            last_sr_ntp: ((stamps.last() / 0x1_0000) % 0x1_0000_0000) as u32,
            ..heard_reports(h, stamps.drop_last())
        }
    }
}

/// The packets that a section has heard, as pairs of sequence number and source.
pub open spec fn heard_all(packets: Seq<(u16, u32)>) -> RecvStats
    decreases packets.len(),
{
    if packets.len() == 0 {
        RecvStats { packets_received: 0, highest_seq: 0, last_sr_ntp: 0, remote_ssrc: 0 }
    } else {
        heard_packet(heard_all(packets.drop_last()), packets.last().0, packets.last().1)
    }
}

/// What a section has heard counts its packets, knows the highest sequence number,
/// and names the first source that was not zero.
pub proof fn law_heard_all(packets: Seq<(u16, u32)>)
    requires
        packets.len() <= u32::MAX,
    ensures
        heard_all(packets).packets_received == packets.len(),
        forall|i: int|
            0 <= i < packets.len() ==> (#[trigger] packets[i]).0 <= heard_all(packets).highest_seq,
        packets.len() > 0 ==> exists|i: int|
            0 <= i < packets.len() && (#[trigger] packets[i]).0 == heard_all(packets).highest_seq,
        packets.len() > 0 && packets[0].1 != 0 ==> heard_all(packets).remote_ssrc == packets[0].1,
    decreases packets.len(),
{
    if packets.len() > 0 {
        let before = packets.drop_last();
        let last = packets.len() - 1;
        law_heard_all(before);
        assert forall|i: int| 0 <= i < packets.len() implies (#[trigger] packets[i]).0 <= heard_all(
            packets,
        ).highest_seq by {
            if i < last {
                assert(before[i] == packets[i]);
            }
        }
        if packets[last].0 > heard_all(before).highest_seq || before.len() == 0 {
            assert(packets[last].0 == heard_all(packets).highest_seq);
        } else {
            let k = choose|k: int|
                0 <= k < before.len() && (#[trigger] before[k]).0 == heard_all(before).highest_seq;
            assert(packets[k] == before[k]);
        }
    }
}

/// The picture that is sent: what the camera's frame was encoded to, where there is
/// a frame with a width and something came of it, else a black one.
pub fn choose_picture(
    frame_width: Option<u32>,
    encoded: Option<Vec<Vec<u8>>>,
    black: Vec<Vec<u8>>,
) -> (r: Vec<Vec<u8>>)
    ensures
        r == match (frame_width, encoded) {
            (Some(w), Some(n)) => if w > 0 && n@.len() > 0 {
                n
            } else {
                black
            },
            _ => black,
        },
{
    match (frame_width, encoded) {
        (Some(w), Some(n)) => if w > 0 && n.len() > 0 {
            n
        } else {
            black
        },
        _ => black,
    }
}

/// The clock one packet later.
pub open spec fn next_clock(c: SendClock) -> SendClock {
    SendClock {
        seq: ((c.seq + 1) % 0x1_0000) as u16,
        timestamp: ((c.timestamp + 160) % 0x1_0000_0000) as u32,
    }
}

/// The clock a number of packets later.
pub open spec fn clock_after(n: nat) -> SendClock
    decreases n,
{
    if n == 0 {
        SendClock { seq: 0, timestamp: 0 }
    } else {
        next_clock(clock_after((n - 1) as nat))
    }
}

/// The numbers of a packet count the packets before it: the sequence number by
/// one, and the time stamp by the samples of a packet.
pub proof fn law_clock_counts_packets(n: nat)
    ensures
        clock_after(n).seq == n % 0x1_0000,
        clock_after(n).timestamp == (160 * n) % 0x1_0000_0000,
    decreases n,
{
    if n > 0 {
        let m = (n - 1) as nat;
        law_clock_counts_packets(m);
        vstd::arithmetic::div_mod::lemma_add_mod_noop_right(1, m as int, 0x1_0000);
        vstd::arithmetic::div_mod::lemma_add_mod_noop_right(
            160,
            (160 * m) as int,
            0x1_0000_0000,
        );
        assert(160 + 160 * m == 160 * n);
    }
}

/// A media leg: its sections, and where its audio comes from.
pub struct Leg {
    pub audio: Section,
    pub video: Option<Section>,
    pub source: AudioSource,
}

/// Starts a media leg. Video is sent where the other side has it and its address is
/// known; the audio section follows connectivity checks.
pub fn spawn_media_leg(
    leg: &MediaLeg,
    ssrc: u32,
    video_ssrc: u32,
    loopback: bool,
    microphone: bool,
) -> (r: Leg)
    ensures
        r.audio == new_section(ssrc, leg.audio_remote, true),
        r.video == match (leg.video_crypto, leg.video_remote) {
            (Some(_), Some(a)) => Some(new_section(video_ssrc, a, false)),
            _ => None,
        },
        r.source == if loopback {
            AudioSource::Loopback
        } else if microphone {
            AudioSource::Microphone
        } else {
            AudioSource::Tone
        },
{
    let video = match leg.video_remote {
        Some(a) => if leg.video_crypto.is_some() {
            Some(Section::new(video_ssrc, a, false))
        } else {
            None
        },
        None => None,
    };
    Leg {
        audio: Section::new(ssrc, leg.audio_remote, true),
        video,
        source: call_test::choose_audio_source(loopback, microphone),
    }
}

// -- How a call goes on --

/// A call begins with what it is: one to one is placed at once, another needs a
/// conversation first. Nothing is known yet of who answers.
pub proof fn law_call_begins(plan: CallPlanV, echo: bool, record: bool)
    ensures
        plan.is_1to1_call ==> new_run(plan, echo, record).stage is CreateOneToOne,
        !plan.is_1to1_call ==> new_run(plan, echo, record).stage is CreateConversation,
        new_run(plan, echo, record).echo == echo,
        new_run(plan, echo, record).record == record,
        new_run(plan, echo, record).callee == plan.callee_mri,
        new_run(plan, echo, record).answer is None,
        new_run(plan, echo, record).reason is None,
{
}

/// What a stage that failed says becomes the call's error, and the call is over.
pub proof fn law_failure_ends_the_call(v: CallRunV, e: Seq<char>)
    ensures
        ({
            let a = after_event(v, CallEventV::Created(Err(e)));
            let b = after_event(v, CallEventV::Joined(Err(e)));
            let c = after_event(v, CallEventV::Invited(Err(e)));
            let d = after_event(v, CallEventV::MediaReady(false));
            &&& a.stage is Failed && a.error == e
            &&& b.stage is Failed && b.error == e
            &&& c.stage is Failed && c.error == e
            &&& d.stage is Failed
        }),
{
}

/// Once it is placed, a call to the Echo bot invites the bot, a call to one person that
/// person, and any other waits for an answer. A conversation is joined first.
pub proof fn law_placed_call_invites(v: CallRunV, controller: Seq<char>)
    ensures
        ({
            let a = after_event(v, CallEventV::Created(Ok(controller)));
            let b = after_event(v, CallEventV::Joined(Ok(())));
            let c = after_event(v, CallEventV::Invited(Ok(())));
            &&& a.controller == controller
            &&& v.stage is CreateConversation ==> a.stage is Join
            &&& v.stage is CreateOneToOne && v.echo ==> a.stage is InviteEcho
            &&& v.stage is CreateOneToOne && !v.echo && v.callee is Some ==> a.stage is InviteUser
            &&& v.stage is CreateOneToOne && !v.echo && v.callee is None ==> a.stage is Answer
            &&& v.echo ==> b.stage is InviteEcho
            &&& !v.echo && v.callee is Some ==> b.stage is InviteUser
            &&& !v.echo && v.callee is None ==> b.stage is Answer
            &&& c.stage is Answer
            &&& b.controller == v.controller && c.controller == v.controller
            &&& a.callee == v.callee && b.callee == v.callee && c.callee == v.callee
            &&& a.record == v.record && b.record == v.record && c.record == v.record
        }),
{
}

/// A call that nobody answers, or that is refused, is rejected with the reason that was
/// given; one that is accepted is acknowledged and registered where the answer says how,
/// and then gets its media.
pub proof fn law_answer_decides(v: CallRunV, a: CallAcceptanceResponseV)
    ensures
        after_event(v, CallEventV::Answered(None)).stage is Rejected,
        after_event(v, CallEventV::Answered(None)).reason is None,
        a.rejection_reason is Some ==> after_event(v, CallEventV::Answered(Some(a))).stage
            is Rejected && after_event(v, CallEventV::Answered(Some(a))).reason
            == a.rejection_reason,
        a.rejection_reason is None ==> after_event(v, CallEventV::Answered(Some(a))).answer == Some(
            a,
        ),
        a.rejection_reason is None && a.acknowledgement_url is Some ==> after_event(
            v,
            CallEventV::Answered(Some(a)),
        ).stage is Acknowledge,
        a.rejection_reason is None && a.acknowledgement_url is None && a.call_leg_url is Some
            ==> after_event(v, CallEventV::Answered(Some(a))).stage is Register,
        a.rejection_reason is None && a.acknowledgement_url is None && a.call_leg_url is None
            ==> after_event(v, CallEventV::Answered(Some(a))).stage is Media,
        v.stage is Acknowledge && v.answer == Some(a) && a.call_leg_url is Some ==> after_event(
            v,
            CallEventV::StepDone,
        ).stage is Register,
        v.stage is Acknowledge && v.answer == Some(a) && a.call_leg_url is None ==> after_event(
            v,
            CallEventV::StepDone,
        ).stage is Media,
        v.stage is Register ==> after_event(v, CallEventV::StepDone).stage is Media,
        v.stage is HangUp ==> after_event(v, CallEventV::StepDone).stage is Done,
        after_event(v, CallEventV::MediaReady(true)).stage is Run,
{
}

/// A recording that runs is stopped before the call is ended, and only then.
pub proof fn law_recording_stops_first(v: CallRunV, a: CallAcceptanceResponseV, recording: bool)
    requires
        v.answer == Some(a),
    ensures
        v.record && recording ==> after_event(v, CallEventV::TimeOver(recording)).stage
            is StopRecording,
        !(v.record && recording) && (a.end_url is Some || a.call_leg_url is Some) ==> after_event(
            v,
            CallEventV::TimeOver(recording),
        ).stage is HangUp,
        !(v.record && recording) && a.end_url is None && a.call_leg_url is None ==> after_event(
            v,
            CallEventV::TimeOver(recording),
        ).stage is Done,
        v.stage is StopRecording && (a.end_url is Some || a.call_leg_url is Some) ==> after_event(
            v,
            CallEventV::StepDone,
        ).stage is HangUp,
        v.stage is StopRecording && a.end_url is None && a.call_leg_url is None ==> after_event(
            v,
            CallEventV::StepDone,
        ).stage is Done,
{
}

/// The payload of a packet is what stands behind its header, and its time stamp is the
/// number in its bytes four to seven.
pub proof fn law_packet_parts(header: Seq<u8>, payload: Seq<u8>)
    requires
        8 <= header.len() <= 1000,
    ensures
        payload_len(header + payload, header.len() as usize) == payload.len(),
        time_stamp(header + payload) == header[4] * 0x100_0000 + header[5] * 0x1_0000 + header[6]
            * 0x100 + header[7],
{
    let p = header + payload;
    assert(p[4] == header[4] && p[5] == header[5] && p[6] == header[6] && p[7] == header[7]);
}

/// Of the reports that came, the last counts: what is kept of its time are the thirty-two
/// bits in the middle.
pub proof fn law_last_report_counts(h: RecvStats, stamps: Seq<u64>, seconds: u64, fraction: u64)
    requires
        seconds < 0x1_0000_0000,
        fraction < 0x1_0000_0000,
        stamps.len() > 0,
        stamps.last() == seconds * 0x1_0000_0000 + fraction,
    ensures
        heard_reports(h, stamps).last_sr_ntp == (seconds % 0x1_0000) * 0x1_0000
            + fraction / 0x1_0000,
        heard_reports(h, stamps).packets_received == h.packets_received,
        heard_reports(h, stamps).highest_seq == h.highest_seq,
        heard_reports(h, stamps).remote_ssrc == h.remote_ssrc,
        heard_reports(h, Seq::empty()) == h,
{
    lemma_reports_keep_the_rest(h, stamps);
    let q = seconds as int / 0x1_0000;
    let s = seconds as int % 0x1_0000;
    let f = fraction as int / 0x1_0000;
    let x = stamps.last() as int / 0x1_0000;
    assert(x == seconds * 0x1_0000 + f);
    assert(x == q * 0x1_0000_0000 + (s * 0x1_0000 + f));
}

proof fn lemma_reports_keep_the_rest(h: RecvStats, stamps: Seq<u64>)
    ensures
        heard_reports(h, stamps).packets_received == h.packets_received,
        heard_reports(h, stamps).highest_seq == h.highest_seq,
        heard_reports(h, stamps).remote_ssrc == h.remote_ssrc,
    decreases stamps.len(),
{
    if stamps.len() > 0 {
        lemma_reports_keep_the_rest(h, stamps.drop_last());
    }
}

/// A section begins with nothing sent and nothing heard, at the address that it was given.
pub proof fn law_section_begins_empty(ssrc: u32, remote: SocketAddress, follows_checks: bool)
    ensures
        ({
            let s = new_section(ssrc, remote, follows_checks);
            &&& s.remote == remote
            &&& s.follows_checks == follows_checks
            &&& s.sent.ssrc == ssrc
            &&& s.sent.packets_sent == 0 && s.sent.bytes_sent == 0
            &&& s.heard.packets_received == 0 && s.heard.remote_ssrc == 0
            &&& s.clock.seq == 0 && s.clock.timestamp == 0
        }),
{
}

} // verus!
