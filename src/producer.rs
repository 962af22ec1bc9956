//! The per-source producer: numbers each measurement and publishes it,
//! without blocking, to the aggregator and to the live view.
use crate::channel::{share, try_send};
use crate::frame::{FrameCounter, SendStatus};
use crate::message::{GuiMessage, LidarMessage};
use std::path::PathBuf;
use std::sync::Arc;
use vstd::prelude::*;

verus! {

/// What a producer does after one send attempt.
#[derive(Clone, Copy, Debug, PartialEq, Eq, Structural)]
pub enum ProducerAction {
    /// Nothing more to do.
    Continue,
    /// The frame was dropped at a full channel: warn, naming the source, and go on.
    WarnDropped,
    /// The consumer is gone: stop the source.
    Stop,
}

pub open spec fn action_spec(status: SendStatus) -> ProducerAction {
    match status {
        SendStatus::Delivered => ProducerAction::Continue,
        SendStatus::Full => ProducerAction::WarnDropped,
        SendStatus::Closed => ProducerAction::Stop,
    }
}

/// The drop policy: a full channel costs one frame and a warning, a closed
/// one stops the source.
pub fn action_for(status: SendStatus) -> (r: ProducerAction)
    ensures
        r == action_spec(status),
{
    match status {
        SendStatus::Delivered => ProducerAction::Continue,
        SendStatus::Full => ProducerAction::WarnDropped,
        SendStatus::Closed => ProducerAction::Stop,
    }
}

/// The outcome of publishing one measurement.
#[derive(Clone, Copy, Debug, PartialEq, Eq)]
pub struct PublishReport {
    /// The id the frame was given.
    pub frame_id: usize,
    /// What became of the send to the aggregator.
    pub aggregator: SendStatus,
    /// What became of the send to the live view; `None` where that path is off.
    pub live_view: Option<SendStatus>,
}

impl PublishReport {
    pub open spec fn spec_should_stop(&self) -> bool {
        self.aggregator == SendStatus::Closed || self.live_view == Some(SendStatus::Closed)
    }

    /// Whether the source must be stopped: one of its consumers is gone.
    /// Stopping a source more than once is harmless.
    pub fn should_stop(&self) -> (r: bool)
        ensures
            r == self.spec_should_stop(),
    {
        let agg_closed = match self.aggregator {
            SendStatus::Closed => true,
            _ => false,
        };
        let view_closed = match self.live_view {
            Some(SendStatus::Closed) => true,
            _ => false,
        };
        agg_closed || view_closed
    }
}

/// The producer of one source. It owns the source's identity and output
/// directory, a send-only handle to each downstream channel, and the
/// source's frame counter.
#[verifier::reject_recursive_types(M)]
#[verifier::reject_recursive_types(P)]
pub struct LidarHandler<M, P> {
    role_name: Arc<String>,
    sub_outdir: Arc<PathBuf>,
    aggregator_tx: flume::Sender<LidarMessage<M>>,
    gui_tx: Option<flume::Sender<GuiMessage<M, P>>>,
    frame_counter: FrameCounter,
    attempts: Ghost<Seq<SendStatus>>,
    handed: Ghost<Seq<LidarMessage<M>>>,
    handed_to_view: Ghost<Seq<GuiMessage<M, P>>>,
}

impl<M, P> LidarHandler<M, P> {
    /// The outcomes of the sends to the aggregator so far; attempt `i`
    /// carried frame id `i`.
    pub closed spec fn attempts(&self) -> Seq<SendStatus> {
        self.attempts@
    }

    /// The envelopes handed to the aggregator channel so far, delivered or not.
    pub closed spec fn handed(&self) -> Seq<LidarMessage<M>> {
        self.handed@
    }

    /// The envelopes handed to the live-view channel so far, delivered or not.
    pub closed spec fn handed_to_view(&self) -> Seq<GuiMessage<M, P>> {
        self.handed_to_view@
    }

    pub closed spec fn wf(&self) -> bool {
        &&& self.frame_counter.next_id() == self.attempts@.len()
        &&& self.handed@.len() == self.attempts@.len()
        &&& forall|i: int| 0 <= i < self.handed@.len() ==> self.handed@[i].frame_id == i
    }

    /// Send attempt `i` to the aggregator carried the envelope of frame `i`;
    /// so the ids that reach the aggregator are `delivered_ids(attempts)`.
    pub proof fn lemma_attempt_carries_its_id(&self)
        requires
            self.wf(),
        ensures
            self.handed().len() == self.attempts().len(),
            forall|i: int| 0 <= i < self.handed().len() ==> #[trigger] self.handed()[i].frame_id == i,
    {
    }

    pub closed spec fn role(&self) -> Arc<String> {
        self.role_name
    }

    pub closed spec fn outdir(&self) -> Arc<PathBuf> {
        self.sub_outdir
    }

    pub closed spec fn live_view_enabled(&self) -> bool {
        self.gui_tx.is_some()
    }

    /// A producer whose first frame gets id 0. The live-view path is on
    /// where `gui_tx` is given.
    pub fn new(
        role_name: Arc<String>,
        sub_outdir: Arc<PathBuf>,
        aggregator_tx: flume::Sender<LidarMessage<M>>,
        gui_tx: Option<flume::Sender<GuiMessage<M, P>>>,
    ) -> (r: Self)
        ensures
            r.wf(),
            r.attempts() == Seq::<SendStatus>::empty(),
            r.handed() == Seq::<LidarMessage<M>>::empty(),
            r.handed_to_view() == Seq::<GuiMessage<M, P>>::empty(),
            r.role() == role_name,
            r.outdir() == sub_outdir,
            r.live_view_enabled() == gui_tx.is_some(),
    {
        LidarHandler {
            role_name,
            sub_outdir,
            aggregator_tx,
            gui_tx,
            frame_counter: FrameCounter::new(),
            attempts: Ghost(Seq::empty()),
            handed: Ghost(Seq::empty()),
            handed_to_view: Ghost(Seq::empty()),
        }
    }

    pub fn role_name(&self) -> (r: &Arc<String>)
        ensures
            *r == self.role(),
    {
        &self.role_name
    }

    /// The id that the next measurement gets.
    pub fn next_frame_id(&self) -> (r: usize)
        requires
            self.wf(),
        ensures
            r == self.attempts().len(),
    {
        self.frame_counter.peek()
    }

    /// The aggregator's envelope for one frame of this source.
    pub fn envelope(&self, frame_id: usize, measure: Arc<M>) -> (r: LidarMessage<M>)
        ensures
            r == (LidarMessage { frame_id, role_name: self.role(), measure, sub_outdir: self.outdir() }),
    {
        LidarMessage {
            frame_id,
            role_name: share(&self.role_name),
            measure,
            sub_outdir: share(&self.sub_outdir),
        }
    }

    /// Numbers one measurement and publishes it, without blocking, to the
    /// aggregator and, where that path is on, to the live view. The id is
    /// used up whatever becomes of the sends.
    pub fn process_msg(&mut self, measure: M, transform: P) -> (r: PublishReport)
        requires
            old(self).wf(),
            old(self).attempts().len() < usize::MAX,
        ensures
            final(self).wf(),
            r.frame_id == old(self).attempts().len(),
            final(self).attempts() == old(self).attempts().push(r.aggregator),
            final(self).handed().len() == old(self).handed().len() + 1,
            final(self).handed().drop_last() == old(self).handed(),
            final(self).handed().last().frame_id == r.frame_id,
            final(self).handed().last().role_name == old(self).role(),
            final(self).handed().last().sub_outdir == old(self).outdir(),
            *final(self).handed().last().measure == measure,
            final(self).handed_to_view() == (if old(self).live_view_enabled() {
                old(self).handed_to_view().push(
                    GuiMessage {
                        role_name: old(self).role(),
                        measure: final(self).handed().last().measure,
                        transform,
                    },
                )
            } else {
                old(self).handed_to_view()
            }),
            r.live_view.is_some() == old(self).live_view_enabled(),
            final(self).role() == old(self).role(),
            final(self).outdir() == old(self).outdir(),
            final(self).live_view_enabled() == old(self).live_view_enabled(),
    {
        let measure = Arc::new(measure);
        let frame_id = self.frame_counter.next_frame();

        let msg = self.envelope(frame_id, share(&measure));
        self.handed = Ghost(self.handed@.push(msg));
        let aggregator = try_send(&self.aggregator_tx, msg);
        self.attempts = Ghost(self.attempts@.push(aggregator));

        let live_view = match &self.gui_tx {
            Some(tx) => {
                let msg = GuiMessage { role_name: share(&self.role_name), measure, transform };
                self.handed_to_view = Ghost(self.handed_to_view@.push(msg));
                Some(try_send(tx, msg))
            },
            None => None,
        };
        PublishReport { frame_id, aggregator, live_view }
    }
}

} // verus!
