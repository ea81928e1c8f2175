//! Best-effort delivery of a notification: push it, wait for `Success`, and
//! give up with a final `Error` after a fixed number of attempts.
use vstd::prelude::*;
use crate::kind::CommandKind;
use crate::commands::{Commands, CommandView};
use crate::session::error_view;

verus! {

/// How many times a notification is transmitted before delivery gives up.
pub const DELIVERY_ATTEMPTS: u8 = 3;

/// What to do after a reply from the peer.
pub enum DeliveryStep {
    /// Transmit this frame again and wait for the next reply.
    Send(Commands),
    /// The peer acknowledged the notification.
    Done,
    /// Transmit this final frame and drop the notification.
    GiveUp(Commands),
}

/// The abstract value of a delivery step.
pub enum StepView {
    Send(CommandView),
    Done,
    GiveUp(CommandView),
}

impl View for DeliveryStep {
    type V = StepView;

    open spec fn view(&self) -> StepView {
        match self {
            DeliveryStep::Send(c) => StepView::Send(c@),
            DeliveryStep::Done => StepView::Done,
            DeliveryStep::GiveUp(c) => StepView::GiveUp(c@),
        }
    }
}

/// One reply read while `attempts` transmissions are left (the one just made
/// included): the attempts left after it, and the step to take.
pub open spec fn delivery_step(n: CommandView, attempts: nat, reply: CommandView) -> (nat, StepView) {
    if attempts == 0 {
        (0, StepView::Done)
    } else if reply.0 == CommandKind::Success {
        (0, StepView::Done)
    } else if attempts == 1 {
        (0, StepView::GiveUp(error_view()))
    } else {
        ((attempts - 1) as nat, StepView::Send(n))
    }
}

/// The frames transmitted in answer to the successive `replies`, after the
/// first transmission of `n`.
pub open spec fn transcript(n: CommandView, attempts: nat, replies: Seq<CommandView>) -> Seq<CommandView>
    decreases replies.len(),
{
    if replies.len() == 0 {
        Seq::empty()
    } else {
        match delivery_step(n, attempts, replies[0]).1 {
            StepView::Send(f) => seq![f] + transcript(n, delivery_step(n, attempts, replies[0]).0, replies.drop_first()),
            StepView::Done => Seq::empty(),
            StepView::GiveUp(e) => seq![e],
        }
    }
}

/// A peer that never acknowledges receives the notification exactly three
/// times, then one final `Error`, and nothing more.
pub proof fn lemma_retry_exhaustion(n: CommandView, replies: Seq<CommandView>)
    requires
        replies.len() >= 3,
        forall|i: int| 0 <= i < replies.len() ==> (#[trigger] replies[i]).0 != CommandKind::Success,
    ensures
        seq![n] + transcript(n, DELIVERY_ATTEMPTS as nat, replies) == seq![n, n, n, error_view()],
{
    let r1 = replies.drop_first();
    let r2 = r1.drop_first();
    assert(replies[0].0 != CommandKind::Success);
    assert(r1[0] == replies[1]);
    assert(r2[0] == replies[2]);
    assert(transcript(n, 1, r2) == seq![error_view()]);
    assert(transcript(n, 2, r1) =~= seq![n, error_view()]);
    assert(transcript(n, 3, replies) =~= seq![n, n, error_view()]);
    assert(seq![n] + transcript(n, 3, replies) =~= seq![n, n, n, error_view()]);
}

/// A notification on its way to one peer.
pub struct Delivery {
    notification: Commands,
    attempts_left: u8,
}

impl Delivery {
    pub closed spec fn notification_view(&self) -> CommandView {
        self.notification@
    }

    pub closed spec fn attempts(&self) -> nat {
        self.attempts_left as nat
    }

    /// A delivery of `n` with every attempt still to make.
    pub fn new(n: Commands) -> (r: Delivery)
        ensures
            r.notification_view() == n@,
            r.attempts() == DELIVERY_ATTEMPTS,
    {
        Delivery { notification: n, attempts_left: DELIVERY_ATTEMPTS }
    }

    /// The frame to transmit first.
    pub fn frame(&self) -> (r: Commands)
        ensures
            r@ == self.notification_view(),
    {
        self.notification.clone()
    }

    /// Whether the delivery has ended, acknowledged or not.
    pub fn is_finished(&self) -> (r: bool)
        ensures
            r == (self.attempts() == 0),
    {
        self.attempts_left == 0
    }

    /// Takes the peer's reply to the last transmission.
    pub fn on_reply(&mut self, reply: &Commands) -> (r: DeliveryStep)
        ensures
            (final(self).attempts(), r@) == delivery_step(old(self).notification_view(), old(self).attempts(), reply@),
            final(self).notification_view() == old(self).notification_view(),
    {
        if self.attempts_left == 0 {
            DeliveryStep::Done
        } else if reply.kind() == CommandKind::Success {
            self.attempts_left = 0;
            DeliveryStep::Done
        } else if self.attempts_left == 1 {
            self.attempts_left = 0;
            DeliveryStep::GiveUp(Commands::Error)
        } else {
            self.attempts_left = self.attempts_left - 1;
            DeliveryStep::Send(self.notification.clone())
        }
    }
}

} // verus!
