//! What the node's side passes on. `C` is a stretch of the chain.

use vstd::prelude::*;

verus! {

/// What the node's canonical state stream reports.
pub enum CanonStateNotification<C> {
    /// Blocks were added.
    Commit { new: C },
    /// Blocks were replaced by others.
    Reorg { old: C, new: C },
}

/// What subscribers are sent.
pub enum ExExNotification<C> {
    /// Blocks were added.
    ChainCommitted { new: C },
    /// Blocks were replaced by others.
    ChainReorged { old: C, new: C },
    /// Blocks were taken back.
    ChainReverted { old: C },
}

impl<C> CanonStateNotification<C> {
    /// The same as subscribers are sent it.
    pub open spec fn sent(self) -> ExExNotification<C> {
        match self {
            CanonStateNotification::Commit { new } => ExExNotification::ChainCommitted { new },
            CanonStateNotification::Reorg { old: replaced, new } => ExExNotification::ChainReorged {
                old: replaced,
                new,
            },
        }
    }

    pub fn into_notification(self) -> (notification: ExExNotification<C>)
        ensures
            notification == self.sent(),
    {
        match self {
            CanonStateNotification::Commit { new } => ExExNotification::ChainCommitted { new },
            CanonStateNotification::Reorg { old: replaced, new } => ExExNotification::ChainReorged {
                old: replaced,
                new,
            },
        }
    }
}

impl<C> ExExNotification<C> {
    /// The blocks that the notification makes canonical.
    pub open spec fn committed(self) -> Option<C> {
        match self {
            ExExNotification::ChainCommitted { new } => Some(new),
            ExExNotification::ChainReorged { old: _, new } => Some(new),
            ExExNotification::ChainReverted { old: _ } => None,
        }
    }

    pub fn into_committed_chain(self) -> (chain: Option<C>)
        ensures
            chain == self.committed(),
    {
        match self {
            ExExNotification::ChainCommitted { new } => Some(new),
            ExExNotification::ChainReorged { old: _, new } => Some(new),
            ExExNotification::ChainReverted { old: _ } => None,
        }
    }
}

/// What one of the node's two streams brings.
pub enum ExExEvent<C> {
    /// The canonical state stream brings something, or nothing.
    Canon(Option<CanonStateNotification<C>>),
    /// The extension's own stream brings a notification.
    Processed(ExExNotification<C>),
    /// The extension's own stream ended.
    Ended,
    /// The extension's own stream failed.
    Failed,
}

/// What is to be done about it.
pub enum ExExAction<C> {
    /// Send the notification to all subscribers.
    Forward(ExExNotification<C>),
    /// Report the tip of these blocks as finished, so that the node need not
    /// remember the notifications up to it.
    Finish(C),
    /// Go on.
    Continue,
    /// Stop.
    Stop,
}

/// What the event calls for: notifications come from the canonical state
/// stream; the extension's own stream only says what is finished, and when to
/// stop.
pub open spec fn exex_reaction<C>(event: ExExEvent<C>) -> ExExAction<C> {
    match event {
        ExExEvent::Canon(Some(canon)) => ExExAction::Forward(canon.sent()),
        ExExEvent::Canon(None) => ExExAction::Continue,
        ExExEvent::Processed(notification) => match notification.committed() {
            Some(chain) => ExExAction::Finish(chain),
            None => ExExAction::Continue,
        },
        ExExEvent::Ended => ExExAction::Stop,
        ExExEvent::Failed => ExExAction::Stop,
    }
}

pub fn on_exex_event<C>(event: ExExEvent<C>) -> (action: ExExAction<C>)
    ensures
        action == exex_reaction(event),
{
    match event {
        ExExEvent::Canon(Some(canon)) => ExExAction::Forward(canon.into_notification()),
        ExExEvent::Canon(None) => ExExAction::Continue,
        ExExEvent::Processed(notification) => match notification.into_committed_chain() {
            Some(chain) => ExExAction::Finish(chain),
            None => ExExAction::Continue,
        },
        ExExEvent::Ended => ExExAction::Stop,
        ExExEvent::Failed => ExExAction::Stop,
    }
}

/// What the canonical state stream reports is sent to the subscribers as it is:
/// a commit as a commit of the same blocks, a reorg as a reorg of the same old
/// blocks by the same new ones. The extension's own stream makes nothing be
/// sent; of a commit or a reorg the new blocks are reported as finished, of a
/// revert nothing is, and its end or failure stops the extension.
pub proof fn each_stream_has_its_own_effect<C>(replaced: C, new: C)
    ensures
        exex_reaction(ExExEvent::Canon(Some(CanonStateNotification::Commit { new })))
            == ExExAction::Forward(ExExNotification::ChainCommitted { new }),
        exex_reaction(
            ExExEvent::Canon(Some(CanonStateNotification::Reorg { old: replaced, new })),
        ) == ExExAction::Forward(ExExNotification::ChainReorged { old: replaced, new }),
        exex_reaction(ExExEvent::<C>::Canon(None)) is Continue,
        exex_reaction(ExExEvent::Processed(ExExNotification::ChainCommitted { new }))
            == ExExAction::Finish(new),
        exex_reaction(
            ExExEvent::Processed(ExExNotification::ChainReorged { old: replaced, new }),
        ) == ExExAction::Finish(new),
        exex_reaction(
            ExExEvent::Processed(ExExNotification::ChainReverted { old: replaced }),
        ) is Continue,
        exex_reaction(ExExEvent::<C>::Ended) is Stop,
        exex_reaction(ExExEvent::<C>::Failed) is Stop,
{
}

/// A notification of the canonical state stream keeps its blocks when it is
/// sent, and its new blocks are those that it makes canonical.
pub proof fn sent_notification_keeps_its_blocks<C>(replaced: C, new: C)
    ensures
        (CanonStateNotification::Commit { new }).sent() == (ExExNotification::ChainCommitted {
            new,
        }),
        (CanonStateNotification::Reorg { old: replaced, new }).sent() == (
        ExExNotification::ChainReorged { old: replaced, new }),
        (ExExNotification::ChainCommitted { new }).committed() == Some(new),
        (ExExNotification::ChainReorged { old: replaced, new }).committed() == Some(new),
        (ExExNotification::ChainReverted { old: replaced }).committed() is None,
{
}

/// The extension does what each of the node's two streams calls for.
pub proof fn extension_acts_on_each_stream<C>(
    event: ExExEvent<C>,
    action: ExExAction<C>,
)
    requires
        call_ensures(on_exex_event::<C>, (event,), action),
    ensures
        match event {
            ExExEvent::Canon(Some(CanonStateNotification::Commit { new })) => action
                == ExExAction::Forward(ExExNotification::ChainCommitted { new }),
            ExExEvent::Canon(Some(CanonStateNotification::Reorg { old: replaced, new })) => action
                == ExExAction::Forward(ExExNotification::ChainReorged { old: replaced, new }),
            ExExEvent::Canon(None) => action is Continue,
            ExExEvent::Processed(ExExNotification::ChainCommitted { new }) => action
                == ExExAction::Finish(new),
            ExExEvent::Processed(ExExNotification::ChainReorged { old: _, new }) => action
                == ExExAction::Finish(new),
            ExExEvent::Processed(ExExNotification::ChainReverted { old: _ }) => action is Continue,
            ExExEvent::Ended => action is Stop,
            ExExEvent::Failed => action is Stop,
        },
{
}

} // verus!
