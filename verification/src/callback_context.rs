//! What a callback is handed: a snapshot of the invocation's context, and
//! the one change that a callback may ask for.

use crate::base_agent::HookReply;
use crate::common::{no_actions, Content, EventActions, EventActionsView};
use crate::invocation_context::{InvocationContext, InvocationContextView};
use vstd::prelude::*;

verus! {

/// What a callback context is, to contracts.
pub ghost struct CallbackContextView {
    pub invocation_context: InvocationContextView,
    pub event_actions: EventActionsView,
}

/// The view of an invocation that a callback works on. It holds a copy of
/// the context, so nothing that a callback does to it reaches the run other
/// than through the reply that is made from it.
pub struct CallbackContext {
    invocation_context: InvocationContext,
    event_actions: EventActions,
}

impl View for CallbackContext {
    type V = CallbackContextView;

    closed spec fn view(&self) -> CallbackContextView {
        CallbackContextView {
            invocation_context: self.invocation_context@,
            event_actions: self.event_actions@,
        }
    }
}

impl CallbackContext {
    /// A callback's view of `invocation_context`, with the side effects
    /// given, or with none.
    pub fn new(invocation_context: InvocationContext, event_actions: Option<EventActions>) -> (ctx:
        CallbackContext)
        ensures
            ctx@.invocation_context == invocation_context@,
            ctx@.event_actions == (match event_actions {
                Some(actions) => actions@,
                None => no_actions(),
            }),
    {
        let event_actions = match event_actions {
            Some(actions) => actions,
            None => EventActions::builder().build(),
        };
        CallbackContext { invocation_context, event_actions }
    }

    pub fn invocation_context(&self) -> (ctx: &InvocationContext)
        ensures
            ctx@ == self@.invocation_context,
    {
        &self.invocation_context
    }

    pub fn event_actions(&self) -> (actions: &EventActions)
        ensures
            actions@ == self@.event_actions,
    {
        &self.event_actions
    }

    /// Asks to end the invocation.
    pub fn end_invocation(&mut self)
        ensures
            final(self)@ == (CallbackContextView {
                invocation_context: InvocationContextView {
                    end_invocation: true,
                    ..old(self)@.invocation_context
                },
                ..old(self)@
            }),
    {
        self.invocation_context.set_end_invocation(true);
    }

    /// The reply of the callback that worked on this context and came to
    /// `content`: the content, and whether the invocation is to end.
    pub fn into_reply(self, content: Option<Content>) -> (reply: HookReply)
        ensures
            reply.content == content,
            reply.end_invocation == self@.invocation_context.end_invocation,
    {
        HookReply { content, end_invocation: self.invocation_context.end_invocation() }
    }
}

} // verus!
