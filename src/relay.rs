use vstd::prelude::*;

use crate::event::{EventKind, RecognitionEvent};
use crate::forward::{forward_wf, offer, ForwardError, ForwardQueue};
use crate::hub::{hub_wf, published, Hub};

verus! {

/// Hands one recognition event on: every event goes to the hub's
/// subscribers, and the text of a final event is also queued for webhook
/// delivery. Returns why that text was dropped, if it was.
pub fn dispatch(event: RecognitionEvent, hub: &mut Hub, queue: &mut ForwardQueue) -> (r: Option<
    ForwardError,
>)
    requires
        hub_wf(old(hub)@),
        forward_wf(old(queue)@),
    ensures
        hub_wf(final(hub)@),
        forward_wf(final(queue)@),
        final(hub)@ == published(old(hub)@, event),
        event.kind == EventKind::Final ==> final(queue)@ == offer(old(queue)@, event.text@),
        event.kind != EventKind::Final ==> final(queue)@ == old(queue)@ && r is None,
        event.kind == EventKind::Final ==> (r is None <==> !old(queue)@.closed
            && old(queue)@.items.len() < old(queue)@.capacity),
        event.kind == EventKind::Final && old(queue)@.closed ==> r == Some(ForwardError::Closed),
        event.kind == EventKind::Final && !old(queue)@.closed && old(queue)@.items.len()
            >= old(queue)@.capacity ==> r == Some(ForwardError::QueueFull),
{
    let forward = if event.kind == EventKind::Final {
        Some(event.text.clone())
    } else {
        None
    };
    hub.publish(event);
    match forward {
        Some(text) => match queue.enqueue(text) {
            Ok(()) => None,
            Err(e) => Some(e),
        },
        None => None,
    }
}

} // verus!
