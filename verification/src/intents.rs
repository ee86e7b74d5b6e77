//! The queue that carries the user's surface requests from the tray and
//! hotkey to the window: bounded, and when full the oldest request gives
//! way, so the latest one always gets through while anyone listens.
use vstd::prelude::*;

verus! {

/// The model of a latest-intent queue: what it holds, oldest first, how
/// much it holds at most, and whether anyone listens.
pub struct IntentQueueView<T> {
    pub queued: Seq<T>,
    pub capacity: usize,
    pub listening: bool,
}

/// A bounded queue of requests in which a new request displaces the oldest
/// when the queue is full.
pub struct LatestIntentQueue<T> {
    queued: Vec<T>,
    capacity: usize,
    listening: bool,
}

impl<T> View for LatestIntentQueue<T> {
    type V = IntentQueueView<T>;

    closed spec fn view(&self) -> IntentQueueView<T> {
        IntentQueueView { queued: self.queued@, capacity: self.capacity, listening: self.listening }
    }
}

/// Whether the queue holds no more than it may.
pub open spec fn intent_queue_ok<T>(v: IntentQueueView<T>) -> bool {
    v.capacity >= 1 && v.queued.len() <= v.capacity
}

/// The queue after sending `intent` to a listener: the oldest request
/// dropped when it is full, and `intent` last.
pub open spec fn with_intent<T>(v: IntentQueueView<T>, intent: T) -> IntentQueueView<T> {
    IntentQueueView {
        queued: if v.queued.len() < v.capacity {
            v.queued.push(intent)
        } else {
            v.queued.drop_first().push(intent)
        },
        ..v
    }
}

impl<T> LatestIntentQueue<T> {
    /// An empty queue for at most `capacity` requests (at least one), with
    /// a listener.
    pub fn new(capacity: usize) -> (r: Self)
        ensures
            r@ == (IntentQueueView::<T> { queued: Seq::empty(), capacity: if capacity == 0 {
                1
            } else {
                capacity
            }, listening: true }),
            intent_queue_ok(r@),
    {
        let r = LatestIntentQueue { queued: Vec::new(), capacity: if capacity == 0 {
            1
        } else {
            capacity
        }, listening: true };
        assert(r@.queued =~= Seq::<T>::empty());
        r
    }

    /// The listener has gone.
    pub fn close(&mut self)
        ensures
            final(self)@ == (IntentQueueView { listening: false, ..old(self)@ }),
    {
        self.listening = false;
    }

    /// Sends `intent`: refused (`false`) when nobody listens; otherwise
    /// queued last, in place of the oldest request when the queue is full.
    pub fn send(&mut self, intent: T) -> (r: bool)
        requires
            intent_queue_ok(old(self)@),
        ensures
            intent_queue_ok(final(self)@),
            r == old(self)@.listening,
            r ==> final(self)@ == with_intent(old(self)@, intent),
            !r ==> final(self)@ == old(self)@,
    {
        if !self.listening {
            return false;
        }
        let ghost before = self@;
        if self.queued.len() >= self.capacity {
            self.queued.remove(0);
            assert(self.queued@ =~= before.queued.drop_first());
        }
        self.queued.push(intent);
        true
    }

    /// Takes the oldest request, if any.
    pub fn receive(&mut self) -> (r: Option<T>)
        requires
            intent_queue_ok(old(self)@),
        ensures
            intent_queue_ok(final(self)@),
            old(self)@.queued.len() == 0 ==> r is None && final(self)@ == old(self)@,
            old(self)@.queued.len() > 0 ==> r == Some(old(self)@.queued[0]) && final(self)@ == (IntentQueueView {
                queued: old(self)@.queued.drop_first(),
                ..old(self)@
            }),
    {
        if self.queued.len() == 0 {
            None
        } else {
            let ghost before = self@;
            let x = self.queued.remove(0);
            assert(self.queued@ =~= before.queued.drop_first());
            Some(x)
        }
    }
}

/// The latest request gets through: after sending `intent` to a listener
/// the queue still holds no more than it may, and `intent` is the last
/// request in it.
pub proof fn latest_intent_is_kept<T>(v: IntentQueueView<T>, intent: T)
    requires
        intent_queue_ok(v),
    ensures
        intent_queue_ok(with_intent(v, intent)),
        with_intent(v, intent).queued.last() == intent,
{
}

} // verus!
