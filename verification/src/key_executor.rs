//! The key executor: which modifiers are held down, and the key events that
//! running an operation calls for.
//!
//! The executor does not inject keys itself. It answers with the events to
//! inject, in order, and remembers which modifiers those events leave held.

use vstd::prelude::*;
use crate::key::{Key, Modifier};
use crate::operation::{Operation, OperationView};

verus! {

/// One key event to inject on the host.
#[derive(Clone, Copy, Debug, PartialEq, Eq, Structural)]
pub enum KeyEvent {
    /// Press a modifier and keep it down.
    Down(Modifier),
    /// Let go of a modifier.
    Up(Modifier),
    /// Press and let go of a key.
    Click(Key),
}

/// Which modifiers are held down.
#[derive(Clone, Copy, Debug, PartialEq, Eq, Structural)]
pub struct Held {
    pub ctrl: bool,
    pub shift: bool,
    pub alt: bool,
    pub meta: bool,
    pub caps_lock: bool,
}

impl Held {
    /// No modifier held.
    pub open spec fn none() -> Held {
        Held { ctrl: false, shift: false, alt: false, meta: false, caps_lock: false }
    }

    /// Every modifier held.
    pub open spec fn all() -> Held {
        Held { ctrl: true, shift: true, alt: true, meta: true, caps_lock: true }
    }

    /// Whether `modifier` is held.
    pub open spec fn holds(self, modifier: Modifier) -> bool {
        match modifier {
            Modifier::Ctrl => self.ctrl,
            Modifier::Shift => self.shift,
            Modifier::Alt => self.alt,
            Modifier::Meta => self.meta,
            Modifier::CapsLock => self.caps_lock,
        }
    }

    /// The same modifiers, but `modifier` held or not as `down` says.
    pub open spec fn with(self, modifier: Modifier, down: bool) -> Held {
        match modifier {
            Modifier::Ctrl => Held { ctrl: down, ..self },
            Modifier::Shift => Held { shift: down, ..self },
            Modifier::Alt => Held { alt: down, ..self },
            Modifier::Meta => Held { meta: down, ..self },
            Modifier::CapsLock => Held { caps_lock: down, ..self },
        }
    }

    /// Whether `modifier` is held.
    pub fn is_held(&self, modifier: Modifier) -> (held: bool)
        ensures
            held == self.holds(modifier),
    {
        match modifier {
            Modifier::Ctrl => self.ctrl,
            Modifier::Shift => self.shift,
            Modifier::Alt => self.alt,
            Modifier::Meta => self.meta,
            Modifier::CapsLock => self.caps_lock,
        }
    }

    /// Marks `modifier` as held or not.
    pub fn set(&mut self, modifier: Modifier, down: bool)
        ensures
            *final(self) == old(self).with(modifier, down),
    {
        match modifier {
            Modifier::Ctrl => {
                self.ctrl = down;
            },
            Modifier::Shift => {
                self.shift = down;
            },
            Modifier::Alt => {
                self.alt = down;
            },
            Modifier::Meta => {
                self.meta = down;
            },
            Modifier::CapsLock => {
                self.caps_lock = down;
            },
        }
    }
}

/// Tracks the modifiers that are held down and the object whose operation
/// ran last.
#[derive(Debug)]
pub struct KeyExecutor {
    pub(crate) last_executed_object_id: i32,
    pub(crate) held: Held,
}

/// The mathematical value of a [`KeyExecutor`].
pub struct KeyExecutorView {
    pub last_object: int,
    pub held: Held,
}

impl View for KeyExecutor {
    type V = KeyExecutorView;

    open(crate) spec fn view(&self) -> KeyExecutorView {
        KeyExecutorView { last_object: self.last_executed_object_id as int, held: self.held }
    }
}

/// An executor together with the events issued so far.
pub struct Trace {
    pub executor: KeyExecutorView,
    pub events: Seq<KeyEvent>,
}

impl Trace {
    /// Holds `modifier` down: one `Down` event, unless it is held already.
    pub open spec fn press(self, modifier: Modifier) -> Trace {
        if self.executor.held.holds(modifier) {
            self
        } else {
            Trace {
                executor: KeyExecutorView {
                    held: self.executor.held.with(modifier, true),
                    ..self.executor
                },
                events: self.events.push(KeyEvent::Down(modifier)),
            }
        }
    }

    /// Lets go of `modifier`: one `Up` event, unless it is not held.
    pub open spec fn release(self, modifier: Modifier) -> Trace {
        if self.executor.held.holds(modifier) {
            Trace {
                executor: KeyExecutorView {
                    held: self.executor.held.with(modifier, false),
                    ..self.executor
                },
                events: self.events.push(KeyEvent::Up(modifier)),
            }
        } else {
            self
        }
    }

    /// Holds `modifier` down if `wanted`.
    pub open spec fn press_if(self, wanted: bool, modifier: Modifier) -> Trace {
        if wanted {
            self.press(modifier)
        } else {
            self
        }
    }

    /// Lets go of `modifier` if `wanted`.
    pub open spec fn release_if(self, wanted: bool, modifier: Modifier) -> Trace {
        if wanted {
            self.release(modifier)
        } else {
            self
        }
    }

    /// Holds down each modifier of `which`, in the order ctrl, shift, alt,
    /// meta, caps lock.
    #[verifier::opaque]
    pub open spec fn press_each(self, which: Held) -> Trace {
        self.press_if(which.ctrl, Modifier::Ctrl).press_if(which.shift, Modifier::Shift).press_if(
            which.alt,
            Modifier::Alt,
        ).press_if(which.meta, Modifier::Meta).press_if(which.caps_lock, Modifier::CapsLock)
    }

    /// Lets go of each modifier of `which`, in the order ctrl, shift, alt,
    /// meta, caps lock.
    #[verifier::opaque]
    pub open spec fn release_each(self, which: Held) -> Trace {
        self.release_if(which.ctrl, Modifier::Ctrl).release_if(
            which.shift,
            Modifier::Shift,
        ).release_if(which.alt, Modifier::Alt).release_if(which.meta, Modifier::Meta).release_if(
            which.caps_lock,
            Modifier::CapsLock,
        )
    }

    /// Lets go of every modifier, in the order ctrl, shift, alt, meta, caps lock.
    pub open spec fn release_all(self) -> Trace {
        self.release_each(Held::all())
    }

    /// Presses and lets go of `key`.
    pub open spec fn click(self, key: Key) -> Trace {
        Trace { executor: self.executor, events: self.events.push(KeyEvent::Click(key)) }
    }
}

impl KeyExecutorView {
    /// What running `operation` for the object `object_id` does.
    ///
    /// Only a key combination does anything. When the object differs from the
    /// one that ran last, every held modifier is let go first. Then each
    /// modifier of the combination is pressed unless it is held already, the key
    /// is clicked, and ctrl, shift and alt are let go unless marked sticky; meta
    /// and caps lock are always let go.
    pub open spec fn execute(
        self,
        object_id: int,
        operation: OperationView,
        sticky_ctrl: bool,
        sticky_shift: bool,
        sticky_alt: bool,
    ) -> Trace {
        let start = Trace { executor: self, events: Seq::<KeyEvent>::empty() };
        match operation {
            OperationView::Shortcut(_, _, _, _, _, key) => {
                let fresh = if object_id != self.last_object {
                    Trace {
                        executor: KeyExecutorView { last_object: object_id, ..self },
                        ..start
                    }.release_all()
                } else {
                    start
                };
                fresh.press_each(operation.modifiers()).click(key).release_each(
                    loose(sticky_ctrl, sticky_shift, sticky_alt),
                )
            },
            _ => start,
        }
    }
}

/// The modifiers that an execution lets go of at its end: ctrl, shift and alt
/// unless marked sticky, and always meta and caps lock.
pub open spec fn loose(sticky_ctrl: bool, sticky_shift: bool, sticky_alt: bool) -> Held {
    Held {
        ctrl: !sticky_ctrl,
        shift: !sticky_shift,
        alt: !sticky_alt,
        meta: true,
        caps_lock: true,
    }
}

impl OperationView {
    /// The modifiers that the operation holds while its key is pressed. Only a
    /// key combination holds any.
    pub open spec fn modifiers(self) -> Held {
        match self {
            OperationView::Shortcut(ctrl, shift, alt, meta, caps_lock, _) => Held {
                ctrl,
                shift,
                alt,
                meta,
                caps_lock,
            },
            _ => Held::none(),
        }
    }
}

impl KeyExecutor {
    /// An executor that holds no modifier. No object has the identifier it
    /// starts with unless the configuration uses -1.
    pub fn new() -> (executor: KeyExecutor)
        ensures
            executor@ == (KeyExecutorView { last_object: -1, held: Held::none() }),
    {
        KeyExecutor {
            last_executed_object_id: -1,
            held: Held { ctrl: false, shift: false, alt: false, meta: false, caps_lock: false },
        }
    }

    /// The identifier of the object whose operation ran last.
    pub fn last_executed_object_id(&self) -> (id: i32)
        ensures
            id == self@.last_object,
    {
        self.last_executed_object_id
    }

    /// Which modifiers are held down.
    pub fn held(&self) -> (held: Held)
        ensures
            held == self@.held,
    {
        self.held
    }

    /// Holds `modifier` down, adding the event to `events` if one is needed.
    pub fn press(&mut self, modifier: Modifier, events: &mut Vec<KeyEvent>)
        ensures
            (Trace { executor: final(self)@, events: final(events)@ }) == (Trace {
                executor: old(self)@,
                events: old(events)@,
            }).press(modifier),
    {
        if !self.held.is_held(modifier) {
            events.push(KeyEvent::Down(modifier));
            self.held.set(modifier, true);
        }
    }

    /// Lets go of `modifier`, adding the event to `events` if one is needed.
    pub fn release(&mut self, modifier: Modifier, events: &mut Vec<KeyEvent>)
        ensures
            (Trace { executor: final(self)@, events: final(events)@ }) == (Trace {
                executor: old(self)@,
                events: old(events)@,
            }).release(modifier),
    {
        if self.held.is_held(modifier) {
            events.push(KeyEvent::Up(modifier));
            self.held.set(modifier, false);
        }
    }

    /// Lets go of every modifier that is held, adding the events to `events`.
    pub fn release_modifiers(&mut self, events: &mut Vec<KeyEvent>)
        ensures
            (Trace { executor: final(self)@, events: final(events)@ }) == (Trace {
                executor: old(self)@,
                events: old(events)@,
            }).release_all(),
    {
        reveal(Trace::release_each);
        self.release(Modifier::Ctrl, events);
        self.release(Modifier::Shift, events);
        self.release(Modifier::Alt, events);
        self.release(Modifier::Meta, events);
        self.release(Modifier::CapsLock, events);
    }

    /// Runs `operation` for the object `object_id` and answers with the key
    /// events to inject, in order.
    pub fn execute(
        &mut self,
        object_id: i32,
        operation: &Operation,
        sticky_ctrl: bool,
        sticky_shift: bool,
        sticky_alt: bool,
    ) -> (events: Vec<KeyEvent>)
        ensures
            (Trace { executor: final(self)@, events: events@ }) == old(self)@.execute(
                object_id as int,
                operation@,
                sticky_ctrl,
                sticky_shift,
                sticky_alt,
            ),
    {
        let mut events: Vec<KeyEvent> = Vec::new();
        reveal(Trace::press_each);
        reveal(Trace::release_each);
        match operation {
            Operation::Shortcut(ctrl, shift, alt, meta, caps_lock, key) => {
                if object_id != self.last_executed_object_id {
                    self.last_executed_object_id = object_id;
                    self.release_modifiers(&mut events);
                }
                if *ctrl {
                    self.press(Modifier::Ctrl, &mut events);
                }
                if *shift {
                    self.press(Modifier::Shift, &mut events);
                }
                if *alt {
                    self.press(Modifier::Alt, &mut events);
                }
                if *meta {
                    self.press(Modifier::Meta, &mut events);
                }
                if *caps_lock {
                    self.press(Modifier::CapsLock, &mut events);
                }
                events.push(KeyEvent::Click(*key));
                if !sticky_ctrl {
                    self.release(Modifier::Ctrl, &mut events);
                }
                if !sticky_shift {
                    self.release(Modifier::Shift, &mut events);
                }
                if !sticky_alt {
                    self.release(Modifier::Alt, &mut events);
                }
                self.release(Modifier::Meta, &mut events);
                self.release(Modifier::CapsLock, &mut events);
            },
            _ => {},
        }
        events
    }
}

} // verus!

verus! {

/// The modifiers held after `events` are injected in order, starting from
/// `held`. There is no answer when an event presses a modifier that is
/// already down or lets go of one that is not: such an event would reach the
/// host twice.
pub open spec fn replay(held: Held, events: Seq<KeyEvent>) -> Option<Held>
    decreases events.len(),
{
    if events.len() == 0 {
        Some(held)
    } else {
        match replay(held, events.drop_last()) {
            Some(now) => match events.last() {
                KeyEvent::Down(modifier) => if now.holds(modifier) {
                    None
                } else {
                    Some(now.with(modifier, true))
                },
                KeyEvent::Up(modifier) => if now.holds(modifier) {
                    Some(now.with(modifier, false))
                } else {
                    None
                },
                KeyEvent::Click(_) => Some(now),
            },
            None => None,
        }
    }
}

/// How many times `event` occurs in `events`.
pub open spec fn occurrences(events: Seq<KeyEvent>, event: KeyEvent) -> nat
    decreases events.len(),
{
    if events.len() == 0 {
        0
    } else {
        occurrences(events.drop_last(), event) + if events.last() == event {
            1nat
        } else {
            0nat
        }
    }
}

/// Whether the events of `trace` replay from `start` to the modifiers that its
/// executor holds.
pub open spec fn faithful(start: Held, trace: Trace) -> bool {
    replay(start, trace.events) == Some(trace.executor.held)
}

/// Counting over two runs of events adds up.
pub proof fn lemma_occurrences_concat(first: Seq<KeyEvent>, second: Seq<KeyEvent>, event: KeyEvent)
    ensures
        occurrences(first + second, event) == occurrences(first, event) + occurrences(
            second,
            event,
        ),
    decreases second.len(),
{
    if second.len() == 0 {
        assert(first + second == first);
    } else {
        lemma_occurrences_concat(first, second.drop_last(), event);
        assert((first + second).drop_last() == first + second.drop_last());
    }
}

/// 1 if `condition` holds, else 0.
pub open spec fn one_if(condition: bool) -> nat {
    if condition {
        1
    } else {
        0
    }
}

proof fn lemma_press(start: Held, trace: Trace, wanted: bool, modifier: Modifier, event: KeyEvent)
    ensures
        occurrences(trace.press_if(wanted, modifier).events, event) == occurrences(
            trace.events,
            event,
        ) + one_if(wanted && !trace.executor.held.holds(modifier) && event == KeyEvent::Down(modifier)),
        faithful(start, trace) ==> faithful(start, trace.press_if(wanted, modifier)),
        trace.press_if(wanted, modifier).executor == (KeyExecutorView {
            held: trace.executor.held.with(
                modifier,
                wanted || trace.executor.held.holds(modifier),
            ),
            ..trace.executor
        }),
{
    assert(trace.events.push(KeyEvent::Down(modifier)).drop_last() == trace.events);
}

proof fn lemma_release(start: Held, trace: Trace, wanted: bool, modifier: Modifier, event: KeyEvent)
    ensures
        occurrences(trace.release_if(wanted, modifier).events, event) == occurrences(
            trace.events,
            event,
        ) + one_if(wanted && trace.executor.held.holds(modifier) && event == KeyEvent::Up(modifier)),
        faithful(start, trace) ==> faithful(start, trace.release_if(wanted, modifier)),
        trace.release_if(wanted, modifier).executor == (KeyExecutorView {
            held: trace.executor.held.with(
                modifier,
                !wanted && trace.executor.held.holds(modifier),
            ),
            ..trace.executor
        }),
{
    assert(trace.events.push(KeyEvent::Up(modifier)).drop_last() == trace.events);
}

proof fn lemma_click(start: Held, trace: Trace, key: Key, event: KeyEvent)
    ensures
        occurrences(trace.click(key).events, event) == occurrences(trace.events, event) + one_if(
            event == KeyEvent::Click(key),
        ),
        faithful(start, trace) ==> faithful(start, trace.click(key)),
{
    assert(trace.events.push(KeyEvent::Click(key)).drop_last() == trace.events);
}

proof fn lemma_press_each(start: Held, trace: Trace, which: Held, event: KeyEvent)
    ensures
        occurrences(trace.press_each(which).events, event) == occurrences(trace.events, event)
            + one_if(
            event matches KeyEvent::Down(m) && which.holds(m) && !trace.executor.held.holds(m),
        ),
        faithful(start, trace) ==> faithful(start, trace.press_each(which)),
        trace.press_each(which).executor.last_object == trace.executor.last_object,
        forall|m: Modifier| #[trigger]
            trace.press_each(which).executor.held.holds(m) == (trace.executor.held.holds(m)
                || which.holds(m)),
{
    reveal(Trace::press_each);
    let t1 = trace.press_if(which.ctrl, Modifier::Ctrl);
    let t2 = t1.press_if(which.shift, Modifier::Shift);
    let t3 = t2.press_if(which.alt, Modifier::Alt);
    let t4 = t3.press_if(which.meta, Modifier::Meta);
    lemma_press(start, trace, which.ctrl, Modifier::Ctrl, event);
    lemma_press(start, t1, which.shift, Modifier::Shift, event);
    lemma_press(start, t2, which.alt, Modifier::Alt, event);
    lemma_press(start, t3, which.meta, Modifier::Meta, event);
    lemma_press(start, t4, which.caps_lock, Modifier::CapsLock, event);
}

proof fn lemma_release_each(start: Held, trace: Trace, which: Held, event: KeyEvent)
    ensures
        occurrences(trace.release_each(which).events, event) == occurrences(trace.events, event)
            + one_if(
            event matches KeyEvent::Up(m) && which.holds(m) && trace.executor.held.holds(m),
        ),
        faithful(start, trace) ==> faithful(start, trace.release_each(which)),
        trace.release_each(which).executor.last_object == trace.executor.last_object,
        forall|m: Modifier| #[trigger]
            trace.release_each(which).executor.held.holds(m) == (trace.executor.held.holds(m)
                && !which.holds(m)),
{
    reveal(Trace::release_each);
    let t1 = trace.release_if(which.ctrl, Modifier::Ctrl);
    let t2 = t1.release_if(which.shift, Modifier::Shift);
    let t3 = t2.release_if(which.alt, Modifier::Alt);
    let t4 = t3.release_if(which.meta, Modifier::Meta);
    lemma_release(start, trace, which.ctrl, Modifier::Ctrl, event);
    lemma_release(start, t1, which.shift, Modifier::Shift, event);
    lemma_release(start, t2, which.alt, Modifier::Alt, event);
    lemma_release(start, t3, which.meta, Modifier::Meta, event);
    lemma_release(start, t4, which.caps_lock, Modifier::CapsLock, event);
}

/// The account of an execution, for one kind of event.
proof fn lemma_execute_steps(
    before: KeyExecutorView,
    object_id: int,
    operation: OperationView,
    sticky_ctrl: bool,
    sticky_shift: bool,
    sticky_alt: bool,
    event: KeyEvent,
)
    ensures
        ({
            let trace = before.execute(
                object_id,
                operation,
                sticky_ctrl,
                sticky_shift,
                sticky_alt,
            );
            let unstuck = loose(sticky_ctrl, sticky_shift, sticky_alt);
            &&& faithful(before.held, trace)
            &&& operation is Shortcut ==> {
                &&& trace.executor.last_object == object_id
                &&& forall|m: Modifier| #[trigger]
                    trace.executor.held.holds(m) == (((object_id == before.last_object
                        && before.held.holds(m)) || operation.modifiers().holds(m))
                        && !unstuck.holds(m))
                &&& event matches KeyEvent::Down(m) ==> occurrences(trace.events, event) == one_if(
                    operation.modifiers().holds(m) && !(object_id == before.last_object
                        && before.held.holds(m)),
                )
                &&& event matches KeyEvent::Up(m) ==> occurrences(trace.events, event) == one_if(
                    object_id != before.last_object && before.held.holds(m),
                ) + one_if(
                    ((object_id == before.last_object && before.held.holds(m))
                        || operation.modifiers().holds(m)) && unstuck.holds(m),
                )
                &&& event matches KeyEvent::Click(k) ==> occurrences(trace.events, event) == one_if(
                    k == operation->Shortcut_5,
                )
            }
        }),
{
    let start = Trace { executor: before, events: Seq::<KeyEvent>::empty() };
    let origin = before.held;
    assert(faithful(origin, start));
    if operation is Shortcut {
        let key = operation->Shortcut_5;
        let renamed = Trace {
            executor: KeyExecutorView { last_object: object_id, ..before },
            ..start
        };
        let fresh = if object_id != before.last_object {
            renamed.release_all()
        } else {
            start
        };
        lemma_release_each(origin, renamed, Held::all(), event);
        let pressed = fresh.press_each(operation.modifiers());
        lemma_press_each(origin, fresh, operation.modifiers(), event);
        let clicked = pressed.click(key);
        lemma_click(origin, pressed, key, event);
        let unstuck = loose(sticky_ctrl, sticky_shift, sticky_alt);
        lemma_release_each(origin, clicked, unstuck, event);
        let trace = clicked.release_each(unstuck);
        assert(trace == before.execute(
            object_id,
            operation,
            sticky_ctrl,
            sticky_shift,
            sticky_alt,
        ));
        assert forall|m: Modifier| #[trigger]
            trace.executor.held.holds(m) == (((object_id == before.last_object
                && before.held.holds(m)) || operation.modifiers().holds(m)) && !unstuck.holds(
                m,
            )) by {
            assert(clicked.executor == pressed.executor);
            assert(pressed.executor.held.holds(m) == (fresh.executor.held.holds(m)
                || operation.modifiers().holds(m)));
            assert(renamed.release_all().executor.held.holds(m) == (renamed.executor.held.holds(m)
                && !Held::all().holds(m)));
        }
        match event {
            KeyEvent::Down(m) => {
                assert(pressed.executor.held.holds(m) == (fresh.executor.held.holds(m)
                    || operation.modifiers().holds(m)));
                assert(renamed.release_all().executor.held.holds(m) == (
                renamed.executor.held.holds(m) && !Held::all().holds(m)));
            },
            KeyEvent::Up(m) => {
                assert(clicked.executor == pressed.executor);
                assert(pressed.executor.held.holds(m) == (fresh.executor.held.holds(m)
                    || operation.modifiers().holds(m)));
                assert(renamed.release_all().executor.held.holds(m) == (
                renamed.executor.held.holds(m) && !Held::all().holds(m)));
            },
            KeyEvent::Click(k) => {},
        }
    }
}

/// The events of an execution never press a modifier that is down nor let go
/// of one that is not: injected in order on a host that holds what the
/// executor held before, they leave held exactly what the executor holds after.
pub proof fn lemma_execute_faithful(
    before: KeyExecutorView,
    object_id: int,
    operation: OperationView,
    sticky_ctrl: bool,
    sticky_shift: bool,
    sticky_alt: bool,
)
    ensures
        faithful(
            before.held,
            before.execute(object_id, operation, sticky_ctrl, sticky_shift, sticky_alt),
        ),
{
    lemma_execute_steps(
        before,
        object_id,
        operation,
        sticky_ctrl,
        sticky_shift,
        sticky_alt,
        KeyEvent::Up(Modifier::Ctrl),
    );
}

/// What one execution of a key combination issues and leaves held, modifier
/// by modifier.
///
/// A modifier is let go at the start when it was held for another object. It
/// is pressed once when the combination holds it and it is not down by then.
/// It is let go at the end when it is down by then and not sticky. It stays
/// held only when it is sticky. The key is clicked once.
pub proof fn lemma_execute_counts(
    before: KeyExecutorView,
    object_id: int,
    operation: OperationView,
    sticky_ctrl: bool,
    sticky_shift: bool,
    sticky_alt: bool,
    modifier: Modifier,
)
    requires
        operation is Shortcut,
    ensures
        ({
            let trace = before.execute(
                object_id,
                operation,
                sticky_ctrl,
                sticky_shift,
                sticky_alt,
            );
            let dropped = object_id != before.last_object && before.held.holds(modifier);
            let kept = object_id == before.last_object && before.held.holds(modifier);
            let down = kept || operation.modifiers().holds(modifier);
            let stays = !loose(sticky_ctrl, sticky_shift, sticky_alt).holds(modifier);
            &&& trace.executor.last_object == object_id
            &&& trace.executor.held.holds(modifier) == (down && stays)
            &&& occurrences(trace.events, KeyEvent::Down(modifier)) == one_if(
                operation.modifiers().holds(modifier) && !kept,
            )
            &&& occurrences(trace.events, KeyEvent::Up(modifier)) == one_if(dropped) + one_if(
                down && !stays,
            )
            &&& occurrences(trace.events, KeyEvent::Click(operation->Shortcut_5)) == 1
        }),
{
    lemma_execute_steps(
        before,
        object_id,
        operation,
        sticky_ctrl,
        sticky_shift,
        sticky_alt,
        KeyEvent::Down(modifier),
    );
    lemma_execute_steps(
        before,
        object_id,
        operation,
        sticky_ctrl,
        sticky_shift,
        sticky_alt,
        KeyEvent::Up(modifier),
    );
    lemma_execute_steps(
        before,
        object_id,
        operation,
        sticky_ctrl,
        sticky_shift,
        sticky_alt,
        KeyEvent::Click(operation->Shortcut_5),
    );
    let trace = before.execute(object_id, operation, sticky_ctrl, sticky_shift, sticky_alt);
    assert(trace.executor.held.holds(modifier) == (((object_id == before.last_object
        && before.held.holds(modifier)) || operation.modifiers().holds(modifier)) && !loose(
        sticky_ctrl,
        sticky_shift,
        sticky_alt,
    ).holds(modifier)));
}

/// A sticky ctrl is pressed once and stays down. When two key combinations run
/// for the same object with ctrl marked sticky, at least one of them holding
/// ctrl, and ctrl is not down beforehand, then both executions together press
/// ctrl exactly once and never let go of it. An execution for another object
/// then lets go of ctrl before anything else, whether or not its combination
/// holds ctrl.
pub proof fn lemma_sticky_ctrl(
    before: KeyExecutorView,
    object_id: int,
    first: OperationView,
    second: OperationView,
    sticky_shift: bool,
    sticky_alt: bool,
    other_id: int,
    third: OperationView,
    third_sticky_ctrl: bool,
    third_sticky_shift: bool,
    third_sticky_alt: bool,
)
    requires
        first is Shortcut,
        second is Shortcut,
        first.modifiers().ctrl || second.modifiers().ctrl,
        third is Shortcut,
        !before.held.ctrl,
        other_id != object_id,
    ensures
        ({
            let one = before.execute(object_id, first, true, sticky_shift, sticky_alt);
            let two = one.executor.execute(object_id, second, true, sticky_shift, sticky_alt);
            let three = two.executor.execute(
                other_id,
                third,
                third_sticky_ctrl,
                third_sticky_shift,
                third_sticky_alt,
            );
            &&& occurrences(one.events + two.events, KeyEvent::Down(Modifier::Ctrl)) == 1
            &&& occurrences(one.events + two.events, KeyEvent::Up(Modifier::Ctrl)) == 0
            &&& two.executor.held.ctrl
            &&& three.events.len() > 0
            &&& three.events[0] == KeyEvent::Up(Modifier::Ctrl)
        }),
{
    let one = before.execute(object_id, first, true, sticky_shift, sticky_alt);
    let two = one.executor.execute(object_id, second, true, sticky_shift, sticky_alt);
    lemma_execute_counts(before, object_id, first, true, sticky_shift, sticky_alt, Modifier::Ctrl);
    lemma_execute_counts(
        one.executor,
        object_id,
        second,
        true,
        sticky_shift,
        sticky_alt,
        Modifier::Ctrl,
    );
    lemma_occurrences_concat(one.events, two.events, KeyEvent::Down(Modifier::Ctrl));
    lemma_occurrences_concat(one.events, two.events, KeyEvent::Up(Modifier::Ctrl));
    assert(two.executor.held.holds(Modifier::Ctrl));
    lemma_first_event(
        two.executor,
        other_id,
        third,
        third_sticky_ctrl,
        third_sticky_shift,
        third_sticky_alt,
    );
}

/// An execution for a new object while ctrl is held starts by letting go of ctrl.
proof fn lemma_first_event(
    before: KeyExecutorView,
    object_id: int,
    operation: OperationView,
    sticky_ctrl: bool,
    sticky_shift: bool,
    sticky_alt: bool,
)
    requires
        operation is Shortcut,
        before.held.ctrl,
        object_id != before.last_object,
    ensures
        before.execute(object_id, operation, sticky_ctrl, sticky_shift, sticky_alt).events.len()
            > 0,
        before.execute(object_id, operation, sticky_ctrl, sticky_shift, sticky_alt).events[0]
            == KeyEvent::Up(Modifier::Ctrl),
{
    let start = Trace { executor: before, events: Seq::<KeyEvent>::empty() };
    let renamed = Trace {
        executor: KeyExecutorView { last_object: object_id, ..before },
        ..start
    };
    let fresh = renamed.release_all();
    assert(fresh.events.len() > 0 && fresh.events[0] == KeyEvent::Up(Modifier::Ctrl)) by {
        reveal(Trace::release_each);
    }
    let pressed = fresh.press_each(operation.modifiers());
    assert(pressed.events.len() > 0 && pressed.events[0] == KeyEvent::Up(Modifier::Ctrl)) by {
        reveal(Trace::press_each);
    }
    let clicked = pressed.click(operation->Shortcut_5);
    let done = clicked.release_each(loose(sticky_ctrl, sticky_shift, sticky_alt));
    assert(done.events.len() > 0 && done.events[0] == KeyEvent::Up(Modifier::Ctrl)) by {
        reveal(Trace::release_each);
    }
}

} // verus!

verus! {

/// Replaying two runs of events one after the other is replaying the second
/// from where the first ends.
pub proof fn lemma_replay_concat(held: Held, first: Seq<KeyEvent>, second: Seq<KeyEvent>)
    ensures
        replay(held, first + second) == match replay(held, first) {
            Some(between) => replay(between, second),
            None => None,
        },
    decreases second.len(),
{
    if second.len() == 0 {
        assert(first + second == first);
    } else {
        lemma_replay_concat(held, first, second.drop_last());
        assert((first + second).drop_last() == first + second.drop_last());
        assert((first + second).last() == second.last());
    }
}

} // verus!
