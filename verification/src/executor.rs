//! The execution engine: resolves each input event against the active scheme
//! and the braille engine, and answers with the key events to inject and the
//! feedback to send.

use vstd::prelude::*;
use crate::binding::{BindingsView, CommandBinding, CommandBindingView, SchemeView};
use crate::braille::{BrailleSchemeView, MappingNotFound};
use crate::error::ConfigError;
use crate::gesture::{classify, Gesture, GestureView, Slot, SlotOperation};
use crate::key_executor::{
    faithful, lemma_execute_faithful, lemma_replay_concat, Held, KeyEvent, KeyExecutor,
    KeyExecutorView, Trace,
};
use crate::lookup::{
    first_where, lemma_first_where, lemma_first_where_found, lemma_first_where_none, views,
};
use crate::message::{ClientMessage, ClientMessageView};
use crate::model::ActionView;
use crate::operation::{Operation, OperationView};
use crate::ring::{lemma_selection_wf, SlotBinding, SlotBindingView};
use crate::settings::{Settings, SettingsView};
use crate::text::same_text;

verus! {

/// What processing one input event calls for: key events to inject on the
/// host, in order, and feedback to send to every client, in order.
#[derive(Debug, PartialEq, Eq)]
pub struct Outcome {
    pub key_events: Vec<KeyEvent>,
    pub feedback: Vec<String>,
}

/// The mathematical value of an [`Outcome`].
pub struct OutcomeView {
    pub key_events: Seq<KeyEvent>,
    pub feedback: Seq<Seq<char>>,
}

impl View for Outcome {
    type V = OutcomeView;

    open spec fn view(&self) -> OutcomeView {
        OutcomeView { key_events: self.key_events@, feedback: views(self.feedback@) }
    }
}

impl OutcomeView {
    /// No key event and no feedback.
    pub open spec fn nothing() -> OutcomeView {
        OutcomeView { key_events: Seq::<KeyEvent>::empty(), feedback: Seq::<Seq<char>>::empty() }
    }
}

impl Outcome {
    /// No key event and no feedback.
    pub fn nothing() -> (outcome: Outcome)
        ensures
            outcome@ == OutcomeView::nothing(),
    {
        let outcome = Outcome { key_events: Vec::new(), feedback: Vec::new() };
        assert(outcome@.feedback =~= Seq::<Seq<char>>::empty());
        outcome
    }
}

/// The condition of being a command binding that `gesture` triggers: the
/// same shape, finger count and modifier count.
pub open spec fn triggered_by(gesture: GestureView) -> spec_fn(CommandBindingView) -> bool {
    |binding: CommandBindingView|
        binding.gesture_shape_instance == gesture.shape && binding.finger_count
            == gesture.finger_count && binding.modifier_count == gesture.modifier_count
}

impl SlotBindingView {
    /// Whether a gesture with the slot `slot` addresses this binding: the
    /// same slot, finger count and modifier count.
    pub open spec fn addressed_by(self, slot: Slot, gesture: GestureView) -> bool {
        self.slot == slot.name() && self.finger_count == gesture.finger_count
            && self.modifier_count == gesture.modifier_count
    }

    /// The binding after the slot operation `operation`. Running an action
    /// does not change the binding.
    pub open spec fn applied(self, operation: SlotOperation) -> SlotBindingView {
        match operation {
            SlotOperation::PreviousAction => self.previous(),
            SlotOperation::NextAction => self.next(),
            SlotOperation::DefaultAction => self.reset(),
            _ => self,
        }
    }
}

/// A pass of a slot gesture over slot bindings: the bindings handled so far,
/// the key executor, and the key events and feedback gathered.
pub struct SlotRun {
    pub bindings: Seq<SlotBindingView>,
    pub executor: KeyExecutorView,
    pub events: Seq<KeyEvent>,
    pub feedback: Seq<Seq<char>>,
}

impl SlotRun {
    /// The pass with the operation of `action` run, forward or backward.
    pub open spec fn ran(self, action: ActionView, forward: bool) -> SlotRun {
        let trace = self.executor.execute(
            action.id as int,
            if forward {
                action.forward_operation
            } else {
                action.backward_operation
            },
            action.sticky_ctrl,
            action.sticky_shift,
            action.sticky_alt,
        );
        SlotRun { executor: trace.executor, events: self.events + trace.events, ..self }
    }

    /// The pass after one more binding.
    ///
    /// A binding that the gesture does not address is passed over. On one that
    /// it addresses, `Forward` and `Backward` run the operation of the selected
    /// action, if there is one; the other slot operations move the selection
    /// and name the action then selected, if there is one, as feedback.
    pub open spec fn step(
        self,
        binding: SlotBindingView,
        slot: Slot,
        operation: SlotOperation,
        gesture: GestureView,
    ) -> SlotRun {
        let after = if binding.addressed_by(slot, gesture) {
            binding.applied(operation)
        } else {
            binding
        };
        let handled = SlotRun { bindings: self.bindings.push(after), ..self };
        if !binding.addressed_by(slot, gesture) || after.active() is None {
            handled
        } else {
            let action = after.active()->Some_0;
            match operation {
                SlotOperation::Forward => handled.ran(action, true),
                SlotOperation::Backward => handled.ran(action, false),
                _ => SlotRun { feedback: handled.feedback.push(action.name), ..handled },
            }
        }
    }
}

/// The pass of a slot gesture over `bindings`, from first to last, starting
/// with the key executor `executor`. Every binding that the gesture addresses
/// takes part, not only the first.
pub open spec fn slot_run(
    bindings: Seq<SlotBindingView>,
    executor: KeyExecutorView,
    slot: Slot,
    operation: SlotOperation,
    gesture: GestureView,
) -> SlotRun
    decreases bindings.len(),
{
    if bindings.len() == 0 {
        SlotRun {
            bindings: Seq::<SlotBindingView>::empty(),
            executor,
            events: Seq::<KeyEvent>::empty(),
            feedback: Seq::<Seq<char>>::empty(),
        }
    } else {
        slot_run(bindings.drop_last(), executor, slot, operation, gesture).step(
            bindings.last(),
            slot,
            operation,
            gesture,
        )
    }
}

/// The execution engine: the settings and the key executor.
#[derive(Debug)]
pub struct Executor {
    pub(crate) settings: Settings,
    pub(crate) key_executor: KeyExecutor,
}

/// The mathematical value of an [`Executor`].
pub struct ExecutorView {
    pub settings: SettingsView,
    pub key_executor: KeyExecutorView,
}

impl View for Executor {
    type V = ExecutorView;

    open(crate) spec fn view(&self) -> ExecutorView {
        ExecutorView { settings: self.settings@, key_executor: self.key_executor@ }
    }
}

impl SettingsView {
    /// The settings with the slot bindings of the active scheme replaced.
    pub open spec fn with_slot_bindings(self, bindings: Seq<SlotBindingView>) -> SettingsView {
        SettingsView {
            schemes: self.schemes.update(
                0,
                SchemeView {
                    bindings: BindingsView { slot_bindings: bindings, ..self.schemes[0].bindings },
                    ..self.schemes[0]
                },
            ),
            ..self
        }
    }

    /// The settings with the active braille scheme replaced.
    pub open spec fn with_braille(self, scheme: BrailleSchemeView) -> SettingsView {
        SettingsView { braille: self.braille.update(0, scheme), ..self }
    }
}

impl ExecutorView {
    /// What a gesture does.
    ///
    /// The active scheme is the first one. The first command binding that the
    /// gesture triggers runs its command, and nothing else happens. Without
    /// such a binding the gesture is classified, and if it is a slot gesture it
    /// passes over the slot bindings. Anything else does nothing.
    pub open spec fn process_gesture(self, gesture: GestureView) -> (ExecutorView, OutcomeView) {
        if self.settings.schemes.len() == 0 {
            (self, OutcomeView::nothing())
        } else {
            let bindings = self.settings.schemes[0].bindings;
            match first_where(bindings.command_bindings, triggered_by(gesture)) {
                Some(c) => {
                    let command = bindings.command_bindings[c].command_instance;
                    let trace = self.key_executor.execute(
                        command.id as int,
                        command.operation,
                        command.sticky_ctrl,
                        command.sticky_shift,
                        command.sticky_alt,
                    );
                    (
                        ExecutorView { key_executor: trace.executor, ..self },
                        OutcomeView {
                            key_events: trace.events,
                            feedback: Seq::<Seq<char>>::empty(),
                        },
                    )
                },
                None => match classify(gesture) {
                    Some((slot, operation)) => {
                        let run = slot_run(
                            bindings.slot_bindings,
                            self.key_executor,
                            slot,
                            operation,
                            gesture,
                        );
                        (
                            ExecutorView {
                                settings: self.settings.with_slot_bindings(run.bindings),
                                key_executor: run.executor,
                            },
                            OutcomeView { key_events: run.events, feedback: run.feedback },
                        )
                    },
                    None => (self, OutcomeView::nothing()),
                },
            }
        }
    }

    /// What a braille combination does.
    ///
    /// The active braille scheme is the first one. It translates the
    /// combination. A mapping switch is applied to the scheme, and the name of
    /// the mapping then active, or the failure, is the feedback; it never
    /// reaches the key executor. Any other operation runs for the object whose
    /// identifier is the negated combination, with no sticky modifier. A
    /// combination above 63, or one that the active mapping does not assign,
    /// runs nothing.
    pub open spec fn process_braille(self, combination: u8) -> (ExecutorView, OutcomeView) {
        if combination >= 64 || self.settings.braille.len() == 0 {
            (self, OutcomeView::nothing())
        } else {
            let (scheme, translation) = self.settings.braille[0].translated(combination);
            match translation {
                None => (
                    ExecutorView { settings: self.settings.with_braille(scheme), ..self },
                    OutcomeView::nothing(),
                ),
                Some(OperationView::SwitchMapping(switch)) => match scheme.switched(switch) {
                    Ok(switched) => (
                        ExecutorView { settings: self.settings.with_braille(switched), ..self },
                        OutcomeView {
                            key_events: Seq::<KeyEvent>::empty(),
                            feedback: seq![switched.active().name],
                        },
                    ),
                    Err(name) => (
                        ExecutorView { settings: self.settings.with_braille(scheme), ..self },
                        OutcomeView {
                            key_events: Seq::<KeyEvent>::empty(),
                            feedback: seq![MappingNotFound::message_of(name)],
                        },
                    ),
                },
                Some(operation) => {
                    let trace = self.key_executor.execute(
                        -(combination as int),
                        operation,
                        false,
                        false,
                        false,
                    );
                    (
                        ExecutorView {
                            settings: self.settings.with_braille(scheme),
                            key_executor: trace.executor,
                        },
                        OutcomeView {
                            key_events: trace.events,
                            feedback: Seq::<Seq<char>>::empty(),
                        },
                    )
                },
            }
        }
    }

    /// What a client message does. A change of input mode does nothing.
    pub open spec fn process(self, message: ClientMessageView) -> (ExecutorView, OutcomeView) {
        match message {
            ClientMessageView::Gesture(gesture) => self.process_gesture(gesture),
            ClientMessageView::Braille(combination) => self.process_braille(combination),
            ClientMessageView::InputMode(_) => (self, OutcomeView::nothing()),
        }
    }
}

/// Command bindings take precedence over slot bindings. When a gesture
/// triggers a command binding of the active scheme, the settings stay as
/// they are, whatever slot bindings the gesture addresses: no selection
/// moves and there is no feedback. The key events are those of the command
/// of the first such binding.
pub proof fn lemma_command_precedence(executor: ExecutorView, gesture: GestureView, c: int)
    requires
        executor.settings.schemes.len() > 0,
        0 <= c < executor.settings.schemes[0].bindings.command_bindings.len(),
        triggered_by(gesture)(executor.settings.schemes[0].bindings.command_bindings[c]),
    ensures
        executor.process_gesture(gesture).0.settings == executor.settings,
        executor.process_gesture(gesture).1.feedback.len() == 0,
        first_where(
            executor.settings.schemes[0].bindings.command_bindings,
            triggered_by(gesture),
        ) matches Some(first) && first <= c && ({
            let command =
                executor.settings.schemes[0].bindings.command_bindings[first].command_instance;
            let trace = executor.key_executor.execute(
                command.id as int,
                command.operation,
                command.sticky_ctrl,
                command.sticky_shift,
                command.sticky_alt,
            );
            &&& executor.process_gesture(gesture).0.key_executor == trace.executor
            &&& executor.process_gesture(gesture).1.key_events == trace.events
        }),
{
    lemma_first_where(
        executor.settings.schemes[0].bindings.command_bindings,
        triggered_by(gesture),
    );
}

/// The index of the first command binding that `gesture` triggers.
fn find_triggered(bindings: &Vec<CommandBinding>, gesture: &Gesture) -> (found: Option<usize>)
    ensures
        match found {
            Some(index) => index < bindings@.len() && first_where(
                views(bindings@),
                triggered_by(gesture@),
            ) == Some(index as int),
            None => first_where(views(bindings@), triggered_by(gesture@)) is None,
        },
{
    let mut i: usize = 0;
    while i < bindings.len()
        invariant
            i <= bindings@.len(),
            forall|j: int| 0 <= j < i ==> !triggered_by(gesture@)(#[trigger] views(bindings@)[j]),
        decreases bindings.len() - i,
    {
        let binding = &bindings[i];
        if binding.gesture_shape_instance.same_as(&gesture.shape) && binding.finger_count
            == gesture.finger_count && binding.modifier_count == gesture.modifier_count {
            proof {
                assert(views(bindings@)[i as int] == binding@);
                lemma_first_where_found(views(bindings@), triggered_by(gesture@), i as int);
            }
            return Some(i);
        }
        assert(views(bindings@)[i as int] == binding@);
        i = i + 1;
    }
    proof {
        lemma_first_where_none(views(bindings@), triggered_by(gesture@));
    }
    None
}

/// Passes a slot gesture over `bindings`, from first to last.
fn run_slot_bindings(
    bindings: &mut Vec<SlotBinding>,
    key_executor: &mut KeyExecutor,
    slot: Slot,
    operation: SlotOperation,
    gesture: &Gesture,
) -> (outcome: Outcome)
    ensures
        (SlotRun {
            bindings: views(final(bindings)@),
            executor: final(key_executor)@,
            events: outcome@.key_events,
            feedback: outcome@.feedback,
        }) == slot_run(views(old(bindings)@), old(key_executor)@, slot, operation, gesture@),
{
    let ghost before = views(bindings@);
    let ghost start = key_executor@;
    let mut events: Vec<KeyEvent> = Vec::new();
    let mut feedback: Vec<String> = Vec::new();
    let mut i: usize = 0;
    proof {
        assert(before.take(0) == Seq::<SlotBindingView>::empty());
        assert(views(bindings@).take(0) == Seq::<SlotBindingView>::empty());
        assert(views(feedback@) == Seq::<Seq<char>>::empty());
    }
    while i < bindings.len()
        invariant
            before == views(old(bindings)@),
            start == old(key_executor)@,
            bindings@.len() == before.len(),
            i <= bindings@.len(),
            forall|j: int| i <= j < before.len() ==> #[trigger] views(bindings@)[j] == before[j],
            slot_run(before.take(i as int), start, slot, operation, gesture@) == (SlotRun {
                bindings: views(bindings@).take(i as int),
                executor: key_executor@,
                events: events@,
                feedback: views(feedback@),
            }),
        decreases bindings.len() - i,
    {
        let ghost earlier = views(bindings@);
        let ghost said = views(feedback@);
        proof {
            assert(earlier[i as int] == before[i as int]);
            assert(earlier[i as int] == bindings@[i as int]@);
            assert(before.take(i + 1).drop_last() == before.take(i as int));
            assert(before.take(i + 1).last() == before[i as int]);
        }
        let addressed = same_text(bindings[i].slot.as_str(), slot.token())
            && bindings[i].finger_count == gesture.finger_count && bindings[i].modifier_count
            == gesture.modifier_count;
        if addressed {
            match operation {
                SlotOperation::Forward => {
                    if let Some(action) = bindings[i].active_action() {
                        let mut issued = key_executor.execute(
                            action.id,
                            &action.forward_operation,
                            action.sticky_ctrl,
                            action.sticky_shift,
                            action.sticky_alt,
                        );
                        events.append(&mut issued);
                    }
                },
                SlotOperation::Backward => {
                    if let Some(action) = bindings[i].active_action() {
                        let mut issued = key_executor.execute(
                            action.id,
                            &action.backward_operation,
                            action.sticky_ctrl,
                            action.sticky_shift,
                            action.sticky_alt,
                        );
                        events.append(&mut issued);
                    }
                },
                SlotOperation::PreviousAction => {
                    bindings[i].previous_action();
                    if let Some(action) = bindings[i].active_action() {
                        feedback.push(action.name.clone());
                    }
                },
                SlotOperation::NextAction => {
                    bindings[i].next_action();
                    if let Some(action) = bindings[i].active_action() {
                        feedback.push(action.name.clone());
                    }
                },
                SlotOperation::DefaultAction => {
                    bindings[i].default_action();
                    if let Some(action) = bindings[i].active_action() {
                        feedback.push(action.name.clone());
                    }
                },
            }
        }
        proof {
            let now = views(bindings@);
            let after = if before[i as int].addressed_by(slot, gesture@) {
                before[i as int].applied(operation)
            } else {
                before[i as int]
            };
            assert(now[i as int] == bindings@[i as int]@);
            assert(now[i as int] == after);
            assert forall|j: int| 0 <= j < before.len() && j != i implies #[trigger] now[j]
                == earlier[j] by {}
            assert(now.take(i + 1) =~= earlier.take(i as int).push(after));
            if addressed && after.active() is Some && operation != SlotOperation::Forward
                && operation != SlotOperation::Backward {
                assert(views(feedback@) =~= said.push(after.active()->Some_0.name));
            } else {
                assert(views(feedback@) =~= said);
            }
        }
        i = i + 1;
    }
    proof {
        assert(before.take(before.len() as int) == before);
        assert(views(bindings@).take(before.len() as int) == views(bindings@));
    }
    Outcome { key_events: events, feedback }
}

impl Executor {
    /// An engine for linked settings, with a key executor that holds no
    /// modifier. Settings without any scheme are rejected.
    pub fn new(settings: Settings) -> (result: Result<Executor, ConfigError>)
        ensures
            match result {
                Ok(executor) => settings@.schemes.len() > 0 && executor@ == (ExecutorView {
                    settings: settings@,
                    key_executor: KeyExecutorView { last_object: -1, held: Held::none() },
                }),
                Err(error) => settings@.schemes.len() == 0 && error
                    == ConfigError::MissingDefaultScheme,
            },
    {
        if settings.schemes.len() == 0 {
            return Err(ConfigError::MissingDefaultScheme);
        }
        Ok(Executor { settings, key_executor: KeyExecutor::new() })
    }

    pub fn settings(&self) -> (settings: &Settings)
        ensures
            settings@ == self@.settings,
    {
        &self.settings
    }

    pub fn key_executor(&self) -> (key_executor: &KeyExecutor)
        ensures
            key_executor@ == self@.key_executor,
    {
        &self.key_executor
    }

    /// Processes a gesture: a command binding first, else the slot bindings.
    /// A gesture without a configured meaning does nothing.
    pub fn process_gesture(&mut self, gesture: &Gesture) -> (outcome: Outcome)
        ensures
            (final(self)@, outcome@) == old(self)@.process_gesture(gesture@),
    {
        if self.settings.schemes.len() == 0 {
            return Outcome::nothing();
        }
        let found = find_triggered(&self.settings.schemes[0].bindings.command_bindings, gesture);
        match found {
            Some(c) => {
                let command = &self.settings.schemes[0].bindings.command_bindings[c].command_instance;
                let events = self.key_executor.execute(
                    command.id,
                    &command.operation,
                    command.sticky_ctrl,
                    command.sticky_shift,
                    command.sticky_alt,
                );
                let outcome = Outcome { key_events: events, feedback: Vec::new() };
                assert(outcome@.feedback =~= Seq::<Seq<char>>::empty());
                outcome
            },
            None => match gesture.try_get_slot_operation() {
                Some((slot, operation)) => {
                    let outcome = run_slot_bindings(
                        &mut self.settings.schemes[0].bindings.slot_bindings,
                        &mut self.key_executor,
                        slot,
                        operation,
                        gesture,
                    );
                    assert(self@.settings.schemes =~= old(self)@.settings.with_slot_bindings(
                        views(self.settings.schemes[0].bindings.slot_bindings@),
                    ).schemes);
                    outcome
                },
                None => Outcome::nothing(),
            },
        }
    }

    /// Processes a braille combination: a mapping switch changes the stack of
    /// mapping layers and is answered with feedback, any other operation runs
    /// on the key executor.
    pub fn process_braille(&mut self, combination: u8) -> (outcome: Outcome)
        ensures
            (final(self)@, outcome@) == old(self)@.process_braille(combination),
    {
        if combination >= 64 || self.settings.braille.schemes.len() == 0 {
            return Outcome::nothing();
        }
        let translation = self.settings.braille.schemes[0].translate_combination(combination);
        let ghost scheme = self.settings.braille.schemes[0]@;
        assert(self@.settings.braille =~= old(self)@.settings.with_braille(scheme).braille);
        match translation {
            None => Outcome::nothing(),
            Some(Operation::SwitchMapping(switch)) => {
                let mut feedback: Vec<String> = Vec::new();
                match self.settings.braille.schemes[0].switch_mapping(&switch) {
                    Ok(()) => {
                        let name = self.settings.braille.schemes[0].active_mapping().name.clone();
                        feedback.push(name);
                        assert(self@.settings.braille =~= old(self)@.settings.with_braille(
                            self.settings.braille.schemes[0]@,
                        ).braille);
                    },
                    Err(error) => {
                        feedback.push(error.message());
                        assert(self@.settings.braille =~= old(self)@.settings.with_braille(
                            scheme,
                        ).braille);
                    },
                }
                let outcome = Outcome { key_events: Vec::new(), feedback };
                assert(outcome@.feedback =~= seq![feedback@[0]@]);
                outcome
            },
            Some(operation) => {
                let events = self.key_executor.execute(
                    -(combination as i32),
                    &operation,
                    false,
                    false,
                    false,
                );
                let outcome = Outcome { key_events: events, feedback: Vec::new() };
                assert(outcome@.feedback =~= Seq::<Seq<char>>::empty());
                outcome
            },
        }
    }

    /// Processes one client message. A change of input mode is accepted and
    /// does nothing.
    pub fn process(&mut self, message: &ClientMessage) -> (outcome: Outcome)
        ensures
            (final(self)@, outcome@) == old(self)@.process(message@),
    {
        match message {
            ClientMessage::Gesture(gesture) => self.process_gesture(gesture),
            ClientMessage::Braille(combination) => self.process_braille(*combination),
            ClientMessage::InputMode(_) => Outcome::nothing(),
        }
    }
}

} // verus!

verus! {

/// The key events of a pass over slot bindings never press a modifier that
/// is down nor let go of one that is not, and they leave held what the key
/// executor holds after the pass.
pub proof fn lemma_slot_run_faithful(
    bindings: Seq<SlotBindingView>,
    executor: KeyExecutorView,
    slot: Slot,
    operation: SlotOperation,
    gesture: GestureView,
)
    ensures
        ({
            let run = slot_run(bindings, executor, slot, operation, gesture);
            faithful(executor.held, Trace { executor: run.executor, events: run.events })
        }),
    decreases bindings.len(),
{
    if bindings.len() > 0 {
        let before = slot_run(bindings.drop_last(), executor, slot, operation, gesture);
        lemma_slot_run_faithful(bindings.drop_last(), executor, slot, operation, gesture);
        let binding = bindings.last();
        let after = if binding.addressed_by(slot, gesture) {
            binding.applied(operation)
        } else {
            binding
        };
        if binding.addressed_by(slot, gesture) && after.active() is Some && (operation
            == SlotOperation::Forward || operation == SlotOperation::Backward) {
            let action = after.active()->Some_0;
            let trace = before.executor.execute(
                action.id as int,
                if operation == SlotOperation::Forward {
                    action.forward_operation
                } else {
                    action.backward_operation
                },
                action.sticky_ctrl,
                action.sticky_shift,
                action.sticky_alt,
            );
            lemma_execute_faithful(
                before.executor,
                action.id as int,
                if operation == SlotOperation::Forward {
                    action.forward_operation
                } else {
                    action.backward_operation
                },
                action.sticky_ctrl,
                action.sticky_shift,
                action.sticky_alt,
            );
            lemma_replay_concat(executor.held, before.events, trace.events);
        }
    }
}

/// Whatever a client message does, the key events it calls for never press
/// a modifier that is down nor let go of one that is not: injected in order
/// on a host that holds what the key executor held before, they leave held
/// exactly what the key executor holds after.
pub proof fn lemma_process_faithful(executor: ExecutorView, message: ClientMessageView)
    ensures
        faithful(
            executor.key_executor.held,
            Trace {
                executor: executor.process(message).0.key_executor,
                events: executor.process(message).1.key_events,
            },
        ),
{
    match message {
        ClientMessageView::Gesture(gesture) => {
            if executor.settings.schemes.len() > 0 {
                let bindings = executor.settings.schemes[0].bindings;
                match first_where(bindings.command_bindings, triggered_by(gesture)) {
                    Some(c) => {
                        let command = bindings.command_bindings[c].command_instance;
                        lemma_execute_faithful(
                            executor.key_executor,
                            command.id as int,
                            command.operation,
                            command.sticky_ctrl,
                            command.sticky_shift,
                            command.sticky_alt,
                        );
                    },
                    None => match classify(gesture) {
                        Some((slot, operation)) => {
                            lemma_slot_run_faithful(
                                bindings.slot_bindings,
                                executor.key_executor,
                                slot,
                                operation,
                                gesture,
                            );
                        },
                        None => {},
                    },
                }
            }
        },
        ClientMessageView::Braille(combination) => {
            if combination < 64 && executor.settings.braille.len() > 0 {
                let translation = executor.settings.braille[0].translated(combination).1;
                if translation is Some && !(translation->Some_0 is SwitchMapping) {
                    lemma_execute_faithful(
                        executor.key_executor,
                        -(combination as int),
                        translation->Some_0,
                        false,
                        false,
                        false,
                    );
                }
            }
        },
        ClientMessageView::InputMode(_) => {},
    }
}

} // verus!

verus! {

/// What a pass does to the slot bindings, binding by binding: one that the
/// gesture addresses has the slot operation applied, any other stays as it
/// is. A well-formed binding stays well formed, so a selected position stays a
/// position of its ring.
pub proof fn lemma_slot_run_bindings(
    bindings: Seq<SlotBindingView>,
    executor: KeyExecutorView,
    slot: Slot,
    operation: SlotOperation,
    gesture: GestureView,
)
    ensures
        ({
            let run = slot_run(bindings, executor, slot, operation, gesture);
            &&& run.bindings.len() == bindings.len()
            &&& forall|j: int|
                0 <= j < bindings.len() ==> #[trigger] run.bindings[j] == if bindings[j].addressed_by(
                    slot,
                    gesture,
                ) {
                    bindings[j].applied(operation)
                } else {
                    bindings[j]
                }
            &&& forall|j: int|
                0 <= j < bindings.len() && bindings[j].wf() ==> (#[trigger] run.bindings[j]).wf()
        }),
    decreases bindings.len(),
{
    if bindings.len() > 0 {
        let shorter = bindings.drop_last();
        lemma_slot_run_bindings(shorter, executor, slot, operation, gesture);
        let before = slot_run(shorter, executor, slot, operation, gesture);
        let run = slot_run(bindings, executor, slot, operation, gesture);
        let last = bindings.last();
        if last.wf() {
            lemma_selection_wf(last);
        }
        assert(run.bindings == before.bindings.push(
            if last.addressed_by(slot, gesture) {
                last.applied(operation)
            } else {
                last
            },
        ));
        assert forall|j: int| 0 <= j < bindings.len() implies #[trigger] run.bindings[j]
            == if bindings[j].addressed_by(slot, gesture) {
            bindings[j].applied(operation)
        } else {
            bindings[j]
        } by {
            if j < shorter.len() {
                assert(shorter[j] == bindings[j]);
                assert(run.bindings[j] == before.bindings[j]);
            }
        }
        assert forall|j: int| 0 <= j < bindings.len() && bindings[j].wf() implies (
        #[trigger] run.bindings[j]).wf() by {
            if j < shorter.len() {
                assert(shorter[j] == bindings[j]);
                assert(run.bindings[j] == before.bindings[j]);
            }
        }
    }
}

} // verus!
