//! Rings of actions and the slot bindings that cycle through them.

use vstd::prelude::*;
use vstd::string::StringExecFns;
use crate::error::ConfigError;
use crate::lookup::{
    first_position, first_where, lemma_first_where, lemma_first_where_found,
    lemma_first_where_none, same_as, views,
};
use crate::model::{absent_from, action_ids, find_action, find_id, Action, ActionView};

verus! {

/// An ordered list of actions that a slot cycles through.
///
/// A ring names its actions by identifier. Linking resolves the identifiers
/// into copies of the actions; until then the ring holds no copies.
#[derive(Debug)]
pub struct Ring {
    pub(crate) id: i32,
    pub(crate) name: String,
    pub(crate) actions: Vec<i32>,
    pub(crate) action_instances: Vec<Action>,
}

/// The mathematical value of a [`Ring`].
pub struct RingView {
    pub id: i32,
    pub name: Seq<char>,
    pub actions: Seq<i32>,
    pub action_instances: Seq<ActionView>,
}

impl View for Ring {
    type V = RingView;

    open(crate) spec fn view(&self) -> RingView {
        RingView {
            id: self.id,
            name: self.name@,
            actions: self.actions@,
            action_instances: views(self.action_instances@),
        }
    }
}

impl RingView {
    /// What holds of every ring: it is either not linked, holding no action,
    /// or it holds one action for each identifier, with that identifier.
    pub open spec fn wf(self) -> bool {
        self.action_instances.len() == 0 || (self.action_instances.len() == self.actions.len()
            && forall|i: int|
            0 <= i < self.actions.len() ==> (#[trigger] self.action_instances[i]).id
                == self.actions[i])
    }

    /// The ring linked against `actions`: each identifier is resolved to the
    /// first action that has it. Fails on the first identifier that no action
    /// has.
    pub open spec fn linked(self, actions: Seq<ActionView>) -> Result<RingView, ConfigError> {
        let ids = action_ids(actions);
        match first_where(self.actions, absent_from(ids)) {
            Some(k) => Err(ConfigError::ActionNotFound(self.actions[k])),
            None => Ok(
                RingView {
                    action_instances: Seq::new(
                        self.actions.len(),
                        |i: int| actions[first_position(ids, self.actions[i]).unwrap()],
                    ),
                    ..self
                },
            ),
        }
    }

    /// What linking does to the ring: a ring that cannot be linked stays as it is.
    pub open spec fn finalized(self, actions: Seq<ActionView>) -> (
        RingView,
        Result<(), ConfigError>,
    ) {
        match self.linked(actions) {
            Ok(ring) => (ring, Ok(())),
            Err(error) => (self, Err(error)),
        }
    }
}

/// A linked ring holds one action for each identifier, with that identifier.
pub proof fn lemma_linked_ring_wf(ring: RingView, actions: Seq<ActionView>)
    ensures
        ring.linked(actions) matches Ok(linked) ==> linked.wf() && linked.action_instances.len()
            == ring.actions.len(),
{
    let ids = action_ids(actions);
    if ring.linked(actions) is Ok {
        let linked = ring.linked(actions)->Ok_0;
        lemma_first_where(ring.actions, absent_from(ids));
        assert forall|i: int| 0 <= i < ring.actions.len() implies (
        #[trigger] linked.action_instances[i]).id == ring.actions[i] by {
            assert(!absent_from(ids)(ring.actions[i]));
            lemma_first_where(ids, same_as(ring.actions[i]));
        }
    }
}

impl Clone for Ring {
    fn clone(&self) -> (copy: Self)
        ensures
            copy@ == self@,
    {
        proof {
            use_type_invariant(self);
        }
        let action_instances = self.action_instances.clone();
        assert(views(action_instances@) =~= views(self.action_instances@));
        Ring {
            id: self.id,
            name: self.name.clone(),
            actions: self.actions.clone(),
            action_instances,
        }
    }
}

impl Default for Ring {
    fn default() -> (ring: Ring)
        ensures
            ring@ == (RingView {
                id: -1i32,
                name: "Unknown"@,
                actions: Seq::<i32>::empty(),
                action_instances: Seq::<ActionView>::empty(),
            }),
    {
        Ring::new(-1, "Unknown", Vec::new())
    }
}

impl Ring {
    #[verifier::type_invariant]
    spec fn inv(self) -> bool {
        self@.wf()
    }

    /// A ring of the actions with the given identifiers, not linked yet.
    pub fn new(id: i32, name: &str, actions: Vec<i32>) -> (ring: Ring)
        ensures
            ring@ == (RingView {
                id,
                name: name@,
                actions: actions@,
                action_instances: Seq::<ActionView>::empty(),
            }),
    {
        let action_instances: Vec<Action> = Vec::new();
        assert(views(action_instances@) =~= Seq::<ActionView>::empty());
        Ring { id, name: String::from_str(name), actions, action_instances }
    }

    /// Links the ring against `actions`. A ring that names an action that
    /// does not exist is rejected and stays as it is.
    pub fn finalize(&mut self, actions: &Vec<Action>) -> (result: Result<(), ConfigError>)
        ensures
            (final(self)@, result) == old(self)@.finalized(views(actions@)),
            final(self)@.wf(),
    {
        let ghost ids = action_ids(views(actions@));
        let ghost wanted = self.actions@;
        let mut instances: Vec<Action> = Vec::new();
        let mut i: usize = 0;
        proof {
            use_type_invariant(&*self);
        }
        while i < self.actions.len()
            invariant
                self@ == old(self)@,
                self@.wf(),
                wanted == self.actions@,
                ids == action_ids(views(actions@)),
                i <= wanted.len(),
                forall|j: int| 0 <= j < i ==> !absent_from(ids)(#[trigger] wanted[j]),
                instances@.len() == i,
                forall|j: int|
                    0 <= j < i ==> (#[trigger] instances@[j])@ == views(actions@)[first_position(
                        ids,
                        wanted[j],
                    ).unwrap()],
            decreases self.actions.len() - i,
        {
            let id = self.actions[i];
            match find_action(actions, id) {
                Some(index) => {
                    instances.push(actions[index].clone());
                },
                None => {
                    proof {
                        lemma_first_where_found(wanted, absent_from(ids), i as int);
                    }
                    return Err(ConfigError::ActionNotFound(id));
                },
            }
            i = i + 1;
        }
        proof {
            lemma_first_where_none(wanted, absent_from(ids));
            lemma_linked_ring_wf(self@, views(actions@));
            assert(views(instances@) =~= self@.linked(views(actions@))->Ok_0.action_instances);
        }
        self.action_instances = instances;
        Ok(())
    }

    pub fn id(&self) -> (id: i32)
        ensures
            id == self@.id,
    {
        self.id
    }

    pub fn name(&self) -> (name: &str)
        ensures
            name@ == self@.name,
    {
        self.name.as_str()
    }

    /// The identifiers of the actions of the ring, in order.
    pub fn actions(&self) -> (actions: &Vec<i32>)
        ensures
            actions@ == self@.actions,
    {
        &self.actions
    }

    /// How many actions the ring holds; 0 until it is linked.
    pub fn len(&self) -> (count: usize)
        ensures
            count == self@.action_instances.len(),
            self@.wf(),
    {
        proof {
            use_type_invariant(self);
        }
        self.action_instances.len()
    }

    /// The action at `index`.
    pub fn action(&self, index: usize) -> (action: &Action)
        requires
            index < self@.action_instances.len(),
        ensures
            action@ == self@.action_instances[index as int],
    {
        &self.action_instances[index]
    }
}

/// The identifiers of `rings`, in order.
pub open spec fn ring_ids(rings: Seq<RingView>) -> Seq<i32> {
    rings.map_values(|ring: RingView| ring.id)
}

/// The index of the first ring with the identifier `id`.
pub fn find_ring(rings: &Vec<Ring>, id: i32) -> (found: Option<usize>)
    ensures
        match found {
            Some(index) => index < rings@.len() && first_position(ring_ids(views(rings@)), id)
                == Some(index as int),
            None => first_position(ring_ids(views(rings@)), id) is None,
        },
{
    let ghost ids = ring_ids(views(rings@));
    let mut i: usize = 0;
    while i < rings.len()
        invariant
            i <= rings@.len(),
            ids == ring_ids(views(rings@)),
            forall|j: int| 0 <= j < i ==> !same_as(id)(#[trigger] ids[j]),
        decreases rings.len() - i,
    {
        if rings[i].id == id {
            proof {
                lemma_first_where_found(ids, same_as(id), i as int);
            }
            return Some(i);
        }
        i = i + 1;
    }
    proof {
        lemma_first_where_none(ids, same_as(id));
    }
    None
}

/// A slot bound to a ring: which gestures address it, and which action of
/// the ring is selected.
#[derive(Debug)]
pub struct SlotBinding {
    pub(crate) id: i32,
    pub(crate) name: String,
    pub(crate) slot: String,
    pub(crate) ring: i32,
    pub(crate) default_action: i32,
    pub(crate) finger_count: i32,
    pub(crate) modifier_count: i32,
    pub(crate) default_position: usize,
    pub(crate) position: usize,
    pub(crate) ring_instance: Ring,
}

/// The mathematical value of a [`SlotBinding`].
pub struct SlotBindingView {
    pub id: i32,
    pub name: Seq<char>,
    pub slot: Seq<char>,
    pub ring: i32,
    pub default_action: i32,
    pub finger_count: i32,
    pub modifier_count: i32,
    pub default_position: nat,
    pub position: nat,
    pub ring_instance: RingView,
}

impl View for SlotBinding {
    type V = SlotBindingView;

    open(crate) spec fn view(&self) -> SlotBindingView {
        SlotBindingView {
            id: self.id,
            name: self.name@,
            slot: self.slot@,
            ring: self.ring,
            default_action: self.default_action,
            finger_count: self.finger_count,
            modifier_count: self.modifier_count,
            default_position: self.default_position as nat,
            position: self.position as nat,
            ring_instance: self.ring_instance@,
        }
    }
}

impl SlotBindingView {
    /// How many actions the binding cycles through.
    pub open spec fn count(self) -> nat {
        self.ring_instance.action_instances.len()
    }

    /// What holds of every slot binding: its ring is well formed, and unless
    /// the ring is empty the selected and the default position are positions
    /// of the ring.
    pub open spec fn wf(self) -> bool {
        &&& self.ring_instance.wf()
        &&& self.count() == 0 || (self.position < self.count() && self.default_position
            < self.count())
    }

    /// The selected action, if the ring holds any.
    pub open spec fn active(self) -> Option<ActionView> {
        if self.count() == 0 {
            None
        } else {
            Some(self.ring_instance.action_instances[self.position as int])
        }
    }

    /// The binding with the action before the selected one selected. Before
    /// the first comes the last.
    pub open spec fn previous(self) -> SlotBindingView {
        if self.count() == 0 {
            self
        } else if self.position == 0 {
            SlotBindingView { position: (self.count() - 1) as nat, ..self }
        } else {
            SlotBindingView { position: (self.position - 1) as nat, ..self }
        }
    }

    /// The binding with the action after the selected one selected. After the
    /// last comes the first.
    pub open spec fn next(self) -> SlotBindingView {
        if self.count() == 0 {
            self
        } else {
            SlotBindingView { position: (self.position + 1) % self.count(), ..self }
        }
    }

    /// The binding with its default action selected.
    pub open spec fn reset(self) -> SlotBindingView {
        SlotBindingView { position: self.default_position, ..self }
    }

    /// The binding after `times` selections of the next action.
    pub open spec fn next_times(self, times: nat) -> SlotBindingView
        decreases times,
    {
        if times == 0 {
            self
        } else {
            self.next_times((times - 1) as nat).next()
        }
    }

    /// The binding linked against `rings`: it takes a copy of the first ring
    /// with the identifier it names and selects its default action, the first
    /// of the ring's identifiers equal to the one it names.
    pub open spec fn linked(self, rings: Seq<RingView>) -> Result<SlotBindingView, ConfigError> {
        match first_position(ring_ids(rings), self.ring) {
            None => Err(ConfigError::RingNotFound(self.ring)),
            Some(r) => match first_position(rings[r].actions, self.default_action) {
                None => Err(
                    ConfigError::DefaultActionNotInRing {
                        binding: self.id,
                        ring: self.ring,
                        action: self.default_action,
                    },
                ),
                Some(p) => Ok(
                    SlotBindingView {
                        ring_instance: rings[r],
                        default_position: p as nat,
                        position: p as nat,
                        ..self
                    },
                ),
            },
        }
    }

    /// What linking does to the binding: a binding that cannot be linked
    /// stays as it is.
    pub open spec fn finalized(self, rings: Seq<RingView>) -> (
        SlotBindingView,
        Result<(), ConfigError>,
    ) {
        match self.linked(rings) {
            Ok(binding) => (binding, Ok(())),
            Err(error) => (self, Err(error)),
        }
    }
}

/// A linked slot binding is well formed, holds a copy of the ring it names,
/// and its selected action, if the ring is linked, is its default action.
pub proof fn lemma_linked_binding(binding: SlotBindingView, rings: Seq<RingView>)
    requires
        forall|i: int| 0 <= i < rings.len() ==> (#[trigger] rings[i]).wf(),
    ensures
        binding.linked(rings) matches Ok(linked) ==> linked.wf() && linked.ring_instance.id
            == binding.ring && linked.position == linked.default_position && (
        linked.active() matches Some(action) ==> action.id == binding.default_action),
{
    if binding.linked(rings) is Ok {
        let ids = ring_ids(rings);
        lemma_first_where(ids, same_as(binding.ring));
        let r = first_position(ids, binding.ring)->Some_0;
        assert(rings[r].wf());
        lemma_first_where(rings[r].actions, same_as(binding.default_action));
    }
}

/// Selecting the next action as many times as the ring has actions comes
/// back to the action selected at the start, whichever it was.
pub proof fn lemma_next_cycles(binding: SlotBindingView)
    requires
        binding.wf(),
    ensures
        binding.next_times(binding.count()) == binding,
{
    if binding.count() > 0 {
        lemma_next_times(binding, binding.count());
        assert((binding.position + binding.count()) % binding.count() == binding.position)
            by (nonlinear_arith)
            requires
                binding.position < binding.count(),
        ;
    } else {
        assert(binding.next_times(0) == binding);
    }
}

/// After `times` selections of the next action the selected position has
/// advanced by `times`, wrapping around the ring.
pub proof fn lemma_next_times(binding: SlotBindingView, times: nat)
    requires
        binding.wf(),
        binding.count() > 0,
    ensures
        binding.next_times(times) == (SlotBindingView {
            position: (binding.position + times) % binding.count(),
            ..binding
        }),
    decreases times,
{
    let n = binding.count() as int;
    let p = binding.position as int;
    if times == 0 {
        assert(p % n == p) by (nonlinear_arith)
            requires
                0 <= p < n,
        ;
    } else {
        lemma_next_times(binding, (times - 1) as nat);
        let t = times as int;
        assert((((p + (t - 1)) % n) + 1) % n == (p + t) % n) by {
            vstd::arithmetic::div_mod::lemma_add_mod_noop(p + (t - 1), 1, n);
            vstd::arithmetic::div_mod::lemma_mod_twice(p + (t - 1), n);
            vstd::arithmetic::div_mod::lemma_add_mod_noop((p + (t - 1)) % n, 1, n);
        }
        assert(0 <= (p + (t - 1)) % n < n) by (nonlinear_arith)
            requires
                n > 0,
        ;
    }
}

/// Selecting the previous action from the first position lands on the last,
/// and selecting the next action then comes back to the first.
pub proof fn lemma_previous_wraps(binding: SlotBindingView)
    requires
        binding.wf(),
        binding.count() > 0,
        binding.position == 0,
    ensures
        binding.previous().position == binding.count() - 1,
        binding.previous().next() == binding,
{
    let n = binding.count() as int;
    assert(n % n == 0) by (nonlinear_arith)
        requires
            n > 0,
    ;
}

/// Moving the selection keeps a slot binding well formed.
pub proof fn lemma_selection_wf(binding: SlotBindingView)
    requires
        binding.wf(),
    ensures
        binding.previous().wf(),
        binding.next().wf(),
        binding.reset().wf(),
{
    let n = binding.count() as int;
    let p = binding.position as int;
    if n > 0 {
        assert(0 <= (p + 1) % n < n) by (nonlinear_arith)
            requires
                n > 0,
        ;
    }
}

impl Clone for SlotBinding {
    fn clone(&self) -> (copy: Self)
        ensures
            copy@ == self@,
    {
        proof {
            use_type_invariant(self);
        }
        SlotBinding {
            id: self.id,
            name: self.name.clone(),
            slot: self.slot.clone(),
            ring: self.ring,
            default_action: self.default_action,
            finger_count: self.finger_count,
            modifier_count: self.modifier_count,
            default_position: self.default_position,
            position: self.position,
            ring_instance: self.ring_instance.clone(),
        }
    }
}

impl Default for SlotBinding {
    fn default() -> (binding: SlotBinding)
        ensures
            binding@ == SlotBindingView::new(-1i32, "Unknown"@, ""@, -1i32, -1i32, 1i32, 0i32),
    {
        SlotBinding::new(-1, "Unknown", "", -1, -1, 1, 0)
    }
}

impl SlotBindingView {
    /// A binding with the given settings, not linked yet.
    pub open spec fn new(
        id: i32,
        name: Seq<char>,
        slot: Seq<char>,
        ring: i32,
        default_action: i32,
        finger_count: i32,
        modifier_count: i32,
    ) -> SlotBindingView {
        SlotBindingView {
            id,
            name,
            slot,
            ring,
            default_action,
            finger_count,
            modifier_count,
            default_position: 0,
            position: 0,
            ring_instance: RingView {
                id: -1i32,
                name: "Unknown"@,
                actions: Seq::<i32>::empty(),
                action_instances: Seq::<ActionView>::empty(),
            },
        }
    }
}

impl SlotBinding {
    #[verifier::type_invariant]
    spec fn inv(self) -> bool {
        self@.wf()
    }

    /// A binding with the given settings, not linked yet.
    pub fn new(
        id: i32,
        name: &str,
        slot: &str,
        ring: i32,
        default_action: i32,
        finger_count: i32,
        modifier_count: i32,
    ) -> (binding: SlotBinding)
        ensures
            binding@ == SlotBindingView::new(
                id,
                name@,
                slot@,
                ring,
                default_action,
                finger_count,
                modifier_count,
            ),
    {
        SlotBinding {
            id,
            name: String::from_str(name),
            slot: String::from_str(slot),
            ring,
            default_action,
            finger_count,
            modifier_count,
            default_position: 0,
            position: 0,
            ring_instance: Ring::default(),
        }
    }

    /// The selected action, if the ring holds any.
    pub fn active_action(&self) -> (action: Option<&Action>)
        ensures
            match action {
                Some(a) => self@.active() == Some(a@),
                None => self@.active() is None,
            },
            self@.wf(),
    {
        proof {
            use_type_invariant(self);
        }
        if self.ring_instance.action_instances.len() == 0 {
            return None;
        }
        Some(&self.ring_instance.action_instances[self.position])
    }

    /// Selects the action before the selected one; before the first comes
    /// the last.
    pub fn previous_action(&mut self)
        ensures
            final(self)@ == old(self)@.previous(),
    {
        proof {
            use_type_invariant(&*self);
            lemma_selection_wf(self@);
        }
        let count = self.ring_instance.action_instances.len();
        if count == 0 {
            return ;
        }
        if self.position == 0 {
            self.position = count - 1;
        } else {
            self.position = self.position - 1;
        }
    }

    /// Selects the action after the selected one; after the last comes the
    /// first.
    pub fn next_action(&mut self)
        ensures
            final(self)@ == old(self)@.next(),
    {
        proof {
            use_type_invariant(&*self);
            lemma_selection_wf(self@);
        }
        let count = self.ring_instance.action_instances.len();
        if count == 0 {
            return ;
        }
        self.position = (self.position + 1) % count;
    }

    /// Selects the default action.
    pub fn default_action(&mut self)
        ensures
            final(self)@ == old(self)@.reset(),
    {
        proof {
            use_type_invariant(&*self);
            lemma_selection_wf(self@);
        }
        self.position = self.default_position;
    }

    /// Links the binding against `rings`. A binding whose ring does not
    /// exist, or whose default action is not in its ring, is rejected and stays
    /// as it is.
    pub fn finalize(&mut self, rings: &Vec<Ring>) -> (result: Result<(), ConfigError>)
        ensures
            (final(self)@, result) == old(self)@.finalized(views(rings@)),
            final(self)@.wf(),
    {
        proof {
            use_type_invariant(&*self);
        }
        match find_ring(rings, self.ring) {
            None => Err(ConfigError::RingNotFound(self.ring)),
            Some(r) => {
                let ring = &rings[r];
                proof {
                    use_type_invariant(ring);
                    lemma_first_where(ring.actions@, same_as(self.default_action));
                }
                match find_id(&ring.actions, self.default_action) {
                    None => Err(
                        ConfigError::DefaultActionNotInRing {
                            binding: self.id,
                            ring: self.ring,
                            action: self.default_action,
                        },
                    ),
                    Some(p) => {
                        let copy = ring.clone();
                        *self = SlotBinding {
                            id: self.id,
                            name: self.name.clone(),
                            slot: self.slot.clone(),
                            ring: self.ring,
                            default_action: self.default_action,
                            finger_count: self.finger_count,
                            modifier_count: self.modifier_count,
                            default_position: p,
                            position: p,
                            ring_instance: copy,
                        };
                        Ok(())
                    },
                }
            },
        }
    }

    pub fn id(&self) -> (id: i32)
        ensures
            id == self@.id,
    {
        self.id
    }

    pub fn name(&self) -> (name: &str)
        ensures
            name@ == self@.name,
    {
        self.name.as_str()
    }

    /// The name of the slot that the binding answers to.
    pub fn slot(&self) -> (slot: &str)
        ensures
            slot@ == self@.slot,
    {
        self.slot.as_str()
    }

    /// The identifier of the ring that the binding cycles through.
    pub fn ring(&self) -> (ring: i32)
        ensures
            ring == self@.ring,
    {
        self.ring
    }

    /// The identifier of the default action.
    pub fn default_action_id(&self) -> (action: i32)
        ensures
            action == self@.default_action,
    {
        self.default_action
    }

    pub fn finger_count(&self) -> (count: i32)
        ensures
            count == self@.finger_count,
    {
        self.finger_count
    }

    pub fn modifier_count(&self) -> (count: i32)
        ensures
            count == self@.modifier_count,
    {
        self.modifier_count
    }

    /// The position of the selected action in the ring.
    pub fn position(&self) -> (position: usize)
        ensures
            position == self@.position,
    {
        self.position
    }

    /// The position of the default action in the ring.
    pub fn default_position(&self) -> (position: usize)
        ensures
            position == self@.default_position,
    {
        self.default_position
    }

    /// The copy of the ring that the binding cycles through.
    pub fn ring_instance(&self) -> (ring: &Ring)
        ensures
            ring@ == self@.ring_instance,
    {
        &self.ring_instance
    }
}

} // verus!
