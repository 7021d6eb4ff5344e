//! Command bindings, and the bindings and schemes that group them with slot
//! bindings.

use vstd::prelude::*;
use vstd::string::StringExecFns;
use crate::error::ConfigError;
use crate::gesture::{Direction, GestureShape, GestureShapeView};
use crate::lookup::{first_position, lemma_pass_failed, lemma_pass_succeeded, pass, views};
use crate::model::{command_ids, find_command, Command, CommandView};
use crate::ring::{Ring, RingView, SlotBinding, SlotBindingView};
use crate::text::same_text;

verus! {

/// The direction that `name` names in a binding configuration.
pub open spec fn direction_named(name: Seq<char>) -> Option<Direction> {
    if name == "Left"@ {
        Some(Direction::Left)
    } else if name == "Right"@ {
        Some(Direction::Right)
    } else if name == "Up"@ {
        Some(Direction::Up)
    } else if name == "Down"@ {
        Some(Direction::Down)
    } else {
        None
    }
}

/// The directions that `names` name, in order; a name that names no
/// direction is passed over.
pub open spec fn directions_named(names: Seq<Seq<char>>) -> Seq<Direction>
    decreases names.len(),
{
    if names.len() == 0 {
        Seq::<Direction>::empty()
    } else {
        let before = directions_named(names.drop_last());
        match direction_named(names.last()) {
            Some(direction) => before.push(direction),
            None => before,
        }
    }
}

/// The gesture shape that a binding configuration describes: `Swipe` with
/// its directions, `Tap`, or a touch for any other name.
pub open spec fn shape_named(shape: Seq<char>, directions: Seq<Seq<char>>) -> GestureShapeView {
    if shape == "Swipe"@ {
        GestureShapeView::Swipe(directions_named(directions))
    } else if shape == "Tap"@ {
        GestureShapeView::Tap
    } else {
        GestureShapeView::Touch
    }
}

/// A gesture bound to a command.
#[derive(Debug)]
pub struct CommandBinding {
    pub(crate) id: i32,
    pub(crate) name: String,
    pub(crate) gesture_shape: String,
    pub(crate) swipe_directions: Vec<String>,
    pub(crate) command: i32,
    pub(crate) finger_count: i32,
    pub(crate) modifier_count: i32,
    pub(crate) gesture_shape_instance: GestureShape,
    pub(crate) command_instance: Command,
}

/// The mathematical value of a [`CommandBinding`].
pub struct CommandBindingView {
    pub id: i32,
    pub name: Seq<char>,
    pub gesture_shape: Seq<char>,
    pub swipe_directions: Seq<Seq<char>>,
    pub command: i32,
    pub finger_count: i32,
    pub modifier_count: i32,
    pub gesture_shape_instance: GestureShapeView,
    pub command_instance: CommandView,
}

impl View for CommandBinding {
    type V = CommandBindingView;

    open(crate) spec fn view(&self) -> CommandBindingView {
        CommandBindingView {
            id: self.id,
            name: self.name@,
            gesture_shape: self.gesture_shape@,
            swipe_directions: views(self.swipe_directions@),
            command: self.command,
            finger_count: self.finger_count,
            modifier_count: self.modifier_count,
            gesture_shape_instance: self.gesture_shape_instance@,
            command_instance: self.command_instance@,
        }
    }
}

impl CommandBindingView {
    /// A binding with the given settings, not linked yet: its shape is a
    /// touch and its command the default command.
    pub open spec fn new(
        id: i32,
        name: Seq<char>,
        gesture_shape: Seq<char>,
        swipe_directions: Seq<Seq<char>>,
        command: i32,
        finger_count: i32,
        modifier_count: i32,
    ) -> CommandBindingView {
        CommandBindingView {
            id,
            name,
            gesture_shape,
            swipe_directions,
            command,
            finger_count,
            modifier_count,
            gesture_shape_instance: GestureShapeView::Touch,
            command_instance: CommandView::new(-1i32, "Unknown"@, false, false, false, ""@),
        }
    }

    /// The binding with its gesture shape read from its description.
    pub open spec fn shaped(self) -> CommandBindingView {
        CommandBindingView {
            gesture_shape_instance: shape_named(self.gesture_shape, self.swipe_directions),
            ..self
        }
    }

    /// What linking against `commands` does to the binding: its gesture shape
    /// is read from its description, and it takes a copy of the first command
    /// with the identifier it names. Without such a command it is rejected,
    /// with its shape read all the same.
    pub open spec fn finalized(self, commands: Seq<CommandView>) -> (
        CommandBindingView,
        Result<(), ConfigError>,
    ) {
        match first_position(command_ids(commands), self.command) {
            Some(c) => (CommandBindingView { command_instance: commands[c], ..self.shaped() }, Ok(())),
            None => (self.shaped(), Err(ConfigError::CommandNotFound(self.command))),
        }
    }
}

/// Reads the directions that `names` name.
fn read_directions(names: &Vec<String>) -> (directions: Vec<Direction>)
    ensures
        directions@ == directions_named(views(names@)),
{
    let mut directions: Vec<Direction> = Vec::new();
    let mut i: usize = 0;
    assert(views(names@).take(0) == Seq::<Seq<char>>::empty());
    while i < names.len()
        invariant
            i <= names@.len(),
            directions@ == directions_named(views(names@).take(i as int)),
        decreases names.len() - i,
    {
        let name = names[i].as_str();
        proof {
            let now = views(names@).take(i + 1);
            assert(now.drop_last() == views(names@).take(i as int));
            assert(now.last() == name@);
        }
        if same_text(name, "Left") {
            directions.push(Direction::Left);
        } else if same_text(name, "Right") {
            directions.push(Direction::Right);
        } else if same_text(name, "Up") {
            directions.push(Direction::Up);
        } else if same_text(name, "Down") {
            directions.push(Direction::Down);
        }
        i = i + 1;
    }
    assert(views(names@).take(names@.len() as int) == views(names@));
    directions
}

impl Clone for CommandBinding {
    fn clone(&self) -> (copy: Self)
        ensures
            copy@ == self@,
    {
        let swipe_directions = self.swipe_directions.clone();
        assert(views(swipe_directions@) =~= views(self.swipe_directions@));
        CommandBinding {
            id: self.id,
            name: self.name.clone(),
            gesture_shape: self.gesture_shape.clone(),
            swipe_directions,
            command: self.command,
            finger_count: self.finger_count,
            modifier_count: self.modifier_count,
            gesture_shape_instance: self.gesture_shape_instance.clone(),
            command_instance: self.command_instance.clone(),
        }
    }
}

impl Default for CommandBinding {
    fn default() -> (binding: CommandBinding)
        ensures
            binding@ == CommandBindingView::new(
                -1i32,
                "Unknown"@,
                "Touch"@,
                Seq::<Seq<char>>::empty(),
                -1i32,
                1i32,
                0i32,
            ),
    {
        let binding = CommandBinding::new(-1, "Unknown", "Touch", Vec::new(), -1, 1, 0);
        assert(binding@.swipe_directions =~= Seq::<Seq<char>>::empty());
        binding
    }
}

impl CommandBinding {
    /// A binding with the given settings, not linked yet.
    pub fn new(
        id: i32,
        name: &str,
        gesture_shape: &str,
        swipe_directions: Vec<String>,
        command: i32,
        finger_count: i32,
        modifier_count: i32,
    ) -> (binding: CommandBinding)
        ensures
            binding@ == CommandBindingView::new(
                id,
                name@,
                gesture_shape@,
                views(swipe_directions@),
                command,
                finger_count,
                modifier_count,
            ),
    {
        CommandBinding {
            id,
            name: String::from_str(name),
            gesture_shape: String::from_str(gesture_shape),
            swipe_directions,
            command,
            finger_count,
            modifier_count,
            gesture_shape_instance: GestureShape::Touch,
            command_instance: Command::default(),
        }
    }

    /// Reads the gesture shape from its description and links the binding
    /// against `commands`. A binding whose command does not exist is rejected.
    pub fn finalize(&mut self, commands: &Vec<Command>) -> (result: Result<(), ConfigError>)
        ensures
            (final(self)@, result) == old(self)@.finalized(views(commands@)),
    {
        let shape = if same_text(self.gesture_shape.as_str(), "Swipe") {
            GestureShape::Swipe(read_directions(&self.swipe_directions))
        } else if same_text(self.gesture_shape.as_str(), "Tap") {
            GestureShape::Tap
        } else {
            GestureShape::Touch
        };
        self.gesture_shape_instance = shape;
        match find_command(commands, self.command) {
            Some(c) => {
                self.command_instance = commands[c].clone();
                Ok(())
            },
            None => Err(ConfigError::CommandNotFound(self.command)),
        }
    }

    pub fn id(&self) -> (id: i32)
        ensures
            id == self@.id,
    {
        self.id
    }

    pub fn name(&self) -> (name: &str)
        ensures
            name@ == self@.name,
    {
        self.name.as_str()
    }

    /// The name of the gesture shape, as configured.
    pub fn gesture_shape(&self) -> (shape: &str)
        ensures
            shape@ == self@.gesture_shape,
    {
        self.gesture_shape.as_str()
    }

    /// The names of the directions of the swipe, as configured.
    pub fn swipe_directions(&self) -> (directions: &Vec<String>)
        ensures
            views(directions@) == self@.swipe_directions,
    {
        &self.swipe_directions
    }

    /// The identifier of the command that the binding triggers.
    pub fn command(&self) -> (command: i32)
        ensures
            command == self@.command,
    {
        self.command
    }

    pub fn finger_count(&self) -> (count: i32)
        ensures
            count == self@.finger_count,
    {
        self.finger_count
    }

    pub fn modifier_count(&self) -> (count: i32)
        ensures
            count == self@.modifier_count,
    {
        self.modifier_count
    }

    /// The gesture shape that triggers the binding.
    pub fn gesture_shape_instance(&self) -> (shape: &GestureShape)
        ensures
            shape@ == self@.gesture_shape_instance,
    {
        &self.gesture_shape_instance
    }

    /// The copy of the command that the binding triggers.
    pub fn command_instance(&self) -> (command: &Command)
        ensures
            command@ == self@.command_instance,
    {
        &self.command_instance
    }
}

/// The slot bindings and the command bindings of one scheme.
#[derive(Debug)]
pub struct Bindings {
    pub(crate) slot_bindings: Vec<SlotBinding>,
    pub(crate) command_bindings: Vec<CommandBinding>,
}

/// The mathematical value of [`Bindings`].
pub struct BindingsView {
    pub slot_bindings: Seq<SlotBindingView>,
    pub command_bindings: Seq<CommandBindingView>,
}

impl View for Bindings {
    type V = BindingsView;

    open(crate) spec fn view(&self) -> BindingsView {
        BindingsView {
            slot_bindings: views(self.slot_bindings@),
            command_bindings: views(self.command_bindings@),
        }
    }
}

/// Linking one slot binding against `rings`.
pub open spec fn slot_step(rings: Seq<RingView>) -> spec_fn(SlotBindingView) -> (
    SlotBindingView,
    Result<(), ConfigError>,
) {
    |binding: SlotBindingView| binding.finalized(rings)
}

/// Linking one command binding against `commands`.
pub open spec fn command_step(commands: Seq<CommandView>) -> spec_fn(CommandBindingView) -> (
    CommandBindingView,
    Result<(), ConfigError>,
) {
    |binding: CommandBindingView| binding.finalized(commands)
}

impl BindingsView {
    /// What holds of all bindings: every slot binding is well formed.
    pub open spec fn wf(self) -> bool {
        forall|i: int| 0 <= i < self.slot_bindings.len() ==> (#[trigger] self.slot_bindings[i]).wf()
    }

    /// What linking does to the bindings: the slot bindings are linked in
    /// order against `rings`, then the command bindings against `commands`; the
    /// first binding that is rejected ends the linking.
    pub open spec fn finalized(self, commands: Seq<CommandView>, rings: Seq<RingView>) -> (
        BindingsView,
        Result<(), ConfigError>,
    ) {
        let (slot_bindings, slots_result) = pass(self.slot_bindings, slot_step(rings));
        if slots_result is Err {
            (BindingsView { slot_bindings, ..self }, slots_result)
        } else {
            let (command_bindings, result) = pass(self.command_bindings, command_step(commands));
            (BindingsView { slot_bindings, command_bindings }, result)
        }
    }
}

/// Links `bindings` in order against `rings`, up to the first that is rejected.
pub fn finalize_slot_bindings(bindings: &mut Vec<SlotBinding>, rings: &Vec<Ring>) -> (result:
    Result<(), ConfigError>)
    ensures
        (views(final(bindings)@), result) == pass(views(old(bindings)@), slot_step(views(rings@))),
{
    let ghost before = views(bindings@);
    let ghost step = slot_step(views(rings@));
    let mut i: usize = 0;
    while i < bindings.len()
        invariant
            before == views(old(bindings)@),
            step == slot_step(views(rings@)),
            bindings@.len() == before.len(),
            i <= bindings@.len(),
            forall|j: int| 0 <= j < i ==> step(#[trigger] before[j]).1 is Ok,
            forall|j: int| 0 <= j < i ==> #[trigger] views(bindings@)[j] == step(before[j]).0,
            forall|j: int| i <= j < before.len() ==> #[trigger] views(bindings@)[j] == before[j],
        decreases bindings.len() - i,
    {
        let ghost earlier = views(bindings@);
        assert(earlier[i as int] == before[i as int]);
        assert(earlier[i as int] == bindings@[i as int]@);
        let result = bindings[i].finalize(rings);
        proof {
            assert forall|j: int| 0 <= j < before.len() && j != i implies #[trigger] views(
                bindings@,
            )[j] == earlier[j] by {}
            assert(step(before[i as int]) == before[i as int].finalized(views(rings@)));
            assert(bindings@[i as int]@ == step(before[i as int]).0);
            assert(result == step(before[i as int]).1);
            assert(views(bindings@)[i as int] == step(before[i as int]).0);
        }
        if let Err(error) = result {
            proof {
                lemma_pass_failed(before, step, views(bindings@), i as int);
            }
            return Err(error);
        }
        i = i + 1;
    }
    proof {
        lemma_pass_succeeded(before, step, views(bindings@));
    }
    Ok(())
}

/// Links `bindings` in order against `commands`, up to the first that is
/// rejected.
pub fn finalize_command_bindings(bindings: &mut Vec<CommandBinding>, commands: &Vec<Command>) -> (result:
    Result<(), ConfigError>)
    ensures
        (views(final(bindings)@), result) == pass(
            views(old(bindings)@),
            command_step(views(commands@)),
        ),
{
    let ghost before = views(bindings@);
    let ghost step = command_step(views(commands@));
    let mut i: usize = 0;
    while i < bindings.len()
        invariant
            before == views(old(bindings)@),
            step == command_step(views(commands@)),
            bindings@.len() == before.len(),
            i <= bindings@.len(),
            forall|j: int| 0 <= j < i ==> step(#[trigger] before[j]).1 is Ok,
            forall|j: int| 0 <= j < i ==> #[trigger] views(bindings@)[j] == step(before[j]).0,
            forall|j: int| i <= j < before.len() ==> #[trigger] views(bindings@)[j] == before[j],
        decreases bindings.len() - i,
    {
        let ghost earlier = views(bindings@);
        assert(earlier[i as int] == before[i as int]);
        assert(earlier[i as int] == bindings@[i as int]@);
        let result = bindings[i].finalize(commands);
        proof {
            assert forall|j: int| 0 <= j < before.len() && j != i implies #[trigger] views(
                bindings@,
            )[j] == earlier[j] by {}
            assert(step(before[i as int]) == before[i as int].finalized(views(commands@)));
            assert(bindings@[i as int]@ == step(before[i as int]).0);
            assert(result == step(before[i as int]).1);
            assert(views(bindings@)[i as int] == step(before[i as int]).0);
        }
        if let Err(error) = result {
            proof {
                lemma_pass_failed(before, step, views(bindings@), i as int);
            }
            return Err(error);
        }
        i = i + 1;
    }
    proof {
        lemma_pass_succeeded(before, step, views(bindings@));
    }
    Ok(())
}

impl Clone for Bindings {
    fn clone(&self) -> (copy: Self)
        ensures
            copy@ == self@,
    {
        let slot_bindings = self.slot_bindings.clone();
        let command_bindings = self.command_bindings.clone();
        assert(views(slot_bindings@) =~= views(self.slot_bindings@));
        assert(views(command_bindings@) =~= views(self.command_bindings@));
        Bindings { slot_bindings, command_bindings }
    }
}

impl Default for Bindings {
    fn default() -> (bindings: Bindings)
        ensures
            bindings@ == (BindingsView {
                slot_bindings: Seq::<SlotBindingView>::empty(),
                command_bindings: Seq::<CommandBindingView>::empty(),
            }),
    {
        let bindings = Bindings::new(Vec::new(), Vec::new());
        assert(bindings@.slot_bindings =~= Seq::<SlotBindingView>::empty());
        assert(bindings@.command_bindings =~= Seq::<CommandBindingView>::empty());
        bindings
    }
}

impl Bindings {
    /// The given bindings.
    pub fn new(slot_bindings: Vec<SlotBinding>, command_bindings: Vec<CommandBinding>) -> (bindings:
        Bindings)
        ensures
            bindings@ == (BindingsView {
                slot_bindings: views(slot_bindings@),
                command_bindings: views(command_bindings@),
            }),
    {
        Bindings { slot_bindings, command_bindings }
    }

    /// Links the slot bindings against `rings`, then the command bindings
    /// against `commands`. The first binding that is rejected ends the linking.
    pub fn finalize(&mut self, commands: &Vec<Command>, rings: &Vec<Ring>) -> (result: Result<
        (),
        ConfigError,
    >)
        ensures
            (final(self)@, result) == old(self)@.finalized(views(commands@), views(rings@)),
    {
        if let Err(error) = finalize_slot_bindings(&mut self.slot_bindings, rings) {
            return Err(error);
        }
        finalize_command_bindings(&mut self.command_bindings, commands)
    }

    pub fn slot_bindings(&self) -> (bindings: &Vec<SlotBinding>)
        ensures
            views(bindings@) == self@.slot_bindings,
    {
        &self.slot_bindings
    }

    pub fn command_bindings(&self) -> (bindings: &Vec<CommandBinding>)
        ensures
            views(bindings@) == self@.command_bindings,
    {
        &self.command_bindings
    }
}

/// A complete set of bindings under a name.
#[derive(Debug)]
pub struct Scheme {
    pub(crate) id: i32,
    pub(crate) name: String,
    pub(crate) bindings: Bindings,
}

/// The mathematical value of a [`Scheme`].
pub struct SchemeView {
    pub id: i32,
    pub name: Seq<char>,
    pub bindings: BindingsView,
}

impl View for Scheme {
    type V = SchemeView;

    open(crate) spec fn view(&self) -> SchemeView {
        SchemeView { id: self.id, name: self.name@, bindings: self.bindings@ }
    }
}

impl SchemeView {
    /// What linking does to the scheme: its bindings are linked.
    pub open spec fn finalized(self, commands: Seq<CommandView>, rings: Seq<RingView>) -> (
        SchemeView,
        Result<(), ConfigError>,
    ) {
        let (bindings, result) = self.bindings.finalized(commands, rings);
        (SchemeView { bindings, ..self }, result)
    }
}

impl Clone for Scheme {
    fn clone(&self) -> (copy: Self)
        ensures
            copy@ == self@,
    {
        Scheme { id: self.id, name: self.name.clone(), bindings: self.bindings.clone() }
    }
}

impl Default for Scheme {
    fn default() -> (scheme: Scheme)
        ensures
            scheme@ == (SchemeView {
                id: -1i32,
                name: "Unknown"@,
                bindings: BindingsView {
                    slot_bindings: Seq::<SlotBindingView>::empty(),
                    command_bindings: Seq::<CommandBindingView>::empty(),
                },
            }),
    {
        Scheme::new(-1, "Unknown", Bindings::default())
    }
}

impl Scheme {
    /// A scheme with the given bindings.
    pub fn new(id: i32, name: &str, bindings: Bindings) -> (scheme: Scheme)
        ensures
            scheme@ == (SchemeView { id, name: name@, bindings: bindings@ }),
    {
        Scheme { id, name: String::from_str(name), bindings }
    }

    /// Links the bindings of the scheme.
    pub fn finalize(&mut self, commands: &Vec<Command>, rings: &Vec<Ring>) -> (result: Result<
        (),
        ConfigError,
    >)
        ensures
            (final(self)@, result) == old(self)@.finalized(views(commands@), views(rings@)),
    {
        self.bindings.finalize(commands, rings)
    }

    pub fn id(&self) -> (id: i32)
        ensures
            id == self@.id,
    {
        self.id
    }

    pub fn name(&self) -> (name: &str)
        ensures
            name@ == self@.name,
    {
        self.name.as_str()
    }

    pub fn bindings(&self) -> (bindings: &Bindings)
        ensures
            bindings@ == self@.bindings,
    {
        &self.bindings
    }
}

} // verus!
