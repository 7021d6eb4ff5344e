//! The binding model: actions, commands, rings of actions, and the slot and
//! command bindings of a scheme, with the link step that resolves the
//! identifiers they name each other by.

use vstd::prelude::*;
use vstd::string::StringExecFns;
use crate::error::ConfigError;
use crate::lookup::{
    first_position, lemma_first_where_found, lemma_first_where_none, same_as, views,
};
use crate::operation::{compile, Operation, OperationView};

verus! {

/// One selectable item of a ring, such as "bold": a forward and a backward
/// shortcut, and which modifiers stay held between its executions.
#[derive(Debug)]
pub struct Action {
    pub(crate) id: i32,
    pub(crate) name: String,
    pub(crate) sticky_ctrl: bool,
    pub(crate) sticky_shift: bool,
    pub(crate) sticky_alt: bool,
    pub(crate) forward_shortcut: String,
    pub(crate) backward_shortcut: String,
    pub(crate) forward_operation: Operation,
    pub(crate) backward_operation: Operation,
}

/// The mathematical value of an [`Action`].
pub struct ActionView {
    pub id: i32,
    pub name: Seq<char>,
    pub sticky_ctrl: bool,
    pub sticky_shift: bool,
    pub sticky_alt: bool,
    pub forward_shortcut: Seq<char>,
    pub backward_shortcut: Seq<char>,
    pub forward_operation: OperationView,
    pub backward_operation: OperationView,
}

impl View for Action {
    type V = ActionView;

    open(crate) spec fn view(&self) -> ActionView {
        ActionView {
            id: self.id,
            name: self.name@,
            sticky_ctrl: self.sticky_ctrl,
            sticky_shift: self.sticky_shift,
            sticky_alt: self.sticky_alt,
            forward_shortcut: self.forward_shortcut@,
            backward_shortcut: self.backward_shortcut@,
            forward_operation: self.forward_operation@,
            backward_operation: self.backward_operation@,
        }
    }
}

impl ActionView {
    /// The action with both operations compiled from its shortcuts.
    pub open spec fn compiled(self) -> ActionView {
        ActionView {
            forward_operation: compile(self.forward_shortcut),
            backward_operation: compile(self.backward_shortcut),
            ..self
        }
    }

    /// An action with the given settings, its operations compiled.
    pub open spec fn new(
        id: i32,
        name: Seq<char>,
        sticky_ctrl: bool,
        sticky_shift: bool,
        sticky_alt: bool,
        forward_shortcut: Seq<char>,
        backward_shortcut: Seq<char>,
    ) -> ActionView {
        ActionView {
            id,
            name,
            sticky_ctrl,
            sticky_shift,
            sticky_alt,
            forward_shortcut,
            backward_shortcut,
            forward_operation: compile(forward_shortcut),
            backward_operation: compile(backward_shortcut),
        }
    }
}

impl Clone for Action {
    fn clone(&self) -> (copy: Self)
        ensures
            copy@ == self@,
    {
        Action {
            id: self.id,
            name: self.name.clone(),
            sticky_ctrl: self.sticky_ctrl,
            sticky_shift: self.sticky_shift,
            sticky_alt: self.sticky_alt,
            forward_shortcut: self.forward_shortcut.clone(),
            backward_shortcut: self.backward_shortcut.clone(),
            forward_operation: self.forward_operation.clone(),
            backward_operation: self.backward_operation.clone(),
        }
    }
}

impl Default for Action {
    fn default() -> (action: Action)
        ensures
            action@ == ActionView::new(-1i32, "Unknown"@, false, false, false, ""@, ""@),
    {
        Action::new(-1, "Unknown", false, false, false, "", "")
    }
}

impl Action {
    /// An action with the given settings. Its operations are compiled from
    /// the two shortcuts.
    pub fn new(
        id: i32,
        name: &str,
        sticky_ctrl: bool,
        sticky_shift: bool,
        sticky_alt: bool,
        forward_shortcut: &str,
        backward_shortcut: &str,
    ) -> (action: Action)
        ensures
            action@ == ActionView::new(
                id,
                name@,
                sticky_ctrl,
                sticky_shift,
                sticky_alt,
                forward_shortcut@,
                backward_shortcut@,
            ),
    {
        Action {
            id,
            name: String::from_str(name),
            sticky_ctrl,
            sticky_shift,
            sticky_alt,
            forward_shortcut: String::from_str(forward_shortcut),
            backward_shortcut: String::from_str(backward_shortcut),
            forward_operation: Operation::from_str(forward_shortcut),
            backward_operation: Operation::from_str(backward_shortcut),
        }
    }

    /// Compiles both operations from the shortcuts again. This cannot fail.
    pub fn finalize(&mut self) -> (result: Result<(), ConfigError>)
        ensures
            result is Ok,
            final(self)@ == old(self)@.compiled(),
    {
        self.forward_operation = Operation::from_str(self.forward_shortcut.as_str());
        self.backward_operation = Operation::from_str(self.backward_shortcut.as_str());
        Ok(())
    }

    pub fn id(&self) -> (id: i32)
        ensures
            id == self@.id,
    {
        self.id
    }

    pub fn name(&self) -> (name: &str)
        ensures
            name@ == self@.name,
    {
        self.name.as_str()
    }

    pub fn sticky_ctrl(&self) -> (sticky: bool)
        ensures
            sticky == self@.sticky_ctrl,
    {
        self.sticky_ctrl
    }

    pub fn sticky_shift(&self) -> (sticky: bool)
        ensures
            sticky == self@.sticky_shift,
    {
        self.sticky_shift
    }

    pub fn sticky_alt(&self) -> (sticky: bool)
        ensures
            sticky == self@.sticky_alt,
    {
        self.sticky_alt
    }

    pub fn forward_shortcut(&self) -> (shortcut: &str)
        ensures
            shortcut@ == self@.forward_shortcut,
    {
        self.forward_shortcut.as_str()
    }

    pub fn backward_shortcut(&self) -> (shortcut: &str)
        ensures
            shortcut@ == self@.backward_shortcut,
    {
        self.backward_shortcut.as_str()
    }

    pub fn forward_operation(&self) -> (operation: &Operation)
        ensures
            operation@ == self@.forward_operation,
    {
        &self.forward_operation
    }

    pub fn backward_operation(&self) -> (operation: &Operation)
        ensures
            operation@ == self@.backward_operation,
    {
        &self.backward_operation
    }
}

/// A one-shot action that a gesture triggers: a single shortcut.
#[derive(Debug)]
pub struct Command {
    pub(crate) id: i32,
    pub(crate) name: String,
    pub(crate) sticky_ctrl: bool,
    pub(crate) sticky_shift: bool,
    pub(crate) sticky_alt: bool,
    pub(crate) shortcut: String,
    pub(crate) operation: Operation,
}

/// The mathematical value of a [`Command`].
pub struct CommandView {
    pub id: i32,
    pub name: Seq<char>,
    pub sticky_ctrl: bool,
    pub sticky_shift: bool,
    pub sticky_alt: bool,
    pub shortcut: Seq<char>,
    pub operation: OperationView,
}

impl View for Command {
    type V = CommandView;

    open(crate) spec fn view(&self) -> CommandView {
        CommandView {
            id: self.id,
            name: self.name@,
            sticky_ctrl: self.sticky_ctrl,
            sticky_shift: self.sticky_shift,
            sticky_alt: self.sticky_alt,
            shortcut: self.shortcut@,
            operation: self.operation@,
        }
    }
}

impl CommandView {
    /// The command with its operation compiled from its shortcut.
    pub open spec fn compiled(self) -> CommandView {
        CommandView { operation: compile(self.shortcut), ..self }
    }

    /// A command with the given settings, its operation compiled.
    pub open spec fn new(
        id: i32,
        name: Seq<char>,
        sticky_ctrl: bool,
        sticky_shift: bool,
        sticky_alt: bool,
        shortcut: Seq<char>,
    ) -> CommandView {
        CommandView {
            id,
            name,
            sticky_ctrl,
            sticky_shift,
            sticky_alt,
            shortcut,
            operation: compile(shortcut),
        }
    }
}

impl Clone for Command {
    fn clone(&self) -> (copy: Self)
        ensures
            copy@ == self@,
    {
        Command {
            id: self.id,
            name: self.name.clone(),
            sticky_ctrl: self.sticky_ctrl,
            sticky_shift: self.sticky_shift,
            sticky_alt: self.sticky_alt,
            shortcut: self.shortcut.clone(),
            operation: self.operation.clone(),
        }
    }
}

impl Default for Command {
    fn default() -> (command: Command)
        ensures
            command@ == CommandView::new(-1i32, "Unknown"@, false, false, false, ""@),
    {
        Command::new(-1, "Unknown", false, false, false, "")
    }
}

impl Command {
    /// A command with the given settings. Its operation is compiled from the
    /// shortcut.
    pub fn new(
        id: i32,
        name: &str,
        sticky_ctrl: bool,
        sticky_shift: bool,
        sticky_alt: bool,
        shortcut: &str,
    ) -> (command: Command)
        ensures
            command@ == CommandView::new(
                id,
                name@,
                sticky_ctrl,
                sticky_shift,
                sticky_alt,
                shortcut@,
            ),
    {
        Command {
            id,
            name: String::from_str(name),
            sticky_ctrl,
            sticky_shift,
            sticky_alt,
            shortcut: String::from_str(shortcut),
            operation: Operation::from_str(shortcut),
        }
    }

    /// Compiles the operation from the shortcut again. This cannot fail.
    pub fn finalize(&mut self) -> (result: Result<(), ConfigError>)
        ensures
            result is Ok,
            final(self)@ == old(self)@.compiled(),
    {
        self.operation = Operation::from_str(self.shortcut.as_str());
        Ok(())
    }

    pub fn id(&self) -> (id: i32)
        ensures
            id == self@.id,
    {
        self.id
    }

    pub fn name(&self) -> (name: &str)
        ensures
            name@ == self@.name,
    {
        self.name.as_str()
    }

    pub fn operation(&self) -> (operation: &Operation)
        ensures
            operation@ == self@.operation,
    {
        &self.operation
    }

    pub fn shortcut(&self) -> (shortcut: &str)
        ensures
            shortcut@ == self@.shortcut,
    {
        self.shortcut.as_str()
    }

    pub fn sticky_ctrl(&self) -> (sticky: bool)
        ensures
            sticky == self@.sticky_ctrl,
    {
        self.sticky_ctrl
    }

    pub fn sticky_shift(&self) -> (sticky: bool)
        ensures
            sticky == self@.sticky_shift,
    {
        self.sticky_shift
    }

    pub fn sticky_alt(&self) -> (sticky: bool)
        ensures
            sticky == self@.sticky_alt,
    {
        self.sticky_alt
    }
}

/// The identifiers of `actions`, in order.
pub open spec fn action_ids(actions: Seq<ActionView>) -> Seq<i32> {
    actions.map_values(|action: ActionView| action.id)
}

/// The identifiers of `commands`, in order.
pub open spec fn command_ids(commands: Seq<CommandView>) -> Seq<i32> {
    commands.map_values(|command: CommandView| command.id)
}

/// The condition of being an identifier that is not among `ids`.
pub open spec fn absent_from(ids: Seq<i32>) -> spec_fn(i32) -> bool {
    |id: i32| first_position(ids, id) is None
}

/// The index of the first action with the identifier `id`.
pub fn find_action(actions: &Vec<Action>, id: i32) -> (found: Option<usize>)
    ensures
        match found {
            Some(index) => index < actions@.len() && first_position(
                action_ids(views(actions@)),
                id,
            ) == Some(index as int),
            None => first_position(action_ids(views(actions@)), id) is None,
        },
{
    let ghost ids = action_ids(views(actions@));
    let mut i: usize = 0;
    while i < actions.len()
        invariant
            i <= actions@.len(),
            ids == action_ids(views(actions@)),
            forall|j: int| 0 <= j < i ==> !same_as(id)(#[trigger] ids[j]),
        decreases actions.len() - i,
    {
        if actions[i].id == id {
            proof {
                lemma_first_where_found(ids, same_as(id), i as int);
            }
            return Some(i);
        }
        i = i + 1;
    }
    proof {
        lemma_first_where_none(ids, same_as(id));
    }
    None
}

/// The index of the first command with the identifier `id`.
pub fn find_command(commands: &Vec<Command>, id: i32) -> (found: Option<usize>)
    ensures
        match found {
            Some(index) => index < commands@.len() && first_position(
                command_ids(views(commands@)),
                id,
            ) == Some(index as int),
            None => first_position(command_ids(views(commands@)), id) is None,
        },
{
    let ghost ids = command_ids(views(commands@));
    let mut i: usize = 0;
    while i < commands.len()
        invariant
            i <= commands@.len(),
            ids == command_ids(views(commands@)),
            forall|j: int| 0 <= j < i ==> !same_as(id)(#[trigger] ids[j]),
        decreases commands.len() - i,
    {
        if commands[i].id == id {
            proof {
                lemma_first_where_found(ids, same_as(id), i as int);
            }
            return Some(i);
        }
        i = i + 1;
    }
    proof {
        lemma_first_where_none(ids, same_as(id));
    }
    None
}

/// The index of the first element of `ids` equal to `id`.
pub fn find_id(ids: &Vec<i32>, id: i32) -> (found: Option<usize>)
    ensures
        match found {
            Some(index) => index < ids@.len() && first_position(ids@, id) == Some(index as int),
            None => first_position(ids@, id) is None,
        },
{
    let mut i: usize = 0;
    while i < ids.len()
        invariant
            i <= ids@.len(),
            forall|j: int| 0 <= j < i ==> !same_as(id)(#[trigger] ids@[j]),
        decreases ids.len() - i,
    {
        if ids[i] == id {
            proof {
                lemma_first_where_found(ids@, same_as(id), i as int);
            }
            return Some(i);
        }
        i = i + 1;
    }
    proof {
        lemma_first_where_none(ids@, same_as(id));
    }
    None
}

} // verus!
