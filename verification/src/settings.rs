//! The settings: every action, command, ring and scheme of a configuration,
//! with the braille schemes, and the link step that makes them ready to run.

use vstd::prelude::*;
use crate::binding::{Scheme, SchemeView};
use crate::braille::{BrailleSchemeManager, BrailleSchemeView};
use crate::error::ConfigError;
use crate::lookup::{lemma_pass_failed, lemma_pass_succeeded, pass, views};
use crate::model::{Action, ActionView, Command, CommandView};
use crate::ring::{Ring, RingView};

verus! {

/// The root of a configuration.
#[derive(Debug)]
pub struct Settings {
    pub(crate) actions: Vec<Action>,
    pub(crate) commands: Vec<Command>,
    pub(crate) rings: Vec<Ring>,
    pub(crate) schemes: Vec<Scheme>,
    pub(crate) braille: BrailleSchemeManager,
}

/// The mathematical value of [`Settings`].
pub struct SettingsView {
    pub actions: Seq<ActionView>,
    pub commands: Seq<CommandView>,
    pub rings: Seq<RingView>,
    pub schemes: Seq<SchemeView>,
    pub braille: Seq<BrailleSchemeView>,
}

impl View for Settings {
    type V = SettingsView;

    open(crate) spec fn view(&self) -> SettingsView {
        SettingsView {
            actions: views(self.actions@),
            commands: views(self.commands@),
            rings: views(self.rings@),
            schemes: views(self.schemes@),
            braille: self.braille@,
        }
    }
}

/// `actions` with the operations of each compiled from its shortcuts.
pub open spec fn compiled_actions(actions: Seq<ActionView>) -> Seq<ActionView> {
    actions.map_values(|action: ActionView| action.compiled())
}

/// `commands` with the operation of each compiled from its shortcut.
pub open spec fn compiled_commands(commands: Seq<CommandView>) -> Seq<CommandView> {
    commands.map_values(|command: CommandView| command.compiled())
}

/// Linking one ring against `actions`.
pub open spec fn ring_step(actions: Seq<ActionView>) -> spec_fn(RingView) -> (
    RingView,
    Result<(), ConfigError>,
) {
    |ring: RingView| ring.finalized(actions)
}

/// Linking one scheme against `commands` and `rings`.
pub open spec fn scheme_step(commands: Seq<CommandView>, rings: Seq<RingView>) -> spec_fn(
    SchemeView,
) -> (SchemeView, Result<(), ConfigError>) {
    |scheme: SchemeView| scheme.finalized(commands, rings)
}

impl SettingsView {
    /// What linking does to the settings, from the top down.
    ///
    /// The operations of every action and command are compiled. Then the rings
    /// are linked, in order, against the actions. If none is rejected, the
    /// schemes are linked, in order, against the commands and the linked rings.
    /// The first ring or binding that is rejected ends the linking: what was
    /// linked before it stays linked, what comes after it stays as it was.
    pub open spec fn finalized(self) -> (SettingsView, Result<(), ConfigError>) {
        let actions = compiled_actions(self.actions);
        let commands = compiled_commands(self.commands);
        let (rings, rings_result) = pass(self.rings, ring_step(actions));
        if rings_result is Err {
            (SettingsView { actions, commands, rings, ..self }, rings_result)
        } else {
            let (schemes, result) = pass(self.schemes, scheme_step(commands, rings));
            (SettingsView { actions, commands, rings, schemes, ..self }, result)
        }
    }
}

/// Compiles the operations of every action.
pub fn finalize_actions(actions: &mut Vec<Action>)
    ensures
        views(final(actions)@) == compiled_actions(views(old(actions)@)),
{
    let ghost before = views(actions@);
    let mut i: usize = 0;
    while i < actions.len()
        invariant
            before == views(old(actions)@),
            actions@.len() == before.len(),
            i <= actions@.len(),
            forall|j: int| 0 <= j < i ==> #[trigger] views(actions@)[j] == before[j].compiled(),
            forall|j: int| i <= j < before.len() ==> #[trigger] views(actions@)[j] == before[j],
        decreases actions.len() - i,
    {
        let ghost earlier = views(actions@);
        assert(earlier[i as int] == before[i as int]);
        assert(earlier[i as int] == actions@[i as int]@);
        let _ = actions[i].finalize();
        proof {
            assert forall|j: int| 0 <= j < before.len() && j != i implies #[trigger] views(
                actions@,
            )[j] == earlier[j] by {}
            assert(views(actions@)[i as int] == before[i as int].compiled());
        }
        i = i + 1;
    }
    assert(views(actions@) =~= compiled_actions(before));
}

/// Compiles the operation of every command.
pub fn finalize_commands(commands: &mut Vec<Command>)
    ensures
        views(final(commands)@) == compiled_commands(views(old(commands)@)),
{
    let ghost before = views(commands@);
    let mut i: usize = 0;
    while i < commands.len()
        invariant
            before == views(old(commands)@),
            commands@.len() == before.len(),
            i <= commands@.len(),
            forall|j: int| 0 <= j < i ==> #[trigger] views(commands@)[j] == before[j].compiled(),
            forall|j: int| i <= j < before.len() ==> #[trigger] views(commands@)[j] == before[j],
        decreases commands.len() - i,
    {
        let ghost earlier = views(commands@);
        assert(earlier[i as int] == before[i as int]);
        assert(earlier[i as int] == commands@[i as int]@);
        let _ = commands[i].finalize();
        proof {
            assert forall|j: int| 0 <= j < before.len() && j != i implies #[trigger] views(
                commands@,
            )[j] == earlier[j] by {}
            assert(views(commands@)[i as int] == before[i as int].compiled());
        }
        i = i + 1;
    }
    assert(views(commands@) =~= compiled_commands(before));
}

/// Links `rings` in order against `actions`, up to the first that is rejected.
pub fn finalize_rings(rings: &mut Vec<Ring>, actions: &Vec<Action>) -> (result: Result<
    (),
    ConfigError,
>)
    ensures
        (views(final(rings)@), result) == pass(views(old(rings)@), ring_step(views(actions@))),
{
    let ghost before = views(rings@);
    let ghost step = ring_step(views(actions@));
    let mut i: usize = 0;
    while i < rings.len()
        invariant
            before == views(old(rings)@),
            step == ring_step(views(actions@)),
            rings@.len() == before.len(),
            i <= rings@.len(),
            forall|j: int| 0 <= j < i ==> step(#[trigger] before[j]).1 is Ok,
            forall|j: int| 0 <= j < i ==> #[trigger] views(rings@)[j] == step(before[j]).0,
            forall|j: int| i <= j < before.len() ==> #[trigger] views(rings@)[j] == before[j],
        decreases rings.len() - i,
    {
        let ghost earlier = views(rings@);
        assert(earlier[i as int] == before[i as int]);
        assert(earlier[i as int] == rings@[i as int]@);
        let result = rings[i].finalize(actions);
        proof {
            assert forall|j: int| 0 <= j < before.len() && j != i implies #[trigger] views(
                rings@,
            )[j] == earlier[j] by {}
            assert(step(before[i as int]) == before[i as int].finalized(views(actions@)));
            assert(rings@[i as int]@ == step(before[i as int]).0);
            assert(result == step(before[i as int]).1);
            assert(views(rings@)[i as int] == step(before[i as int]).0);
        }
        if let Err(error) = result {
            proof {
                lemma_pass_failed(before, step, views(rings@), i as int);
            }
            return Err(error);
        }
        i = i + 1;
    }
    proof {
        lemma_pass_succeeded(before, step, views(rings@));
    }
    Ok(())
}

/// Links `schemes` in order against `commands` and `rings`, up to the first
/// that is rejected.
pub fn finalize_schemes(schemes: &mut Vec<Scheme>, commands: &Vec<Command>, rings: &Vec<Ring>) -> (result:
    Result<(), ConfigError>)
    ensures
        (views(final(schemes)@), result) == pass(
            views(old(schemes)@),
            scheme_step(views(commands@), views(rings@)),
        ),
{
    let ghost before = views(schemes@);
    let ghost step = scheme_step(views(commands@), views(rings@));
    let mut i: usize = 0;
    while i < schemes.len()
        invariant
            before == views(old(schemes)@),
            step == scheme_step(views(commands@), views(rings@)),
            schemes@.len() == before.len(),
            i <= schemes@.len(),
            forall|j: int| 0 <= j < i ==> step(#[trigger] before[j]).1 is Ok,
            forall|j: int| 0 <= j < i ==> #[trigger] views(schemes@)[j] == step(before[j]).0,
            forall|j: int| i <= j < before.len() ==> #[trigger] views(schemes@)[j] == before[j],
        decreases schemes.len() - i,
    {
        let ghost earlier = views(schemes@);
        assert(earlier[i as int] == before[i as int]);
        assert(earlier[i as int] == schemes@[i as int]@);
        let result = schemes[i].finalize(commands, rings);
        proof {
            assert forall|j: int| 0 <= j < before.len() && j != i implies #[trigger] views(
                schemes@,
            )[j] == earlier[j] by {}
            assert(step(before[i as int]) == before[i as int].finalized(
                views(commands@),
                views(rings@),
            ));
            assert(schemes@[i as int]@ == step(before[i as int]).0);
            assert(result == step(before[i as int]).1);
            assert(views(schemes@)[i as int] == step(before[i as int]).0);
        }
        if let Err(error) = result {
            proof {
                lemma_pass_failed(before, step, views(schemes@), i as int);
            }
            return Err(error);
        }
        i = i + 1;
    }
    proof {
        lemma_pass_succeeded(before, step, views(schemes@));
    }
    Ok(())
}

impl Settings {
    /// The settings of the given parts.
    pub fn new(
        actions: Vec<Action>,
        commands: Vec<Command>,
        rings: Vec<Ring>,
        schemes: Vec<Scheme>,
        braille: BrailleSchemeManager,
    ) -> (settings: Settings)
        ensures
            settings@ == (SettingsView {
                actions: views(actions@),
                commands: views(commands@),
                rings: views(rings@),
                schemes: views(schemes@),
                braille: braille@,
            }),
    {
        Settings { actions, commands, rings, schemes, braille }
    }

    /// Links the settings, from the top down: actions and commands compile
    /// their operations, rings resolve their actions, schemes resolve their
    /// rings and commands. The first identifier that cannot be resolved ends
    /// the linking with an error.
    pub fn finalize(&mut self) -> (result: Result<(), ConfigError>)
        ensures
            (final(self)@, result) == old(self)@.finalized(),
    {
        finalize_actions(&mut self.actions);
        finalize_commands(&mut self.commands);
        if let Err(error) = finalize_rings(&mut self.rings, &self.actions) {
            return Err(error);
        }
        finalize_schemes(&mut self.schemes, &self.commands, &self.rings)
    }

    pub fn actions(&self) -> (actions: &Vec<Action>)
        ensures
            views(actions@) == self@.actions,
    {
        &self.actions
    }

    pub fn commands(&self) -> (commands: &Vec<Command>)
        ensures
            views(commands@) == self@.commands,
    {
        &self.commands
    }

    pub fn rings(&self) -> (rings: &Vec<Ring>)
        ensures
            views(rings@) == self@.rings,
    {
        &self.rings
    }

    pub fn schemes(&self) -> (schemes: &Vec<Scheme>)
        ensures
            views(schemes@) == self@.schemes,
    {
        &self.schemes
    }

    pub fn braille(&self) -> (braille: &BrailleSchemeManager)
        ensures
            braille@ == self@.braille,
    {
        &self.braille
    }
}

impl Default for Settings {
    fn default() -> (settings: Settings)
        ensures
            settings@ == (SettingsView {
                actions: Seq::<ActionView>::empty(),
                commands: Seq::<CommandView>::empty(),
                rings: Seq::<RingView>::empty(),
                schemes: Seq::<SchemeView>::empty(),
                braille: Seq::<BrailleSchemeView>::empty(),
            }),
    {
        let settings = Settings::new(
            Vec::new(),
            Vec::new(),
            Vec::new(),
            Vec::new(),
            BrailleSchemeManager::new(Vec::new()),
        );
        assert(settings@.actions =~= Seq::<ActionView>::empty());
        assert(settings@.commands =~= Seq::<CommandView>::empty());
        assert(settings@.rings =~= Seq::<RingView>::empty());
        assert(settings@.schemes =~= Seq::<SchemeView>::empty());
        assert(settings@.braille =~= Seq::<BrailleSchemeView>::empty());
        settings
    }
}

} // verus!
