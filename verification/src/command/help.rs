use vstd::prelude::*;
use crate::command::commands::{all_commands, Command, CommandSpec};

verus! {

/// What the help command gives back: a short tutorial and a line per command.
#[derive(Clone, PartialEq, Eq, Debug)]
pub struct ExecuteHelpReport {
    pub tutorial: String,
    pub commands: Vec<String>,
}

/// The tutorial the help opens with.
pub open spec fn tutorial_text() -> Seq<char> {
    "Use state, see what you like. Then get Moving, try Move 0. Do some more movement, earn some treasure. Use the treasure to craft items and expand difficulty. Have fun."@
}

/// The help line of a command.
pub open spec fn help_text(c: CommandSpec) -> Seq<char> {
    match c {
        CommandSpec::State => "State: Get complete state of the game."@,
        CommandSpec::Move(_) => "Move X: Move to place with index X. The game will tell you if you win the place and get the reward, with a lot more info too. After the move the place would be rerolled. You can move to the same place as many times in a row you want."@,
        CommandSpec::Equip(_, _) => "Equip X Y: Equip item from inventory at index X and exchange it with the item currently equipped at index Y."@,
        CommandSpec::SwapEquipment(_, _) => "SwapEquipment X Y: Swap equipped item at index X with equipped item at index Y."@,
        CommandSpec::RerollModifier(_, _, _) => "RerollModifier X Y Z: Reroll the modifier at index Y oo item in inventory at index X. Z is a comma seperated list of indexes for items in the inventory to sacrifice to pay the cost of the command, each item need to have at least the same amount of modifiers as the index of the modifier being rerolled. Z can contain relative indexes prefixed with + or -, they are relative to X."@,
        CommandSpec::ExpandPlaces => "ExpandPlaces: Expand the number of places you can move too."@,
        CommandSpec::ExpandElements => "ExpandElements: Expand the amount of possible elements. This both affect newly rolled places and newly rolled modifiers."@,
        CommandSpec::ExpandMaxElement => "ExpandMaxElement: Expand the maximum possible roll of a random element. This both affect newly rolled places and newly rolled modifiers."@,
        CommandSpec::ExpandMinElement => "ExpandMinElement: Expand the minimum possible roll of a random element. This both affect newly rolled places and newly rolled modifiers. Minimum cannot go above maximum."@,
        CommandSpec::ExpandMaxSimultaneousElement => "ExpandMaxSimultaneousElement: Expand the maximum possible simultaneous roll elements. This both affect newly rolled places and newly rolled modifiers."@,
        CommandSpec::ExpandMinSimultaneousElement => "ExpandMinSimultaneousElement: Expand the minimum possible simultaneous roll elements. This both affect newly rolled places and newly rolled modifiers. Minimum cannot go above maximum."@,
        CommandSpec::ExpandEquipmentSlots => "ExpandEquipmentSlots: Expand the amount of possible equipment slots. It will equip the last item in your inventory automatically. If there are no items in the inventory it will craft a new shiny item to be equipped."@,
        CommandSpec::ReduceDifficulty => "ReduceDifficulty: reduce a random attack types max value in game difficulty, if that goes lower than min value then min value is reduced. If the max value gets too low then the element will be removed. Simultaneous elements could also be affected."@,
        CommandSpec::AddModifier(_, _) => "AddModifier X Y: Give item in inventory at index X a new random modifier. Y is a comma seperated list of indexes for items in the inventory to sacrifice to pay the cost of the command, they each need to have at least the same amount of modifiers as the item being upgraded. Z can contain relative indexes prefixed with + or -, they are relative to X."@,
        CommandSpec::Help => "Help: Get the help text that you are reading right now."@,
        CommandSpec::ReorderInventory => "ReorderInventory: Arranges all items in the inventory so there are no more gaps in indexes between items."@,
        CommandSpec::SaveTheWorld(_, _) => "SaveTheWorld X Optional(Y): Save the world! So you can load it later; Stay saved. X is save game name, Y is optional save game path."@,
        CommandSpec::LoadTheWorld(_, _) => "LoadTheWorld X Optional(Y): Load a saved world. X is save game name, Y is optional save game path."@,
    }
}

/// The help: the tutorial, then the help line of each command in the order of
/// `Command::get_all`.
pub fn execute_help() -> (r: ExecuteHelpReport)
    ensures
        r.tutorial@ == tutorial_text(),
        r.commands@.len() == all_commands().len(),
        forall|i: int| 0 <= i < all_commands().len() ==> #[trigger] r.commands@[i]@ == help_text(all_commands()[i]),
{
    let tutorial = String::from_str("Use state, see what you like. Then get Moving, try Move 0. Do some more movement, earn some treasure. Use the treasure to craft items and expand difficulty. Have fun.");
    let all = Command::get_all();
    let mut commands: Vec<String> = Vec::new();
    let mut i: usize = 0;
    while i < all.len()
        invariant
            all.deep_view() == all_commands(),
            i <= all@.len(),
            commands@.len() == i,
            forall|k: int| 0 <= k < i ==> #[trigger] commands@[k]@ == help_text(all_commands()[k]),
        decreases all@.len() - i,
    {
        assert(all.deep_view()[i as int] == all@[i as int].deep_view());
        let text = execute_help_for_command(&all[i]);
        commands.push(String::from_str(text));
        i = i + 1;
    }
    ExecuteHelpReport { tutorial, commands }
}

/// The help line of a command.
fn execute_help_for_command(command: &Command) -> (r: &'static str)
    ensures
        r@ == help_text(command.deep_view()),
{
    match command {
        Command::State => "State: Get complete state of the game.",
        Command::Move(_) => "Move X: Move to place with index X. The game will tell you if you win the place and get the reward, with a lot more info too. After the move the place would be rerolled. You can move to the same place as many times in a row you want.",
        Command::Equip(_, _) => "Equip X Y: Equip item from inventory at index X and exchange it with the item currently equipped at index Y.",
        Command::SwapEquipment(_, _) => "SwapEquipment X Y: Swap equipped item at index X with equipped item at index Y.",
        Command::RerollModifier(_, _, _) => "RerollModifier X Y Z: Reroll the modifier at index Y oo item in inventory at index X. Z is a comma seperated list of indexes for items in the inventory to sacrifice to pay the cost of the command, each item need to have at least the same amount of modifiers as the index of the modifier being rerolled. Z can contain relative indexes prefixed with + or -, they are relative to X.",
        Command::ExpandPlaces => "ExpandPlaces: Expand the number of places you can move too.",
        Command::ExpandElements => "ExpandElements: Expand the amount of possible elements. This both affect newly rolled places and newly rolled modifiers.",
        Command::ExpandMaxElement => "ExpandMaxElement: Expand the maximum possible roll of a random element. This both affect newly rolled places and newly rolled modifiers.",
        Command::ExpandMinElement => "ExpandMinElement: Expand the minimum possible roll of a random element. This both affect newly rolled places and newly rolled modifiers. Minimum cannot go above maximum.",
        Command::ExpandMaxSimultaneousElement => "ExpandMaxSimultaneousElement: Expand the maximum possible simultaneous roll elements. This both affect newly rolled places and newly rolled modifiers.",
        Command::ExpandMinSimultaneousElement => "ExpandMinSimultaneousElement: Expand the minimum possible simultaneous roll elements. This both affect newly rolled places and newly rolled modifiers. Minimum cannot go above maximum.",
        Command::ExpandEquipmentSlots => "ExpandEquipmentSlots: Expand the amount of possible equipment slots. It will equip the last item in your inventory automatically. If there are no items in the inventory it will craft a new shiny item to be equipped.",
        Command::ReduceDifficulty => "ReduceDifficulty: reduce a random attack types max value in game difficulty, if that goes lower than min value then min value is reduced. If the max value gets too low then the element will be removed. Simultaneous elements could also be affected.",
        Command::AddModifier(_, _) => "AddModifier X Y: Give item in inventory at index X a new random modifier. Y is a comma seperated list of indexes for items in the inventory to sacrifice to pay the cost of the command, they each need to have at least the same amount of modifiers as the item being upgraded. Z can contain relative indexes prefixed with + or -, they are relative to X.",
        Command::Help => "Help: Get the help text that you are reading right now.",
        Command::ReorderInventory => "ReorderInventory: Arranges all items in the inventory so there are no more gaps in indexes between items.",
        Command::SaveTheWorld(_, _) => "SaveTheWorld X Optional(Y): Save the world! So you can load it later; Stay saved. X is save game name, Y is optional save game path.",
        Command::LoadTheWorld(_, _) => "LoadTheWorld X Optional(Y): Load a saved world. X is save game name, Y is optional save game path.",
    }
}

/// `a` and `b` are the same command, whatever their arguments.
pub open spec fn same_command(a: CommandSpec, b: CommandSpec) -> bool {
    ||| a is State && b is State
    ||| a is Move && b is Move
    ||| a is Equip && b is Equip
    ||| a is SwapEquipment && b is SwapEquipment
    ||| a is RerollModifier && b is RerollModifier
    ||| a is ExpandPlaces && b is ExpandPlaces
    ||| a is ExpandElements && b is ExpandElements
    ||| a is ExpandMaxElement && b is ExpandMaxElement
    ||| a is ExpandMinElement && b is ExpandMinElement
    ||| a is ExpandMaxSimultaneousElement && b is ExpandMaxSimultaneousElement
    ||| a is ExpandMinSimultaneousElement && b is ExpandMinSimultaneousElement
    ||| a is ExpandEquipmentSlots && b is ExpandEquipmentSlots
    ||| a is ReduceDifficulty && b is ReduceDifficulty
    ||| a is AddModifier && b is AddModifier
    ||| a is Help && b is Help
    ||| a is ReorderInventory && b is ReorderInventory
    ||| a is SaveTheWorld && b is SaveTheWorld
    ||| a is LoadTheWorld && b is LoadTheWorld
}

/// The help line of a command depends only on which command it is, not on its
/// arguments: `Move 0` and `Move 99` get the same line.
pub proof fn lemma_help_ignores_arguments(a: CommandSpec, b: CommandSpec)
    requires
        same_command(a, b),
    ensures
        help_text(a) == help_text(b),
{
}

} // verus!
