use std::collections::HashSet;
use ultracam::commands::{all_commands, commands_in_category, Category, ParamType};

#[test]
fn command_table_contents() {
    let cmds = all_commands();
    assert_eq!(cmds.len(), 27);
    assert_eq!(cmds[0].name, "fps");
    assert_eq!(cmds[0].packet_id, 40);
    assert_eq!(cmds[0].param_type, ParamType::Float);
    assert_eq!(cmds[4].name, "settime");
    assert_eq!(cmds[4].packet_id, -1);
    assert_eq!(cmds[4].param_type, ParamType::SetTime);
    assert_eq!(cmds[26].name, "healthregen");
    assert_eq!(cmds[26].category, Category::Gameplay);
}

#[test]
fn names_and_ids_are_distinct() {
    let cmds = all_commands();
    let names: HashSet<_> = cmds.iter().map(|c| c.name).collect();
    let ids: HashSet<_> = cmds.iter().map(|c| c.packet_id).collect();
    assert_eq!(names.len(), cmds.len());
    assert_eq!(ids.len(), cmds.len());
}

#[test]
fn categories_and_labels() {
    assert_eq!(
        Category::all(),
        &[Category::Graphics, Category::Utility, Category::Cheats, Category::Gameplay]
    );
    assert_eq!(Category::Graphics.label(), "🎨 图形");
    assert_eq!(Category::Gameplay.label(), "🎮 游戏性");
}

#[test]
fn filter_by_category() {
    let cmds = all_commands();
    let cheats = commands_in_category(&cmds, Category::Cheats);
    let names: Vec<_> = cheats.iter().map(|c| c.name).collect();
    assert_eq!(names, vec!["godmode", "kill", "killall", "heal", "healall", "gamespeed"]);
    let total: usize = Category::all()
        .iter()
        .map(|c| commands_in_category(&cmds, *c).len())
        .sum();
    assert_eq!(total, cmds.len());
}
