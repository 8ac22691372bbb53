use headset_battery_indicator::headset_control::ControlCapabilities;
use headset_battery_indicator::lang::Key;
use headset_battery_indicator::menu::{
    inactive_time_option, ContextMenu, ControlAction, ItemKind, MenuCommand, MenuEntry,
    MenuEventAction, MenuLabel, INACTIVE_TIME_OPTION_COUNT,
};
use headset_battery_indicator::settings::Settings;

fn settings(minutes: u8) -> Settings {
    Settings {
        notifications_enabled: true,
        use_number_icon: false,
        sidetone_enabled: true,
        microphone_light_enabled: false,
        inactive_time_minutes: minutes,
    }
}

fn all_controls() -> ControlCapabilities {
    ControlCapabilities { sidetone: true, microphone_light: true, inactive_time: true }
}

fn checked_options(cmds: &[MenuCommand]) -> Vec<(u8, bool)> {
    cmds.iter()
        .filter_map(|c| match c {
            MenuCommand::SetChecked { entry: MenuEntry::InactiveTimeOption(m), checked } => {
                Some((*m, *checked))
            }
            _ => None,
        })
        .collect()
}

#[test]
fn new_menu_commands() {
    let (_, cmds) = ContextMenu::new(settings(0));
    assert_eq!(cmds.len(), 6);
    assert!(matches!(
        cmds[0],
        MenuCommand::Append { item } if item.entry == MenuEntry::Version && !item.enabled
            && matches!(item.label, MenuLabel::VersionLine)
    ));
    assert!(matches!(
        cmds[1],
        MenuCommand::Append { item } if item.entry == MenuEntry::Notifications
            && matches!(item.kind, ItemKind::Check { checked: true })
            && matches!(item.label, MenuLabel::Text(Key::ShowNotifications))
    ));
    assert!(matches!(
        cmds[2],
        MenuCommand::Append { item } if item.entry == MenuEntry::TextIcon
            && matches!(item.kind, ItemKind::Check { checked: false })
    ));
    assert!(matches!(cmds[3], MenuCommand::Append { item } if item.entry == MenuEntry::Logs));
    assert!(matches!(
        cmds[4],
        MenuCommand::Append { item } if matches!(item.kind, ItemKind::Separator)
    ));
    assert!(matches!(cmds[5], MenuCommand::Append { item } if item.entry == MenuEntry::Close));
}

#[test]
fn update_item_shown_once() {
    let (mut menu, _) = ContextMenu::new(settings(0));
    let first = menu.show_update_available();
    assert_eq!(first.len(), 1);
    assert!(matches!(
        first[0],
        MenuCommand::Insert { item, position: 1 } if item.entry == MenuEntry::UpdateAvailable
            && matches!(item.label, MenuLabel::UpdateNotice)
    ));
    assert!(menu.show_update_available().is_empty());
    assert_eq!(menu.handle_event(MenuEntry::UpdateAvailable), MenuEventAction::OpenUpdatePage);
}

#[test]
fn sync_builds_controls_above_logs() {
    let (mut menu, _) = ContextMenu::new(settings(0));
    let caps = ControlCapabilities { sidetone: true, microphone_light: false, inactive_time: true };
    let cmds = menu.sync_control_menu(caps, settings(15));
    // submenu, 3 children, 5 options, then 2 + 5 checks
    assert_eq!(cmds.len(), 1 + 3 + 5 + 2 + 5);
    assert!(matches!(
        cmds[0],
        MenuCommand::Insert { item, position: 3 } if item.entry == MenuEntry::ControlSubmenu
            && matches!(item.kind, ItemKind::Submenu)
            && matches!(item.label, MenuLabel::Text(Key::ControlHeadset))
    ));
    assert!(matches!(
        cmds[1],
        MenuCommand::AppendChild { parent: MenuEntry::ControlSubmenu, item }
            if item.entry == MenuEntry::Sidetone && item.enabled
                && matches!(item.kind, ItemKind::Check { checked: true })
    ));
    assert!(matches!(
        cmds[2],
        MenuCommand::AppendChild { parent: MenuEntry::ControlSubmenu, item }
            if item.entry == MenuEntry::MicrophoneLight && !item.enabled
                && matches!(item.kind, ItemKind::Check { checked: false })
    ));
    assert!(matches!(
        cmds[3],
        MenuCommand::AppendChild { parent: MenuEntry::ControlSubmenu, item }
            if item.entry == MenuEntry::InactiveTimeSubmenu && item.enabled
    ));
    let expected = [(0u8, "Off", false), (5, "5 min", false), (15, "15 min", true), (30, "30 min", false), (60, "60 min", false)];
    for (i, (minutes, label, checked)) in expected.iter().enumerate() {
        match cmds[4 + i] {
            MenuCommand::AppendChild { parent: MenuEntry::InactiveTimeSubmenu, item } => {
                assert_eq!(item.entry, MenuEntry::InactiveTimeOption(*minutes));
                assert!(matches!(item.label, MenuLabel::Literal(l) if l == *label));
                assert!(matches!(item.kind, ItemKind::Check { checked: c } if c == *checked));
                assert!(item.enabled);
            }
            other => panic!("unexpected command {other:?}"),
        }
    }
    assert!(matches!(
        cmds[9],
        MenuCommand::SetChecked { entry: MenuEntry::Sidetone, checked: true }
    ));
    assert!(matches!(
        cmds[10],
        MenuCommand::SetChecked { entry: MenuEntry::MicrophoneLight, checked: false }
    ));
    assert_eq!(
        checked_options(&cmds),
        vec![(0, false), (5, false), (15, true), (30, false), (60, false)]
    );
}

#[test]
fn sync_position_moves_with_update_item() {
    let (mut menu, _) = ContextMenu::new(settings(0));
    menu.show_update_available();
    let cmds = menu.sync_control_menu(all_controls(), settings(0));
    assert!(matches!(cmds[0], MenuCommand::Insert { position: 4, .. }));
}

#[test]
fn sync_again_only_sets_checks() {
    let (mut menu, _) = ContextMenu::new(settings(0));
    menu.sync_control_menu(all_controls(), settings(5));
    let cmds = menu.sync_control_menu(all_controls(), settings(60));
    assert_eq!(cmds.len(), 7);
    assert!(cmds.iter().all(|c| matches!(c, MenuCommand::SetChecked { .. })));
    assert_eq!(
        checked_options(&cmds),
        vec![(0, false), (5, false), (15, false), (30, false), (60, true)]
    );
}

#[test]
fn sync_rebuilds_when_capabilities_change() {
    let (mut menu, _) = ContextMenu::new(settings(0));
    menu.sync_control_menu(all_controls(), settings(5));
    let caps = ControlCapabilities { sidetone: true, microphone_light: false, inactive_time: false };
    let cmds = menu.sync_control_menu(caps, settings(5));
    assert!(matches!(cmds[0], MenuCommand::Remove { entry: MenuEntry::ControlSubmenu }));
    assert!(matches!(
        cmds[1],
        MenuCommand::Insert { item, position: 3 } if item.entry == MenuEntry::ControlSubmenu
    ));
}

#[test]
fn sync_without_controls_removes_submenu() {
    let (mut menu, _) = ContextMenu::new(settings(0));
    assert!(menu.sync_control_menu(ControlCapabilities::default(), settings(0)).is_empty());
    menu.sync_control_menu(all_controls(), settings(0));
    let cmds = menu.sync_control_menu(ControlCapabilities::default(), settings(0));
    assert_eq!(cmds.len(), 1);
    assert!(matches!(cmds[0], MenuCommand::Remove { entry: MenuEntry::ControlSubmenu }));
    assert_eq!(menu.control_action_for_event(MenuEntry::Sidetone), None);
    // after removal a new sync builds the submenu again
    let cmds = menu.sync_control_menu(all_controls(), settings(0));
    assert!(matches!(cmds[0], MenuCommand::Insert { position: 3, .. }));
}

#[test]
fn clear_control_menu_removes_and_forgets() {
    let (mut menu, _) = ContextMenu::new(settings(0));
    assert!(menu.clear_control_menu().is_empty());
    menu.sync_control_menu(all_controls(), settings(0));
    let cmds = menu.clear_control_menu();
    assert_eq!(cmds.len(), 1);
    assert!(matches!(cmds[0], MenuCommand::Remove { entry: MenuEntry::ControlSubmenu }));
    // forgotten capabilities: the next sync builds the submenu again
    let cmds = menu.sync_control_menu(all_controls(), settings(0));
    assert!(matches!(cmds[0], MenuCommand::Insert { .. }));
}

#[test]
fn control_actions_only_while_controls_shown() {
    let (mut menu, _) = ContextMenu::new(settings(0));
    assert_eq!(menu.control_action_for_event(MenuEntry::Sidetone), None);
    menu.sync_control_menu(all_controls(), settings(0));
    assert_eq!(menu.control_action_for_event(MenuEntry::Sidetone), Some(ControlAction::Sidetone));
    assert_eq!(
        menu.control_action_for_event(MenuEntry::MicrophoneLight),
        Some(ControlAction::MicrophoneLight)
    );
    assert_eq!(
        menu.control_action_for_event(MenuEntry::InactiveTimeOption(15)),
        Some(ControlAction::InactiveTime(15))
    );
    assert_eq!(menu.control_action_for_event(MenuEntry::InactiveTimeOption(7)), None);
    assert_eq!(menu.control_action_for_event(MenuEntry::Logs), None);
}

#[test]
fn set_checked_commands() {
    let (mut menu, _) = ContextMenu::new(settings(0));
    assert!(menu.set_sidetone_checked(true).is_empty());
    assert!(menu.set_microphone_light_checked(true).is_empty());
    assert!(menu.set_inactive_time_checked(5).is_empty());
    menu.sync_control_menu(all_controls(), settings(0));
    let cmds = menu.set_sidetone_checked(false);
    assert!(matches!(
        cmds[..],
        [MenuCommand::SetChecked { entry: MenuEntry::Sidetone, checked: false }]
    ));
    let cmds = menu.set_microphone_light_checked(true);
    assert!(matches!(
        cmds[..],
        [MenuCommand::SetChecked { entry: MenuEntry::MicrophoneLight, checked: true }]
    ));
    let cmds = menu.set_inactive_time_checked(30);
    assert_eq!(
        checked_options(&cmds),
        vec![(0, false), (5, false), (15, false), (30, true), (60, false)]
    );
    let cmds = menu.set_inactive_time_checked(7);
    assert!(checked_options(&cmds).iter().all(|(_, c)| !c));
}

#[test]
fn event_actions() {
    let (menu, _) = ContextMenu::new(settings(0));
    assert_eq!(menu.handle_event(MenuEntry::Close), MenuEventAction::Exit);
    assert_eq!(menu.handle_event(MenuEntry::Logs), MenuEventAction::OpenLogFile);
    assert_eq!(menu.handle_event(MenuEntry::UpdateAvailable), MenuEventAction::Nothing);
    assert_eq!(menu.handle_event(MenuEntry::Notifications), MenuEventAction::Nothing);
}

#[test]
fn inactive_time_options_table() {
    assert_eq!(INACTIVE_TIME_OPTION_COUNT, 5);
    assert_eq!(inactive_time_option(0), (0, "Off"));
    assert_eq!(inactive_time_option(4), (60, "60 min"));
}

#[test]
fn sync_clear_sync_rebuilds_above_logs() {
    let (mut menu, _) = ContextMenu::new(settings(0));
    menu.show_update_available();
    menu.sync_control_menu(all_controls(), settings(0));
    menu.clear_control_menu();
    let cmds = menu.sync_control_menu(all_controls(), settings(0));
    // version, update, notifications, text icon, then the submenu above logs
    assert!(matches!(
        cmds[0],
        MenuCommand::Insert { item, position: 4 } if item.entry == MenuEntry::ControlSubmenu
    ));
    assert_eq!(cmds.iter().filter(|c| matches!(c, MenuCommand::Insert { .. })).count(), 1);
}
