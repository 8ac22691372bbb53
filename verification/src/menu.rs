use vstd::prelude::*;
use crate::headset_control::ControlCapabilities;
use crate::lang::Key;
use crate::settings::Settings;

verus! {

/// What a click in the headset controls asks for.
#[derive(Debug, Clone, Copy, PartialEq, Eq, Structural)]
pub enum ControlAction {
    Sidetone,
    MicrophoneLight,
    InactiveTime(u8),
}

/// The entries of the tray menu. Each entry stands for one menu item.
#[derive(Debug, Clone, Copy, PartialEq, Eq, Hash, Structural)]
pub enum MenuEntry {
    Version,
    Notifications,
    TextIcon,
    Logs,
    Separator,
    Close,
    UpdateAvailable,
    ControlSubmenu,
    Sidetone,
    MicrophoneLight,
    InactiveTimeSubmenu,
    InactiveTimeOption(u8),
}

/// What an item shows.
#[derive(Debug, Clone, Copy)]
pub enum MenuLabel {
    /// A text in the user's language.
    Text(Key),
    /// The program's name text followed by its version.
    VersionLine,
    /// The "update available" text with a warning sign in front.
    UpdateNotice,
    /// A fixed text.
    Literal(&'static str),
    /// No text (a separator).
    Blank,
}

/// What kind of item an entry is.
#[derive(Debug, Clone, Copy)]
pub enum ItemKind {
    Normal,
    Check { checked: bool },
    Separator,
    Submenu,
}

/// Everything needed to create one menu item.
#[derive(Debug, Clone, Copy)]
pub struct MenuItemSpec {
    pub entry: MenuEntry,
    pub label: MenuLabel,
    pub kind: ItemKind,
    pub enabled: bool,
}

/// A change that the tray menu must undergo to match the library's model.
#[derive(Debug, Clone, Copy)]
pub enum MenuCommand {
    /// Add the item at the end of the top-level menu.
    Append { item: MenuItemSpec },
    /// Insert the item into the top-level menu at `position`.
    Insert { item: MenuItemSpec, position: usize },
    /// Add the item at the end of the submenu `parent`.
    AppendChild { parent: MenuEntry, item: MenuItemSpec },
    /// Remove the item from the top-level menu.
    Remove { entry: MenuEntry },
    /// Check or uncheck a check item.
    SetChecked { entry: MenuEntry, checked: bool },
}

/// What the program must do after a click on a menu item.
#[derive(Debug, Clone, Copy, PartialEq, Eq, Structural)]
pub enum MenuEventAction {
    /// Quit the program.
    Exit,
    /// Open the page with new releases (`UPDATE_PAGE_URL`).
    OpenUpdatePage,
    /// Open the log file (`LOG_FILE_NAME`, next to the program).
    OpenLogFile,
    /// Nothing to do here.
    Nothing,
}

/// The page that lists new releases.
pub const UPDATE_PAGE_URL: &'static str = "https://github.com/aarol/headset-battery-indicator/releases";

/// The log file that the program writes next to itself.
pub const LOG_FILE_NAME: &'static str = "headset-battery-indicator.log";

/// How many inactivity timeouts the menu offers.
pub const INACTIVE_TIME_OPTION_COUNT: usize = 5;

/// The inactivity timeouts the menu offers, in minutes, in menu order.
pub open spec fn inactive_time_choices() -> Seq<u8> {
    seq![0u8, 5u8, 15u8, 30u8, 60u8]
}

/// The label of the `i`-th inactivity timeout.
pub open spec fn inactive_time_label(i: int) -> &'static str {
    if i == 0 {
        "Off"
    } else if i == 1 {
        "5 min"
    } else if i == 2 {
        "15 min"
    } else if i == 3 {
        "30 min"
    } else {
        "60 min"
    }
}

/// The `i`-th inactivity timeout offered by the menu: its minutes and its label.
pub fn inactive_time_option(i: usize) -> (res: (u8, &'static str))
    requires
        i < INACTIVE_TIME_OPTION_COUNT,
    ensures
        res.0 == inactive_time_choices()[i as int],
        res.1 == inactive_time_label(i as int),
{
    if i == 0 {
        (0, "Off")
    } else if i == 1 {
        (5, "5 min")
    } else if i == 2 {
        (15, "15 min")
    } else if i == 3 {
        (30, "30 min")
    } else {
        (60, "60 min")
    }
}

/// The library's model of the tray menu.
#[verifier::ext_equal]
pub struct MenuState {
    /// The top-level entries, in menu order.
    pub items: Seq<MenuEntry>,
    /// Whether the "update available" item is shown.
    pub update_available: bool,
    /// Whether the headset controls submenu is shown.
    pub control_menu: bool,
    /// The capabilities the controls submenu was built for.
    pub control_capabilities: Option<ControlCapabilities>,
}

/// The first index of `e` in `items`, or the length of `items` when it is not there.
pub open spec fn position_of(items: Seq<MenuEntry>, e: MenuEntry) -> int
    decreases items.len(),
{
    if items.len() == 0 {
        0
    } else if items[0] == e {
        0
    } else {
        1 + position_of(items.drop_first(), e)
    }
}

/// `items` without `e`.
pub open spec fn without(items: Seq<MenuEntry>, e: MenuEntry) -> Seq<MenuEntry>
    decreases items.len(),
{
    if items.len() == 0 {
        items
    } else if items.last() == e {
        without(items.drop_last(), e)
    } else {
        without(items.drop_last(), e).push(items.last())
    }
}

/// The item with these parts.
pub open spec fn item(entry: MenuEntry, label: MenuLabel, kind: ItemKind, enabled: bool) -> MenuItemSpec {
    MenuItemSpec { entry, label, kind, enabled }
}

/// The commands that build the menu's fixed part.
pub open spec fn base_menu_commands(settings: Settings) -> Seq<MenuCommand> {
    seq![
        MenuCommand::Append { item: item(MenuEntry::Version, MenuLabel::VersionLine, ItemKind::Normal, false) },
        MenuCommand::Append {
            item: item(
                MenuEntry::Notifications,
                MenuLabel::Text(Key::ShowNotifications),
                ItemKind::Check { checked: settings.notifications_enabled },
                true,
            ),
        },
        MenuCommand::Append {
            item: item(
                MenuEntry::TextIcon,
                MenuLabel::Text(Key::ShowTextIcon),
                ItemKind::Check { checked: settings.use_number_icon },
                true,
            ),
        },
        MenuCommand::Append { item: item(MenuEntry::Logs, MenuLabel::Text(Key::ViewLogs), ItemKind::Normal, true) },
        MenuCommand::Append { item: item(MenuEntry::Separator, MenuLabel::Blank, ItemKind::Separator, true) },
        MenuCommand::Append { item: item(MenuEntry::Close, MenuLabel::Text(Key::QuitProgram), ItemKind::Normal, true) },
    ]
}

/// The entries of the menu's fixed part, in order.
pub open spec fn base_entries() -> Seq<MenuEntry> {
    seq![
        MenuEntry::Version,
        MenuEntry::Notifications,
        MenuEntry::TextIcon,
        MenuEntry::Logs,
        MenuEntry::Separator,
        MenuEntry::Close,
    ]
}

/// The item of the `i`-th inactivity timeout.
pub open spec fn option_item(i: int, caps: ControlCapabilities, settings: Settings) -> MenuItemSpec {
    item(
        MenuEntry::InactiveTimeOption(inactive_time_choices()[i]),
        MenuLabel::Literal(inactive_time_label(i)),
        ItemKind::Check { checked: inactive_time_choices()[i] == settings.inactive_time_minutes },
        caps.inactive_time,
    )
}

/// The commands that build the headset controls submenu at `position`: a
/// sidetone switch and a microphone light switch, enabled when the headset
/// has them, and an inactivity timeout submenu with one check item per
/// offered timeout; each item checked as the settings say.
pub open spec fn build_control_commands(
    caps: ControlCapabilities,
    settings: Settings,
    position: int,
) -> Seq<MenuCommand> {
    seq![
        MenuCommand::Insert {
            item: item(MenuEntry::ControlSubmenu, MenuLabel::Text(Key::ControlHeadset), ItemKind::Submenu, true),
            position: position as usize,
        },
        MenuCommand::AppendChild {
            parent: MenuEntry::ControlSubmenu,
            item: item(
                MenuEntry::Sidetone,
                MenuLabel::Text(Key::Sidetone),
                ItemKind::Check { checked: settings.sidetone_enabled },
                caps.sidetone,
            ),
        },
        MenuCommand::AppendChild {
            parent: MenuEntry::ControlSubmenu,
            item: item(
                MenuEntry::MicrophoneLight,
                MenuLabel::Text(Key::MicrophoneLight),
                ItemKind::Check { checked: settings.microphone_light_enabled },
                caps.microphone_light,
            ),
        },
        MenuCommand::AppendChild {
            parent: MenuEntry::ControlSubmenu,
            item: item(
                MenuEntry::InactiveTimeSubmenu,
                MenuLabel::Text(Key::InactiveTime),
                ItemKind::Submenu,
                caps.inactive_time,
            ),
        },
    ] + Seq::new(
        5,
        |i: int|
            MenuCommand::AppendChild {
                parent: MenuEntry::InactiveTimeSubmenu,
                item: option_item(i, caps, settings),
            },
    )
}

/// The commands that check exactly the inactivity timeout equal to `minutes`.
pub open spec fn inactive_check_commands(minutes: u8) -> Seq<MenuCommand> {
    Seq::new(
        5,
        |i: int|
            MenuCommand::SetChecked {
                entry: MenuEntry::InactiveTimeOption(inactive_time_choices()[i]),
                checked: inactive_time_choices()[i] == minutes,
            },
    )
}

/// The commands that bring the checks of the controls submenu in line with the settings.
pub open spec fn check_commands(settings: Settings) -> Seq<MenuCommand> {
    seq![
        MenuCommand::SetChecked { entry: MenuEntry::Sidetone, checked: settings.sidetone_enabled },
        MenuCommand::SetChecked {
            entry: MenuEntry::MicrophoneLight,
            checked: settings.microphone_light_enabled,
        },
    ] + inactive_check_commands(settings.inactive_time_minutes)
}

/// Removing the controls submenu, if it is shown.
pub open spec fn remove_control_spec(m: MenuState) -> (MenuState, Seq<MenuCommand>) {
    if m.control_menu {
        (
            MenuState {
                items: without(m.items, MenuEntry::ControlSubmenu),
                control_menu: false,
                ..m
            },
            seq![MenuCommand::Remove { entry: MenuEntry::ControlSubmenu }],
        )
    } else {
        (m, Seq::empty())
    }
}

/// Building the controls submenu afresh, just above "view logs" (or at the
/// end when that item is missing).
pub open spec fn rebuild_control_spec(
    m: MenuState,
    caps: ControlCapabilities,
    settings: Settings,
) -> (MenuState, Seq<MenuCommand>) {
    let (m1, c1) = remove_control_spec(m);
    let p = position_of(m1.items, MenuEntry::Logs);
    (
        MenuState {
            items: m1.items.insert(p, MenuEntry::ControlSubmenu),
            control_menu: true,
            control_capabilities: Some(caps),
            ..m1
        },
        c1 + build_control_commands(caps, settings, p),
    )
}

/// The checks of the controls submenu, when it is shown.
pub open spec fn update_checks_spec(m: MenuState, settings: Settings) -> Seq<MenuCommand> {
    if m.control_menu {
        check_commands(settings)
    } else {
        Seq::empty()
    }
}

/// What `sync_control_menu` does: a headset with controls gets a controls
/// submenu (rebuilt when its capabilities changed) whose checks follow the
/// settings; a headset without controls gets none.
pub open spec fn sync_control_spec(
    m: MenuState,
    caps: ControlCapabilities,
    settings: Settings,
) -> (MenuState, Seq<MenuCommand>) {
    if caps.sidetone || caps.microphone_light || caps.inactive_time {
        let (m1, c1) = if m.control_capabilities != Some(caps) {
            rebuild_control_spec(m, caps, settings)
        } else {
            (m, Seq::empty())
        };
        (m1, c1 + update_checks_spec(m1, settings))
    } else {
        let (m1, c1) = remove_control_spec(m);
        (MenuState { control_capabilities: None, ..m1 }, c1)
    }
}

/// What a click on `entry` asks of the headset, given the menu state.
pub open spec fn control_action(m: MenuState, entry: MenuEntry) -> Option<ControlAction> {
    if !m.control_menu {
        None
    } else {
        match entry {
            MenuEntry::Sidetone => Some(ControlAction::Sidetone),
            MenuEntry::MicrophoneLight => Some(ControlAction::MicrophoneLight),
            MenuEntry::InactiveTimeOption(minutes) => if inactive_time_choices().contains(minutes) {
                Some(ControlAction::InactiveTime(minutes))
            } else {
                None
            },
            _ => None,
        }
    }
}

/// What a click on `entry` asks of the program, given the menu state.
pub open spec fn event_action(m: MenuState, entry: MenuEntry) -> MenuEventAction {
    if entry == MenuEntry::Close {
        MenuEventAction::Exit
    } else if m.update_available && entry == MenuEntry::UpdateAvailable {
        MenuEventAction::OpenUpdatePage
    } else if entry == MenuEntry::Logs {
        MenuEventAction::OpenLogFile
    } else {
        MenuEventAction::Nothing
    }
}


fn position_of_entry(items: &Vec<MenuEntry>, e: MenuEntry) -> (res: usize)
    ensures
        res == position_of(items@, e),
{
    let len = items.len();
    let mut i: usize = 0;
    assert(items@.skip(0) =~= items@);
    while i < len
        invariant
            i <= len == items@.len(),
            position_of(items@, e) == i + position_of(items@.skip(i as int), e),
        decreases len - i,
    {
        if items[i] == e {
            return i;
        }
        assert(items@.skip(i as int).drop_first() =~= items@.skip(i + 1));
        i = i + 1;
    }
    i
}

fn without_entry(items: &Vec<MenuEntry>, e: MenuEntry) -> (res: Vec<MenuEntry>)
    ensures
        res@ == without(items@, e),
{
    let len = items.len();
    let mut res: Vec<MenuEntry> = Vec::new();
    let mut i: usize = 0;
    assert(items@.take(0) =~= Seq::<MenuEntry>::empty());
    while i < len
        invariant
            i <= len == items@.len(),
            res@ == without(items@.take(i as int), e),
        decreases len - i,
    {
        assert(items@.take(i + 1).drop_last() =~= items@.take(i as int));
        if items[i] != e {
            res.push(items[i]);
        }
        i = i + 1;
    }
    assert(items@.take(len as int) =~= items@);
    res
}

proof fn lemma_push_contains(s: Seq<MenuEntry>, v: MenuEntry, y: MenuEntry)
    ensures
        s.push(v).contains(y) <==> (s.contains(y) || y == v),
{
    if s.push(v).contains(y) {
        let k = choose|k: int| 0 <= k < s.push(v).len() && s.push(v)[k] == y;
        if k < s.len() {
            assert(s[k] == y);
        }
    }
    if s.contains(y) {
        let k = choose|k: int| 0 <= k < s.len() && s[k] == y;
        assert(s.push(v)[k] == y);
    }
    if y == v {
        assert(s.push(v)[s.len() as int] == y);
    }
}

/// Entries other than `e` survive removing `e`.
proof fn lemma_without_contains(items: Seq<MenuEntry>, e: MenuEntry, x: MenuEntry)
    ensures
        without(items, e).contains(x) <==> (items.contains(x) && x != e),
    decreases items.len(),
{
    if items.len() > 0 {
        let d = items.drop_last();
        let l = items.last();
        lemma_without_contains(d, e, x);
        assert(items =~= d.push(l));
        lemma_push_contains(d, l, x);
        lemma_push_contains(without(d, e), l, x);
    }
}

proof fn lemma_insert_contains(s: Seq<MenuEntry>, i: int, v: MenuEntry, y: MenuEntry)
    requires
        0 <= i <= s.len(),
    ensures
        s.insert(i, v).contains(y) <==> (s.contains(y) || y == v),
{
    let t = s.insert(i, v);
    if t.contains(y) {
        let k = choose|k: int| 0 <= k < t.len() && t[k] == y;
        if k < i {
            assert(s[k] == y);
        } else if k > i {
            assert(s[k - 1] == y);
        }
    }
    if s.contains(y) {
        let k = choose|k: int| 0 <= k < s.len() && s[k] == y;
        if k < i {
            assert(t[k] == y);
        } else {
            assert(t[k + 1] == y);
        }
    }
    if y == v {
        assert(t[i] == y);
    }
}

/// `e` stands at most once in `items`.
pub open spec fn at_most_once(items: Seq<MenuEntry>, e: MenuEntry) -> bool {
    forall|i: int, j: int|
        #![trigger items[i], items[j]]
        0 <= i < items.len() && 0 <= j < items.len() && items[i] == e && items[j] == e ==> i == j
}

/// Wherever the controls submenu stands, "view logs" stands right below it.
pub open spec fn controls_above_logs(items: Seq<MenuEntry>) -> bool {
    forall|p: int|
        0 <= p < items.len() && #[trigger] items[p] == MenuEntry::ControlSubmenu ==> p + 1
            < items.len() && items[p + 1] == MenuEntry::Logs
}

/// The menu's items are in order: the version line first, "view logs"
/// present, and the controls submenu at most once, right above "view logs",
/// present exactly when the model says the submenu is shown.
pub open spec fn items_wf(m: MenuState) -> bool {
    &&& m.items.len() > 0
    &&& m.items[0] == MenuEntry::Version
    &&& m.items.contains(MenuEntry::Logs)
    &&& at_most_once(m.items, MenuEntry::ControlSubmenu)
    &&& controls_above_logs(m.items)
    &&& m.items.contains(MenuEntry::ControlSubmenu) == m.control_menu
}

/// A well-formed menu: items in order, and the controls submenu shown
/// exactly when capabilities are recorded for it.
pub open spec fn menu_wf(m: MenuState) -> bool {
    &&& items_wf(m)
    &&& m.control_menu == m.control_capabilities is Some
}

proof fn lemma_without_first(s: Seq<MenuEntry>, e: MenuEntry)
    requires
        s.len() > 0,
        s[0] != e,
    ensures
        without(s, e).len() > 0,
        without(s, e)[0] == s[0],
    decreases s.len(),
{
    if s.len() > 1 {
        let d = s.drop_last();
        assert(d[0] == s[0]);
        lemma_without_first(d, e);
        if s.last() != e {
            assert(without(d, e).push(s.last())[0] == without(d, e)[0]);
        }
    } else {
        assert(s.drop_last() =~= Seq::<MenuEntry>::empty());
        assert(without(s.drop_last(), e) == Seq::<MenuEntry>::empty());
        assert(s.last() == s[0]);
        assert(without(s, e) == Seq::<MenuEntry>::empty().push(s[0]));
    }
}

proof fn lemma_without_insert(s: Seq<MenuEntry>, p: int, e: MenuEntry)
    requires
        0 <= p <= s.len(),
    ensures
        without(s.insert(p, e), e) == without(s, e),
    decreases s.len(),
{
    let t = s.insert(p, e);
    if p == s.len() {
        assert(t.drop_last() =~= s);
    } else {
        lemma_without_insert(s.drop_last(), p, e);
        assert(t.drop_last() =~= s.drop_last().insert(p, e));
        assert(t.last() == s.last());
    }
}

proof fn lemma_without_twice(s: Seq<MenuEntry>, e: MenuEntry)
    ensures
        without(without(s, e), e) == without(s, e),
    decreases s.len(),
{
    if s.len() > 0 {
        lemma_without_twice(s.drop_last(), e);
        let w = without(s.drop_last(), e);
        if s.last() != e {
            assert(w.push(s.last()).drop_last() =~= w);
        }
    }
}

/// Without the controls submenu, the menu's items satisfy the item rules of a
/// menu whose submenu is not shown.
proof fn lemma_remove_keeps_order(m: MenuState)
    requires
        items_wf(m),
    ensures
        items_wf(remove_control_spec(m).0),
        !remove_control_spec(m).0.control_menu,
        !remove_control_spec(m).0.items.contains(MenuEntry::ControlSubmenu),
        without(remove_control_spec(m).0.items, MenuEntry::ControlSubmenu) == without(
            m.items,
            MenuEntry::ControlSubmenu,
        ),
{
    let cs = MenuEntry::ControlSubmenu;
    if m.control_menu {
        let w = without(m.items, cs);
        lemma_without_first(m.items, cs);
        lemma_without_contains(m.items, cs, MenuEntry::Logs);
        lemma_without_contains(m.items, cs, cs);
        lemma_without_twice(m.items, cs);
        assert forall|p: int| 0 <= p < w.len() implies #[trigger] w[p] != cs by {
            if w[p] == cs {
                assert(w.contains(cs));
            }
        }
    } else {
        assert forall|p: int| 0 <= p < m.items.len() implies #[trigger] m.items[p] != cs by {
            if m.items[p] == cs {
                assert(m.items.contains(cs));
            }
        }
    }
}

/// A rebuilt controls submenu stands exactly once, right above "view logs";
/// the other items keep their order; the capabilities are recorded.
pub proof fn lemma_rebuild_places_once(m: MenuState, caps: ControlCapabilities, settings: Settings)
    requires
        items_wf(m),
    ensures
        ({
            let m1 = rebuild_control_spec(m, caps, settings).0;
            &&& items_wf(m1)
            &&& m1.control_menu
            &&& m1.control_capabilities == Some(caps)
            &&& m1.update_available == m.update_available
            &&& exists|p: int|
                0 <= p && p + 1 < m1.items.len() && #[trigger] m1.items[p]
                    == MenuEntry::ControlSubmenu && m1.items[p + 1] == MenuEntry::Logs
            &&& without(m1.items, MenuEntry::ControlSubmenu) == without(
                m.items,
                MenuEntry::ControlSubmenu,
            )
        }),
{
    let cs = MenuEntry::ControlSubmenu;
    lemma_remove_keeps_order(m);
    let m0 = remove_control_spec(m).0;
    let s = m0.items;
    lemma_position_found(s, MenuEntry::Logs);
    let p = position_of(s, MenuEntry::Logs);
    assert(p >= 1) by {
        if p == 0 {
            assert(s[0] == MenuEntry::Version);
        }
    }
    let t = s.insert(p, cs);
    assert(rebuild_control_spec(m, caps, settings).0.items == t);
    assert forall|q: int| 0 <= q < s.len() implies #[trigger] s[q] != cs by {
        if s[q] == cs {
            assert(s.contains(cs));
        }
    }
    assert forall|q: int| 0 <= q < t.len() && #[trigger] t[q] == cs implies q == p by {
        if q < p {
            assert(t[q] == s[q]);
        } else if q > p {
            assert(t[q] == s[q - 1]);
        }
    }
    assert(t[p] == cs);
    assert(t[p + 1] == MenuEntry::Logs);
    assert(t[0] == MenuEntry::Version);
    lemma_insert_contains(s, p, cs, MenuEntry::Logs);
    lemma_insert_contains(s, p, cs, cs);
    lemma_without_insert(s, p, cs);
}

/// Inserting the "update available" item keeps the items in order.
proof fn lemma_update_keeps_order(m: MenuState)
    requires
        items_wf(m),
    ensures
        items_wf(
            MenuState {
                items: m.items.insert(1, MenuEntry::UpdateAvailable),
                update_available: true,
                ..m
            },
        ),
{
    let cs = MenuEntry::ControlSubmenu;
    let s = m.items;
    let t = s.insert(1, MenuEntry::UpdateAvailable);
    lemma_insert_contains(s, 1, MenuEntry::UpdateAvailable, MenuEntry::Logs);
    lemma_insert_contains(s, 1, MenuEntry::UpdateAvailable, cs);
    assert(t[0] == MenuEntry::Version);
    assert forall|q: int| 0 <= q < t.len() && #[trigger] t[q] == cs implies q >= 2 && s[q - 1]
        == cs by {
        if q == 0 {
            assert(t[0] == MenuEntry::Version);
        } else if q >= 2 {
            assert(t[q] == s[q - 1]);
        }
    }
    assert forall|i: int, j: int|
        #![trigger t[i], t[j]]
        0 <= i < t.len() && 0 <= j < t.len() && t[i] == cs && t[j] == cs implies i == j by {
        assert(s[i - 1] == cs && s[j - 1] == cs);
    }
    assert forall|q: int| 0 <= q < t.len() && #[trigger] t[q] == cs implies q + 1 < t.len()
        && t[q + 1] == MenuEntry::Logs by {
        assert(s[q - 1] == cs);
        assert(s[q] == MenuEntry::Logs);
        assert(t[q + 1] == s[q]);
    }
}

/// The tray menu as the program keeps it: the fixed items, the optional
/// "update available" item, and the optional headset controls submenu.
pub struct ContextMenu {
    items: Vec<MenuEntry>,
    menu_update_available: bool,
    control_menu: bool,
    control_capabilities: Option<ControlCapabilities>,
}

impl View for ContextMenu {
    type V = MenuState;

    closed spec fn view(&self) -> MenuState {
        MenuState {
            items: self.items@,
            update_available: self.menu_update_available,
            control_menu: self.control_menu,
            control_capabilities: self.control_capabilities,
        }
    }
}

impl ContextMenu {
    /// The version line comes first, "view logs" is there, the controls
    /// submenu stands at most once and right above "view logs", and it is
    /// shown exactly when capabilities are recorded for it.
    pub open spec fn wf(&self) -> bool {
        menu_wf(self@)
    }

    /// The menu with its fixed items, and the commands that build them.
    pub fn new(settings: Settings) -> (res: (ContextMenu, Vec<MenuCommand>))
        ensures
            res.0.wf(),
            res.0@ == (MenuState {
                items: base_entries(),
                update_available: false,
                control_menu: false,
                control_capabilities: None,
            }),
            res.1@ == base_menu_commands(settings),
    {
        let mut items: Vec<MenuEntry> = Vec::new();
        items.push(MenuEntry::Version);
        items.push(MenuEntry::Notifications);
        items.push(MenuEntry::TextIcon);
        items.push(MenuEntry::Logs);
        items.push(MenuEntry::Separator);
        items.push(MenuEntry::Close);
        let mut cmds: Vec<MenuCommand> = Vec::new();
        cmds.push(MenuCommand::Append {
            item: MenuItemSpec {
                entry: MenuEntry::Version,
                label: MenuLabel::VersionLine,
                kind: ItemKind::Normal,
                enabled: false,
            },
        });
        cmds.push(MenuCommand::Append {
            item: MenuItemSpec {
                entry: MenuEntry::Notifications,
                label: MenuLabel::Text(Key::ShowNotifications),
                kind: ItemKind::Check { checked: settings.notifications_enabled },
                enabled: true,
            },
        });
        cmds.push(MenuCommand::Append {
            item: MenuItemSpec {
                entry: MenuEntry::TextIcon,
                label: MenuLabel::Text(Key::ShowTextIcon),
                kind: ItemKind::Check { checked: settings.use_number_icon },
                enabled: true,
            },
        });
        cmds.push(MenuCommand::Append {
            item: MenuItemSpec {
                entry: MenuEntry::Logs,
                label: MenuLabel::Text(Key::ViewLogs),
                kind: ItemKind::Normal,
                enabled: true,
            },
        });
        cmds.push(MenuCommand::Append {
            item: MenuItemSpec {
                entry: MenuEntry::Separator,
                label: MenuLabel::Blank,
                kind: ItemKind::Separator,
                enabled: true,
            },
        });
        cmds.push(MenuCommand::Append {
            item: MenuItemSpec {
                entry: MenuEntry::Close,
                label: MenuLabel::Text(Key::QuitProgram),
                kind: ItemKind::Normal,
                enabled: true,
            },
        });
        let menu = ContextMenu {
            items,
            menu_update_available: false,
            control_menu: false,
            control_capabilities: None,
        };
        assert(menu.items@[0] == MenuEntry::Version);
        assert(menu@.items =~= base_entries());
        assert(!base_entries().contains(MenuEntry::ControlSubmenu));
        assert(base_entries()[3] == MenuEntry::Logs);
        assert forall|p: int|
            0 <= p < base_entries().len() implies #[trigger] base_entries()[p]
            != MenuEntry::ControlSubmenu by {}
        assert(cmds@ =~= base_menu_commands(settings));
        (menu, cmds)
    }

    /// Shows the "update available" item right below the version line, once.
    pub fn show_update_available(&mut self) -> (res: Vec<MenuCommand>)
        requires
            old(self).wf(),
        ensures
            final(self).wf(),
            old(self)@.update_available ==> final(self)@ == old(self)@ && res@.len() == 0,
            !old(self)@.update_available ==> final(self)@ == (MenuState {
                items: old(self)@.items.insert(1, MenuEntry::UpdateAvailable),
                update_available: true,
                ..old(self)@
            }) && res@ == seq![
                MenuCommand::Insert {
                    item: item(MenuEntry::UpdateAvailable, MenuLabel::UpdateNotice, ItemKind::Normal, true),
                    position: 1,
                },
            ],
    {
        let mut cmds: Vec<MenuCommand> = Vec::new();
        if self.menu_update_available {
            return cmds;
        }
        proof {
            lemma_update_keeps_order(self@);
        }
        self.items.insert(1, MenuEntry::UpdateAvailable);
        self.menu_update_available = true;
        cmds.push(MenuCommand::Insert {
            item: MenuItemSpec {
                entry: MenuEntry::UpdateAvailable,
                label: MenuLabel::UpdateNotice,
                kind: ItemKind::Normal,
                enabled: true,
            },
            position: 1,
        });
        assert(cmds@ =~= seq![
            MenuCommand::Insert {
                item: item(MenuEntry::UpdateAvailable, MenuLabel::UpdateNotice, ItemKind::Normal, true),
                position: 1,
            },
        ]);
        cmds
    }
}


/// Appends the commands that check exactly the inactivity timeout equal to `minutes`.
fn push_inactive_checks(cmds: &mut Vec<MenuCommand>, minutes: u8)
    ensures
        final(cmds)@ == old(cmds)@ + inactive_check_commands(minutes),
{
    let ghost start = cmds@;
    let mut i: usize = 0;
    while i < INACTIVE_TIME_OPTION_COUNT
        invariant
            i <= 5,
            cmds@ =~= start + inactive_check_commands(minutes).take(i as int),
        decreases 5 - i,
    {
        let (option_minutes, _label) = inactive_time_option(i);
        cmds.push(MenuCommand::SetChecked {
            entry: MenuEntry::InactiveTimeOption(option_minutes),
            checked: option_minutes == minutes,
        });
        assert(inactive_check_commands(minutes).take(i + 1) =~= inactive_check_commands(
            minutes,
        ).take(i as int).push(inactive_check_commands(minutes)[i as int]));
        i = i + 1;
    }
    assert(inactive_check_commands(minutes).take(5) =~= inactive_check_commands(minutes));
}

impl ContextMenu {
    /// Removes the controls submenu from the menu, if it is shown.
    fn remove_control_menu(&mut self, cmds: &mut Vec<MenuCommand>)
        requires
            items_wf(old(self)@),
        ensures
            final(self)@ == remove_control_spec(old(self)@).0,
            final(cmds)@ == old(cmds)@ + remove_control_spec(old(self)@).1,
            items_wf(final(self)@),
    {
        proof {
            lemma_remove_keeps_order(self@);
        }
        if self.control_menu {
            self.items = without_entry(&self.items, MenuEntry::ControlSubmenu);
            self.control_menu = false;
            cmds.push(MenuCommand::Remove { entry: MenuEntry::ControlSubmenu });
        } else {
            assert(old(cmds)@ + Seq::<MenuCommand>::empty() =~= old(cmds)@);
        }
    }

    /// Replaces the controls submenu by one built for `capabilities`, checked
    /// as `settings` say, just above "view logs".
    fn rebuild_control_menu(
        &mut self,
        capabilities: ControlCapabilities,
        settings: Settings,
        cmds: &mut Vec<MenuCommand>,
    )
        requires
            items_wf(old(self)@),
        ensures
            final(self)@ == rebuild_control_spec(old(self)@, capabilities, settings).0,
            final(cmds)@ == old(cmds)@ + rebuild_control_spec(old(self)@, capabilities, settings).1,
            items_wf(final(self)@),
    {
        self.remove_control_menu(cmds);
        let ghost removed = cmds@;
        let position = position_of_entry(&self.items, MenuEntry::Logs);
        proof {
            // the position lies within the menu
            let items = self.items@;
            lemma_position_in_range(items, MenuEntry::Logs);
        }
        cmds.push(MenuCommand::Insert {
            item: MenuItemSpec {
                entry: MenuEntry::ControlSubmenu,
                label: MenuLabel::Text(Key::ControlHeadset),
                kind: ItemKind::Submenu,
                enabled: true,
            },
            position,
        });
        cmds.push(MenuCommand::AppendChild {
            parent: MenuEntry::ControlSubmenu,
            item: MenuItemSpec {
                entry: MenuEntry::Sidetone,
                label: MenuLabel::Text(Key::Sidetone),
                kind: ItemKind::Check { checked: settings.sidetone_enabled },
                enabled: capabilities.sidetone,
            },
        });
        cmds.push(MenuCommand::AppendChild {
            parent: MenuEntry::ControlSubmenu,
            item: MenuItemSpec {
                entry: MenuEntry::MicrophoneLight,
                label: MenuLabel::Text(Key::MicrophoneLight),
                kind: ItemKind::Check { checked: settings.microphone_light_enabled },
                enabled: capabilities.microphone_light,
            },
        });
        cmds.push(MenuCommand::AppendChild {
            parent: MenuEntry::ControlSubmenu,
            item: MenuItemSpec {
                entry: MenuEntry::InactiveTimeSubmenu,
                label: MenuLabel::Text(Key::InactiveTime),
                kind: ItemKind::Submenu,
                enabled: capabilities.inactive_time,
            },
        });
        let ghost head = cmds@;
        let ghost options = Seq::new(
            5,
            |i: int|
                MenuCommand::AppendChild {
                    parent: MenuEntry::InactiveTimeSubmenu,
                    item: option_item(i, capabilities, settings),
                },
        );
        let mut i: usize = 0;
        while i < INACTIVE_TIME_OPTION_COUNT
            invariant
                i <= 5,
                cmds@ =~= head + options.take(i as int),
                options == Seq::new(
                    5,
                    |i: int|
                        MenuCommand::AppendChild {
                            parent: MenuEntry::InactiveTimeSubmenu,
                            item: option_item(i, capabilities, settings),
                        },
                ),
            decreases 5 - i,
        {
            let (minutes, label) = inactive_time_option(i);
            cmds.push(MenuCommand::AppendChild {
                parent: MenuEntry::InactiveTimeSubmenu,
                item: MenuItemSpec {
                    entry: MenuEntry::InactiveTimeOption(minutes),
                    label: MenuLabel::Literal(label),
                    kind: ItemKind::Check { checked: minutes == settings.inactive_time_minutes },
                    enabled: capabilities.inactive_time,
                },
            });
            assert(options.take(i + 1) =~= options.take(i as int).push(options[i as int]));
            i = i + 1;
        }
        assert(options.take(5) =~= options);
        let ghost before_insert = self.items@;
        self.items.insert(position, MenuEntry::ControlSubmenu);
        self.control_menu = true;
        self.control_capabilities = Some(capabilities);
        proof {
            lemma_rebuild_places_once(old(self)@, capabilities, settings);
        }
        assert(cmds@ =~= removed + build_control_commands(capabilities, settings, position as int));
    }

    /// Appends the commands that bring the controls' checks in line with `settings`.
    fn update_control_checks(&self, settings: Settings, cmds: &mut Vec<MenuCommand>)
        ensures
            final(cmds)@ == old(cmds)@ + update_checks_spec(self@, settings),
    {
        if self.control_menu {
            cmds.push(MenuCommand::SetChecked { entry: MenuEntry::Sidetone, checked: settings.sidetone_enabled });
            cmds.push(MenuCommand::SetChecked {
                entry: MenuEntry::MicrophoneLight,
                checked: settings.microphone_light_enabled,
            });
            push_inactive_checks(cmds, settings.inactive_time_minutes);
            assert(cmds@ =~= old(cmds)@ + check_commands(settings));
        } else {
            assert(old(cmds)@ + Seq::<MenuCommand>::empty() =~= old(cmds)@);
        }
    }

    /// Keeps the controls submenu in step with the connected headset: a
    /// headset with controls gets a submenu built for its capabilities
    /// (rebuilt only when they changed) and checked as the settings say; a
    /// headset without controls gets none.
    pub fn sync_control_menu(
        &mut self,
        capabilities: ControlCapabilities,
        settings: Settings,
    ) -> (res: Vec<MenuCommand>)
        requires
            old(self).wf(),
        ensures
            final(self).wf(),
            final(self)@ == sync_control_spec(old(self)@, capabilities, settings).0,
            res@ == sync_control_spec(old(self)@, capabilities, settings).1,
    {
        let mut cmds: Vec<MenuCommand> = Vec::new();
        if capabilities.has_controls() {
            let changed = match self.control_capabilities {
                Some(current) => current != capabilities,
                None => true,
            };
            if changed {
                self.rebuild_control_menu(capabilities, settings, &mut cmds);
            }
            let ghost middle = cmds@;
            self.update_control_checks(settings, &mut cmds);
            assert(cmds@ =~= middle + update_checks_spec(self@, settings));
            if !changed {
                assert(middle =~= Seq::<MenuCommand>::empty());
                assert(cmds@ =~= Seq::<MenuCommand>::empty() + update_checks_spec(self@, settings));
            }
        } else {
            self.remove_control_menu(&mut cmds);
            self.control_capabilities = None;
            assert(cmds@ =~= remove_control_spec(old(self)@).1);
        }
        cmds
    }

    /// Removes the controls submenu, for instance when the headset is gone.
    pub fn clear_control_menu(&mut self) -> (res: Vec<MenuCommand>)
        requires
            old(self).wf(),
        ensures
            final(self).wf(),
            final(self)@ == (MenuState {
                control_capabilities: None,
                ..remove_control_spec(old(self)@).0
            }),
            res@ == remove_control_spec(old(self)@).1,
    {
        let mut cmds: Vec<MenuCommand> = Vec::new();
        self.remove_control_menu(&mut cmds);
        self.control_capabilities = None;
        assert(cmds@ =~= remove_control_spec(old(self)@).1);
        cmds
    }

    /// What a click on `entry` asks of the headset: the controls answer only
    /// while their submenu is shown.
    pub fn control_action_for_event(&self, entry: MenuEntry) -> (res: Option<ControlAction>)
        ensures
            res == control_action(self@, entry),
    {
        if !self.control_menu {
            return None;
        }
        match entry {
            MenuEntry::Sidetone => Some(ControlAction::Sidetone),
            MenuEntry::MicrophoneLight => Some(ControlAction::MicrophoneLight),
            MenuEntry::InactiveTimeOption(clicked) => {
                let mut i: usize = 0;
                while i < INACTIVE_TIME_OPTION_COUNT
                    invariant
                        i <= 5,
                        self.control_menu,
                        entry == MenuEntry::InactiveTimeOption(clicked),
                        forall|j: int| 0 <= j < i ==> inactive_time_choices()[j] != clicked,
                    decreases 5 - i,
                {
                    let (minutes, _label) = inactive_time_option(i);
                    if minutes == clicked {
                        assert(inactive_time_choices()[i as int] == clicked);
                        assert(inactive_time_choices().contains(clicked));
                        return Some(ControlAction::InactiveTime(minutes));
                    }
                    i = i + 1;
                }
                None
            },
            _ => None,
        }
    }

    /// Checks or unchecks the sidetone switch, if the controls are shown.
    pub fn set_sidetone_checked(&self, checked: bool) -> (res: Vec<MenuCommand>)
        ensures
            res@ == if self@.control_menu {
                seq![MenuCommand::SetChecked { entry: MenuEntry::Sidetone, checked }]
            } else {
                Seq::empty()
            },
    {
        let mut cmds: Vec<MenuCommand> = Vec::new();
        if self.control_menu {
            cmds.push(MenuCommand::SetChecked { entry: MenuEntry::Sidetone, checked });
            assert(cmds@ =~= seq![MenuCommand::SetChecked { entry: MenuEntry::Sidetone, checked }]);
        }
        cmds
    }

    /// Checks or unchecks the microphone light switch, if the controls are shown.
    pub fn set_microphone_light_checked(&self, checked: bool) -> (res: Vec<MenuCommand>)
        ensures
            res@ == if self@.control_menu {
                seq![MenuCommand::SetChecked { entry: MenuEntry::MicrophoneLight, checked }]
            } else {
                Seq::empty()
            },
    {
        let mut cmds: Vec<MenuCommand> = Vec::new();
        if self.control_menu {
            cmds.push(MenuCommand::SetChecked { entry: MenuEntry::MicrophoneLight, checked });
            assert(cmds@ =~= seq![
                MenuCommand::SetChecked { entry: MenuEntry::MicrophoneLight, checked },
            ]);
        }
        cmds
    }

    /// Checks exactly the inactivity timeout equal to `selected_minutes`, if
    /// the controls are shown.
    pub fn set_inactive_time_checked(&self, selected_minutes: u8) -> (res: Vec<MenuCommand>)
        ensures
            res@ == if self@.control_menu {
                inactive_check_commands(selected_minutes)
            } else {
                Seq::empty()
            },
    {
        let mut cmds: Vec<MenuCommand> = Vec::new();
        if self.control_menu {
            push_inactive_checks(&mut cmds, selected_minutes);
            assert(cmds@ =~= inactive_check_commands(selected_minutes));
        }
        cmds
    }

    /// What a click on `entry` asks of the program: "quit" quits, the
    /// "update available" item (while shown) opens the releases page, and
    /// "view logs" opens the log file.
    pub fn handle_event(&self, entry: MenuEntry) -> (res: MenuEventAction)
        ensures
            res == event_action(self@, entry),
    {
        if entry == MenuEntry::Close {
            MenuEventAction::Exit
        } else if self.menu_update_available && entry == MenuEntry::UpdateAvailable {
            MenuEventAction::OpenUpdatePage
        } else if entry == MenuEntry::Logs {
            MenuEventAction::OpenLogFile
        } else {
            MenuEventAction::Nothing
        }
    }
}

proof fn lemma_position_in_range(items: Seq<MenuEntry>, e: MenuEntry)
    ensures
        0 <= position_of(items, e) <= items.len(),
    decreases items.len(),
{
    if items.len() > 0 {
        lemma_position_in_range(items.drop_first(), e);
    }
}


proof fn lemma_position_found(items: Seq<MenuEntry>, e: MenuEntry)
    requires
        items.contains(e),
    ensures
        0 <= position_of(items, e) < items.len(),
        items[position_of(items, e)] == e,
    decreases items.len(),
{
    if items[0] != e {
        let k = choose|k: int| 0 <= k < items.len() && items[k] == e;
        assert(items.drop_first()[k - 1] == e);
        lemma_position_found(items.drop_first(), e);
    }
}

/// After `sync_control_menu` the menu is well formed; a headset with
/// controls has the controls submenu, built for its capabilities; a headset
/// without controls has none.
pub proof fn lemma_sync_result(m: MenuState, caps: ControlCapabilities, settings: Settings)
    requires
        menu_wf(m),
    ensures
        ({
            let m1 = sync_control_spec(m, caps, settings).0;
            &&& menu_wf(m1)
            &&& (caps.sidetone || caps.microphone_light || caps.inactive_time) ==> m1.control_menu
                && m1.control_capabilities == Some(caps)
            &&& !(caps.sidetone || caps.microphone_light || caps.inactive_time) ==> !m1.control_menu
                && !m1.items.contains(MenuEntry::ControlSubmenu) && m1.control_capabilities is None
        }),
{
    lemma_remove_keeps_order(m);
    lemma_rebuild_places_once(m, caps, settings);
}

/// Syncing a second time with the same capabilities rebuilds nothing: the
/// menu stays as it is and only its checks are set again, as the new
/// settings say.
pub proof fn lemma_sync_idempotent(
    m: MenuState,
    caps: ControlCapabilities,
    first: Settings,
    second: Settings,
)
    requires
        menu_wf(m),
        caps.sidetone || caps.microphone_light || caps.inactive_time,
    ensures
        ({
            let m1 = sync_control_spec(m, caps, first).0;
            &&& sync_control_spec(m1, caps, second).0 == m1
            &&& sync_control_spec(m1, caps, second).1 == check_commands(second)
        }),
{
    lemma_sync_result(m, caps, first);
    assert(Seq::<MenuCommand>::empty() + check_commands(second) =~= check_commands(second));
}

/// Clearing the controls forgets their capabilities, so a later sync for a
/// headset with controls builds the submenu again: once, right above "view
/// logs", for the headset's capabilities, starting with its insertion.
pub proof fn lemma_sync_after_clear(
    m: MenuState,
    caps: ControlCapabilities,
    first: Settings,
    second: Settings,
)
    requires
        menu_wf(m),
        caps.sidetone || caps.microphone_light || caps.inactive_time,
    ensures
        ({
            let m1 = sync_control_spec(m, caps, first).0;
            let m2 = MenuState { control_capabilities: None, ..remove_control_spec(m1).0 };
            let m3 = sync_control_spec(m2, caps, second).0;
            let c3 = sync_control_spec(m2, caps, second).1;
            &&& menu_wf(m2)
            &&& !m2.control_menu
            &&& menu_wf(m3)
            &&& m3.control_menu
            &&& m3.control_capabilities == Some(caps)
            &&& at_most_once(m3.items, MenuEntry::ControlSubmenu)
            &&& exists|p: int|
                0 <= p && p + 1 < m3.items.len() && #[trigger] m3.items[p]
                    == MenuEntry::ControlSubmenu && m3.items[p + 1] == MenuEntry::Logs
            &&& c3.len() > 0
            &&& c3[0] == (MenuCommand::Insert {
                item: item(
                    MenuEntry::ControlSubmenu,
                    MenuLabel::Text(Key::ControlHeadset),
                    ItemKind::Submenu,
                    true,
                ),
                position: position_of(m2.items, MenuEntry::Logs) as usize,
            })
        }),
{
    lemma_sync_result(m, caps, first);
    let m1 = sync_control_spec(m, caps, first).0;
    lemma_remove_keeps_order(m1);
    let m2 = MenuState { control_capabilities: None, ..remove_control_spec(m1).0 };
    assert(items_wf(m2));
    lemma_rebuild_places_once(m2, caps, second);
    lemma_sync_result(m2, caps, second);
    let p = position_of(m2.items, MenuEntry::Logs);
    let c3 = sync_control_spec(m2, caps, second).1;
    assert(remove_control_spec(m2).1 =~= Seq::<MenuCommand>::empty());
    assert(c3 == (Seq::<MenuCommand>::empty() + build_control_commands(caps, second, p))
        + check_commands(second));
    assert(c3[0] == build_control_commands(caps, second, p)[0]);
}


/// The item that a command adds inside a submenu, if it adds one.
pub open spec fn appended_item(c: MenuCommand) -> Option<MenuItemSpec> {
    match c {
        MenuCommand::AppendChild { item, .. } => Some(item),
        _ => None,
    }
}

/// An item of the controls submenu as the headset and the settings call for:
/// a control is enabled exactly when the headset has it and checked exactly
/// as the settings say; an inactivity timeout is enabled when the headset has
/// the timeout and checked exactly when its minutes are the set ones.
pub open spec fn control_item_follows(
    item: MenuItemSpec,
    caps: ControlCapabilities,
    settings: Settings,
) -> bool {
    match item.entry {
        MenuEntry::Sidetone => item.enabled == caps.sidetone && item.kind == (ItemKind::Check {
            checked: settings.sidetone_enabled,
        }),
        MenuEntry::MicrophoneLight => item.enabled == caps.microphone_light && item.kind == (
        ItemKind::Check { checked: settings.microphone_light_enabled }),
        MenuEntry::InactiveTimeSubmenu => item.enabled == caps.inactive_time,
        MenuEntry::InactiveTimeOption(minutes) => item.enabled == caps.inactive_time && item.kind
            == (ItemKind::Check { checked: minutes == settings.inactive_time_minutes }),
        _ => false,
    }
}

/// When a sync builds the controls submenu (new capabilities), every item it
/// adds follows the headset and the settings, and the sidetone and
/// microphone light switches are among them.
pub proof fn lemma_sync_built_items(m: MenuState, caps: ControlCapabilities, settings: Settings)
    requires
        menu_wf(m),
        caps.sidetone || caps.microphone_light || caps.inactive_time,
        m.control_capabilities != Some(caps),
    ensures
        ({
            let cmds = sync_control_spec(m, caps, settings).1;
            &&& forall|k: int|
                0 <= k < cmds.len() && (#[trigger] appended_item(cmds[k])) is Some
                    ==> control_item_follows(appended_item(cmds[k])->0, caps, settings)
            &&& exists|k: int|
                0 <= k < cmds.len() && (#[trigger] appended_item(cmds[k])) is Some
                    && appended_item(cmds[k])->0.entry == MenuEntry::Sidetone
            &&& exists|k: int|
                0 <= k < cmds.len() && (#[trigger] appended_item(cmds[k])) is Some
                    && appended_item(cmds[k])->0.entry == MenuEntry::MicrophoneLight
        }),
{
    let (m0, c0) = remove_control_spec(m);
    let p = position_of(m0.items, MenuEntry::Logs);
    let build = build_control_commands(caps, settings, p);
    let m1 = rebuild_control_spec(m, caps, settings).0;
    lemma_rebuild_places_once(m, caps, settings);
    let checks = update_checks_spec(m1, settings);
    let cmds = sync_control_spec(m, caps, settings).1;
    assert(cmds == (c0 + build) + checks);
    assert(build.len() == 9);
    assert forall|k: int|
        0 <= k < cmds.len() && (#[trigger] appended_item(cmds[k])) is Some implies control_item_follows(
        appended_item(cmds[k])->0, caps, settings) by {
        if k < c0.len() {
            assert(cmds[k] == c0[k]);
        } else if k < c0.len() + 9 {
            let j = k - c0.len();
            assert(cmds[k] == build[j]);
            if j >= 4 {
                assert(build[j] == (MenuCommand::AppendChild {
                    parent: MenuEntry::InactiveTimeSubmenu,
                    item: option_item(j - 4, caps, settings),
                }));
            }
        } else {
            assert(cmds[k] == checks[k - c0.len() - 9]);
            assert(checks == check_commands(settings));
            let i = k - c0.len() - 9;
            if i >= 2 {
                assert(checks[i] == inactive_check_commands(settings.inactive_time_minutes)[i - 2]);
            }
        }
    }
    assert(cmds[c0.len() as int + 1] == build[1]);
    assert(appended_item(cmds[c0.len() as int + 1]) is Some);
    assert(appended_item(cmds[c0.len() as int + 1])->0.entry == MenuEntry::Sidetone);
    assert(cmds[c0.len() as int + 2] == build[2]);
    assert(appended_item(cmds[c0.len() as int + 2]) is Some);
    assert(appended_item(cmds[c0.len() as int + 2])->0.entry == MenuEntry::MicrophoneLight);
}

} // verus!
