//! The menu and the tooltip that render a [`Snapshot`].

use vstd::prelude::*;
use vstd::string::StringExecFns;
use vstd::utf8::encode_utf8;

use crate::command::{single, CallView, Command, CommandView, Method};
use crate::encode::percent_encoded;
use crate::json::Json;
use crate::kernel::{
    every_mode_is_offered_once, modes_stand_in_order, Group, GroupView, Mode, Rule, RuleView,
};
use crate::snapshot::{Snapshot, SnapshotView};
use crate::text::{copy_all, decimal_text, texts};

verus! {

/// What happens when an item is clicked.
pub enum Activation {
    Nothing,
    /// Hand the command over to the task that owns the client.
    Send(Command),
    /// End the program.
    Quit,
}

/// What a radio group chooses between.
pub enum Choice {
    /// The modes of the kernel, in menu order.
    Mode,
    /// The nodes of a group.
    Node { group: String, nodes: Vec<String> },
}

/// An item of the menu.
pub enum MenuItem {
    Standard { label: String, enabled: bool, icon_name: String, activate: Activation },
    Checkmark { label: String, checked: bool, activate: Activation },
    SubMenu { label: String, enabled: bool, submenu: Vec<MenuItem> },
    RadioGroup { selected: usize, select: Choice, options: Vec<String> },
    Separator,
}

/// What an [`Activation`] says.
#[verifier::ext_equal]
pub enum ActivationView {
    Nothing,
    Send(CommandView),
    Quit,
}

/// What a [`Choice`] says.
#[verifier::ext_equal]
pub enum ChoiceView {
    Mode,
    Node { group: Seq<char>, nodes: Seq<Seq<char>> },
}

/// What a [`MenuItem`] says.
#[verifier::ext_equal]
pub enum ItemView {
    Standard { label: Seq<char>, enabled: bool, icon_name: Seq<char>, activate: ActivationView },
    Checkmark { label: Seq<char>, checked: bool, activate: ActivationView },
    SubMenu { label: Seq<char>, enabled: bool, submenu: Seq<ItemView> },
    RadioGroup { selected: int, select: ChoiceView, options: Seq<Seq<char>> },
    Separator,
}

impl View for Activation {
    type V = ActivationView;

    open spec fn view(&self) -> ActivationView {
        match *self {
            Activation::Nothing => ActivationView::Nothing,
            Activation::Send(command) => ActivationView::Send(command@),
            Activation::Quit => ActivationView::Quit,
        }
    }
}

impl View for Choice {
    type V = ChoiceView;

    open spec fn view(&self) -> ChoiceView {
        match *self {
            Choice::Mode => ChoiceView::Mode,
            Choice::Node { group, nodes } => ChoiceView::Node { group: group@, nodes: texts(nodes@) },
        }
    }
}

impl View for MenuItem {
    type V = ItemView;

    open spec fn view(&self) -> ItemView
        decreases self,
    {
        match *self {
            MenuItem::Standard { label, enabled, icon_name, activate } => ItemView::Standard {
                label: label@,
                enabled,
                icon_name: icon_name@,
                activate: activate@,
            },
            MenuItem::Checkmark { label, checked, activate } => ItemView::Checkmark {
                label: label@,
                checked,
                activate: activate@,
            },
            MenuItem::SubMenu { label, enabled, submenu } => ItemView::SubMenu {
                label: label@,
                enabled,
                submenu: Seq::new(
                    submenu@.len(),
                    |i: int|
                        if 0 <= i < submenu@.len() {
                            submenu@[i].view()
                        } else {
                            ItemView::Separator
                        },
                ),
            },
            MenuItem::RadioGroup { selected, select, options } => ItemView::RadioGroup {
                selected: selected as int,
                select: select@,
                options: texts(options@),
            },
            MenuItem::Separator => ItemView::Separator,
        }
    }
}

/// The views of a list of items.
pub open spec fn item_views(items: Seq<MenuItem>) -> Seq<ItemView> {
    Seq::new(items.len(), |i: int| items[i]@)
}

/// The icon of the tray, by its name in the icon theme.
pub const ICON_NAME: &'static str = "network-vpn";

/// The title of the tray.
pub const TITLE: &'static str = "clash tray";

proof fn lemma_submenu_view(item: MenuItem)
    ensures
        item matches MenuItem::SubMenu { label, enabled, submenu } ==> item@
            == (ItemView::SubMenu { label: label@, enabled, submenu: item_views(submenu@) }),
{
    if let MenuItem::SubMenu { label, enabled, submenu } = item {
        reveal_with_fuel(<MenuItem as View>::view, 2);
        assert forall|i: int| 0 <= i < submenu@.len() implies item@->submenu[i] == (
        #[trigger] submenu@[i])@ by {}
        assert(item@->submenu =~= item_views(submenu@));
    }
}

impl ChoiceView {
    /// Whether there is an option at `index`.
    pub open spec fn offers(self, index: int) -> bool {
        match self {
            ChoiceView::Mode => 0 <= index < 3,
            ChoiceView::Node { nodes, .. } => 0 <= index < nodes.len(),
        }
    }

    /// The command that choosing the option at `index` gives.
    pub open spec fn command(self, index: int) -> CommandView
        recommends
            self.offers(index),
    {
        match self {
            ChoiceView::Mode => CommandView::SetMode(Mode::ALL@[index]),
            ChoiceView::Node { group, nodes } => CommandView::Select { group, node: nodes[index] },
        }
    }
}

impl Choice {
    /// The command that choosing the option at `index` gives. A group ignores a choice that it
    /// does not offer.
    pub fn pick(&self, index: usize) -> (command: Option<Command>)
        requires
            self is Mode ==> index < 3,
        ensures
            (match command {
                Some(command) => self@.offers(index as int) && command@ == self@.command(
                    index as int,
                ),
                None => !self@.offers(index as int),
            }),
            self is Mode ==> command == Some(Command::SetMode(Mode::ALL@[index as int])),
            self matches Choice::Node { group, nodes } ==> if index < nodes@.len() {
                &&& command matches Some(Command::Select { group: picked, node })
                &&& picked@ == group@
                &&& node@ == nodes@[index as int]@
            } else {
                command is None
            },
    {
        match self {
            Choice::Mode => Some(Command::SetMode(Mode::ALL[index])),
            Choice::Node { group, nodes } => if index < nodes.len() {
                Some(Command::Select { group: group.clone(), node: nodes[index].clone() })
            } else {
                None
            },
        }
    }
}

/// An item that sends a command.
pub open spec fn action_view(label: Seq<char>, command: CommandView) -> ItemView {
    ItemView::Standard {
        label,
        enabled: true,
        icon_name: Seq::empty(),
        activate: ActivationView::Send(command),
    }
}

/// An item that sends `command`.
pub fn action(label: &str, command: Command) -> (item: MenuItem)
    ensures
        item@ == action_view(label@, command@),
{
    MenuItem::Standard {
        label: label.to_owned(),
        enabled: true,
        icon_name: String::new(),
        activate: Activation::Send(command),
    }
}

/// The submenu that switches the mode: the modes in menu order, the current one marked.
pub open spec fn mode_menu_view(mode: Mode) -> ItemView {
    ItemView::SubMenu {
        label: "Mode"@,
        enabled: true,
        submenu: seq![
            ItemView::RadioGroup {
                selected: mode.rank(),
                select: ChoiceView::Mode,
                options: Seq::new(3, |i: int| Mode::ALL@[i].label_text()),
            },
        ],
    }
}

/// The submenu that switches the mode.
pub fn mode_menu(state: &Snapshot) -> (item: MenuItem)
    ensures
        item@ == mode_menu_view(state@.mode),
{
    let mut options: Vec<String> = Vec::new();
    let mut i: usize = 0;
    while i < 3
        invariant
            i <= 3,
            options@.len() == i,
            forall|j: int| 0 <= j < i ==> (#[trigger] options@[j])@ == Mode::ALL@[j].label_text(),
        decreases 3 - i,
    {
        options.push(Mode::ALL[i].label().to_owned());
        i += 1;
    }
    let selected: usize = state.mode.position();
    let submenu: Vec<MenuItem> = vec![
        MenuItem::RadioGroup { selected, select: Choice::Mode, options },
    ];
    let item = MenuItem::SubMenu { label: "Mode".to_owned(), enabled: true, submenu };
    proof {
        lemma_submenu_view(item);
        assert(texts(options@) =~= Seq::new(3, |i: int| Mode::ALL@[i].label_text()));
        assert(item_views(submenu@) =~= mode_menu_view(state.mode)->submenu);
    }
    item
}

/// The name of a group, and the node it uses where that is known.
pub open spec fn group_label(group: GroupView) -> Seq<char> {
    match group.now {
        Some(now) => group.name + " — "@ + now,
        None => group.name,
    }
}

/// The submenu of a group: its nodes, the current one marked.
pub open spec fn group_menu_view(group: GroupView) -> ItemView {
    ItemView::SubMenu {
        label: group_label(group),
        enabled: true,
        submenu: seq![
            ItemView::RadioGroup {
                selected: group.selection(),
                select: ChoiceView::Node { group: group.name, nodes: group.nodes },
                options: group.nodes,
            },
        ],
    }
}

/// The submenu of a group.
pub fn group_menu(group: &Group) -> (item: MenuItem)
    ensures
        item@ == group_menu_view(group@),
{
    let submenu: Vec<MenuItem> = vec![
        MenuItem::RadioGroup {
            selected: group.selection(),
            select: Choice::Node { group: group.name.clone(), nodes: copy_all(&group.nodes) },
            options: copy_all(&group.nodes),
        },
    ];
    let mut label = group.name.clone();
    if let Some(now) = &group.now {
        label.append(" — ");
        label.append(now.as_str());
    }
    let item = MenuItem::SubMenu { label, enabled: true, submenu };
    proof {
        lemma_submenu_view(item);
        assert(item_views(submenu@) =~= group_menu_view(group@)->submenu);
    }
    item
}

/// The submenu of the groups: one entry for each group, in the order of the list.
pub open spec fn proxies_menu_view(groups: Seq<GroupView>) -> ItemView {
    ItemView::SubMenu {
        label: "Proxies"@,
        enabled: groups.len() > 0,
        submenu: Seq::new(groups.len(), |i: int| group_menu_view(groups[i])),
    }
}

/// The submenu of the groups.
pub fn proxies_menu(state: &Snapshot) -> (item: MenuItem)
    ensures
        item@ == proxies_menu_view(state@.groups),
{
    let mut submenu: Vec<MenuItem> = Vec::new();
    let mut i: usize = 0;
    while i < state.groups.len()
        invariant
            i <= state.groups@.len(),
            submenu@.len() == i,
            forall|j: int|
                0 <= j < i ==> (#[trigger] submenu@[j])@ == group_menu_view(state.groups@[j]@),
        decreases state.groups@.len() - i,
    {
        submenu.push(group_menu(&state.groups[i]));
        i += 1;
    }
    let item = MenuItem::SubMenu {
        label: "Proxies".to_owned(),
        enabled: state.groups.len() > 0,
        submenu,
    };
    proof {
        lemma_submenu_view(item);
        assert(item_views(submenu@) =~= proxies_menu_view(state@.groups)->submenu);
    }
    item
}

/// One rule, with a checkmark while it is active. A click switches it off, and on again.
pub open spec fn rule_item_view(rule: RuleView) -> ItemView {
    ItemView::Checkmark {
        label: rule.text(),
        checked: !rule.disabled,
        activate: ActivationView::Send(
            CommandView::SetRuleDisabled { index: rule.index, disabled: !rule.disabled },
        ),
    }
}

/// One rule, with a checkmark that switches it off and on again.
pub fn rule_item(rule: &Rule) -> (item: MenuItem)
    ensures
        item@ == rule_item_view(rule@),
        item matches MenuItem::Checkmark {
            checked,
            activate: Activation::Send(Command::SetRuleDisabled { index, disabled }),
            ..
        } && checked == !rule.extra.disabled && index == rule.index && disabled
            == !rule.extra.disabled,
{
    let disabled: bool = rule.extra.disabled;
    MenuItem::Checkmark {
        label: rule.text(),
        // A checkmark means the rule is active.
        checked: !disabled,
        activate: Activation::Send(
            Command::SetRuleDisabled { index: rule.index, disabled: !disabled },
        ),
    }
}

/// The submenu of the rules: one entry for each rule, in the order of the list.
pub open spec fn rules_menu_view(rules: Seq<RuleView>) -> ItemView {
    ItemView::SubMenu {
        label: "Rules"@,
        enabled: rules.len() > 0,
        submenu: Seq::new(rules.len(), |i: int| rule_item_view(rules[i])),
    }
}

/// The submenu of the rules.
pub fn rules_menu(state: &Snapshot) -> (item: MenuItem)
    ensures
        item@ == rules_menu_view(state@.rules),
{
    let mut submenu: Vec<MenuItem> = Vec::new();
    let mut i: usize = 0;
    while i < state.rules.len()
        invariant
            i <= state.rules@.len(),
            submenu@.len() == i,
            forall|j: int|
                0 <= j < i ==> (#[trigger] submenu@[j])@ == rule_item_view(state.rules@[j]@),
        decreases state.rules@.len() - i,
    {
        submenu.push(rule_item(&state.rules[i]));
        i += 1;
    }
    let item = MenuItem::SubMenu {
        label: "Rules".to_owned(),
        enabled: state.rules.len() > 0,
        submenu,
    };
    proof {
        lemma_submenu_view(item);
        assert(item_views(submenu@) =~= rules_menu_view(state@.rules)->submenu);
    }
    item
}

/// The submenu of the things that act on the kernel itself.
pub open spec fn options_menu_view() -> ItemView {
    ItemView::SubMenu {
        label: "Kernal Options"@,
        enabled: true,
        submenu: seq![
            action_view("Reload configuration"@, CommandView::ReloadConfig),
            action_view("Update GEO database"@, CommandView::UpdateGeo),
            action_view("Flush fake-IP cache"@, CommandView::FlushFakeIp),
            action_view("Flush DNS cache"@, CommandView::FlushDns),
            action_view("Restart kernel"@, CommandView::Restart),
        ],
    }
}

/// The things that act on the kernel itself.
pub fn options_menu() -> (item: MenuItem)
    ensures
        item@ == options_menu_view(),
{
    let submenu: Vec<MenuItem> = vec![
        action("Reload configuration", Command::ReloadConfig),
        action("Update GEO database", Command::UpdateGeo),
        action("Flush fake-IP cache", Command::FlushFakeIp),
        action("Flush DNS cache", Command::FlushDns),
        action("Restart kernel", Command::Restart),
    ];
    let item = MenuItem::SubMenu { label: "Kernal Options".to_owned(), enabled: true, submenu };
    proof {
        lemma_submenu_view(item);
        assert(item_views(submenu@) =~= options_menu_view()->submenu);
    }
    item
}

/// `mihomo v1.19.10 · Rule`, or why the kernel cannot be reached.
pub open spec fn status_line(state: SnapshotView) -> Seq<char> {
    match state.error {
        Some(error) => "⚠ "@ + error,
        None => {
            let kernel = if state.version.len() == 0 {
                "mihomo"@
            } else {
                "mihomo "@ + state.version
            };
            kernel + " · "@ + state.mode.label_text()
        },
    }
}

/// `mihomo v1.19.10 · Rule`, or why the kernel cannot be reached.
pub fn status(state: &Snapshot) -> (line: String)
    ensures
        line@ == status_line(state@),
{
    if let Some(error) = &state.error {
        let mut line = "⚠ ".to_owned();
        line.append(error.as_str());
        return line;
    }
    let mut line: String = if state.version.as_str().is_empty() {
        "mihomo".to_owned()
    } else {
        let mut kernel = "mihomo ".to_owned();
        kernel.append(state.version.as_str());
        kernel
    };
    line.append(" · ");
    line.append(state.mode.label());
    line
}

/// The menu of the tray.
pub open spec fn menu_view(state: SnapshotView) -> Seq<ItemView> {
    seq![
        ItemView::Standard {
            label: status_line(state),
            enabled: false,
            icon_name: Seq::empty(),
            activate: ActivationView::Nothing,
        },
        ItemView::Separator,
        mode_menu_view(state.mode),
        proxies_menu_view(state.groups),
        rules_menu_view(state.rules),
        ItemView::Separator,
        options_menu_view(),
        ItemView::Separator,
        ItemView::Standard {
            label: "Quit"@,
            enabled: true,
            icon_name: "application-exit"@,
            activate: ActivationView::Quit,
        },
    ]
}

/// The menu of the tray.
pub fn menu(state: &Snapshot) -> (items: Vec<MenuItem>)
    ensures
        item_views(items@) == menu_view(state@),
{
    let items: Vec<MenuItem> = vec![
        MenuItem::Standard {
            label: status(state),
            enabled: false,
            icon_name: String::new(),
            activate: Activation::Nothing,
        },
        MenuItem::Separator,
        mode_menu(state),
        proxies_menu(state),
        rules_menu(state),
        MenuItem::Separator,
        options_menu(),
        MenuItem::Separator,
        MenuItem::Standard {
            label: "Quit".to_owned(),
            enabled: true,
            icon_name: "application-exit".to_owned(),
            activate: Activation::Quit,
        },
    ];
    assert(item_views(items@) =~= menu_view(state@));
    items
}

/// The tooltip of the tray: its icon and its title.
pub struct Tip {
    pub icon_name: String,
    pub title: String,
}

/// The tooltip of the tray, which says what the head of the menu says.
pub fn tool_tip(state: &Snapshot) -> (tip: Tip)
    ensures
        tip.icon_name@ == ICON_NAME@,
        tip.title@ == status_line(state@),
{
    Tip { icon_name: ICON_NAME.to_owned(), title: status(state) }
}

/// Why there is no tray host.
pub enum Offline {
    /// It went away.
    Gone,
    /// The bus reported an error.
    Failed(String),
    /// It is not there, for another reason.
    Unavailable,
}

/// Why there is no tray host, in words.
pub open spec fn offline_text(reason: Offline) -> Seq<char> {
    match reason {
        Offline::Gone => "the tray host went away"@,
        Offline::Failed(error) => error@,
        Offline::Unavailable => "the tray host is not available"@,
    }
}

/// Say why there is no tray host.
pub fn offline_reason(reason: &Offline) -> (text: String)
    ensures
        text@ == offline_text(*reason),
{
    match reason {
        Offline::Gone => "the tray host went away".to_owned(),
        Offline::Failed(error) => error.clone(),
        Offline::Unavailable => "the tray host is not available".to_owned(),
    }
}

/// The mode menu marks the mode that the kernel is in, and choosing an option sets the mode that
/// the option is labelled with.
pub proof fn mode_menu_shows_what_it_sets(mode: Mode, index: int)
    requires
        0 <= index < 3,
    ensures
        mode_menu_view(mode)->submenu[0] matches ItemView::RadioGroup {
            selected,
            select,
            options,
        } && {
            &&& 0 <= selected < 3
            &&& select.command(selected) == CommandView::SetMode(mode)
            &&& select.command(index) matches CommandView::SetMode(set) && options[index]
                == set.label_text()
        },
{
    every_mode_is_offered_once(mode);
}

/// The menu of a group offers its nodes; choosing an option selects the node that the option is
/// labelled with, in that group.
pub proof fn group_menu_shows_what_it_selects(group: GroupView, index: int)
    requires
        0 <= index < group.nodes.len(),
    ensures
        group_menu_view(group)->submenu[0] matches ItemView::RadioGroup {
            selected,
            select,
            options,
        } && {
            &&& options == group.nodes
            &&& select.offers(index)
            &&& select.command(index) == (CommandView::Select {
                group: group.name,
                node: options[index],
            })
        },
{
}

/// The menu of a group marks one of its nodes: the current one, where the group has it.
pub proof fn group_menu_marks_the_current_node(group: GroupView)
    requires
        group.nodes.len() > 0,
    ensures
        group_menu_view(group)->submenu[0] matches ItemView::RadioGroup { selected, options, .. }
            && {
            &&& 0 <= selected < options.len()
            &&& group.now matches Some(now) ==> group.nodes.contains(now) ==> options[selected]
                == now
        },
{
    if let Some(now) = group.now {
        group.nodes.index_of_first_ensures(now);
    }
}

/// The state that a rule is in once the command of its item was carried out.
pub open spec fn toggled(rule: RuleView) -> RuleView {
    match rule_item_view(rule) {
        ItemView::Checkmark {
            activate: ActivationView::Send(CommandView::SetRuleDisabled { disabled, .. }),
            ..
        } => RuleView { disabled, ..rule },
        _ => rule,
    }
}

/// A click on a rule switches that rule, so that its checkmark changes, and a second click
/// switches it back.
pub proof fn a_rule_is_switched_off_and_on_again(rule: RuleView)
    ensures
        rule_item_view(rule)->Checkmark_activate == ActivationView::Send(
            CommandView::SetRuleDisabled { index: rule.index, disabled: !rule.disabled },
        ),
        rule_item_view(toggled(rule))->checked == !rule_item_view(rule)->checked,
        rule_item_view(toggled(rule))->Checkmark_label == rule_item_view(rule)->Checkmark_label,
        toggled(toggled(rule)) == rule,
{
}

/// When the kernel cannot be reached, the reason stands at the head of the menu, which cannot be
/// clicked, and there are no groups and no rules to open.
pub proof fn an_unreachable_kernel_says_why(reason: Seq<char>)
    ensures
        ({
            let state = SnapshotView::unknown().with_failure(Some(reason));
            let items = menu_view(state);
            &&& items[0] matches ItemView::Standard { label, enabled, activate, .. } && label
                == "⚠ "@ + reason && !enabled && activate == ActivationView::Nothing
            &&& items[3] matches ItemView::SubMenu { enabled, submenu, .. } && !enabled
                && submenu.len() == 0
            &&& items[4] matches ItemView::SubMenu { enabled, submenu, .. } && !enabled
                && submenu.len() == 0
        }),
{
}

/// While nothing went wrong, the head of the menu names the kernel's version and its mode.
pub proof fn a_reachable_kernel_is_named(state: SnapshotView)
    requires
        state.error is None,
        state.version.len() > 0,
    ensures
        menu_view(state)[0] matches ItemView::Standard { label, .. } && label == "mihomo "@
            + state.version + " · "@ + state.mode.label_text(),
{
}

/// Every group and every rule has its entry, in the order of the lists.
pub proof fn every_group_and_rule_is_listed(state: SnapshotView, i: int, j: int)
    requires
        0 <= i < state.groups.len(),
        0 <= j < state.rules.len(),
    ensures
        menu_view(state)[3] matches ItemView::SubMenu { submenu, .. } && submenu.len()
            == state.groups.len() && submenu[i] == group_menu_view(state.groups[i]),
        menu_view(state)[4] matches ItemView::SubMenu { submenu, .. } && submenu.len()
            == state.rules.len() && submenu[j] == rule_item_view(state.rules[j]),
{
}

/// A click reaches the controller: choosing a mode sets it, choosing a node selects it in its
/// group, and a click on a rule switches that rule.
pub proof fn clicks_reach_the_controller(group: GroupView, node: int, rule: RuleView, mode: int)
    requires
        0 <= node < group.nodes.len(),
        0 <= mode < 3,
    ensures
        ChoiceView::Mode.command(mode).call() == Some(
            CallView {
                method: Method::Patch,
                path: "/configs"@,
                body: Some(single("mode"@, Json::Text(Mode::ALL@[mode].wire_text()))),
            },
        ),
        group_menu_view(group)->submenu[0]->select.command(node).call() == Some(
            CallView {
                method: Method::Put,
                path: "/proxies/"@ + percent_encoded(encode_utf8(group.name)),
                body: Some(single("name"@, Json::Text(group.nodes[node]))),
            },
        ),
        rule_item_view(rule)->Checkmark_activate->Send_0.call() == Some(
            CallView {
                method: Method::Patch,
                path: "/rules/disable"@,
                body: Some(single(decimal_text(rule.index as nat), Json::Flag(!rule.disabled))),
            },
        ),
{
}

/// The view of an item is the item, down to its submenus.
pub proof fn items_are_seen_whole(item: MenuItem, items: Seq<MenuItem>)
    ensures
        item is Separator <==> item@ is Separator,
        item matches MenuItem::Standard { label, enabled, icon_name, activate } ==> item@
            == (ItemView::Standard {
            label: label@,
            enabled,
            icon_name: icon_name@,
            activate: activate@,
        }),
        item matches MenuItem::Checkmark { label, checked, activate } ==> item@
            == (ItemView::Checkmark { label: label@, checked, activate: activate@ }),
        item matches MenuItem::RadioGroup { selected, select, options } ==> {
            &&& item@ matches ItemView::RadioGroup { selected: at, select: choice, options: labels }
            &&& at == selected
            &&& choice == select@
            &&& labels.len() == options@.len()
            &&& forall|i: int| 0 <= i < options@.len() ==> #[trigger] labels[i] == options@[i]@
        },
        item matches MenuItem::SubMenu { label, enabled, submenu } ==> {
            &&& item@ matches ItemView::SubMenu { label: text, enabled: open, submenu: entries }
            &&& text == label@
            &&& open == enabled
            &&& entries.len() == submenu@.len()
            &&& forall|i: int| 0 <= i < submenu@.len() ==> #[trigger] entries[i] == submenu@[i]@
        },
        item_views(items).len() == items.len(),
        forall|i: int| 0 <= i < items.len() ==> #[trigger] item_views(items)[i] == items[i]@,
{
    lemma_submenu_view(item);
}

/// The view of what a click does is what it does.
pub proof fn clicks_are_seen_whole(activate: Activation, choice: Choice)
    ensures
        activate is Nothing <==> activate@ is Nothing,
        activate is Quit <==> activate@ is Quit,
        activate matches Activation::Send(command) ==> activate@ == ActivationView::Send(command@),
        choice is Mode <==> choice@ is Mode,
        choice matches Choice::Node { group, nodes } ==> {
            &&& choice@ matches ChoiceView::Node { group: name, nodes: names }
            &&& name == group@
            &&& names.len() == nodes@.len()
            &&& forall|i: int| 0 <= i < nodes@.len() ==> #[trigger] names[i] == nodes@[i]@
        },
{
}

/// A choice gives a command exactly for the options that it has: the mode at that place, or that
/// node of that group.
pub proof fn a_choice_gives_what_it_offers(group: Seq<char>, nodes: Seq<Seq<char>>, index: int)
    ensures
        ChoiceView::Mode.offers(index) <==> 0 <= index < 3,
        (ChoiceView::Node { group, nodes }).offers(index) <==> 0 <= index < nodes.len(),
        0 <= index < 3 ==> ChoiceView::Mode.command(index) == CommandView::SetMode(
            Mode::ALL@[index],
        ),
        0 <= index < nodes.len() ==> (ChoiceView::Node { group, nodes }).command(index)
            == (CommandView::Select { group, node: nodes[index] }),
{
}

/// An action can be clicked, has the label it was given and sends the command it was given.
pub proof fn an_action_sends_its_command(label: Seq<char>, command: CommandView)
    ensures
        action_view(label, command) matches ItemView::Standard {
            label: text,
            enabled,
            icon_name,
            activate,
        } && text == label && enabled && icon_name.len() == 0 && activate == ActivationView::Send(
            command,
        ),
{
}

/// The mode menu can always be opened, and holds one radio group with the three modes, of which
/// the current one is marked.
pub proof fn the_mode_menu_holds_the_modes(mode: Mode)
    ensures
        mode_menu_view(mode) matches ItemView::SubMenu { label, enabled, submenu } && {
            &&& label == "Mode"@
            &&& enabled
            &&& submenu.len() == 1
            &&& submenu[0] matches ItemView::RadioGroup { selected, select, options } && {
                &&& select is Mode
                &&& options == seq!["Rule"@, "Direct"@, "Global"@]
                &&& mode is Rule ==> selected == 0
                &&& mode is Direct ==> selected == 1
                &&& mode is Global ==> selected == 2
            }
        },
{
    modes_stand_in_order(mode);
    let options = Seq::new(3, |i: int| Mode::ALL@[i].label_text());
    assert(options =~= seq!["Rule"@, "Direct"@, "Global"@]);
}

/// The menu of a group can always be opened, is labelled with the group's name and with its
/// current node where there is one, and holds one radio group with all of its nodes.
pub proof fn a_group_menu_holds_the_nodes(group: GroupView)
    ensures
        group_menu_view(group) matches ItemView::SubMenu { label, enabled, submenu } && {
            &&& group.now is None ==> label == group.name
            &&& group.now matches Some(now) ==> label == group.name + " — "@ + now
            &&& enabled
            &&& submenu.len() == 1
            &&& submenu[0] matches ItemView::RadioGroup { selected, select, options } && {
                &&& selected == group.selection()
                &&& options == group.nodes
                &&& select == (ChoiceView::Node { group: group.name, nodes: group.nodes })
            }
        },
{
}

/// The submenus of groups and rules can be opened exactly where they hold something, and hold one
/// entry for each group and each rule, in order.
pub proof fn lists_open_where_they_hold_something(groups: Seq<GroupView>, rules: Seq<RuleView>)
    ensures
        proxies_menu_view(groups) matches ItemView::SubMenu { label, enabled, submenu } && {
            &&& label == "Proxies"@
            &&& enabled <==> groups.len() > 0
            &&& submenu.len() == groups.len()
            &&& forall|i: int|
                0 <= i < groups.len() ==> #[trigger] submenu[i] == group_menu_view(groups[i])
        },
        rules_menu_view(rules) matches ItemView::SubMenu { label, enabled, submenu } && {
            &&& label == "Rules"@
            &&& enabled <==> rules.len() > 0
            &&& submenu.len() == rules.len()
            &&& forall|i: int|
                0 <= i < rules.len() ==> #[trigger] submenu[i] == rule_item_view(rules[i])
        },
{
}

/// The item of a rule reads as the rule does, is checked exactly while the rule is active, and
/// asks for the other state of that rule.
pub proof fn a_rule_is_checked_while_it_is_active(rule: RuleView)
    ensures
        rule_item_view(rule) matches ItemView::Checkmark { label, checked, activate } && {
            &&& label == rule.text()
            &&& checked <==> !rule.disabled
            &&& activate matches ActivationView::Send(
                CommandView::SetRuleDisabled { index, disabled },
            ) && index == rule.index && (disabled <==> checked)
        },
{
}

/// The options are actions on the kernel, each labelled with what it does.
pub proof fn the_options_act_on_the_kernel()
    ensures
        options_menu_view() matches ItemView::SubMenu { label, enabled, submenu } && {
            &&& label == "Kernal Options"@
            &&& enabled
            &&& submenu.len() == 5
            &&& submenu[0] == action_view("Reload configuration"@, CommandView::ReloadConfig)
            &&& submenu[1] == action_view("Update GEO database"@, CommandView::UpdateGeo)
            &&& submenu[2] == action_view("Flush fake-IP cache"@, CommandView::FlushFakeIp)
            &&& submenu[3] == action_view("Flush DNS cache"@, CommandView::FlushDns)
            &&& submenu[4] == action_view("Restart kernel"@, CommandView::Restart)
        },
{
}

/// The status says what went wrong where something did, and otherwise names the kernel, its
/// version where that is known, and its mode.
pub proof fn the_status_names_kernel_or_error(state: SnapshotView)
    ensures
        state.error matches Some(error) ==> status_line(state) == "⚠ "@ + error,
        state.error is None ==> {
            &&& (" · "@ + state.mode.label_text()).is_suffix_of(status_line(state))
            &&& state.version.len() == 0 ==> status_line(state) == "mihomo"@ + (" · "@
                + state.mode.label_text())
            &&& state.version.len() > 0 ==> status_line(state) == "mihomo "@ + state.version
                + (" · "@ + state.mode.label_text())
        },
{
    if state.error is None {
        let line = status_line(state);
        let tail = " · "@ + state.mode.label_text();
        assert(line.subrange(line.len() - tail.len(), line.len() as int) =~= tail);
        assert(state.version.len() == 0 ==> line =~= "mihomo"@ + tail);
        assert(state.version.len() > 0 ==> line =~= "mihomo "@ + state.version + tail);
    }
}

/// The menu has a head that only shows the status, then mode, groups and rules, then the options,
/// then the way out, each part set off by a separator.
pub proof fn the_menu_is_laid_out(state: SnapshotView)
    ensures
        menu_view(state).len() == 9,
        menu_view(state)[0] matches ItemView::Standard { label, enabled, icon_name, activate }
            && label == status_line(state) && !enabled && icon_name.len() == 0
            && activate is Nothing,
        menu_view(state)[1] is Separator,
        menu_view(state)[2] == mode_menu_view(state.mode),
        menu_view(state)[3] == proxies_menu_view(state.groups),
        menu_view(state)[4] == rules_menu_view(state.rules),
        menu_view(state)[5] is Separator,
        menu_view(state)[6] == options_menu_view(),
        menu_view(state)[7] is Separator,
        menu_view(state)[8] matches ItemView::Standard { label, enabled, icon_name, activate }
            && label == "Quit"@ && enabled && icon_name == "application-exit"@ && activate is Quit,
{
}

/// A missing tray host is explained: it went away, the bus says why, or it is not available.
pub proof fn a_missing_host_is_explained(reason: Offline)
    ensures
        reason is Gone ==> offline_text(reason) == "the tray host went away"@,
        reason matches Offline::Failed(error) ==> offline_text(reason) == error@,
        reason is Unavailable ==> offline_text(reason) == "the tray host is not available"@,
{
}

} // verus!
