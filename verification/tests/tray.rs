use clash_tray::command::Command;
use clash_tray::error::Error;
use clash_tray::kernel::{Group, Mode, Proxy, Rule, RuleExtra};
use clash_tray::serve::{connect, nonempty, serve, Action, Event, DEFAULT_CONTROLLER, POLL};
use clash_tray::snapshot::{Advance, Document, Progress, Snapshot};
use clash_tray::tray::{
    group_menu, menu, mode_menu, offline_reason, rule_item, status, tool_tip, Activation, Choice,
    MenuItem, Offline, TITLE,
};

fn strings(texts: &[&str]) -> Vec<String> {
    texts.iter().map(|text| text.to_string()).collect()
}

fn rule(index: u64, disabled: bool) -> Rule {
    Rule {
        index,
        kind: "DomainSuffix".to_owned(),
        payload: "example.org".to_owned(),
        proxy: "GLOBAL".to_owned(),
        extra: RuleExtra { disabled },
    }
}

fn group(name: &str, now: Option<&str>) -> Group {
    Group {
        name: name.to_owned(),
        now: now.map(str::to_owned),
        nodes: strings(&["tokyo", "paris"]),
    }
}

fn snapshot() -> Snapshot {
    Snapshot {
        version: "v1.19.10".to_owned(),
        mode: Mode::Direct,
        groups: vec![group("auto", Some("paris")), group("manual", None)],
        rules: vec![rule(0, false), rule(1, true)],
        error: None,
    }
}

fn label(item: &MenuItem) -> &str {
    match item {
        MenuItem::Standard { label, .. }
        | MenuItem::Checkmark { label, .. }
        | MenuItem::SubMenu { label, .. } => label,
        MenuItem::RadioGroup { .. } => "radio",
        MenuItem::Separator => "---",
    }
}

fn submenu(item: &MenuItem) -> (bool, &[MenuItem]) {
    match item {
        MenuItem::SubMenu {
            enabled, submenu, ..
        } => (*enabled, submenu),
        _ => panic!("{} is no submenu", label(item)),
    }
}

fn radio(item: &MenuItem) -> (usize, &Choice, &[String]) {
    match submenu(item).1 {
        [MenuItem::RadioGroup {
            selected,
            select,
            options,
        }] => (*selected, select, options),
        _ => panic!("{} holds no radio group", label(item)),
    }
}

#[test]
fn the_status_names_version_and_mode() {
    assert_eq!(status(&snapshot()), "mihomo v1.19.10 · Direct");
    assert_eq!(status(&Snapshot::default()), "mihomo · Rule");
}

#[test]
fn the_status_says_what_went_wrong() {
    let mut state = snapshot();
    state.error = Some("Connection refused".to_owned());
    assert_eq!(status(&state), "⚠ Connection refused");
    state.error = Some(String::new());
    assert_eq!(status(&state), "⚠ ");
}

#[test]
fn the_menu_is_laid_out() {
    let items = menu(&snapshot());
    let labels: Vec<&str> = items.iter().map(label).collect();
    assert_eq!(
        labels,
        [
            "mihomo v1.19.10 · Direct",
            "---",
            "Mode",
            "Proxies",
            "Rules",
            "---",
            "Kernal Options",
            "---",
            "Quit",
        ]
    );
    assert!(matches!(
        &items[0],
        MenuItem::Standard { enabled: false, activate: Activation::Nothing, icon_name, .. }
            if icon_name.is_empty()
    ));
    assert!(matches!(
        &items[8],
        MenuItem::Standard { enabled: true, activate: Activation::Quit, icon_name, .. }
            if icon_name == "application-exit"
    ));
}

#[test]
fn the_tooltip_repeats_the_status() {
    let tip = tool_tip(&snapshot());
    assert_eq!(tip.icon_name, "network-vpn");
    assert_eq!(tip.title, "mihomo v1.19.10 · Direct");
    assert_eq!(TITLE, "clash tray");
}

#[test]
fn the_mode_menu_marks_and_sets_the_mode() {
    let item = mode_menu(&snapshot());
    assert_eq!(label(&item), "Mode");
    let (selected, select, options) = radio(&item);
    assert_eq!(selected, 1);
    assert_eq!(options, ["Rule", "Direct", "Global"]);
    for (index, mode) in Mode::ALL.into_iter().enumerate() {
        let Some(Command::SetMode(set)) = select.pick(index) else {
            panic!("an option sets a mode");
        };
        assert_eq!(set, mode);
        assert_eq!(options[index], set.label());
    }
}

#[test]
fn a_group_menu_marks_and_selects_nodes() {
    let item = group_menu(&group("auto", Some("paris")));
    assert_eq!(label(&item), "auto — paris");
    let (selected, select, options) = radio(&item);
    assert_eq!(selected, 1);
    assert_eq!(options, ["tokyo", "paris"]);
    for index in 0..2 {
        let Some(Command::Select { group, node }) = select.pick(index) else {
            panic!("an option selects a node");
        };
        assert_eq!(group, "auto");
        assert_eq!(node, options[index]);
    }
    assert!(select.pick(2).is_none());
    assert_eq!(label(&group_menu(&group("manual", None))), "manual");
}

#[test]
fn groups_and_rules_are_listed_in_order() {
    let items = menu(&snapshot());
    let (enabled, proxies) = submenu(&items[3]);
    assert!(enabled);
    let labels: Vec<&str> = proxies.iter().map(label).collect();
    assert_eq!(labels, ["auto — paris", "manual"]);
    let (enabled, rules) = submenu(&items[4]);
    assert!(enabled);
    assert_eq!(rules.len(), 2);
    assert_eq!(label(&rules[0]), "DomainSuffix example.org → GLOBAL");
}

#[test]
fn empty_submenus_cannot_be_opened() {
    let items = menu(&Snapshot::default());
    for index in [3, 4] {
        let (enabled, entries) = submenu(&items[index]);
        assert!(!enabled);
        assert!(entries.is_empty());
    }
}

fn click(rule: &Rule) -> (bool, u64, bool) {
    match rule_item(rule) {
        MenuItem::Checkmark {
            checked,
            activate: Activation::Send(Command::SetRuleDisabled { index, disabled }),
            ..
        } => (checked, index, disabled),
        _ => panic!("a rule is a checkmark"),
    }
}

#[test]
fn a_rule_is_switched_off_and_on_again() {
    assert_eq!(click(&rule(7, false)), (true, 7, true));
    assert_eq!(click(&rule(7, true)), (false, 7, false));
}

#[test]
fn the_options_send_their_commands() {
    let items = menu(&snapshot());
    let (_, options) = submenu(&items[6]);
    let labels: Vec<&str> = options.iter().map(label).collect();
    assert_eq!(
        labels,
        [
            "Reload configuration",
            "Update GEO database",
            "Flush fake-IP cache",
            "Flush DNS cache",
            "Restart kernel",
        ]
    );
    let paths: Vec<String> = options
        .iter()
        .map(|item| match item {
            MenuItem::Standard {
                activate: Activation::Send(command),
                enabled: true,
                ..
            } => command.clone().call().unwrap().path,
            _ => panic!("an option sends a command"),
        })
        .collect();
    assert_eq!(
        paths,
        [
            "/configs?force=true",
            "/upgrade/geo",
            "/cache/fakeip/flush",
            "/cache/dns/flush",
            "/restart",
        ]
    );
}

#[test]
fn a_missing_tray_host_is_explained() {
    assert_eq!(offline_reason(&Offline::Gone), "the tray host went away");
    assert_eq!(offline_reason(&Offline::Failed("bus".to_owned())), "bus");
    assert_eq!(
        offline_reason(&Offline::Unavailable),
        "the tray host is not available"
    );
}

#[test]
fn a_snapshot_that_was_read_is_kept() {
    let state = Snapshot::fetch(Ok(snapshot()));
    assert_eq!(status(&state), "mihomo v1.19.10 · Direct");
    assert_eq!(state.groups.len(), 2);
    assert_eq!(state.rules.len(), 2);
    let copy = state.clone();
    assert_eq!(copy.version, state.version);
    assert_eq!(copy.groups[0].nodes, state.groups[0].nodes);
    assert_eq!(copy.rules[1].text(), state.rules[1].text());
}

#[test]
fn a_kernel_that_cannot_be_reached_says_why() {
    let state = Snapshot::fetch(Err(Error::Timeout(3)));
    let reason = "⚠ controller did not answer within 3s";
    assert_eq!(label(&menu(&state)[0]), reason);
    assert_eq!(tool_tip(&state).title, reason);
    assert!(state.version.is_empty());
    assert_eq!(state.mode, Mode::Rule);
    assert!(state.groups.is_empty());
    assert!(state.rules.is_empty());
}

#[test]
fn a_failed_command_is_shown_unless_the_kernel_is_gone() {
    let failed = || Some("controller answered HTTP 400 Bad Request".to_owned());
    let state = snapshot().refresh(failed());
    assert_eq!(state.error, failed());
    assert_eq!(state.version, "v1.19.10");
    let gone = Snapshot::fetch(Err(Error::Transport("gone".to_owned()))).refresh(failed());
    assert_eq!(gone.error.as_deref(), Some("gone"));
    assert_eq!(snapshot().refresh(None).error, None);
}

fn ask(next: Advance) -> Progress {
    match next {
        Advance::Ask(progress) => progress,
        Advance::Done(_) => panic!("there is more to read"),
    }
}

#[test]
fn a_snapshot_is_read_document_by_document() {
    let progress = Progress::Configs;
    assert_eq!(progress.path(), "/configs");
    let progress = ask(progress.advance(Ok(Document::Configs(Mode::Global))));
    assert_eq!(progress.path(), "/proxies");
    let proxy = Proxy {
        now: None,
        hidden: false,
        all: strings(&["a"]),
    };
    let proxies = vec![("g".to_owned(), proxy)];
    let progress = ask(progress.advance(Ok(Document::Proxies(proxies))));
    assert_eq!(progress.path(), "/version");
    let progress = ask(progress.advance(Ok(Document::Version("v2".to_owned()))));
    assert_eq!(progress.path(), "/rules");
    let Advance::Done(Ok(state)) = progress.advance(Ok(Document::Rules(vec![rule(5, false)])))
    else {
        panic!("nothing is left to read");
    };
    assert_eq!(status(&state), "mihomo v2 · Global");
    assert_eq!(state.groups[0].name, "g");
    assert_eq!(state.rules[0].index, 5);
    assert!(state.error.is_none());
}

#[test]
fn the_first_failure_ends_the_reading() {
    let failure = || Err(Error::Transport("gone".to_owned()));
    for progress in [
        Progress::Configs,
        Progress::Proxies { mode: Mode::Rule },
        Progress::Version {
            mode: Mode::Rule,
            proxies: Vec::new(),
        },
        Progress::Rules {
            mode: Mode::Rule,
            proxies: Vec::new(),
            version: String::new(),
        },
    ] {
        let Advance::Done(Err(error)) = progress.advance(failure()) else {
            panic!("a failure ends the reading");
        };
        assert_eq!(error.message(), "gone");
    }
}

#[test]
fn a_poll_and_a_command_end_in_a_refresh() {
    assert_eq!(POLL, 30);
    assert!(matches!(
        serve(Event::Elapsed),
        Action::Refresh { failure: None }
    ));
    assert!(matches!(
        serve(Event::Picked(Command::FlushDns)),
        Action::Run(Command::FlushDns)
    ));
    assert!(matches!(
        serve(Event::Ran(Ok(()))),
        Action::Refresh { failure: None }
    ));
    let Action::Refresh { failure } = serve(Event::Ran(Err(Error::Timeout(3)))) else {
        panic!("a failure is followed by a refresh");
    };
    assert_eq!(failure.as_deref(), Some("controller did not answer within 3s"));
    assert!(matches!(serve(Event::Refreshed), Action::Wait));
}

#[test]
fn a_closed_menu_stops_the_tray() {
    assert!(matches!(serve(Event::Closed), Action::Stop));
}

#[test]
fn an_empty_setting_is_unset() {
    assert_eq!(nonempty(None), None);
    assert_eq!(nonempty(Some(String::new())), None);
    assert_eq!(nonempty(Some(" ".to_owned())).as_deref(), Some(" "));
}

#[test]
fn settings_name_the_controller() {
    assert_eq!(DEFAULT_CONTROLLER, "127.0.0.1:9090");
    let request = connect(None, Some(String::new())).get("/rules").ok().unwrap();
    assert_eq!(request.uri(), "http://127.0.0.1:9090/rules");
    assert!(request.headers().is_empty());
    let api = connect(Some("http://h:1/".to_owned()), Some("s".to_owned()));
    let request = api.get("/rules").ok().unwrap();
    assert_eq!(request.uri(), "http://h:1/rules");
    assert_eq!(request.headers()["authorization"], "Bearer s");
}

#[test]
fn clicks_reach_the_controller() {
    let item = group_menu(&group("auto select", None));
    let call = radio(&item).1.pick(1).unwrap().call().unwrap();
    assert_eq!(call.path, "/proxies/auto%20select");
    assert_eq!(call.body.as_deref(), Some("{\"name\":\"paris\"}"));
    let call = Choice::Mode.pick(2).unwrap().call().unwrap();
    assert_eq!(call.path, "/configs");
    assert_eq!(call.body.as_deref(), Some("{\"mode\":\"global\"}"));
    let MenuItem::Checkmark {
        activate: Activation::Send(command),
        ..
    } = rule_item(&rule(4, false))
    else {
        panic!("a rule is a checkmark");
    };
    assert_eq!(command.call().unwrap().body.as_deref(), Some("{\"4\":true}"));
}
