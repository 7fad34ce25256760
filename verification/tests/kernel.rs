use clash_tray::kernel::{groups, null_default, Group, Mode, Proxy, Rule, RuleExtra};
use clash_tray::text::comes_before;

fn strings(texts: &[&str]) -> Vec<String> {
    texts.iter().map(|text| text.to_string()).collect()
}

fn proxy(name: &str, now: Option<&str>, hidden: bool, all: &[&str]) -> (String, Proxy) {
    (
        name.to_owned(),
        Proxy {
            now: now.map(str::to_owned),
            hidden,
            all: strings(all),
        },
    )
}

fn names(groups: &[Group]) -> Vec<&str> {
    groups.iter().map(|group| group.name.as_str()).collect()
}

fn group(now: Option<&str>, nodes: &[&str]) -> Group {
    Group {
        name: "g".to_owned(),
        now: now.map(str::to_owned),
        nodes: strings(nodes),
    }
}

#[test]
fn modes_have_labels_in_menu_order() {
    let labels: Vec<&str> = Mode::ALL.iter().map(|mode| mode.label()).collect();
    assert_eq!(labels, ["Rule", "Direct", "Global"]);
    let names: Vec<&str> = Mode::ALL.iter().map(|mode| mode.wire_name()).collect();
    assert_eq!(names, ["rule", "direct", "global"]);
    assert_eq!(Mode::default(), Mode::Rule);
}

#[test]
fn modes_stand_at_their_positions() {
    for (index, mode) in Mode::ALL.into_iter().enumerate() {
        assert_eq!(mode.position(), index);
    }
}

#[test]
fn the_selection_is_the_index_of_the_current_node() {
    assert_eq!(group(Some("b"), &["a", "b", "c", "b"]).selection(), 1);
    assert_eq!(group(Some("a"), &["a", "b"]).selection(), 0);
    assert_eq!(group(Some("z"), &["a", "b"]).selection(), 0);
    assert_eq!(group(None, &["a", "b"]).selection(), 0);
    assert_eq!(group(Some("a"), &[]).selection(), 0);
}

#[test]
fn only_visible_groups_are_listed() {
    let report = vec![
        proxy("node", None, false, &[]),
        proxy("hidden", Some("a"), true, &["a"]),
        proxy("shown", Some("a"), false, &["a", "b"]),
    ];
    let groups = groups(&report);
    assert_eq!(names(&groups), ["shown"]);
    assert_eq!(groups[0].now.as_deref(), Some("a"));
    assert_eq!(groups[0].nodes, ["a", "b"]);
}

#[test]
fn groups_are_listed_by_name() {
    let report = vec![
        proxy("b", None, false, &["x"]),
        proxy("é", None, false, &["x"]),
        proxy("a2", None, false, &["x"]),
        proxy("B", None, false, &["x"]),
        proxy("a", None, false, &["x"]),
        proxy("", None, false, &["x"]),
        proxy("a10", None, false, &["x"]),
    ];
    let groups = groups(&report);
    let mut sorted: Vec<&str> = report.iter().map(|entry| entry.0.as_str()).collect();
    sorted.sort();
    assert_eq!(names(&groups), sorted);
    assert_eq!(names(&groups), ["", "B", "a", "a10", "a2", "b", "é"]);
}

#[test]
fn the_order_of_the_report_does_not_matter() {
    let forth = vec![
        proxy("one", Some("x"), false, &["x", "y"]),
        proxy("two", None, false, &["z"]),
        proxy("three", None, true, &["z"]),
    ];
    let back: Vec<(String, Proxy)> = vec![
        proxy("three", None, true, &["z"]),
        proxy("two", None, false, &["z"]),
        proxy("one", Some("x"), false, &["x", "y"]),
    ];
    let (forth, back) = (groups(&forth), groups(&back));
    assert_eq!(names(&forth), names(&back));
    assert_eq!(names(&forth), ["one", "two"]);
    assert_eq!(forth[0].nodes, back[0].nodes);
    assert_eq!(forth[0].now, back[0].now);
}

#[test]
fn an_empty_report_lists_nothing() {
    assert!(groups(&Vec::new()).is_empty());
}

#[test]
fn texts_are_ordered_by_their_bytes() {
    let texts = ["", "A", "Z", "a", "aa", "ab", "b", "é", "日", "🇯"];
    for a in texts {
        for b in texts {
            assert_eq!(comes_before(a, b), a < b);
        }
    }
}

fn rule(payload: &str) -> Rule {
    Rule {
        index: 3,
        kind: "Match".to_owned(),
        payload: payload.to_owned(),
        proxy: "DIRECT".to_owned(),
        extra: RuleExtra { disabled: true },
    }
}

#[test]
fn a_rule_shows_its_parts() {
    assert_eq!(rule("").text(), "Match → DIRECT");
    assert_eq!(rule("example.org").text(), "Match example.org → DIRECT");
    assert_eq!(rule(" ").text(), "Match   → DIRECT");
}

#[test]
fn copies_say_the_same() {
    let copy = rule("p").clone();
    assert_eq!(copy.index, 3);
    assert_eq!(copy.text(), rule("p").text());
    assert!(copy.extra.disabled);
    let copy = group(Some("b"), &["a", "b"]).clone();
    assert_eq!(copy.name, "g");
    assert_eq!(copy.now.as_deref(), Some("b"));
    assert_eq!(copy.nodes, ["a", "b"]);
}

#[test]
fn null_is_the_default() {
    assert!(!null_default::<RuleExtra>(None).disabled);
    assert!(null_default(Some(RuleExtra { disabled: true })).disabled);
    assert!(null_default::<Vec<String>>(None).is_empty());
    assert_eq!(null_default(Some(strings(&["a"]))), ["a"]);
}
