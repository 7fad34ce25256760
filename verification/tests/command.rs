use clash_tray::command::{Call, Command, Method};
use clash_tray::encode::encode;
use clash_tray::kernel::Mode;
use clash_tray::text::decimal;

fn call(command: Command) -> Call {
    command.call().expect("the command sends something")
}

#[test]
fn refresh_sends_nothing() {
    assert!(Command::Refresh.call().is_none());
}

#[test]
fn set_mode_patches_the_configuration() {
    for (mode, body) in [
        (Mode::Rule, "{\"mode\":\"rule\"}"),
        (Mode::Direct, "{\"mode\":\"direct\"}"),
        (Mode::Global, "{\"mode\":\"global\"}"),
    ] {
        let call = call(Command::SetMode(mode));
        assert_eq!(call.method, Method::Patch);
        assert_eq!(call.path, "/configs");
        assert_eq!(call.body.as_deref(), Some(body));
    }
}

#[test]
fn select_names_the_group_in_the_path_and_the_node_in_the_body() {
    let call = call(Command::Select {
        group: "GLOBAL".to_owned(),
        node: "tokyo-1".to_owned(),
    });
    assert_eq!(call.method, Method::Put);
    assert_eq!(call.path, "/proxies/GLOBAL");
    assert_eq!(call.body.as_deref(), Some("{\"name\":\"tokyo-1\"}"));
}

#[test]
fn select_encodes_the_group_and_escapes_the_node() {
    let call = call(Command::Select {
        group: "a/b ?#→".to_owned(),
        node: "\"\\\u{8}\t\n\u{c}\r\u{1}\u{1f}é".to_owned(),
    });
    assert_eq!(call.path, "/proxies/a%2Fb%20%3F%23%E2%86%92");
    assert_eq!(
        call.body.as_deref(),
        Some("{\"name\":\"\\\"\\\\\\b\\t\\n\\f\\r\\u0001\\u001fé\"}")
    );
}

#[test]
fn bodies_are_what_serde_json_reads_back() {
    let node = "\"quoted\" \\ \u{0}\u{1b} 节点";
    let call = call(Command::Select {
        group: String::new(),
        node: node.to_owned(),
    });
    let read: serde_json::Value = serde_json::from_str(call.body.as_deref().unwrap()).unwrap();
    assert_eq!(read["name"], node);
    assert_eq!(read.as_object().unwrap().len(), 1);
}

#[test]
fn rules_are_switched_by_their_index() {
    let off = call(Command::SetRuleDisabled {
        index: 12,
        disabled: true,
    });
    assert_eq!(off.method, Method::Patch);
    assert_eq!(off.path, "/rules/disable");
    assert_eq!(off.body.as_deref(), Some("{\"12\":true}"));
    let on = call(Command::SetRuleDisabled {
        index: u64::MAX,
        disabled: false,
    });
    assert_eq!(on.body.as_deref(), Some("{\"18446744073709551615\":false}"));
}

#[test]
fn kernel_options_call_their_endpoints() {
    let running = Some("{\"path\":\"\",\"payload\":\"\"}");
    for (command, method, path, body) in [
        (Command::ReloadConfig, Method::Put, "/configs?force=true", running),
        (Command::UpdateGeo, Method::Post, "/upgrade/geo", None),
        (Command::FlushFakeIp, Method::Post, "/cache/fakeip/flush", None),
        (Command::FlushDns, Method::Post, "/cache/dns/flush", None),
        (Command::Restart, Method::Post, "/restart", running),
    ] {
        let call = call(command);
        assert_eq!(call.method, method);
        assert_eq!(call.path, path);
        assert_eq!(call.body.as_deref(), body);
    }
}

#[test]
fn a_command_and_its_copy_make_the_same_call() {
    let command = Command::Select {
        group: "g".to_owned(),
        node: "n".to_owned(),
    };
    let copy = call(command.clone());
    let call = call(command);
    assert_eq!(call.path, copy.path);
    assert_eq!(call.body, copy.body);
}

#[test]
fn unreserved_characters_stand_for_themselves() {
    let unreserved = "ABCXYZabcxyz0189-._~";
    assert_eq!(encode(unreserved), unreserved);
    assert_eq!(encode(""), "");
}

#[test]
fn other_bytes_are_written_in_hexadecimal() {
    assert_eq!(encode(" "), "%20");
    assert_eq!(encode("%"), "%25");
    assert_eq!(encode("\u{0}\u{7f}"), "%00%7F");
    assert_eq!(encode("@[`{/:"), "%40%5B%60%7B%2F%3A");
    assert_eq!(encode("日本"), "%E6%97%A5%E6%9C%AC");
    assert_eq!(encode("🇯"), "%F0%9F%87%AF");
}

#[test]
fn encoding_can_be_undone() {
    let text = "100% / ü?#~";
    let encoded = encode(text);
    let mut bytes: Vec<u8> = Vec::new();
    let mut rest = encoded.as_bytes();
    while let Some((&first, tail)) = rest.split_first() {
        if first == b'%' {
            let digits = std::str::from_utf8(&tail[..2]).unwrap();
            bytes.push(u8::from_str_radix(digits, 16).unwrap());
            rest = &tail[2..];
        } else {
            bytes.push(first);
            rest = tail;
        }
    }
    assert_eq!(String::from_utf8(bytes).unwrap(), text);
}

#[test]
fn numbers_are_written_in_decimal() {
    for n in [0u64, 7, 9, 10, 99, 100, 1234567890, u64::MAX] {
        assert_eq!(decimal(n), n.to_string());
    }
}

#[test]
fn methods_have_their_names() {
    assert_eq!(Method::Get.name(), "GET");
    assert_eq!(Method::Put.name(), "PUT");
    assert_eq!(Method::Post.name(), "POST");
    assert_eq!(Method::Patch.name(), "PATCH");
}

#[test]
fn different_commands_make_different_calls() {
    let select = |group: &str, node: &str| Command::Select {
        group: group.to_owned(),
        node: node.to_owned(),
    };
    let commands = vec![
        Command::SetMode(Mode::Rule),
        Command::SetMode(Mode::Direct),
        select("a/b", "c"),
        select("a%2Fb", "c"),
        select("a/b", "c\""),
        select("a/b", "c\\\""),
        Command::SetRuleDisabled { index: 1, disabled: true },
        Command::SetRuleDisabled { index: 1, disabled: false },
        Command::SetRuleDisabled { index: 11, disabled: true },
        Command::ReloadConfig,
        Command::UpdateGeo,
        Command::FlushFakeIp,
        Command::FlushDns,
        Command::Restart,
    ];
    let calls: Vec<Call> = commands.into_iter().map(call).collect();
    for (i, a) in calls.iter().enumerate() {
        assert!(a.path.starts_with('/'));
        for b in &calls[i + 1..] {
            assert!(a.method != b.method || a.path != b.path || a.body != b.body);
        }
    }
}
