//! The commands of the menu, and the calls of the controller that carry them out.

use vstd::prelude::*;
use vstd::string::StringExecFns;
use vstd::utf8::encode_utf8;

use crate::encode::{
    encode, encoding_is_injective, encoding_is_one_segment, encoding_is_reversible,
    percent_decoded, percent_encoded,
};
use crate::json::{
    a_quoted_text_is_read_back, empty_object, insert_flag, insert_text, lists_keys, members,
    members_text, needs_no_escape, object_text, plain_text_is_quoted_unchanged, quoted,
    quoting_is_reversible, read_string, value_text, write_object, Json,
};
use crate::kernel::{mode_names_are_distinct, Mode};
use crate::text::{
    bytes_less, decimal, decimal_digits_stand_for_the_number, decimal_is_injective, decimal_text,
    decimal_value, opt_text, text_less,
};

verus! {

/// Something the user picked in the menu.
pub enum Command {
    /// Re-read the kernel without changing anything, e.g. before showing the menu.
    Refresh,
    SetMode(Mode),
    Select { group: String, node: String },
    /// Switch a rule off, or back on.
    SetRuleDisabled { index: u64, disabled: bool },
    ReloadConfig,
    UpdateGeo,
    FlushFakeIp,
    FlushDns,
    Restart,
}

/// What a [`Command`] says.
#[verifier::ext_equal]
pub enum CommandView {
    Refresh,
    SetMode(Mode),
    Select { group: Seq<char>, node: Seq<char> },
    SetRuleDisabled { index: u64, disabled: bool },
    ReloadConfig,
    UpdateGeo,
    FlushFakeIp,
    FlushDns,
    Restart,
}

impl View for Command {
    type V = CommandView;

    open spec fn view(&self) -> CommandView {
        match *self {
            Command::Refresh => CommandView::Refresh,
            Command::SetMode(mode) => CommandView::SetMode(mode),
            Command::Select { group, node } => CommandView::Select { group: group@, node: node@ },
            Command::SetRuleDisabled { index, disabled } => CommandView::SetRuleDisabled {
                index,
                disabled,
            },
            Command::ReloadConfig => CommandView::ReloadConfig,
            Command::UpdateGeo => CommandView::UpdateGeo,
            Command::FlushFakeIp => CommandView::FlushFakeIp,
            Command::FlushDns => CommandView::FlushDns,
            Command::Restart => CommandView::Restart,
        }
    }
}

impl Clone for Command {
    fn clone(&self) -> (copy: Self)
        ensures
            copy@ == self@,
    {
        match self {
            Command::Refresh => Command::Refresh,
            Command::SetMode(mode) => Command::SetMode(*mode),
            Command::Select { group, node } => Command::Select {
                group: group.clone(),
                node: node.clone(),
            },
            Command::SetRuleDisabled { index, disabled } => Command::SetRuleDisabled {
                index: *index,
                disabled: *disabled,
            },
            Command::ReloadConfig => Command::ReloadConfig,
            Command::UpdateGeo => Command::UpdateGeo,
            Command::FlushFakeIp => Command::FlushFakeIp,
            Command::FlushDns => Command::FlushDns,
            Command::Restart => Command::Restart,
        }
    }
}

/// The HTTP methods that the controller is called with.
#[derive(Clone, Copy, Debug, PartialEq, Eq, Structural)]
pub enum Method {
    Get,
    Put,
    Post,
    Patch,
}

impl Method {
    /// The method's name in a request.
    pub open spec fn text(self) -> Seq<char> {
        match self {
            Method::Get => "GET"@,
            Method::Put => "PUT"@,
            Method::Post => "POST"@,
            Method::Patch => "PATCH"@,
        }
    }

    /// The method's name in a request.
    pub fn name(self) -> (name: &'static str)
        ensures
            name@ == self.text(),
    {
        match self {
            Method::Get => "GET",
            Method::Put => "PUT",
            Method::Post => "POST",
            Method::Patch => "PATCH",
        }
    }
}

/// A call of the controller: a method, a path below its address and a JSON body.
pub struct Call {
    pub method: Method,
    pub path: String,
    pub body: Option<String>,
}

/// What a [`Call`] says.
#[verifier::ext_equal]
pub struct CallView {
    pub method: Method,
    pub path: Seq<char>,
    pub body: Option<Seq<char>>,
}

impl View for Call {
    type V = CallView;

    open spec fn view(&self) -> CallView {
        CallView { method: self.method, path: self.path@, body: opt_text(self.body) }
    }
}

/// The object with one member.
pub open spec fn single(key: Seq<char>, value: Json) -> Seq<char> {
    object_text(seq![key], map![key => value])
}

/// The body that names neither a configuration file nor its contents, so that the kernel takes
/// the one it runs with: `{"path":"","payload":""}`.
pub open spec fn running_config() -> Seq<char> {
    object_text(
        seq!["path"@, "payload"@],
        map!["path"@ => Json::Text(Seq::empty()), "payload"@ => Json::Text(Seq::empty())],
    )
}

impl CommandView {
    /// The call that carries out the command, where there is anything to send.
    pub open spec fn call(self) -> Option<CallView> {
        match self {
            CommandView::Refresh => None,
            CommandView::SetMode(mode) => Some(
                CallView {
                    method: Method::Patch,
                    path: "/configs"@,
                    body: Some(single("mode"@, Json::Text(mode.wire_text()))),
                },
            ),
            CommandView::Select { group, node } => Some(
                CallView {
                    method: Method::Put,
                    path: "/proxies/"@ + percent_encoded(encode_utf8(group)),
                    body: Some(single("name"@, Json::Text(node))),
                },
            ),
            CommandView::SetRuleDisabled { index, disabled } => Some(
                CallView {
                    method: Method::Patch,
                    path: "/rules/disable"@,
                    body: Some(single(decimal_text(index as nat), Json::Flag(disabled))),
                },
            ),
            CommandView::ReloadConfig => Some(
                CallView {
                    method: Method::Put,
                    path: "/configs?force=true"@,
                    body: Some(running_config()),
                },
            ),
            CommandView::UpdateGeo => Some(
                CallView { method: Method::Post, path: "/upgrade/geo"@, body: None },
            ),
            CommandView::FlushFakeIp => Some(
                CallView { method: Method::Post, path: "/cache/fakeip/flush"@, body: None },
            ),
            CommandView::FlushDns => Some(
                CallView { method: Method::Post, path: "/cache/dns/flush"@, body: None },
            ),
            CommandView::Restart => Some(
                CallView { method: Method::Post, path: "/restart"@, body: Some(running_config()) },
            ),
        }
    }
}

/// Write an object with one text.
fn text_object(key: String, value: String) -> (text: String)
    ensures
        text@ == single(key@, Json::Text(value@)),
{
    let ghost keys = seq![key@];
    let ghost held = map![key@ => Json::Text(value@)];
    let mut object = empty_object();
    insert_text(&mut object, key, value);
    proof {
        assert(members(object) =~= held);
        assert(keys[0] == key@);
        assert(lists_keys(keys, held));
    }
    write_object(object)
}

/// Write an object with one flag.
fn flag_object(key: String, value: bool) -> (text: String)
    ensures
        text@ == single(key@, Json::Flag(value)),
{
    let ghost keys = seq![key@];
    let ghost held = map![key@ => Json::Flag(value)];
    let mut object = empty_object();
    insert_flag(&mut object, key, value);
    proof {
        assert(members(object) =~= held);
        assert(keys[0] == key@);
        assert(lists_keys(keys, held));
    }
    write_object(object)
}

proof fn lemma_path_before_payload()
    ensures
        text_less("path"@, "payload"@),
{
    reveal_strlit("path");
    reveal_strlit("payload");
    vstd::utf8::is_ascii_chars_encode_utf8("path"@);
    vstd::utf8::is_ascii_chars_encode_utf8("payload"@);
    let a = encode_utf8("path"@);
    let b = encode_utf8("payload"@);
    assert("path"@[0] == 'p' && "path"@[1] == 'a' && "path"@[2] == 't');
    assert("payload"@[0] == 'p' && "payload"@[1] == 'a' && "payload"@[2] == 'y');
    assert(a.skip(1).skip(1)[0] < b.skip(1).skip(1)[0]);
    reveal_with_fuel(bytes_less, 4);
}

/// Write the object that names neither a configuration file nor its contents.
fn running_config_object() -> (text: String)
    ensures
        text@ == running_config(),
{
    let ghost keys = seq!["path"@, "payload"@];
    let ghost held = map![
        "path"@ => Json::Text(Seq::empty()),
        "payload"@ => Json::Text(Seq::empty()),
    ];
    let mut object = empty_object();
    insert_text(&mut object, "path".to_owned(), String::new());
    insert_text(&mut object, "payload".to_owned(), String::new());
    proof {
        assert(members(object) =~= held);
        lemma_path_before_payload();
        assert(keys[0] == "path"@ && keys[1] == "payload"@);
        assert(lists_keys(keys, held));
    }
    write_object(object)
}

impl Command {
    /// The call that carries out the command, where there is anything to send.
    pub fn call(self) -> (call: Option<Call>)
        ensures
            (match call {
                Some(call) => self@.call() == Some(call@),
                None => self@.call() is None,
            }),
    {
        let (method, path, body): (Method, String, Option<String>) = match self {
            // Nothing to send, this command only asks for a new snapshot.
            Command::Refresh => return None,
            Command::SetMode(mode) => (
                Method::Patch,
                "/configs".to_owned(),
                Some(text_object("mode".to_owned(), mode.wire_name().to_owned())),
            ),
            Command::Select { group, node } => {
                let mut path = "/proxies/".to_owned();
                path.append(encode(group.as_str()).as_str());
                (Method::Put, path, Some(text_object("name".to_owned(), node)))
            },
            // `/rules/disable` takes an object keyed by rule index.
            Command::SetRuleDisabled { index, disabled } => (
                Method::Patch,
                "/rules/disable".to_owned(),
                Some(flag_object(decimal(index), disabled)),
            ),
            Command::ReloadConfig => (
                Method::Put,
                "/configs?force=true".to_owned(),
                Some(running_config_object()),
            ),
            Command::UpdateGeo => (Method::Post, "/upgrade/geo".to_owned(), None),
            Command::FlushFakeIp => (Method::Post, "/cache/fakeip/flush".to_owned(), None),
            Command::FlushDns => (Method::Post, "/cache/dns/flush".to_owned(), None),
            Command::Restart => (
                Method::Post,
                "/restart".to_owned(),
                Some(running_config_object()),
            ),
        };
        Some(Call { method, path, body })
    }
}

/// Re-reading the kernel sends nothing, and every other command sends something.
pub proof fn only_refresh_sends_nothing(command: CommandView)
    ensures
        command.call() is None <==> command is Refresh,
{
}

/// A group is addressed by one segment below `/proxies/`, whatever its name holds.
pub proof fn a_group_is_one_path_segment(group: Seq<char>, node: Seq<char>)
    ensures
        (CommandView::Select { group, node }).call() matches Some(call) && {
            let segment = call.path.skip("/proxies/"@.len() as int);
            &&& call.path == "/proxies/"@ + segment
            &&& !segment.contains('/')
            &&& !segment.contains('?')
            &&& !segment.contains('#')
        },
{
    let segment = percent_encoded(encode_utf8(group));
    let path = "/proxies/"@ + segment;
    encoding_is_one_segment(encode_utf8(group));
    assert(path.skip("/proxies/"@.len() as int) =~= segment);
}

/// An object with one member says which key and which value it holds.
proof fn lemma_single_is_injective(key: Seq<char>, value: Json, other_key: Seq<char>, other: Json)
    requires
        single(key, value) == single(other_key, other),
        value !is Other,
        other !is Other,
    ensures
        key == other_key,
        value == other,
{
    let a = seq![':'] + value_text(value) + seq!['}'];
    let b = seq![':'] + value_text(other) + seq!['}'];
    assert(single(key, value).skip(1) =~= quoted(key) + a);
    assert(single(other_key, other).skip(1) =~= quoted(other_key) + b);
    quoting_is_reversible(key, other_key, a, b);
    reveal_strlit("true");
    reveal_strlit("false");
    assert(a[1] == value_text(value)[0]);
    assert(b[1] == value_text(other)[0]);
    assert("true"@[0] == 't' && "false"@[0] == 'f');
    match (value, other) {
        (Json::Text(text), Json::Text(other_text)) => {
            assert(a.skip(1) =~= quoted(text) + seq!['}']);
            assert(b.skip(1) =~= quoted(other_text) + seq!['}']);
            quoting_is_reversible(text, other_text, seq!['}'], seq!['}']);
        },
        _ => {},
    }
}

/// The controller can tell the commands apart: different commands make different calls.
pub proof fn different_commands_make_different_calls(a: CommandView, b: CommandView)
    requires
        a.call() == b.call(),
    ensures
        a == b,
{
    reveal_strlit("/configs");
    reveal_strlit("/proxies/");
    reveal_strlit("/rules/disable");
    reveal_strlit("/configs?force=true");
    reveal_strlit("/upgrade/geo");
    reveal_strlit("/cache/fakeip/flush");
    reveal_strlit("/cache/dns/flush");
    reveal_strlit("/restart");
    if a !is Refresh {
        let x = a.call()->0;
        let y = b.call()->0;
        assert("/configs"@[1] == 'c' && "/proxies/"@[1] == 'p' && "/rules/disable"@[1] == 'r');
        assert("/configs?force=true"@[1] == 'c' && "/upgrade/geo"@[1] == 'u');
        assert("/cache/fakeip/flush"@[1] == 'c' && "/cache/dns/flush"@[1] == 'c');
        assert("/restart"@[1] == 'r');
        assert("/cache/fakeip/flush"@.len() != "/cache/dns/flush"@.len());
        assert(x.path[1] == y.path[1]);
        match (a, b) {
            (CommandView::SetMode(mode), CommandView::SetMode(other)) => {
                lemma_single_is_injective(
                    "mode"@,
                    Json::Text(mode.wire_text()),
                    "mode"@,
                    Json::Text(other.wire_text()),
                );
                mode_names_are_distinct(mode, other);
            },
            (
                CommandView::Select { group, node },
                CommandView::Select { group: other_group, node: other_node },
            ) => {
                let n = "/proxies/"@.len() as int;
                assert(x.path.skip(n) =~= percent_encoded(encode_utf8(group)));
                assert(y.path.skip(n) =~= percent_encoded(encode_utf8(other_group)));
                encoding_is_injective(group, other_group);
                lemma_single_is_injective(
                    "name"@,
                    Json::Text(node),
                    "name"@,
                    Json::Text(other_node),
                );
            },
            (
                CommandView::SetRuleDisabled { index, disabled },
                CommandView::SetRuleDisabled { index: other_index, disabled: other },
            ) => {
                lemma_single_is_injective(
                    decimal_text(index as nat),
                    Json::Flag(disabled),
                    decimal_text(other_index as nat),
                    Json::Flag(other),
                );
                decimal_is_injective(index as nat, other_index as nat);
            },
            _ => {},
        }
    }
}

/// Where neither needs escaping, a key and its text stand in the body as they are.
pub proof fn a_plain_member_is_written_plainly(key: Seq<char>, text: Seq<char>)
    requires
        forall|i: int| 0 <= i < key.len() ==> needs_no_escape(#[trigger] key[i]),
        forall|i: int| 0 <= i < text.len() ==> needs_no_escape(#[trigger] text[i]),
    ensures
        single(key, Json::Text(text)) == "{\""@ + key + "\":\""@ + text + "\"}"@,
{
    reveal_strlit("{\"");
    reveal_strlit("\":\"");
    reveal_strlit("\"}");
    plain_text_is_quoted_unchanged(key);
    plain_text_is_quoted_unchanged(text);
    assert("{\""@ =~= seq!['{', '"']);
    assert("\":\""@ =~= seq!['"', ':', '"']);
    assert("\"}"@ =~= seq!['"', '}']);
    assert(single(key, Json::Text(text)) =~= "{\""@ + key + "\":\""@ + text + "\"}"@);
}

/// Reloading the configuration and restarting the kernel keep the configuration that it runs
/// with.
pub proof fn reload_and_restart_keep_the_configuration()
    ensures
        CommandView::ReloadConfig.call()->0.body == Some("{\"path\":\"\",\"payload\":\"\"}"@),
        CommandView::Restart.call()->0.body == Some("{\"path\":\"\",\"payload\":\"\"}"@),
{
    reveal_strlit("path");
    reveal_strlit("payload");
    reveal_strlit("{\"path\":\"\",\"payload\":\"\"}");
    plain_text_is_quoted_unchanged("path"@);
    plain_text_is_quoted_unchanged("payload"@);
    plain_text_is_quoted_unchanged(Seq::empty());
    let keys = seq!["path"@, "payload"@];
    assert(keys.drop_last() =~= seq!["path"@]);
    assert("path"@.len() != "payload"@.len());
    reveal_with_fuel(members_text, 3);
    assert(running_config() =~= "{\"path\":\"\",\"payload\":\"\"}"@);
}

/// The view of a command is the command, and that of a call the call.
pub proof fn commands_and_calls_are_seen_whole(command: Command, call: Call)
    ensures
        command is Refresh <==> command@ is Refresh,
        command is ReloadConfig <==> command@ is ReloadConfig,
        command is UpdateGeo <==> command@ is UpdateGeo,
        command is FlushFakeIp <==> command@ is FlushFakeIp,
        command is FlushDns <==> command@ is FlushDns,
        command is Restart <==> command@ is Restart,
        command matches Command::SetMode(mode) ==> command@ == CommandView::SetMode(mode),
        command matches Command::Select { group, node } ==> command@ == (CommandView::Select {
            group: group@,
            node: node@,
        }),
        command matches Command::SetRuleDisabled { index, disabled } ==> command@
            == (CommandView::SetRuleDisabled { index, disabled }),
        call@.method == call.method,
        call@.path == call.path@,
        call@.body is None <==> call.body is None,
        call.body matches Some(body) ==> call@.body == Some(body@),
{
}

/// Every method goes by its own name.
pub proof fn methods_go_by_their_names(method: Method)
    ensures
        method is Get ==> method.text() == "GET"@,
        method is Put ==> method.text() == "PUT"@,
        method is Post ==> method.text() == "POST"@,
        method is Patch ==> method.text() == "PATCH"@,
{
}

proof fn lemma_single_text(key: Seq<char>, text: Seq<char>)
    requires
        forall|i: int| 0 <= i < key.len() ==> needs_no_escape(#[trigger] key[i]),
    ensures
        single(key, Json::Text(text)) == seq!['{', '"'] + key + seq!['"', ':'] + (quoted(text)
            + seq!['}']),
{
    plain_text_is_quoted_unchanged(key);
    assert(single(key, Json::Text(text)) =~= seq!['{', '"'] + key + seq!['"', ':'] + (quoted(text)
        + seq!['}']));
}

/// Setting a mode patches the configuration with the mode's name in lower case.
pub proof fn set_mode_names_the_mode(mode: Mode)
    ensures
        CommandView::SetMode(mode).call() matches Some(call) && {
            &&& call.method is Patch
            &&& call.path == "/configs"@
            &&& call.body == Some(
                match mode {
                    Mode::Rule => "{\"mode\":\"rule\"}"@,
                    Mode::Direct => "{\"mode\":\"direct\"}"@,
                    Mode::Global => "{\"mode\":\"global\"}"@,
                },
            )
        },
{
    reveal_strlit("mode");
    reveal_strlit("rule");
    reveal_strlit("direct");
    reveal_strlit("global");
    reveal_strlit("{\"mode\":\"rule\"}");
    reveal_strlit("{\"mode\":\"direct\"}");
    reveal_strlit("{\"mode\":\"global\"}");
    lemma_single_text("mode"@, mode.wire_text());
    plain_text_is_quoted_unchanged(mode.wire_text());
    let body = single("mode"@, Json::Text(mode.wire_text()));
    assert(mode is Rule ==> body =~= "{\"mode\":\"rule\"}"@);
    assert(mode is Direct ==> body =~= "{\"mode\":\"direct\"}"@);
    assert(mode is Global ==> body =~= "{\"mode\":\"global\"}"@);
}

/// Selecting a node puts it to its group: whoever decodes the path finds the group, and whoever
/// reads the body as JSON finds an object whose only member, `name`, is the node.
pub proof fn select_names_group_and_node(group: Seq<char>, node: Seq<char>)
    ensures
        (CommandView::Select { group, node }).call() matches Some(call) && {
            &&& call.method is Put
            &&& "/proxies/"@.is_prefix_of(call.path)
            &&& percent_decoded(call.path.skip("/proxies/"@.len() as int)) == Some(
                encode_utf8(group),
            )
            &&& call.body matches Some(body) && "{\"name\":\""@.is_prefix_of(body)
                && read_string(body.skip("{\"name\":\""@.len() as int)) == Some((node, "}"@))
        },
{
    reveal_strlit("name");
    reveal_strlit("{\"name\":\"");
    reveal_strlit("}");
    let path = "/proxies/"@ + percent_encoded(encode_utf8(group));
    let n = "/proxies/"@.len() as int;
    assert(path.subrange(0, n) =~= "/proxies/"@);
    assert(path.skip(n) =~= percent_encoded(encode_utf8(group)));
    encoding_is_reversible(encode_utf8(group));
    lemma_single_text("name"@, node);
    a_quoted_text_is_read_back(node, seq!['}']);
    assert("}"@ =~= seq!['}']);
    let body = single("name"@, Json::Text(node));
    let m = "{\"name\":\""@.len() as int;
    assert(body =~= seq!['{', '"', 'n', 'a', 'm', 'e', '"', ':'] + (quoted(node) + seq!['}']));
    assert((quoted(node) + seq!['}'])[0] == '"');
    assert(body.subrange(0, m) =~= "{\"name\":\""@);
    assert(body.skip(m) =~= (quoted(node) + seq!['}']).skip(1));
}

/// Switching a rule sends its index, in decimal, and whether it is disabled.
pub proof fn switching_a_rule_names_index_and_state(index: u64, disabled: bool)
    ensures
        (CommandView::SetRuleDisabled { index, disabled }).call() matches Some(call) && {
            &&& call.method is Patch
            &&& call.path == "/rules/disable"@
            &&& call.body matches Some(body) && exists|digits: Seq<char>|
                decimal_value(digits) == index && digits.len() > 0 && (digits[0] == '0'
                    ==> digits.len() == 1) && (forall|i: int|
                    0 <= i < digits.len() ==> '0' <= #[trigger] digits[i] <= '9') && body
                    == #[trigger] ("{\""@ + digits) + (if disabled {
                    "\":true}"@
                } else {
                    "\":false}"@
                })
        },
{
    reveal_strlit("{\"");
    reveal_strlit("\":true}");
    reveal_strlit("\":false}");
    reveal_strlit("true");
    reveal_strlit("false");
    let digits = decimal_text(index as nat);
    decimal_digits_stand_for_the_number(index as nat);
    assert forall|i: int| 0 <= i < digits.len() implies needs_no_escape(#[trigger] digits[i]) by {
        assert('0' <= digits[i] <= '9');
    }
    plain_text_is_quoted_unchanged(digits);
    let body = single(digits, Json::Flag(disabled));
    let tail = if disabled {
        "\":true}"@
    } else {
        "\":false}"@
    };
    assert(body =~= ("{\""@ + digits) + tail);
}

/// The other commands call the endpoints that are named after them, with a body only where the
/// configuration is concerned.
pub proof fn kernel_options_call_their_endpoints(command: CommandView)
    ensures
        command is ReloadConfig ==> command.call() == Some(
            CallView {
                method: Method::Put,
                path: "/configs?force=true"@,
                body: Some("{\"path\":\"\",\"payload\":\"\"}"@),
            },
        ),
        command is UpdateGeo ==> command.call() == Some(
            CallView { method: Method::Post, path: "/upgrade/geo"@, body: None },
        ),
        command is FlushFakeIp ==> command.call() == Some(
            CallView { method: Method::Post, path: "/cache/fakeip/flush"@, body: None },
        ),
        command is FlushDns ==> command.call() == Some(
            CallView { method: Method::Post, path: "/cache/dns/flush"@, body: None },
        ),
        command is Restart ==> command.call() == Some(
            CallView {
                method: Method::Post,
                path: "/restart"@,
                body: Some("{\"path\":\"\",\"payload\":\"\"}"@),
            },
        ),
{
    reload_and_restart_keep_the_configuration();
}

} // verus!
