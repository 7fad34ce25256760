//! A small client for the mihomo RESTful controller.
//!
//! Only the endpoints the tray needs are implemented, see <https://wiki.metacubex.one/api/>.

use vstd::prelude::*;
use vstd::string::StrSliceExecFns;
use vstd::string::StringExecFns;
use vstd::utf8::encode_utf8;

use crate::command::{Call, CallView, Command, CommandView, Method};
use crate::error::{Error, HttpFailure, Status};
use crate::text::{
    begins_with, only_the_slashes_at_the_end_go, opt_text, trim_slashes, without_slashes,
};
use crate::wire::{built, finish, give_header, give_method, give_uri, new_builder, parts, Part};

verus! {

/// The controller runs next to us, so give up after this many seconds when it is not there.
pub const TIMEOUT: u64 = 3;

/// Client for the kernel's [external controller].
///
/// [external controller]: https://wiki.metacubex.one/config/general/#external-controller
pub struct Api {
    base: String,
    secret: Option<String>,
}

/// What an [`Api`] knows of the controller.
#[verifier::ext_equal]
pub struct ApiView {
    /// The URL that the paths of the calls are put behind.
    pub base: Seq<char>,
    pub secret: Option<Seq<char>>,
}

impl View for Api {
    type V = ApiView;

    closed spec fn view(&self) -> ApiView {
        ApiView { base: self.base@, secret: opt_text(self.secret) }
    }
}

/// Whether an address reads `host:port`.
pub open spec fn is_host_port(address: Seq<char>) -> bool {
    exists|colon: int| #[trigger] splits_host_port(address, colon)
}

/// `colon` is where an address falls into host and port.
pub open spec fn splits_host_port(address: Seq<char>, colon: int) -> bool {
    &&& 0 < colon < address.len() - 1
    &&& address[colon] == ':'
    &&& forall|i: int| 0 <= i < colon ==> #[trigger] address[i] != ':' && address[i] != '/'
    &&& forall|i: int| colon < i < address.len() ==> '0' <= #[trigger] address[i] <= '9'
}

/// Whether an address is taken as a full URL: it begins with `http` and is no `host:port`.
pub open spec fn is_url(address: Seq<char>) -> bool {
    "http"@.is_prefix_of(address) && !is_host_port(address)
}

/// Whether an address reads `host:port`.
fn host_port(address: &str) -> (found: bool)
    ensures
        found == is_host_port(address@),
{
    let length: usize = address.unicode_len();
    let mut colon: usize = 0;
    while colon < length && address.get_char(colon) != ':' && address.get_char(colon) != '/'
        invariant
            colon <= length == address@.len(),
            forall|i: int|
                0 <= i < colon ==> #[trigger] address@[i] != ':' && address@[i] != '/',
        decreases length - colon,
    {
        colon += 1;
    }
    if colon == 0 || length - colon < 2 || address.get_char(colon) != ':' {
        assert forall|other: int| !#[trigger] splits_host_port(address@, other) by {
            if splits_host_port(address@, other) {
                assert(address@[other] == ':');
                assert(other >= colon);
                assert(colon < other ==> address@[colon as int] != '/');
            }
        }
        return false;
    }
    let mut i: usize = colon + 1;
    while i < length
        invariant
            0 < colon < i <= length == address@.len(),
            address@[colon as int] == ':',
            forall|j: int|
                0 <= j < colon ==> #[trigger] address@[j] != ':' && address@[j] != '/',
            forall|j: int| colon < j < i ==> '0' <= #[trigger] address@[j] <= '9',
        decreases length - i,
    {
        let c: char = address.get_char(i);
        if c < '0' || '9' < c {
            assert forall|other: int| !#[trigger] splits_host_port(address@, other) by {
                if splits_host_port(address@, other) {
                    assert(address@[other] == ':');
                    assert(other >= colon);
                    assert(colon < other ==> address@[colon as int] != ':');
                    assert('0' <= address@[i as int] <= '9');
                }
            }
            return false;
        }
        i += 1;
    }
    assert(splits_host_port(address@, colon as int));
    true
}

/// The URL of the controller at `address`.
pub open spec fn base_url(address: Seq<char>) -> Seq<char> {
    if is_url(address) {
        without_slashes(address)
    } else {
        "http://"@ + address
    }
}

/// A request, before it is built: what is sent to which URL.
pub struct Outgoing {
    pub method: Method,
    pub uri: String,
    pub headers: Vec<(String, String)>,
    pub body: Vec<u8>,
}

/// What an [`Outgoing`] request says.
#[verifier::ext_equal]
pub struct OutgoingView {
    pub method: Method,
    pub uri: Seq<char>,
    pub headers: Seq<(Seq<char>, Seq<char>)>,
    pub body: Seq<u8>,
}

/// The views of a list of header lines.
pub open spec fn header_views(headers: Seq<(String, String)>) -> Seq<(Seq<char>, Seq<char>)> {
    headers.map_values(|header: (String, String)| (header.0@, header.1@))
}

impl View for Outgoing {
    type V = OutgoingView;

    open spec fn view(&self) -> OutgoingView {
        OutgoingView {
            method: self.method,
            uri: self.uri@,
            headers: header_views(self.headers@),
            body: self.body@,
        }
    }
}

impl OutgoingView {
    /// What the builder of the request is given: method, URI, then the header lines.
    pub open spec fn parts(self) -> Seq<Part> {
        seq![Part::Method(self.method.text()), Part::Uri(self.uri)] + self.headers.map_values(
            |header: (Seq<char>, Seq<char>)| Part::Header(header.0, header.1),
        )
    }
}

/// The header lines of a call: the secret where there is one, and the type of the body where
/// there is a body.
pub open spec fn header_lines(secret: Option<Seq<char>>, body: Option<Seq<char>>) -> Seq<
    (Seq<char>, Seq<char>),
> {
    let authorization = match secret {
        Some(secret) => seq![("authorization"@, "Bearer "@ + secret)],
        None => Seq::empty(),
    };
    let content_type = match body {
        Some(_) => seq![("content-type"@, "application/json"@)],
        None => Seq::empty(),
    };
    authorization + content_type
}

impl ApiView {
    /// The request that makes a call.
    pub open spec fn request(self, call: CallView) -> OutgoingView {
        OutgoingView {
            method: call.method,
            uri: self.base + call.path,
            headers: header_lines(self.secret, call.body),
            body: match call.body {
                Some(body) => encode_utf8(body),
                None => Seq::empty(),
            },
        }
    }
}

/// `result` is what comes of building the request: the request, or why it could not be built.
pub open spec fn is_built(
    request: OutgoingView,
    result: Result<http::Request<Vec<u8>>, Error>,
) -> bool {
    match result {
        Ok(ready) => built(request.parts(), request.body) == Ok::<_, Seq<char>>(ready),
        Err(error) => error is Transport && built(request.parts(), request.body) == Err::<
            http::Request<Vec<u8>>,
            _,
        >(error.text()),
    }
}

/// Keep a request that could be built, and the message of one that could not.
pub fn settle(result: Result<http::Request<Vec<u8>>, String>) -> (settled: Result<
    http::Request<Vec<u8>>,
    Error,
>)
    ensures
        (match result {
            Ok(request) => settled == Ok::<_, Error>(request),
            Err(message) => settled == Err::<http::Request<Vec<u8>>, _>(Error::Transport(message)),
        }),
{
    match result {
        Ok(request) => Ok(request),
        Err(message) => Err(Error::Transport(message)),
    }
}

impl Outgoing {
    /// Build the request.
    pub fn build(self) -> (result: Result<http::Request<Vec<u8>>, Error>)
        ensures
            is_built(self@, result),
            (match result {
                Ok(ready) => built(self@.parts(), self.body@) == Ok::<_, Seq<char>>(ready),
                Err(Error::Transport(message)) => built(self@.parts(), self.body@) == Err::<
                    http::Request<Vec<u8>>,
                    _,
                >(message@),
                Err(_) => false,
            }),
    {
        let ghost wanted = self@.parts();
        let mut builder = give_uri(
            give_method(new_builder(), self.method.name()),
            self.uri.as_str(),
        );
        let mut i: usize = 0;
        while i < self.headers.len()
            invariant
                i <= self.headers@.len(),
                wanted == self@.parts(),
                wanted.len() == 2 + self.headers@.len(),
                parts(builder) == wanted.take(2 + i),
            decreases self.headers@.len() - i,
        {
            let header = &self.headers[i];
            builder = give_header(builder, header.0.as_str(), header.1.as_str());
            assert(parts(builder) =~= wanted.take(3 + i));
            i += 1;
        }
        assert(wanted.take(2 + i) =~= wanted);
        settle(finish(builder, self.body))
    }
}

/// What came of sending a request.
pub enum Outcome {
    /// The kernel answered, with this status.
    Answered(Status),
    /// The request could not be sent, or the answer could not be read.
    Failed(HttpFailure),
    /// The kernel did not answer within [`TIMEOUT`].
    TimedOut,
}

/// What an outcome comes to: only an answer with a success status is one.
pub open spec fn verdict(outcome: Outcome) -> Result<(), Error> {
    match outcome {
        Outcome::Answered(status) => if 200 <= status.code() < 300 {
            Ok(())
        } else {
            Err(Error::Status(status))
        },
        Outcome::Failed(failure) => Err(Error::Transport(failure.message())),
        Outcome::TimedOut => Err(Error::Timeout(TIMEOUT)),
    }
}

impl Api {
    /// Talk to `address`, either `host:port` or a full `http://` URL.
    pub fn new(address: &str, secret: Option<String>) -> (api: Self)
        ensures
            api@.base == base_url(address@),
            api@.secret == opt_text(secret),
            secret matches Some(text) ==> api@.secret == Some(text@),
            secret is None ==> api@.secret is None,
    {
        let base: String = if begins_with(address, "http") && !host_port(address) {
            trim_slashes(address)
        } else {
            let mut base = "http://".to_owned();
            base.append(address);
            base
        };
        Api { base, secret }
    }

    /// The request that makes `call`.
    pub fn request(&self, call: Call) -> (request: Outgoing)
        ensures
            request@ == self@.request(call@),
            request.method == call.method,
            request.uri@ == self@.base + call.path@,
            call.body matches Some(body) ==> request.body@ == encode_utf8(body@),
            call.body is None ==> request.body@.len() == 0,
    {
        let ghost called = call@;
        let mut uri = self.base.clone();
        uri.append(call.path.as_str());
        let mut headers: Vec<(String, String)> = Vec::new();
        if let Some(secret) = &self.secret {
            let mut bearer = "Bearer ".to_owned();
            bearer.append(secret.as_str());
            headers.push(("authorization".to_owned(), bearer));
        }
        let body: Vec<u8> = match call.body {
            Some(body) => {
                headers.push(("content-type".to_owned(), "application/json".to_owned()));
                body.as_str().as_bytes_vec()
            },
            None => Vec::new(),
        };
        assert(header_views(headers@) =~= header_lines(self@.secret, called.body));
        Outgoing { method: call.method, uri, headers, body }
    }

    /// The request that sends `body` to `path`.
    pub fn send(&self, method: Method, path: &str, body: Option<String>) -> (result: Result<
        http::Request<Vec<u8>>,
        Error,
    >)
        ensures
            is_built(
                self@.request(CallView { method, path: path@, body: opt_text(body) }),
                result,
            ),
    {
        self.request(Call { method, path: path.to_owned(), body }).build()
    }

    /// The request that reads the JSON document at `path`.
    pub fn get(&self, path: &str) -> (result: Result<http::Request<Vec<u8>>, Error>)
        ensures
            is_built(
                self@.request(CallView { method: Method::Get, path: path@, body: None }),
                result,
            ),
    {
        self.send(Method::Get, path, None)
    }

    /// The request that carries out a command picked from the menu, where there is anything to
    /// send.
    pub fn run(&self, command: Command) -> (result: Result<Option<http::Request<Vec<u8>>>, Error>)
        ensures
            (match command@.call() {
                None => result == Ok::<_, Error>(None::<http::Request<Vec<u8>>>),
                Some(call) => match result {
                    Ok(Some(request)) => is_built(self@.request(call), Ok(request)),
                    Ok(None) => false,
                    Err(error) => is_built(self@.request(call), Err(error)),
                },
            }),
    {
        match command.call() {
            None => Ok(None),
            Some(call) => match self.request(call).build() {
                Ok(request) => Ok(Some(request)),
                Err(error) => Err(error),
            },
        }
    }

    /// Judge what came of a request: only an answer with a success status is one.
    pub fn judge(outcome: Outcome) -> (result: Result<(), Error>)
        ensures
            result == verdict(outcome),
            (match outcome {
                Outcome::Answered(status) => if 200 <= status.code() < 300 {
                    result == Ok::<(), Error>(())
                } else {
                    result == Err::<(), _>(Error::Status(status))
                },
                Outcome::Failed(failure) => result == Err::<(), _>(
                    Error::Transport(failure.message()),
                ),
                Outcome::TimedOut => result == Err::<(), _>(Error::Timeout(TIMEOUT)),
            }),
    {
        match outcome {
            Outcome::Answered(status) => if status.is_success() {
                Ok(())
            } else {
                Err(Error::Status(status))
            },
            Outcome::Failed(failure) => Err(Error::from(failure)),
            Outcome::TimedOut => Err(Error::Timeout(TIMEOUT)),
        }
    }
}

/// `host:port` and `http://host:port` are the same controller.
pub proof fn both_forms_of_an_address_agree(address: Seq<char>)
    requires
        is_host_port(address),
    ensures
        base_url("http://"@ + address) == base_url(address),
        base_url(address) == "http://"@ + address,
{
    reveal_strlit("http");
    reveal_strlit("http://");
    let url = "http://"@ + address;
    assert(url.subrange(0, 4) =~= "http"@);
    assert forall|colon: int| !#[trigger] splits_host_port(url, colon) by {
        assert(url[4] == ':' && url[5] == '/');
    }
    let colon = choose|colon: int| #[trigger] splits_host_port(address, colon);
    assert(address[address.len() - 1] != '/');
    assert(url.last() == address[address.len() - 1]);
}

/// The secret is sent as a bearer token with every call exactly where there is one, and a call
/// that has a body says that it is JSON.
pub proof fn headers_tell_secret_and_body(api: ApiView, call: CallView)
    ensures
        api.request(call).headers.len() == (if api.secret is Some { 1int } else { 0 }) + (
        if call.body is Some { 1int } else { 0 }),
        api.secret matches Some(secret) ==> api.request(call).headers.contains(
            ("authorization"@, "Bearer "@ + secret),
        ),
        call.body is Some ==> api.request(call).headers.contains(
            ("content-type"@, "application/json"@),
        ),
{
    let headers = api.request(call).headers;
    if let Some(secret) = api.secret {
        assert(headers[0] == ("authorization"@, "Bearer "@ + secret));
    }
    if call.body is Some {
        assert(headers.last() == ("content-type"@, "application/json"@));
    }
}

proof fn lemma_without_slashes(text: Seq<char>)
    ensures
        without_slashes(text).is_prefix_of(text),
        without_slashes(text).len() > 0 ==> without_slashes(text).last() != '/',
    decreases text.len(),
{
    if text.len() > 0 && text.last() == '/' {
        let front = text.drop_last();
        lemma_without_slashes(front);
        let kept = without_slashes(front);
        assert(text.subrange(0, kept.len() as int) =~= front.subrange(0, kept.len() as int));
    } else {
        assert(text.subrange(0, text.len() as int) =~= text);
    }
}

/// Base and path meet at one slash: neither form of an address leaves a slash at the end of the
/// base, and the path of every command begins with one.
pub proof fn base_and_path_meet_at_one_slash(address: Seq<char>, command: CommandView)
    requires
        is_url(address) || is_host_port(address),
    ensures
        base_url(address).len() > 0 ==> base_url(address).last() != '/',
        command.call() matches Some(call) ==> call.path.len() > 0 && call.path[0] == '/',
{
    if is_host_port(address) {
        let colon = choose|colon: int| #[trigger] splits_host_port(address, colon);
        assert(address[address.len() - 1] != '/');
        assert(base_url(address).last() == address[address.len() - 1]);
    } else {
        lemma_without_slashes(address);
    }
    reveal_strlit("/configs");
    reveal_strlit("/proxies/");
    reveal_strlit("/rules/disable");
    reveal_strlit("/configs?force=true");
    reveal_strlit("/upgrade/geo");
    reveal_strlit("/cache/fakeip/flush");
    reveal_strlit("/cache/dns/flush");
    reveal_strlit("/restart");
}

/// An address that does not begin with `http` is put behind `http://`.
pub proof fn a_bare_address_becomes_a_url(address: Seq<char>)
    requires
        !"http"@.is_prefix_of(address),
    ensures
        base_url(address) == "http://"@ + address,
{
}

/// So is every `host:port`, whatever the host is called.
pub proof fn host_and_port_become_a_url(address: Seq<char>, colon: int)
    requires
        0 < colon < address.len() - 1,
        address[colon] == ':',
        forall|i: int| 0 <= i < colon ==> #[trigger] address[i] != ':' && address[i] != '/',
        forall|i: int| colon < i < address.len() ==> '0' <= #[trigger] address[i] <= '9',
    ensures
        base_url(address) == "http://"@ + address,
        base_url("http://"@ + address) == "http://"@ + address,
{
    assert(splits_host_port(address, colon));
    both_forms_of_an_address_agree(address);
}

/// A full URL only loses the slashes at its end. One is full where it begins with `http` and its
/// first colon is not followed by a port alone.
pub proof fn a_full_url_only_loses_its_last_slashes(address: Seq<char>)
    requires
        "http"@.is_prefix_of(address),
        forall|colon: int|
            0 < colon < address.len() - 1 && #[trigger] address[colon] == ':' ==> !(forall|i: int|
                0 <= i < colon ==> #[trigger] address[i] != ':' && address[i] != '/') || !(forall|
                i: int,
            |
                colon < i < address.len() ==> '0' <= #[trigger] address[i] <= '9'),
    ensures
        base_url(address).is_prefix_of(address),
        forall|i: int| base_url(address).len() <= i < address.len() ==> #[trigger] address[i] == '/',
        base_url(address).len() > 0 ==> base_url(address).last() != '/',
{
    assert forall|colon: int| !#[trigger] splits_host_port(address, colon) by {
        if splits_host_port(address, colon) {
            assert(address[colon] == ':');
        }
    }
    only_the_slashes_at_the_end_go(address);
}

/// A request carries its call: its method, the base with the path behind it, and the whole body
/// in UTF-8, so that decoding gives the body back.
pub proof fn a_request_carries_its_call(api: ApiView, call: CallView)
    ensures
        api.request(call).method == call.method,
        api.request(call).uri == api.base + call.path,
        call.body matches Some(body) ==> api.request(call).body == encode_utf8(body)
            && vstd::utf8::decode_utf8(api.request(call).body) == body,
        call.body is None ==> api.request(call).body.len() == 0,
{
    if let Some(body) = call.body {
        vstd::utf8::encode_utf8_decode_utf8(body);
    }
}

/// The secret comes first among the header lines, and nothing else is among them but the type of
/// the body.
pub proof fn header_lines_are_secret_then_type(
    secret: Option<Seq<char>>,
    body: Option<Seq<char>>,
)
    ensures
        secret is None && body is None ==> header_lines(secret, body).len() == 0,
        secret matches Some(token) ==> header_lines(secret, body)[0] == (
            "authorization"@,
            "Bearer "@ + token,
        ),
        body is Some ==> header_lines(secret, body).last() == (
            "content-type"@,
            "application/json"@,
        ),
        header_lines(secret, body).len() == (if secret is Some {
            1int
        } else {
            0
        }) + (if body is Some {
            1int
        } else {
            0
        }),
{
}

/// The builder of a request is given its method by name, its URI, and every header line in order.
pub proof fn the_builder_is_given_the_whole_request(request: OutgoingView, i: int)
    requires
        0 <= i < request.headers.len(),
    ensures
        request.parts().len() == 2 + request.headers.len(),
        request.parts()[2 + i] == Part::Header(request.headers[i].0, request.headers[i].1),
{
}

/// The builder of a request is given its method by name and its URI, and as many header lines as
/// the request has.
pub proof fn the_builder_is_given_method_and_uri(request: OutgoingView)
    ensures
        request.parts().len() == 2 + request.headers.len(),
        request.parts()[0] == Part::Method(request.method.text()),
        request.parts()[1] == Part::Uri(request.uri),
{
}

/// Building hands on what the builder makes of the request, be that a request or a message.
pub proof fn building_hands_on_what_the_builder_makes(
    request: OutgoingView,
    result: Result<http::Request<Vec<u8>>, Error>,
)
    ensures
        is_built(request, result) <==> match result {
            Ok(ready) => built(request.parts(), request.body) == Ok::<_, Seq<char>>(ready),
            Err(Error::Transport(message)) => built(request.parts(), request.body) == Err::<
                http::Request<Vec<u8>>,
                _,
            >(message@),
            Err(_) => false,
        },
{
}

/// The view of a request is the request.
pub proof fn a_request_is_seen_whole(request: Outgoing)
    ensures
        request@.method == request.method,
        request@.uri == request.uri@,
        request@.body == request.body@,
        request@.headers.len() == request.headers@.len(),
        forall|i: int|
            0 <= i < request.headers@.len() ==> #[trigger] request@.headers[i] == (
                request.headers@[i].0@,
                request.headers@[i].1@,
            ),
{
}

/// A request went through exactly where the kernel answered with a status from 200 to 299; any
/// other status, a failure and silence are each reported as what they are.
pub proof fn only_a_success_status_is_a_success(outcome: Outcome)
    ensures
        match outcome {
            Outcome::Answered(status) => if status.code() < 200 || status.code() > 299 {
                verdict(outcome) == Err::<(), Error>(Error::Status(status))
            } else {
                verdict(outcome) is Ok
            },
            Outcome::Failed(failure) => verdict(outcome) == Err::<(), Error>(
                Error::Transport(failure.message()),
            ),
            Outcome::TimedOut => verdict(outcome) == Err::<(), Error>(Error::Timeout(3)),
        },
{
}

} // verus!
