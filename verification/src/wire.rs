//! HTTP requests and statuses, as the `http` crate builds and describes them.

use vstd::prelude::*;

use crate::text::decimal_text;

verus! {

/// Something that a request builder was given.
pub enum Part {
    Method(Seq<char>),
    Uri(Seq<char>),
    Header(Seq<char>, Seq<char>),
}

/// `http::request::Builder`, which collects the parts of a request.
#[verifier::external_type_specification]
#[verifier::external_body]
pub struct ExBuilder(http::request::Builder);

/// `http::Request`, a request that is ready to be sent.
#[verifier::external_type_specification]
#[verifier::external_body]
#[verifier::reject_recursive_types(T)]
pub struct ExRequest<T>(http::Request<T>);

/// The parts that a builder was given, in the order of the calls.
pub uninterp spec fn parts(builder: http::request::Builder) -> Seq<Part>;

/// What comes of a builder that was given these parts and this body: a request, or the message
/// that says why there is none.
pub uninterp spec fn built(parts: Seq<Part>, body: Seq<u8>) -> Result<
    http::Request<Vec<u8>>,
    Seq<char>,
>;

/// `http::Request::builder` makes a builder that was given nothing yet.
#[verifier::external_body]
pub(crate) fn new_builder() -> (builder: http::request::Builder)
    ensures
        parts(builder) == Seq::<Part>::empty(),
{
    http::Request::builder()
}

/// `http::request::Builder::method` gives the builder a method. A method that is not one is
/// reported when the request is finished.
#[verifier::external_body]
pub(crate) fn give_method(builder: http::request::Builder, method: &str) -> (given:
    http::request::Builder)
    ensures
        parts(given) == parts(builder).push(Part::Method(method@)),
{
    builder.method(method)
}

/// `http::request::Builder::uri` gives the builder a URI. One that cannot be parsed is reported
/// when the request is finished.
#[verifier::external_body]
pub(crate) fn give_uri(builder: http::request::Builder, uri: &str) -> (given:
    http::request::Builder)
    ensures
        parts(given) == parts(builder).push(Part::Uri(uri@)),
{
    builder.uri(uri)
}

/// `http::request::Builder::header` gives the builder a header line. A name or a value that HTTP
/// does not allow is reported when the request is finished.
#[verifier::external_body]
pub(crate) fn give_header(builder: http::request::Builder, name: &str, value: &str) -> (given:
    http::request::Builder)
    ensures
        parts(given) == parts(builder).push(Part::Header(name@, value@)),
{
    builder.header(name, value)
}

/// `http::request::Builder::body` finishes a request. Whether there is one, and which, follows
/// from the parts that the builder was given and from the body; where there is none the error is
/// handed on as its message.
#[verifier::external_body]
pub(crate) fn finish(builder: http::request::Builder, body: Vec<u8>) -> (result: Result<
    http::Request<Vec<u8>>,
    String,
>)
    ensures
        (match result {
            Ok(request) => built(parts(builder), body@) == Ok::<_, Seq<char>>(request),
            Err(message) => built(parts(builder), body@) == Err::<http::Request<Vec<u8>>, _>(message@),
        }),
{
    builder.body(body).map_err(|error| error.to_string())
}

/// How `http::StatusCode` displays the status of this number.
pub uninterp spec fn status_text(code: u16) -> Seq<char>;

/// `http::StatusCode::from_u16` takes the numbers from 100 to 999, and `http::StatusCode` displays
/// as its number, a blank and its reason phrase. Which phrase goes with which number is left to
/// the name.
#[verifier::external_body]
pub(crate) fn describe_status(code: u16) -> (text: String)
    requires
        100 <= code <= 999,
    ensures
        text@ == status_text(code),
        decimal_text(code as nat).push(' ').is_prefix_of(text@),
{
    http::StatusCode::from_u16(code).unwrap().to_string()
}

} // verus!
