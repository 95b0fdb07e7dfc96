//! The wire format of one submission and the classification of how an
//! attempt to send it ended.

use vstd::prelude::*;
use vstd::string::*;
use vstd::utf8::encode_utf8;

verus! {

/// The content type of every submission.
pub const CONTENT_TYPE: &'static str = "application/x-www-form-urlencoded";

/// What the body of a submission begins with: the form key and the equals
/// sign. The encoded sample follows.
pub const BODY_PREFIX: &'static str = "users=";

/// One `POST` request, ready to be sent. Sending is the caller's part.
#[derive(Debug, Clone, PartialEq, Eq)]
pub struct PostRequest {
    /// Where to send it.
    pub url: String,
    /// The value of the `Content-Type` header.
    pub content_type: &'static str,
    /// The body.
    pub body: String,
    /// The upper bound, in seconds, on the time from sending the request to
    /// having the response.
    pub timeout: u64,
}

/// A request as a mathematical value.
pub struct PostRequestView {
    pub url: Seq<char>,
    pub content_type: Seq<char>,
    pub body: Seq<char>,
    pub timeout: u64,
}

impl View for PostRequest {
    type V = PostRequestView;

    open spec fn view(&self) -> PostRequestView {
        PostRequestView {
            url: self.url@,
            content_type: self.content_type@,
            body: self.body@,
            timeout: self.timeout,
        }
    }
}

/// Why an attempt got no HTTP response.
#[derive(Debug, Clone, Copy, PartialEq, Eq, Structural)]
pub enum TransportError {
    /// No response came within the timeout.
    Timeout,
    /// The collector could not be reached, or the connection broke.
    Connection,
}

/// The response to one attempt, as far as the agent looks at it.
#[derive(Debug, Clone, PartialEq, Eq)]
pub struct HttpReply {
    /// The status code.
    pub status: u16,
    /// The text of the body: empty where it was not read or could not be
    /// read.
    pub body: String,
}

/// How one attempt to deliver a sample ended.
#[derive(Debug, Clone, PartialEq, Eq)]
pub enum DeliveryOutcome {
    /// The collector took the sample and answered with this status.
    Success(u16),
    /// The network failed. Another attempt may succeed.
    TransientFailure(TransportError),
    /// The collector refused the sample with this status and this body.
    /// Another attempt would fare no better.
    PermanentFailure { status: u16, body: String },
}

/// Whether an HTTP status code lies in the success class, 200 to 299.
pub open spec fn status_is_success(status: u16) -> bool {
    200 <= status < 300
}

/// Whether `urlencoding::encode` leaves the byte `b` as it is: the ASCII
/// letters and digits, and the four marks `-`, `.`, `_` and `~`.
pub open spec fn is_unreserved(b: u8) -> bool {
    ||| '0' as u8 <= b <= '9' as u8
    ||| 'A' as u8 <= b <= 'Z' as u8
    ||| 'a' as u8 <= b <= 'z' as u8
    ||| b == '-' as u8
    ||| b == '.' as u8
    ||| b == '_' as u8
    ||| b == '~' as u8
}

/// The hexadecimal digit of the value `d`, a letter in upper case.
pub open spec fn hex_digit(d: int) -> char
    recommends
        0 <= d < 16,
{
    if d < 10 {
        ('0' as int + d) as char
    } else {
        ('A' as int + d - 10) as char
    }
}

/// What stands for the byte `b` in percent-encoded text: `b` itself where it
/// is unreserved, else a percent sign and its two hexadecimal digits.
pub open spec fn percent_encoded_byte(b: u8) -> Seq<char> {
    if is_unreserved(b) {
        seq![b as char]
    } else {
        seq!['%', hex_digit(b as int / 16), hex_digit(b as int % 16)]
    }
}

/// The percent-encoding of `bytes`: that of each byte, in order.
pub open spec fn percent_encoded(bytes: Seq<u8>) -> Seq<char> {
    bytes.map_values(|b: u8| percent_encoded_byte(b)).flatten()
}

/// The body that carries the sample `user_list`: the prefix, then the
/// percent-encoding of the sample's UTF-8 bytes.
pub open spec fn form_body(user_list: Seq<char>) -> Seq<char> {
    BODY_PREFIX@ + percent_encoded(encode_utf8(user_list))
}

/// The request that submits the sample `user_list` to `url`: a form post
/// whose body carries the sample.
pub open spec fn request_for(url: Seq<char>, user_list: Seq<char>, timeout: u64)
    -> PostRequestView {
    PostRequestView {
        url,
        content_type: CONTENT_TYPE@,
        body: form_body(user_list),
        timeout,
    }
}

/// The body text that the agent goes by: what was read, or nothing.
pub open spec fn body_text(body: Option<String>) -> Seq<char> {
    match body {
        Some(text) => text@,
        None => Seq::empty(),
    }
}

/// How an attempt ended, from what came back: a response with a success
/// status is a success, any other response a permanent failure, and no
/// response a transient failure.
pub open spec fn outcome_of(attempt: Result<HttpReply, TransportError>) -> DeliveryOutcome {
    match attempt {
        Ok(reply) => if status_is_success(reply.status) {
            DeliveryOutcome::Success(reply.status)
        } else {
            DeliveryOutcome::PermanentFailure { status: reply.status, body: reply.body }
        },
        Err(cause) => DeliveryOutcome::TransientFailure(cause),
    }
}

/// Whether `c` can occur in percent-encoded text: the percent sign and the
/// unreserved characters. The marks that structure a form, `&`, `=` and `+`,
/// are not among them, nor is the comma.
pub open spec fn is_encoded_char(c: char) -> bool {
    c == '%' || (c as int) < 128 && is_unreserved(c as u8)
}

/// The marks that structure a form, the comma and the space do not occur in
/// percent-encoded text as themselves.
pub proof fn lemma_marks_are_encoded()
    ensures
        !is_encoded_char('&'),
        !is_encoded_char('='),
        !is_encoded_char('+'),
        !is_encoded_char(','),
        !is_encoded_char(' '),
{
}

/// Percent-encoded text holds nothing but the percent sign and unreserved
/// characters.
pub proof fn lemma_percent_encoded_is_plain(bytes: Seq<u8>)
    ensures
        forall|i: int|
            0 <= i < percent_encoded(bytes).len() ==> is_encoded_char(
                #[trigger] percent_encoded(bytes)[i],
            ),
    decreases bytes.len(),
{
    let each = |b: u8| percent_encoded_byte(b);
    if bytes.len() > 0 {
        let rest = bytes.drop_first();
        lemma_percent_encoded_is_plain(rest);
        assert(bytes.map_values(each).drop_first() =~= rest.map_values(each));
        let head = percent_encoded_byte(bytes[0]);
        assert(percent_encoded(bytes) == head + percent_encoded(rest));
        assert forall|k: int| 0 <= k < head.len() implies is_encoded_char(#[trigger] head[k]) by {
            lemma_hex_digit_is_plain(bytes[0] as int / 16);
            lemma_hex_digit_is_plain(bytes[0] as int % 16);
        }
        assert forall|i: int| 0 <= i < percent_encoded(bytes).len() implies is_encoded_char(
            #[trigger] percent_encoded(bytes)[i],
        ) by {
            if i >= head.len() {
                assert(percent_encoded(bytes)[i] == percent_encoded(rest)[i - head.len()]);
            } else {
                assert(percent_encoded(bytes)[i] == head[i]);
            }
        }
    }
}

/// A hexadecimal digit is an ASCII digit or one of the letters `A` to `F`.
pub proof fn lemma_hex_digit_is_plain(d: int)
    requires
        0 <= d < 16,
    ensures
        is_encoded_char(hex_digit(d)),
        hex_digit(d) != '%',
{
}

/// What follows the prefix in a body is percent-encoded text: the body is
/// one form field, whatever the sample holds.
pub proof fn lemma_body_is_one_field(user_list: Seq<char>)
    ensures
        form_body(user_list).len() >= BODY_PREFIX@.len(),
        form_body(user_list).take(BODY_PREFIX@.len() as int) == BODY_PREFIX@,
        forall|i: int|
            BODY_PREFIX@.len() <= i < form_body(user_list).len() ==> is_encoded_char(
                #[trigger] form_body(user_list)[i],
            ),
{
    let encoded = percent_encoded(encode_utf8(user_list));
    lemma_percent_encoded_is_plain(encode_utf8(user_list));
    assert(form_body(user_list).take(BODY_PREFIX@.len() as int) =~= BODY_PREFIX@);
    assert forall|i: int| BODY_PREFIX@.len() <= i < form_body(user_list).len() implies
        is_encoded_char(#[trigger] form_body(user_list)[i]) by {
        assert(form_body(user_list)[i] == encoded[i - BODY_PREFIX@.len()]);
    }
}

/// An empty sample is carried by a body that holds the prefix alone.
pub proof fn lemma_body_of_empty_sample()
    ensures
        form_body(Seq::empty()) == BODY_PREFIX@,
{
    let no_bytes = encode_utf8(Seq::<char>::empty());
    assert(no_bytes.map_values(|b: u8| percent_encoded_byte(b)) =~= Seq::<Seq<char>>::empty());
    assert(BODY_PREFIX@ + Seq::<char>::empty() =~= BODY_PREFIX@);
}

/// Calls `urlencoding::encode` on `data` and returns the result as an owned
/// string. The contract restates that function's documentation: every byte of
/// `data` is percent-encoded except the ASCII letters and digits and `-`, `.`,
/// `_` and `~`; the source shows that the two digits are written in upper
/// case. This is believed, not proved.
#[verifier::external_body]
fn url_encode(data: &str) -> (encoded: String)
    ensures
        encoded@ == percent_encoded(encode_utf8(data@)),
{
    urlencoding::encode(data).into_owned()
}

/// Tells whether the collector accepted a submission, judged by the status
/// code of its response alone.
pub fn is_success(status: u16) -> (accepted: bool)
    ensures
        accepted == status_is_success(status),
{
    200 <= status && status < 300
}

/// Tells whether the body of a response with this status is looked at: that
/// of a refusal is, that of a success is not.
pub fn wants_body(status: u16) -> (wanted: bool)
    ensures
        wanted == !status_is_success(status),
{
    !is_success(status)
}

/// Builds the body of a submission from the sample.
pub fn encode_form_body(user_list: &str) -> (body: String)
    ensures
        body@ == form_body(user_list@),
{
    let mut body = String::from_str(BODY_PREFIX);
    let encoded = url_encode(user_list);
    body.append(encoded.as_str());
    body
}

/// Builds the request that submits the sample `user_list` to `url`. An empty
/// sample is submitted like any other.
pub fn post_request(url: &str, user_list: &str, timeout: u64) -> (request: PostRequest)
    ensures
        request@ == request_for(url@, user_list@, timeout),
{
    PostRequest {
        url: url.to_owned(),
        content_type: CONTENT_TYPE,
        body: encode_form_body(user_list),
        timeout,
    }
}

impl HttpReply {
    /// Makes a reply from the status of a response and the text of its body.
    /// `body` is `None` where the body was not read or could not be read; the
    /// reply then has an empty body.
    pub fn new(status: u16, body: Option<String>) -> (reply: HttpReply)
        ensures
            reply.status == status,
            reply.body@ == body_text(body),
    {
        let text = match body {
            Some(text) => text,
            None => String::new(),
        };
        HttpReply { status, body: text }
    }
}

/// Classifies the end of one attempt.
pub fn classify(attempt: Result<HttpReply, TransportError>) -> (outcome: DeliveryOutcome)
    ensures
        outcome == outcome_of(attempt),
{
    match attempt {
        Ok(reply) => {
            if is_success(reply.status) {
                DeliveryOutcome::Success(reply.status)
            } else {
                DeliveryOutcome::PermanentFailure { status: reply.status, body: reply.body }
            }
        },
        Err(cause) => DeliveryOutcome::TransientFailure(cause),
    }
}

} // verus!
