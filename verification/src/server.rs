//! The admin UI's request handling: which session a request carries, what
//! a mutation must show before it reaches the broker, and what each
//! outcome is answered with.

use vstd::prelude::*;

use crate::dto::ResourceOutcome;
use crate::error::UiError;
use crate::permissions::Capabilities;
use crate::session::{CsrfToken, SessionRecord};
use crate::text::{
    ascii_lowercase, chars_of, find_char, first_index_of, int_text, pieces, pieces_view, push_int_text,
    push_str, slice_chars, split_chars, str_equal, string_from_chars, to_ascii_lowercase, trim, trim_chars,
};
use crate::views::forms::{MutationKind, CSRF_FIELD_NAME};
use crate::views::{LoginRouteState, OperatorView, ReadRouteState, RoutePage};

verus! {

/// The cookie that carries the session id.
pub const SESSION_COOKIE_NAME: &'static str = "krabka_admin_session";

/// The header a JSON mutation carries its CSRF token in.
///
/// A browser cannot set this header on a cross-origin request without a
/// preflight that this server never answers, and a page on another origin
/// cannot read the token, so only the UI itself can send it.
pub const CSRF_HEADER_NAME: &'static str = "x-krabka-csrf";

pub const STATUS_OK: u16 = 200;
pub const STATUS_BAD_REQUEST: u16 = 400;
pub const STATUS_UNAUTHORIZED: u16 = 401;
pub const STATUS_FORBIDDEN: u16 = 403;
pub const STATUS_PAYLOAD_TOO_LARGE: u16 = 413;
pub const STATUS_UNSUPPORTED_MEDIA_TYPE: u16 = 415;
pub const STATUS_INTERNAL_SERVER_ERROR: u16 = 500;
pub const STATUS_BAD_GATEWAY: u16 = 502;
pub const STATUS_SERVICE_UNAVAILABLE: u16 = 503;

/// A plain-text answer to a request: its status and its body.
pub struct Reply {
    pub status: u16,
    pub body: String,
}

/// The session id that a `Cookie` header piece carries, if the piece is the
/// session cookie.
pub open spec fn cookie_value(piece: Seq<char>) -> Option<Seq<char>> {
    let t = trim(piece);
    match first_index_of(t, '=') {
        Some(i) => if t.subrange(0, i) == SESSION_COOKIE_NAME@ {
            Some(t.subrange(i + 1, t.len() as int))
        } else {
            None
        },
        None => None,
    }
}

pub open spec fn first_cookie(cookies: Seq<Seq<char>>) -> Option<Seq<char>>
    decreases cookies.len(),
{
    if cookies.len() == 0 {
        None
    } else {
        match cookie_value(cookies[0]) {
            Some(v) => Some(v),
            None => first_cookie(cookies.drop_first()),
        }
    }
}

/// The value of the first session cookie in a `Cookie` header.
pub open spec fn session_cookie_of(header: Seq<char>) -> Option<Seq<char>> {
    first_cookie(pieces(header, ';'))
}

/// The session id in a `Cookie` header, if it carries the session cookie.
pub fn session_cookie(header: &str) -> (r: Option<String>)
    ensures
        r matches Some(v) ==> session_cookie_of(header@) == Some(v@),
        r is None ==> session_cookie_of(header@) is None,
{
    let chars = chars_of(header);
    let cookies = split_chars(&chars, ';');
    let ghost all = pieces_view(cookies@);
    let mut i: usize = 0;
    assert(all.subrange(0, all.len() as int) =~= all);
    while i < cookies.len()
        invariant
            i <= cookies@.len(),
            all == pieces_view(cookies@),
            all == pieces(header@, ';'),
            first_cookie(all) == first_cookie(all.subrange(i as int, all.len() as int)),
        decreases cookies@.len() - i,
    {
        let ghost rest = all.subrange(i as int, all.len() as int);
        let t = trim_chars(&cookies[i]);
        let n = t.len();
        assert(rest[0] == cookies@[i as int]@);
        match find_char(&t, '=') {
            Some(k) => {
                let name = slice_chars(&t, 0, k);
                let name_text = string_from_chars(name.as_slice());
                if str_equal(name_text.as_str(), SESSION_COOKIE_NAME) {
                    return Some(string_from_chars(slice_chars(&t, k + 1, n).as_slice()));
                }
            },
            None => {},
        }
        assert(rest.drop_first() =~= all.subrange(i + 1, all.len() as int));
        i = i + 1;
    }
    None
}

/// The media type of a `Content-Type` value: its first part, trimmed and
/// in lower case.
pub open spec fn media_type_of(value: Seq<char>) -> Seq<char> {
    ascii_lowercase(trim(pieces(value, ';')[0]))
}

/// The media type of the request, without its parameters; `None` when the
/// request has no readable `Content-Type`.
pub fn request_content_type(value: Option<&str>) -> (r: Option<String>)
    ensures
        value is None ==> r is None,
        value matches Some(v) ==> (r matches Some(t) && t@ == media_type_of(v@)),
{
    match value {
        None => None,
        Some(v) => {
            let chars = chars_of(v);
            let parts = split_chars(&chars, ';');
            assert(pieces_view(parts@)[0] == parts@[0]@);
            let media = to_ascii_lowercase(&trim_chars(&parts[0]));
            Some(string_from_chars(media.as_slice()))
        },
    }
}

/// What a quota page shows: the named user, or the signed-in operator.
pub struct QuotaLookup {
    pub entity: Option<String>,
}

impl QuotaLookup {
    /// The entity asked for, trimmed; none when it is blank.
    pub fn requested_entity(self) -> (r: Option<String>)
        ensures
            match self.entity {
                Some(e) => if trim(e@).len() > 0 {
                    r matches Some(t) && t@ == trim(e@)
                } else {
                    r is None
                },
                None => r is None,
            },
    {
        match self.entity {
            Some(e) => {
                let chars = chars_of(e.as_str());
                let t = trim_chars(&chars);
                if t.len() == 0 {
                    None
                } else {
                    Some(string_from_chars(t.as_slice()))
                }
            },
            None => None,
        }
    }
}

/// Whether a mutation that needs `required` (none: any signed-in operator)
/// is permitted.
pub open spec fn permits(required: Option<MutationKind>, c: Capabilities) -> bool {
    match required {
        Some(kind) => kind.spec_permitted(c),
        None => true,
    }
}

/// The capability check of a mutation. Signing out needs none: every
/// signed-in operator may sign out, whatever their ACLs say.
pub fn permits_mutation(required: Option<MutationKind>, c: Capabilities) -> (b: bool)
    ensures
        b == permits(required, c),
{
    match required {
        Some(kind) => kind.is_permitted(c),
        None => true,
    }
}

pub open spec fn error_body(message: Seq<char>) -> Seq<char> {
    "status=error\nmessage="@ + message + "\n"@
}

/// The body of a refused mutation.
pub fn mutation_error_text(message: &str) -> (body: String)
    ensures
        body@ == error_body(message@),
{
    let mut body = String::new();
    push_str(&mut body, "status=error\nmessage=");
    push_str(&mut body, message);
    push_str(&mut body, "\n");
    body
}

fn refusal(status: u16, message: &str) -> (r: Reply)
    ensures
        r.status == status,
        r.body@ == error_body(message@),
{
    Reply { status, body: mutation_error_text(message) }
}

/// Whether a session stands behind a mutation and permits it.
pub open spec fn admitted(record: Option<&SessionRecord>, required: Option<MutationKind>) -> bool {
    record matches Some(rec) && permits(required, rec.capabilities)
}

/// The first check of a mutation: a session must stand behind it, and the
/// session's capabilities must permit it.
pub fn admit_mutation(record: Option<&SessionRecord>, required: Option<MutationKind>) -> (r: Result<(), Reply>)
    ensures
        record is None ==> (r matches Err(reply) && reply.status == STATUS_UNAUTHORIZED && reply.body@ == error_body(
            "not authenticated"@,
        )),
        record matches Some(rec) ==> (!permits(required, rec.capabilities) ==> (r matches Err(reply) && reply.status
            == STATUS_FORBIDDEN && reply.body@ == error_body("not permitted"@))),
        r is Ok <==> admitted(record, required),
{
    match record {
        None => Err(refusal(STATUS_UNAUTHORIZED, "not authenticated")),
        Some(rec) => {
            if !permits_mutation(required, rec.capabilities) {
                return Err(refusal(STATUS_FORBIDDEN, "not permitted"));
            }
            Ok(())
        },
    }
}

/// A mutation body that passed its checks.
pub enum MutationBody {
    /// A JSON body, as the UI's own API takes it.
    Json(Vec<u8>),
    /// A form body, as a rendered form posts it, with the CSRF field removed.
    Form(String),
}

pub open spec fn fields_view(fields: Seq<(String, String)>) -> Seq<(Seq<char>, Seq<char>)> {
    fields.map_values(|f: (String, String)| (f.0@, f.1@))
}

/// What `serde_urlencoded::from_bytes` reads from a form body: its
/// name-value pairs in order, or `None` when it is not a valid form.
pub uninterp spec fn form_decoded(body: Seq<u8>) -> Option<Seq<(Seq<char>, Seq<char>)>>;

/// Whether the form encoding writes a byte as it is: ASCII letters,
/// digits, and `*`, `-`, `.`, `_`.
pub open spec fn form_byte_unchanged(b: u8) -> bool {
    b == 42 || b == 45 || b == 46 || (48 <= b && b <= 57) || (65 <= b && b <= 90) || b == 95 || (97 <= b
        && b <= 122)
}

/// An upper-case hexadecimal digit.
pub open spec fn upper_hex_digit(d: int) -> char {
    if d < 10 {
        ((d + 48) as u8) as char
    } else {
        ((d + 55) as u8) as char
    }
}

/// How the form encoding writes one byte: as it is, a space as `+`, and
/// any other byte as `%` and two upper-case hexadecimal digits.
pub open spec fn form_byte_text(b: u8) -> Seq<char> {
    if form_byte_unchanged(b) {
        seq![b as char]
    } else if b == 32 {
        seq!['+']
    } else {
        seq!['%', upper_hex_digit(b as int / 16), upper_hex_digit(b as int % 16)]
    }
}

pub open spec fn form_bytes_text(bytes: Seq<u8>) -> Seq<char>
    decreases bytes.len(),
{
    if bytes.len() == 0 {
        Seq::empty()
    } else {
        form_bytes_text(bytes.drop_last()) + form_byte_text(bytes.last())
    }
}

/// A name or a value, form-encoded byte by byte from its UTF-8.
pub open spec fn form_component(s: Seq<char>) -> Seq<char> {
    form_bytes_text(vstd::utf8::encode_utf8(s))
}

/// The form text of name-value pairs: each `name=value`, joined by `&`,
/// as `serde_urlencoded::to_string` writes them.
pub open spec fn form_encoded(fields: Seq<(Seq<char>, Seq<char>)>) -> Seq<char>
    decreases fields.len(),
{
    if fields.len() == 0 {
        Seq::empty()
    } else {
        let pair = form_component(fields.last().0) + "="@ + form_component(fields.last().1);
        if fields.len() == 1 {
            pair
        } else {
            form_encoded(fields.drop_last()) + "&"@ + pair
        }
    }
}

/// Decodes a form body into its name-value pairs
/// (`serde_urlencoded::from_bytes`). Claimed: the pairs are the ones that
/// `form_decoded` names for the body, and there are none exactly when it
/// names none.
#[verifier::external_body]
fn decode_form(body: &[u8]) -> (r: Option<Vec<(String, String)>>)
    ensures
        match r {
            Some(fields) => form_decoded(body@) == Some(fields_view(fields@)),
            None => form_decoded(body@) is None,
        },
{
    serde_urlencoded::from_bytes::<Vec<(String, String)>>(body).ok()
}

/// Encodes name-value pairs as a form body (`serde_urlencoded::to_string`).
/// Claimed: it never fails on pairs of strings, and the text is
/// `form_encoded` of the pairs.
#[verifier::external_body]
fn encode_form(fields: &Vec<(String, String)>) -> (r: Option<String>)
    ensures
        r is Some,
        r matches Some(text) ==> text@ == form_encoded(fields_view(fields@)),
{
    serde_urlencoded::to_string(fields).ok()
}

/// The value of the first field named `name`, or nothing.
pub open spec fn first_field(fields: Seq<(Seq<char>, Seq<char>)>, name: Seq<char>) -> Seq<char>
    decreases fields.len(),
{
    if fields.len() == 0 {
        Seq::empty()
    } else if fields[0].0 == name {
        fields[0].1
    } else {
        first_field(fields.drop_first(), name)
    }
}

/// The fields without any named `name`, in order.
pub open spec fn without_field(fields: Seq<(Seq<char>, Seq<char>)>, name: Seq<char>) -> Seq<(Seq<char>, Seq<char>)>
    decreases fields.len(),
{
    if fields.len() == 0 {
        Seq::empty()
    } else if fields.last().0 == name {
        without_field(fields.drop_last(), name)
    } else {
        without_field(fields.drop_last(), name).push(fields.last())
    }
}

fn first_field_value(fields: &Vec<(String, String)>, name: &str) -> (v: String)
    ensures
        v@ == first_field(fields_view(fields@), name@),
{
    let ghost all = fields_view(fields@);
    let mut i: usize = 0;
    assert(all.subrange(0, all.len() as int) =~= all);
    while i < fields.len()
        invariant
            i <= fields@.len(),
            all == fields_view(fields@),
            first_field(all, name@) == first_field(all.subrange(i as int, all.len() as int), name@),
        decreases fields@.len() - i,
    {
        let ghost rest = all.subrange(i as int, all.len() as int);
        assert(rest[0] == (fields@[i as int].0@, fields@[i as int].1@));
        if str_equal(fields[i].0.as_str(), name) {
            return fields[i].1.clone();
        }
        assert(rest.drop_first() =~= all.subrange(i + 1, all.len() as int));
        i = i + 1;
    }
    String::new()
}

/// Checks the CSRF field of decoded form fields and removes every CSRF
/// field: the fields that the mutation itself reads, or a refusal.
pub fn check_form_token(token: &CsrfToken, fields: Vec<(String, String)>) -> (r: Result<Vec<(String, String)>, Reply>)
    ensures
        r is Ok <==> token@ == first_field(fields_view(fields@), CSRF_FIELD_NAME@),
        r matches Ok(rest) ==> fields_view(rest@) == without_field(fields_view(fields@), CSRF_FIELD_NAME@),
        r matches Err(reply) ==> reply.status == STATUS_FORBIDDEN && reply.body@ == error_body(
            "missing or stale CSRF token"@,
        ),
{
    let ghost all = fields_view(fields@);
    let supplied = first_field_value(&fields, CSRF_FIELD_NAME);
    if !token.matches(supplied.as_str()) {
        return Err(refusal(STATUS_FORBIDDEN, "missing or stale CSRF token"));
    }
    let mut remaining: Vec<(String, String)> = Vec::new();
    let mut j: usize = 0;
    while j < fields.len()
        invariant
            j <= fields@.len(),
            all == fields_view(fields@),
            fields_view(remaining@) == without_field(all.subrange(0, j as int), CSRF_FIELD_NAME@),
        decreases fields@.len() - j,
    {
        let ghost prefix = all.subrange(0, j + 1);
        assert(prefix.drop_last() =~= all.subrange(0, j as int));
        assert(prefix.last() == (fields@[j as int].0@, fields@[j as int].1@));
        if !str_equal(fields[j].0.as_str(), CSRF_FIELD_NAME) {
            let ghost before = fields_view(remaining@);
            let kept = (fields[j].0.clone(), fields[j].1.clone());
            remaining.push(kept);
            assert(fields_view(remaining@) =~= before.push((kept.0@, kept.1@)));
        }
        j = j + 1;
    }
    assert(all.subrange(0, j as int) =~= all);
    Ok(remaining)
}

/// What is answered for a form body that cannot be decoded.
pub open spec fn invalid_form(reply: Reply) -> bool {
    reply.status == STATUS_BAD_REQUEST && reply.body@ == error_body("invalid form request"@)
}

/// The CSRF check of a form body: decode it, check and remove its CSRF
/// field, and encode what remains for the mutation.
pub fn accept_form_body(token: &CsrfToken, body: &[u8]) -> (r: Result<String, Reply>)
    ensures
        match form_decoded(body@) {
            None => r matches Err(reply) && invalid_form(reply),
            Some(fields) => if token@ != first_field(fields, CSRF_FIELD_NAME@) {
                r matches Err(reply) && reply.status == STATUS_FORBIDDEN && reply.body@ == error_body(
                    "missing or stale CSRF token"@,
                )
            } else {
                r matches Ok(t) && t@ == form_encoded(without_field(fields, CSRF_FIELD_NAME@))
            },
        },
{
    let fields = match decode_form(body) {
        Some(fields) => fields,
        None => {
            return Err(refusal(STATUS_BAD_REQUEST, "invalid form request"));
        },
    };
    let remaining = check_form_token(token, fields)?;
    match encode_form(&remaining) {
        Some(text) => Ok(text),
        None => Err(refusal(STATUS_BAD_REQUEST, "invalid form request")),
    }
}

/// Whether a mutation body passes its checks: JSON with the session's
/// token in the header, or a form with it in its CSRF field.
pub open spec fn body_accepted(
    token: Seq<char>,
    content_type: Option<Seq<char>>,
    header_token: Seq<char>,
    body: Seq<u8>,
) -> bool {
    match content_type {
        Some(t) => (t == "application/json"@ && token == header_token) || (t
            == "application/x-www-form-urlencoded"@ && (form_decoded(body) matches Some(fields) && token
            == first_field(fields, CSRF_FIELD_NAME@))),
        None => false,
    }
}

pub open spec fn opt_chars(o: Option<String>) -> Option<Seq<char>> {
    match o {
        Some(s) => Some(s@),
        None => None,
    }
}

/// The second check of a mutation, on its body: a JSON body must carry the
/// session's CSRF token in its header, a form body in its CSRF field, and
/// any other content type is refused.
pub fn accept_mutation_body(
    token: &CsrfToken,
    content_type: Option<String>,
    header_token: &str,
    body: Vec<u8>,
) -> (r: Result<MutationBody, Reply>)
    ensures
        r is Ok <==> body_accepted(token@, opt_chars(content_type), header_token@, body@),
        match content_type {
            Some(t) => if t@ == "application/json"@ {
                if token@ == header_token@ {
                    r matches Ok(MutationBody::Json(b)) && b@ == body@
                } else {
                    r matches Err(reply) && reply.status == STATUS_FORBIDDEN && reply.body@ == error_body(
                        "missing or stale CSRF token"@,
                    )
                }
            } else if t@ == "application/x-www-form-urlencoded"@ {
                match form_decoded(body@) {
                    None => r matches Err(reply) && invalid_form(reply),
                    Some(fields) => if token@ != first_field(fields, CSRF_FIELD_NAME@) {
                        r matches Err(reply) && reply.status == STATUS_FORBIDDEN && reply.body@ == error_body(
                            "missing or stale CSRF token"@,
                        )
                    } else {
                        r matches Ok(MutationBody::Form(f)) && f@ == form_encoded(
                            without_field(fields, CSRF_FIELD_NAME@),
                        )
                    },
                }
            } else {
                r matches Err(reply) && reply.status == STATUS_UNSUPPORTED_MEDIA_TYPE && reply.body@ == error_body(
                    "mutations take application/json or application/x-www-form-urlencoded"@,
                )
            },
            None => r matches Err(reply) && reply.status == STATUS_UNSUPPORTED_MEDIA_TYPE && reply.body@
                == error_body("mutations take application/json or application/x-www-form-urlencoded"@),
        },
{
    let unsupported = "mutations take application/json or application/x-www-form-urlencoded";
    proof {
        reveal_strlit("application/json");
        reveal_strlit("application/x-www-form-urlencoded");
        assert("application/json"@.len() != "application/x-www-form-urlencoded"@.len());
    }
    match content_type {
        Some(t) => {
            if str_equal(t.as_str(), "application/json") {
                if !token.matches(header_token) {
                    return Err(refusal(STATUS_FORBIDDEN, "missing or stale CSRF token"));
                }
                Ok(MutationBody::Json(body))
            } else if str_equal(t.as_str(), "application/x-www-form-urlencoded") {
                let text = accept_form_body(token, body.as_slice())?;
                Ok(MutationBody::Form(text))
            } else {
                Err(refusal(STATUS_UNSUPPORTED_MEDIA_TYPE, unsupported))
            }
        },
        None => Err(refusal(STATUS_UNSUPPORTED_MEDIA_TYPE, unsupported)),
    }
}

/// What is answered for a body over the configured limit.
pub fn body_too_large() -> (r: Reply)
    ensures
        r.status == STATUS_PAYLOAD_TOO_LARGE,
        r.body@ == error_body("request body too large"@),
{
    refusal(STATUS_PAYLOAD_TOO_LARGE, "request body too large")
}

/// What is answered for a body that does not parse as the mutation's
/// request.
pub fn invalid_request(json: bool) -> (r: Reply)
    ensures
        r.status == STATUS_BAD_REQUEST,
        json ==> r.body@ == error_body("invalid JSON request"@),
        !json ==> r.body@ == error_body("invalid form request"@),
{
    if json {
        refusal(STATUS_BAD_REQUEST, "invalid JSON request")
    } else {
        refusal(STATUS_BAD_REQUEST, "invalid form request")
    }
}

/// What is answered for a form whose values break a rule of the mutation.
pub fn rejected_form(reason: &str) -> (r: Reply)
    ensures
        r.status == STATUS_BAD_REQUEST,
        r.body@ == error_body(reason@),
{
    refusal(STATUS_BAD_REQUEST, reason)
}

/// The status that matches what went wrong: a request the client can
/// correct is a client error, a broker that did not answer an upstream
/// failure, and only an unclassified admin failure is this server's own.
pub open spec fn error_status(e: UiError) -> u16 {
    match e {
        UiError::NotAuthenticated | UiError::SessionExpired => STATUS_UNAUTHORIZED,
        UiError::NotPermitted => STATUS_FORBIDDEN,
        UiError::InvalidRequest(_) => STATUS_BAD_REQUEST,
        UiError::BrokerConnection(_) | UiError::Broker { .. } => STATUS_BAD_GATEWAY,
        UiError::Admin(_) => STATUS_INTERNAL_SERVER_ERROR,
    }
}

pub fn mutation_error_status(error: &UiError) -> (status: u16)
    ensures
        status == error_status(*error),
{
    match error {
        UiError::NotAuthenticated | UiError::SessionExpired => STATUS_UNAUTHORIZED,
        UiError::NotPermitted => STATUS_FORBIDDEN,
        UiError::InvalidRequest(_) => STATUS_BAD_REQUEST,
        UiError::BrokerConnection(_) | UiError::Broker { .. } => STATUS_BAD_GATEWAY,
        UiError::Admin(_) => STATUS_INTERNAL_SERVER_ERROR,
    }
}

/// The line for one resource of a mutation.
pub open spec fn outcome_text(o: ResourceOutcome) -> Seq<char> {
    "resource="@ + o.resource@ + (match o.error {
        Some(e) => "\tstatus=error\terror_code="@ + int_text(e.code as int) + "\terror_name="@ + e.name@,
        None => "\tstatus=ok"@,
    }) + "\n"@
}

/// The body of a mutation that the broker answered.
pub open spec fn outcomes_text(outcomes: Seq<ResourceOutcome>) -> Seq<char>
    decreases outcomes.len(),
{
    if outcomes.len() == 0 {
        "status=ok\n"@
    } else {
        outcomes_text(outcomes.drop_last()) + outcome_text(outcomes.last())
    }
}

/// The body of a mutation that the broker answered: `status=ok`, then one
/// line per resource.
pub fn mutation_outcome_text(outcomes: &Vec<ResourceOutcome>) -> (text: String)
    ensures
        text@ == outcomes_text(outcomes@),
{
    let mut text = String::new();
    push_str(&mut text, "status=ok\n");
    let mut i: usize = 0;
    while i < outcomes.len()
        invariant
            i <= outcomes@.len(),
            text@ == outcomes_text(outcomes@.subrange(0, i as int)),
        decreases outcomes@.len() - i,
    {
        let outcome = &outcomes[i];
        proof {
            let prefix = outcomes@.subrange(0, i + 1);
            assert(prefix.drop_last() =~= outcomes@.subrange(0, i as int));
        }
        let ghost before = text@;
        push_str(&mut text, "resource=");
        push_str(&mut text, outcome.resource.as_str());
        let ghost middle = text@;
        match &outcome.error {
            Some(e) => {
                push_str(&mut text, "\tstatus=error\terror_code=");
                push_int_text(&mut text, e.code as i64);
                push_str(&mut text, "\terror_name=");
                push_str(&mut text, e.name.as_str());
            },
            None => {
                push_str(&mut text, "\tstatus=ok");
            },
        }
        push_str(&mut text, "\n");
        assert(text@ =~= before + outcome_text(*outcome));
        i = i + 1;
    }
    assert(outcomes@.subrange(0, i as int) =~= outcomes@);
    text
}

/// The answer to a mutation that reached the broker.
pub fn mutation_result_response(result: Result<Vec<ResourceOutcome>, UiError>) -> (r: Reply)
    ensures
        match result {
            Ok(outcomes) => r.status == STATUS_OK && r.body@ == outcomes_text(outcomes@),
            Err(e) => r.status == error_status(e) && r.body@ == error_body(e.spec_message()),
        },
{
    match result {
        Ok(outcomes) => Reply { status: STATUS_OK, body: mutation_outcome_text(&outcomes) },
        Err(error) => {
            let status = mutation_error_status(&error);
            let message = error.message();
            Reply { status, body: mutation_error_text(message.as_str()) }
        },
    }
}

/// The status of a failed sign-in.
pub open spec fn login_failure_status(e: UiError) -> u16 {
    match e {
        UiError::NotAuthenticated | UiError::SessionExpired => STATUS_UNAUTHORIZED,
        UiError::BrokerConnection(_) => STATUS_SERVICE_UNAVAILABLE,
        _ => STATUS_BAD_GATEWAY,
    }
}

/// Separates a rejected sign-in from a broker that did not answer.
///
/// Monitoring reads the status code, so a cluster outage must not arrive
/// as 401: an operator who reads "authentication failed" retypes a
/// password that was never the problem.
pub fn login_failure_response(error: &UiError) -> (r: (u16, RoutePage))
    ensures
        r.0 == login_failure_status(*error),
        match *error {
            UiError::NotAuthenticated | UiError::SessionExpired => r.0 == STATUS_UNAUTHORIZED && r.1
                == (RoutePage::Login { state: LoginRouteState::AuthenticationFailed }),
            UiError::BrokerConnection(_) => r.0 == STATUS_SERVICE_UNAVAILABLE && r.1
                == (RoutePage::Login { state: LoginRouteState::BrokerUnavailable }),
            _ => r.0 == STATUS_BAD_GATEWAY && r.1 == (RoutePage::Login { state: LoginRouteState::BrokerUnavailable }),
        },
{
    match error {
        UiError::NotAuthenticated | UiError::SessionExpired => (STATUS_UNAUTHORIZED, RoutePage::login_failed()),
        UiError::BrokerConnection(_) => (STATUS_SERVICE_UNAVAILABLE, RoutePage::login_broker_unavailable()),
        _ => (STATUS_BAD_GATEWAY, RoutePage::login_broker_unavailable()),
    }
}

/// The `Set-Cookie` value that signs the browser in.
pub fn session_cookie_header(session_id: &str) -> (header: String)
    ensures
        header@ == SESSION_COOKIE_NAME@ + "="@ + session_id@ + "; HttpOnly; SameSite=Lax; Path=/"@,
{
    let mut header = String::new();
    push_str(&mut header, SESSION_COOKIE_NAME);
    push_str(&mut header, "=");
    push_str(&mut header, session_id);
    push_str(&mut header, "; HttpOnly; SameSite=Lax; Path=/");
    header
}

/// The `Set-Cookie` value that signs the browser out.
pub fn expired_session_cookie_header() -> (header: String)
    ensures
        header@ == SESSION_COOKIE_NAME@ + "=; HttpOnly; SameSite=Lax; Path=/; Max-Age=0"@,
{
    let mut header = String::new();
    push_str(&mut header, SESSION_COOKIE_NAME);
    push_str(&mut header, "=; HttpOnly; SameSite=Lax; Path=/; Max-Age=0");
    header
}

/// What the shell renders from for a signed-in session.
pub fn operator_for(record: &SessionRecord) -> (v: OperatorView)
    ensures
        v.spec_capabilities() == record.capabilities,
        v.spec_token() == Some(record.csrf_token@),
{
    OperatorView::new(record.capabilities, record.csrf_token.expose_for_form().to_owned())
}

/// What a read page shows for what the broker answered: its rows, a load
/// failure, or `None` when the session is gone and the login page is due.
pub fn read_state_from<T>(result: Result<Vec<T>, UiError>) -> (r: Option<ReadRouteState<T>>)
    ensures
        match result {
            Ok(rows) => r matches Some(ReadRouteState::Rows(shown)) && shown@ == rows@,
            Err(UiError::NotAuthenticated) => r is None,
            Err(_) => r matches Some(ReadRouteState::LoadFailed),
        },
{
    match result {
        Ok(rows) => Some(ReadRouteState::Rows(rows)),
        Err(UiError::NotAuthenticated) => None,
        Err(_) => Some(ReadRouteState::LoadFailed),
    }
}

/// Each mutation is admitted on its own capability and on no other: a
/// signed-in operator may delete a topic exactly when they may delete
/// topics, create one exactly when they may create topics, and so on. A
/// capability for one mutation never stands in for another's, and signing
/// out needs none.
pub proof fn law_each_mutation_needs_its_own_capability(rec: SessionRecord)
    ensures
        admitted(Some(&rec), Some(MutationKind::CreateTopic)) == rec.capabilities.create_topics,
        admitted(Some(&rec), Some(MutationKind::AddPartitions)) == rec.capabilities.alter_topics,
        admitted(Some(&rec), Some(MutationKind::AlterTopicConfigs)) == rec.capabilities.alter_topics,
        admitted(Some(&rec), Some(MutationKind::DeleteTopic)) == rec.capabilities.delete_topics,
        admitted(Some(&rec), Some(MutationKind::CreateAcl)) == rec.capabilities.alter_acls,
        admitted(Some(&rec), Some(MutationKind::DeleteAcl)) == rec.capabilities.alter_acls,
        admitted(Some(&rec), Some(MutationKind::UpsertScram)) == rec.capabilities.alter_users,
        admitted(Some(&rec), Some(MutationKind::DeleteScram)) == rec.capabilities.alter_users,
        admitted(Some(&rec), Some(MutationKind::SetQuota)) == rec.capabilities.alter_quotas,
        admitted(Some(&rec), Some(MutationKind::RemoveQuota)) == rec.capabilities.alter_quotas,
        admitted(Some(&rec), Some(MutationKind::MoveReplica)) == rec.capabilities.alter_log_dirs,
        admitted(Some(&rec), None),
{
}

/// A mutation reaches the broker only when a session stands behind it,
/// the session's capabilities permit it, and the request repeats the
/// session's CSRF token where its content type calls for it: in the header
/// of a JSON body, in the CSRF field of a form.
pub proof fn law_mutation_needs_session_capability_and_token(
    record: Option<&SessionRecord>,
    required: Option<MutationKind>,
    content_type: Option<Seq<char>>,
    header_token: Seq<char>,
    body: Seq<u8>,
)
    requires
        admitted(record, required),
        body_accepted(record->0.csrf_token@, content_type, header_token, body),
    ensures
        record matches Some(rec) && permits(required, rec.capabilities) && (header_token == rec.csrf_token@
            || (form_decoded(body) matches Some(fields) && first_field(fields, CSRF_FIELD_NAME@)
            == rec.csrf_token@)),
{
}

/// A body of any content type other than JSON or a form never reaches the
/// broker: a cross-site simple post (such as `text/plain`) is refused.
pub proof fn law_only_json_and_forms_reach_the_broker(
    token: Seq<char>,
    content_type: Seq<char>,
    header_token: Seq<char>,
    body: Seq<u8>,
)
    requires
        content_type != "application/json"@,
        content_type != "application/x-www-form-urlencoded"@,
    ensures
        !body_accepted(token, Some(content_type), header_token, body),
{
}

/// A broker that does not answer at sign-in is never reported as a bad
/// password: only a refusal of the credentials is 401.
pub proof fn law_broker_outage_is_not_a_bad_password(e: UiError)
    ensures
        (e is BrokerConnection) ==> login_failure_status(e) == STATUS_SERVICE_UNAVAILABLE,
        login_failure_status(e) == STATUS_UNAUTHORIZED <==> (e is NotAuthenticated || e is SessionExpired),
{
}

/// Only an admin failure that fits no other kind is the server's own
/// fault; everything else is a client error or an upstream failure.
pub proof fn law_only_unclassified_failures_are_server_errors(e: UiError)
    ensures
        error_status(e) == STATUS_INTERNAL_SERVER_ERROR <==> e is Admin,
        (e is BrokerConnection || e is Broker) <==> error_status(e) == STATUS_BAD_GATEWAY,
{
}

} // verus!
