//! The contents of the endpoints that the server comes with.
//!
//! Each function here makes the content of one endpoint's response from
//! the arguments that the request fed. Which method and path an endpoint
//! answers is said where the routes are registered.

use crate::decimal::{decimal, parse_i32, parse_signed, push_decimal, push_signed, signed_decimal};
use crate::respond::{list_text, object_text, quoted, with_member, JsonObject, Respond};
use crate::text::chars_of;
use vstd::prelude::*;
use vstd::string::*;

verus! {

/// The name of this crate.
pub const CRATE_NAME: &'static str = "minimal_api";

/// The version of this crate.
pub const CRATE_VERSION: &'static str = "0.1.0";

/// The content of the welcome at `/`.
pub fn show_welcome_message() -> (content: String)
    ensures
        content@ == quoted("Hello from "@ + CRATE_NAME@ + " v"@ + CRATE_VERSION@ + "!"@),
{
    let mut message = String::from_str("Hello from ");
    message.append(CRATE_NAME);
    message.append(" v");
    message.append(CRATE_VERSION);
    message.append("!");
    message.get_json()
}

/// The content of `/name`: the name of this crate.
pub fn show_crate_name() -> (content: String)
    ensures
        content@ == quoted(CRATE_NAME@),
{
    CRATE_NAME.get_json()
}

/// The content of `/version`: the version of this crate.
pub fn show_crate_version() -> (content: String)
    ensures
        content@ == quoted(CRATE_VERSION@),
{
    CRATE_VERSION.get_json()
}

/// What `/squared` says of `number`: its square where it is a number that
/// fits an `i32`, else that it is none.
pub open spec fn squared_text(number: Seq<char>) -> Seq<char> {
    match parse_signed(number, i32::MIN as int, i32::MAX as int) {
        Some(value) => signed_decimal(value) + " squared is "@ + decimal((value * value) as nat)
            + "."@,
        None => number + " is not a number."@,
    }
}

/// The content of `/squared`. The square is the exact one, whatever the
/// size of the number.
pub fn show_number_squared(number: String) -> (content: String)
    ensures
        content@ == quoted(squared_text(number@)),
{
    let digits = chars_of(number.as_str());
    assert(digits@.subrange(0, digits@.len() as int) =~= digits@);
    match parse_i32(&digits, 0, digits.len()) {
        Some(parsed_number) => {
            let wide: i64 = parsed_number as i64;
            assert(0 <= wide * wide <= 0x4000_0000_0000_0000) by (nonlinear_arith)
                requires
                    -0x8000_0000 <= wide <= 0x7fff_ffff,
            ;
            let squared_number: u64 = (wide * wide) as u64;
            let mut message = String::new();
            push_signed(&mut message, wide);
            message.append(" squared is ");
            push_decimal(&mut message, squared_number);
            message.append(".");
            assert(message@ =~= squared_text(number@));
            message.get_json()
        },
        None => {
            let mut message = number.clone();
            message.append(" is not a number.");
            message.get_json()
        },
    }
}

/// The content of `/user/{id}`.
pub fn show_user_by_id(id: String) -> (content: String)
    ensures
        content@ == quoted("Found user by id '"@ + id@ + "'"@),
{
    let mut message = String::from_str("Found user by id '");
    message.append(id.as_str());
    message.append("'");
    message.get_json()
}

/// The content of `/sendname`.
pub fn get_name(name: String) -> (content: String)
    ensures
        content@ == quoted("Received name '"@ + name@ + "' from POST route!"@),
{
    let mut message = String::from_str("Received name '");
    message.append(name.as_str());
    message.append("' from POST route!");
    message.get_json()
}

/// The content of `/update`.
pub fn get_update_id(id: String) -> (content: String)
    ensures
        content@ == quoted("Received id '"@ + id@ + "' from PUT route!"@),
{
    let mut message = String::from_str("Received id '");
    message.append(id.as_str());
    message.append("' from PUT route!");
    message.get_json()
}

/// The content of `/remove`.
pub fn get_delete_id(id: String) -> (content: String)
    ensures
        content@ == quoted("Received id '"@ + id@ + "' from DELETE route!"@),
{
    let mut message = String::from_str("Received id '");
    message.append(id.as_str());
    message.append("' from DELETE route!");
    message.get_json()
}

/// What a service of the mock application answers, besides its own result.
#[derive(Clone, Debug, PartialEq)]
pub struct BaseMockResponse {
    pub is_success: bool,
    pub message_type: String,
    pub message_severity: u8,
    pub message_severity_dictionary: Vec<String>,
    pub message_code: u8,
    pub message_code_dictionary: Vec<String>,
    pub message_exception: String,
    pub message_custom_values_piped: String,
    pub reason_code: u8,
}

/// `members` with the nine members of a mock response set, each to the
/// JSON text of its field.
pub open spec fn with_base_members(
    members: Seq<(Seq<char>, Seq<char>)>,
    base: BaseMockResponse,
) -> Seq<(Seq<char>, Seq<char>)> {
    let m1 = with_member(members, "IsSuccess"@, base.is_success.json());
    let m2 = with_member(m1, "MessageType"@, base.message_type.json());
    let m3 = with_member(m2, "MessageSeverity"@, base.message_severity.json());
    let m4 = with_member(
        m3,
        "MessageSeverityDictionary"@,
        base.message_severity_dictionary.json(),
    );
    let m5 = with_member(m4, "MessageCode"@, base.message_code.json());
    let m6 = with_member(m5, "MessageCodeDictionary"@, base.message_code_dictionary.json());
    let m7 = with_member(m6, "MessageException"@, base.message_exception.json());
    let m8 = with_member(
        m7,
        "MessageCustomValuesPiped"@,
        base.message_custom_values_piped.json(),
    );
    with_member(m8, "ReasonCode"@, base.reason_code.json())
}

/// `members` with the nine members of the default response set: a success
/// without any message.
pub open spec fn with_default_members(members: Seq<(Seq<char>, Seq<char>)>) -> Seq<
    (Seq<char>, Seq<char>),
> {
    let m1 = with_member(members, "IsSuccess"@, "true"@);
    let m2 = with_member(m1, "MessageType"@, quoted(Seq::empty()));
    let m3 = with_member(m2, "MessageSeverity"@, decimal(0));
    let m4 = with_member(m3, "MessageSeverityDictionary"@, list_text(Seq::empty()));
    let m5 = with_member(m4, "MessageCode"@, decimal(0));
    let m6 = with_member(m5, "MessageCodeDictionary"@, list_text(Seq::empty()));
    let m7 = with_member(m6, "MessageException"@, quoted(Seq::empty()));
    let m8 = with_member(m7, "MessageCustomValuesPiped"@, quoted(Seq::empty()));
    with_member(m8, "ReasonCode"@, decimal(0))
}

/// The members of a default response are the default members.
pub proof fn lemma_default_members(members: Seq<(Seq<char>, Seq<char>)>, base: BaseMockResponse)
    requires
        base.is_default(),
    ensures
        with_base_members(members, base) == with_default_members(members),
{
    assert(base.message_type@ =~= Seq::empty());
    assert(base.message_exception@ =~= Seq::empty());
    assert(base.message_custom_values_piped@ =~= Seq::empty());
    assert(crate::respond::texts(base.message_severity_dictionary@) =~= Seq::empty());
    assert(crate::respond::texts(base.message_code_dictionary@) =~= Seq::empty());
}

impl BaseMockResponse {
    /// Whether this is the response of a success without any message.
    pub open spec fn is_default(&self) -> bool {
        &&& self.is_success
        &&& self.message_type@.len() == 0
        &&& self.message_severity == 0
        &&& self.message_severity_dictionary@.len() == 0
        &&& self.message_code == 0
        &&& self.message_code_dictionary@.len() == 0
        &&& self.message_exception@.len() == 0
        &&& self.message_custom_values_piped@.len() == 0
        &&& self.reason_code == 0
    }

    /// The response of a success without any message.
    pub fn default_response() -> (base: BaseMockResponse)
        ensures
            base.is_default(),
    {
        BaseMockResponse {
            is_success: true,
            message_type: String::new(),
            message_severity: 0,
            message_severity_dictionary: Vec::new(),
            message_code: 0,
            message_code_dictionary: Vec::new(),
            message_exception: String::new(),
            message_custom_values_piped: String::new(),
            reason_code: 0,
        }
    }

    /// Sets the nine members of this response in `object`.
    pub fn add_to(&self, object: &mut JsonObject)
        ensures
            final(object)@ == with_base_members(old(object)@, *self),
    {
        object.insert("IsSuccess", &self.is_success);
        object.insert("MessageType", &self.message_type);
        object.insert("MessageSeverity", &self.message_severity);
        object.insert("MessageSeverityDictionary", &self.message_severity_dictionary);
        object.insert("MessageCode", &self.message_code);
        object.insert("MessageCodeDictionary", &self.message_code_dictionary);
        object.insert("MessageException", &self.message_exception);
        object.insert("MessageCustomValuesPiped", &self.message_custom_values_piped);
        object.insert("ReasonCode", &self.reason_code);
    }

    /// The object with the nine members of the default response.
    pub fn get_default_response() -> (object: JsonObject)
        ensures
            object@ == with_default_members(Seq::empty()),
    {
        let base = Self::default_response();
        let mut object = JsonObject::new();
        base.add_to(&mut object);
        proof {
            lemma_default_members(Seq::empty(), base);
        }
        object
    }
}

/// The content of `/Services/Session/GenerateSessionId`: an object with
/// the session's identifier and the members of the default response.
pub fn create_new_session_id() -> (content: String)
    ensures
        content@ == object_text(
            with_default_members(
                with_member(Seq::empty(), "SessionId"@, quoted("1234567890ABCDEF"@)),
            ),
        ),
{
    let mut object = JsonObject::new();
    object.insert("SessionId", &"1234567890ABCDEF");
    let base = BaseMockResponse::default_response();
    proof {
        lemma_default_members(object@, base);
    }
    base.add_to(&mut object);
    object.get_json()
}

} // verus!
