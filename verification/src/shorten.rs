//! Creation of a new short link: validation of the request body, the owner
//! secret, and the data returned to the creator.
//!
//! Validation runs before any persistence access: a malformed body, an
//! invalid URL or an out-of-range expiration window is reported with the
//! offending field's location.

use vstd::prelude::*;

use crate::codec::{alphabet_char_at, is_base62_char, lemma_char_value_of_alphabet};
use crate::error::Error;
use crate::json::{
    get_extra_fields_in_json, spec_extra_keys, spec_lookup, str_views, JsonData, JsonValue,
};
use crate::link::MAX_EXPIRATION_HOURS;
use crate::text::{dec_str_signed, push_char};

verus! {

/// Length of a freshly generated owner secret.
pub const SECRET_LENGTH: usize = 40;

/// Whether a string parses as a well-formed absolute URL. Determined by
/// the string alone.
pub uninterp spec fn url_ok(s: Seq<char>) -> bool;

/// Relies on url::Url::parse: it returns Ok exactly when the string parses
/// as an absolute URL, a function of the string alone.
#[verifier::external_body]
pub fn is_valid_url(s: &str) -> (r: bool)
    ensures
        r == url_ok(s@),
{
    url::Url::parse(s).is_ok()
}

/// Relies on rand::random_range: a value below the bound; panics only on an
/// empty range. Two calls may differ.
#[verifier::external_body]
fn random_index(bound: usize) -> (r: usize)
    requires
        bound > 0,
    ensures
        r < bound,
{
    rand::random_range(0..bound)
}

/// Generates an owner secret: a fixed-length string over the same
/// 62-character alphabet as the codec. Uniqueness is not required; the
/// search space makes collisions negligible.
pub fn generate_secret() -> (r: String)
    ensures
        r@.len() == SECRET_LENGTH,
        forall|i: int| 0 <= i < r@.len() ==> is_base62_char(#[trigger] r@[i]),
{
    let mut secret = String::new();
    let mut i: usize = 0;
    while i < SECRET_LENGTH
        invariant
            0 <= i <= SECRET_LENGTH,
            secret@.len() == i,
            forall|j: int| 0 <= j < secret@.len() ==> is_base62_char(#[trigger] secret@[j]),
        decreases SECRET_LENGTH - i,
    {
        let idx = random_index(62);
        let c = alphabet_char_at(idx as u8);
        proof {
            lemma_char_value_of_alphabet(idx as int);
        }
        push_char(&mut secret, c);
        i = i + 1;
    }
    secret
}

/// A validated creation request: the target URL and the requested
/// expiration window, if any.
#[derive(Debug, Clone)]
pub struct ShortenInput {
    pub url: String,
    pub expiration_hours: Option<u16>,
}

/// What a creation request returns: the assigned code and the owner
/// secret.
#[derive(Debug, Clone)]
pub struct ShortenResponseData {
    pub trailid: String,
    pub secret: String,
}

/// The field names a creation request may carry.
pub fn shorten_input_fields() -> (r: Vec<String>)
    ensures
        r@.len() == 2,
        r@[0]@ == "url"@,
        r@[1]@ == "expiration_hours"@,
{
    let mut fields: Vec<String> = Vec::new();
    fields.push(String::from_str("url"));
    fields.push(String::from_str("expiration_hours"));
    fields
}

/// What validation decides for a request body.
pub enum ValidationOutcome {
    /// The body is not an object.
    NotObject,
    /// Fields outside the accepted set are present; their names, in field
    /// order.
    ExtraFields(Seq<String>),
    /// The required "url" field is absent.
    MissingUrl,
    /// The "url" field is not a string.
    UrlNotString,
    /// The "url" field does not parse as an absolute URL.
    UrlInvalid,
    /// The "expiration_hours" field is not an integer number.
    ExpirationNotNumber,
    /// The "expiration_hours" field is below 1.
    ExpirationTooSmall,
    /// The "expiration_hours" field is above the maximum.
    ExpirationTooLarge,
    /// The body is valid: the target URL's text and the requested window.
    Accept(Seq<char>, Option<int>),
}

/// The names a creation request accepts, as text.
pub open spec fn spec_allowed_fields() -> Seq<Seq<char>> {
    seq!["url"@, "expiration_hours"@]
}

/// The outcome validation owes for a request body, in the order the checks
/// are applied: object shape, extra fields, the url field, then the
/// expiration field.
pub open spec fn spec_validate(data: JsonData) -> ValidationOutcome {
    match data {
        JsonData::Other => ValidationOutcome::NotObject,
        JsonData::Object(fields) => {
            let extra = spec_extra_keys(fields@, spec_allowed_fields());
            if extra.len() > 0 {
                ValidationOutcome::ExtraFields(extra)
            } else {
                match spec_lookup(fields@, "url"@) {
                    Option::None => ValidationOutcome::MissingUrl,
                    Option::Some(v) => match v {
                        JsonValue::Str(u) => if !url_ok(u@) {
                            ValidationOutcome::UrlInvalid
                        } else {
                            match spec_lookup(fields@, "expiration_hours"@) {
                                Option::None => ValidationOutcome::Accept(u@, Option::None),
                                Option::Some(JsonValue::Int(h)) => if h < 1 {
                                    ValidationOutcome::ExpirationTooSmall
                                } else if h > MAX_EXPIRATION_HOURS as int {
                                    ValidationOutcome::ExpirationTooLarge
                                } else {
                                    ValidationOutcome::Accept(u@, Option::Some(h as int))
                                },
                                Option::Some(_) => ValidationOutcome::ExpirationNotNumber,
                            }
                        },
                        _ => ValidationOutcome::UrlNotString,
                    },
                }
            }
        },
    }
}

/// Whether an error carries the given message at a single-segment
/// location.
pub open spec fn err_shape(e: Error, message: Seq<char>, location: Seq<char>) -> bool {
    &&& e.message@ == message
    &&& e.location@.len() == 1
    &&& e.location@[0]@ == location
}

/// Whether a validated request matches the accepting outcome: it holds
/// that outcome's URL text, and the expiration window exactly when one was
/// given.
pub open spec fn accepted_input_matches(outcome: ValidationOutcome, input: ShortenInput) -> bool {
    outcome matches ValidationOutcome::Accept(u, h) && input.url@ == u && match h {
        Option::None => input.expiration_hours is None,
        Option::Some(hv) => input.expiration_hours matches Some(e) && e == hv,
    }
}

/// The errors owed for a rejecting outcome, in order: each names its
/// message and the offending field's location.
pub open spec fn spec_errors_for(outcome: ValidationOutcome, es: Seq<Error>) -> bool {
    match outcome {
        ValidationOutcome::Accept(_, _) => false,
        ValidationOutcome::NotObject => es.len() == 1 && err_shape(
            es[0],
            "Field must be type "@ + "object"@,
            ":all:"@,
        ),
        ValidationOutcome::ExtraFields(keys) => es.len() == keys.len() && forall|i: int|
            0 <= i < keys.len() ==> err_shape(#[trigger] es[i], "Extra field not allowed"@, keys[i]@),
        ValidationOutcome::MissingUrl => es.len() == 1 && err_shape(
            es[0],
            "Required field"@,
            "url"@,
        ),
        ValidationOutcome::UrlNotString => es.len() == 1 && err_shape(
            es[0],
            "Field must be type "@ + "string"@,
            "url"@,
        ),
        ValidationOutcome::UrlInvalid => es.len() == 1 && err_shape(es[0], "Invalid URL"@, "url"@),
        ValidationOutcome::ExpirationNotNumber => es.len() == 1 && err_shape(
            es[0],
            "Field must be type "@ + "number"@,
            "expiration_hours"@,
        ),
        ValidationOutcome::ExpirationTooSmall => es.len() == 1 && err_shape(
            es[0],
            "Value must be at least: "@ + dec_str_signed(1),
            "expiration_hours"@,
        ),
        ValidationOutcome::ExpirationTooLarge => es.len() == 1 && err_shape(
            es[0],
            "Value must be at most: "@ + dec_str_signed(MAX_EXPIRATION_HOURS as int),
            "expiration_hours"@,
        ),
    }
}

impl ShortenInput {
    /// Validates a creation request body. Errors are reported with the
    /// offending field's location; extra fields are each reported.
    pub fn from_json(json: &JsonData) -> (r: Result<Self, Vec<Error>>)
        ensures
            match spec_validate(*json) {
                ValidationOutcome::Accept(_, _) => r matches Ok(input) && accepted_input_matches(
                    spec_validate(*json),
                    input,
                ),
                _ => r matches Err(es) && spec_errors_for(spec_validate(*json), es@),
            },
    {
        let fields = match json {
            JsonData::Other => {
                let mut location: Vec<String> = Vec::new();
                location.push(String::from_str(":all:"));
                return Err(vec![Error::type_mismatch("object", location)]);
            },
            JsonData::Object(fields) => fields,
        };

        let allowed = shorten_input_fields();
        proof {
            assert(str_views(allowed@) =~= spec_allowed_fields());
        }
        if let Some(extra_fields) = get_extra_fields_in_json(fields, &allowed) {
            let mut errors: Vec<Error> = Vec::new();
            let mut i: usize = 0;
            let ghost keys = spec_extra_keys(fields@, spec_allowed_fields());
            while i < extra_fields.len()
                invariant
                    0 <= i <= extra_fields@.len(),
                    extra_fields@ == keys,
                    errors@.len() == i,
                    forall|j: int|
                        0 <= j < i ==> err_shape(
                            #[trigger] errors@[j],
                            "Extra field not allowed"@,
                            keys[j]@,
                        ),
                decreases extra_fields@.len() - i,
            {
                let mut location: Vec<String> = Vec::new();
                location.push(extra_fields[i].clone());
                errors.push(Error::extra_not_allowed(location));
                i = i + 1;
            }
            return Err(errors);
        }

        let url_key = String::from_str("url");
        let url_value = match json.get(&url_key) {
            Some(v) => v,
            None => {
                let mut location: Vec<String> = Vec::new();
                location.push(String::from_str("url"));
                return Err(vec![Error::required_field(location)]);
            },
        };

        let url = match url_value {
            JsonValue::Str(u) => u,
            _ => {
                let mut location: Vec<String> = Vec::new();
                location.push(String::from_str("url"));
                return Err(vec![Error::type_mismatch("string", location)]);
            },
        };

        if !is_valid_url(url.as_str()) {
            let mut location: Vec<String> = Vec::new();
            location.push(String::from_str("url"));
            return Err(vec![Error::invalid_url(location)]);
        }

        let exp_key = String::from_str("expiration_hours");
        let expiration_hours = match json.get(&exp_key) {
            None => None,
            Some(v) => match v {
                JsonValue::Int(h) => {
                    if *h < 1 {
                        let mut location: Vec<String> = Vec::new();
                        location.push(String::from_str("expiration_hours"));
                        return Err(vec![Error::min_exceeded(1, location)]);
                    }
                    if *h > MAX_EXPIRATION_HOURS as i64 {
                        let mut location: Vec<String> = Vec::new();
                        location.push(String::from_str("expiration_hours"));
                        return Err(vec![Error::max_exceeded(MAX_EXPIRATION_HOURS as i64, location)]);
                    }
                    Some(*h as u16)
                },
                _ => {
                    let mut location: Vec<String> = Vec::new();
                    location.push(String::from_str("expiration_hours"));
                    return Err(vec![Error::type_mismatch("number", location)]);
                },
            },
        };

        Ok(ShortenInput { url: url.clone(), expiration_hours })
    }
}

} // verus!
