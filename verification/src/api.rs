//! The HTTP API's values: its settings, response envelopes, errors,
//! pagination and request validation.

use vstd::prelude::*;
use vstd::string::StringSliceAdditionalSpecFns;
use crate::clock::now_millis;
use crate::text::{decimal, push_decimal, str_to_string, string_push_str, chars_of};

verus! {

/// Settings of the HTTP API.
#[derive(Debug, Clone)]
pub struct ApiConfig {
    pub enabled: bool,
    pub bind_addr: String,
    pub bind_port: u16,
    pub enable_cors: bool,
    pub enable_tracing: bool,
    pub max_request_size: usize,
    pub request_timeout_ms: u64,
    pub require_authentication: bool,
}

impl Default for ApiConfig {
    /// Off, on 127.0.0.1:8080, with CORS and tracing, 1 MiB requests, 30 s
    /// timeouts and authentication required.
    fn default() -> (c: ApiConfig)
        ensures
            !c.enabled,
            c.bind_addr@ == "127.0.0.1"@,
            c.bind_port == 8080,
            c.enable_cors,
            c.enable_tracing,
            c.max_request_size == 1048576,
            c.request_timeout_ms == 30_000,
            c.require_authentication,
    {
        ApiConfig {
            enabled: false,
            bind_addr: str_to_string("127.0.0.1"),
            bind_port: 8080,
            enable_cors: true,
            enable_tracing: true,
            max_request_size: 1024 * 1024,
            request_timeout_ms: 30_000,
            require_authentication: true,
        }
    }
}

/// The envelope of every API answer.
#[derive(Debug)]
pub struct ApiResponse<T> {
    pub success: bool,
    pub data: Option<T>,
    pub error: Option<String>,
    /// Milliseconds since the epoch.
    pub timestamp: u64,
}

impl<T> ApiResponse<T> {
    /// A successful answer carrying `data`, stamped `now`.
    pub fn success_at(data: T, now: u64) -> (r: ApiResponse<T>)
        ensures
            r.success,
            r.data == Some(data),
            r.error is None,
            r.timestamp == now,
    {
        ApiResponse { success: true, data: Some(data), error: None, timestamp: now }
    }

    /// A successful answer carrying `data`, stamped by the clock.
    pub fn success(data: T) -> (r: ApiResponse<T>)
        ensures
            r.success,
            r.data == Some(data),
            r.error is None,
    {
        ApiResponse::success_at(data, now_millis())
    }

    /// A failed answer with `message`, stamped `now`.
    pub fn error_at(message: String, now: u64) -> (r: ApiResponse<T>)
        ensures
            !r.success,
            r.data is None,
            r.error == Some(message),
            r.timestamp == now,
    {
        ApiResponse { success: false, data: None, error: Some(message), timestamp: now }
    }

    /// A failed answer with `message`, stamped by the clock.
    pub fn error(message: String) -> (r: ApiResponse<T>)
        ensures
            !r.success,
            r.data is None,
            r.error == Some(message),
    {
        ApiResponse::error_at(message, now_millis())
    }
}

/// The API's errors, each with its detail text.
#[derive(Debug, Clone)]
pub enum ApiError {
    BadRequest(String),
    Unauthorized(String),
    Forbidden(String),
    NotFound(String),
    Conflict(String),
    UnprocessableEntity(String),
    TooManyRequests(String),
    InternalServerError(String),
    ServiceUnavailable(String),
    Timeout(String),
}

/// The HTTP status of an error.
pub open spec fn api_error_status(e: ApiError) -> u16 {
    match e {
        ApiError::BadRequest(_) => 400,
        ApiError::Unauthorized(_) => 401,
        ApiError::Forbidden(_) => 403,
        ApiError::NotFound(_) => 404,
        ApiError::Conflict(_) => 409,
        ApiError::UnprocessableEntity(_) => 422,
        ApiError::TooManyRequests(_) => 429,
        ApiError::InternalServerError(_) => 500,
        ApiError::ServiceUnavailable(_) => 503,
        ApiError::Timeout(_) => 408,
    }
}

/// The text of an error: its kind, a colon and a space, and its detail.
pub open spec fn api_error_text(e: ApiError) -> Seq<char> {
    match e {
        ApiError::BadRequest(d) => "Bad request: "@ + d@,
        ApiError::Unauthorized(d) => "Unauthorized: "@ + d@,
        ApiError::Forbidden(d) => "Forbidden: "@ + d@,
        ApiError::NotFound(d) => "Not found: "@ + d@,
        ApiError::Conflict(d) => "Conflict: "@ + d@,
        ApiError::UnprocessableEntity(d) => "Unprocessable entity: "@ + d@,
        ApiError::TooManyRequests(d) => "Too many requests: "@ + d@,
        ApiError::InternalServerError(d) => "Internal server error: "@ + d@,
        ApiError::ServiceUnavailable(d) => "Service unavailable: "@ + d@,
        ApiError::Timeout(d) => "Timeout: "@ + d@,
    }
}

impl ApiError {
    /// The HTTP status the error is answered with.
    pub fn status_code(&self) -> (s: u16)
        ensures
            s == api_error_status(*self),
    {
        match self {
            ApiError::BadRequest(_) => 400,
            ApiError::Unauthorized(_) => 401,
            ApiError::Forbidden(_) => 403,
            ApiError::NotFound(_) => 404,
            ApiError::Conflict(_) => 409,
            ApiError::UnprocessableEntity(_) => 422,
            ApiError::TooManyRequests(_) => 429,
            ApiError::InternalServerError(_) => 500,
            ApiError::ServiceUnavailable(_) => 503,
            ApiError::Timeout(_) => 408,
        }
    }

    /// The error's text, as shown to clients.
    pub fn message(&self) -> (s: String)
        ensures
            s@ == api_error_text(*self),
    {
        let (kind, detail) = match self {
            ApiError::BadRequest(d) => ("Bad request: ", d),
            ApiError::Unauthorized(d) => ("Unauthorized: ", d),
            ApiError::Forbidden(d) => ("Forbidden: ", d),
            ApiError::NotFound(d) => ("Not found: ", d),
            ApiError::Conflict(d) => ("Conflict: ", d),
            ApiError::UnprocessableEntity(d) => ("Unprocessable entity: ", d),
            ApiError::TooManyRequests(d) => ("Too many requests: ", d),
            ApiError::InternalServerError(d) => ("Internal server error: ", d),
            ApiError::ServiceUnavailable(d) => ("Service unavailable: ", d),
            ApiError::Timeout(d) => ("Timeout: ", d),
        };
        let mut s = str_to_string(kind);
        string_push_str(&mut s, detail.as_str());
        s
    }

    /// The answer an error is sent as: a failed envelope with the error's text.
    pub fn to_response(&self) -> (r: ApiResponse<()>)
        ensures
            !r.success,
            r.data is None,
            r.error matches Some(m) && m@ == api_error_text(*self),
    {
        ApiResponse::error(self.message())
    }
}

/// Paging parameters of a list request.
#[derive(Debug, Clone)]
pub struct PaginationQuery {
    pub page: Option<u32>,
    pub per_page: Option<u32>,
    pub sort: Option<String>,
    /// `asc` or `desc`.
    pub order: Option<String>,
}

impl Default for PaginationQuery {
    /// Page 1, 50 per page, newest first.
    fn default() -> (q: PaginationQuery)
        ensures
            q.page == Some(1u32),
            q.per_page == Some(50u32),
            q.sort is None,
            q.order matches Some(o) && o@ == "desc"@,
    {
        PaginationQuery { page: Some(1), per_page: Some(50), sort: None, order: Some(str_to_string("desc")) }
    }
}

/// Filters of a list request.
#[derive(Debug, Clone)]
pub struct FilterQuery {
    pub filter: Option<String>,
    pub search: Option<String>,
    pub status: Option<String>,
    pub created_after: Option<u64>,
    pub created_before: Option<u64>,
}

/// The number of pages for `total` items at `per_page` a page: the ceiling
/// of the quotient, capped at `u32::MAX`, and at least 1. With no items per
/// page it is 1 for no items and `u32::MAX` otherwise.
pub open spec fn page_count(total: u64, per_page: u32) -> u32 {
    let raw: int = if per_page == 0 {
        if total == 0 { 0 } else { u32::MAX as int }
    } else {
        (total as int + per_page - 1) / (per_page as int)
    };
    let capped: int = if raw > u32::MAX { u32::MAX as int } else { raw };
    if capped < 1 { 1 } else { capped as u32 }
}

/// One page of a list, with its place among the pages.
#[derive(Debug)]
pub struct PaginatedResponse<T> {
    pub items: Vec<T>,
    pub total_items: u64,
    pub total_pages: u32,
    pub current_page: u32,
    pub per_page: u32,
    pub has_next_page: bool,
    pub has_prev_page: bool,
}

impl<T> PaginatedResponse<T> {
    /// The page `page` holding `items`, out of `total_items` at `per_page` a page.
    pub fn new(items: Vec<T>, total_items: u64, page: u32, per_page: u32) -> (r: PaginatedResponse<T>)
        ensures
            r.items == items,
            r.total_items == total_items,
            r.total_pages == page_count(total_items, per_page),
            r.current_page == page,
            r.per_page == per_page,
            r.has_next_page == (page < r.total_pages),
            r.has_prev_page == (page > 1),
    {
        let raw: u64 = if per_page == 0 {
            if total_items == 0 { 0 } else { 4294967295 }
        } else {
            let q = total_items / (per_page as u64);
            let r = total_items % (per_page as u64);
            proof {
                assert((total_items as int + per_page - 1) / (per_page as int) == q + (if r > 0 { 1int } else { 0int })) by (nonlinear_arith)
                    requires
                        per_page > 0,
                        q == total_items as int / per_page as int,
                        r == total_items as int % per_page as int,
                ;
                assert(r > 0 ==> q < u64::MAX) by (nonlinear_arith)
                    requires
                        per_page > 0,
                        q == total_items as int / per_page as int,
                        r == total_items as int % per_page as int,
                        total_items <= u64::MAX,
                ;
            }
            if r > 0 { q + 1 } else { q }
        };
        let capped: u32 = if raw > 4294967295 { 4294967295 } else { raw as u32 };
        let total_pages: u32 = if capped < 1 { 1 } else { capped };
        PaginatedResponse {
            items,
            total_items,
            total_pages,
            current_page: page,
            per_page,
            has_next_page: page < total_pages,
            has_prev_page: page > 1,
        }
    }
}

/// Options of a metrics request.
#[derive(Debug, Clone)]
pub struct MetricsQuery {
    /// How many historical points to return.
    pub limit: Option<usize>,
    /// Whether to include per-topic metrics.
    pub include_topics: Option<bool>,
    /// The time range of historical data, in minutes.
    pub time_range_minutes: Option<u64>,
}

/// A subscriber as the metrics endpoints report it.
#[derive(Debug, Clone)]
pub struct SubscriberInfo {
    pub subscriber_id: String,
    pub connected_at: u64,
    pub messages_delivered: u64,
    pub last_activity: u64,
}

/// Whether a character is alphanumeric in the Unicode sense.
pub uninterp spec fn unicode_alphanumeric(c: char) -> bool;

/// `char::is_alphanumeric`: whether `c` is alphabetic or numeric by the
/// Unicode tables of the standard library.
#[verifier::external_body]
fn char_is_alphanumeric(c: char) -> (r: bool)
    ensures
        r == unicode_alphanumeric(c),
{
    c.is_alphanumeric()
}

/// A character allowed in topic names: alphanumeric, `_`, `-` or `.`.
pub open spec fn topic_name_char(c: char) -> bool {
    unicode_alphanumeric(c) || c == '_' || c == '-' || c == '.'
}

/// Why a topic name is refused, if it is: empty, longer than 255 bytes,
/// or holding a character other than alphanumerics, `_`, `-` and `.`.
pub open spec fn topic_name_problem(name: &str) -> Option<Seq<char>> {
    if name.spec_bytes().len() == 0 {
        Some("Topic name cannot be empty"@)
    } else if name.spec_bytes().len() > 255 {
        Some("Topic name too long (max 255 characters)"@)
    } else if exists|i: int| 0 <= i < name@.len() && !topic_name_char(#[trigger] name@[i]) {
        Some("Topic name contains invalid characters"@)
    } else {
        None
    }
}

/// Accepts a valid topic name; refuses others as a bad request.
pub fn validate_topic_name(name: &str) -> (r: Result<(), ApiError>)
    ensures
        match (r, topic_name_problem(name)) {
            (Ok(()), None) => true,
            (Err(ApiError::BadRequest(m)), Some(p)) => m@ == p,
            _ => false,
        },
{
    let n = name.as_bytes().len();
    if n == 0 {
        return Err(ApiError::BadRequest(str_to_string("Topic name cannot be empty")));
    }
    if n > 255 {
        return Err(ApiError::BadRequest(str_to_string("Topic name too long (max 255 characters)")));
    }
    let cs = chars_of(name);
    let mut i: usize = 0;
    while i < cs.len()
        invariant
            cs@ == name@,
            0 < name.spec_bytes().len() <= 255,
            i <= cs@.len(),
            forall|j: int| 0 <= j < i ==> topic_name_char(#[trigger] name@[j]),
        decreases cs@.len() - i,
    {
        let c = cs[i];
        if !(char_is_alphanumeric(c) || c == '_' || c == '-' || c == '.') {
            proof {
                assert(!topic_name_char(name@[i as int]));
            }
            return Err(ApiError::BadRequest(str_to_string("Topic name contains invalid characters")));
        }
        i = i + 1;
    }
    Ok(())
}

/// Accepts a message of `size` bytes up to `max_size`; refuses a larger one
/// as unprocessable, naming both sizes.
pub fn validate_message_size(size: usize, max_size: usize) -> (r: Result<(), ApiError>)
    ensures
        size <= max_size ==> r is Ok,
        size > max_size ==> (r matches Err(ApiError::UnprocessableEntity(m))
            && m@ == "Message size "@ + decimal(size as nat) + " exceeds maximum of "@ + decimal(max_size as nat)),
{
    if size > max_size {
        let mut m = str_to_string("Message size ");
        push_decimal(&mut m, size as u64);
        string_push_str(&mut m, " exceeds maximum of ");
        push_decimal(&mut m, max_size as u64);
        return Err(ApiError::UnprocessableEntity(m));
    }
    Ok(())
}

/// Accepts a positive `value`; refuses others as a bad request naming the field.
pub fn validate_positive_number(value: i64, field_name: &str) -> (r: Result<(), ApiError>)
    ensures
        value > 0 ==> r is Ok,
        value <= 0 ==> (r matches Err(ApiError::BadRequest(m)) && m@ == field_name@ + " must be a positive number"@),
{
    if value <= 0 {
        let mut m = str_to_string(field_name);
        string_push_str(&mut m, " must be a positive number");
        return Err(ApiError::BadRequest(m));
    }
    Ok(())
}

} // verus!
