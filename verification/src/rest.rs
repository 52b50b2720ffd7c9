use vstd::prelude::*;
use vstd::string::*;

verus! {

pub const DEFAULT_ITEMS_PER_PAGE: u32 = 10;

pub const BAD_REQUEST: u16 = 400;

pub const NOT_FOUND: u16 = 404;

pub const INTERNAL_SERVER_ERROR: u16 = 500;

pub const SERVICE_UNAVAILABLE: u16 = 503;

/// An error as the REST layer reports it: an HTTP status and a message.
#[derive(Debug, PartialEq, Eq)]
pub struct ErrorResp {
    pub status_code: u16,
    pub message: String,
}

impl View for ErrorResp {
    type V = (u16, Seq<char>);

    open spec fn view(&self) -> (u16, Seq<char>) {
        (self.status_code, self.message@)
    }
}

/// A failure of the metadata database.
#[derive(Debug, PartialEq, Eq)]
pub enum DbError {
    DuplicateViolation,
    ForeignKeyViolation,
    Other(String),
}

/// The response for a database failure that no caller has explained further.
pub open spec fn db_error_response(error: DbError) -> (u16, Seq<char>) {
    match error {
        DbError::DuplicateViolation => (BAD_REQUEST, "A record already exists with that name"@),
        DbError::ForeignKeyViolation => (
            BAD_REQUEST,
            "Cannot delete; other records depend on this one"@,
        ),
        DbError::Other(e) => (INTERNAL_SERVER_ERROR, e@),
    }
}

/// The response for a database failure carries a message of its own, so
/// the conversion is stated of the view of its result.
impl vstd::std_specs::convert::FromSpecImpl<DbError> for ErrorResp {
    open spec fn obeys_from_spec() -> bool {
        false
    }

    open spec fn from_spec(value: DbError) -> ErrorResp {
        arbitrary()
    }
}

impl From<DbError> for ErrorResp {
    fn from(value: DbError) -> (resp: ErrorResp)
        ensures
            resp@ == db_error_response(value),
    {
        match value {
            DbError::DuplicateViolation => bad_request("A record already exists with that name"),
            DbError::ForeignKeyViolation => bad_request(
                "Cannot delete; other records depend on this one",
            ),
            DbError::Other(e) => ErrorResp { status_code: INTERNAL_SERVER_ERROR, message: e },
        }
    }
}

pub fn map_insert_err(name: &str, error: DbError) -> (resp: ErrorResp)
    ensures
        resp@ == (if error is DuplicateViolation {
            (BAD_REQUEST, name@ + " with that name already exists"@)
        } else {
            db_error_response(error)
        }),
{
    match error {
        DbError::DuplicateViolation => {
            let message = name.to_owned().concat(" with that name already exists");
            ErrorResp { status_code: BAD_REQUEST, message }
        },
        other => ErrorResp::from(other),
    }
}

pub fn map_delete_err(name: &str, user: &str, error: DbError) -> (resp: ErrorResp)
    ensures
        resp@ == (if error is ForeignKeyViolation {
            (
                BAD_REQUEST,
                "Cannot delete "@ + name@ + "; it is still being used by "@ + user@,
            )
        } else {
            db_error_response(error)
        }),
{
    match error {
        DbError::ForeignKeyViolation => {
            let message = "Cannot delete ".to_owned().concat(name).concat(
                "; it is still being used by ",
            ).concat(user);
            ErrorResp { status_code: BAD_REQUEST, message }
        },
        other => ErrorResp::from(other),
    }
}

/// The response for a failure whose detail is kept from the client.
pub fn log_and_map<E: core::fmt::Debug>(err: E) -> (resp: ErrorResp)
    ensures
        resp@ == (INTERNAL_SERVER_ERROR, "Something went wrong"@),
{
    internal_server_error("Something went wrong")
}

pub fn bad_request(message: &str) -> (resp: ErrorResp)
    ensures
        resp@ == (BAD_REQUEST, message@),
{
    ErrorResp { status_code: BAD_REQUEST, message: message.to_owned() }
}

pub fn service_unavailable(object: &str) -> (resp: ErrorResp)
    ensures
        resp@ == (SERVICE_UNAVAILABLE, object@ + " not available"@),
{
    ErrorResp { status_code: SERVICE_UNAVAILABLE, message: object.to_owned().concat(" not available") }
}

pub fn internal_server_error(message: &str) -> (resp: ErrorResp)
    ensures
        resp@ == (INTERNAL_SERVER_ERROR, message@),
{
    ErrorResp { status_code: INTERNAL_SERVER_ERROR, message: message.to_owned() }
}

pub fn not_found(object: &str) -> (resp: ErrorResp)
    ensures
        resp@ == (NOT_FOUND, object@ + " not found"@),
{
    ErrorResp { status_code: NOT_FOUND, message: object.to_owned().concat(" not found") }
}

pub fn required_field(field: &str) -> (resp: ErrorResp)
    ensures
        resp@ == (BAD_REQUEST, "Field "@ + field@ + " must be set"@),
{
    let message = "Field ".to_owned().concat(field).concat(" must be set");
    ErrorResp { status_code: BAD_REQUEST, message }
}

/// Checks the paging parameters of a list request. The limit that comes back
/// is one more than the page size, so that a full answer shows that more
/// results exist.
pub fn validate_pagination_params(starting_after: Option<String>, limit: Option<u32>) -> (r: Result<
    (Option<String>, u32),
    ErrorResp,
>)
    requires
        limit matches Some(l) ==> l < u32::MAX,
    ensures
        match limit {
            Some(l) if l < 1 => r matches Err(e) && e@ == (
                BAD_REQUEST,
                "Limit must be greater than 0"@,
            ),
            Some(l) => r matches Ok(p) && p.0 == starting_after && p.1 == l + 1,
            None => r matches Ok(p) && p.0 == starting_after && p.1 == DEFAULT_ITEMS_PER_PAGE + 1,
        },
{
    let page: u32 = match limit {
        Some(l) => {
            if l < 1 {
                return Err(bad_request("Limit must be greater than 0"));
            }
            l
        },
        None => DEFAULT_ITEMS_PER_PAGE,
    };
    Ok((starting_after, page + 1))
}

/// Cuts a result list that was fetched with one row more than the page size:
/// when the list is full, the extra row is dropped and more results exist.
pub fn paginate_results<T>(results: Vec<T>, limit: u32) -> (r: (Vec<T>, bool))
    ensures
        r.1 == (results.len() as u32 == limit),
        r.1 && results.len() > 0 ==> r.0@ == results@.drop_last(),
        !r.1 || results.len() == 0 ==> r.0@ == results@,
{
    let mut results = results;
    let has_more = #[verifier::truncate]
    (results.len() as u32) == limit;
    if has_more {
        results.pop();
    }
    (results, has_more)
}

} // verus!
