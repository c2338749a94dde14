//! Organizations: their status, the device addresses handed out to them,
//! and the route identifiers by which their keys are looked up.

use vstd::prelude::*;

verus! {

/// The error of the UUID parser, carried through as it is.
#[verifier::external_type_specification]
#[verifier::external_body]
pub struct ExUuidError(sqlx::types::uuid::Error);

/// Whether an organization may send packets.
#[derive(Clone, Copy, Debug, PartialEq, Eq, Structural)]
pub enum OrgStatus {
    Enabled,
    Disabled,
}

/// The first device address free for the next organization, given the
/// highest end address handed out so far, or `default_start` where none was.
pub open spec fn next_devaddr_after(last_end_addr: i64, default_start: i64) -> int {
    if last_end_addr == default_start {
        last_end_addr as int
    } else {
        last_end_addr + 1
    }
}

/// The first device address free for the next organization. `last_end_addr`
/// is the highest end address among the constraints handed out, or
/// `default_start`, the start of the net's range, where none was handed out
/// yet: then the range starts there, else one past the last end.
pub fn next_devaddr_start(last_end_addr: i64, default_start: i64) -> (next: i64)
    requires
        next_devaddr_after(last_end_addr, default_start) <= i64::MAX,
    ensures
        next == next_devaddr_after(last_end_addr, default_start),
{
    if last_end_addr == default_start {
        last_end_addr
    } else {
        last_end_addr + 1
    }
}

/// Why a text is no route identifier: the refusal of the UUID parser.
#[derive(Debug)]
pub struct RouteIdParseError(pub sqlx::types::uuid::Error);

/// The UUID that `uuid::Uuid::try_parse` reads from `text`, as its 128-bit
/// big-endian value, or `None` where it refuses `text`.
pub uninterp spec fn parsed_uuid(text: Seq<char>) -> Option<u128>;

/// Calls `Uuid::try_parse` of the `uuid` crate, through its re-export by
/// `sqlx`, and hands out the UUID as its 128-bit value (`Uuid::as_u128`).
/// The contract claims only that the outcome is a function of the text:
/// the parser reads nothing else.
#[verifier::external_body]
fn try_parse_uuid(text: &str) -> (parsed: Result<u128, sqlx::types::uuid::Error>)
    ensures
        match parsed {
            Ok(value) => parsed_uuid(text@) == Some(value),
            Err(_) => parsed_uuid(text@).is_none(),
        },
{
    match sqlx::types::Uuid::try_parse(text) {
        Ok(uuid) => Ok(uuid.as_u128()),
        Err(err) => Err(err),
    }
}

/// What becomes of the parser's answer: a UUID is passed on, and a refusal
/// is reported as a [`RouteIdParseError`] that holds the parser's error.
pub fn route_id_from(parsed: Result<u128, sqlx::types::uuid::Error>) -> (route: Result<
    u128,
    RouteIdParseError,
>)
    ensures
        match (parsed, route) {
            (Ok(value), Ok(id)) => id == value,
            (Err(err), Err(reported)) => reported.0 == err,
            _ => false,
        },
{
    match parsed {
        Ok(value) => Ok(value),
        Err(err) => Err(RouteIdParseError(err)),
    }
}

/// Reads the identifier of a route, the UUID by which the keys of its
/// organization are looked up. Succeeds exactly on the texts that the UUID
/// parser accepts.
pub fn parse_route_id(route_id: &str) -> (route: Result<u128, RouteIdParseError>)
    ensures
        match route {
            Ok(id) => parsed_uuid(route_id@) == Some(id),
            Err(_) => parsed_uuid(route_id@).is_none(),
        },
{
    route_id_from(try_parse_uuid(route_id))
}

} // verus!
