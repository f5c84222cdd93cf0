//! What a node makes of the leader's reply when it fetches a fortune cookie.
use vstd::prelude::*;
use vstd::string::*;

verus! {

/// Whether an HTTP status is a success (2xx).
pub open spec fn is_success(status: u16) -> bool {
    200 <= status < 300
}

/// Whether an HTTP status is a success (2xx).
pub fn status_is_success(status: u16) -> (ok: bool)
    ensures
        ok == is_success(status),
{
    200 <= status && status < 300
}

/// Whether a cookie fetch goes on to read the body of the reply (`Ok`), or fails with a
/// message (`Err`), given the HTTP status of the reply or the text of the error that kept
/// the request from getting one. Only a success status lets it go on.
pub fn fetch_cookie_next(response: Result<u16, String>) -> (next: Result<(), String>)
    ensures
        match response {
            Ok(status) => if is_success(status) {
                next is Ok
            } else {
                next matches Err(m) && m@ == "app state not found"@
            },
            Err(e) => next matches Err(m) && m@ == "Error occurred whilst getting response: "@ + e@,
        },
{
    match response {
        Ok(status) => {
            if status_is_success(status) {
                Ok(())
            } else {
                Err(String::from_str("app state not found"))
            }
        },
        Err(e) => {
            let mut m = String::from_str("Error occurred whilst getting response: ");
            m.append(e.as_str());
            Err(m)
        },
    }
}

/// The cookie, given the body of a successful reply or the text of the error that kept
/// it from being read.
pub fn cookie_from_body(body: Result<String, String>) -> (cookie: Result<String, String>)
    ensures
        match body {
            Ok(text) => cookie matches Ok(c) && c@ == text@,
            Err(e) => cookie matches Err(m) && m@ == "Body error: "@ + e@,
        },
{
    match body {
        Ok(text) => Ok(text),
        Err(e) => {
            let mut m = String::from_str("Body error: ");
            m.append(e.as_str());
            Err(m)
        },
    }
}

/// The error shown in place of a cookie while the node's status is not known: the text of
/// the error that kept it from being fetched, or a note that it is still on its way.
pub fn cookie_unavailable(status_error: Option<String>) -> (message: String)
    ensures
        match status_error {
            Some(e) => message@ == "Status error: "@ + e@,
            None => message@ == "Waiting for status"@,
        },
{
    match status_error {
        Some(e) => {
            let mut m = String::from_str("Status error: ");
            m.append(e.as_str());
            m
        },
        None => String::from_str("Waiting for status"),
    }
}

} // verus!
