//! The status of an HTTP response, as far as the client reads it.

use vstd::prelude::*;

verus! {

/// How `reqwest::StatusCode`, which is the `StatusCode` of the `http`
/// crate, prints the status `code`: the number, a space, and the reason
/// phrase that the crate keeps for it.
pub uninterp spec fn status_display(code: u16) -> Seq<char>;

/// Whether `code` is one that a status can hold.
pub open spec fn is_status_code(code: u16) -> bool {
    100 <= code <= 999
}

/// Whether `code` is in the class of successful responses.
pub open spec fn is_success_code(code: u16) -> bool {
    200 <= code < 300
}

/// `reqwest::StatusCode::from_u16`, then `StatusCode::is_success`:
/// `from_u16` accepts the codes from 100 to 999, and `is_success` holds
/// of those from 200 to 299.
#[verifier::external_body]
fn success_of_code(code: u16) -> (success: Option<bool>)
    ensures
        success is Some <==> is_status_code(code),
        success matches Some(yes) ==> yes == is_success_code(code),
{
    match reqwest::StatusCode::from_u16(code) {
        Ok(status) => Some(status.is_success()),
        Err(_) => None,
    }
}

/// `reqwest::StatusCode::from_u16`, then the status as `Display` prints
/// it. The text is a function of the code alone.
#[verifier::external_body]
fn display_of_code(code: u16) -> (text: Option<String>)
    ensures
        text is Some <==> is_status_code(code),
        text matches Some(shown) ==> shown@ == status_display(code),
{
    match reqwest::StatusCode::from_u16(code) {
        Ok(status) => Some(status.to_string()),
        Err(_) => None,
    }
}

/// The status code of a response: a number from 100 to 999.
///
/// The view is the number.
#[derive(Clone, Copy, Debug, PartialEq, Eq)]
pub struct HttpStatus {
    code: u16,
}

impl View for HttpStatus {
    type V = u16;

    closed spec fn view(&self) -> u16 {
        self.code
    }
}

impl HttpStatus {
    #[verifier::type_invariant]
    closed spec fn code_in_range(&self) -> bool {
        is_status_code(self.code)
    }

    /// The status with the number `code`, where a status can hold it.
    pub fn new(code: u16) -> (status: Option<Self>)
        ensures
            status is Some <==> is_status_code(code),
            status matches Some(held) ==> held@ == code,
    {
        if 100 <= code && code <= 999 {
            Some(HttpStatus { code })
        } else {
            None
        }
    }

    /// The number of the status.
    pub fn code(&self) -> (code: u16)
        ensures
            code == self@,
            is_status_code(code),
    {
        proof {
            use_type_invariant(self);
        }
        self.code
    }

    /// Whether the response was successful.
    pub fn is_success(&self) -> (success: bool)
        ensures
            success == is_success_code(self@),
    {
        proof {
            use_type_invariant(self);
        }
        match success_of_code(self.code) {
            Some(yes) => yes,
            None => false,
        }
    }

    /// The status as it is shown in messages.
    pub fn describe(&self) -> (text: String)
        ensures
            text@ == status_display(self@),
    {
        proof {
            use_type_invariant(self);
        }
        match display_of_code(self.code) {
            Some(shown) => shown,
            None => String::new(),
        }
    }
}

} // verus!
