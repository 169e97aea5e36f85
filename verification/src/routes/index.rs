//! The landing routes.

use crate::auth::auth0::Session;
use crate::routes::health::Status;
use vstd::prelude::*;
use vstd::string::StringExecFns;

verus! {

/// A message left for the next request: its kind and its text.
#[derive(Debug)]
pub struct FlashMessage {
    pub name: String,
    pub msg: String,
}

/// The greeting of the public landing page.
pub open spec fn spec_greeting(flash: Option<FlashMessage>) -> Seq<char> {
    match flash {
        Some(message) => message.name@ + ": "@ + message.msg@,
        None => "Welcome!"@,
    }
}

/// The greeting of the public landing page: the flash message, if there is
/// one.
pub fn greeting(flash: &Option<FlashMessage>) -> (text: String)
    ensures
        text@ == spec_greeting(*flash),
{
    match flash {
        Some(message) => {
            let mut text = message.name.clone();
            text.append(": ");
            text.append(message.msg.as_str());
            text
        },
        None => String::from_str("Welcome!"),
    }
}

/// The public landing route answers 401: the pages are served elsewhere.
pub fn index(flash: Option<FlashMessage>) -> (s: Status)
    ensures
        s == Status::Unauthorized,
{
    let _ = greeting(&flash);
    Status::Unauthorized
}

/// The session of the request, or 401 where it has none.
pub fn home(session: Option<Session>) -> (r: Result<Session, Status>)
    ensures
        match session {
            Some(found) => r == (Ok::<Session, Status>(found)),
            None => r == (Err::<Session, Status>(Status::Unauthorized)),
        },
{
    match session {
        Some(found) => Ok(found),
        None => Err(Status::Unauthorized),
    }
}

} // verus!
