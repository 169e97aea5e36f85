//! Identity: the provider's parameters, the claims of an identity token,
//! and the sessions issued from them.

pub mod auth0;
