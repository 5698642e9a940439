//! Username and password in the clear.

use vstd::prelude::*;

verus! {

/// Username and password.
pub struct Credentials {
    /// Username.
    pub username: String,
    /// Password.
    pub password: String,
}

impl<'a, 'b> From<(&'a str, &'b str)> for Credentials {
    fn from(pair: (&'a str, &'b str)) -> (r: Self)
        ensures
            r.username@ == pair.0@,
            r.password@ == pair.1@,
    {
        Credentials { username: pair.0.to_owned(), password: pair.1.to_owned() }
    }
}

impl<'a, 'b> vstd::std_specs::convert::FromSpecImpl<(&'a str, &'b str)> for Credentials {
    open spec fn obeys_from_spec() -> bool {
        false
    }

    open spec fn from_spec(pair: (&'a str, &'b str)) -> Self {
        arbitrary()
    }
}

} // verus!
