//! The `authorization` header that a client sends.
use vstd::prelude::*;

use crate::common::{auth_type_name, AuthType};
use crate::crypto::{base64_encode, base64_standard_encoding};
use crate::text::concat;
use vstd::utf8::encode_utf8;

verus! {

/// The header value of basic authentication: the base64 text of
/// `user:password`.
pub open spec fn basic_credentials(user: Seq<char>, password: Seq<char>) -> Seq<char> {
    base64_standard_encoding(encode_utf8(user + seq![':'] + password))
}

/// The credentials that a client presents, if any.
pub struct AuthBuilder {
    auth_type: Option<AuthType>,
    auth_value: Option<String>,
}

impl AuthBuilder {
    /// A scheme comes with a text, and a text with a scheme.
    #[verifier::type_invariant]
    closed spec fn complete(&self) -> bool {
        self.auth_type is Some <==> self.auth_value is Some
    }

    /// The scheme of the credentials, if any.
    pub closed spec fn auth_type_spec(&self) -> Option<AuthType> {
        self.auth_type
    }

    /// The text of the credentials, if any.
    pub closed spec fn auth_value_spec(&self) -> Option<Seq<char>> {
        match self.auth_value {
            Some(v) => Some(v@),
            None => None,
        }
    }

    /// Credentials from a bearer token, which wins, or else from a user name
    /// together with a password; none where neither is given.
    pub fn new(
        auth_token: Option<&str>,
        auth_username: Option<&str>,
        auth_password: Option<&str>,
    ) -> (res: AuthBuilder)
        ensures
            auth_token matches Some(token) ==> res.auth_type_spec() == Some(AuthType::Bearer)
                && res.auth_value_spec() == Some(token@),
            auth_token is None && auth_username is Some && auth_password is Some
                ==> res.auth_type_spec() == Some(AuthType::Basic) && res.auth_value_spec() == Some(
                basic_credentials(auth_username.unwrap()@, auth_password.unwrap()@),
            ),
            auth_token is None && (auth_username is None || auth_password is None)
                ==> res.auth_type_spec() is None && res.auth_value_spec() is None,
    {
        if auth_token.is_some() {
            let token = auth_token.unwrap();
            AuthBuilder { auth_type: Some(AuthType::Bearer), auth_value: Some(token.to_owned()) }
        } else if auth_username.is_some() && auth_password.is_some() {
            let mut auth = concat(auth_username.unwrap(), ":");
            auth.append(auth_password.unwrap());
            proof {
                reveal_strlit(":");
            }
            assert(auth@ =~= auth_username.unwrap()@ + seq![':'] + auth_password.unwrap()@);
            let text = auth.as_str();
            let bytes = text.as_bytes();
            assert(bytes@ == encode_utf8(auth@));
            let value = base64_encode(bytes);
            AuthBuilder { auth_type: Some(AuthType::Basic), auth_value: Some(value) }
        } else {
            AuthBuilder { auth_type: None, auth_value: None }
        }
    }

    /// Whether there are credentials to send.
    pub fn has_authentication(&self) -> (res: bool)
        ensures
            res == self.auth_type_spec() is Some,
    {
        self.auth_type.is_some()
    }

    /// The header value: the scheme's name, a space and the credentials; an
    /// error where there are none.
    pub fn get_auth(&self) -> (res: Result<String, String>)
        ensures
            res is Ok <==> self.auth_type_spec() is Some,
            match (self.auth_type_spec(), self.auth_value_spec()) {
                (Some(t), Some(v)) => res matches Ok(s) && s@ == auth_type_name(t) + seq![' '] + v,
                _ => res matches Err(e) && e@ == "no authentication defined"@,
            },
    {
        proof {
            use_type_invariant(self);
        }
        match (&self.auth_type, &self.auth_value) {
            (Some(t), Some(v)) => {
                let name = t.to_string();
                let mut s = concat(name.as_str(), " ");
                s.append(v.as_str());
                proof {
                    reveal_strlit(" ");
                }
                Ok(s)
            },
            _ => Err(String::from_str("no authentication defined")),
        }
    }
}

} // verus!
