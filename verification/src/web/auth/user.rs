//! A stored user: identity, hashed password, and roles.

use vstd::prelude::*;
use vstd::string::StringExecFns;

use crate::text::{clone_strings, views};
use crate::web::auth::passwd::{hash_password, verify_of, verify_password, MAX_PASSWORD_LEN};
use crate::web::auth::token::{create_token, token_of, TokenClaims, TokenClaimsV};
use crate::json::JsonCodec;

verus! {

/// A stored user; the password field holds the salted hash, never the
/// password itself.
pub struct UserInfo {
    pub id: String,
    pub login: String,
    pub email: Option<String>,
    pub full_name: String,
    pub password: String,
    pub roles: Vec<String>,
}

/// The mathematical content of a `UserInfo`.
pub struct UserInfoV {
    pub id: Seq<char>,
    pub login: Seq<char>,
    pub email: Option<Seq<char>>,
    pub full_name: Seq<char>,
    pub password: Seq<char>,
    pub roles: Seq<Seq<char>>,
}

impl View for UserInfo {
    type V = UserInfoV;

    open spec fn view(&self) -> UserInfoV {
        UserInfoV {
            id: self.id@,
            login: self.login@,
            email: match self.email {
                Some(ref e) => Some(e@),
                None => None,
            },
            full_name: self.full_name@,
            password: self.password@,
            roles: views(self.roles@),
        }
    }
}

impl Clone for UserInfo {
    /// A copy of the user; the view is preserved exactly.
    fn clone(&self) -> (r: UserInfo)
        ensures
            r@ == self@,
    {
        UserInfo {
            id: self.id.clone(),
            login: self.login.clone(),
            email: match &self.email {
                Some(e) => Some(e.clone()),
                None => None,
            },
            full_name: self.full_name.clone(),
            password: self.password.clone(),
            roles: clone_strings(&self.roles),
        }
    }
}

/// The registration data of a new user; the password is still plain here
/// and is hashed on the way in.
pub struct NewUser {
    pub login: String,
    pub password: String,
    pub email: Option<String>,
    pub full_name: String,
    pub roles: Vec<String>,
}

/// The mathematical content of a `NewUser`.
pub struct NewUserV {
    pub login: Seq<char>,
    pub password: Seq<char>,
    pub email: Option<Seq<char>>,
    pub full_name: Seq<char>,
    pub roles: Seq<Seq<char>>,
}

impl View for NewUser {
    type V = NewUserV;

    open spec fn view(&self) -> NewUserV {
        NewUserV {
            login: self.login@,
            password: self.password@,
            email: match self.email {
                Some(ref e) => Some(e@),
                None => None,
            },
            full_name: self.full_name@,
            roles: views(self.roles@),
        }
    }
}

impl UserInfo {
    /// Whether a presented password verifies against the stored hash.
    pub fn is_password_valid(&self, password: &str) -> (r: bool)
        ensures
            r == verify_of(password@, self@.password),
    {
        verify_password(password, self.password.as_str())
    }

    /// Issues a token for this user: the login and roles signed with the
    /// secret, for some expiry time read from the clock.
    pub fn new_token(&self, secret: &str, validity_in_hours: i64) -> (t: String)
        ensures
            exists|exp: i64|
                t@ == token_of(
                    #[trigger] TokenClaims::encode_spec(
                        TokenClaimsV { user_id: self@.login, roles: self@.roles, exp },
                    ),
                    secret@,
                ),
    {
        let login_str = self.login.as_str();
        let t = create_token(login_str, &self.roles, secret, validity_in_hours);
        proof {
            let exp = choose|exp: i64|
                t@ == token_of(
                    #[trigger] TokenClaims::encode_spec(
                        TokenClaimsV { user_id: login_str@, roles: views(self.roles@), exp },
                    ),
                    secret@,
                );
            assert(TokenClaimsV { user_id: login_str@, roles: views(self.roles@), exp }
                == TokenClaimsV { user_id: self@.login, roles: self@.roles, exp });
        }
        t
    }

    /// Turns registration data into a stored user: the login doubles as the
    /// id, and the password is replaced by a hash it verifies against. The
    /// password must be short enough to hash; the registration handler
    /// checks this and refuses longer ones.
    pub fn from_new_user(new_user: NewUser) -> (u: UserInfo)
        requires
            new_user@.password.len() <= MAX_PASSWORD_LEN,
        ensures
            u@.id == new_user@.login,
            u@.login == new_user@.login,
            u@.email == new_user@.email,
            u@.full_name == new_user@.full_name,
            u@.roles == new_user@.roles,
            verify_of(new_user@.password, u@.password),
    {
        let password = hash_password(new_user.password.as_str());
        UserInfo {
            id: new_user.login.clone(),
            login: new_user.login,
            full_name: new_user.full_name,
            email: new_user.email,
            password,
            roles: new_user.roles,
        }
    }
}

} // verus!
