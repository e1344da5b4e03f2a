//! The authentication agent: it keeps the registered users, and its four
//! operations register a user, log one in, refresh a token and update a
//! password. Each success answers with the user's authentication data and a
//! fresh token.

use vstd::prelude::*;
use vstd::string::{StrSliceExecFns, StringExecFns};

use crate::agent::{error_val, operation_of, success_val, Action, ActionV, Output, OutputV};
use crate::json::{
    decode_list, encode_list, fields_view, lemma_fields_view, lemma_list_round_trip,
    lemma_obj_lookup_at, list_from_json, list_to_json, obj_get, obj_lookup, opt_str_val, views_of,
    JsonCodec, JsonVal, JsonValue,
};
use crate::text::{clone_strings, str_eq, views};
use crate::web::auth::passwd::{hash_password, verify_of, MAX_PASSWORD_LEN};
use crate::web::auth::token::{token_of, verify_token, TokenClaims, TokenClaimsV};
use crate::web::auth::user::{NewUser, NewUserV, UserInfo, UserInfoV};

verus! {

/// A token as a caller presents it.
pub struct UserToken {
    pub token: String,
}

/// The mathematical content of a `UserToken`.
pub struct UserTokenV {
    pub token: Seq<char>,
}

impl View for UserToken {
    type V = UserTokenV;

    open spec fn view(&self) -> UserTokenV {
        UserTokenV { token: self.token@ }
    }
}

impl JsonCodec for UserToken {
    open spec fn encode_spec(v: UserTokenV) -> JsonVal {
        JsonVal::Obj(seq![("token"@, JsonVal::Str(v.token))])
    }

    open spec fn decode_spec(j: JsonVal) -> Option<UserTokenV> {
        match j {
            JsonVal::Obj(fields) => match obj_lookup(fields, "token"@) {
                Some(JsonVal::Str(token)) => Some(UserTokenV { token }),
                _ => None,
            },
            _ => None,
        }
    }

    proof fn lemma_codec_round_trip(v: UserTokenV) {
        let fields = seq![("token"@, JsonVal::Str(v.token))];
        lemma_obj_lookup_at(fields, 0);
    }

    fn to_json(&self) -> (j: JsonValue) {
        let mut fields: Vec<(String, JsonValue)> = Vec::new();
        fields.push(("token".to_owned(), JsonValue::Str(self.token.clone())));
        proof {
            lemma_fields_view(fields@);
            assert(fields_view(fields@) =~= seq![("token"@, JsonVal::Str(self.token@))]);
        }
        JsonValue::Obj(fields)
    }

    fn from_json(j: &JsonValue) -> (r: Option<UserToken>) {
        match j {
            JsonValue::Obj(fields) => match obj_get(fields, "token") {
                Some(JsonValue::Str(token)) => Some(UserToken { token: token.clone() }),
                _ => None,
            },
            _ => None,
        }
    }
}

/// The credentials a login presents.
pub struct UserCredentials {
    pub login: String,
    pub password: String,
}

/// The mathematical content of a `UserCredentials`.
pub struct UserCredentialsV {
    pub login: Seq<char>,
    pub password: Seq<char>,
}

impl View for UserCredentials {
    type V = UserCredentialsV;

    open spec fn view(&self) -> UserCredentialsV {
        UserCredentialsV { login: self.login@, password: self.password@ }
    }
}

impl JsonCodec for UserCredentials {
    open spec fn encode_spec(v: UserCredentialsV) -> JsonVal {
        JsonVal::Obj(
            seq![("login"@, JsonVal::Str(v.login)), ("password"@, JsonVal::Str(v.password))],
        )
    }

    open spec fn decode_spec(j: JsonVal) -> Option<UserCredentialsV> {
        match j {
            JsonVal::Obj(fields) => match (
                obj_lookup(fields, "login"@),
                obj_lookup(fields, "password"@),
            ) {
                (Some(JsonVal::Str(login)), Some(JsonVal::Str(password))) => Some(
                    UserCredentialsV { login, password },
                ),
                _ => None,
            },
            _ => None,
        }
    }

    proof fn lemma_codec_round_trip(v: UserCredentialsV) {
        reveal_strlit("login");
        reveal_strlit("password");
        let fields = seq![
            ("login"@, JsonVal::Str(v.login)),
            ("password"@, JsonVal::Str(v.password)),
        ];
        assert("login"@ != "password"@) by {
            assert("login"@.len() != "password"@.len());
        }
        lemma_obj_lookup_at(fields, 0);
        lemma_obj_lookup_at(fields, 1);
    }

    fn to_json(&self) -> (j: JsonValue) {
        let mut fields: Vec<(String, JsonValue)> = Vec::new();
        fields.push(("login".to_owned(), JsonValue::Str(self.login.clone())));
        fields.push(("password".to_owned(), JsonValue::Str(self.password.clone())));
        proof {
            lemma_fields_view(fields@);
            assert(fields_view(fields@) =~= seq![
                ("login"@, JsonVal::Str(self.login@)),
                ("password"@, JsonVal::Str(self.password@)),
            ]);
        }
        JsonValue::Obj(fields)
    }

    fn from_json(j: &JsonValue) -> (r: Option<UserCredentials>) {
        match j {
            JsonValue::Obj(fields) => {
                let login = obj_get(fields, "login");
                let password = obj_get(fields, "password");
                match (login, password) {
                    (Some(JsonValue::Str(login)), Some(JsonValue::Str(password))) => Some(
                        UserCredentials { login: login.clone(), password: password.clone() },
                    ),
                    _ => None,
                }
            },
            _ => None,
        }
    }
}

/// What a successful authentication answers with.
pub struct UserAuth {
    pub user_id: String,
    pub full_name: String,
    pub token: String,
    pub roles: Vec<String>,
}

/// The mathematical content of a `UserAuth`.
pub struct UserAuthV {
    pub user_id: Seq<char>,
    pub full_name: Seq<char>,
    pub token: Seq<char>,
    pub roles: Seq<Seq<char>>,
}

impl View for UserAuth {
    type V = UserAuthV;

    open spec fn view(&self) -> UserAuthV {
        UserAuthV {
            user_id: self.user_id@,
            full_name: self.full_name@,
            token: self.token@,
            roles: views(self.roles@),
        }
    }
}

impl JsonCodec for UserAuth {
    open spec fn encode_spec(v: UserAuthV) -> JsonVal {
        JsonVal::Obj(
            seq![
                ("user_id"@, JsonVal::Str(v.user_id)),
                ("full_name"@, JsonVal::Str(v.full_name)),
                ("token"@, JsonVal::Str(v.token)),
                ("roles"@, JsonVal::Arr(encode_list::<String>(v.roles))),
            ],
        )
    }

    open spec fn decode_spec(j: JsonVal) -> Option<UserAuthV> {
        match j {
            JsonVal::Obj(fields) => match (
                obj_lookup(fields, "user_id"@),
                obj_lookup(fields, "full_name"@),
                obj_lookup(fields, "token"@),
                obj_lookup(fields, "roles"@),
            ) {
                (
                    Some(JsonVal::Str(user_id)),
                    Some(JsonVal::Str(full_name)),
                    Some(JsonVal::Str(token)),
                    Some(JsonVal::Arr(roles)),
                ) => match decode_list::<String>(roles) {
                    Some(roles) => Some(UserAuthV { user_id, full_name, token, roles }),
                    None => None,
                },
                _ => None,
            },
            _ => None,
        }
    }

    proof fn lemma_codec_round_trip(v: UserAuthV) {
        reveal_strlit("user_id");
        reveal_strlit("full_name");
        reveal_strlit("token");
        reveal_strlit("roles");
        let fields = seq![
            ("user_id"@, JsonVal::Str(v.user_id)),
            ("full_name"@, JsonVal::Str(v.full_name)),
            ("token"@, JsonVal::Str(v.token)),
            ("roles"@, JsonVal::Arr(encode_list::<String>(v.roles))),
        ];
        assert("user_id"@ != "full_name"@) by {
            assert("user_id"@.len() != "full_name"@.len());
        }
        assert("user_id"@ != "token"@) by {
            assert("user_id"@.len() != "token"@.len());
        }
        assert("user_id"@ != "roles"@) by {
            assert("user_id"@.len() != "roles"@.len());
        }
        assert("full_name"@ != "token"@) by {
            assert("full_name"@.len() != "token"@.len());
        }
        assert("full_name"@ != "roles"@) by {
            assert("full_name"@.len() != "roles"@.len());
        }
        assert("token"@ != "roles"@) by {
            assert("token"@[0] == 't' && "roles"@[0] == 'r');
        }
        lemma_obj_lookup_at(fields, 0);
        lemma_obj_lookup_at(fields, 1);
        lemma_obj_lookup_at(fields, 2);
        lemma_obj_lookup_at(fields, 3);
        lemma_list_round_trip::<String>(v.roles);
    }

    fn to_json(&self) -> (j: JsonValue) {
        let mut fields: Vec<(String, JsonValue)> = Vec::new();
        fields.push(("user_id".to_owned(), JsonValue::Str(self.user_id.clone())));
        fields.push(("full_name".to_owned(), JsonValue::Str(self.full_name.clone())));
        fields.push(("token".to_owned(), JsonValue::Str(self.token.clone())));
        fields.push(("roles".to_owned(), JsonValue::Arr(list_to_json(&self.roles))));
        proof {
            lemma_fields_view(fields@);
            assert(views_of(self.roles@) =~= views(self.roles@));
            assert(fields_view(fields@) =~= seq![
                ("user_id"@, JsonVal::Str(self.user_id@)),
                ("full_name"@, JsonVal::Str(self.full_name@)),
                ("token"@, JsonVal::Str(self.token@)),
                ("roles"@, JsonVal::Arr(encode_list::<String>(views(self.roles@)))),
            ]);
        }
        JsonValue::Obj(fields)
    }

    fn from_json(j: &JsonValue) -> (r: Option<UserAuth>) {
        match j {
            JsonValue::Obj(fields) => {
                let user_id = obj_get(fields, "user_id");
                let full_name = obj_get(fields, "full_name");
                let token = obj_get(fields, "token");
                let roles = obj_get(fields, "roles");
                match (user_id, full_name, token, roles) {
                    (
                        Some(JsonValue::Str(user_id)),
                        Some(JsonValue::Str(full_name)),
                        Some(JsonValue::Str(token)),
                        Some(JsonValue::Arr(roles)),
                    ) => match list_from_json::<String>(roles) {
                        Some(roles) => {
                            let ua = UserAuth {
                                user_id: user_id.clone(),
                                full_name: full_name.clone(),
                                token: token.clone(),
                                roles,
                            };
                            proof {
                                assert(views(ua.roles@) =~= views_of(ua.roles@));
                            }
                            Some(ua)
                        },
                        None => None,
                    },
                    _ => None,
                }
            },
            _ => None,
        }
    }
}

/// The identity a verified token stands for.
pub struct AuthInfo {
    pub user_id: String,
    pub roles: Vec<String>,
}

/// The mathematical content of an `AuthInfo`.
pub struct AuthInfoV {
    pub user_id: Seq<char>,
    pub roles: Seq<Seq<char>>,
}

impl View for AuthInfo {
    type V = AuthInfoV;

    open spec fn view(&self) -> AuthInfoV {
        AuthInfoV { user_id: self.user_id@, roles: views(self.roles@) }
    }
}

/// A password change: the caller's token, and the old and new passwords.
pub struct PasswordUpdate {
    pub token: String,
    pub old_password: String,
    pub new_password: String,
}

/// The mathematical content of a `PasswordUpdate`.
pub struct PasswordUpdateV {
    pub token: Seq<char>,
    pub old_password: Seq<char>,
    pub new_password: Seq<char>,
}

impl View for PasswordUpdate {
    type V = PasswordUpdateV;

    open spec fn view(&self) -> PasswordUpdateV {
        PasswordUpdateV {
            token: self.token@,
            old_password: self.old_password@,
            new_password: self.new_password@,
        }
    }
}

impl JsonCodec for PasswordUpdate {
    open spec fn encode_spec(v: PasswordUpdateV) -> JsonVal {
        JsonVal::Obj(
            seq![
                ("token"@, JsonVal::Str(v.token)),
                ("old_password"@, JsonVal::Str(v.old_password)),
                ("new_password"@, JsonVal::Str(v.new_password)),
            ],
        )
    }

    open spec fn decode_spec(j: JsonVal) -> Option<PasswordUpdateV> {
        match j {
            JsonVal::Obj(fields) => match (
                obj_lookup(fields, "token"@),
                obj_lookup(fields, "old_password"@),
                obj_lookup(fields, "new_password"@),
            ) {
                (
                    Some(JsonVal::Str(token)),
                    Some(JsonVal::Str(old_password)),
                    Some(JsonVal::Str(new_password)),
                ) => Some(PasswordUpdateV { token, old_password, new_password }),
                _ => None,
            },
            _ => None,
        }
    }

    proof fn lemma_codec_round_trip(v: PasswordUpdateV) {
        reveal_strlit("token");
        reveal_strlit("old_password");
        reveal_strlit("new_password");
        let fields = seq![
            ("token"@, JsonVal::Str(v.token)),
            ("old_password"@, JsonVal::Str(v.old_password)),
            ("new_password"@, JsonVal::Str(v.new_password)),
        ];
        assert("token"@ != "old_password"@) by {
            assert("token"@.len() != "old_password"@.len());
        }
        assert("token"@ != "new_password"@) by {
            assert("token"@.len() != "new_password"@.len());
        }
        assert("old_password"@ != "new_password"@) by {
            assert("old_password"@[0] == 'o' && "new_password"@[0] == 'n');
        }
        lemma_obj_lookup_at(fields, 0);
        lemma_obj_lookup_at(fields, 1);
        lemma_obj_lookup_at(fields, 2);
    }

    fn to_json(&self) -> (j: JsonValue) {
        let mut fields: Vec<(String, JsonValue)> = Vec::new();
        fields.push(("token".to_owned(), JsonValue::Str(self.token.clone())));
        fields.push(("old_password".to_owned(), JsonValue::Str(self.old_password.clone())));
        fields.push(("new_password".to_owned(), JsonValue::Str(self.new_password.clone())));
        proof {
            lemma_fields_view(fields@);
            assert(fields_view(fields@) =~= seq![
                ("token"@, JsonVal::Str(self.token@)),
                ("old_password"@, JsonVal::Str(self.old_password@)),
                ("new_password"@, JsonVal::Str(self.new_password@)),
            ]);
        }
        JsonValue::Obj(fields)
    }

    fn from_json(j: &JsonValue) -> (r: Option<PasswordUpdate>) {
        match j {
            JsonValue::Obj(fields) => {
                let token = obj_get(fields, "token");
                let old_password = obj_get(fields, "old_password");
                let new_password = obj_get(fields, "new_password");
                match (token, old_password, new_password) {
                    (
                        Some(JsonValue::Str(token)),
                        Some(JsonValue::Str(old_password)),
                        Some(JsonValue::Str(new_password)),
                    ) => Some(
                        PasswordUpdate {
                            token: token.clone(),
                            old_password: old_password.clone(),
                            new_password: new_password.clone(),
                        },
                    ),
                    _ => None,
                }
            },
            _ => None,
        }
    }
}

impl JsonCodec for NewUser {
    open spec fn encode_spec(v: NewUserV) -> JsonVal {
        JsonVal::Obj(
            seq![
                ("login"@, JsonVal::Str(v.login)),
                ("password"@, JsonVal::Str(v.password)),
                ("email"@, opt_str_val(v.email)),
                ("full_name"@, JsonVal::Str(v.full_name)),
                ("roles"@, JsonVal::Arr(encode_list::<String>(v.roles))),
            ],
        )
    }

    open spec fn decode_spec(j: JsonVal) -> Option<NewUserV> {
        match j {
            JsonVal::Obj(fields) => match (
                obj_lookup(fields, "login"@),
                obj_lookup(fields, "password"@),
                obj_lookup(fields, "full_name"@),
                obj_lookup(fields, "roles"@),
            ) {
                (
                    Some(JsonVal::Str(login)),
                    Some(JsonVal::Str(password)),
                    Some(JsonVal::Str(full_name)),
                    Some(JsonVal::Arr(roles)),
                ) => match (decode_list::<String>(roles), obj_lookup(fields, "email"@)) {
                    (Some(roles), Some(JsonVal::Str(email))) => Some(
                        NewUserV { login, password, email: Some(email), full_name, roles },
                    ),
                    (Some(roles), Some(JsonVal::Null)) => Some(
                        NewUserV { login, password, email: None, full_name, roles },
                    ),
                    (Some(roles), None) => Some(
                        NewUserV { login, password, email: None, full_name, roles },
                    ),
                    _ => None,
                },
                _ => None,
            },
            _ => None,
        }
    }

    proof fn lemma_codec_round_trip(v: NewUserV) {
        reveal_strlit("login");
        reveal_strlit("password");
        reveal_strlit("email");
        reveal_strlit("full_name");
        reveal_strlit("roles");
        let fields = seq![
            ("login"@, JsonVal::Str(v.login)),
            ("password"@, JsonVal::Str(v.password)),
            ("email"@, opt_str_val(v.email)),
            ("full_name"@, JsonVal::Str(v.full_name)),
            ("roles"@, JsonVal::Arr(encode_list::<String>(v.roles))),
        ];
        assert("login"@ != "password"@) by {
            assert("login"@.len() != "password"@.len());
        }
        assert("login"@ != "email"@) by {
            assert("login"@[0] == 'l' && "email"@[0] == 'e');
        }
        assert("login"@ != "full_name"@) by {
            assert("login"@.len() != "full_name"@.len());
        }
        assert("login"@ != "roles"@) by {
            assert("login"@[0] == 'l' && "roles"@[0] == 'r');
        }
        assert("password"@ != "email"@) by {
            assert("password"@.len() != "email"@.len());
        }
        assert("password"@ != "full_name"@) by {
            assert("password"@.len() != "full_name"@.len());
        }
        assert("password"@ != "roles"@) by {
            assert("password"@.len() != "roles"@.len());
        }
        assert("email"@ != "full_name"@) by {
            assert("email"@.len() != "full_name"@.len());
        }
        assert("email"@ != "roles"@) by {
            assert("email"@[0] == 'e' && "roles"@[0] == 'r');
        }
        assert("full_name"@ != "roles"@) by {
            assert("full_name"@.len() != "roles"@.len());
        }
        lemma_obj_lookup_at(fields, 0);
        lemma_obj_lookup_at(fields, 1);
        lemma_obj_lookup_at(fields, 2);
        lemma_obj_lookup_at(fields, 3);
        lemma_obj_lookup_at(fields, 4);
        lemma_list_round_trip::<String>(v.roles);
    }

    fn to_json(&self) -> (j: JsonValue) {
        let mut fields: Vec<(String, JsonValue)> = Vec::new();
        fields.push(("login".to_owned(), JsonValue::Str(self.login.clone())));
        fields.push(("password".to_owned(), JsonValue::Str(self.password.clone())));
        match &self.email {
            Some(email) => {
                fields.push(("email".to_owned(), JsonValue::Str(email.clone())));
                proof {
                    assert(self@.email == Some(email@));
                }
            },
            None => {
                fields.push(("email".to_owned(), JsonValue::Null));
                proof {
                    assert(self@.email is None);
                }
            },
        }
        fields.push(("full_name".to_owned(), JsonValue::Str(self.full_name.clone())));
        fields.push(("roles".to_owned(), JsonValue::Arr(list_to_json(&self.roles))));
        proof {
            lemma_fields_view(fields@);
            assert(views_of(self.roles@) =~= views(self.roles@));
            assert(fields_view(fields@) =~= seq![
                ("login"@, JsonVal::Str(self.login@)),
                ("password"@, JsonVal::Str(self.password@)),
                ("email"@, opt_str_val(self@.email)),
                ("full_name"@, JsonVal::Str(self.full_name@)),
                ("roles"@, JsonVal::Arr(encode_list::<String>(views(self.roles@)))),
            ]);
        }
        JsonValue::Obj(fields)
    }

    fn from_json(j: &JsonValue) -> (r: Option<NewUser>) {
        match j {
            JsonValue::Obj(fields) => {
                let login = obj_get(fields, "login");
                let password = obj_get(fields, "password");
                let full_name = obj_get(fields, "full_name");
                let roles = obj_get(fields, "roles");
                match (login, password, full_name, roles) {
                    (
                        Some(JsonValue::Str(login)),
                        Some(JsonValue::Str(password)),
                        Some(JsonValue::Str(full_name)),
                        Some(JsonValue::Arr(roles)),
                    ) => match (list_from_json::<String>(roles), obj_get(fields, "email")) {
                        (Some(roles), email_field) => {
                            let email = match email_field {
                                Some(JsonValue::Str(email)) => Some(email.clone()),
                                Some(JsonValue::Null) => None,
                                None => None,
                                _ => {
                                    return None;
                                },
                            };
                            let nu = NewUser {
                                login: login.clone(),
                                password: password.clone(),
                                email,
                                full_name: full_name.clone(),
                                roles,
                            };
                            proof {
                                assert(views(nu.roles@) =~= views_of(nu.roles@));
                            }
                            Some(nu)
                        },
                        (None, _) => None,
                    },
                    _ => None,
                }
            },
            _ => None,
        }
    }
}

impl NewUser {
    /// Registration data from its parts; an empty email means none.
    pub fn new(login: &str, password: &str, full_name: &str, email: &str, roles: Vec<&str>) -> (nu:
        NewUser)
        ensures
            nu@.login == login@,
            nu@.password == password@,
            nu@.full_name == full_name@,
            nu@.email == if email@.len() > 0 {
                Some(email@)
            } else {
                None::<Seq<char>>
            },
            nu@.roles.len() == roles@.len(),
            forall|i: int| 0 <= i < roles@.len() ==> nu@.roles[i] == #[trigger] roles@[i]@,
    {
        let email_len = email.unicode_len();
        let email_opt = if email_len > 0 {
            Some(email.to_owned())
        } else {
            None
        };
        let mut owned_roles: Vec<String> = Vec::new();
        let mut i: usize = 0;
        while i < roles.len()
            invariant
                i <= roles@.len(),
                owned_roles@.len() == i as int,
                forall|j: int| 0 <= j < i ==> #[trigger] owned_roles@[j]@ == roles@[j]@,
            decreases roles@.len() - i,
        {
            let r = roles[i].to_owned();
            owned_roles.push(r);
            i = i + 1;
        }
        NewUser {
            login: login.to_owned(),
            password: password.to_owned(),
            email: email_opt,
            full_name: full_name.to_owned(),
            roles: owned_roles,
        }
    }
}

/// The first user registered under a login, if any.
pub open spec fn find_by_login(users: Seq<UserInfoV>, login: Seq<char>) -> Option<UserInfoV>
    decreases users.len(),
{
    if users.len() == 0 {
        None
    } else if users[0].login == login {
        Some(users[0])
    } else {
        find_by_login(users.drop_first(), login)
    }
}

/// The first user stored under an id, if any.
pub open spec fn find_by_id(users: Seq<UserInfoV>, id: Seq<char>) -> Option<UserInfoV>
    decreases users.len(),
{
    if users.len() == 0 {
        None
    } else if users[0].id == id {
        Some(users[0])
    } else {
        find_by_id(users.drop_first(), id)
    }
}

/// A user found by id carries that id.
pub proof fn lemma_find_by_id_found(users: Seq<UserInfoV>, id: Seq<char>)
    ensures
        find_by_id(users, id) matches Some(u) ==> u.id == id,
    decreases users.len(),
{
    if users.len() > 0 {
        lemma_find_by_id_found(users.drop_first(), id);
    }
}

/// The roles an action is protected by, if it is protected at all; the most
/// recently added entry wins, so protecting an action again replaces its
/// roles observably.
pub open spec fn protected_roles(
    actions: Seq<(Seq<char>, Seq<Seq<char>>)>,
    action: Seq<char>,
) -> Option<Seq<Seq<char>>>
    decreases actions.len(),
{
    if actions.len() == 0 {
        None
    } else if actions[actions.len() - 1].0 == action {
        Some(actions[actions.len() - 1].1)
    } else {
        protected_roles(actions.drop_last(), action)
    }
}

/// A matching entry with no later match is what `protected_roles` finds.
proof fn lemma_protected_at(actions: Seq<(Seq<char>, Seq<Seq<char>>)>, action: Seq<char>, i: int)
    requires
        0 <= i < actions.len(),
        actions[i].0 == action,
        forall|j: int| i < j < actions.len() ==> actions[j].0 != action,
    ensures
        protected_roles(actions, action) == Some(actions[i].1),
    decreases actions.len(),
{
    if i < actions.len() - 1 {
        lemma_protected_at(actions.drop_last(), action, i);
    }
}

/// No matching entry anywhere means `protected_roles` misses.
proof fn lemma_protected_none(actions: Seq<(Seq<char>, Seq<Seq<char>>)>, action: Seq<char>)
    requires
        forall|j: int| 0 <= j < actions.len() ==> actions[j].0 != action,
    ensures
        protected_roles(actions, action) is None,
    decreases actions.len(),
{
    if actions.len() > 0 {
        lemma_protected_none(actions.drop_last(), action);
    }
}

/// Whether the two role lists share a role.
pub open spec fn roles_intersect(a: Seq<Seq<char>>, b: Seq<Seq<char>>) -> bool {
    exists|i: int, j: int| 0 <= i < a.len() && 0 <= j < b.len() && a[i] == b[j]
}

/// Whether a user's roles grant one of the allowed roles.
pub fn roles_allow(user_roles: &Vec<String>, allowed: &Vec<String>) -> (r: bool)
    ensures
        r == roles_intersect(views(user_roles@), views(allowed@)),
{
    let mut i: usize = 0;
    while i < user_roles.len()
        invariant
            i <= user_roles@.len(),
            forall|m: int, n: int|
                0 <= m < i && 0 <= n < allowed@.len() ==> #[trigger] views(user_roles@)[m]
                    != #[trigger] views(allowed@)[n],
        decreases user_roles@.len() - i,
    {
        let mut j: usize = 0;
        while j < allowed.len()
            invariant
                i < user_roles@.len(),
                j <= allowed@.len(),
                forall|n: int| 0 <= n < j ==> views(user_roles@)[i as int] != #[trigger] views(
                    allowed@,
                )[n],
            decreases allowed@.len() - j,
        {
            if str_eq(user_roles[i].as_str(), allowed[j].as_str()) {
                proof {
                    assert(views(user_roles@)[i as int] == views(allowed@)[j as int]);
                    assert(roles_intersect(views(user_roles@), views(allowed@)));
                }
                return true;
            }
            j = j + 1;
        }
        i = i + 1;
    }
    proof {
        assert(!roles_intersect(views(user_roles@), views(allowed@)));
    }
    false
}

/// The mathematical content of an `AuthAgent`.
pub struct AuthAgentV {
    pub users: Seq<UserInfoV>,
    pub server_secret: Seq<char>,
    pub token_validity_in_days: i64,
    pub protected_actions: Seq<(Seq<char>, Seq<Seq<char>>)>,
}

/// The authentication agent: the registered users, the signing secret, the
/// token validity, and which actions demand which roles.
pub struct AuthAgent {
    users: Vec<UserInfo>,
    server_secret: String,
    token_validity_in_days: i64,
    protected_actions: Vec<(String, Vec<String>)>,
}

impl View for AuthAgent {
    type V = AuthAgentV;

    closed spec fn view(&self) -> AuthAgentV {
        AuthAgentV {
            users: views_of(self.users@),
            server_secret: self.server_secret@,
            token_validity_in_days: self.token_validity_in_days,
            protected_actions: Seq::new(
                self.protected_actions@.len(),
                |i: int| (self.protected_actions@[i].0@, views(self.protected_actions@[i].1@)),
            ),
        }
    }
}

impl AuthAgent {
    /// A fresh agent with no users and no protected actions.
    pub fn new(server_secret: &str, token_validity_in_days: i64) -> (a: AuthAgent)
        ensures
            a@.users == Seq::<UserInfoV>::empty(),
            a@.server_secret == server_secret@,
            a@.token_validity_in_days == token_validity_in_days,
            a@.protected_actions == Seq::<(Seq<char>, Seq<Seq<char>>)>::empty(),
    {
        let a = AuthAgent {
            users: Vec::new(),
            server_secret: server_secret.to_owned(),
            token_validity_in_days,
            protected_actions: Vec::new(),
        };
        proof {
            assert(a@.users =~= Seq::<UserInfoV>::empty());
            assert(a@.protected_actions =~= Seq::<(Seq<char>, Seq<Seq<char>>)>::empty());
        }
        a
    }

    /// An agent over an existing user list: the host process loads and saves
    /// the users; the agent only consults and evolves them.
    pub fn with_users(
        server_secret: &str,
        token_validity_in_days: i64,
        users: Vec<UserInfo>,
    ) -> (a: AuthAgent)
        ensures
            a@.users == views_of(users@),
            a@.server_secret == server_secret@,
            a@.token_validity_in_days == token_validity_in_days,
            a@.protected_actions == Seq::<(Seq<char>, Seq<Seq<char>>)>::empty(),
    {
        let a = AuthAgent {
            users,
            server_secret: server_secret.to_owned(),
            token_validity_in_days,
            protected_actions: Vec::new(),
        };
        proof {
            assert(a@.protected_actions =~= Seq::<(Seq<char>, Seq<Seq<char>>)>::empty());
        }
        a
    }

    /// Demands one of the roles for an action id; an action protected again
    /// carries the new roles.
    pub fn protect_action(&mut self, action: &str, roles: Vec<String>)
        ensures
            final(self)@.users == old(self)@.users,
            final(self)@.server_secret == old(self)@.server_secret,
            final(self)@.token_validity_in_days == old(self)@.token_validity_in_days,
            final(self)@.protected_actions == old(self)@.protected_actions.push(
                (action@, views(roles@)),
            ),
            protected_roles(final(self)@.protected_actions, action@) == Some(views(roles@)),
    {
        self.protected_actions.push((action.to_owned(), roles));
        proof {
            assert(final(self)@.protected_actions =~= old(self)@.protected_actions.push(
                (action@, views(self.protected_actions@.last().1@)),
            ));
        }
    }

    /// The stored users; persistence is the host process's concern, which
    /// reads them here and hands them back through `with_users`.
    pub fn load_users(&self) -> (r: &Vec<UserInfo>)
        ensures
            views_of(r@) == self@.users,
    {
        &self.users
    }

    /// The first user under this login, if any.
    pub fn find_user_from_login(&self, login: &str) -> (r: Option<UserInfo>)
        ensures
            match r {
                Some(u) => find_by_login(self@.users, login@) == Some(u@),
                None => find_by_login(self@.users, login@) is None,
            },
    {
        let users = self.load_users();
        let mut i: usize = 0;
        proof {
            assert(self@.users.skip(0) =~= self@.users);
        }
        while i < users.len()
            invariant
                i <= users@.len(),
                views_of(users@) == self@.users,
                self@.users.len() == users@.len(),
                find_by_login(self@.users, login@) == find_by_login(
                    self@.users.skip(i as int),
                    login@,
                ),
            decreases users@.len() - i,
        {
            proof {
                assert(self@.users.skip(i as int)[0] == self@.users[i as int]);
                assert(self@.users[i as int] == users@[i as int]@);
            }
            if str_eq(users[i].login.as_str(), login) {
                return Some(users[i].clone());
            }
            proof {
                assert(self@.users.skip(i as int).drop_first() =~= self@.users.skip(i + 1));
            }
            i = i + 1;
        }
        proof {
            assert(self@.users.skip(users@.len() as int) =~= Seq::<UserInfoV>::empty());
        }
        None
    }

    /// The first user under this id, if any.
    pub fn find_user_from_id(&self, id: &str) -> (r: Option<UserInfo>)
        ensures
            match r {
                Some(u) => find_by_id(self@.users, id@) == Some(u@),
                None => find_by_id(self@.users, id@) is None,
            },
    {
        let users = self.load_users();
        let mut i: usize = 0;
        proof {
            assert(self@.users.skip(0) =~= self@.users);
        }
        while i < users.len()
            invariant
                i <= users@.len(),
                views_of(users@) == self@.users,
                self@.users.len() == users@.len(),
                find_by_id(self@.users, id@) == find_by_id(self@.users.skip(i as int), id@),
            decreases users@.len() - i,
        {
            proof {
                assert(self@.users.skip(i as int)[0] == self@.users[i as int]);
                assert(self@.users[i as int] == users@[i as int]@);
            }
            if str_eq(users[i].id.as_str(), id) {
                return Some(users[i].clone());
            }
            proof {
                assert(self@.users.skip(i as int).drop_first() =~= self@.users.skip(i + 1));
            }
            i = i + 1;
        }
        proof {
            assert(self@.users.skip(users@.len() as int) =~= Seq::<UserInfoV>::empty());
        }
        None
    }

    /// Stores a new user.
    pub fn add_user(&mut self, user_info: &UserInfo)
        ensures
            final(self)@ == (AuthAgentV {
                users: old(self)@.users.push(user_info@),
                ..old(self)@
            }),
    {
        let u = user_info.clone();
        self.users.push(u);
        proof {
            assert(final(self)@.users =~= old(self)@.users.push(user_info@));
            assert(final(self)@.protected_actions =~= old(self)@.protected_actions);
        }
    }

    /// Replaces every stored user under this user's id by this user.
    pub fn save_user(&mut self, user_info: &UserInfo)
        ensures
            final(self)@ == (AuthAgentV {
                users: Seq::new(
                    old(self)@.users.len(),
                    |i: int|
                        if old(self)@.users[i].id == user_info@.id {
                            user_info@
                        } else {
                            old(self)@.users[i]
                        },
                ),
                ..old(self)@
            }),
    {
        let ghost pre = self@;
        let mut i: usize = 0;
        while i < self.users.len()
            invariant
                i <= self.users@.len(),
                self@.users.len() == pre.users.len(),
                self@.server_secret == pre.server_secret,
                self@.token_validity_in_days == pre.token_validity_in_days,
                self@.protected_actions == pre.protected_actions,
                pre == old(self)@,
                forall|j: int| i <= j < pre.users.len() ==> #[trigger] self@.users[j]
                    == pre.users[j],
                forall|j: int| 0 <= j < i ==> #[trigger] self@.users[j] == if pre.users[j].id
                    == user_info@.id {
                    user_info@
                } else {
                    pre.users[j]
                },
            decreases self.users@.len() - i,
        {
            let ghost prev = self@.users;
            proof {
                assert(self@.users[i as int] == self.users@[i as int]@);
            }
            if str_eq(self.users[i].id.as_str(), user_info.id.as_str()) {
                proof {
                    assert(pre.users[i as int].id == user_info@.id);
                }
                let u = user_info.clone();
                self.users.set(i, u);
                proof {
                    assert(self@.users[i as int] == user_info@);
                    assert forall|j: int| 0 <= j < pre.users.len() && j != i implies #[trigger]
                        self@.users[j] == prev[j] by {
                        assert(self@.users[j] == self.users@[j]@);
                    }
                }
            } else {
                proof {
                    assert(pre.users[i as int].id != user_info@.id);
                }
            }
            i = i + 1;
        }
        proof {
            assert(final(self)@.users =~= Seq::new(
                pre.users.len(),
                |i: int|
                    if pre.users[i].id == user_info@.id {
                        user_info@
                    } else {
                        pre.users[i]
                    },
            ));
            assert(final(self)@.protected_actions =~= pre.protected_actions);
        }
    }

    /// Handler for the `register_user` operation: refused when the login is
    /// taken; otherwise the user is stored with a hash of the password, and
    /// the answer carries the user's identity and a fresh token.
    pub fn register_user(&mut self, new_user: NewUser) -> (r: Result<UserAuth, String>)
        ensures
            final(self)@.server_secret == old(self)@.server_secret,
            final(self)@.token_validity_in_days == old(self)@.token_validity_in_days,
            final(self)@.protected_actions == old(self)@.protected_actions,
            find_by_login(old(self)@.users, new_user@.login) is Some ==> r is Err
                && final(self)@.users == old(self)@.users,
            new_user@.password.len() > MAX_PASSWORD_LEN ==> r is Err && final(self)@.users
                == old(self)@.users,
            (find_by_login(old(self)@.users, new_user@.login) is None && new_user@.password.len()
                <= MAX_PASSWORD_LEN) ==> r is Ok,
            match r {
                Ok(ua) => {
                    &&& ua@.user_id == new_user@.login
                    &&& ua@.full_name == new_user@.full_name
                    &&& ua@.roles == new_user@.roles
                    &&& (exists|pw: Seq<char>|
                        #[trigger] verify_of(new_user@.password, pw) && final(self)@.users == old(
                            self,
                        )@.users.push(
                            UserInfoV {
                                id: new_user@.login,
                                login: new_user@.login,
                                email: new_user@.email,
                                full_name: new_user@.full_name,
                                password: pw,
                                roles: new_user@.roles,
                            },
                        ))
                    &&& (exists|exp: i64|
                        ua@.token == token_of(
                            #[trigger] TokenClaims::encode_spec(
                                TokenClaimsV {
                                    user_id: new_user@.login,
                                    roles: new_user@.roles,
                                    exp,
                                },
                            ),
                            old(self)@.server_secret,
                        ))
                },
                Err(m) => m@ == "Unable to add User"@ && final(self)@.users == old(self)@.users,
            },
    {
        match self.find_user_from_login(new_user.login.as_str()) {
            Some(_) => Err("Unable to add User".to_owned()),
            None => {
                if new_user.password.unicode_len() > MAX_PASSWORD_LEN {
                    return Err("Unable to add User".to_owned());
                }
                let user_info = UserInfo::from_new_user(new_user);
                let validity_in_hours = match self.token_validity_in_days.checked_mul(24) {
                    Some(v) => v,
                    None => i64::MAX,
                };
                let token = user_info.new_token(self.server_secret.as_str(), validity_in_hours);
                let ua = UserAuth {
                    user_id: user_info.id.clone(),
                    full_name: user_info.full_name.clone(),
                    roles: clone_strings(&user_info.roles),
                    token,
                };
                self.add_user(&user_info);
                proof {
                    assert(verify_of(new_user@.password, user_info@.password));
                    let exp = choose|exp: i64|
                        ua@.token == token_of(
                            #[trigger] TokenClaims::encode_spec(
                                TokenClaimsV {
                                    user_id: user_info@.login,
                                    roles: user_info@.roles,
                                    exp,
                                },
                            ),
                            old(self)@.server_secret,
                        );
                    assert(TokenClaimsV { user_id: user_info@.login, roles: user_info@.roles, exp }
                        == TokenClaimsV { user_id: new_user@.login, roles: new_user@.roles, exp });
                }
                Ok(ua)
            },
        }
    }

    /// Handler for the `login` operation: the stored user under the login
    /// must exist and the password must verify against its hash; the answer
    /// carries the user's identity and a fresh token.
    pub fn login(&self, credentials: UserCredentials) -> (r: Result<UserAuth, String>)
        ensures
            match r {
                Ok(ua) => ({
                    &&& find_by_login(self@.users, credentials@.login) matches Some(u)
                    &&& verify_of(
                        credentials@.password,
                        find_by_login(self@.users, credentials@.login)->Some_0.password,
                    )
                    &&& ua@.user_id == find_by_login(self@.users, credentials@.login)->Some_0.id
                    &&& ua@.full_name == find_by_login(
                        self@.users,
                        credentials@.login,
                    )->Some_0.full_name
                    &&& ua@.roles == find_by_login(self@.users, credentials@.login)->Some_0.roles
                    &&& (exists|exp: i64|
                        ua@.token == token_of(
                            #[trigger] TokenClaims::encode_spec(
                                TokenClaimsV {
                                    user_id: find_by_login(
                                        self@.users,
                                        credentials@.login,
                                    )->Some_0.login,
                                    roles: find_by_login(
                                        self@.users,
                                        credentials@.login,
                                    )->Some_0.roles,
                                    exp,
                                },
                            ),
                            self@.server_secret,
                        ))
                }),
                Err(m) => m@ == "Auth error"@,
            },
            (find_by_login(self@.users, credentials@.login) matches Some(u) && verify_of(
                credentials@.password,
                u.password,
            )) ==> r is Ok,
            find_by_login(self@.users, credentials@.login) is None ==> r is Err,
            (find_by_login(self@.users, credentials@.login) matches Some(u) && !verify_of(
                credentials@.password,
                u.password,
            )) ==> r is Err,
    {
        match self.find_user_from_login(credentials.login.as_str()) {
            Some(user) => {
                if user.is_password_valid(credentials.password.as_str()) {
                    let validity_in_hours = match self.token_validity_in_days.checked_mul(24) {
                        Some(v) => v,
                        None => i64::MAX,
                    };
                    let token = user.new_token(self.server_secret.as_str(), validity_in_hours);
                    let ua = UserAuth {
                        user_id: user.id.clone(),
                        full_name: user.full_name.clone(),
                        roles: clone_strings(&user.roles),
                        token,
                    };
                    proof {
                        let exp = choose|exp: i64|
                            ua@.token == token_of(
                                #[trigger] TokenClaims::encode_spec(
                                    TokenClaimsV { user_id: user@.login, roles: user@.roles, exp },
                                ),
                                self@.server_secret,
                            );
                        assert(TokenClaimsV { user_id: user@.login, roles: user@.roles, exp }
                            == TokenClaimsV {
                            user_id: find_by_login(self@.users, credentials@.login)->Some_0.login,
                            roles: find_by_login(self@.users, credentials@.login)->Some_0.roles,
                            exp,
                        });
                    }
                    Ok(ua)
                } else {
                    Err("Auth error".to_owned())
                }
            },
            None => Err("Auth error".to_owned()),
        }
    }

    /// The refresh step once a token has been verified: the identity's user
    /// must still be stored, and earns a fresh token.
    pub fn refresh_for(&self, auth: &AuthInfo) -> (r: Result<UserAuth, String>)
        ensures
            find_by_id(self@.users, auth@.user_id) is Some ==> r is Ok,
            find_by_id(self@.users, auth@.user_id) is None ==> r is Err,
            r matches Err(m) ==> m@ == "Auth error"@,
            r matches Ok(ua) ==> ({
                let u = find_by_id(self@.users, auth@.user_id)->Some_0;
                &&& find_by_id(self@.users, auth@.user_id) is Some
                &&& ua@.user_id == u.id
                &&& ua@.full_name == u.full_name
                &&& ua@.roles == u.roles
                &&& (exists|exp: i64|
                    ua@.token == token_of(
                        #[trigger] TokenClaims::encode_spec(
                            TokenClaimsV { user_id: u.login, roles: u.roles, exp },
                        ),
                        self@.server_secret,
                    ))
            }),
    {
        match self.find_user_from_id(auth.user_id.as_str()) {
            Some(user) => {
                let validity_in_hours = match self.token_validity_in_days.checked_mul(24) {
                    Some(v) => v,
                    None => i64::MAX,
                };
                let fresh = user.new_token(self.server_secret.as_str(), validity_in_hours);
                let ua = UserAuth {
                    user_id: user.id.clone(),
                    full_name: user.full_name.clone(),
                    roles: clone_strings(&user.roles),
                    token: fresh,
                };
                proof {
                    lemma_find_by_id_found(self@.users, auth@.user_id);
                    assert(find_by_id(self@.users, auth@.user_id) == Some(user@));
                    let exp = choose|exp: i64|
                        ua@.token == token_of(
                            #[trigger] TokenClaims::encode_spec(
                                TokenClaimsV { user_id: user@.login, roles: user@.roles, exp },
                            ),
                            self@.server_secret,
                        );
                    assert(ua@.token == token_of(
                        TokenClaims::encode_spec(
                            TokenClaimsV {
                                user_id: find_by_id(self@.users, auth@.user_id)->Some_0.login,
                                roles: find_by_id(self@.users, auth@.user_id)->Some_0.roles,
                                exp,
                            },
                        ),
                        self@.server_secret,
                    ));
                }
                Ok(ua)
            },
            None => Err("Auth error".to_owned()),
        }
    }

    /// Handler for the `refresh_token` operation: a valid, current token
    /// whose user is still stored earns a fresh token.
    pub fn refresh_token(&self, token: UserToken) -> (r: Result<UserAuth, String>)
        ensures
            match r {
                Ok(ua) => exists|u: UserInfoV|
                    #[trigger] find_by_id(self@.users, u.id) == Some(u) && ua@.user_id == u.id
                        && ua@.full_name == u.full_name && ua@.roles == u.roles,
                Err(m) => m@ == "Auth error"@,
            },
    {
        match token.check_token(self.server_secret.as_str()) {
            Ok(auth) => {
                let r = self.refresh_for(&auth);
                proof {
                    if r is Ok {
                        lemma_find_by_id_found(self@.users, auth@.user_id);
                        let u = find_by_id(self@.users, auth@.user_id)->Some_0;
                        assert(find_by_id(self@.users, u.id) == Some(u));
                    }
                }
                r
            },
            Err(_) => Err("Auth error".to_owned()),
        }
    }

    /// The password-change step once a token has been verified: the
    /// identity's user must still be stored and the new password short
    /// enough to hash; every stored user under that id then carries a hash
    /// the new password verifies against, and the answer carries a fresh
    /// token.
    pub fn update_password_for(&mut self, auth: &AuthInfo, new_password: &str) -> (r: Result<
        UserAuth,
        String,
    >)
        ensures
            final(self)@.server_secret == old(self)@.server_secret,
            final(self)@.token_validity_in_days == old(self)@.token_validity_in_days,
            final(self)@.protected_actions == old(self)@.protected_actions,
            r matches Err(m) ==> m@ == "Auth error"@ && final(self)@.users == old(self)@.users,
            (find_by_id(old(self)@.users, auth@.user_id) is Some && new_password@.len()
                <= MAX_PASSWORD_LEN) ==> r is Ok,
            find_by_id(old(self)@.users, auth@.user_id) is None ==> r is Err,
            new_password@.len() > MAX_PASSWORD_LEN ==> r is Err,
            r matches Ok(ua) ==> ({
                let u = find_by_id(old(self)@.users, auth@.user_id)->Some_0;
                &&& find_by_id(old(self)@.users, auth@.user_id) is Some
                &&& ua@.user_id == u.id
                &&& ua@.full_name == u.full_name
                &&& ua@.roles == u.roles
                &&& (exists|pw: Seq<char>|
                    #[trigger] verify_of(new_password@, pw) && final(self)@.users == Seq::new(
                        old(self)@.users.len(),
                        |i: int|
                            if old(self)@.users[i].id == u.id {
                                UserInfoV { password: pw, ..u }
                            } else {
                                old(self)@.users[i]
                            },
                    ))
            }),
    {
        if new_password.unicode_len() > MAX_PASSWORD_LEN {
            return Err("Auth error".to_owned());
        }
        match self.find_user_from_id(auth.user_id.as_str()) {
            Some(user) => {
                let mut user = user;
                let ghost found = user@;
                user.password = hash_password(new_password);
                let validity_in_hours = match self.token_validity_in_days.checked_mul(24) {
                    Some(v) => v,
                    None => i64::MAX,
                };
                let fresh = user.new_token(self.server_secret.as_str(), validity_in_hours);
                self.save_user(&user);
                let ua = UserAuth {
                    user_id: user.id.clone(),
                    full_name: user.full_name.clone(),
                    roles: clone_strings(&user.roles),
                    token: fresh,
                };
                proof {
                    lemma_find_by_id_found(old(self)@.users, auth@.user_id);
                    assert(find_by_id(old(self)@.users, auth@.user_id) == Some(found));
                    assert(verify_of(new_password@, user@.password));
                    assert(user@ == (UserInfoV { password: user@.password, ..found }));
                    assert(final(self)@.users =~= Seq::new(
                        old(self)@.users.len(),
                        |i: int|
                            if old(self)@.users[i].id == found.id {
                                UserInfoV { password: user@.password, ..found }
                            } else {
                                old(self)@.users[i]
                            },
                    ));
                }
                Ok(ua)
            },
            None => Err("Auth error".to_owned()),
        }
    }

    /// Handler for the `update_password` operation: a valid, current token
    /// whose user is still stored has that user's password replaced by a
    /// hash of the new password, and earns a fresh token.
    pub fn update_password(&mut self, update: PasswordUpdate) -> (r: Result<UserAuth, String>)
        ensures
            final(self)@.server_secret == old(self)@.server_secret,
            final(self)@.token_validity_in_days == old(self)@.token_validity_in_days,
            final(self)@.protected_actions == old(self)@.protected_actions,
            match r {
                Ok(ua) => exists|u: UserInfoV, pw: Seq<char>|
                    {
                        &&& #[trigger] find_by_id(old(self)@.users, u.id) == Some(u)
                        &&& #[trigger] verify_of(update@.new_password, pw)
                        &&& ua@.user_id == u.id
                        &&& ua@.full_name == u.full_name
                        &&& ua@.roles == u.roles
                        &&& final(self)@.users == Seq::new(
                            old(self)@.users.len(),
                            |i: int|
                                if old(self)@.users[i].id == u.id {
                                    UserInfoV { password: pw, ..u }
                                } else {
                                    old(self)@.users[i]
                                },
                        )
                    },
                Err(m) => m@ == "Auth error"@ && final(self)@.users == old(self)@.users,
            },
    {
        let token = UserToken::new(update.token.as_str());
        match token.check_token(self.server_secret.as_str()) {
            Ok(auth) => {
                let r = self.update_password_for(&auth, update.new_password.as_str());
                proof {
                    if r is Ok {
                        lemma_find_by_id_found(old(self)@.users, auth@.user_id);
                        let u = find_by_id(old(self)@.users, auth@.user_id)->Some_0;
                        assert(find_by_id(old(self)@.users, u.id) == Some(u));
                        let pw = choose|pw: Seq<char>|
                            #[trigger] verify_of(update@.new_password, pw) && final(self)@.users
                                == Seq::new(
                                old(self)@.users.len(),
                                |i: int|
                                    if old(self)@.users[i].id == u.id {
                                        UserInfoV { password: pw, ..u }
                                    } else {
                                        old(self)@.users[i]
                                    },
                            );
                        assert(verify_of(update@.new_password, pw));
                    }
                }
                r
            },
            Err(_) => Err("Auth error".to_owned()),
        }
    }

    /// Whether a bearer of the token may invoke the action: actions outside
    /// the protected table are open to everyone; a protected action is
    /// granted only to a valid, current token carrying one of its roles —
    /// so whenever it is granted, some role list intersects the demanded
    /// one, and a protected action demanding no roles is granted to nobody.
    pub fn is_accessible(&self, token: &str, action: &str) -> (r: bool)
        ensures
            protected_roles(self@.protected_actions, action@) is None ==> r == true,
            (protected_roles(self@.protected_actions, action@) is Some && r) ==> exists|
                granted: Seq<Seq<char>>,
            |
                #[trigger] roles_intersect(
                    granted,
                    protected_roles(self@.protected_actions, action@)->Some_0,
                ),
    {
        let mut i: usize = self.protected_actions.len();
        while i > 0
            invariant
                i <= self.protected_actions@.len(),
                self@.protected_actions.len() == self.protected_actions@.len(),
                forall|j: int| 0 <= j < self.protected_actions@.len() ==> #[trigger] self@
                    .protected_actions[j] == (
                    self.protected_actions@[j].0@,
                    views(self.protected_actions@[j].1@),
                ),
                forall|j: int| i <= j < self@.protected_actions.len() ==> self@
                    .protected_actions[j].0 != action@,
            decreases i,
        {
            i = i - 1;
            if str_eq(self.protected_actions[i].0.as_str(), action) {
                proof {
                    lemma_protected_at(self@.protected_actions, action@, i as int);
                }
                let token = UserToken::new(token);
                match token.check_token(self.server_secret.as_str()) {
                    Ok(auth_info) => {
                        let r = roles_allow(&auth_info.roles, &self.protected_actions[i].1);
                        proof {
                            assert(views(self.protected_actions@[i as int].1@) == self@
                                .protected_actions[i as int].1);
                            assert(protected_roles(self@.protected_actions, action@) == Some(
                                self@.protected_actions[i as int].1,
                            ));
                            if r {
                                assert(roles_intersect(
                                    views(auth_info.roles@),
                                    protected_roles(self@.protected_actions, action@)->Some_0,
                                ));
                                assert(exists|granted: Seq<Seq<char>>| #[trigger] roles_intersect(
                                    granted,
                                    protected_roles(self@.protected_actions, action@)->Some_0,
                                ));
                            }
                        }
                        return r;
                    },
                    Err(_) => {
                        return false;
                    },
                }
            }
        }
        proof {
            lemma_protected_none(self@.protected_actions, action@);
        }
        true
    }
}

impl UserToken {
    /// Wraps a presented token.
    pub fn new(token: &str) -> (t: UserToken)
        ensures
            t@.token == token@,
    {
        UserToken { token: token.to_owned() }
    }

    /// Verifies the token against the secret and reads the identity it
    /// carries; the clock takes part, so which tokens verify is not pinned.
    pub fn check_token(&self, server_secret: &str) -> Result<AuthInfo, ()> {
        match verify_token(self.token.as_str(), server_secret) {
            Ok(claims) => Ok(AuthInfo { user_id: claims.user_id, roles: claims.roles }),
            Err(_) => Err(()),
        }
    }
}

/// What the `register_user` operation yields and how it changes the users.
pub open spec fn auth_register_post(
    pre_users: Seq<UserInfoV>,
    post_users: Seq<UserInfoV>,
    payload: JsonVal,
    out: OutputV,
) -> bool {
    match <NewUser as JsonCodec>::decode_spec(payload) {
        Some(nu) => {
            &&& (find_by_login(pre_users, nu.login) is Some ==> out == error_val(
                "Unable to add User"@,
            ) && post_users == pre_users)
            &&& (nu.password.len() > MAX_PASSWORD_LEN ==> out == error_val(
                "Unable to add User"@,
            ) && post_users == pre_users)
            &&& ((find_by_login(pre_users, nu.login) is None && nu.password.len()
                <= MAX_PASSWORD_LEN) ==> (exists|
                ua: UserAuthV,
                pw: Seq<char>,
            |
                {
                    &&& out == success_val(#[trigger] UserAuth::encode_spec(ua))
                    &&& ua.user_id == nu.login
                    &&& ua.full_name == nu.full_name
                    &&& ua.roles == nu.roles
                    &&& #[trigger] verify_of(nu.password, pw)
                    &&& post_users == pre_users.push(
                        UserInfoV {
                            id: nu.login,
                            login: nu.login,
                            email: nu.email,
                            full_name: nu.full_name,
                            password: pw,
                            roles: nu.roles,
                        },
                    )
                }))
        },
        None => out == error_val("Unable to get payload"@) && post_users == pre_users,
    }
}

/// What the `login` operation yields; the users never change.
pub open spec fn auth_login_post(
    pre_users: Seq<UserInfoV>,
    payload: JsonVal,
    out: OutputV,
) -> bool {
    match <UserCredentials as JsonCodec>::decode_spec(payload) {
        Some(creds) => (out == error_val("Auth error"@) && !(find_by_login(
            pre_users,
            creds.login,
        ) is Some && verify_of(
            creds.password,
            find_by_login(pre_users, creds.login)->Some_0.password,
        ))) || (exists|ua: UserAuthV|
            {
                &&& out == success_val(#[trigger] UserAuth::encode_spec(ua))
                &&& find_by_login(pre_users, creds.login) is Some
                &&& verify_of(creds.password, find_by_login(pre_users, creds.login)->Some_0.password)
                &&& ua.user_id == find_by_login(pre_users, creds.login)->Some_0.id
                &&& ua.full_name == find_by_login(pre_users, creds.login)->Some_0.full_name
                &&& ua.roles == find_by_login(pre_users, creds.login)->Some_0.roles
            }),
        None => out == error_val("Unable to get payload"@),
    }
}

/// What the `refresh_token` operation yields; the users never change.
pub open spec fn auth_refresh_post(
    pre_users: Seq<UserInfoV>,
    payload: JsonVal,
    out: OutputV,
) -> bool {
    match <UserToken as JsonCodec>::decode_spec(payload) {
        Some(_) => (out == error_val("Auth error"@)) || (exists|ua: UserAuthV, u: UserInfoV|
            {
                &&& out == success_val(#[trigger] UserAuth::encode_spec(ua))
                &&& #[trigger] find_by_id(pre_users, u.id) == Some(u)
                &&& ua.user_id == u.id
                &&& ua.full_name == u.full_name
                &&& ua.roles == u.roles
            }),
        None => out == error_val("Unable to get payload"@),
    }
}

/// What the `update_password` operation yields and how it rewrites one
/// stored user.
pub open spec fn auth_update_post(
    pre_users: Seq<UserInfoV>,
    post_users: Seq<UserInfoV>,
    payload: JsonVal,
    out: OutputV,
) -> bool {
    match <PasswordUpdate as JsonCodec>::decode_spec(payload) {
        Some(up) => (out == error_val("Auth error"@) && post_users == pre_users) || (exists|
            ua: UserAuthV,
            u: UserInfoV,
            pw: Seq<char>,
        |
            {
                &&& out == success_val(#[trigger] UserAuth::encode_spec(ua))
                &&& #[trigger] find_by_id(pre_users, u.id) == Some(u)
                &&& #[trigger] verify_of(up.new_password, pw)
                &&& ua.user_id == u.id
                &&& ua.full_name == u.full_name
                &&& ua.roles == u.roles
                &&& post_users == Seq::new(
                    pre_users.len(),
                    |i: int|
                        if pre_users[i].id == u.id {
                            UserInfoV { password: pw, ..u }
                        } else {
                            pre_users[i]
                        },
                )
            }),
        None => out == error_val("Unable to get payload"@) && post_users == pre_users,
    }
}

/// The operation names in the agent's dispatch table.
pub open spec fn auth_handles(op: Seq<char>) -> bool {
    op == "register_user"@ || op == "login"@ || op == "refresh_token"@ || op
        == "update_password"@
}

/// What executing an action against the authentication agent yields, and
/// how it changes the stored users: registration appends the new user, a
/// password update rewrites one user, and everything else leaves the users
/// alone. The configuration never changes.
pub open spec fn auth_output(
    pre: AuthAgentV,
    post: AuthAgentV,
    action: ActionV,
    out: OutputV,
) -> bool {
    &&& post.server_secret == pre.server_secret
    &&& post.token_validity_in_days == pre.token_validity_in_days
    &&& post.protected_actions == pre.protected_actions
    &&& (operation_of(action.id) == "register_user"@ ==> auth_register_post(
        pre.users,
        post.users,
        action.payload,
        out,
    ))
    &&& (operation_of(action.id) == "login"@ ==> post.users == pre.users && auth_login_post(
        pre.users,
        action.payload,
        out,
    ))
    &&& (operation_of(action.id) == "refresh_token"@ ==> post.users == pre.users
        && auth_refresh_post(pre.users, action.payload, out))
    &&& (operation_of(action.id) == "update_password"@ ==> auth_update_post(
        pre.users,
        post.users,
        action.payload,
        out,
    ))
    &&& (!auth_handles(operation_of(action.id)) ==> out == error_val("Unknown action"@)
        && post.users == pre.users)
}

impl AuthAgent {
    /// The dispatch table: operation name, payload decode, handler, wrap.
    #[verifier::rlimit(50)]
    pub fn handle(&mut self, action: &Action) -> (out: Output)
        ensures
            auth_output(old(self)@, final(self)@, action@, out@),
    {
        proof {
            reveal_strlit("register_user");
            reveal_strlit("login");
            reveal_strlit("refresh_token");
            reveal_strlit("update_password");
            assert("register_user"@ != "login"@) by {
                assert("register_user"@.len() != "login"@.len());
            }
            assert("register_user"@ != "refresh_token"@) by {
                assert("register_user"@[2] == 'g' && "refresh_token"@[2] == 'f');
            }
            assert("register_user"@ != "update_password"@) by {
                assert("register_user"@.len() != "update_password"@.len());
            }
            assert("login"@ != "refresh_token"@) by {
                assert("login"@.len() != "refresh_token"@.len());
            }
            assert("login"@ != "update_password"@) by {
                assert("login"@.len() != "update_password"@.len());
            }
            assert("refresh_token"@ != "update_password"@) by {
                assert("refresh_token"@.len() != "update_password"@.len());
            }
        }
        let name = action.get_name();
        if str_eq(name, "register_user") {
            match action.get_payload::<NewUser>() {
                Ok(new_user) => match self.register_user(new_user) {
                    Ok(ua) => {
                        let out = Output::new_success(&ua);
                        proof {
                            let pw = choose|pw: Seq<char>|
                                #[trigger] verify_of(new_user@.password, pw) && final(self)@.users
                                    == old(self)@.users.push(
                                    UserInfoV {
                                        id: new_user@.login,
                                        login: new_user@.login,
                                        email: new_user@.email,
                                        full_name: new_user@.full_name,
                                        password: pw,
                                        roles: new_user@.roles,
                                    },
                                );
                            assert(verify_of(new_user@.password, pw));
                        }
                        out
                    },
                    Err(m) => Output::new_error(m.as_str()),
                },
                Err(_) => Output::new_error("Unable to get payload"),
            }
        } else if str_eq(name, "login") {
            match action.get_payload::<UserCredentials>() {
                Ok(credentials) => match self.login(credentials) {
                    Ok(ua) => {
                        let out = Output::new_success(&ua);
                        proof {
                            assert(auth_login_post(old(self)@.users, action@.payload, out@));
                        }
                        out
                    },
                    Err(m) => {
                        let out = Output::new_error(m.as_str());
                        proof {
                            assert(auth_login_post(old(self)@.users, action@.payload, out@));
                        }
                        out
                    },
                },
                Err(_) => Output::new_error("Unable to get payload"),
            }
        } else if str_eq(name, "refresh_token") {
            match action.get_payload::<UserToken>() {
                Ok(token) => match self.refresh_token(token) {
                    Ok(ua) => {
                        let out = Output::new_success(&ua);
                        proof {
                            let u = choose|u: UserInfoV|
                                #[trigger] find_by_id(self@.users, u.id) == Some(u) && ua@.user_id
                                    == u.id && ua@.full_name == u.full_name && ua@.roles == u.roles;
                            assert(find_by_id(self@.users, u.id) == Some(u));
                            assert(auth_refresh_post(old(self)@.users, action@.payload, out@));
                        }
                        out
                    },
                    Err(m) => {
                        let out = Output::new_error(m.as_str());
                        proof {
                            assert(auth_refresh_post(old(self)@.users, action@.payload, out@));
                        }
                        out
                    },
                },
                Err(_) => Output::new_error("Unable to get payload"),
            }
        } else if str_eq(name, "update_password") {
            match action.get_payload::<PasswordUpdate>() {
                Ok(update) => match self.update_password(update) {
                    Ok(ua) => {
                        let out = Output::new_success(&ua);
                        proof {
                            let (u, pw) = choose|u: UserInfoV, pw: Seq<char>|
                                {
                                    &&& #[trigger] find_by_id(old(self)@.users, u.id) == Some(u)
                                    &&& #[trigger] verify_of(update@.new_password, pw)
                                    &&& ua@.user_id == u.id
                                    &&& ua@.full_name == u.full_name
                                    &&& ua@.roles == u.roles
                                    &&& final(self)@.users == Seq::new(
                                        old(self)@.users.len(),
                                        |i: int|
                                            if old(self)@.users[i].id == u.id {
                                                UserInfoV { password: pw, ..u }
                                            } else {
                                                old(self)@.users[i]
                                            },
                                    )
                                };
                            assert(find_by_id(old(self)@.users, u.id) == Some(u));
                            assert(verify_of(update@.new_password, pw));
                            assert(<PasswordUpdate as JsonCodec>::decode_spec(action@.payload)
                                == Some(update@));
                            assert(verify_of(
                                <PasswordUpdate as JsonCodec>::decode_spec(
                                    action@.payload,
                                )->Some_0.new_password,
                                pw,
                            ));
                            assert(auth_update_post(
                                old(self)@.users,
                                final(self)@.users,
                                action@.payload,
                                out@,
                            ));
                        }
                        out
                    },
                    Err(m) => {
                        let out = Output::new_error(m.as_str());
                        proof {
                            assert(auth_update_post(
                                old(self)@.users,
                                final(self)@.users,
                                action@.payload,
                                out@,
                            ));
                        }
                        out
                    },
                },
                Err(_) => Output::new_error("Unable to get payload"),
            }
        } else {
            Output::new_error("Unknown action")
        }
    }
}

} // verus!
