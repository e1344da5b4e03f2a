//! The authentication agent, driven through the registry.

use swarm_rs::swarm::{Agent, Swarm};
use swarm_rs::web::auth::auth_agent::{
    AuthAgent, PasswordUpdate, UserAuth, UserCredentials, UserToken,
};
use swarm_rs::web::auth::passwd::{hash_password, verify_password};
use swarm_rs::web::auth::user::NewUser;

#[test]
pub fn test_hash_password() {
    let password = "my-password";
    let hash = hash_password(password);
    let is_valid = verify_password(password, &hash);
    println!("Hash : {}", hash);
    println!("Valid : {}", is_valid);
    assert!(is_valid);
}

#[test]
pub fn auth_agent() {
    let auth = AuthAgent::new("test-server-secret", 1);
    let mut swarm = Swarm::new();
    swarm.register_agent("auth", Agent::Auth(auth));

    let new_user = NewUser::new("admin", "p4ssw0rd", "Admin", "", vec!["Admin"]);

    let output = swarm.execute("auth.register_user", &new_user);
    assert!(output.is_success());

    let payload = UserCredentials {
        login: "admin".to_string(),
        password: "p4ssw0rd".to_string(),
    };

    let output = swarm.execute("auth.login", &payload);
    assert!(output.is_success());

    let user_auth: UserAuth = output.get_payload().unwrap();
    assert_eq!(user_auth.user_id, "admin");
    assert_eq!(user_auth.full_name, "Admin");
    assert_eq!(user_auth.roles, vec!["Admin".to_string()]);

    let payload = UserCredentials {
        login: "admin".to_string(),
        password: "password".to_string(),
    };

    let output = swarm.execute("auth.login", &payload);
    assert!(!output.is_success());

    let payload = UserToken {
        token: user_auth.token.to_string(),
    };

    let output = swarm.execute("auth.refresh_token", &payload);
    assert!(output.is_success());

    let payload = PasswordUpdate {
        token: user_auth.token.to_string(),
        old_password: "p4ssw0rd".to_string(),
        new_password: "new_p4ssw0rd".to_string(),
    };

    let output = swarm.execute("auth.update_password", &payload);
    println!("update_password succeeded : {}", output.is_success());
    assert!(output.is_success());

    let payload = UserCredentials {
        login: "admin".to_string(),
        password: "p4ssw0rd".to_string(),
    };

    let output = swarm.execute("auth.login", &payload);
    assert!(!output.is_success());

    let payload = UserCredentials {
        login: "admin".to_string(),
        password: "new_p4ssw0rd".to_string(),
    };

    let output = swarm.execute("auth.login", &payload);
    assert!(output.is_success());
}

#[test]
fn duplicate_registration_is_refused() {
    let mut auth = AuthAgent::new("s3cret", 1);
    let first = auth.register_user(NewUser::new("sam", "pw-one", "Sam", "", vec![]));
    assert!(first.is_ok());
    let second = auth.register_user(NewUser::new("sam", "pw-two", "Sam Again", "", vec![]));
    match second {
        Ok(_) => panic!("duplicate registration went through"),
        Err(m) => assert_eq!(m, "Unable to add User"),
    }
}

#[test]
fn unknown_auth_operation_is_reported() {
    let mut swarm = Swarm::new();
    swarm.register_agent("auth", Agent::Auth(AuthAgent::new("s3cret", 1)));
    let output = swarm.execute("auth.reset_everything", &"x".to_string());
    assert!(!output.is_success());
    assert_eq!(output.get_error_message(), "Unknown action");
}

#[test]
fn protected_actions_demand_a_role() {
    let mut auth = AuthAgent::new("s3cret", 1);
    auth.protect_action("admin.wipe", vec!["Admin".to_string()]);

    // An unprotected action is open even without a token.
    assert!(auth.is_accessible("", "anything.else"));

    // A protected action refuses a garbage token.
    assert!(!auth.is_accessible("not-a-token", "admin.wipe"));

    // A protected action accepts a token carrying the demanded role.
    let reg = auth
        .register_user(NewUser::new("root", "pw", "Root", "", vec!["Admin"]))
        .unwrap();
    assert!(auth.is_accessible(&reg.token, "admin.wipe"));

    // A token without the demanded role is refused.
    let reg = auth
        .register_user(NewUser::new("guest", "pw", "Guest", "", vec!["Viewer"]))
        .unwrap();
    assert!(!auth.is_accessible(&reg.token, "admin.wipe"));
}

#[test]
fn find_users_by_login_and_id() {
    let mut auth = AuthAgent::new("s3cret", 1);
    auth.register_user(NewUser::new("ada", "pw", "Ada", "ada@example.org", vec![]))
        .unwrap();
    let by_login = auth.find_user_from_login("ada").unwrap();
    assert_eq!(by_login.full_name, "Ada");
    assert_eq!(by_login.email, Some("ada@example.org".to_string()));
    let by_id = auth.find_user_from_id(&by_login.id).unwrap();
    assert_eq!(by_id.login, "ada");
    assert!(auth.find_user_from_login("nobody").is_none());
}

#[test]
fn users_survive_a_store_round_trip() {
    // The host process persists users by reading them out and building a
    // fresh agent over the same list.
    let mut first = AuthAgent::new("s3cret", 1);
    first
        .register_user(NewUser::new("ada", "pw", "Ada", "", vec!["Admin"]))
        .unwrap();
    let stored = first.load_users().clone();

    let second = AuthAgent::with_users("s3cret", 1, stored);
    let user = second.find_user_from_login("ada").unwrap();
    assert_eq!(user.full_name, "Ada");
    assert!(user.is_password_valid("pw"));
}

#[test]
fn protecting_an_action_again_replaces_its_roles() {
    let mut auth = AuthAgent::new("s3cret", 1);
    auth.protect_action("admin.wipe", vec!["Admin".to_string()]);
    let reg = auth
        .register_user(NewUser::new("root", "pw", "Root", "", vec!["Admin"]))
        .unwrap();
    assert!(auth.is_accessible(&reg.token, "admin.wipe"));

    // Re-protecting with an empty role list locks everyone out.
    auth.protect_action("admin.wipe", Vec::new());
    assert!(!auth.is_accessible(&reg.token, "admin.wipe"));
}
