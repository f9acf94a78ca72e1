use wallpapy::client::app::split_login_reply;
use wallpapy::common::LoginPacket;
use wallpapy::server::auth::{
    generate_token, login_impl, login_with, touch_token, verify_token, Account, FreshCredentials,
    LoginError, TOKEN_LENGTH,
};

fn packet(username: &str, password: &str) -> LoginPacket {
    LoginPacket { username: username.to_string(), password: password.to_string() }
}

fn fresh(token: &str, now: i64) -> FreshCredentials {
    FreshCredentials {
        token: token.to_string(),
        now,
        account_id: 77,
        salt: "c29tZXNhbHRzYWx0".to_string(),
    }
}

#[test]
fn first_login_creates_admin() {
    let mut accounts: Vec<Account> = Vec::new();
    let answer = login_with(&mut accounts, &packet("admin", "secret1"), fresh("tokA", 1000));
    assert_eq!(answer, Ok("Admin Account Created|tokA".to_string()));
    assert_eq!(accounts.len(), 1);
    assert!(accounts[0].admin);
    assert_eq!(accounts[0].uuid, 77);
    assert_eq!(accounts[0].username, "admin");
    assert!(accounts[0].password_hash.starts_with("$argon2"));
    assert_eq!(accounts[0].tokens.len(), 1);
    assert_eq!(accounts[0].tokens[0].token, "tokA");
    assert_eq!(accounts[0].tokens[0].last_used, 1000);
}

#[test]
fn short_password_is_refused() {
    let mut accounts: Vec<Account> = Vec::new();
    let answer = login_with(&mut accounts, &packet("admin", "short"), fresh("t", 1));
    assert_eq!(answer, Err(LoginError::PasswordTooShort));
    assert!(accounts.is_empty());
    assert_eq!(LoginError::PasswordTooShort.message(), "Password must be at least 6 characters long");
}

#[test]
fn later_logins_check_the_password() {
    let mut accounts: Vec<Account> = Vec::new();
    assert!(login_with(&mut accounts, &packet("admin", "secret1"), fresh("tokA", 1000)).is_ok());

    let answer = login_with(&mut accounts, &packet("admin", "secret1"), fresh("tokB", 2000));
    assert_eq!(answer, Ok("tokB".to_string()));
    assert_eq!(accounts.len(), 1);
    assert_eq!(accounts[0].tokens.len(), 2);

    let answer = login_with(&mut accounts, &packet("admin", "wrongpass"), fresh("tokC", 3000));
    assert_eq!(answer, Err(LoginError::IncorrectCredentials));
    assert_eq!(accounts[0].tokens.len(), 2);

    let answer = login_with(&mut accounts, &packet("nobody", "secret1"), fresh("tokD", 4000));
    assert_eq!(answer, Err(LoginError::IncorrectCredentials));
    assert_eq!(LoginError::IncorrectCredentials.message(), "Incorrect username or password");
}

#[test]
fn account_without_password_gets_one() {
    let mut accounts = vec![Account {
        admin: true,
        uuid: 5,
        username: "owner".to_string(),
        password_hash: String::new(),
        tokens: Vec::new(),
    }];
    let answer = login_with(&mut accounts, &packet("owner", "newpassword"), fresh("tokE", 10));
    assert_eq!(answer, Ok("Admin Set|tokE".to_string()));
    assert!(!accounts[0].password_hash.is_empty());
    assert_eq!(accounts[0].tokens.len(), 1);
    let again = login_with(&mut accounts, &packet("owner", "newpassword"), fresh("tokF", 20));
    assert_eq!(again, Ok("tokF".to_string()));
}

#[test]
fn login_token_is_then_valid() {
    let mut accounts: Vec<Account> = Vec::new();
    assert!(login_with(&mut accounts, &packet("admin", "secret1"), fresh("tokA", 1000)).is_ok());
    assert!(touch_token(&mut accounts, "tokA", 5000));
    assert_eq!(accounts[0].tokens[0].last_used, 5000);
    assert!(touch_token(&mut accounts, "tokA", 6000));
    assert_eq!(accounts[0].tokens[0].last_used, 6000);
    assert!(!touch_token(&mut accounts, "other", 7000));
    assert_eq!(accounts[0].tokens[0].last_used, 6000);
}

#[test]
fn generated_tokens_are_alphanumeric() {
    let (entry, token) = generate_token();
    assert_eq!(token.chars().count(), TOKEN_LENGTH);
    assert!(token.chars().all(|c| c.is_ascii_alphanumeric()));
    assert_eq!(entry.token, token);
}

#[test]
fn login_impl_hands_out_a_verifiable_token() {
    let mut accounts: Vec<Account> = Vec::new();
    let answer = login_impl(&mut accounts, &packet("admin", "secret1")).unwrap();
    let token = answer.split_once('|').unwrap().1.to_string();
    assert_eq!(token.chars().count(), TOKEN_LENGTH);
    assert!(verify_token(&mut accounts, &token));
    assert!(!verify_token(&mut accounts, "not-a-token"));
}

#[test]
fn client_keeps_the_token_the_server_stored() {
    let mut accounts: Vec<Account> = Vec::new();
    let first = login_with(&mut accounts, &packet("admin", "secret1"), fresh("Tok1", 1)).unwrap();
    assert_eq!(split_login_reply(&first).1, "Tok1");
    let second = login_with(&mut accounts, &packet("admin", "secret1"), fresh("Tok2", 2)).unwrap();
    assert_eq!(split_login_reply(&second).1, "Tok2");
    for token in ["Tok1", "Tok2"] {
        assert!(touch_token(&mut accounts, token, 3));
    }
}

#[test]
fn login_impl_sets_a_missing_password_that_then_works() {
    let mut accounts = vec![Account {
        admin: true,
        uuid: 3,
        username: "owner".to_string(),
        password_hash: String::new(),
        tokens: Vec::new(),
    }];
    let answer = login_impl(&mut accounts, &packet("owner", "longenough")).unwrap();
    assert!(answer.starts_with("Admin Set|"));
    assert!(!accounts[0].password_hash.is_empty());
    let again = login_impl(&mut accounts, &packet("owner", "longenough")).unwrap();
    assert_eq!(again.chars().count(), TOKEN_LENGTH);
    assert_eq!(accounts[0].tokens.len(), 2);
    assert_eq!(
        login_impl(&mut accounts, &packet("owner", "different")),
        Err(LoginError::IncorrectCredentials)
    );
}
