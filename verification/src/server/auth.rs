//! Accounts, passwords and session tokens.
//!
//! The accounts are held in the order the stored account map hands them
//! out; each has its own identifier.
use crate::common::LoginPacket;
use crate::fresh::{is_alphanumeric, new_uuid, now_micros, random_alphanumeric};
use argon2::password_hash::rand_core::OsRng;
use argon2::password_hash::{PasswordHash, PasswordHasher, PasswordVerifier, SaltString};
use argon2::Argon2;
use vstd::prelude::*;

verus! {

/// The fewest bytes a password may have.
pub const MIN_PASSWORD_LENGTH: usize = 6;

/// The number of characters in a session token.
pub const TOKEN_LENGTH: usize = 20;

/// A session token and when it was last used (microseconds since the
/// epoch).
#[derive(Clone, Debug)]
pub struct Token {
    pub token: String,
    pub last_used: i64,
}

/// A user account.
#[derive(Clone, Debug)]
pub struct Account {
    pub admin: bool,
    pub uuid: u128,
    pub username: String,
    /// The PHC string of the Argon2 password hash; empty when no password
    /// has been set yet.
    pub password_hash: String,
    pub tokens: Vec<Token>,
}

/// What an account holds, as plain values.
pub struct AccountView {
    pub admin: bool,
    pub uuid: u128,
    pub username: Seq<char>,
    pub password_hash: Seq<char>,
    pub tokens: Seq<(Seq<char>, i64)>,
}

impl View for Token {
    type V = (Seq<char>, i64);

    open spec fn view(&self) -> (Seq<char>, i64) {
        (self.token@, self.last_used)
    }
}

impl View for Account {
    type V = AccountView;

    open spec fn view(&self) -> AccountView {
        AccountView {
            admin: self.admin,
            uuid: self.uuid,
            username: self.username@,
            password_hash: self.password_hash@,
            tokens: self.tokens@.map_values(|t: Token| t@),
        }
    }
}

/// The views of a sequence of accounts.
pub open spec fn accounts_view(accounts: Seq<Account>) -> Seq<AccountView> {
    accounts.map_values(|a: Account| a@)
}

/// Why a login was refused.
#[derive(Clone, Copy, Debug, PartialEq, Eq, Structural)]
pub enum LoginError {
    /// A new password is shorter than `MIN_PASSWORD_LENGTH` bytes.
    PasswordTooShort,
    /// Hashing the new password failed.
    HashFailed,
    /// No account has the name, or the password does not match.
    IncorrectCredentials,
}

/// The text a login refusal is reported with.
pub open spec fn login_error_message(e: LoginError) -> Seq<char> {
    match e {
        LoginError::PasswordTooShort => "Password must be at least 6 characters long"@,
        LoginError::HashFailed => "Failed to hash password"@,
        LoginError::IncorrectCredentials => "Incorrect username or password"@,
    }
}

impl LoginError {
    /// The text the refusal is reported with.
    pub fn message(&self) -> (text: &'static str)
        ensures
            text@ == login_error_message(*self),
    {
        match self {
            LoginError::PasswordTooShort => "Password must be at least 6 characters long",
            LoginError::HashFailed => "Failed to hash password",
            LoginError::IncorrectCredentials => "Incorrect username or password",
        }
    }
}

/// The PHC string that Argon2 with its default parameters makes of a
/// password and a B64 salt, or `None` when the salt is not valid B64 or
/// hashing fails.
pub uninterp spec fn argon2_hash(password: Seq<char>, salt: Seq<char>) -> Option<Seq<char>>;

/// Whether a PHC string parses and Argon2 accepts the password against it.
pub uninterp spec fn argon2_accepts(password: Seq<char>, phc: Seq<char>) -> bool;

/// Whether `c` is a character of the standard Base64 alphabet.
pub open spec fn is_b64_char(c: char) -> bool {
    ('A' <= c <= 'Z') || ('a' <= c <= 'z') || ('0' <= c <= '9') || c == '+' || c == '/'
}

/// Whether a text is a salt as `SaltString::generate` makes one: sixteen
/// bytes in unpadded standard Base64, that is 22 characters of the alphabet
/// whose last one carries no bits beyond the sixteenth byte (`A`, `Q`, `g`
/// or `w`).
pub open spec fn generated_salt(s: Seq<char>) -> bool {
    &&& s.len() == 22
    &&& forall|i: int| 0 <= i < 22 ==> is_b64_char(#[trigger] s[i])
    &&& (s[21] == 'A' || s[21] == 'Q' || s[21] == 'g' || s[21] == 'w')
}

/// Hashes `password` with `Argon2::default()` and the salt given as B64:
/// calls `SaltString::from_b64` and `PasswordHasher::hash_password`, then
/// `to_string` on the hash. The result is named `argon2_hash` of the two
/// texts. Of a salt as `SaltString::generate` makes one, `from_b64` accepts
/// the length and the characters and the hasher decodes it to sixteen bytes,
/// at least the eight Argon2 needs; with a password of at most `u32::MAX`
/// bytes nothing else can fail, so the hash is made. A hash that is made is
/// a PHC string (not empty), and verifying the same password against it
/// recomputes the same output with the parameters and salt it records, so
/// `password_matches` accepts it.
#[verifier::external_body]
fn hash_password(password: &str, salt: &str) -> (phc: Option<String>)
    ensures
        match phc {
            Some(h) => argon2_hash(password@, salt@) == Some(h@),
            None => argon2_hash(password@, salt@) is None,
        },
        generated_salt(salt@) && byte_len(password@) <= u32::MAX ==> phc is Some,
        phc matches Some(h) ==> h@.len() > 0 && argon2_accepts(password@, h@),
{
    let salt = SaltString::from_b64(salt).ok()?;
    Argon2::default().hash_password(password.as_bytes(), &salt).ok().map(|h| h.to_string())
}

/// Checks `password` against a PHC string: calls `PasswordHash::new` and
/// `PasswordVerifier::verify_password` of `Argon2::default()`; a string that
/// does not parse gives `false`. The result is named `argon2_accepts`.
#[verifier::external_body]
fn password_matches(password: &str, phc: &str) -> (ok: bool)
    ensures
        ok == argon2_accepts(password@, phc@),
{
    match PasswordHash::new(phc) {
        Ok(parsed) => Argon2::default().verify_password(password.as_bytes(), &parsed).is_ok(),
        Err(_) => false,
    }
}

/// A fresh random salt in B64: calls `SaltString::generate` with `OsRng`,
/// which encodes sixteen random bytes; which bytes is left open.
#[verifier::external_body]
fn random_salt() -> (salt: String)
    ensures
        generated_salt(salt@),
{
    SaltString::generate(&mut OsRng).as_str().to_string()
}

/// The number of bytes of the UTF-8 encoding of a text.
pub open spec fn byte_len(s: Seq<char>) -> nat {
    vstd::utf8::encode_utf8(s).len()
}

/// The values a login draws from chance and the clock.
#[derive(Clone, Debug)]
pub struct FreshCredentials {
    /// The new session token.
    pub token: String,
    /// The time the token is first used.
    pub now: i64,
    /// The identifier a new account gets.
    pub account_id: u128,
    /// The salt a new password is hashed with.
    pub salt: String,
}

/// The index of the first account with the name, if any.
pub open spec fn user_index(accounts: Seq<AccountView>, name: Seq<char>) -> Option<int>
    decreases accounts.len(),
{
    if accounts.len() == 0 {
        None
    } else if accounts[0].username == name {
        Some(0)
    } else {
        match user_index(accounts.drop_first(), name) {
            Some(i) => Some(i + 1),
            None => None,
        }
    }
}

/// The accounts after a login, and what the login answers.
///
/// With no accounts at all, the first login makes an administrator account
/// with the given name and password. An account whose password is empty has
/// it set by its next login. Otherwise the password must match. Each
/// successful login adds a new token to the account.
pub open spec fn login_outcome(
    accounts: Seq<AccountView>,
    name: Seq<char>,
    password: Seq<char>,
    token: Seq<char>,
    now: i64,
    account_id: u128,
    salt: Seq<char>,
) -> (Seq<AccountView>, Result<Seq<char>, LoginError>) {
    if accounts.len() == 0 {
        if byte_len(password) < MIN_PASSWORD_LENGTH {
            (accounts, Err(LoginError::PasswordTooShort))
        } else {
            match argon2_hash(password, salt) {
                None => (accounts, Err(LoginError::HashFailed)),
                Some(h) => (
                    seq![
                        AccountView {
                            admin: true,
                            uuid: account_id,
                            username: name,
                            password_hash: h,
                            tokens: seq![(token, now)],
                        },
                    ],
                    Ok("Admin Account Created|"@ + token),
                ),
            }
        }
    } else {
        match user_index(accounts, name) {
            None => (accounts, Err(LoginError::IncorrectCredentials)),
            Some(i) => {
                let acc = accounts[i];
                if acc.password_hash.len() == 0 {
                    if byte_len(password) < MIN_PASSWORD_LENGTH {
                        (accounts, Err(LoginError::PasswordTooShort))
                    } else {
                        match argon2_hash(password, salt) {
                            None => (accounts, Err(LoginError::HashFailed)),
                            Some(h) => (
                                accounts.update(
                                    i,
                                    AccountView {
                                        password_hash: h,
                                        tokens: acc.tokens.push((token, now)),
                                        ..acc
                                    },
                                ),
                                Ok("Admin Set|"@ + token),
                            ),
                        }
                    }
                } else if !argon2_accepts(password, acc.password_hash) {
                    (accounts, Err(LoginError::IncorrectCredentials))
                } else {
                    (
                        accounts.update(
                            i,
                            AccountView { tokens: acc.tokens.push((token, now)), ..acc },
                        ),
                        Ok(token),
                    )
                }
            },
        }
    }
}

/// The view of a login answer.
pub open spec fn answer_view(r: Result<String, LoginError>) -> Result<Seq<char>, LoginError> {
    match r {
        Ok(s) => Ok(s@),
        Err(e) => Err(e),
    }
}

/// Finds the first account with the name.
fn find_user(accounts: &Vec<Account>, name: &String) -> (index: Option<usize>)
    ensures
        user_index(accounts_view(accounts@), name@) == match index {
            Some(i) => Some(i as int),
            None => None,
        },
        index matches Some(i) ==> i < accounts@.len(),
{
    let n = accounts.len();
    let mut i: usize = 0;
    while i < n
        invariant
            n == accounts@.len(),
            i <= n,
            forall|k: int| 0 <= k < i ==> accounts@[k].username@ != name@,
        decreases n - i,
    {
        if accounts[i].username == *name {
            proof {
                lemma_user_index_at(accounts_view(accounts@), name@, i as int);
            }
            return Some(i);
        }
        i = i + 1;
    }
    proof {
        lemma_user_index_none(accounts_view(accounts@), name@);
    }
    None
}

proof fn lemma_user_index_at(a: Seq<AccountView>, name: Seq<char>, i: int)
    requires
        0 <= i < a.len(),
        a[i].username == name,
        forall|k: int| 0 <= k < i ==> a[k].username != name,
    ensures
        user_index(a, name) == Some(i),
    decreases i,
{
    if i > 0 {
        lemma_user_index_at(a.drop_first(), name, i - 1);
    }
}

proof fn lemma_user_index_none(a: Seq<AccountView>, name: Seq<char>)
    requires
        forall|k: int| 0 <= k < a.len() ==> a[k].username != name,
    ensures
        user_index(a, name) is None,
    decreases a.len(),
{
    if a.len() > 0 {
        lemma_user_index_none(a.drop_first(), name);
    }
}

/// Whether the account with the name exists, has a password, and its stored
/// hash accepts `password`.
pub open spec fn password_works(accounts: Seq<AccountView>, name: Seq<char>, password: Seq<char>) -> bool {
    user_index(accounts, name) matches Some(i) && accounts[i].password_hash.len() > 0
        && argon2_accepts(password, accounts[i].password_hash)
}

proof fn lemma_user_index_update(a: Seq<AccountView>, name: Seq<char>, i: int, v: AccountView)
    requires
        0 <= i < a.len(),
        v.username == a[i].username,
    ensures
        user_index(a.update(i, v), name) == user_index(a, name),
    decreases a.len(),
{
    let u = a.update(i, v);
    assert(u[0].username == a[0].username);
    if i > 0 {
        lemma_user_index_update(a.drop_first(), name, i - 1, v);
        assert(u.drop_first() =~= a.drop_first().update(i - 1, v));
    } else {
        assert(u.drop_first() =~= a.drop_first());
    }
}

/// Logs in with the given fresh values, changing the accounts as
/// `login_outcome` says and answering as it says.
pub fn login_with(
    accounts: &mut Vec<Account>,
    packet: &LoginPacket,
    fresh: FreshCredentials,
) -> (answer: Result<String, LoginError>)
    ensures
        generated_salt(fresh.salt@) && byte_len(packet.password@) <= u32::MAX ==> answer
            != Err::<String, LoginError>(LoginError::HashFailed),
        answer is Ok ==> password_works(
            accounts_view(final(accounts)@),
            packet.username@,
            packet.password@,
        ),
        (accounts_view(final(accounts)@), answer_view(answer)) == login_outcome(
            accounts_view(old(accounts)@),
            packet.username@,
            packet.password@,
            fresh.token@,
            fresh.now,
            fresh.account_id,
            fresh.salt@,
        ),
{
    let ghost before = accounts_view(accounts@);
    let password = packet.password.as_str();
    let too_short = password.as_bytes().len() < MIN_PASSWORD_LENGTH;
    assert(too_short == (byte_len(packet.password@) < MIN_PASSWORD_LENGTH));
    if accounts.len() == 0 {
        if too_short {
            return Err(LoginError::PasswordTooShort);
        }
        let hash = match hash_password(packet.password.as_str(), fresh.salt.as_str()) {
            Some(h) => h,
            None => return Err(LoginError::HashFailed),
        };
        let answer = crate::text::cat("Admin Account Created|", fresh.token.as_str());
        let ghost token_view = fresh.token@;
        let mut tokens: Vec<Token> = Vec::new();
        tokens.push(Token { token: fresh.token, last_used: fresh.now });
        assert(tokens@.map_values(|t: Token| t@) =~= seq![(token_view, fresh.now)]);
        accounts.push(
            Account {
                admin: true,
                uuid: fresh.account_id,
                username: packet.username.clone(),
                password_hash: hash,
                tokens,
            },
        );
        assert(accounts_view(accounts@) =~= login_outcome(
            before,
            packet.username@,
            packet.password@,
            token_view,
            fresh.now,
            fresh.account_id,
            fresh.salt@,
        ).0);
        assert(user_index(accounts_view(accounts@), packet.username@) == Some(0int));
        return Ok(answer);
    }
    let i = match find_user(accounts, &packet.username) {
        Some(i) => i,
        None => return Err(LoginError::IncorrectCredentials),
    };
    assert(before[i as int] == accounts@[i as int]@);
    if accounts[i].password_hash.as_str().unicode_len() == 0 {
        if too_short {
            return Err(LoginError::PasswordTooShort);
        }
        let hash = match hash_password(packet.password.as_str(), fresh.salt.as_str()) {
            Some(h) => h,
            None => return Err(LoginError::HashFailed),
        };
        let answer = crate::text::cat("Admin Set|", fresh.token.as_str());
        let mut acc = accounts.remove(i);
        let ghost old_tokens = acc.tokens@;
        acc.tokens.push(Token { token: fresh.token, last_used: fresh.now });
        acc.password_hash = hash;
        assert(acc.tokens@.map_values(|t: Token| t@) =~= old_tokens.map_values(|t: Token| t@).push(
            (fresh.token@, fresh.now),
        ));
        accounts.insert(i, acc);
        assert(accounts_view(accounts@) =~= login_outcome(
            before,
            packet.username@,
            packet.password@,
            fresh.token@,
            fresh.now,
            fresh.account_id,
            fresh.salt@,
        ).0);
        proof {
            lemma_user_index_update(before, packet.username@, i as int, accounts_view(accounts@)[i as int]);
            assert(accounts_view(accounts@) == before.update(i as int, accounts_view(accounts@)[i as int]));
        }
        return Ok(answer);
    }
    if !password_matches(packet.password.as_str(), accounts[i].password_hash.as_str()) {
        return Err(LoginError::IncorrectCredentials);
    }
    let answer = fresh.token.clone();
    let mut acc = accounts.remove(i);
    let ghost old_tokens = acc.tokens@;
    acc.tokens.push(Token { token: fresh.token, last_used: fresh.now });
    assert(acc.tokens@.map_values(|t: Token| t@) =~= old_tokens.map_values(|t: Token| t@).push(
        (answer@, fresh.now),
    ));
    accounts.insert(i, acc);
    assert(accounts_view(accounts@) =~= login_outcome(
        before,
        packet.username@,
        packet.password@,
        answer@,
        fresh.now,
        fresh.account_id,
        fresh.salt@,
    ).0);
    proof {
        lemma_user_index_update(before, packet.username@, i as int, accounts_view(accounts@)[i as int]);
        assert(accounts_view(accounts@) == before.update(i as int, accounts_view(accounts@)[i as int]));
    }
    Ok(answer)
}

/// A new session token: `TOKEN_LENGTH` random letters and digits, last used
/// now. Returns the entry and its text.
pub fn generate_token() -> (res: (Token, String))
    ensures
        res.0.token@ == res.1@,
        res.1@.len() == TOKEN_LENGTH,
        forall|i: int| 0 <= i < res.1@.len() ==> is_alphanumeric(#[trigger] res.1@[i]),
{
    let new_token = random_alphanumeric(TOKEN_LENGTH);
    let token = Token { token: new_token.clone(), last_used: now_micros() };
    (token, new_token)
}

/// Logs in: draws a new token, the time, an identifier for a new account
/// and a salt, and then changes the accounts and answers as
/// `login_outcome` says for those values.
pub fn login_impl(accounts: &mut Vec<Account>, packet: &LoginPacket) -> (answer: Result<
    String,
    LoginError,
>)
    ensures
        byte_len(packet.password@) <= u32::MAX ==> answer != Err::<String, LoginError>(
            LoginError::HashFailed,
        ),
        answer is Ok ==> password_works(
            accounts_view(final(accounts)@),
            packet.username@,
            packet.password@,
        ),
        exists|token: Seq<char>, now: i64, account_id: u128, salt: Seq<char>|
            {
                &&& token.len() == TOKEN_LENGTH
                &&& forall|i: int| 0 <= i < token.len() ==> is_alphanumeric(#[trigger] token[i])
                &&& generated_salt(salt)
                &&& (accounts_view(final(accounts)@), answer_view(answer)) == login_outcome(
                    accounts_view(old(accounts)@),
                    packet.username@,
                    packet.password@,
                    token,
                    now,
                    account_id,
                    salt,
                )
            },
{
    let (entry, token) = generate_token();
    let fresh = FreshCredentials {
        token,
        now: entry.last_used,
        account_id: new_uuid(),
        salt: random_salt(),
    };
    let ghost f = fresh;
    let answer = login_with(accounts, packet, fresh);
    assert(f.token@.len() == TOKEN_LENGTH);
    answer
}

/// The index of the first token entry with the text, if any.
pub open spec fn token_index(tokens: Seq<(Seq<char>, i64)>, token: Seq<char>) -> Option<int>
    decreases tokens.len(),
{
    if tokens.len() == 0 {
        None
    } else if tokens[0].0 == token {
        Some(0)
    } else {
        match token_index(tokens.drop_first(), token) {
            Some(i) => Some(i + 1),
            None => None,
        }
    }
}

/// The index of the first account holding the token, if any.
pub open spec fn token_owner(accounts: Seq<AccountView>, token: Seq<char>) -> Option<int>
    decreases accounts.len(),
{
    if accounts.len() == 0 {
        None
    } else if token_index(accounts[0].tokens, token) is Some {
        Some(0)
    } else {
        match token_owner(accounts.drop_first(), token) {
            Some(i) => Some(i + 1),
            None => None,
        }
    }
}

/// The accounts after checking a token at time `now`, and whether it was
/// valid: the first entry with the text is marked as used at `now`.
pub open spec fn touch_outcome(accounts: Seq<AccountView>, token: Seq<char>, now: i64) -> (Seq<
    AccountView,
>, bool) {
    match token_owner(accounts, token) {
        None => (accounts, false),
        Some(i) => {
            let acc = accounts[i];
            let j = token_index(acc.tokens, token)->0;
            (accounts.update(i, AccountView { tokens: acc.tokens.update(j, (token, now)), ..acc }), true)
        },
    }
}

proof fn lemma_token_index_at(tokens: Seq<(Seq<char>, i64)>, token: Seq<char>, j: int)
    requires
        0 <= j < tokens.len(),
        tokens[j].0 == token,
        forall|k: int| 0 <= k < j ==> tokens[k].0 != token,
    ensures
        token_index(tokens, token) == Some(j),
    decreases j,
{
    if j > 0 {
        lemma_token_index_at(tokens.drop_first(), token, j - 1);
    }
}

proof fn lemma_token_index_none(tokens: Seq<(Seq<char>, i64)>, token: Seq<char>)
    requires
        forall|k: int| 0 <= k < tokens.len() ==> tokens[k].0 != token,
    ensures
        token_index(tokens, token) is None,
    decreases tokens.len(),
{
    if tokens.len() > 0 {
        lemma_token_index_none(tokens.drop_first(), token);
    }
}

proof fn lemma_token_owner_at(accounts: Seq<AccountView>, token: Seq<char>, i: int)
    requires
        0 <= i < accounts.len(),
        token_index(accounts[i].tokens, token) is Some,
        forall|k: int| 0 <= k < i ==> token_index(#[trigger] accounts[k].tokens, token) is None,
    ensures
        token_owner(accounts, token) == Some(i),
    decreases i,
{
    if i > 0 {
        let rest = accounts.drop_first();
        assert forall|k: int| 0 <= k < i - 1 implies token_index(#[trigger] rest[k].tokens, token) is None by {
            assert(rest[k] == accounts[k + 1]);
        }
        lemma_token_owner_at(rest, token, i - 1);
    }
}

proof fn lemma_token_owner_none(accounts: Seq<AccountView>, token: Seq<char>)
    requires
        forall|k: int| 0 <= k < accounts.len() ==> token_index(#[trigger] accounts[k].tokens, token) is None,
    ensures
        token_owner(accounts, token) is None,
    decreases accounts.len(),
{
    if accounts.len() > 0 {
        let rest = accounts.drop_first();
        assert forall|k: int| 0 <= k < rest.len() implies token_index(#[trigger] rest[k].tokens, token) is None by {
            assert(rest[k] == accounts[k + 1]);
        }
        lemma_token_owner_none(rest, token);
    }
}

proof fn lemma_user_index_props(accounts: Seq<AccountView>, name: Seq<char>)
    ensures
        user_index(accounts, name) matches Some(i) ==> 0 <= i < accounts.len()
            && accounts[i].username == name,
    decreases accounts.len(),
{
    if accounts.len() > 0 && accounts[0].username != name {
        lemma_user_index_props(accounts.drop_first(), name);
    }
}

proof fn lemma_token_index_some(tokens: Seq<(Seq<char>, i64)>, token: Seq<char>, j: int)
    requires
        0 <= j < tokens.len(),
        tokens[j].0 == token,
    ensures
        token_index(tokens, token) is Some,
    decreases j,
{
    if j > 0 && tokens[0].0 != token {
        lemma_token_index_some(tokens.drop_first(), token, j - 1);
    }
}

proof fn lemma_token_index_props(tokens: Seq<(Seq<char>, i64)>, token: Seq<char>)
    ensures
        token_index(tokens, token) matches Some(j) ==> 0 <= j < tokens.len() && tokens[j].0
            == token && forall|k: int| 0 <= k < j ==> tokens[k].0 != token,
    decreases tokens.len(),
{
    if tokens.len() > 0 && tokens[0].0 != token {
        let rest = tokens.drop_first();
        lemma_token_index_props(rest, token);
        if let Some(j) = token_index(rest, token) {
            assert forall|k: int| 0 <= k < j + 1 implies tokens[k].0 != token by {
                if k > 0 {
                    assert(tokens[k] == rest[k - 1]);
                }
            }
        }
    }
}

proof fn lemma_token_owner_some(accounts: Seq<AccountView>, token: Seq<char>, i: int)
    requires
        0 <= i < accounts.len(),
        token_index(accounts[i].tokens, token) is Some,
    ensures
        token_owner(accounts, token) is Some,
    decreases i,
{
    if i > 0 && token_index(accounts[0].tokens, token) is None {
        lemma_token_owner_some(accounts.drop_first(), token, i - 1);
    }
}

proof fn lemma_token_owner_props(accounts: Seq<AccountView>, token: Seq<char>)
    ensures
        token_owner(accounts, token) matches Some(i) ==> {
            &&& 0 <= i < accounts.len()
            &&& token_index(accounts[i].tokens, token) is Some
            &&& forall|k: int| 0 <= k < i ==> token_index(#[trigger] accounts[k].tokens, token) is None
        },
    decreases accounts.len(),
{
    if accounts.len() > 0 && token_index(accounts[0].tokens, token) is None {
        let rest = accounts.drop_first();
        lemma_token_owner_props(rest, token);
        if let Some(i) = token_owner(rest, token) {
            assert forall|k: int| 0 <= k < i + 1 implies token_index(#[trigger] accounts[k].tokens, token) is None by {
                if k > 0 {
                    assert(accounts[k] == rest[k - 1]);
                }
            }
        }
    }
}

/// A login that succeeds hands out a valid token: checking that token
/// afterwards, at any time, finds it.
pub proof fn lemma_login_token_is_valid(
    accounts: Seq<AccountView>,
    name: Seq<char>,
    password: Seq<char>,
    token: Seq<char>,
    now: i64,
    account_id: u128,
    salt: Seq<char>,
    later: i64,
)
    requires
        login_outcome(accounts, name, password, token, now, account_id, salt).1 is Ok,
    ensures
        touch_outcome(
            login_outcome(accounts, name, password, token, now, account_id, salt).0,
            token,
            later,
        ).1,
{
    let after = login_outcome(accounts, name, password, token, now, account_id, salt).0;
    if accounts.len() == 0 {
        lemma_token_index_some(after[0].tokens, token, 0);
        lemma_token_owner_some(after, token, 0);
    } else {
        lemma_user_index_props(accounts, name);
        let i = user_index(accounts, name)->0;
        let toks = after[i].tokens;
        lemma_token_index_some(toks, token, toks.len() - 1);
        lemma_token_owner_some(after, token, i);
    }
}

/// A refused login changes no account.
pub proof fn lemma_refused_login_changes_nothing(
    accounts: Seq<AccountView>,
    name: Seq<char>,
    password: Seq<char>,
    token: Seq<char>,
    now: i64,
    account_id: u128,
    salt: Seq<char>,
)
    requires
        login_outcome(accounts, name, password, token, now, account_id, salt).1 is Err,
    ensures
        login_outcome(accounts, name, password, token, now, account_id, salt).0 == accounts,
{
}

/// The first login that succeeds, with no accounts yet, makes its user the
/// only account, an administrator; later logins add no account.
pub proof fn lemma_first_login_makes_admin(
    accounts: Seq<AccountView>,
    name: Seq<char>,
    password: Seq<char>,
    token: Seq<char>,
    now: i64,
    account_id: u128,
    salt: Seq<char>,
)
    requires
        login_outcome(accounts, name, password, token, now, account_id, salt).1 is Ok,
    ensures
        ({
            let after = login_outcome(accounts, name, password, token, now, account_id, salt).0;
            if accounts.len() == 0 {
                after.len() == 1 && after[0].admin && after[0].username == name
            } else {
                after.len() == accounts.len()
            }
        }),
{
    lemma_user_index_props(accounts, name);
}

/// A login with the name and password of an account whose stored hash
/// accepts that password succeeds, handing out the new token and changing
/// nothing but that account's tokens. A successful login leaves its account
/// so (`login_impl` and `login_with` say it), so logging in again with the
/// same password succeeds.
pub proof fn lemma_accepted_password_logs_in(
    accounts: Seq<AccountView>,
    name: Seq<char>,
    password: Seq<char>,
    token: Seq<char>,
    now: i64,
    account_id: u128,
    salt: Seq<char>,
)
    requires
        password_works(accounts, name, password),
    ensures
        login_outcome(accounts, name, password, token, now, account_id, salt).1 == Ok::<
            Seq<char>,
            LoginError,
        >(token),
        password_works(
            login_outcome(accounts, name, password, token, now, account_id, salt).0,
            name,
            password,
        ),
{
    lemma_user_index_props(accounts, name);
    let i = user_index(accounts, name)->0;
    let after = login_outcome(accounts, name, password, token, now, account_id, salt).0;
    lemma_user_index_update(accounts, name, i, after[i]);
    assert(after == accounts.update(i, after[i]));
}

/// A token that is valid stays valid: checking it a second time, at any
/// time, finds it again.
pub proof fn lemma_valid_token_stays_valid(
    accounts: Seq<AccountView>,
    token: Seq<char>,
    first: i64,
    second: i64,
)
    requires
        touch_outcome(accounts, token, first).1,
    ensures
        touch_outcome(touch_outcome(accounts, token, first).0, token, second).1,
{
    lemma_token_owner_props(accounts, token);
    let i = token_owner(accounts, token)->0;
    let after = touch_outcome(accounts, token, first).0;
    let acc = accounts[i];
    lemma_token_index_props(acc.tokens, token);
    let j = token_index(acc.tokens, token)->0;
    lemma_token_index_some(after[i].tokens, token, j);
    lemma_token_owner_some(after, token, i);
}

/// Checks a token at time `now`: when an account holds it, marks the first
/// such entry as used at `now` and answers `true`; otherwise changes
/// nothing and answers `false`.
pub fn touch_token(accounts: &mut Vec<Account>, input_token: &str, now: i64) -> (valid: bool)
    ensures
        (accounts_view(final(accounts)@), valid) == touch_outcome(
            accounts_view(old(accounts)@),
            input_token@,
            now,
        ),
{
    let ghost before = accounts_view(accounts@);
    let n = accounts.len();
    let mut i: usize = 0;
    while i < n
        invariant
            n == accounts@.len(),
            before == accounts_view(accounts@),
            before == accounts_view(old(accounts)@),
            i <= n,
            forall|k: int| 0 <= k < i ==> token_index(#[trigger] before[k].tokens, input_token@) is None,
        decreases n - i,
    {
        let m = accounts[i].tokens.len();
        let ghost toks = before[i as int].tokens;
        assert(toks == accounts@[i as int].tokens@.map_values(|t: Token| t@));
        let mut j: usize = 0;
        while j < m
            invariant
                m == toks.len(),
                toks == accounts@[i as int].tokens@.map_values(|t: Token| t@),
                toks == before[i as int].tokens,
                before == accounts_view(accounts@),
                before == accounts_view(old(accounts)@),
                forall|k: int| 0 <= k < i ==> token_index(#[trigger] before[k].tokens, input_token@) is None,
                i < n,
                n == accounts@.len(),
                j <= m,
                forall|k: int| 0 <= k < j ==> toks[k].0 != input_token@,
            decreases m - j,
        {
            if crate::text::str_eq(accounts[i].tokens[j].token.as_str(), input_token) {
                proof {
                    lemma_token_index_at(toks, input_token@, j as int);
                    lemma_token_owner_at(before, input_token@, i as int);
                }
                let mut acc = accounts.remove(i);
                let mut entry = acc.tokens.remove(j);
                entry.last_used = now;
                acc.tokens.insert(j, entry);
                assert(acc.tokens@.map_values(|t: Token| t@) =~= toks.update(
                    j as int,
                    (input_token@, now),
                ));
                accounts.insert(i, acc);
                assert(accounts_view(accounts@) =~= touch_outcome(before, input_token@, now).0);
                assert(touch_outcome(before, input_token@, now).1);
                assert(before == accounts_view(old(accounts)@));
                return true;
            }
            j = j + 1;
        }
        proof {
            lemma_token_index_none(toks, input_token@);
        }
        i = i + 1;
    }
    proof {
        lemma_token_owner_none(before, input_token@);
    }
    false
}

/// Checks a token at the current time, as `touch_token` does.
pub fn verify_token(accounts: &mut Vec<Account>, input_token: &str) -> (valid: bool)
    ensures
        exists|now: i64|
            (accounts_view(final(accounts)@), valid) == touch_outcome(
                accounts_view(old(accounts)@),
                input_token@,
                now,
            ),
{
    let now = now_micros();
    touch_token(accounts, input_token, now)
}

} // verus!
