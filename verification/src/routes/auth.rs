//! Credentials and session tokens: hashing and checking a password, issuing
//! and checking a token, and what registration, login and the status check
//! decide once the user store has answered.

use vstd::prelude::*;
use vstd::string::*;
use vstd::utf8::encode_utf8;
use crate::clock::unix_now;
use crate::decimal::{decimal_of, format_i64, lemma_decimal_round_trip, parse_i64, parsed, ParseFault};
use crate::err::{GlobError, GlobResult};
use crate::hasher::{argon2_hashed, argon2_verdict, check_password, fresh_salt, hash_with_salt};
use crate::ids::belongs_to;
use crate::jwt::{
    carried,
    hs256_opened,
    hs256_sealed,
    read_token,
    sign_claims,
    Claims,
    ClaimsView,
    RawClaims,
    RawClaimsView,
};
use crate::model::{UserData, UserId};
use crate::response::{
    AuthLoginRequest,
    AuthLoginResponse,
    AuthLoginStatus,
    AuthRegisterResponse,
    AuthRegisterStatus,
    AuthS0NextStep,
    AuthStatusResponse,
    GlobResponse,
};
use crate::state::{registered, ConnectedClients, Snowflakes};

verus! {

/// How long a token holds after it was issued: eight hours, in seconds.
pub const TOKEN_TTL: u64 = 28800;

/// Whether the stored hash is a well-formed hash of the password.
pub open spec fn password_matches(password: Seq<char>, stored: Seq<char>) -> bool {
    argon2_verdict(encode_utf8(password), stored) == Some(true)
}

/// What hashing a password under a salt comes to: the hash that the
/// hasher gives for the two, or `PasswordError` where it gives none.
pub open spec fn hashed_under(pwd: Seq<char>, salt: Seq<char>, outcome: GlobResult<String>) -> bool {
    match argon2_hashed(encode_utf8(pwd), salt) {
        Some(stored) => outcome matches Ok(hash) && hash@ == stored,
        None => outcome matches Err(e) && e is PasswordError,
    }
}

/// Hashes a password under the given salt. The hash that comes back
/// verifies against the password. A failure of the hasher is handed on as
/// `PasswordError`, not swallowed.
pub fn encode_with_salt(pwd: &str, salt: &str) -> (outcome: GlobResult<String>)
    ensures
        hashed_under(pwd@, salt@, outcome),
        outcome matches Ok(stored) ==> password_matches(pwd@, stored@),
{
    match hash_with_salt(pwd.as_bytes(), salt) {
        Ok(stored) => Ok(stored),
        Err(detail) => Err(GlobError::PasswordError(detail)),
    }
}

/// Hashes a password under a fresh random salt: the outcome is what hashing
/// under that salt comes to.
pub fn encode_password(pwd: &str) -> (outcome: GlobResult<String>)
    ensures
        exists|salt: Seq<char>| #[trigger] hashed_under(pwd@, salt, outcome),
        outcome matches Ok(stored) ==> password_matches(pwd@, stored@),
        outcome matches Err(e) ==> e is PasswordError,
{
    let salt = fresh_salt();
    let outcome = encode_with_salt(pwd, salt.as_str());
    assert(hashed_under(pwd@, salt@, outcome));
    outcome
}

/// Checks a password against a stored hash. A stored text that is no hash
/// matches no password.
pub fn verify_password(pwd: &str, hash: &str) -> (valid: bool)
    ensures
        valid == password_matches(pwd@, hash@),
{
    match check_password(pwd.as_bytes(), hash) {
        Some(valid) => valid,
        None => false,
    }
}

/// Why a token does not name a user.
#[derive(Debug, Clone, Copy, PartialEq, Eq, Structural)]
pub enum TokenFault {
    /// The token is malformed or its signature does not hold.
    Rejected,
    /// A claim is missing or has the wrong type.
    MissingClaim,
    /// The token was issued after the time of the check.
    NotYetValid,
    /// The token expired before the time of the check.
    Expired,
    /// The subject is not an identity.
    BadSubject(ParseFault),
}

/// The claims of a token issued to `uid` at `now`.
pub open spec fn issued_claims(uid: UserId, now: int) -> ClaimsView {
    ClaimsView { sub: decimal_of(uid as int), exp: (now + TOKEN_TTL) as u64, iat: now as u64 }
}

/// What the claims found in a token say at the time `now`: the user they
/// name, if all of them are there, `now` lies between issue and expiry, both
/// included, and the subject reads as an identity.
pub open spec fn examined(found: Option<RawClaimsView>, now: int) -> Result<UserId, TokenFault> {
    match found {
        None => Err(TokenFault::Rejected),
        Some(raw) => match (raw.sub, raw.exp, raw.iat) {
            (Some(sub), Some(exp), Some(iat)) => if now < iat {
                Err(TokenFault::NotYetValid)
            } else if now > exp {
                Err(TokenFault::Expired)
            } else {
                match parsed(sub) {
                    Ok(uid) => Ok(uid),
                    Err(fault) => Err(TokenFault::BadSubject(fault)),
                }
            },
            _ => Err(TokenFault::MissingClaim),
        },
    }
}

/// What a token says under a secret at the time `now`.
pub open spec fn inspected(jwt: Seq<char>, secret: Seq<char>, now: int) -> Result<UserId, TokenFault> {
    examined(hs256_opened(jwt, encode_utf8(secret)), now)
}

/// The answer to the bearer of a token: the user, or that they are not
/// authenticated, without a word on why.
pub open spec fn verified_at(jwt: Seq<char>, secret: Seq<char>, now: int) -> GlobResult<UserId> {
    match inspected(jwt, secret, now) {
        Ok(uid) => Ok(uid),
        Err(_) => Err(GlobError::Unauthenticated),
    }
}

/// A token issued to `uid` at `issued` names `uid` from then until its
/// expiry, both included, and nobody before or after.
pub proof fn lemma_token_lifetime(uid: UserId, issued: int, at: int)
    requires
        0 <= issued,
        issued + TOKEN_TTL <= u64::MAX,
    ensures
        issued <= at <= issued + TOKEN_TTL ==> examined(Some(carried(issued_claims(uid, issued))), at)
            == Ok::<UserId, TokenFault>(uid),
        at < issued ==> examined(Some(carried(issued_claims(uid, issued))), at) == Err::<
            UserId,
            TokenFault,
        >(TokenFault::NotYetValid),
        at > issued + TOKEN_TTL ==> examined(Some(carried(issued_claims(uid, issued))), at) == Err::<
            UserId,
            TokenFault,
        >(TokenFault::Expired),
        examined(Some(carried(issued_claims(uid, issued))), issued + TOKEN_TTL - 1) == Ok::<
            UserId,
            TokenFault,
        >(uid),
        examined(Some(carried(issued_claims(uid, issued))), issued + TOKEN_TTL + 1) is Err,
{
    lemma_decimal_round_trip(uid);
}

/// Reads the user out of claims that were found in a token.
pub fn check_claims(raw: &RawClaims, now: i64) -> (outcome: Result<UserId, TokenFault>)
    ensures
        outcome == examined(Some(raw@), now as int),
{
    match (&raw.sub, raw.exp, raw.iat) {
        (Some(sub), Some(exp), Some(iat)) => {
            if now < 0 || (now as u64) < iat {
                Err(TokenFault::NotYetValid)
            } else if now as u64 > exp {
                Err(TokenFault::Expired)
            } else {
                match parse_i64(sub.as_str()) {
                    Ok(uid) => Ok(uid),
                    Err(fault) => Err(TokenFault::BadSubject(fault)),
                }
            }
        },
        _ => Err(TokenFault::MissingClaim),
    }
}

/// Checks a token at the time `now` and says what is wrong with it, if anything.
pub fn inspect_token(jwt: &str, jwt_secret: &str, now: i64) -> (outcome: Result<UserId, TokenFault>)
    ensures
        outcome == inspected(jwt@, jwt_secret@, now as int),
{
    match read_token(jwt, jwt_secret.as_bytes()) {
        Ok(raw) => check_claims(&raw, now),
        Err(_) => Err(TokenFault::Rejected),
    }
}

/// Resolves a token to its user at the time `now`. Every failure is the one
/// answer `Unauthenticated`.
pub fn verify_at(jwt: &str, jwt_secret: &str, now: i64) -> (outcome: GlobResult<UserId>)
    ensures
        outcome == verified_at(jwt@, jwt_secret@, now as int),
{
    match inspect_token(jwt, jwt_secret, now) {
        Ok(uid) => Ok(uid),
        Err(_) => Err(GlobError::Unauthenticated),
    }
}

/// Resolves a token to its user at the present time.
pub fn verify_token(jwt: &str, jwt_secret: &str) -> (outcome: GlobResult<UserId>)
    ensures
        exists|now: i64| 0 <= now && outcome == #[trigger] verified_at(jwt@, jwt_secret@, now as int),
        outcome matches Err(e) ==> e is Unauthenticated,
        hs256_opened(jwt@, encode_utf8(jwt_secret@)) is None ==> outcome is Err,
{
    let now = unix_now();
    let outcome = verify_at(jwt, jwt_secret, now);
    assert(outcome == verified_at(jwt@, jwt_secret@, now as int));
    outcome
}

/// What issuing a token to `uid` at `now` under the secret comes to.
pub open spec fn issued_at(uid: UserId, secret: Seq<char>, now: int) -> Option<Seq<char>> {
    if now < 0 {
        None
    } else {
        hs256_sealed(issued_claims(uid, now), encode_utf8(secret))
    }
}

/// Issues a token to `uid` at the time `now`: subject `uid`, issued at `now`,
/// expiring `TOKEN_TTL` seconds later.
///
/// The token that comes back resolves to `uid` at every time from `now` to
/// its expiry, and to nobody outside of that. A time before 1970 and a
/// failure of the signer are `JwtError`.
pub fn issue_at(uid: UserId, jwt_secret: &str, now: i64) -> (outcome: GlobResult<String>)
    ensures
        match outcome {
            Ok(token) => {
                &&& issued_at(uid, jwt_secret@, now as int) == Some(token@)
                &&& forall|at: int|
                    #[trigger] verified_at(token@, jwt_secret@, at) == if now <= at <= now + TOKEN_TTL {
                        Ok::<UserId, GlobError>(uid)
                    } else {
                        Err::<UserId, GlobError>(GlobError::Unauthenticated)
                    }
            },
            Err(e) => e is JwtError && issued_at(uid, jwt_secret@, now as int) is None,
        },
{
    if now < 0 {
        return Err(GlobError::JwtError(String::from_str("the clock stands before 1970")));
    }
    let claims = Claims { sub: format_i64(uid), exp: now as u64 + TOKEN_TTL, iat: now as u64 };
    assert(claims@ == issued_claims(uid, now as int));
    match sign_claims(&claims, jwt_secret.as_bytes()) {
        Ok(token) => {
            assert forall|at: int|
                #[trigger] verified_at(token@, jwt_secret@, at) == if now <= at <= now + TOKEN_TTL {
                    Ok::<UserId, GlobError>(uid)
                } else {
                    Err::<UserId, GlobError>(GlobError::Unauthenticated)
                } by {
                lemma_token_lifetime(uid, now as int, at);
            }
            Ok(token)
        },
        Err(detail) => Err(GlobError::JwtError(detail)),
    }
}

/// What issuing a token to `uid` at `now` comes to: the token that the
/// signer gives, which names `uid` from `now` until its expiry, or
/// `JwtError` where there is none.
pub open spec fn issue_decided(uid: UserId, secret: Seq<char>, now: int, outcome: GlobResult<String>) -> bool {
    match issued_at(uid, secret, now) {
        Some(token) => {
            &&& outcome matches Ok(given)
            &&& given@ == token
            &&& verified_at(token, secret, now) == Ok::<UserId, GlobError>(uid)
            &&& verified_at(token, secret, now + TOKEN_TTL - 1) == Ok::<UserId, GlobError>(uid)
            &&& verified_at(token, secret, now + TOKEN_TTL + 1) is Err
        },
        None => outcome matches Err(e) && e is JwtError,
    }
}

/// Issues a token to `uid` at the present time, which is never before 1970.
pub fn generate_jwt(uid: i64, jwt_secret: String) -> (outcome: GlobResult<String>)
    ensures
        exists|now: i64| 0 <= now && #[trigger] issue_decided(uid, jwt_secret@, now as int, outcome),
        outcome matches Err(e) ==> e is JwtError,
{
    let now = unix_now();
    let outcome = issue_at(uid, jwt_secret.as_str(), now);
    proof {
        if let Ok(token) = &outcome {
            assert(verified_at(token@, jwt_secret@, now as int) == Ok::<UserId, GlobError>(uid));
            assert(verified_at(token@, jwt_secret@, now + TOKEN_TTL - 1) == Ok::<UserId, GlobError>(uid));
            assert(verified_at(token@, jwt_secret@, now + TOKEN_TTL + 1) is Err);
        }
        assert(issue_decided(uid, jwt_secret@, now as int, outcome));
    }
    outcome
}

/// What the status check answers at the time `now` to a request with the
/// given token, or with none.
pub open spec fn next_step(bearer: Option<&str>, secret: Seq<char>, now: int) -> AuthS0NextStep {
    match bearer {
        Some(token) => match verified_at(token@, secret, now) {
            Ok(uid) => AuthS0NextStep::Proceed { uid },
            Err(_) => AuthS0NextStep::Login,
        },
        None => AuthS0NextStep::Login,
    }
}

/// The status check at the time `now`: go on as the user of the token, or
/// log in. A request without a token is sent to log in.
pub fn status_at(jwt_secret: &str, bearer: Option<&str>, now: i64) -> (response: AuthStatusResponse)
    ensures
        response.next == next_step(bearer, jwt_secret@, now as int),
{
    match bearer {
        Some(token) => match verify_at(token, jwt_secret, now) {
            Ok(uid) => AuthStatusResponse { next: AuthS0NextStep::Proceed { uid } },
            Err(_) => AuthStatusResponse { next: AuthS0NextStep::Login },
        },
        None => AuthStatusResponse { next: AuthS0NextStep::Login },
    }
}

/// The status check at the present time.
pub fn auth_status(jwt_secret: &str, bearer: Option<&str>) -> (response: AuthStatusResponse)
    ensures
        exists|now: i64| 0 <= now && response.next == #[trigger] next_step(bearer, jwt_secret@, now as int),
        bearer is None ==> response.next is Login,
        bearer matches Some(token) && hs256_opened(token@, encode_utf8(jwt_secret@)) is None
            ==> response.next is Login,
{
    let now = unix_now();
    let response = status_at(jwt_secret, bearer, now);
    assert(response.next == next_step(bearer, jwt_secret@, now as int));
    response
}

/// What a login at the time `now` comes to, given what the user store found
/// under the name: which answer, and what it does to the presence registry.
pub open spec fn login_decided(
    found: Option<UserData>,
    request: AuthLoginRequest,
    secret: Seq<char>,
    now: int,
    before: Seq<UserId>,
    outcome: GlobResponse<AuthLoginResponse>,
    after: Seq<UserId>,
) -> bool {
    match found {
        None => outcome matches Ok(response) && response.status is UserNotFound && after == before,
        Some(user) => if !password_matches(request.password@, user.password@) {
            outcome matches Ok(response) && response.status is InvalidPassword && after == before
        } else {
            match issued_at(user.id, secret, now) {
                Some(token) => {
                    &&& outcome matches Ok(response)
                    &&& response.status matches AuthLoginStatus::LoggedIn { token: given }
                    &&& given@ == token
                    &&& after == registered(before, user.id)
                },
                None => outcome matches Err(e) && e is JwtError && after == before,
            }
        },
    }
}

/// Logs a user in at the time `now`.
///
/// An unknown name is `UserNotFound` and a password that does not match the
/// stored hash is `InvalidPassword`; neither touches the registry. Otherwise
/// the user gets a token issued at `now` and one more presence entry.
pub fn login_at(
    found: Option<UserData>,
    request: &AuthLoginRequest,
    jwt_secret: &str,
    connected_clients: &mut ConnectedClients,
    now: i64,
) -> (outcome: GlobResponse<AuthLoginResponse>)
    ensures
        login_decided(
            found,
            *request,
            jwt_secret@,
            now as int,
            old(connected_clients)@,
            outcome,
            final(connected_clients)@,
        ),
{
    match found {
        Some(user) => {
            let valid = verify_password(request.password.as_str(), user.password.as_str());
            if !valid {
                Ok(AuthLoginResponse { status: AuthLoginStatus::InvalidPassword })
            } else {
                match issue_at(user.id, jwt_secret, now) {
                    Ok(token) => {
                        connected_clients.insert(user.id);
                        Ok(AuthLoginResponse { status: AuthLoginStatus::LoggedIn { token } })
                    },
                    Err(e) => Err(e),
                }
            }
        },
        None => Ok(AuthLoginResponse { status: AuthLoginStatus::UserNotFound }),
    }
}

/// Logs a user in at the present time.
pub fn auth_login(
    found: Option<UserData>,
    request: &AuthLoginRequest,
    jwt_secret: &str,
    connected_clients: &mut ConnectedClients,
) -> (outcome: GlobResponse<AuthLoginResponse>)
    ensures
        exists|now: i64| 0 <= now && #[trigger]
            login_decided(
                found,
                *request,
                jwt_secret@,
                now as int,
                old(connected_clients)@,
                outcome,
                final(connected_clients)@,
            ),
{
    let now = unix_now();
    let outcome = login_at(found, request, jwt_secret, connected_clients, now);
    assert(login_decided(
        found,
        *request,
        jwt_secret@,
        now as int,
        old(connected_clients)@,
        outcome,
        connected_clients@,
    ));
    outcome
}

/// What a registration decided: the answer, and the user to put into the
/// store where there is one.
#[derive(Debug, Clone, PartialEq, Eq)]
pub struct Registration {
    pub response: AuthRegisterResponse,
    pub record: Option<UserData>,
}

/// The time of a clock reading as a record keeps it: seconds since 1970,
/// and 0 for a reading before that.
pub open spec fn record_time(now: int) -> u64 {
    if now < 0 {
        0
    } else {
        now as u64
    }
}

/// The record of a user that has just registered.
pub fn new_user(username: String, stored: String, id: UserId, now: i64) -> (user: UserData)
    ensures
        user.username == username,
        user.password == stored,
        user.id == id,
        user.timestamp == record_time(now as int),
        user.messages@ == Seq::<i64>::empty(),
{
    let timestamp: u64 = if now < 0 {
        0
    } else {
        now as u64
    };
    UserData { username, password: stored, id, timestamp, messages: Vec::new() }
}

/// What a registration at the time `now` comes to, given what the user
/// store found under the name and the salt that was drawn: which answer,
/// which record, and where it leaves the source of identifiers, which stood
/// at `before` and stands at `after`.
pub open spec fn register_decided(
    existing: Option<UserData>,
    request: AuthLoginRequest,
    salt: Seq<char>,
    now: int,
    node: int,
    before: int,
    outcome: GlobResult<Registration>,
    after: int,
) -> bool {
    match existing {
        Some(_) => {
            &&& outcome matches Ok(registration)
            &&& registration.response.status is UserExists
            &&& registration.record is None
            &&& after == before
        },
        None => match argon2_hashed(encode_utf8(request.password@), salt) {
            Some(stored) => {
                &&& outcome matches Ok(registration)
                &&& registration.response.status is Success
                &&& registration.record matches Some(user)
                &&& user.username@ == request.username@
                &&& user.password@ == stored
                &&& password_matches(request.password@, user.password@)
                &&& user.id == after
                &&& user.id > before
                &&& belongs_to(user.id as int, node)
                &&& user.timestamp == record_time(now)
                &&& user.messages@ == Seq::<i64>::empty()
            },
            None => {
                &&& outcome matches Err(e)
                &&& e is PasswordError
                &&& after == before
            },
        },
    }
}

/// Registers a user at the time `now`, given what the user store found
/// under the name.
///
/// A name that is taken is `UserExists`: nothing is hashed and no identifier
/// is used. A free name is registered wherever the hasher gives a hash under
/// the salt that is drawn: the record holds the name, that hash, which
/// verifies against the password, a fresh identifier above every earlier
/// one, and the time. Where the hasher gives none, the answer is
/// `PasswordError` and no identifier is used.
pub fn register_at(
    existing: Option<UserData>,
    request: AuthLoginRequest,
    snowflakes: &mut Snowflakes,
    now: i64,
) -> (outcome: GlobResult<Registration>)
    requires
        old(snowflakes).well_formed(),
        existing is None ==> old(snowflakes).spec_has_room(),
    ensures
        final(snowflakes).well_formed(),
        final(snowflakes).node() == old(snowflakes).node(),
        exists|salt: Seq<char>| #[trigger]
            register_decided(
                existing,
                request,
                salt,
                now as int,
                old(snowflakes).node(),
                old(snowflakes).last_issued(),
                outcome,
                final(snowflakes).last_issued(),
            ),
{
    let ghost node = snowflakes.node();
    let ghost before = snowflakes.last_issued();
    match existing {
        Some(_) => {
            let outcome = Ok(
                Registration {
                    response: AuthRegisterResponse { status: AuthRegisterStatus::UserExists },
                    record: None,
                },
            );
            assert(register_decided(
                existing,
                request,
                Seq::<char>::empty(),
                now as int,
                node,
                before,
                outcome,
                snowflakes.last_issued(),
            ));
            outcome
        },
        None => {
            let ghost asked = request;
            let AuthLoginRequest { username, password } = request;
            let hashed = encode_password(password.as_str());
            let ghost salt = choose|salt: Seq<char>| hashed_under(asked.password@, salt, hashed);
            let outcome = match hashed {
                Ok(stored) => {
                    let id = snowflakes.generate();
                    let user = new_user(username, stored, id, now);
                    Ok(
                        Registration {
                            response: AuthRegisterResponse { status: AuthRegisterStatus::Success },
                            record: Some(user),
                        },
                    )
                },
                Err(e) => Err(e),
            };
            assert(register_decided(
                existing,
                asked,
                salt,
                now as int,
                node,
                before,
                outcome,
                snowflakes.last_issued(),
            ));
            outcome
        },
    }
}

/// Registers a user at the present time, which is never before 1970.
pub fn auth_register(
    existing: Option<UserData>,
    request: AuthLoginRequest,
    snowflakes: &mut Snowflakes,
) -> (outcome: GlobResult<Registration>)
    requires
        old(snowflakes).well_formed(),
        existing is None ==> old(snowflakes).spec_has_room(),
    ensures
        final(snowflakes).well_formed(),
        final(snowflakes).node() == old(snowflakes).node(),
        exists|salt: Seq<char>, now: i64|
            0 <= now && #[trigger] register_decided(
                existing,
                request,
                salt,
                now as int,
                old(snowflakes).node(),
                old(snowflakes).last_issued(),
                outcome,
                final(snowflakes).last_issued(),
            ),
{
    let now = unix_now();
    let outcome = register_at(existing, request, snowflakes, now);
    proof {
        let salt = choose|salt: Seq<char>|
            register_decided(
                existing,
                request,
                salt,
                now as int,
                old(snowflakes).node(),
                old(snowflakes).last_issued(),
                outcome,
                snowflakes.last_issued(),
            );
        assert(0 <= now && register_decided(
            existing,
            request,
            salt,
            now as int,
            old(snowflakes).node(),
            old(snowflakes).last_issued(),
            outcome,
            snowflakes.last_issued(),
        ));
    }
    outcome
}

} // verus!
