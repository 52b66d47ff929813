//! The door in front of every handler that needs a user: it takes the bearer
//! token out of its carrier, resolves it to an identity and lets the request
//! pass only if the user store knows that identity.
//!
//! The lookup in the user store lies between the two halves and belongs to
//! the caller: [`Authenticated::identify`] gives the identity to look up,
//! [`Authenticated::from_lookup`] takes what was found.

use vstd::prelude::*;
use vstd::string::*;
use vstd::utf8::{is_ascii_chars, is_ascii_chars_encode_utf8};
use crate::clock::unix_now;
use crate::err::{GlobError, GlobResult};
use crate::model::{UserData, UserId};
use crate::routes::auth::{verified_at, verify_at};

verus! {

/// The name of the scheme, `Bearer`.
pub open spec fn scheme() -> Seq<char> {
    seq!['B', 'e', 'a', 'r', 'e', 'r']
}

/// White space within ASCII: the space and the controls from tab to carriage return.
pub open spec fn is_blank(c: char) -> bool {
    c == ' ' || ('\t' <= c && c <= '\r')
}

/// The text with every occurrence of the scheme's name taken out, found
/// from left to right.
pub open spec fn without_scheme(text: Seq<char>) -> Seq<char>
    decreases text.len(),
{
    if text.len() < 6 {
        text
    } else if text.subrange(0, 6) == scheme() {
        without_scheme(text.subrange(6, text.len() as int))
    } else {
        seq![text[0]] + without_scheme(text.subrange(1, text.len() as int))
    }
}

pub open spec fn trim_front(text: Seq<char>) -> Seq<char>
    decreases text.len(),
{
    if text.len() > 0 && is_blank(text[0]) {
        trim_front(text.subrange(1, text.len() as int))
    } else {
        text
    }
}

pub open spec fn trim_back(text: Seq<char>) -> Seq<char>
    decreases text.len(),
{
    if text.len() > 0 && is_blank(text.last()) {
        trim_back(text.drop_last())
    } else {
        text
    }
}

/// The text without the white space at its two ends.
pub open spec fn trimmed(text: Seq<char>) -> Seq<char> {
    trim_back(trim_front(text))
}

/// The token that an authorization header carries: what is left of the
/// header when the scheme's name and the white space around are gone.
pub open spec fn token_in(header: Seq<char>) -> Seq<char> {
    trimmed(without_scheme(header))
}

/// Where the text does not start with the scheme's name, its first
/// character stays.
proof fn lemma_without_scheme_keeps(text: Seq<char>)
    requires
        text.len() > 0,
        text.len() < 6 || text.subrange(0, 6) != scheme(),
    ensures
        without_scheme(text) == seq![text[0]] + without_scheme(text.subrange(1, text.len() as int)),
{
    if text.len() < 6 {
        let rest = text.subrange(1, text.len() as int);
        assert(without_scheme(rest) == rest);
        assert(text =~= seq![text[0]] + rest);
    }
}

fn is_blank_byte(b: u8) -> (yes: bool)
    ensures
        yes == (b == 32 || (9 <= b && b <= 13)),
{
    b == 32 || (9 <= b && b <= 13)
}

/// Takes every occurrence of the scheme's name out of an ASCII text.
fn strip_scheme(header: &str) -> (stripped: String)
    requires
        is_ascii_chars(header@),
    ensures
        stripped@ == without_scheme(header@),
        is_ascii_chars(stripped@),
{
    let bytes = header.as_bytes();
    proof {
        is_ascii_chars_encode_utf8(header@);
    }
    let n = bytes.len();
    let mut stripped = String::new();
    let mut seg: usize = 0;
    let mut i: usize = 0;
    assert(header@.subrange(0, 0) =~= Seq::<char>::empty());
    assert(header@.subrange(0, n as int) =~= header@);
    assert(stripped@ + header@.subrange(0, 0) + without_scheme(header@.subrange(0, n as int))
        =~= without_scheme(header@));
    while i < n
        invariant
            seg <= i <= n,
            n == header@.len(),
            bytes@.len() == n,
            forall|j: int| 0 <= j < n ==> header@[j] as u8 == #[trigger] bytes@[j],
            is_ascii_chars(header@),
            is_ascii_chars(stripped@),
            without_scheme(header@) == stripped@ + header@.subrange(seg as int, i as int)
                + without_scheme(header@.subrange(i as int, n as int)),
        decreases n - i,
    {
        let ghost rest = header@.subrange(i as int, n as int);
        let ghost held = header@.subrange(seg as int, i as int);
        if n - i >= 6 && bytes[i] == 66 && bytes[i + 1] == 101 && bytes[i + 2] == 97 && bytes[i + 3]
            == 114 && bytes[i + 4] == 101 && bytes[i + 5] == 114 {
            let ghost before = stripped@;
            stripped.append(header.substring_ascii(seg, i));
            proof {
                assert(rest.subrange(0, 6) =~= scheme()) by {
                    assert forall|j: int| 0 <= j < 6 implies rest.subrange(0, 6)[j] == scheme()[j] by {
                        assert(header@[i + j] as u8 == bytes@[i + j]);
                    }
                }
                assert(rest.subrange(6, rest.len() as int) =~= header@.subrange(i + 6, n as int));
                assert(header@.subrange(i + 6, i + 6) =~= Seq::<char>::empty());
                assert(before + held + Seq::<char>::empty() =~= before + held);
            }
            i += 6;
            seg = i;
        } else {
            proof {
                assert(rest.len() >= 6 ==> rest.subrange(0, 6) != scheme()) by {
                    if rest.len() >= 6 && rest.subrange(0, 6) == scheme() {
                        assert forall|j: int| 0 <= j < 6 implies header@[i + j] == scheme()[j] by {
                            assert(rest.subrange(0, 6)[j] == header@[i + j]);
                        }
                        assert(header@[i as int] as u8 == bytes@[i as int]);
                        assert(header@[i + 1] as u8 == bytes@[i + 1]);
                        assert(header@[i + 2] as u8 == bytes@[i + 2]);
                        assert(header@[i + 3] as u8 == bytes@[i + 3]);
                        assert(header@[i + 4] as u8 == bytes@[i + 4]);
                        assert(header@[i + 5] as u8 == bytes@[i + 5]);
                        assert(scheme()[0] == 'B' && scheme()[1] == 'e' && scheme()[2] == 'a'
                            && scheme()[3] == 'r' && scheme()[4] == 'e' && scheme()[5] == 'r');
                    }
                }
                lemma_without_scheme_keeps(rest);
                assert(rest.subrange(1, rest.len() as int) =~= header@.subrange(i + 1, n as int));
                assert(held + seq![rest[0]] =~= header@.subrange(seg as int, i + 1));
                assert(stripped@ + held + (seq![rest[0]] + without_scheme(
                    header@.subrange(i + 1, n as int),
                )) =~= stripped@ + header@.subrange(seg as int, i + 1) + without_scheme(
                    header@.subrange(i + 1, n as int),
                ));
            }
            i += 1;
        }
    }
    let ghost before = stripped@;
    stripped.append(header.substring_ascii(seg, n));
    proof {
        assert(header@.subrange(n as int, n as int) =~= Seq::<char>::empty());
        assert(before + header@.subrange(seg as int, n as int) + Seq::<char>::empty() =~= stripped@);
    }
    stripped
}

/// Cuts the white space off the two ends of an ASCII text.
fn trim_ascii(text: &str) -> (inner: &str)
    requires
        is_ascii_chars(text@),
    ensures
        inner@ == trimmed(text@),
{
    let bytes = text.as_bytes();
    proof {
        is_ascii_chars_encode_utf8(text@);
    }
    let n = bytes.len();
    let mut a: usize = 0;
    assert(text@.subrange(0, n as int) =~= text@);
    while a < n && is_blank_byte(bytes[a])
        invariant
            a <= n,
            n == text@.len(),
            bytes@.len() == n,
            forall|j: int| 0 <= j < n ==> text@[j] as u8 == #[trigger] bytes@[j],
            is_ascii_chars(text@),
            trim_front(text@) == trim_front(text@.subrange(a as int, n as int)),
        decreases n - a,
    {
        proof {
            let rest = text@.subrange(a as int, n as int);
            assert(rest[0] as u8 == bytes@[a as int]);
            assert(is_blank(rest[0]));
            assert(rest.subrange(1, rest.len() as int) =~= text@.subrange(a + 1, n as int));
        }
        a += 1;
    }
    proof {
        let rest = text@.subrange(a as int, n as int);
        if a < n {
            assert(rest[0] as u8 == bytes@[a as int]);
            assert(!is_blank(rest[0]));
        }
        assert(trim_front(rest) == rest);
    }
    let mut b: usize = n;
    while b > a && is_blank_byte(bytes[b - 1])
        invariant
            a <= b <= n,
            n == text@.len(),
            bytes@.len() == n,
            forall|j: int| 0 <= j < n ==> text@[j] as u8 == #[trigger] bytes@[j],
            is_ascii_chars(text@),
            trimmed(text@) == trim_back(text@.subrange(a as int, b as int)),
        decreases b,
    {
        proof {
            let rest = text@.subrange(a as int, b as int);
            assert(rest.last() as u8 == bytes@[b - 1]);
            assert(is_blank(rest.last()));
            assert(rest.drop_last() =~= text@.subrange(a as int, b - 1));
        }
        b -= 1;
    }
    proof {
        let rest = text@.subrange(a as int, b as int);
        if b > a {
            assert(rest.last() as u8 == bytes@[b - 1]);
            assert(!is_blank(rest.last()));
        }
        assert(trim_back(rest) == rest);
    }
    text.substring_ascii(a, b)
}

/// Takes the token out of the value of an authorization header.
///
/// A header that is not ASCII text cannot be read and is a `StringError`. A
/// header that holds nothing but the scheme's name and white space carries
/// no token: the caller is `Unauthenticated`.
pub fn bearer_token(header: &str) -> (outcome: GlobResult<String>)
    ensures
        match outcome {
            Ok(token) => is_ascii_chars(header@) && token@ == token_in(header@) && token@.len() > 0,
            Err(e) => if is_ascii_chars(header@) {
                e is Unauthenticated && token_in(header@).len() == 0
            } else {
                e is StringError
            },
        },
{
    if !header.is_ascii() {
        return Err(GlobError::StringError(String::from_str("the header is not ASCII text")));
    }
    let stripped = strip_scheme(header);
    let token = trim_ascii(stripped.as_str());
    if token.is_empty() {
        return Err(GlobError::Unauthenticated);
    }
    Ok(String::from_str(token))
}

/// A request that came with a valid token of a user the store knows.
#[derive(Debug, Clone, PartialEq, Eq)]
pub struct Authenticated(pub UserData);

/// What the first half of the way in comes to at the time `now`: the identity
/// that a readable, non-empty, valid token names, or the refusal.
pub open spec fn identified(
    header: Option<&str>,
    secret: Seq<char>,
    now: int,
    outcome: GlobResult<UserId>,
) -> bool {
    match header {
        None => outcome matches Err(e) && e is Unauthenticated,
        Some(header) => if !is_ascii_chars(header@) {
            outcome matches Err(e) && e is StringError
        } else if token_in(header@).len() == 0 {
            outcome matches Err(e) && e is Unauthenticated
        } else {
            outcome == verified_at(token_in(header@), secret, now)
        },
    }
}

impl Authenticated {
    /// First half of the way in, at the time `now`: from the authorization
    /// header, if the request has one, to the identity to look up.
    pub fn identify_at(header: Option<&str>, jwt_secret: &str, now: i64) -> (outcome: GlobResult<UserId>)
        ensures
            identified(header, jwt_secret@, now as int, outcome),
    {
        match header {
            None => Err(GlobError::Unauthenticated),
            Some(header) => match bearer_token(header) {
                Ok(token) => verify_at(token.as_str(), jwt_secret, now),
                Err(e) => Err(e),
            },
        }
    }

    /// First half of the way in, at the present time.
    pub fn identify(header: Option<&str>, jwt_secret: &str) -> (outcome: GlobResult<UserId>)
        ensures
            exists|now: i64| 0 <= now && #[trigger] identified(header, jwt_secret@, now as int, outcome),
            outcome matches Err(e) ==> e is Unauthenticated || e is StringError,
    {
        let now = unix_now();
        let outcome = Authenticated::identify_at(header, jwt_secret, now);
        assert(identified(header, jwt_secret@, now as int, outcome));
        outcome
    }

    /// Second half of the way in: a user that the store does not know is not
    /// authenticated, whatever their token said.
    pub fn from_lookup(found: Option<UserData>) -> (outcome: GlobResult<Authenticated>)
        ensures
            match found {
                Some(user) => outcome matches Ok(passed) && passed.0 == user,
                None => outcome matches Err(e) && e is Unauthenticated,
            },
    {
        match found {
            Some(user) => Ok(Authenticated(user)),
            None => Err(GlobError::Unauthenticated),
        }
    }
}

} // verus!
