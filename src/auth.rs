use base64::Engine;
use vstd::prelude::*;
use vstd::utf8::encode_utf8;

verus! {

/// What base64's standard engine decodes `text` to, or `None` where it
/// rejects it.
pub uninterp spec fn base64_decoding(text: Seq<char>) -> Option<Seq<u8>>;

/// Relies on base64's `engine::general_purpose::STANDARD.decode` (standard
/// alphabet, padding required): its outcome depends on the text alone.
#[verifier::external_body]
fn decode_base64(text: &str) -> (r: Option<Vec<u8>>)
    ensures
        r matches Some(v) ==> base64_decoding(text@) == Some(v@),
        r is None ==> base64_decoding(text@) is None,
{
    base64::engine::general_purpose::STANDARD.decode(text.as_bytes()).ok()
}

/// The byte code of `:`, which separates user name and password.
pub const COLON: u8 = 58;

/// The user name and password that subscribers must present.
pub struct BasicCredentials {
    pub username: String,
    pub password: String,
}

/// The decoded token that these credentials accept: `user:password` in UTF-8.
pub open spec fn credentials_token(username: Seq<char>, password: Seq<char>) -> Seq<u8> {
    encode_utf8(username) + seq![COLON] + encode_utf8(password)
}

/// A user name with a colon can never be presented: the first colon of a
/// token ends the user name.
pub open spec fn presentable(username: Seq<char>) -> bool {
    !encode_utf8(username).contains(COLON)
}

/// Whether `a` holds `b` at offset `off`.
fn bytes_at(a: &[u8], off: usize, b: &[u8]) -> (r: bool)
    requires
        off + b@.len() <= a@.len(),
    ensures
        r == (a@.subrange(off as int, off + b@.len()) == b@),
{
    let n = b.len();
    let m = a.len();
    let mut i: usize = 0;
    while i < n
        invariant
            n == b@.len(),
            m == a@.len(),
            off + n <= m,
            i <= n,
            a@.subrange(off as int, off + i) == b@.take(i as int),
        decreases n - i,
    {
        if a[off + i] != b[i] {
            assert(a@.subrange(off as int, off + n)[i as int] != b@[i as int]);
            return false;
        }
        i = i + 1;
        assert(a@.subrange(off as int, off + i) =~= b@.take(i as int));
    }
    assert(b@.take(n as int) =~= b@);
    true
}

/// Whether `b` holds a colon.
fn has_colon(b: &[u8]) -> (r: bool)
    ensures
        r == b@.contains(COLON),
{
    let n = b.len();
    let mut i: usize = 0;
    while i < n
        invariant
            n == b@.len(),
            i <= n,
            forall|j: int| 0 <= j < i ==> b@[j] != COLON,
        decreases n - i,
    {
        if b[i] == COLON {
            return true;
        }
        i = i + 1;
    }
    false
}

impl BasicCredentials {
    /// Whether a decoded Basic token is exactly these credentials:
    /// `user:password` in UTF-8, the user name running up to the first colon
    /// (so a user name with a colon never matches).
    pub fn credentials_match(&self, decoded: &[u8]) -> (r: bool)
        ensures
            r == (presentable(self.username@) && decoded@ == credentials_token(
                self.username@,
                self.password@,
            )),
    {
        let user = self.username.as_str().as_bytes();
        let pass = self.password.as_str().as_bytes();
        let ghost token = credentials_token(self.username@, self.password@);
        assert(token =~= user@ + seq![COLON] + pass@);
        if has_colon(user) {
            return false;
        }
        let d = decoded;
        let (ul, pl) = (user.len(), pass.len());
        if d.len() < ul || d.len() - ul < 1 || d.len() - ul - 1 != pl {
            assert(d@.len() != token.len());
            return false;
        }
        if !bytes_at(d, 0, user) {
            assert(token.subrange(0, ul as int) =~= user@);
            return false;
        }
        if d[ul] != COLON {
            assert(d@[ul as int] != token[ul as int]);
            return false;
        }
        if !bytes_at(d, ul + 1, pass) {
            assert(token.subrange(ul + 1, ul + 1 + pl) =~= pass@);
            return false;
        }
        assert(d@ =~= token) by {
            assert forall|i: int| 0 <= i < d@.len() implies d@[i] == token[i] by {
                if i < ul {
                    assert(d@.subrange(0, ul as int)[i] == user@[i]);
                } else if i > ul {
                    assert(d@.subrange(ul + 1, ul + 1 + pl)[i - ul - 1] == pass@[i - ul - 1]);
                }
            }
        }
        true
    }

    /// Checks a Basic authorization payload (base64 of `user:password`).
    /// Returns the user name when the payload decodes to exactly these
    /// credentials.
    pub fn validate_basic(&self, authorization: &str) -> (r: Option<String>)
        ensures
            r is Some <==> (presentable(self.username@) && base64_decoding(authorization@) == Some(
                credentials_token(self.username@, self.password@),
            )),
            r matches Some(u) ==> u@ == self.username@,
    {
        match decode_base64(authorization) {
            Some(decoded) => {
                if self.credentials_match(decoded.as_slice()) {
                    Some(self.username.clone())
                } else {
                    None
                }
            },
            None => None,
        }
    }
}

} // verus!
