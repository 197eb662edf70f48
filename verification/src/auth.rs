//! Who may use the Subsonic frontend.

use vstd::prelude::*;
use vstd::utf8::{encode_utf8, encode_utf8_decode_utf8, encode_utf8_valid_utf8};

use crate::config::SubsonicConfig;
use crate::duplicate::Duplicate;
use crate::models::{first_value, query_value, RequestContext, RequestContextModel};
use crate::text::{
    after_prefix, chars_of, law_prefix, lower_char, lower_text, push_text, same_ignoring_case,
    same_text,
    strip_prefix,
};
use crate::utf8::{bytes_of, decode, text_of};

verus! {

/// What a client gives to show who it is.
#[derive(Debug)]
pub struct Credentials {
    pub username: String,
    pub password: Option<String>,
    pub token: Option<String>,
    pub salt: Option<String>,
}

/// The mathematical value of a [`Credentials`].
pub struct CredentialsModel {
    pub username: Seq<char>,
    pub password: Option<Seq<char>>,
    pub token: Option<Seq<char>>,
    pub salt: Option<Seq<char>>,
}

impl DeepView for Credentials {
    type V = CredentialsModel;

    open spec fn deep_view(&self) -> CredentialsModel {
        CredentialsModel {
            username: self.username@,
            password: self.password.deep_view(),
            token: self.token.deep_view(),
            salt: self.salt.deep_view(),
        }
    }
}

impl Duplicate for Credentials {
    fn duplicate(&self) -> (r: Self) {
        Credentials {
            username: self.username.clone(),
            password: self.password.duplicate(),
            token: self.token.duplicate(),
            salt: self.salt.duplicate(),
        }
    }
}

impl Clone for Credentials {
    fn clone(&self) -> (r: Self)
        ensures
            r.deep_view() == self.deep_view(),
    {
        self.duplicate()
    }
}

/// The digit for a number below sixteen.
pub open spec fn hex_char(n: int) -> char {
    if n < 10 {
        (48 + n) as char
    } else {
        (87 + n) as char
    }
}

/// Bytes in hexadecimal notation, two digits each.
pub open spec fn hex_text(bytes: Seq<u8>) -> Seq<char>
    decreases bytes.len(),
{
    if bytes.len() == 0 {
        seq![]
    } else {
        hex_text(bytes.drop_last()).push(hex_char(bytes.last() as int / 16)).push(
            hex_char(bytes.last() as int % 16),
        )
    }
}

/// The value of a hexadecimal digit.
pub open spec fn hex_value(c: char) -> Option<int> {
    if '0' <= c && c <= '9' {
        Some(c as int - 48)
    } else if 'a' <= c && c <= 'f' {
        Some(c as int - 87)
    } else if 'A' <= c && c <= 'F' {
        Some(c as int - 55)
    } else {
        None
    }
}

/// The bytes that a row of hexadecimal digits stands for, two digits each.
pub open spec fn hex_bytes(hex: Seq<char>) -> Option<Seq<u8>>
    decreases hex.len(),
{
    if hex.len() == 0 {
        Some(seq![])
    } else if hex.len() == 1 {
        None
    } else {
        match (
            hex_bytes(hex.take(hex.len() - 2)),
            hex_value(hex[hex.len() - 2]),
            hex_value(hex[hex.len() - 1]),
        ) {
            (Some(before), Some(high), Some(low)) => Some(before.push((high * 16 + low) as u8)),
            _ => None,
        }
    }
}

/// The text whose UTF-8 encoding a row of hexadecimal digits stands for.
pub open spec fn hex_decoded(hex: Seq<char>) -> Option<Seq<char>> {
    match hex_bytes(hex) {
        Some(bytes) => text_of(bytes),
        None => None,
    }
}

/// Whether a password is the expected one: as it is, or behind `enc:` in hexadecimal notation.
pub open spec fn is_password(provided: Seq<char>, expected: Seq<char>) -> bool {
    provided == expected || (after_prefix(provided, "enc:"@) matches Some(hex) && hex_decoded(hex)
        == Some(expected))
}

/// What `md5::compute` makes of bytes.
pub uninterp spec fn md5_of(bytes: Seq<u8>) -> Seq<u8>;

/// `md5::compute`: the digest of the bytes, sixteen bytes that depend on nothing else. What they
/// are is left to the name.
#[verifier::external_body]
fn md5_digest(bytes: &Vec<u8>) -> (r: Vec<u8>)
    ensures
        r@ == md5_of(bytes@),
        r@.len() == 16,
{
    md5::compute(bytes).0.to_vec()
}

/// The token that a password and a salt give, of whose digest this is the notation.
pub open spec fn is_token(token: Seq<char>, digest: Seq<u8>) -> bool {
    lower_text(token) == hex_text(digest)
}

/// Whether credentials are those of the one user.
pub open spec fn is_user(
    credentials: CredentialsModel,
    username: Seq<char>,
    password: Seq<char>,
) -> bool {
    credentials.username == username && match (
        credentials.password,
        credentials.token,
        credentials.salt,
    ) {
        (Some(provided), _, _) => is_password(provided, password),
        (None, Some(token), Some(salt)) => is_token(token, md5_of(encode_utf8(password + salt))),
        _ => false,
    }
}

/// The credentials in a request.
pub open spec fn credentials_of(request: RequestContextModel) -> CredentialsModel {
    CredentialsModel {
        username: match first_value(request.query, "u"@) {
            Some(username) => username,
            None => seq![],
        },
        password: first_value(request.query, "p"@),
        token: first_value(request.query, "t"@),
        salt: first_value(request.query, "s"@),
    }
}

fn to_hex_char(n: u8) -> (r: char)
    requires
        n < 16,
    ensures
        r == hex_char(n as int),
{
    if n < 10 {
        (48 + n) as char
    } else {
        (87 + n) as char
    }
}

/// Bytes in hexadecimal notation.
pub fn encode_hex(bytes: &Vec<u8>) -> (r: String)
    ensures
        r@ == hex_text(bytes@),
{
    let mut out = String::new();
    let total: usize = bytes.len();
    let mut i: usize = 0;
    assert(out@ =~= hex_text(bytes@.take(0)));
    while i < total
        invariant
            i <= total,
            total == bytes@.len(),
            out@ == hex_text(bytes@.take(i as int)),
        decreases total - i,
    {
        assert(bytes@.take(i + 1).drop_last() =~= bytes@.take(i as int));
        out.push(to_hex_char(bytes[i] / 16));
        out.push(to_hex_char(bytes[i] % 16));
        i = i + 1;
    }
    assert(bytes@.take(total as int) =~= bytes@);
    out
}

fn digit_of(c: char) -> (r: Option<u8>)
    ensures
        match r {
            Some(n) => hex_value(c) == Some(n as int) && n < 16,
            None => hex_value(c) is None,
        },
{
    if '0' <= c && c <= '9' {
        Some((c as u32 - 48) as u8)
    } else if 'a' <= c && c <= 'f' {
        Some((c as u32 - 87) as u8)
    } else if 'A' <= c && c <= 'F' {
        Some((c as u32 - 55) as u8)
    } else {
        None
    }
}

/// A digit that is none spoils what follows it.
proof fn lemma_hex_fails(hex: Seq<char>, n: int)
    requires
        0 <= n <= hex.len(),
        n % 2 == 0,
        hex_bytes(hex.take(n)) is None,
    ensures
        hex_bytes(hex) is None,
    decreases hex.len(),
{
    if n == hex.len() {
        assert(hex.take(n) =~= hex);
    } else if n == hex.len() - 1 {
        lemma_hex_odd(hex);
    } else {
        assert(hex.take(hex.len() - 2).take(n) =~= hex.take(n));
        lemma_hex_fails(hex.take(hex.len() - 2), n);
    }
}

/// An odd number of digits stands for no bytes.
proof fn lemma_hex_odd(hex: Seq<char>)
    requires
        hex.len() % 2 == 1,
    ensures
        hex_bytes(hex) is None,
    decreases hex.len(),
{
    if hex.len() > 1 {
        lemma_hex_odd(hex.take(hex.len() - 2));
    }
}

/// The text whose UTF-8 encoding the hexadecimal digits stand for.
pub fn decode_hex_utf8(hex: &str) -> (r: Result<String, ()>)
    ensures
        match r {
            Ok(text) => hex_decoded(hex@) == Some(text@),
            Err(()) => hex_decoded(hex@) is None,
        },
{
    let chars = chars_of(hex);
    let total: usize = chars.len();
    if total % 2 != 0 {
        proof {
            lemma_hex_odd(hex@);
        }
        return Err(());
    }
    let mut bytes: Vec<u8> = Vec::new();
    let mut i: usize = 0;
    assert(chars@.take(0) =~= seq![]);
    assert(bytes@ =~= seq![]);
    while i < total
        invariant
            i <= total,
            total == chars@.len(),
            chars@ == hex@,
            total % 2 == 0,
            i % 2 == 0,
            hex_bytes(chars@.take(i as int)) == Some(bytes@),
        decreases total - i,
    {
        let ghost upto = chars@.take(i + 2);
        assert(upto.take(upto.len() - 2) =~= chars@.take(i as int));
        match (digit_of(chars[i]), digit_of(chars[i + 1])) {
            (Some(high), Some(low)) => {
                bytes.push(high * 16 + low);
            },
            _ => {
                proof {
                    lemma_hex_fails(chars@, i + 2);
                }
                return Err(());
            },
        }
        i = i + 2;
    }
    assert(chars@.take(total as int) =~= chars@);
    match decode(bytes) {
        Some(text) => Ok(text),
        None => Err(()),
    }
}

/// Whether a password is the expected one.
pub fn matches_password(provided: &str, expected: &str) -> (r: bool)
    ensures
        r == is_password(provided@, expected@),
{
    if same_text(provided, expected) {
        return true;
    }
    match strip_prefix(provided, "enc:") {
        Some(hex) => match decode_hex_utf8(&hex) {
            Ok(text) => same_text(&text, expected),
            Err(()) => false,
        },
        None => false,
    }
}

proof fn lemma_hex_is_lower(bytes: Seq<u8>)
    ensures
        lower_text(hex_text(bytes)) == hex_text(bytes),
    decreases bytes.len(),
{
    let hex = hex_text(bytes);
    if bytes.len() > 0 {
        lemma_hex_is_lower(bytes.drop_last());
        let before = hex_text(bytes.drop_last());
        assert forall|i: int| 0 <= i < hex.len() implies lower_char(#[trigger] hex[i]) == hex[i] by {
            if i < before.len() {
                assert(hex[i] == before[i]);
                assert(lower_text(before)[i] == lower_char(before[i]));
            }
        }
    }
    assert(lower_text(hex) =~= hex);
}

/// Whether a token is the notation of a digest, whatever the case of its letters.
pub fn matches_digest(token: &str, digest: &Vec<u8>) -> (r: bool)
    ensures
        r == is_token(token@, digest@),
{
    proof {
        lemma_hex_is_lower(digest@);
    }
    same_ignoring_case(token, &encode_hex(digest))
}

impl Credentials {
    /// The credentials in a request.
    pub fn from_request(request: &RequestContext) -> (r: Self)
        ensures
            r.deep_view() == credentials_of(request.deep_view()),
    {
        let username = match query_value(request, "u") {
            Some(username) => username.to_owned(),
            None => {
                let none = String::new();
                assert(none@ =~= seq![]);
                none
            },
        };
        Credentials {
            username,
            password: owned(query_value(request, "p")),
            token: owned(query_value(request, "t")),
            salt: owned(query_value(request, "s")),
        }
    }

    /// Whether the credentials are those of the one user.
    pub fn matches(&self, config: &SubsonicConfig) -> (r: bool)
        ensures
            r == is_user(self.deep_view(), config.username@, config.password@),
    {
        if !same_text(&self.username, &config.username) {
            return false;
        }
        if let Some(password) = &self.password {
            return matches_password(password, &config.password);
        }
        match (&self.token, &self.salt) {
            (Some(token), Some(salt)) => {
                let mut salted = config.password.clone();
                push_text(&mut salted, salt);
                matches_digest(token, &md5_digest(&bytes_of(&salted)))
            },
            _ => false,
        }
    }
}

fn owned(text: Option<&str>) -> (r: Option<String>)
    ensures
        r.deep_view() == text.deep_view(),
{
    match text {
        Some(text) => Some(text.to_owned()),
        None => None,
    }
}

/// Bytes are read back from their hexadecimal notation.
pub proof fn law_hex_is_read_back(bytes: Seq<u8>)
    ensures
        hex_bytes(hex_text(bytes)) == Some(bytes),
    decreases bytes.len(),
{
    if bytes.len() > 0 {
        law_hex_is_read_back(bytes.drop_last());
        let hex = hex_text(bytes);
        assert(hex.take(hex.len() - 2) =~= hex_text(bytes.drop_last()));
        let b = bytes.last() as int;
        assert(b / 16 * 16 + b % 16 == b);
        assert(bytes =~= bytes.drop_last().push(bytes.last()));
    }
}

/// The right password is accepted as it is, and so it is in hexadecimal notation behind `enc:`.
pub proof fn law_password_is_accepted(username: Seq<char>, password: Seq<char>)
    ensures
        is_user(
            CredentialsModel { username, password: Some(password), token: None, salt: None },
            username,
            password,
        ),
        is_user(
            CredentialsModel {
                username,
                password: Some("enc:"@ + hex_text(encode_utf8(password))),
                token: None,
                salt: None,
            },
            username,
            password,
        ),
{
    let hex = hex_text(encode_utf8(password));
    let provided = "enc:"@ + hex;
    assert("enc:"@.is_prefix_of(provided));
    assert(provided.skip("enc:"@.len() as int) =~= hex);
    law_hex_is_read_back(encode_utf8(password));
    encode_utf8_valid_utf8(password);
    encode_utf8_decode_utf8(password);
}

/// The token that the password and the salt give is accepted.
pub proof fn law_token_is_accepted(username: Seq<char>, password: Seq<char>, salt: Seq<char>)
    ensures
        is_user(
            CredentialsModel {
                username,
                password: None,
                token: Some(hex_text(md5_of(encode_utf8(password + salt)))),
                salt: Some(salt),
            },
            username,
            password,
        ),
{
    lemma_hex_is_lower(md5_of(encode_utf8(password + salt)));
}

/// Nobody is let in without a password and without a token and its salt, nor under another name.
pub proof fn law_missing_credentials_are_refused(
    credentials: CredentialsModel,
    username: Seq<char>,
    password: Seq<char>,
)
    requires
        credentials.username != username || (credentials.password is None && (
        credentials.token is None || credentials.salt is None)),
    ensures
        !is_user(credentials, username, password),
{
}

/// The name of the user, the password, the token and its salt
/// are read from the pairs of the query that they are sent in.
pub proof fn law_credentials_are_read(request: RequestContextModel, value: Seq<char>)
    ensures
        first_value(request.query, "u"@) == Some(value)
            ==> credentials_of(request).username == value,
        first_value(request.query, "u"@) is None ==> credentials_of(request).username.len() == 0,
        credentials_of(request).password == first_value(request.query, "p"@),
        credentials_of(request).token == first_value(request.query, "t"@),
        credentials_of(request).salt == first_value(request.query, "s"@),
{
}

/// A password that is not the right one is refused: as it is, where it does not start with `enc:`, and in
/// hexadecimal notation behind it. A token is not looked at where there is a password.
pub proof fn law_wrong_password_is_refused(
    username: Seq<char>,
    password: Seq<char>,
    wrong: Seq<char>,
    token: Option<Seq<char>>,
    salt: Option<Seq<char>>,
)
    requires
        wrong != password,
    ensures
        (forall|rest: Seq<char>| wrong != #[trigger] ("enc:"@ + rest)) ==> !is_user(
            CredentialsModel { username, password: Some(wrong), token, salt },
            username,
            password,
        ),
        "enc:"@ + hex_text(encode_utf8(wrong)) != password ==> !is_user(
            CredentialsModel {
                username,
                password: Some("enc:"@ + hex_text(encode_utf8(wrong))),
                token,
                salt,
            },
            username,
            password,
        ),
{
    law_prefix("enc:"@, wrong);
    law_prefix("enc:"@, hex_text(encode_utf8(wrong)));
    law_hex_is_read_back(encode_utf8(wrong));
    encode_utf8_valid_utf8(wrong);
    encode_utf8_decode_utf8(wrong);
}

/// A token is accepted in lower and in upper case, and no text but the digest of the password and the salt
/// behind it is.
pub proof fn law_token_is_the_digest(
    username: Seq<char>,
    password: Seq<char>,
    token: Seq<char>,
    salt: Seq<char>,
)
    ensures
        is_user(
            CredentialsModel { username, password: None, token: Some(token), salt: Some(salt) },
            username,
            password,
        ) <==> lower_text(token) == hex_text(md5_of(encode_utf8(password + salt))),
{
}

/// Each byte is written with two digits, the higher first: `0` to `9` and `a` to `f`.
pub proof fn law_hex_notation(bytes: Seq<u8>, high: u8, low: u8)
    requires
        high < 16,
        low < 16,
    ensures
        hex_text(Seq::<u8>::empty()).len() == 0,
        hex_text(bytes.push((high * 16 + low) as u8)) == hex_text(bytes) + seq![
            hex_char(high as int),
            hex_char(low as int),
        ],
        high < 10 ==> hex_char(high as int) as int == '0' as int + high,
        high >= 10 ==> hex_char(high as int) as int == 'a' as int + high - 10,
{
    let b = (high * 16 + low) as u8;
    assert(bytes.push(b).drop_last() =~= bytes);
    assert(bytes.push(b).last() == b);
    assert(b as int / 16 == high as int && b as int % 16 == low as int);
}

/// The digits of the hexadecimal notation are read in lower and in upper case, and nothing else is read.
pub proof fn law_hex_digits(c: char, hex: Seq<char>, high: char, low: char)
    ensures
        '0' <= c <= '9' ==> hex_value(c) == Some(c as int - '0' as int),
        'a' <= c <= 'f' ==> hex_value(c) == Some(c as int - 'a' as int + 10),
        'A' <= c <= 'F' ==> hex_value(c) == Some(c as int - 'A' as int + 10),
        !('0' <= c <= '9') && !('a' <= c <= 'f') && !('A' <= c <= 'F') ==> hex_value(c) is None,
        hex.len() % 2 == 1 ==> hex_bytes(hex) is None,
        hex_value(high) is None || hex_value(low) is None
            ==> hex_bytes(hex.push(high).push(low)) is None,
        hex_bytes(hex) is Some && hex_value(high) is Some && hex_value(low) is Some ==> hex_bytes(
            hex.push(high).push(low),
        ) == Some(
            (hex_bytes(hex)->0).push(((hex_value(high)->0) * 16 + (hex_value(low)->0)) as u8),
        ),
{
    if hex.len() % 2 == 1 {
        lemma_hex_odd(hex);
    }
    let more = hex.push(high).push(low);
    assert(more.take(more.len() - 2) =~= hex);
}

} // verus!
