//! OAuth2 (XOAUTH2) token providers for SMTP authentication.
use vstd::prelude::*;
use vstd::slice::slice_to_vec;
use vstd::utf8::encode_utf8;

use crate::encoding::{base64, base64_decode, encode_base64, lemma_base64_roundtrip};

verus! {

/// A source of the Base64 XOAUTH2 initial response sent after `AUTH XOAUTH2`.
/// Users implement it for their own token sources.
pub trait OAuthTokenProvider {
    fn get_oauth64(&self) -> String;
}

/// The XOAUTH2 initial client response for `user` and a bearer `token`
/// (fields separated by the control character U+0001).
pub open spec fn xoauth2_credentials(user: Seq<char>, token: Seq<char>) -> Seq<char> {
    "user="@ + user + "\u{1}auth=Bearer "@ + token + "\u{1}\u{1}"@
}

/// A provider holding a fixed user name and access token.
#[derive(Debug, Clone)]
pub struct SimpleOAuthTokenProvider {
    user_name: String,
    access_token: String,
}

impl SimpleOAuthTokenProvider {
    /// The user name this provider was made with.
    pub closed spec fn user_view(&self) -> Seq<char> {
        self.user_name@
    }

    /// The access token this provider was made with.
    pub closed spec fn token_view(&self) -> Seq<char> {
        self.access_token@
    }

    pub fn new(user_name: String, access_token: String) -> (provider: Self)
        ensures
            provider.user_view() == user_name@,
            provider.token_view() == access_token@,
    {
        SimpleOAuthTokenProvider { user_name: user_name.clone(), access_token: access_token.clone() }
    }

    pub fn user_name(&self) -> (name: String)
        ensures
            name@ == self.user_view(),
    {
        self.user_name.clone()
    }

    pub fn access_token(&self) -> (token: String)
        ensures
            token@ == self.token_view(),
    {
        self.access_token.clone()
    }
}

impl OAuthTokenProvider for SimpleOAuthTokenProvider {
    /// Base64 of the UTF-8 bytes of the XOAUTH2 credentials.
    fn get_oauth64(&self) -> (encoded: String)
        ensures
            encoded@ == base64(encode_utf8(xoauth2_credentials(self.user_view(), self.token_view()))),
            base64_decode(encoded@) == encode_utf8(
                "user="@ + self.user_view() + "\u{1}auth=Bearer "@ + self.token_view() + "\u{1}\u{1}"@,
            ),
    {
        proof {
            lemma_oauth64_carries_credentials(self.user_view(), self.token_view());
        }
        let mut auth_string = String::from_str("user=");
        auth_string.append(self.user_name.as_str());
        auth_string.append("\u{1}auth=Bearer ");
        auth_string.append(self.access_token.as_str());
        auth_string.append("\u{1}\u{1}");
        let bytes = slice_to_vec(auth_string.as_str().as_bytes());
        encode_base64(bytes)
    }
}

/// The XOAUTH2 token decodes to the UTF-8 bytes of "user=", the whole user
/// name, U+0001, "auth=Bearer ", the whole access token, and U+0001 twice.
pub proof fn lemma_oauth64_carries_credentials(user: Seq<char>, token: Seq<char>)
    ensures
        base64_decode(base64(encode_utf8(xoauth2_credentials(user, token)))) == encode_utf8(
            "user="@ + user + "\u{1}auth=Bearer "@ + token + "\u{1}\u{1}"@,
        ),
{
    lemma_base64_roundtrip(encode_utf8(xoauth2_credentials(user, token)));
}

} // verus!
