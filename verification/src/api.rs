//! The Nekos.moe API: the requests that the client sends and what it reads
//! back, apart from the network traffic itself.
use vstd::prelude::*;
use crate::text::{chars_of, numeral, push_numeral, trim, trim_str, views};

verus! {

/// Why a request was not sent or its answer not used.
#[derive(Clone, Copy, Debug, PartialEq, Eq, Structural)]
pub enum ApiError {
    /// A request for no image.
    ZeroCount,
    /// A login without a user name.
    EmptyUsername,
    /// A login without a password.
    EmptyPassword,
    /// The stored token cannot be sent as a header value.
    InvalidToken,
}

impl ApiError {
    /// The text of the error.
    pub fn message(&self) -> (m: String)
        ensures
            m@ == match *self {
                ApiError::ZeroCount => "count must be greater than 0"@,
                ApiError::EmptyUsername => "username must not be empty"@,
                ApiError::EmptyPassword => "password must not be empty"@,
                ApiError::InvalidToken => "Invalid token in file: failed to parse header value"@,
            },
    {
        match self {
            ApiError::ZeroCount => String::from_str("count must be greater than 0"),
            ApiError::EmptyUsername => String::from_str("username must not be empty"),
            ApiError::EmptyPassword => String::from_str("password must not be empty"),
            ApiError::InvalidToken => String::from_str(
                "Invalid token in file: failed to parse header value",
            ),
        }
    }
}

/// The API's base address.
pub open spec fn base_url() -> Seq<char> {
    "https://nekos.moe/api/v1"@
}

/// The address that asks for `count` random images.
pub open spec fn random_images_address(nsfw: bool, count: u32) -> Seq<char> {
    base_url() + "/random/image?nsfw="@ + (if nsfw { "true"@ } else { "false"@ }) + "&count="@
        + numeral(count as nat, 10)
}

/// The address of a request for `count` random images; an error for a
/// request for none.
pub fn random_images_url(nsfw: bool, count: u32) -> (r: Result<String, ApiError>)
    ensures
        count == 0 ==> r == Err::<String, ApiError>(ApiError::ZeroCount),
        count > 0 ==> (r matches Ok(u) && u@ == random_images_address(nsfw, count)),
{
    if count == 0 {
        return Err(ApiError::ZeroCount);
    }
    let mut url = String::from_str("https://nekos.moe/api/v1");
    url.append("/random/image?nsfw=");
    if nsfw {
        url.append("true");
    } else {
        url.append("false");
    }
    url.append("&count=");
    push_numeral(&mut url, count as u128, 10);
    Ok(url)
}

/// The address of the picture with the given id.
pub open spec fn image_address(id: Seq<char>) -> Seq<char> {
    "https://nekos.moe/image/"@ + id + ".jpg"@
}

/// The picture addresses of the ids that the API returned, in order.
pub fn image_urls(ids: &Vec<String>) -> (r: Vec<String>)
    ensures
        views(r@) == views(ids@).map_values(|id: Seq<char>| image_address(id)),
{
    let mut r: Vec<String> = Vec::new();
    let mut i: usize = 0;
    while i < ids.len()
        invariant
            i <= ids.len(),
            views(r@) == views(ids@).map_values(|id: Seq<char>| image_address(id)).take(i as int),
        decreases ids.len() - i,
    {
        let mut u = String::from_str("https://nekos.moe/image/");
        u.append(ids[i].as_str());
        u.append(".jpg");
        let ghost before = views(r@);
        r.push(u);
        assert(views(r@) == before.push(u@));
        assert(views(ids@).map_values(|id: Seq<char>| image_address(id)).take(i + 1) == views(
            ids@,
        ).map_values(|id: Seq<char>| image_address(id)).take(i as int).push(image_address(ids@[i as int]@)));
        i += 1;
    }
    assert(views(ids@).map_values(|id: Seq<char>| image_address(id)).take(ids@.len() as int)
        == views(ids@).map_values(|id: Seq<char>| image_address(id)));
    r
}

/// The address of the login request; an error for an empty user name or
/// password (the user name checked first).
pub fn login_url(username: &str, password: &str) -> (r: Result<String, ApiError>)
    ensures
        username@.len() == 0 ==> r == Err::<String, ApiError>(ApiError::EmptyUsername),
        username@.len() > 0 && password@.len() == 0 ==> r == Err::<String, ApiError>(
            ApiError::EmptyPassword,
        ),
        username@.len() > 0 && password@.len() > 0 ==> (r matches Ok(u) && u@ == base_url()
            + "/auth"@),
{
    if username.is_empty() {
        return Err(ApiError::EmptyUsername);
    }
    if password.is_empty() {
        return Err(ApiError::EmptyPassword);
    }
    let mut url = String::from_str("https://nekos.moe/api/v1");
    url.append("/auth");
    Ok(url)
}

/// An HTTP status in the success class (`StatusCode::is_success`: 200..300).
pub open spec fn status_ok(code: u16) -> bool {
    200 <= code < 300
}

/// Whether an HTTP status code is a success (200 to 299).
pub fn is_success(code: u16) -> (b: bool)
    ensures
        b == status_ok(code),
{
    200 <= code && code < 300
}

/// A character that a header value may hold (`HeaderValue::from_str`
/// accepts a string of these: tab, or anything from space up but DEL).
pub open spec fn header_char_ok(c: char) -> bool {
    c == '\t' || (' ' <= c && c != '\u{7f}')
}

/// The authorization header that a token file gives: none for a missing
/// or blank file, the trimmed token where it can be a header value, an
/// error where it cannot.
pub open spec fn token_header(content: Option<Seq<char>>) -> Result<Option<Seq<char>>, ApiError> {
    match content {
        None => Ok(None),
        Some(c) => {
            let t = trim(c);
            if t.len() == 0 {
                Ok(None)
            } else if forall|i: int| 0 <= i < t.len() ==> header_char_ok(#[trigger] t[i]) {
                Ok(Some(t))
            } else {
                Err(ApiError::InvalidToken)
            }
        },
    }
}

/// The authorization header of the client, given the contents of the token
/// file where it exists.
pub fn auth_header(token_file: Option<&str>) -> (r: Result<Option<String>, ApiError>)
    ensures
        match token_header(
            match token_file {
                Some(c) => Some(c@),
                None => None,
            },
        ) {
            Ok(Some(s)) => r matches Ok(Some(h)) && h@ == s,
            Ok(None) => r matches Ok(None),
            Err(e) => r matches Err(e2) && e2 == e,
        },
{
    match token_file {
        None => Ok(None),
        Some(content) => {
            let token = trim_str(content);
            let v = chars_of(token.as_str());
            if v.len() == 0 {
                return Ok(None);
            }
            let mut i: usize = 0;
            while i < v.len()
                invariant
                    i <= v.len(),
                    v@ == trim(content@),
                    v@.len() > 0,
                    token_file == Some(content),
                    forall|j: int| 0 <= j < i ==> header_char_ok(#[trigger] v@[j]),
                decreases v.len() - i,
            {
                let c = v[i];
                if !(c == '\t' || (' ' <= c && c != '\u{7f}')) {
                    assert(!header_char_ok(v@[i as int]));
                    assert(!(forall|j: int| 0 <= j < v@.len() ==> header_char_ok(#[trigger] v@[j])));
                    return Err(ApiError::InvalidToken);
                }
                i += 1;
            }
            Ok(Some(token))
        },
    }
}

} // verus!
