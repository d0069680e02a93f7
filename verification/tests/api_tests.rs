use fwaifu::api::{auth_header, image_urls, is_success, login_url, random_images_url, ApiError};

#[test]
fn random_images_request() {
    assert_eq!(random_images_url(false, 10), Ok("https://nekos.moe/api/v1/random/image?nsfw=false&count=10".to_string()));
    assert_eq!(random_images_url(true, 1), Ok("https://nekos.moe/api/v1/random/image?nsfw=true&count=1".to_string()));
    assert_eq!(random_images_url(true, 0), Err(ApiError::ZeroCount));
    assert_eq!(ApiError::ZeroCount.message(), "count must be greater than 0");
}

#[test]
fn image_addresses() {
    let ids = vec!["abc".to_string(), "X1".to_string()];
    assert_eq!(image_urls(&ids), vec!["https://nekos.moe/image/abc.jpg".to_string(), "https://nekos.moe/image/X1.jpg".to_string()]);
    assert!(image_urls(&vec![]).is_empty());
}

#[test]
fn login_request() {
    assert_eq!(login_url("", "p"), Err(ApiError::EmptyUsername));
    assert_eq!(login_url("", ""), Err(ApiError::EmptyUsername));
    assert_eq!(login_url("u", ""), Err(ApiError::EmptyPassword));
    assert_eq!(login_url("u", "p"), Ok("https://nekos.moe/api/v1/auth".to_string()));
    assert_eq!(ApiError::EmptyPassword.message(), "password must not be empty");
}

#[test]
fn status_class() {
    assert!(is_success(200) && is_success(299) && is_success(204));
    assert!(!is_success(199) && !is_success(300) && !is_success(404));
}

#[test]
fn token_header_from_file() {
    assert_eq!(auth_header(None), Ok(None));
    assert_eq!(auth_header(Some("  \n")), Ok(None));
    assert_eq!(auth_header(Some(" tok123\n")), Ok(Some("tok123".to_string())));
    assert_eq!(auth_header(Some("a\u{7f}b")), Err(ApiError::InvalidToken));
    assert_eq!(auth_header(Some("a\tb")), Ok(Some("a\tb".to_string())));
    assert_eq!(ApiError::InvalidToken.message(), "Invalid token in file: failed to parse header value");
}
