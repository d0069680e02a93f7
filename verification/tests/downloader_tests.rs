use fwaifu::downloader::{failure_message, is_image_mime, validate_image, ImageError, Retry, RetryAction, RetryEvent, RetryPhase};

#[test]
fn magic_bytes() {
    assert_eq!(validate_image(&[0xFF, 0xD8, 0xFF, 0xE0], false), Ok(()));
    assert_eq!(validate_image(&[0x89, 0x50, 0x4E, 0x47, 0x0D], false), Ok(()));
    assert_eq!(validate_image(b"GIF89a", false), Ok(()));
    assert_eq!(validate_image(b"RIFF....WEBP", false), Ok(()));
    assert_eq!(validate_image(b"<html>", false), Err(ImageError::NotAnImage));
    assert_eq!(validate_image(&[0xFF, 0xD8, 0xFF], false), Err(ImageError::TooSmall));
    assert_eq!(validate_image(&[], true), Ok(()));
    assert_eq!(validate_image(b"<html>", true), Ok(()));
}

#[test]
fn mime_output() {
    assert!(is_image_mime("image/jpeg\n"));
    assert!(is_image_mime("  image/png"));
    assert!(!is_image_mime("text/html\n"));
    assert!(!is_image_mime("Image/png"));
}

#[test]
fn retry_direct_success() {
    let (mut r, a) = Retry::start(3);
    assert!(matches!(a, RetryAction::DownloadDirect));
    assert!(matches!(r.step(RetryEvent::DirectDone(true)), RetryAction::Succeeded));
    assert_eq!(r.phase, RetryPhase::Finished);
}

#[test]
fn retry_gives_up_after_all_rounds() {
    let (mut r, mut a) = Retry::start(3);
    let mut attempts = 0;
    let mut pauses = 0;
    loop {
        a = match a {
            RetryAction::DownloadDirect => { attempts += 1; r.step(RetryEvent::DirectDone(false)) }
            RetryAction::DownloadProxy => { attempts += 1; r.step(RetryEvent::ProxyDone(Err(format!("e{attempts}")))) }
            RetryAction::Pause => { pauses += 1; r.step(RetryEvent::Paused) }
            RetryAction::Failed(m) => {
                assert_eq!(m, "All 3 download attempts failed. Last error: e6");
                break;
            }
            RetryAction::Succeeded => panic!("no success expected"),
        };
    }
    assert_eq!((attempts, pauses), (6, 3));
}

#[test]
fn retry_proxy_success_in_second_round() {
    let (mut r, _) = Retry::start(2);
    assert!(matches!(r.step(RetryEvent::DirectDone(false)), RetryAction::DownloadProxy));
    assert!(matches!(r.step(RetryEvent::ProxyDone(Err("x".into()))), RetryAction::Pause));
    assert!(matches!(r.step(RetryEvent::Paused), RetryAction::DownloadDirect));
    assert!(matches!(r.step(RetryEvent::DirectDone(false)), RetryAction::DownloadProxy));
    assert!(matches!(r.step(RetryEvent::ProxyDone(Ok(()))), RetryAction::Succeeded));
    assert_eq!(r.round, 1);
}

#[test]
fn zero_retries_fail_at_once() {
    let (_, a) = Retry::start(0);
    match a {
        RetryAction::Failed(m) => assert_eq!(m, "All 0 download attempts failed. Last error: unknown"),
        _ => panic!(),
    }
    assert_eq!(failure_message(5, &Some("boom".into())), "All 5 download attempts failed. Last error: boom");
}

#[test]
fn out_of_order_event_changes_nothing() {
    let (mut r, _) = Retry::start(1);
    assert!(matches!(r.step(RetryEvent::Paused), RetryAction::DownloadDirect));
    assert_eq!(r.phase, RetryPhase::Direct);
}
