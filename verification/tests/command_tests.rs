use fwaifu::commands::{answer_is_yes, clean_target, is_newer, proxy_is_valid, remote_version, save_destination, save_dir, wants_help, CleanTarget};
use fwaifu::cycle::{display_plan, Cycle, CycleAction, CycleEvent, CyclePhase};
use fwaifu::config::Config;
use fwaifu::image::{crop_args, imagemagick_command};

#[test]
fn help_flag_anywhere() {
    assert!(wants_help(&vec!["fwaifu".into(), "-n".into(), "--help".into()]));
    assert!(wants_help(&vec!["fwaifu".into(), "-h".into()]));
    assert!(!wants_help(&vec!["fwaifu".into(), "-hx".into()]));
}

#[test]
fn proxies() {
    assert!(proxy_is_valid("http://127.0.0.1:7890"));
    assert!(proxy_is_valid("https://p"));
    assert!(!proxy_is_valid("socks5://p"));
    assert!(!proxy_is_valid("127.0.0.1:7890"));
}

#[test]
fn clean_targets() {
    assert_eq!(clean_target("__DEFAULT__"), Some(CleanTarget::Both));
    assert_eq!(clean_target("NSFW"), Some(CleanTarget::Nsfw));
    assert_eq!(clean_target("sfw"), Some(CleanTarget::Sfw));
    assert_eq!(clean_target("SfW"), Some(CleanTarget::Sfw));
    assert_eq!(clean_target("all"), None);
    assert_eq!(clean_target(""), None);
}

#[test]
fn save_targets() {
    assert_eq!(save_dir("/x", true, Some("/s"), Some("/n"), "/d"), "/x");
    assert_eq!(save_dir("__DEFAULT__", true, Some("/s"), Some("/n"), "/d"), "/n");
    assert_eq!(save_dir("__DEFAULT__", false, Some("/s"), None, "/d"), "/s");
    assert_eq!(save_dir("__DEFAULT__", true, Some("/s"), None, "/d"), "/d");
    assert_eq!(save_destination("/pics", "/c/used/sfw/a.jpg"), "/pics/a.jpg");
    assert_eq!(save_destination("/pics/", "/"), "/pics/unknown.jpg");
}

#[test]
fn update_check() {
    let body = "[package]\nname = \"fwaifu\"\n  version = \"0.3.0\"\nedition = \"2024\"\n";
    assert_eq!(remote_version(body), "0.3.0");
    assert_eq!(remote_version("nothing here"), "0.0.0");
    assert_eq!(remote_version("version\n"), "0.0.0");
    assert_eq!(remote_version("version = 1"), "0.0.0");
    assert!(is_newer("0.3.0", "0.2.9"));
    assert!(!is_newer("0.2.9", "0.3.0"));
    assert!(!is_newer("0.3.0", "0.3.0"));
    assert!(is_newer("0.10.0", "0.9.0"));
    assert!(!is_newer("0.9.0", "0.10.0"));
    assert!(is_newer("0.1.10", "0.1.9"));
    assert!(!is_newer("0.1.9", "0.1.10"));
    assert!(!is_newer("0.3", "0.3.0") && !is_newer("0.3.0", "0.3"));
    assert!(!is_newer("0.0.0", "0.1.0"));
    assert!(is_newer("0.3.0.1", "0.3.0"));
    assert!(answer_is_yes(" Y\n") && answer_is_yes("y"));
    assert!(!answer_is_yes("yes") && !answer_is_yes(""));
}

#[test]
fn cycle_with_stock() {
    let mut c = Cycle::new();
    assert!(matches!(c.step(CycleEvent::Stock(3)), CycleAction::SelectRandom));
    match c.step(CycleEvent::Selected(Some("/p.jpg".into()))) {
        CycleAction::Display(p) => assert_eq!(p, "/p.jpg"),
        _ => panic!(),
    }
    assert_eq!(c.phase, CyclePhase::Done);
}

#[test]
fn cycle_with_empty_stock() {
    let mut c = Cycle::new();
    assert!(matches!(c.step(CycleEvent::Stock(0)), CycleAction::CheckNetwork));
    assert!(matches!(c.step(CycleEvent::Network(true)), CycleAction::FetchOne));
    match c.step(CycleEvent::Urls(Some(vec!["u1".into(), "u2".into()]))) {
        CycleAction::Download(u) => assert_eq!(u, "u1"),
        _ => panic!(),
    }
    assert!(matches!(c.step(CycleEvent::Downloaded(true)), CycleAction::SelectRandom));
    assert!(matches!(c.step(CycleEvent::Selected(None)), CycleAction::Fallback));
}

#[test]
fn cycle_failures() {
    let mut c = Cycle::new();
    c.step(CycleEvent::Stock(0));
    assert!(matches!(c.step(CycleEvent::Network(false)), CycleAction::NetworkDown));
    let mut c = Cycle::new();
    c.step(CycleEvent::Stock(0));
    c.step(CycleEvent::Network(true));
    assert!(matches!(c.step(CycleEvent::Urls(Some(vec![]))), CycleAction::Fallback));
    let mut c = Cycle::new();
    c.step(CycleEvent::Stock(0));
    c.step(CycleEvent::Network(true));
    c.step(CycleEvent::Urls(Some(vec!["u".into()])));
    assert!(matches!(c.step(CycleEvent::Downloaded(false)), CycleAction::Fallback));
}

#[test]
fn display_plans() {
    let c = Config::default();
    let p = display_plan(&c, false, true);
    assert_eq!(p.crop, Some((600, 800)));
    assert!(!p.warn_no_imagemagick && !p.use_chafa && p.clean_thumbnails);
    let p = display_plan(&c, true, false);
    assert_eq!(p.crop, None);
    assert!(p.warn_no_imagemagick && p.use_chafa);
}

#[test]
fn imagemagick() {
    assert_eq!(crop_args("/i.jpg", 600, 800), vec!["/i.jpg", "-resize", "600x800^", "-gravity", "center", "-extent", "600x800", "/i.jpg"].iter().map(|s| s.to_string()).collect::<Vec<_>>());
    assert_eq!(imagemagick_command(true, true).as_deref(), Some("magick"));
    assert_eq!(imagemagick_command(false, true).as_deref(), Some("convert"));
    assert_eq!(imagemagick_command(false, false), None);
}
