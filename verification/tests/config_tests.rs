use fwaifu::config::{merge_cli_overrides, merge_file_config, Cli, Config, FileCacheConfig, FileConfig, FileDownloadConfig};

fn empty_cli() -> Cli {
    Cli {
        nsfw: false, term: false, term_width: None, watch: false, watch_interval: None, proxy: None,
        no_crop: false, crop_width: None, crop_height: None, logo_width: None, login: false,
        logout: false, status: false, daemon: false, clean: None, save: None, update: false,
        completion: None, fastfetch_args: Vec::new(),
    }
}

fn empty_file() -> FileConfig {
    FileConfig {
        proxy: None, crop: None, crop_width: None, crop_height: None, logo_width: None,
        watch_interval: None, download: FileDownloadConfig { batch_size: None },
        cache: FileCacheConfig { max_limit: None, min_trigger: None, max_used: None, clean_cache: None },
        save_path_sfw: None, save_path_nsfw: None,
    }
}

#[test]
fn defaults() {
    let c = Config::default();
    assert_eq!((c.nsfw, c.watch, c.watch_interval, c.proxy.clone()), (false, false, 5, None));
    assert_eq!((c.crop, c.crop_width, c.crop_height, c.logo_width), (true, 600, 800, 40));
    assert_eq!((c.download_batch_size, c.max_cache_limit, c.min_trigger_limit, c.max_used_limit), (10, 100, 60, 50));
    assert!(c.clean_cache);
    assert!(c.fastfetch_args.is_empty());
}

#[test]
fn priority_cli_over_env_over_file() {
    let mut file = empty_file();
    file.proxy = Some("http://file:1".into());
    file.crop_width = Some(300);
    file.cache.max_used = Some(7);
    let mut cli = empty_cli();
    let c = Config::load(&cli, Some(&file), None);
    assert_eq!(c.proxy.as_deref(), Some("http://file:1"));
    assert_eq!(c.crop_width, 300);
    assert_eq!(c.max_used_limit, 7);
    let c = Config::load(&cli, Some(&file), Some("http://env:2"));
    assert_eq!(c.proxy.as_deref(), Some("http://env:2"));
    cli.proxy = Some("http://cli:3".into());
    cli.crop_width = Some(100);
    let c = Config::load(&cli, Some(&file), Some("http://env:2"));
    assert_eq!(c.proxy.as_deref(), Some("http://cli:3"));
    assert_eq!(c.crop_width, 100);
}

#[test]
fn cli_flags_and_trailing_args() {
    let mut cli = empty_cli();
    cli.nsfw = true;
    cli.watch = true;
    cli.no_crop = true;
    cli.fastfetch_args = vec!["--pipe".into(), "false".into()];
    let mut file = empty_file();
    file.crop = Some(true);
    let c = Config::load(&cli, Some(&file), None);
    assert!(c.nsfw && c.watch && !c.crop);
    assert_eq!(c.fastfetch_args, vec!["--pipe".to_string(), "false".to_string()]);
}

#[test]
fn merging_nothing_changes_nothing() {
    let mut c = Config::default();
    c.proxy = Some("http://x".into());
    c.watch_interval = 9;
    let before = format!("{:?}", c);
    merge_file_config(&mut c, &empty_file());
    merge_cli_overrides(&mut c, &empty_cli());
    assert_eq!(format!("{:?}", c), before);
}

#[test]
fn merging_twice_is_merging_once() {
    let mut file = empty_file();
    file.logo_width = Some(33);
    file.save_path_nsfw = Some("/n".into());
    let mut a = Config::default();
    merge_file_config(&mut a, &file);
    let once = format!("{:?}", a);
    merge_file_config(&mut a, &file);
    assert_eq!(format!("{:?}", a), once);
}
