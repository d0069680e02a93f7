//! The effective configuration: built-in defaults, overridden by the
//! configuration file, then by `FWAIFU_PROXY`, then by the command line.
use vstd::prelude::*;
use crate::text::{opt_view, views};

verus! {

/// The command line, as the user gave it.
pub struct Cli {
    /// Enable NSFW mode
    pub nsfw: bool,
    /// Use chafa to display the image in the terminal
    pub term: bool,
    /// Width of the chafa output in characters
    pub term_width: Option<u32>,
    /// Enable watch/loop mode
    pub watch: bool,
    /// Watch interval in seconds
    pub watch_interval: Option<u64>,
    /// Proxy URL
    pub proxy: Option<String>,
    /// Disable image cropping
    pub no_crop: bool,
    /// Crop width
    pub crop_width: Option<u32>,
    /// Crop height
    pub crop_height: Option<u32>,
    /// Fastfetch logo display width
    pub logo_width: Option<u32>,
    /// Interactive login to Nekos.moe
    pub login: bool,
    /// Clear stored token
    pub logout: bool,
    /// Show login status
    pub status: bool,
    /// Internal: run as background stock replenisher daemon
    pub daemon: bool,
    /// Clear cache (sfw, nsfw, or all when given without a value)
    pub clean: Option<String>,
    /// Save the last displayed image (optional path)
    pub save: Option<String>,
    /// Check for updates and prompt to install
    pub update: bool,
    /// Generate shell completion script for the given shell
    pub completion: Option<Shell>,
    /// Trailing positional args passed through to fastfetch
    pub fastfetch_args: Vec<String>,
}

/// The shells for which a completion script can be generated.
#[derive(Clone, Copy, Debug, PartialEq, Eq, Structural)]
pub enum Shell {
    Bash,
    Zsh,
    Fish,
}

/// The effective settings of one run.
#[derive(Clone, Debug)]
pub struct Config {
    pub nsfw: bool,
    pub watch: bool,
    pub watch_interval: u64,
    pub proxy: Option<String>,
    pub crop: bool,
    pub crop_width: u32,
    pub crop_height: u32,
    pub logo_width: u32,
    pub download_batch_size: u32,
    pub max_cache_limit: u32,
    pub min_trigger_limit: u32,
    pub max_used_limit: u32,
    pub clean_cache: bool,
    pub save_path_sfw: Option<String>,
    pub save_path_nsfw: Option<String>,
    pub fastfetch_args: Vec<String>,
}

/// The `[download]` table of the configuration file.
#[derive(Clone, Debug)]
pub struct FileDownloadConfig {
    pub batch_size: Option<u32>,
}

/// The `[cache]` table of the configuration file.
#[derive(Clone, Debug)]
pub struct FileCacheConfig {
    pub max_limit: Option<u32>,
    pub min_trigger: Option<u32>,
    pub max_used: Option<u32>,
    pub clean_cache: Option<bool>,
}

/// The configuration file (`~/.config/fwaifu/config.toml`); a key that is
/// absent leaves the setting as it was.
#[derive(Clone, Debug)]
pub struct FileConfig {
    pub proxy: Option<String>,
    pub crop: Option<bool>,
    pub crop_width: Option<u32>,
    pub crop_height: Option<u32>,
    pub logo_width: Option<u32>,
    pub watch_interval: Option<u64>,
    pub download: FileDownloadConfig,
    pub cache: FileCacheConfig,
    pub save_path_sfw: Option<String>,
    pub save_path_nsfw: Option<String>,
}

// ───────────────────────── models ─────────────────────────

/// The contents of an optional string.
/// A `Config` with its strings taken by their characters.
pub struct ConfigView {
    pub nsfw: bool,
    pub watch: bool,
    pub watch_interval: u64,
    pub proxy: Option<Seq<char>>,
    pub crop: bool,
    pub crop_width: u32,
    pub crop_height: u32,
    pub logo_width: u32,
    pub download_batch_size: u32,
    pub max_cache_limit: u32,
    pub min_trigger_limit: u32,
    pub max_used_limit: u32,
    pub clean_cache: bool,
    pub save_path_sfw: Option<Seq<char>>,
    pub save_path_nsfw: Option<Seq<char>>,
    pub fastfetch_args: Seq<Seq<char>>,
}

impl View for Config {
    type V = ConfigView;

    open spec fn view(&self) -> ConfigView {
        ConfigView {
            nsfw: self.nsfw,
            watch: self.watch,
            watch_interval: self.watch_interval,
            proxy: opt_view(self.proxy),
            crop: self.crop,
            crop_width: self.crop_width,
            crop_height: self.crop_height,
            logo_width: self.logo_width,
            download_batch_size: self.download_batch_size,
            max_cache_limit: self.max_cache_limit,
            min_trigger_limit: self.min_trigger_limit,
            max_used_limit: self.max_used_limit,
            clean_cache: self.clean_cache,
            save_path_sfw: opt_view(self.save_path_sfw),
            save_path_nsfw: opt_view(self.save_path_nsfw),
            fastfetch_args: views(self.fastfetch_args@),
        }
    }
}

/// The built-in settings.
pub open spec fn default_config() -> ConfigView {
    ConfigView {
        nsfw: false,
        watch: false,
        watch_interval: 5,
        proxy: None,
        crop: true,
        crop_width: 600,
        crop_height: 800,
        logo_width: 40,
        download_batch_size: 10,
        max_cache_limit: 100,
        min_trigger_limit: 60,
        max_used_limit: 50,
        clean_cache: true,
        save_path_sfw: None,
        save_path_nsfw: None,
        fastfetch_args: Seq::empty(),
    }
}

/// The value `o` gives, or `v` where it gives none.
pub open spec fn or_keep<T>(o: Option<T>, v: T) -> T {
    match o {
        Some(x) => x,
        None => v,
    }
}

/// An optional setting that `o` replaces where it is given.
pub open spec fn or_keep_opt<T>(o: Option<T>, v: Option<T>) -> Option<T> {
    match o {
        Some(x) => Some(x),
        None => v,
    }
}

/// `c` with every setting that the configuration file `f` gives replaced by
/// the file's value.
pub open spec fn apply_file(c: ConfigView, f: FileConfig) -> ConfigView {
    ConfigView {
        proxy: or_keep_opt(opt_view(f.proxy), c.proxy),
        crop: or_keep(f.crop, c.crop),
        crop_width: or_keep(f.crop_width, c.crop_width),
        crop_height: or_keep(f.crop_height, c.crop_height),
        logo_width: or_keep(f.logo_width, c.logo_width),
        watch_interval: or_keep(f.watch_interval, c.watch_interval),
        download_batch_size: or_keep(f.download.batch_size, c.download_batch_size),
        max_cache_limit: or_keep(f.cache.max_limit, c.max_cache_limit),
        min_trigger_limit: or_keep(f.cache.min_trigger, c.min_trigger_limit),
        max_used_limit: or_keep(f.cache.max_used, c.max_used_limit),
        clean_cache: or_keep(f.cache.clean_cache, c.clean_cache),
        save_path_sfw: or_keep_opt(opt_view(f.save_path_sfw), c.save_path_sfw),
        save_path_nsfw: or_keep_opt(opt_view(f.save_path_nsfw), c.save_path_nsfw),
        ..c
    }
}

/// `c` with every setting that the command line gives replaced by the
/// command line's value: a flag that is set turns its setting on (or, for
/// `--no-crop`, off), and non-empty trailing arguments replace fastfetch's.
pub open spec fn apply_cli(c: ConfigView, cli: Cli) -> ConfigView {
    ConfigView {
        nsfw: if cli.nsfw { true } else { c.nsfw },
        watch: if cli.watch { true } else { c.watch },
        watch_interval: or_keep(cli.watch_interval, c.watch_interval),
        proxy: or_keep_opt(opt_view(cli.proxy), c.proxy),
        crop: if cli.no_crop { false } else { c.crop },
        crop_width: or_keep(cli.crop_width, c.crop_width),
        crop_height: or_keep(cli.crop_height, c.crop_height),
        logo_width: or_keep(cli.logo_width, c.logo_width),
        fastfetch_args: if cli.fastfetch_args@.len() > 0 {
            views(cli.fastfetch_args@)
        } else {
            c.fastfetch_args
        },
        ..c
    }
}

/// `c` with the proxy that `FWAIFU_PROXY` gives, where it is set.
pub open spec fn apply_env(c: ConfigView, env_proxy: Option<Seq<char>>) -> ConfigView {
    ConfigView { proxy: or_keep_opt(env_proxy, c.proxy), ..c }
}

/// The effective settings: the defaults, then the configuration file where
/// there is one that parsed, then `FWAIFU_PROXY`, then the command line.
pub open spec fn effective_config(
    cli: Cli,
    file: Option<FileConfig>,
    env_proxy: Option<Seq<char>>,
) -> ConfigView {
    let base = match file {
        Some(f) => apply_file(default_config(), f),
        None => default_config(),
    };
    apply_cli(apply_env(base, env_proxy), cli)
}

// ───────────────────────── executable ─────────────────────────

fn clone_strings(v: &Vec<String>) -> (r: Vec<String>)
    ensures
        views(r@) == views(v@),
{
    let mut r: Vec<String> = Vec::new();
    crate::runner::push_all(&mut r, v.as_slice());
    assert(views(r@) =~= views(v@));
    r
}

impl Default for Config {
    fn default() -> (c: Config)
        ensures
            c@ == default_config(),
    {
        let c = Config {
            nsfw: false,
            watch: false,
            watch_interval: 5,
            proxy: None,
            crop: true,
            crop_width: 600,
            crop_height: 800,
            logo_width: 40,
            download_batch_size: 10,
            max_cache_limit: 100,
            min_trigger_limit: 60,
            max_used_limit: 50,
            clean_cache: true,
            save_path_sfw: None,
            save_path_nsfw: None,
            fastfetch_args: Vec::new(),
        };
        assert(views(c.fastfetch_args@) =~= Seq::empty());
        c
    }
}

/// The value `o` gives, or `v` where it gives none.
fn pick<T: Copy>(o: Option<T>, v: T) -> (r: T)
    ensures
        r == or_keep(o, v),
{
    match o {
        Some(x) => x,
        None => v,
    }
}

/// Replaces `target` by a copy of the string that `o` gives, where it gives one.
fn set_opt_string(target: &mut Option<String>, o: &Option<String>)
    ensures
        opt_view(*final(target)) == or_keep_opt(opt_view(*o), opt_view(*old(target))),
{
    if let Some(s) = o {
        *target = Some(s.clone());
    }
}

/// Overrides the settings of `config` that the configuration file `file` gives.
pub fn merge_file_config(config: &mut Config, file: &FileConfig)
    ensures
        final(config)@ == apply_file(old(config)@, *file),
{
    set_opt_string(&mut config.proxy, &file.proxy);
    config.crop = pick(file.crop, config.crop);
    config.crop_width = pick(file.crop_width, config.crop_width);
    config.crop_height = pick(file.crop_height, config.crop_height);
    config.logo_width = pick(file.logo_width, config.logo_width);
    config.watch_interval = pick(file.watch_interval, config.watch_interval);
    config.download_batch_size = pick(file.download.batch_size, config.download_batch_size);
    config.max_cache_limit = pick(file.cache.max_limit, config.max_cache_limit);
    config.min_trigger_limit = pick(file.cache.min_trigger, config.min_trigger_limit);
    config.max_used_limit = pick(file.cache.max_used, config.max_used_limit);
    config.clean_cache = pick(file.cache.clean_cache, config.clean_cache);
    set_opt_string(&mut config.save_path_sfw, &file.save_path_sfw);
    set_opt_string(&mut config.save_path_nsfw, &file.save_path_nsfw);
}

/// Overrides the settings of `config` that the command line `cli` gives.
pub fn merge_cli_overrides(config: &mut Config, cli: &Cli)
    ensures
        final(config)@ == apply_cli(old(config)@, *cli),
{
    if cli.nsfw {
        config.nsfw = true;
    }
    if cli.watch {
        config.watch = true;
    }
    config.watch_interval = pick(cli.watch_interval, config.watch_interval);
    set_opt_string(&mut config.proxy, &cli.proxy);
    if cli.no_crop {
        config.crop = false;
    }
    config.crop_width = pick(cli.crop_width, config.crop_width);
    config.crop_height = pick(cli.crop_height, config.crop_height);
    config.logo_width = pick(cli.logo_width, config.logo_width);
    if cli.fastfetch_args.len() > 0 {
        config.fastfetch_args = clone_strings(&cli.fastfetch_args);
    }
}

impl Config {
    /// The effective settings of a run: the defaults, merged with the
    /// configuration file `file` where one was read and parsed, then the
    /// value of `FWAIFU_PROXY` where it is set, then the command line.
    pub fn load(cli: &Cli, file: Option<&FileConfig>, env_proxy: Option<&str>) -> (c: Config)
        ensures
            c@ == effective_config(
                *cli,
                match file {
                    Some(f) => Some(*f),
                    None => None,
                },
                match env_proxy {
                    Some(p) => Some(p@),
                    None => None,
                },
            ),
    {
        let mut config = Config::default();
        if let Some(f) = file {
            merge_file_config(&mut config, f);
        }
        if let Some(proxy) = env_proxy {
            config.proxy = Some(String::from_str(proxy));
        }
        merge_cli_overrides(&mut config, cli);
        config
    }
}

// ───────────────────────── laws ─────────────────────────

/// The first of the given values, in order of priority.
pub open spec fn first_given<T>(a: Option<T>, b: Option<T>, c: Option<T>) -> Option<T> {
    match a {
        Some(x) => Some(x),
        None => match b {
            Some(x) => Some(x),
            None => c,
        },
    }
}

/// Priority of the sources of a setting: a value given on the command line
/// wins over `FWAIFU_PROXY`, which wins over the configuration file, which
/// wins over the built-in default.
pub proof fn law_config_priority(cli: Cli, file: FileConfig, env_proxy: Option<Seq<char>>)
    ensures
        ({
            let c = effective_config(cli, Some(file), env_proxy);
            &&& c.proxy == first_given(opt_view(cli.proxy), env_proxy, opt_view(file.proxy))
            &&& c.crop_width == or_keep(first_given(cli.crop_width, file.crop_width, None), 600)
            &&& c.crop_height == or_keep(first_given(cli.crop_height, file.crop_height, None), 800)
            &&& c.logo_width == or_keep(first_given(cli.logo_width, file.logo_width, None), 40)
            &&& c.watch_interval == or_keep(
                first_given(cli.watch_interval, file.watch_interval, None),
                5,
            )
            &&& c.crop == (!cli.no_crop && or_keep(file.crop, true))
            &&& c.nsfw == cli.nsfw
            &&& c.watch == cli.watch
            &&& c.download_batch_size == or_keep(file.download.batch_size, 10)
            &&& c.max_cache_limit == or_keep(file.cache.max_limit, 100)
            &&& c.min_trigger_limit == or_keep(file.cache.min_trigger, 60)
            &&& c.max_used_limit == or_keep(file.cache.max_used, 50)
            &&& c.clean_cache == or_keep(file.cache.clean_cache, true)
            &&& c.save_path_sfw == opt_view(file.save_path_sfw)
            &&& c.save_path_nsfw == opt_view(file.save_path_nsfw)
            &&& c.fastfetch_args == views(cli.fastfetch_args@)
        }),
{
    let c = effective_config(cli, Some(file), env_proxy);
    if cli.fastfetch_args@.len() == 0 {
        assert(views(cli.fastfetch_args@) =~= Seq::empty());
    }
}

/// Without a configuration file, every setting that the command line does
/// not give keeps its built-in default (the proxy aside, which
/// `FWAIFU_PROXY` may give).
pub proof fn law_config_without_file(cli: Cli, env_proxy: Option<Seq<char>>)
    ensures
        ({
            let c = effective_config(cli, None, env_proxy);
            &&& c.proxy == first_given(opt_view(cli.proxy), env_proxy, None)
            &&& c.crop_width == or_keep(cli.crop_width, 600)
            &&& c.download_batch_size == 10
            &&& c.max_cache_limit == 100
            &&& c.min_trigger_limit == 60
            &&& c.max_used_limit == 50
            &&& c.clean_cache
            &&& c.save_path_sfw is None
            &&& c.save_path_nsfw is None
        }),
{
}

/// A configuration file that sets nothing.
pub open spec fn file_sets_nothing(f: FileConfig) -> bool {
    &&& f.proxy is None
    &&& f.crop is None
    &&& f.crop_width is None
    &&& f.crop_height is None
    &&& f.logo_width is None
    &&& f.watch_interval is None
    &&& f.download.batch_size is None
    &&& f.cache.max_limit is None
    &&& f.cache.min_trigger is None
    &&& f.cache.max_used is None
    &&& f.cache.clean_cache is None
    &&& f.save_path_sfw is None
    &&& f.save_path_nsfw is None
}

/// A command line that sets no setting.
pub open spec fn cli_sets_nothing(cli: Cli) -> bool {
    &&& !cli.nsfw
    &&& !cli.watch
    &&& cli.watch_interval is None
    &&& cli.proxy is None
    &&& !cli.no_crop
    &&& cli.crop_width is None
    &&& cli.crop_height is None
    &&& cli.logo_width is None
    &&& cli.fastfetch_args@.len() == 0
}

/// Merging a configuration file that sets nothing, or a command line that
/// sets nothing, changes no setting.
pub proof fn law_merge_nothing(c: ConfigView, f: FileConfig, cli: Cli)
    ensures
        file_sets_nothing(f) ==> apply_file(c, f) == c,
        cli_sets_nothing(cli) ==> apply_cli(c, cli) == c,
{
}

/// Merging the same configuration file, or the same command line, a second
/// time changes nothing more.
pub proof fn law_merge_idempotent(c: ConfigView, f: FileConfig, cli: Cli)
    ensures
        apply_file(apply_file(c, f), f) == apply_file(c, f),
        apply_cli(apply_cli(c, cli), cli) == apply_cli(c, cli),
{
}

} // verus!
