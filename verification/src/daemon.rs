//! The background replenisher's decisions: its heartbeat and PID files,
//! when it stops, which stocks it refills, and the lock that keeps two
//! refills of one stock from running at once.
use vstd::prelude::*;
use crate::text::{lines, numeral, opt_seq, parse_int, parse_u32, parse_u64, push_numeral, split_lines, trim, trim_str};

verus! {

/// The value that `str::parse::<u64>` reads from `s`, where it reads one.
pub open spec fn u64_of(s: Seq<char>) -> Option<u64> {
    match parse_int(s, false) {
        Some(x) => if x <= u64::MAX { Some(x as u64) } else { None },
        None => None,
    }
}

/// The value that `str::parse::<u32>` reads from `s`, where it reads one.
pub open spec fn u32_of(s: Seq<char>) -> Option<u32> {
    match parse_int(s, false) {
        Some(x) => if x <= u32::MAX { Some(x as u32) } else { None },
        None => None,
    }
}

/// The timestamp that a heartbeat file's contents give: its trimmed number,
/// 0 where there is none or the file could not be read.
pub open spec fn heartbeat_of(content: Option<Seq<char>>) -> u64 {
    match content {
        Some(c) => match u64_of(trim(c)) {
            Some(x) => x,
            None => 0,
        },
        None => 0,
    }
}

/// The PID that a daemon PID file's contents give.
pub open spec fn pid_of(content: Option<Seq<char>>) -> Option<u32> {
    match content {
        Some(c) => u32_of(trim(c)),
        None => None,
    }
}

/// What the heartbeat file holds after a heartbeat at `now` (seconds since
/// the epoch): the number in decimal.
pub fn heartbeat_text(now: u64) -> (s: String)
    ensures
        s@ == numeral(now as nat, 10),
{
    crate::text::decimal(now as u128)
}

/// What a PID file or a lock file holds for the process `pid`: the number
/// in decimal.
pub fn pid_text(pid: u32) -> (s: String)
    ensures
        s@ == numeral(pid as nat, 10),
{
    crate::text::decimal(pid as u128)
}

/// The last heartbeat timestamp in a heartbeat file's contents (`None` where
/// the file could not be read): its trimmed number, 0 where there is none.
pub fn read_heartbeat(content: Option<&str>) -> (t: u64)
    ensures
        t == heartbeat_of(opt_seq(content)),
{
    match content {
        Some(c) => {
            let s = trim_str(c);
            match parse_u64(s.as_str()) {
                Some(x) => x,
                None => 0,
            }
        },
        None => 0,
    }
}

/// The PID in a daemon PID file's contents, where it holds one.
pub fn read_daemon_pid(content: Option<&str>) -> (p: Option<u32>)
    ensures
        p == pid_of(opt_seq(content)),
{
    match content {
        Some(c) => {
            let s = trim_str(c);
            parse_u32(s.as_str())
        },
        None => None,
    }
}

/// `/proc/{pid}`, whose existence tells that the process is alive.
pub fn proc_path(pid: u32) -> (p: String)
    ensures
        p@ == "/proc/"@ + numeral(pid as nat, 10),
{
    let mut p = String::from_str("/proc/");
    push_numeral(&mut p, pid as u128, 10);
    p
}

/// The daemon gives up: no heartbeat for longer than `duration` seconds.
pub open spec fn expired(now: u64, heartbeat: u64, duration: u64) -> bool {
    (if now >= heartbeat { now - heartbeat } else { 0 }) > duration
}

/// Whether the daemon stops: no heartbeat within the configured duration
/// (`now.saturating_sub(heartbeat) > duration`).
pub fn heartbeat_expired(now: u64, heartbeat: u64, duration: u64) -> (b: bool)
    ensures
        b == expired(now, heartbeat, duration),
{
    let age = if now >= heartbeat { now - heartbeat } else { 0 };
    age > duration
}

/// How long the daemon waits for a heartbeat: the value of
/// `FWAIFU_DAEMON_DURATION` where it is a number, else 30 seconds.
pub fn daemon_duration(var: Option<&str>) -> (d: u64)
    ensures
        d == match opt_seq(var) {
            Some(v) => match u64_of(v) {
                Some(x) => x,
                None => 30,
            },
            None => 30,
        },
{
    match var {
        Some(v) => match parse_u64(v) {
            Some(x) => x,
            None => 30,
        },
        None => 30,
    }
}

/// A stock needs refilling: it holds fewer images than the trigger.
pub open spec fn low_stock(stock: usize, min_trigger: u32) -> bool {
    stock < min_trigger
}

/// Whether a stock of `stock` images is refilled.
pub fn needs_refill(stock: usize, min_trigger: u32) -> (b: bool)
    ensures
        b == low_stock(stock, min_trigger),
{
    stock < min_trigger as usize
}

/// Where the daemon's loop stands.
#[derive(Clone, Copy, Debug, PartialEq, Eq, Structural)]
pub enum DaemonPhase {
    /// Waiting for the heartbeat and the time.
    Watching,
    /// Waiting for the network check.
    CheckingNetwork,
    /// Waiting for the stock counts.
    Counting,
    /// Waiting for the end of the five-second sleep.
    Sleeping,
    /// The daemon exits.
    Stopped,
}

/// What the daemon does next.
#[derive(Clone, Copy, Debug, PartialEq, Eq, Structural)]
pub enum DaemonStep {
    /// Read the heartbeat file and the clock.
    ReadHeartbeat,
    /// Check the network.
    CheckNetwork,
    /// Count the SFW and NSFW stocks.
    CountStocks,
    /// Start a refill of the SFW and/or NSFW stock, then sleep five seconds.
    Refill { sfw: bool, nsfw: bool },
    /// Sleep five seconds.
    Sleep,
    /// Clean up the daemon's files and exit.
    Exit,
}

/// What came of the last step.
pub enum DaemonEvent {
    /// The time now and of the last heartbeat (seconds since the epoch).
    Heartbeat { now: u64, last: u64 },
    /// Whether the network answered.
    Network(bool),
    /// The numbers of images in the SFW and NSFW stocks.
    Stocks { sfw: usize, nsfw: usize },
    /// The sleep ended.
    Slept,
}

/// The background replenisher's loop.
pub struct Daemon {
    pub phase: DaemonPhase,
    /// Seconds without a heartbeat after which it exits.
    pub duration: u64,
    /// Refill a stock that holds fewer images than this.
    pub min_trigger: u32,
}

/// The step that `phase` waits on, asked again.
pub open spec fn daemon_pending(phase: DaemonPhase) -> DaemonStep {
    match phase {
        DaemonPhase::Watching => DaemonStep::ReadHeartbeat,
        DaemonPhase::CheckingNetwork => DaemonStep::CheckNetwork,
        DaemonPhase::Counting => DaemonStep::CountStocks,
        DaemonPhase::Sleeping => DaemonStep::Sleep,
        DaemonPhase::Stopped => DaemonStep::Exit,
    }
}

impl Daemon {
    /// The daemon starts by looking at the heartbeat.
    pub fn new(duration: u64, min_trigger: u32) -> (r: (Daemon, DaemonStep))
        ensures
            r.0.phase == DaemonPhase::Watching,
            r.0.duration == duration,
            r.0.min_trigger == min_trigger,
            r.1 == DaemonStep::ReadHeartbeat,
    {
        (Daemon { phase: DaemonPhase::Watching, duration, min_trigger }, DaemonStep::ReadHeartbeat)
    }

    /// One move of the loop: the daemon exits once the heartbeat is older
    /// than `duration`; without a network it sleeps; otherwise it refills
    /// each stock that is low, and sleeps; after the sleep it looks at the
    /// heartbeat again. An event that does not answer the pending step
    /// changes nothing.
    pub fn step(&mut self, event: DaemonEvent) -> (s: DaemonStep)
        ensures
            final(self).duration == old(self).duration,
            final(self).min_trigger == old(self).min_trigger,
            match (old(self).phase, event) {
                (DaemonPhase::Watching, DaemonEvent::Heartbeat { now, last }) => if expired(
                    now,
                    last,
                    old(self).duration,
                ) {
                    final(self).phase == DaemonPhase::Stopped && s == DaemonStep::Exit
                } else {
                    final(self).phase == DaemonPhase::CheckingNetwork && s == DaemonStep::CheckNetwork
                },
                (DaemonPhase::CheckingNetwork, DaemonEvent::Network(up)) => if up {
                    final(self).phase == DaemonPhase::Counting && s == DaemonStep::CountStocks
                } else {
                    final(self).phase == DaemonPhase::Sleeping && s == DaemonStep::Sleep
                },
                (DaemonPhase::Counting, DaemonEvent::Stocks { sfw, nsfw }) => final(self).phase
                    == DaemonPhase::Sleeping && s == DaemonStep::Refill {
                    sfw: low_stock(sfw, old(self).min_trigger),
                    nsfw: low_stock(nsfw, old(self).min_trigger),
                },
                (DaemonPhase::Sleeping, DaemonEvent::Slept) => final(self).phase
                    == DaemonPhase::Watching && s == DaemonStep::ReadHeartbeat,
                _ => final(self).phase == old(self).phase && s == daemon_pending(old(self).phase),
            },
    {
        match (self.phase, event) {
            (DaemonPhase::Watching, DaemonEvent::Heartbeat { now, last }) => {
                if heartbeat_expired(now, last, self.duration) {
                    self.phase = DaemonPhase::Stopped;
                    DaemonStep::Exit
                } else {
                    self.phase = DaemonPhase::CheckingNetwork;
                    DaemonStep::CheckNetwork
                }
            },
            (DaemonPhase::CheckingNetwork, DaemonEvent::Network(up)) => {
                if up {
                    self.phase = DaemonPhase::Counting;
                    DaemonStep::CountStocks
                } else {
                    self.phase = DaemonPhase::Sleeping;
                    DaemonStep::Sleep
                }
            },
            (DaemonPhase::Counting, DaemonEvent::Stocks { sfw, nsfw }) => {
                self.phase = DaemonPhase::Sleeping;
                DaemonStep::Refill {
                    sfw: needs_refill(sfw, self.min_trigger),
                    nsfw: needs_refill(nsfw, self.min_trigger),
                }
            },
            (DaemonPhase::Sleeping, DaemonEvent::Slept) => {
                self.phase = DaemonPhase::Watching;
                DaemonStep::ReadHeartbeat
            },
            (DaemonPhase::Watching, _) => DaemonStep::ReadHeartbeat,
            (DaemonPhase::CheckingNetwork, _) => DaemonStep::CheckNetwork,
            (DaemonPhase::Counting, _) => DaemonStep::CountStocks,
            (DaemonPhase::Sleeping, _) => DaemonStep::Sleep,
            (DaemonPhase::Stopped, _) => DaemonStep::Exit,
        }
    }
}

// ───────────────────────── refill locks ─────────────────────────

/// `/tmp/fwaifu_sfw.lock` or `/tmp/fwaifu_nsfw.lock`.
pub open spec fn lock_file(nsfw: bool) -> Seq<char> {
    if nsfw {
        "/tmp/fwaifu_nsfw.lock"@
    } else {
        "/tmp/fwaifu_sfw.lock"@
    }
}

/// The lock file of a mode's refill.
pub fn lock_path(nsfw: bool) -> (p: String)
    ensures
        p@ == lock_file(nsfw),
{
    if nsfw {
        String::from_str("/tmp/fwaifu_nsfw.lock")
    } else {
        String::from_str("/tmp/fwaifu_sfw.lock")
    }
}

/// The PID on the first line of a lock file's contents (`None` where the
/// file could not be read), where that line holds one.
pub open spec fn lock_pid_of(content: Option<Seq<char>>) -> Option<u32> {
    match content {
        Some(c) => {
            let first = if lines(c).len() > 0 { lines(c)[0] } else { Seq::empty() };
            u32_of(trim(first))
        },
        None => None,
    }
}

/// Read a PID from the first line of a lock file's contents.
/// Returns None if the file is unreadable, empty, or contains an invalid PID.
pub fn read_lock_pid(content: Option<&str>) -> (p: Option<u32>)
    ensures
        p == lock_pid_of(opt_seq(content)),
{
    match content {
        Some(c) => {
            let ls = split_lines(c);
            let first = if ls.len() > 0 { trim_str(ls[0].as_str()) } else { String::new() };
            proof {
                if ls@.len() > 0 {
                    assert(crate::text::views(ls@)[0] == ls@[0]@);
                }
                assert(trim(Seq::<char>::empty()) == Seq::<char>::empty());
            }
            parse_u32(first.as_str())
        },
        None => None,
    }
}

/// A lock is stale, and may be taken over, where it names no PID or the
/// process it names is gone.
pub fn lock_is_stale(pid: Option<u32>, pid_alive: bool) -> (b: bool)
    ensures
        b == (pid is None || !pid_alive),
{
    match pid {
        None => true,
        Some(_) => !pid_alive,
    }
}

// ───────────────────────── laws ─────────────────────────

/// Reading the heartbeat file gives back the time that the last heartbeat
/// wrote.
pub proof fn law_heartbeat_roundtrip(now: u64)
    ensures
        heartbeat_of(Some(numeral(now as nat, 10))) == now,
{
    crate::text::lemma_numeral_parses(now as nat);
}

/// Reading the daemon's PID file, or a refill lock file, gives back the PID
/// that was written into it.
pub proof fn law_pid_roundtrip(pid: u32)
    ensures
        pid_of(Some(numeral(pid as nat, 10))) == Some(pid),
        lock_pid_of(Some(numeral(pid as nat, 10))) == Some(pid),
{
    crate::text::lemma_numeral_parses(pid as nat);
}

/// The two refills lock different files, so one of each mode may run at
/// the same time.
pub proof fn law_locks_per_mode()
    ensures
        lock_file(true) != lock_file(false),
{
    reveal_strlit("/tmp/fwaifu_nsfw.lock");
    reveal_strlit("/tmp/fwaifu_sfw.lock");
    assert(lock_file(true).len() != lock_file(false).len());
}

/// A stock is refilled exactly when it holds fewer images than the
/// trigger, whatever the count: an empty stock is refilled under any
/// positive trigger, and a stock at or above the trigger never is.
pub proof fn law_low_stock_below_trigger(stock: usize, min_trigger: u32)
    ensures
        low_stock(stock, min_trigger) <==> (stock as int) < (min_trigger as int),
        min_trigger > 0 ==> low_stock(0, min_trigger),
        stock >= min_trigger ==> !low_stock(stock, min_trigger),
{
}

} // verus!
