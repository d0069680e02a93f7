//! One background refill of a stock: take the mode's lock (taking over a
//! stale one), check the network, and where the stock is low download a
//! batch of images one after another; then trim the stock and release the
//! lock. The files, the network and the sleeps are the caller's.
use vstd::prelude::*;
use crate::daemon::{lock_is_stale, low_stock, needs_refill};

verus! {

/// Where a refill stands.
#[derive(Clone, Copy, Debug, PartialEq, Eq, Structural)]
pub enum RefillPhase {
    /// Waiting for the first attempt to create the lock file.
    Locking,
    /// The lock file exists: waiting to learn whose it is.
    Inspecting,
    /// Waiting for the removal of a stale lock file.
    Breaking,
    /// Waiting for the second attempt to create the lock file.
    Relocking,
    /// Waiting for the network check.
    CheckingNetwork,
    /// Waiting for the stock count.
    Counting,
    /// Waiting for the addresses of a batch of images.
    Fetching,
    /// Waiting for a download.
    Downloading,
    /// Waiting for the pause after a download.
    Pausing,
    /// Waiting for the trim of the stock.
    Cleaning,
    /// Waiting for the release of the lock.
    Unlocking,
    /// Over.
    Done,
}

/// What the caller does next.
pub enum RefillAction {
    /// Create the lock file (it must not exist yet) and write our PID in it.
    CreateLock,
    /// Read the PID in the existing lock file and whether that process lives.
    InspectLock,
    /// Remove the stale lock file.
    BreakLock,
    /// Check the network.
    CheckNetwork,
    /// Count the images of the stock.
    CountStock,
    /// Ask the API for this many random image addresses.
    FetchUrls(u32),
    /// Download this address into the stock (with retries).
    Download(String),
    /// Wait half a second.
    Pause,
    /// Delete the oldest stock images beyond this many.
    Trim(u32),
    /// Remove the lock file.
    ReleaseLock,
    /// Nothing more.
    Stop,
}

/// What came of the last action.
pub enum RefillEvent {
    /// Whether the lock file was created.
    Created(bool),
    /// The PID that the lock file names, and whether that process lives.
    Owner(Option<u32>, bool),
    /// The stale lock file was removed (or could not be).
    Broken,
    /// Whether the network answered.
    Network(bool),
    /// The number of images in the stock.
    Stock(usize),
    /// The addresses that the API returned (none where the request failed).
    Urls(Vec<String>),
    /// The download ended (whether or not it succeeded).
    Downloaded,
    /// The pause ended.
    Paused,
    /// The stock was trimmed.
    Trimmed,
    /// The lock file was removed.
    Released,
}

/// A refill of one stock.
pub struct Refill {
    pub phase: RefillPhase,
    /// Refill where the stock holds fewer images than this.
    pub min_trigger: u32,
    /// How many addresses to ask for.
    pub batch_size: u32,
    /// How many images the stock keeps at most.
    pub max_limit: u32,
    /// The addresses being downloaded.
    pub urls: Vec<String>,
    /// How many of them have been handed out.
    pub next: usize,
}

/// The request that `phase` waits on, made again.
pub open spec fn pending(r: Refill, a: RefillAction) -> bool {
    match r.phase {
        RefillPhase::Locking => a is CreateLock,
        RefillPhase::Inspecting => a is InspectLock,
        RefillPhase::Breaking => a is BreakLock,
        RefillPhase::Relocking => a is CreateLock,
        RefillPhase::CheckingNetwork => a is CheckNetwork,
        RefillPhase::Counting => a is CountStock,
        RefillPhase::Fetching => a == RefillAction::FetchUrls(r.batch_size),
        RefillPhase::Downloading => a matches RefillAction::Download(u) && r.next > 0 && u@
            == r.urls@[r.next - 1]@,
        RefillPhase::Pausing => a is Pause,
        RefillPhase::Cleaning => a == RefillAction::Trim(r.max_limit),
        RefillPhase::Unlocking => a is ReleaseLock,
        RefillPhase::Done => a is Stop,
    }
}

impl Refill {
    /// The refill's own invariant: it never hands out more addresses than
    /// it has, and while a download runs it has handed one out.
    pub open spec fn inv(&self) -> bool {
        &&& self.next <= self.urls@.len()
        &&& self.phase == RefillPhase::Downloading ==> self.next > 0
    }

    /// The two refills have the same trigger, batch size and limit.
    pub open spec fn same_settings(&self, other: Refill) -> bool {
        &&& self.min_trigger == other.min_trigger
        &&& self.batch_size == other.batch_size
        &&& self.max_limit == other.max_limit
    }

    /// Starts a refill with the configured trigger, batch size and limit:
    /// first the lock.
    pub fn start(min_trigger: u32, batch_size: u32, max_limit: u32) -> (r: (Refill, RefillAction))
        ensures
            r.0.inv(),
            r.0.phase == RefillPhase::Locking,
            r.0.min_trigger == min_trigger,
            r.0.batch_size == batch_size,
            r.0.max_limit == max_limit,
            r.0.urls@.len() == 0,
            r.0.next == 0,
            r.1 is CreateLock,
    {
        (
            Refill {
                phase: RefillPhase::Locking,
                min_trigger,
                batch_size,
                max_limit,
                urls: Vec::new(),
                next: 0,
            },
            RefillAction::CreateLock,
        )
    }

    /// Takes the outcome of the last action and says what to do next. The
    /// lock is taken where its file can be created, or where the file that
    /// stands in the way names no live process and can be replaced; without
    /// the lock nothing happens. Without a network the lock is released.
    /// A stock below the trigger gets a batch of addresses, each downloaded
    /// in turn with a pause after it; then the stock is trimmed to its limit
    /// and the lock released. An event that does not answer the pending
    /// action changes nothing.
    pub fn step(&mut self, event: RefillEvent) -> (a: RefillAction)
        requires
            old(self).inv(),
        ensures
            final(self).inv(),
            final(self).same_settings(*old(self)),
            match (old(self).phase, event) {
                (RefillPhase::Locking, RefillEvent::Created(ok)) => if ok {
                    final(self).phase == RefillPhase::CheckingNetwork && a is CheckNetwork
                } else {
                    final(self).phase == RefillPhase::Inspecting && a is InspectLock
                },
                (RefillPhase::Inspecting, RefillEvent::Owner(pid, alive)) => if pid is None
                    || !alive {
                    final(self).phase == RefillPhase::Breaking && a is BreakLock
                } else {
                    final(self).phase == RefillPhase::Done && a is Stop
                },
                (RefillPhase::Breaking, RefillEvent::Broken) => final(self).phase
                    == RefillPhase::Relocking && a is CreateLock,
                (RefillPhase::Relocking, RefillEvent::Created(ok)) => if ok {
                    final(self).phase == RefillPhase::CheckingNetwork && a is CheckNetwork
                } else {
                    final(self).phase == RefillPhase::Done && a is Stop
                },
                (RefillPhase::CheckingNetwork, RefillEvent::Network(up)) => if up {
                    final(self).phase == RefillPhase::Counting && a is CountStock
                } else {
                    final(self).phase == RefillPhase::Unlocking && a is ReleaseLock
                },
                (RefillPhase::Counting, RefillEvent::Stock(n)) => if low_stock(
                    n,
                    old(self).min_trigger,
                ) {
                    final(self).phase == RefillPhase::Fetching && a == RefillAction::FetchUrls(
                        old(self).batch_size,
                    )
                } else {
                    final(self).phase == RefillPhase::Cleaning && a == RefillAction::Trim(
                        old(self).max_limit,
                    )
                },
                (RefillPhase::Fetching, RefillEvent::Urls(us)) => final(self).urls@ == us@ && if us@.len()
                    > 0 {
                    final(self).phase == RefillPhase::Downloading && final(self).next == 1 && (
                    a matches RefillAction::Download(u) && u@ == us@[0]@)
                } else {
                    final(self).phase == RefillPhase::Cleaning && a == RefillAction::Trim(
                        old(self).max_limit,
                    )
                },
                (RefillPhase::Downloading, RefillEvent::Downloaded) => final(self).phase
                    == RefillPhase::Pausing && a is Pause && final(self).urls@ == old(self).urls@
                    && final(self).next == old(self).next,
                (RefillPhase::Pausing, RefillEvent::Paused) => final(self).urls@ == old(self).urls@
                    && if old(self).next < old(self).urls@.len() {
                    final(self).phase == RefillPhase::Downloading && final(self).next == old(
                        self,
                    ).next + 1 && (a matches RefillAction::Download(u) && u@ == old(
                        self,
                    ).urls@[old(self).next as int]@)
                } else {
                    final(self).phase == RefillPhase::Cleaning && a == RefillAction::Trim(
                        old(self).max_limit,
                    )
                },
                (RefillPhase::Cleaning, RefillEvent::Trimmed) => final(self).phase
                    == RefillPhase::Unlocking && a is ReleaseLock,
                (RefillPhase::Unlocking, RefillEvent::Released) => final(self).phase
                    == RefillPhase::Done && a is Stop,
                _ => final(self).phase == old(self).phase && final(self).urls@ == old(self).urls@
                    && final(self).next == old(self).next && pending(*final(self), a),
            },
    {
        match (self.phase, event) {
            (RefillPhase::Locking, RefillEvent::Created(ok)) => {
                if ok {
                    self.phase = RefillPhase::CheckingNetwork;
                    RefillAction::CheckNetwork
                } else {
                    self.phase = RefillPhase::Inspecting;
                    RefillAction::InspectLock
                }
            },
            (RefillPhase::Inspecting, RefillEvent::Owner(pid, alive)) => {
                if lock_is_stale(pid, alive) {
                    self.phase = RefillPhase::Breaking;
                    RefillAction::BreakLock
                } else {
                    self.phase = RefillPhase::Done;
                    RefillAction::Stop
                }
            },
            (RefillPhase::Breaking, RefillEvent::Broken) => {
                self.phase = RefillPhase::Relocking;
                RefillAction::CreateLock
            },
            (RefillPhase::Relocking, RefillEvent::Created(ok)) => {
                if ok {
                    self.phase = RefillPhase::CheckingNetwork;
                    RefillAction::CheckNetwork
                } else {
                    self.phase = RefillPhase::Done;
                    RefillAction::Stop
                }
            },
            (RefillPhase::CheckingNetwork, RefillEvent::Network(up)) => {
                if up {
                    self.phase = RefillPhase::Counting;
                    RefillAction::CountStock
                } else {
                    self.phase = RefillPhase::Unlocking;
                    RefillAction::ReleaseLock
                }
            },
            (RefillPhase::Counting, RefillEvent::Stock(n)) => {
                if needs_refill(n, self.min_trigger) {
                    self.phase = RefillPhase::Fetching;
                    RefillAction::FetchUrls(self.batch_size)
                } else {
                    self.phase = RefillPhase::Cleaning;
                    RefillAction::Trim(self.max_limit)
                }
            },
            (RefillPhase::Fetching, RefillEvent::Urls(us)) => {
                self.urls = us;
                self.next = 0;
                self.next_download()
            },
            (RefillPhase::Downloading, RefillEvent::Downloaded) => {
                self.phase = RefillPhase::Pausing;
                RefillAction::Pause
            },
            (RefillPhase::Pausing, RefillEvent::Paused) => self.next_download(),
            (RefillPhase::Cleaning, RefillEvent::Trimmed) => {
                self.phase = RefillPhase::Unlocking;
                RefillAction::ReleaseLock
            },
            (RefillPhase::Unlocking, RefillEvent::Released) => {
                self.phase = RefillPhase::Done;
                RefillAction::Stop
            },
            (RefillPhase::Locking, _) => RefillAction::CreateLock,
            (RefillPhase::Inspecting, _) => RefillAction::InspectLock,
            (RefillPhase::Breaking, _) => RefillAction::BreakLock,
            (RefillPhase::Relocking, _) => RefillAction::CreateLock,
            (RefillPhase::CheckingNetwork, _) => RefillAction::CheckNetwork,
            (RefillPhase::Counting, _) => RefillAction::CountStock,
            (RefillPhase::Fetching, _) => RefillAction::FetchUrls(self.batch_size),
            (RefillPhase::Downloading, _) => RefillAction::Download(self.urls[self.next - 1].clone()),
            (RefillPhase::Pausing, _) => RefillAction::Pause,
            (RefillPhase::Cleaning, _) => RefillAction::Trim(self.max_limit),
            (RefillPhase::Unlocking, _) => RefillAction::ReleaseLock,
            (RefillPhase::Done, _) => RefillAction::Stop,
        }
    }

    /// The next address to download, or the trim where none is left.
    fn next_download(&mut self) -> (a: RefillAction)
        requires
            old(self).inv(),
        ensures
            final(self).inv(),
            final(self).same_settings(*old(self)),
            final(self).urls@ == old(self).urls@,
            if old(self).next < old(self).urls@.len() {
                final(self).phase == RefillPhase::Downloading && final(self).next == old(self).next + 1
                    && (a matches RefillAction::Download(u) && u@ == old(self).urls@[old(
                    self,
                ).next as int]@)
            } else {
                final(self).phase == RefillPhase::Cleaning && final(self).next == old(self).next
                    && a == RefillAction::Trim(old(self).max_limit)
            },
    {
        if self.next < self.urls.len() {
            let u = self.urls[self.next].clone();
            self.next = self.next + 1;
            self.phase = RefillPhase::Downloading;
            RefillAction::Download(u)
        } else {
            self.phase = RefillPhase::Cleaning;
            RefillAction::Trim(self.max_limit)
        }
    }
}

} // verus!
