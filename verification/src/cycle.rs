//! One display cycle: how the picture is obtained (from the stock, or
//! fetched on demand when the stock is empty), and how it is shown.
use vstd::prelude::*;
use crate::config::Config;

verus! {

/// Where a cycle stands.
#[derive(Clone, Copy, Debug, PartialEq, Eq, Structural)]
pub enum CyclePhase {
    /// Waiting for the stock count.
    Start,
    /// Waiting for the pick of a stock image.
    Selecting,
    /// The stock was empty; waiting for the network check.
    CheckingNetwork,
    /// Waiting for the address of one random image.
    Fetching,
    /// Waiting for the download of that image.
    Downloading,
    /// The cycle is over.
    Done,
}

/// What the caller does next.
pub enum CycleAction {
    /// Pick a random image of the stock.
    SelectRandom,
    /// Say that the stock is empty and check the network.
    CheckNetwork,
    /// Ask the API for the address of one random image.
    FetchOne,
    /// Download this address into the stock (with retries).
    Download(String),
    /// Show this image, then move it to the used directory and tidy up.
    Display(String),
    /// Say that the network is down and show fastfetch's default logo.
    NetworkDown,
    /// Say that no image could be had and show fastfetch's default logo.
    Fallback,
    /// Nothing more to do.
    Idle,
}

/// What came of the last action.
pub enum CycleEvent {
    /// The number of images in the stock.
    Stock(usize),
    /// The pick (none where the stock turned out empty).
    Selected(Option<String>),
    /// Whether the network answered.
    Network(bool),
    /// The addresses that the API returned, or `None` where the request failed.
    Urls(Option<Vec<String>>),
    /// Whether the download succeeded.
    Downloaded(bool),
}

/// A display cycle.
pub struct Cycle {
    pub phase: CyclePhase,
}

/// How many more answered events a cycle can take at most.
pub open spec fn steps_left(phase: CyclePhase) -> nat {
    match phase {
        CyclePhase::Start => 5,
        CyclePhase::CheckingNetwork => 4,
        CyclePhase::Fetching => 3,
        CyclePhase::Downloading => 2,
        CyclePhase::Selecting => 1,
        CyclePhase::Done => 0,
    }
}

/// The event answers the request that `phase` waits on.
pub open spec fn answers(phase: CyclePhase, event: CycleEvent) -> bool {
    match (phase, event) {
        (CyclePhase::Start, CycleEvent::Stock(_)) => true,
        (CyclePhase::Selecting, CycleEvent::Selected(_)) => true,
        (CyclePhase::CheckingNetwork, CycleEvent::Network(_)) => true,
        (CyclePhase::Fetching, CycleEvent::Urls(_)) => true,
        (CyclePhase::Downloading, CycleEvent::Downloaded(_)) => true,
        _ => false,
    }
}

/// The answer to an event that does not fit the phase: the pending request
/// again where it carries nothing, else nothing.
pub open spec fn repeats(phase: CyclePhase, a: CycleAction) -> bool {
    match phase {
        CyclePhase::Selecting => a is SelectRandom,
        CyclePhase::CheckingNetwork => a is CheckNetwork,
        CyclePhase::Fetching => a is FetchOne,
        _ => a is Idle,
    }
}

impl Cycle {
    /// A cycle that waits for the stock count.
    pub fn new() -> (c: Cycle)
        ensures
            c.phase == CyclePhase::Start,
    {
        Cycle { phase: CyclePhase::Start }
    }

    /// Takes the outcome of the last action and says what to do next: with
    /// a stock, pick from it; without one, check the network, fetch one
    /// address, download it and pick again; show the pick, or fall back to
    /// the default logo where something failed. An event that does not
    /// answer the pending action changes nothing; one that does brings the
    /// cycle closer to its end, so a cycle takes at most five answers.
    pub fn step(&mut self, event: CycleEvent) -> (a: CycleAction)
        ensures
            answers(old(self).phase, event) ==> steps_left(final(self).phase) < steps_left(
                old(self).phase,
            ),
            match (old(self).phase, event) {
                (CyclePhase::Start, CycleEvent::Stock(n)) => if n > 0 {
                    final(self).phase == CyclePhase::Selecting && a is SelectRandom
                } else {
                    final(self).phase == CyclePhase::CheckingNetwork && a is CheckNetwork
                },
                (CyclePhase::Selecting, CycleEvent::Selected(pick)) => final(self).phase
                    == CyclePhase::Done && match pick {
                    Some(p) => a matches CycleAction::Display(q) && q@ == p@,
                    None => a is Fallback,
                },
                (CyclePhase::CheckingNetwork, CycleEvent::Network(up)) => if up {
                    final(self).phase == CyclePhase::Fetching && a is FetchOne
                } else {
                    final(self).phase == CyclePhase::Done && a is NetworkDown
                },
                (CyclePhase::Fetching, CycleEvent::Urls(urls)) => match urls {
                    Some(us) => if us@.len() > 0 {
                        final(self).phase == CyclePhase::Downloading && (a matches CycleAction::Download(
                            u,
                        ) && u@ == us@[0]@)
                    } else {
                        final(self).phase == CyclePhase::Done && a is Fallback
                    },
                    None => final(self).phase == CyclePhase::Done && a is Fallback,
                },
                (CyclePhase::Downloading, CycleEvent::Downloaded(ok)) => if ok {
                    final(self).phase == CyclePhase::Selecting && a is SelectRandom
                } else {
                    final(self).phase == CyclePhase::Done && a is Fallback
                },
                _ => final(self).phase == old(self).phase && repeats(old(self).phase, a),
            },
    {
        match (self.phase, event) {
            (CyclePhase::Start, CycleEvent::Stock(n)) => {
                if n > 0 {
                    self.phase = CyclePhase::Selecting;
                    CycleAction::SelectRandom
                } else {
                    self.phase = CyclePhase::CheckingNetwork;
                    CycleAction::CheckNetwork
                }
            },
            (CyclePhase::Selecting, CycleEvent::Selected(pick)) => {
                self.phase = CyclePhase::Done;
                match pick {
                    Some(p) => CycleAction::Display(p),
                    None => CycleAction::Fallback,
                }
            },
            (CyclePhase::CheckingNetwork, CycleEvent::Network(up)) => {
                if up {
                    self.phase = CyclePhase::Fetching;
                    CycleAction::FetchOne
                } else {
                    self.phase = CyclePhase::Done;
                    CycleAction::NetworkDown
                }
            },
            (CyclePhase::Fetching, CycleEvent::Urls(urls)) => match urls {
                Some(mut us) => {
                    if us.len() > 0 {
                        self.phase = CyclePhase::Downloading;
                        let u = us.remove(0);
                        CycleAction::Download(u)
                    } else {
                        self.phase = CyclePhase::Done;
                        CycleAction::Fallback
                    }
                },
                None => {
                    self.phase = CyclePhase::Done;
                    CycleAction::Fallback
                },
            },
            (CyclePhase::Downloading, CycleEvent::Downloaded(ok)) => {
                if ok {
                    self.phase = CyclePhase::Selecting;
                    CycleAction::SelectRandom
                } else {
                    self.phase = CyclePhase::Done;
                    CycleAction::Fallback
                }
            },
            (CyclePhase::Start, _) => CycleAction::Idle,
            (CyclePhase::Selecting, _) => CycleAction::SelectRandom,
            (CyclePhase::CheckingNetwork, _) => CycleAction::CheckNetwork,
            (CyclePhase::Fetching, _) => CycleAction::FetchOne,
            (CyclePhase::Downloading, _) => CycleAction::Idle,
            (CyclePhase::Done, _) => CycleAction::Idle,
        }
    }
}

/// How a picked image is shown, and what is tidied up afterwards.
#[derive(Clone, Copy, Debug)]
pub struct DisplayPlan {
    /// Crop the image to (width, height) first.
    pub crop: Option<(u32, u32)>,
    /// Cropping is on but ImageMagick is missing: say so.
    pub warn_no_imagemagick: bool,
    /// Draw with chafa beside fastfetch's text (else fastfetch's logo).
    pub use_chafa: bool,
    /// Delete fastfetch's thumbnail cache afterwards.
    pub clean_thumbnails: bool,
}

/// How a picked image is shown: cropped where cropping is on and ImageMagick
/// is there (with a warning where it is not), drawn by chafa in terminal
/// mode, fastfetch's thumbnails removed where the configuration asks.
pub fn display_plan(config: &Config, term: bool, imagemagick_available: bool) -> (p: DisplayPlan)
    ensures
        p.crop == (if config.crop && imagemagick_available {
            Some((config.crop_width, config.crop_height))
        } else {
            None::<(u32, u32)>
        }),
        p.warn_no_imagemagick == (config.crop && !imagemagick_available),
        p.use_chafa == term,
        p.clean_thumbnails == config.clean_cache,
{
    DisplayPlan {
        crop: if config.crop && imagemagick_available {
            Some((config.crop_width, config.crop_height))
        } else {
            None
        },
        warn_no_imagemagick: config.crop && !imagemagick_available,
        use_chafa: term,
        clean_thumbnails: config.clean_cache,
    }
}

} // verus!
