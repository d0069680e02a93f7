//! `--update`: compare the announced version with the running one, ask,
//! then clone the repository and run its installer. The network, the
//! prompt and the commands are the caller's; the order, the decisions and
//! every message are here.
use vstd::prelude::*;
use crate::commands::{announced_version, answer_is_yes, is_newer, remote_version, version_older, yes};

verus! {

/// A line of output.
pub struct Line {
    /// Goes to standard error (else standard output).
    pub to_stderr: bool,
    pub text: String,
}

/// Lines by their stream and text.
pub open spec fn lines_view(v: Seq<Line>) -> Seq<(bool, Seq<char>)> {
    v.map_values(|l: Line| (l.to_stderr, l.text@))
}

pub open spec fn out(t: Seq<char>) -> (bool, Seq<char>) {
    (false, t)
}

pub open spec fn err(t: Seq<char>) -> (bool, Seq<char>) {
    (true, t)
}

/// How to update by hand.
pub open spec fn manual_hint() -> Seq<char> {
    "  curl -fsSL https://raw.githubusercontent.com/cublueer/fwaifu/main/install.sh | bash"@
}

/// The question asked before installing.
pub open spec fn install_prompt() -> Seq<char> {
    "Install update? [y/N] "@
}

/// Where an update stands.
#[derive(Clone, Copy, Debug, PartialEq, Eq, Structural)]
pub enum UpdatePhase {
    /// Waiting for the remote `Cargo.toml`.
    Fetching,
    /// Waiting to learn whether `git` runs.
    CheckingGit,
    /// Waiting for the user's answer.
    Prompting,
    /// Waiting for the clone of the repository.
    Cloning,
    /// Waiting for the installer.
    Installing,
    /// Waiting for the removal of the clone, after the installer succeeded
    /// or failed.
    Removing { installed: bool },
    /// Over.
    Done,
}

/// What the caller does next (after printing the lines that come with it).
pub enum UpdateAction {
    /// Fetch the remote `Cargo.toml` and read its body.
    Fetch,
    /// Find out whether `git --version` runs.
    CheckGit,
    /// Print this prompt (without a line break) and read a line.
    Prompt(String),
    /// Clone the repository into a temporary directory.
    Clone,
    /// Run `install.sh` of the clone.
    Install,
    /// Remove the temporary directory.
    RemoveTemp,
    /// Nothing more.
    Stop,
}

/// Why the remote `Cargo.toml` could not be had.
pub enum FetchFailure {
    /// The request failed (its error).
    Request(String),
    /// The body could not be read (its error).
    Body(String),
}

/// What came of the last action.
pub enum UpdateEvent {
    /// The body of the remote `Cargo.toml`, or why there is none.
    Fetched(Result<String, FetchFailure>),
    /// Whether `git` runs.
    GitFound(bool),
    /// The line the user typed (`None` where it could not be read).
    Answer(Option<String>),
    /// Whether the clone succeeded.
    Cloned(bool),
    /// Whether the installer succeeded.
    Installed(bool),
    /// The temporary directory was removed (or could not be).
    Removed,
}

/// An update in progress.
pub struct Update {
    pub phase: UpdatePhase,
    /// The running version.
    pub current: String,
}

/// The request that `phase` waits on, made again.
pub open spec fn pending(phase: UpdatePhase, a: UpdateAction) -> bool {
    match phase {
        UpdatePhase::Fetching => a is Fetch,
        UpdatePhase::CheckingGit => a is CheckGit,
        UpdatePhase::Prompting => a matches UpdateAction::Prompt(p) && p@ == install_prompt(),
        UpdatePhase::Cloning => a is Clone,
        UpdatePhase::Installing => a is Install,
        UpdatePhase::Removing { .. } => a is RemoveTemp,
        UpdatePhase::Done => a is Stop,
    }
}

fn line(to_stderr: bool, text: &str) -> (l: Line)
    ensures
        l.to_stderr == to_stderr,
        l.text@ == text@,
{
    Line { to_stderr, text: String::from_str(text) }
}

fn hint() -> (l: Line)
    ensures
        (l.to_stderr, l.text@) == (false, manual_hint()),
{
    line(false, "  curl -fsSL https://raw.githubusercontent.com/cublueer/fwaifu/main/install.sh | bash")
}

fn prompt() -> (a: UpdateAction)
    ensures
        a matches UpdateAction::Prompt(p) && p@ == install_prompt(),
{
    UpdateAction::Prompt(String::from_str("Install update? [y/N] "))
}

fn one(l: Line) -> (v: Vec<Line>)
    ensures
        lines_view(v@) == seq![(l.to_stderr, l.text@)],
{
    let mut v: Vec<Line> = Vec::new();
    v.push(l);
    assert(lines_view(v@) =~= seq![(l.to_stderr, l.text@)]);
    v
}

fn two(a: Line, b: Line) -> (v: Vec<Line>)
    ensures
        lines_view(v@) == seq![(a.to_stderr, a.text@), (b.to_stderr, b.text@)],
{
    let mut v: Vec<Line> = Vec::new();
    v.push(a);
    v.push(b);
    assert(lines_view(v@) =~= seq![(a.to_stderr, a.text@), (b.to_stderr, b.text@)]);
    v
}

fn none() -> (v: Vec<Line>)
    ensures
        lines_view(v@) == Seq::<(bool, Seq<char>)>::empty(),
{
    let v: Vec<Line> = Vec::new();
    assert(lines_view(v@) =~= Seq::<(bool, Seq<char>)>::empty());
    v
}

/// `a` followed by `b`.
fn concat(a: &str, b: &str) -> (s: String)
    ensures
        s@ == a@ + b@,
{
    let mut s = String::from_str(a);
    s.append(b);
    s
}

impl Update {
    /// Starts an update of the running version `current`. Forced, it skips
    /// the version check and goes straight to the check for `git`.
    pub fn start(force: bool, current: &str) -> (r: (Update, Vec<Line>, UpdateAction))
        ensures
            r.0.current@ == current@,
            force ==> r.0.phase == UpdatePhase::CheckingGit && r.2 is CheckGit && lines_view(r.1@)
                == seq![out("Forcing reinstall of version "@ + current@ + "..."@)],
            !force ==> r.0.phase == UpdatePhase::Fetching && r.2 is Fetch && lines_view(r.1@)
                == Seq::<(bool, Seq<char>)>::empty(),
    {
        let u = Update {
            phase: if force { UpdatePhase::CheckingGit } else { UpdatePhase::Fetching },
            current: String::from_str(current),
        };
        if force {
            let mut t = concat("Forcing reinstall of version ", current);
            t.append("...");
            (u, one(Line { to_stderr: false, text: t }), UpdateAction::CheckGit)
        } else {
            (u, none(), UpdateAction::Fetch)
        }
    }

    /// Takes the outcome of the last action and gives the lines to print
    /// and what to do next: a newer announced version (compared part by part as numbers) is
    /// offered, and installed where the user answers `y`; every failure
    /// ends the update with its message. An event that does not answer the
    /// pending action prints nothing and asks again.
    pub fn step(&mut self, event: UpdateEvent) -> (r: (Vec<Line>, UpdateAction))
        ensures
            final(self).current@ == old(self).current@,
            ({
                let cur = old(self).current@;
                let ls = lines_view(r.0@);
                let a = r.1;
                let p = final(self).phase;
                match (old(self).phase, event) {
                    (UpdatePhase::Fetching, UpdateEvent::Fetched(Err(FetchFailure::Request(e)))) => p
                        == UpdatePhase::Done && a is Stop && ls == seq![
                        err("Failed to check for updates: "@ + e@),
                    ],
                    (UpdatePhase::Fetching, UpdateEvent::Fetched(Err(FetchFailure::Body(e)))) => p
                        == UpdatePhase::Done && a is Stop && ls == seq![
                        err("Failed to read remote version: "@ + e@),
                    ],
                    (UpdatePhase::Fetching, UpdateEvent::Fetched(Ok(body))) => {
                        let remote = announced_version(body@);
                        let head = seq![
                            out("Current version: "@ + cur),
                            out("Latest version:  "@ + remote),
                        ];
                        if !version_older(cur, remote) {
                            p == UpdatePhase::Done && a is Stop && ls == head.push(
                                out("Already up to date."@),
                            )
                        } else {
                            p == UpdatePhase::CheckingGit && a is CheckGit && ls == head
                        }
                    },
                    (UpdatePhase::CheckingGit, UpdateEvent::GitFound(found)) => if found {
                        p == UpdatePhase::Prompting && pending(p, a) && ls.len() == 0
                    } else {
                        p == UpdatePhase::Done && a is Stop && ls == seq![
                            out("git is not installed. Install it first, or update manually:"@),
                            out(manual_hint()),
                        ]
                    },
                    (UpdatePhase::Prompting, UpdateEvent::Answer(ans)) => if (ans matches Some(t)
                        && yes(t@)) {
                        p == UpdatePhase::Cloning && a is Clone && ls == seq![
                            out("Cloning repository..."@),
                        ]
                    } else {
                        p == UpdatePhase::Done && a is Stop && ls == seq![out("Update cancelled."@)]
                    },
                    (UpdatePhase::Cloning, UpdateEvent::Cloned(ok)) => if ok {
                        p == UpdatePhase::Installing && a is Install && ls == seq![
                            out("Running install.sh..."@),
                        ]
                    } else {
                        p == UpdatePhase::Done && a is RemoveTemp && ls == seq![
                            err("Failed to clone repository. Update manually:"@),
                            err(manual_hint()),
                        ]
                    },
                    (UpdatePhase::Installing, UpdateEvent::Installed(ok)) => p
                        == UpdatePhase::Removing { installed: ok } && a is RemoveTemp && ls.len()
                        == 0,
                    (UpdatePhase::Removing { installed }, UpdateEvent::Removed) => p
                        == UpdatePhase::Done && a is Stop && ls == if installed {
                        seq![out("Update complete!"@)]
                    } else {
                        seq![err("Install failed. You can try manually:"@), err(manual_hint())]
                    },
                    _ => p == old(self).phase && pending(p, a) && ls.len() == 0,
                }
            }),
    {
        match (self.phase, event) {
            (UpdatePhase::Fetching, UpdateEvent::Fetched(res)) => {
                match res {
                    Err(FetchFailure::Request(e)) => {
                        self.phase = UpdatePhase::Done;
                        let t = concat("Failed to check for updates: ", e.as_str());
                        (one(Line { to_stderr: true, text: t }), UpdateAction::Stop)
                    },
                    Err(FetchFailure::Body(e)) => {
                        self.phase = UpdatePhase::Done;
                        let t = concat("Failed to read remote version: ", e.as_str());
                        (one(Line { to_stderr: true, text: t }), UpdateAction::Stop)
                    },
                    Ok(body) => {
                        let remote = remote_version(body.as_str());
                        let l1 = Line {
                            to_stderr: false,
                            text: concat("Current version: ", self.current.as_str()),
                        };
                        let l2 = Line {
                            to_stderr: false,
                            text: concat("Latest version:  ", remote.as_str()),
                        };
                        let mut ls = two(l1, l2);
                        if is_newer(remote.as_str(), self.current.as_str()) {
                            self.phase = UpdatePhase::CheckingGit;
                            (ls, UpdateAction::CheckGit)
                        } else {
                            self.phase = UpdatePhase::Done;
                            let l3 = line(false, "Already up to date.");
                            let ghost before = lines_view(ls@);
                            ls.push(l3);
                            assert(lines_view(ls@) =~= before.push((l3.to_stderr, l3.text@)));
                            (ls, UpdateAction::Stop)
                        }
                    },
                }
            },
            (UpdatePhase::CheckingGit, UpdateEvent::GitFound(found)) => {
                if found {
                    self.phase = UpdatePhase::Prompting;
                    (none(), prompt())
                } else {
                    self.phase = UpdatePhase::Done;
                    (
                        two(line(false, "git is not installed. Install it first, or update manually:"), hint()),
                        UpdateAction::Stop,
                    )
                }
            },
            (UpdatePhase::Prompting, UpdateEvent::Answer(ans)) => {
                let accepted = match &ans {
                    Some(t) => answer_is_yes(t.as_str()),
                    None => false,
                };
                if accepted {
                    self.phase = UpdatePhase::Cloning;
                    (one(line(false, "Cloning repository...")), UpdateAction::Clone)
                } else {
                    self.phase = UpdatePhase::Done;
                    (one(line(false, "Update cancelled.")), UpdateAction::Stop)
                }
            },
            (UpdatePhase::Cloning, UpdateEvent::Cloned(ok)) => {
                if ok {
                    self.phase = UpdatePhase::Installing;
                    (one(line(false, "Running install.sh...")), UpdateAction::Install)
                } else {
                    self.phase = UpdatePhase::Done;
                    let h = hint();
                    (
                        two(
                            line(true, "Failed to clone repository. Update manually:"),
                            Line { to_stderr: true, text: h.text },
                        ),
                        UpdateAction::RemoveTemp,
                    )
                }
            },
            (UpdatePhase::Installing, UpdateEvent::Installed(ok)) => {
                self.phase = UpdatePhase::Removing { installed: ok };
                (none(), UpdateAction::RemoveTemp)
            },
            (UpdatePhase::Removing { installed }, UpdateEvent::Removed) => {
                self.phase = UpdatePhase::Done;
                if installed {
                    (one(line(false, "Update complete!")), UpdateAction::Stop)
                } else {
                    let h = hint();
                    (
                        two(
                            line(true, "Install failed. You can try manually:"),
                            Line { to_stderr: true, text: h.text },
                        ),
                        UpdateAction::Stop,
                    )
                }
            },
            (UpdatePhase::Fetching, _) => (none(), UpdateAction::Fetch),
            (UpdatePhase::CheckingGit, _) => (none(), UpdateAction::CheckGit),
            (UpdatePhase::Prompting, _) => (none(), prompt()),
            (UpdatePhase::Cloning, _) => (none(), UpdateAction::Clone),
            (UpdatePhase::Installing, _) => (none(), UpdateAction::Install),
            (UpdatePhase::Removing { .. }, _) => (none(), UpdateAction::RemoveTemp),
            (UpdatePhase::Done, _) => (none(), UpdateAction::Stop),
        }
    }
}

} // verus!
