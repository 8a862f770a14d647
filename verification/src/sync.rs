//! `-Sy pkg`: installing one package from the official repositories or,
//! failing that, building it from the AUR, one step at a time.

use vstd::prelude::*;
use crate::aur::{aur_git_url, aur_git_url_spec};
use crate::paths::{clone_dir, clone_dir_spec, sync_name_pattern};

verus! {

/// How far the installation of a package has come.
#[derive(PartialEq, Eq, Structural, Debug, Clone, Copy)]
pub enum SyncStage {
    SearchingOfficial,
    InstallingOfficial,
    CheckingAur,
    FindingHome,
    CreatingDir,
    Cloning,
    Building,
    CleaningUp,
    Done,
}

/// What the caller does next.
#[derive(Debug, PartialEq, Eq)]
pub enum SyncAction {
    /// Run `pacman -Ss` with this pattern and hand back what it printed.
    SearchOfficial(String),
    /// Run `sudo pacman -S` on the package.
    InstallOfficial,
    /// Check whether the git repository at this URL exists.
    CheckAur(String),
    /// Report that the repository exists and read `$HOME`.
    FindHome,
    /// Create this directory and its parents.
    CreateDir(String),
    /// Clone the repository at this URL into this directory.
    Clone(String, String),
    /// Print this line, then run `makepkg -si --noconfirm` in the directory.
    Build(String),
    /// Report success and remove the directory.
    RemoveClone(String),
    /// Print this message (emphasized or not) and exit with status 1.
    Exit(String, bool),
    /// Nothing is left to do.
    Finish,
}

/// The mathematical form of a [`SyncAction`].
pub enum SyncActionView {
    SearchOfficial(Seq<char>),
    InstallOfficial,
    CheckAur(Seq<char>),
    FindHome,
    CreateDir(Seq<char>),
    Clone(Seq<char>, Seq<char>),
    Build(Seq<char>),
    RemoveClone(Seq<char>),
    Exit(Seq<char>, bool),
    Finish,
}

impl View for SyncAction {
    type V = SyncActionView;

    open spec fn view(&self) -> SyncActionView {
        match self {
            SyncAction::SearchOfficial(p) => SyncActionView::SearchOfficial(p@),
            SyncAction::InstallOfficial => SyncActionView::InstallOfficial,
            SyncAction::CheckAur(u) => SyncActionView::CheckAur(u@),
            SyncAction::FindHome => SyncActionView::FindHome,
            SyncAction::CreateDir(d) => SyncActionView::CreateDir(d@),
            SyncAction::Clone(u, d) => SyncActionView::Clone(u@, d@),
            SyncAction::Build(l) => SyncActionView::Build(l@),
            SyncAction::RemoveClone(d) => SyncActionView::RemoveClone(d@),
            SyncAction::Exit(m, e) => SyncActionView::Exit(m@, *e),
            SyncAction::Finish => SyncActionView::Finish,
        }
    }
}

/// What came of the last action.
#[derive(Debug, PartialEq, Eq)]
pub enum SyncEvent {
    /// `pacman -Ss` printed this, or could not run for this reason.
    Searched(Result<Vec<u8>, String>),
    /// `sudo pacman -S` was run.
    Ran,
    /// The repository exists, or not.
    RepoChecked(bool),
    /// `$HOME`, where it is set.
    HomeFound(Option<String>),
    /// The directory was created, cloned into or removed, or the text of
    /// what went wrong.
    Stepped(Result<(), String>),
    /// `makepkg` ran and succeeded or not, or could not run.
    Built(Result<bool, String>),
}

/// The mathematical form of a [`SyncEvent`].
pub enum SyncEventView {
    Searched(Result<Seq<u8>, Seq<char>>),
    Ran,
    RepoChecked(bool),
    HomeFound(Option<Seq<char>>),
    Stepped(Result<(), Seq<char>>),
    Built(Result<bool, Seq<char>>),
}

impl View for SyncEvent {
    type V = SyncEventView;

    open spec fn view(&self) -> SyncEventView {
        match self {
            SyncEvent::Searched(Ok(o)) => SyncEventView::Searched(Ok(o@)),
            SyncEvent::Searched(Err(e)) => SyncEventView::Searched(Err(e@)),
            SyncEvent::Ran => SyncEventView::Ran,
            SyncEvent::RepoChecked(b) => SyncEventView::RepoChecked(*b),
            SyncEvent::HomeFound(Some(h)) => SyncEventView::HomeFound(Some(h@)),
            SyncEvent::HomeFound(None) => SyncEventView::HomeFound(None),
            SyncEvent::Stepped(Ok(())) => SyncEventView::Stepped(Ok(())),
            SyncEvent::Stepped(Err(e)) => SyncEventView::Stepped(Err(e@)),
            SyncEvent::Built(Ok(b)) => SyncEventView::Built(Ok(*b)),
            SyncEvent::Built(Err(e)) => SyncEventView::Built(Err(e@)),
        }
    }
}

/// Whether `e` answers the action that leads to `stage`.
pub open spec fn event_fits(stage: SyncStage, e: SyncEventView) -> bool {
    match stage {
        SyncStage::SearchingOfficial => e is Searched,
        SyncStage::InstallingOfficial => e is Ran,
        SyncStage::CheckingAur => e is RepoChecked,
        SyncStage::FindingHome => e is HomeFound,
        SyncStage::CreatingDir => e is Stepped,
        SyncStage::Cloning => e is Stepped,
        SyncStage::Building => e is Built,
        SyncStage::CleaningUp => e is Stepped,
        SyncStage::Done => false,
    }
}

/// The line printed once the clone is done.
pub open spec fn cloned_line(pack: Seq<char>, url: Seq<char>, dir: Seq<char>) -> Seq<char> {
    "cloninn "@ + pack + " from "@ + url + " to "@ + dir
}

/// The stage, directory and action that follow `stage` in the
/// installation of `pack` (with `dir` its clone directory once known) when
/// the last action had the outcome `e`.
pub open spec fn sync_next(pack: Seq<char>, dir: Seq<char>, stage: SyncStage, e: SyncEventView) -> (
    SyncStage,
    Seq<char>,
    SyncActionView,
) {
    let url = aur_git_url_spec(pack);
    match (stage, e) {
        (SyncStage::SearchingOfficial, SyncEventView::Searched(Ok(out))) => if out.len() > 0 {
            (SyncStage::InstallingOfficial, dir, SyncActionView::InstallOfficial)
        } else {
            (SyncStage::CheckingAur, dir, SyncActionView::CheckAur(url))
        },
        (SyncStage::SearchingOfficial, SyncEventView::Searched(Err(m))) => (
            SyncStage::Done,
            dir,
            SyncActionView::Exit("pacman said: "@ + m, false),
        ),
        (SyncStage::CheckingAur, SyncEventView::RepoChecked(exists)) => if exists {
            (SyncStage::FindingHome, dir, SyncActionView::FindHome)
        } else {
            (SyncStage::Done, dir, SyncActionView::Exit("repo duznt exist"@, true))
        },
        (SyncStage::FindingHome, SyncEventView::HomeFound(Some(home))) => (
            SyncStage::CreatingDir,
            clone_dir_spec(home, pack),
            SyncActionView::CreateDir(clone_dir_spec(home, pack)),
        ),
        (SyncStage::FindingHome, SyncEventView::HomeFound(None)) => (
            SyncStage::Done,
            dir,
            SyncActionView::Exit("Faild to get $HOME."@, true),
        ),
        (SyncStage::CreatingDir, SyncEventView::Stepped(Ok(()))) => (
            SyncStage::Cloning,
            dir,
            SyncActionView::Clone(url, dir),
        ),
        (SyncStage::CreatingDir, SyncEventView::Stepped(Err(m))) => (
            SyncStage::Done,
            dir,
            SyncActionView::Exit("Failed to create directory "@ + m, false),
        ),
        (SyncStage::Cloning, SyncEventView::Stepped(Ok(()))) => (
            SyncStage::Building,
            dir,
            SyncActionView::Build(cloned_line(pack, url, dir)),
        ),
        (SyncStage::Cloning, SyncEventView::Stepped(Err(m))) => (
            SyncStage::Done,
            dir,
            SyncActionView::Exit("Failed to clon repo: "@ + m, false),
        ),
        (SyncStage::Building, SyncEventView::Built(Ok(true))) => (
            SyncStage::CleaningUp,
            dir,
            SyncActionView::RemoveClone(dir),
        ),
        (SyncStage::Building, SyncEventView::Built(_)) => (
            SyncStage::Done,
            dir,
            SyncActionView::Exit("makepkg did not want to install"@, true),
        ),
        _ => (SyncStage::Done, dir, SyncActionView::Finish),
    }
}

/// The installation of one package by `-Sy pkg`.
pub struct SyncRun {
    pub pack: String,
    pub dir: String,
    pub stage: SyncStage,
}

impl SyncRun {
    /// Starts installing `pack`: pacman is asked for `^pack ` first.
    pub fn start(pack: String) -> (r: (SyncRun, SyncAction))
        ensures
            r.0.pack@ == pack@,
            r.0.dir@ == Seq::<char>::empty(),
            r.0.stage == SyncStage::SearchingOfficial,
            r.1@ == SyncActionView::SearchOfficial("^"@ + pack@ + " "@),
    {
        let pattern = sync_name_pattern(pack.as_str());
        (SyncRun { pack, dir: String::new(), stage: SyncStage::SearchingOfficial }, SyncAction::SearchOfficial(pattern))
    }

    /// Whether `e` answers the action that led to the current stage, so
    /// that [`SyncRun::advance`] takes it.
    pub fn accepts(&self, e: &SyncEvent) -> (b: bool)
        ensures
            b == event_fits(self.stage, e@),
    {
        match (self.stage, e) {
            (SyncStage::SearchingOfficial, SyncEvent::Searched(_)) => true,
            (SyncStage::InstallingOfficial, SyncEvent::Ran) => true,
            (SyncStage::CheckingAur, SyncEvent::RepoChecked(_)) => true,
            (SyncStage::FindingHome, SyncEvent::HomeFound(_)) => true,
            (SyncStage::CreatingDir, SyncEvent::Stepped(_)) => true,
            (SyncStage::Cloning, SyncEvent::Stepped(_)) => true,
            (SyncStage::Building, SyncEvent::Built(_)) => true,
            (SyncStage::CleaningUp, SyncEvent::Stepped(_)) => true,
            _ => false,
        }
    }

    /// Moves the installation on after the last action had the outcome `e`.
    pub fn advance(self, e: SyncEvent) -> (r: (SyncRun, SyncAction))
        requires
            event_fits(self.stage, e@),
        ensures
            r.0.pack@ == self.pack@,
            (r.0.stage, r.0.dir@, r.1@) == sync_next(self.pack@, self.dir@, self.stage, e@),
    {
        let SyncRun { pack, dir, stage } = self;
        match (stage, e) {
            (SyncStage::SearchingOfficial, SyncEvent::Searched(Ok(out))) => {
                if out.len() > 0 {
                    (SyncRun { pack, dir, stage: SyncStage::InstallingOfficial }, SyncAction::InstallOfficial)
                } else {
                    let url = aur_git_url(pack.as_str());
                    (SyncRun { pack, dir, stage: SyncStage::CheckingAur }, SyncAction::CheckAur(url))
                }
            },
            (SyncStage::SearchingOfficial, SyncEvent::Searched(Err(m))) => {
                let mut msg = String::from_str("pacman said: ");
                msg.append(m.as_str());
                (SyncRun { pack, dir, stage: SyncStage::Done }, SyncAction::Exit(msg, false))
            },
            (SyncStage::CheckingAur, SyncEvent::RepoChecked(exists)) => {
                if exists {
                    (SyncRun { pack, dir, stage: SyncStage::FindingHome }, SyncAction::FindHome)
                } else {
                    (SyncRun { pack, dir, stage: SyncStage::Done }, SyncAction::Exit(String::from_str("repo duznt exist"), true))
                }
            },
            (SyncStage::FindingHome, SyncEvent::HomeFound(Some(home))) => {
                let d = clone_dir(home.as_str(), pack.as_str());
                let d2 = clone_dir(home.as_str(), pack.as_str());
                (SyncRun { pack, dir: d, stage: SyncStage::CreatingDir }, SyncAction::CreateDir(d2))
            },
            (SyncStage::FindingHome, SyncEvent::HomeFound(None)) => {
                (SyncRun { pack, dir, stage: SyncStage::Done }, SyncAction::Exit(String::from_str("Faild to get $HOME."), true))
            },
            (SyncStage::CreatingDir, SyncEvent::Stepped(Ok(()))) => {
                let url = aur_git_url(pack.as_str());
                let d = dir.clone();
                (SyncRun { pack, dir, stage: SyncStage::Cloning }, SyncAction::Clone(url, d))
            },
            (SyncStage::CreatingDir, SyncEvent::Stepped(Err(m))) => {
                let mut msg = String::from_str("Failed to create directory ");
                msg.append(m.as_str());
                (SyncRun { pack, dir, stage: SyncStage::Done }, SyncAction::Exit(msg, false))
            },
            (SyncStage::Cloning, SyncEvent::Stepped(Ok(()))) => {
                let url = aur_git_url(pack.as_str());
                let mut line = String::from_str("cloninn ");
                line.append(pack.as_str());
                line.append(" from ");
                line.append(url.as_str());
                line.append(" to ");
                line.append(dir.as_str());
                (SyncRun { pack, dir, stage: SyncStage::Building }, SyncAction::Build(line))
            },
            (SyncStage::Cloning, SyncEvent::Stepped(Err(m))) => {
                let mut msg = String::from_str("Failed to clon repo: ");
                msg.append(m.as_str());
                (SyncRun { pack, dir, stage: SyncStage::Done }, SyncAction::Exit(msg, false))
            },
            (SyncStage::Building, SyncEvent::Built(Ok(true))) => {
                let d = dir.clone();
                (SyncRun { pack, dir, stage: SyncStage::CleaningUp }, SyncAction::RemoveClone(d))
            },
            (SyncStage::Building, SyncEvent::Built(_)) => {
                (SyncRun { pack, dir, stage: SyncStage::Done }, SyncAction::Exit(String::from_str("makepkg did not want to install"), true))
            },
            _ => (SyncRun { pack, dir, stage: SyncStage::Done }, SyncAction::Finish),
        }
    }
}


/// The place of a stage in the order in which an installation passes
/// through them.
pub open spec fn stage_rank(stage: SyncStage) -> nat {
    match stage {
        SyncStage::SearchingOfficial => 0,
        SyncStage::CheckingAur => 1,
        SyncStage::FindingHome => 2,
        SyncStage::CreatingDir => 3,
        SyncStage::Cloning => 4,
        SyncStage::Building => 5,
        SyncStage::CleaningUp => 6,
        SyncStage::InstallingOfficial => 7,
        SyncStage::Done => 8,
    }
}

/// Every step moves an installation forward, so that one ends after at
/// most eight steps; the package is built from the AUR only where pacman
/// found nothing and installed by pacman only where it found something.
pub proof fn lemma_sync_progress(pack: Seq<char>, dir: Seq<char>, stage: SyncStage, e: SyncEventView)
    requires
        event_fits(stage, e),
    ensures
        stage_rank(sync_next(pack, dir, stage, e).0) > stage_rank(stage),
        sync_next(pack, dir, stage, e).2 is CheckAur ==> (e matches SyncEventView::Searched(Ok(out)) && out.len() == 0),
        sync_next(pack, dir, stage, e).2 is InstallOfficial ==> (e matches SyncEventView::Searched(Ok(out)) && out.len() > 0),
{
}

/// The installation reports success and removes the clone only once
/// `makepkg` succeeded; it builds only after a successful clone, clones only
/// into a directory it created, and creates one only under a `$HOME` that
/// is set, after the repository was found to exist.  Every failure ends it
/// with an exit: a failed clone with `Failed to clon repo: ` and the reason,
/// a failed or broken `makepkg` with `makepkg did not want to install`.
pub proof fn lemma_sync_steps(pack: Seq<char>, dir: Seq<char>, stage: SyncStage, e: SyncEventView)
    requires
        event_fits(stage, e),
    ensures
        sync_next(pack, dir, stage, e).2 is RemoveClone ==> stage == SyncStage::Building && e
            == SyncEventView::Built(Ok(true)),
        sync_next(pack, dir, stage, e).2 is Build ==> stage == SyncStage::Cloning && e is Stepped && e->Stepped_0 is Ok,
        sync_next(pack, dir, stage, e).2 is Clone ==> stage == SyncStage::CreatingDir && e is Stepped
            && e->Stepped_0 is Ok,
        sync_next(pack, dir, stage, e).2 is CreateDir ==> stage == SyncStage::FindingHome && e is HomeFound
            && e->HomeFound_0 is Some,
        sync_next(pack, dir, stage, e).2 is FindHome ==> stage == SyncStage::CheckingAur && e
            == SyncEventView::RepoChecked(true),
        sync_next(pack, dir, stage, e).2 is Exit ==> sync_next(pack, dir, stage, e).0 == SyncStage::Done,
        stage == SyncStage::Cloning && e is Stepped && e->Stepped_0 is Err ==> sync_next(pack, dir, stage, e)
            == (SyncStage::Done, dir, SyncActionView::Exit("Failed to clon repo: "@ + e->Stepped_0->Err_0, false)),
        stage == SyncStage::Building && e != SyncEventView::Built(Ok(true)) ==> sync_next(pack, dir, stage, e)
            == (SyncStage::Done, dir, SyncActionView::Exit("makepkg did not want to install"@, true)),
        stage == SyncStage::CheckingAur && e == SyncEventView::RepoChecked(false) ==> sync_next(pack, dir, stage, e).2
            is Exit,
        stage == SyncStage::FindingHome && e == SyncEventView::HomeFound(None) ==> sync_next(pack, dir, stage, e).2
            is Exit,
        stage == SyncStage::CreatingDir && e is Stepped && e->Stepped_0 is Err ==> sync_next(pack, dir, stage, e).2
            is Exit,
{
}

} // verus!
