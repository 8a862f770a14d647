//! Installing packages: where each requested package is found, how the
//! findings are sorted, what pacman is asked, and how an AUR package is
//! built step by step.

use vstd::prelude::*;
use crate::aur::{aur_git_url, aur_git_url_spec};
use crate::text::views;

verus! {

/// Where a requested package was found.
#[derive(Debug, PartialEq, Eq)]
pub enum PackageSource {
    /// In the official repositories.
    Official(String),
    /// In the AUR.
    Aur(String),
    /// Nowhere.
    NotFound(String),
}

/// The mathematical form of a [`PackageSource`].
pub enum SourceView {
    Official(Seq<char>),
    Aur(Seq<char>),
    NotFound(Seq<char>),
}

impl View for PackageSource {
    type V = SourceView;

    open spec fn view(&self) -> SourceView {
        match self {
            PackageSource::Official(p) => SourceView::Official(p@),
            PackageSource::Aur(p) => SourceView::Aur(p@),
            PackageSource::NotFound(p) => SourceView::NotFound(p@),
        }
    }
}

/// The finding for one package: where it is, or the package and a message
/// where looking it up failed.
pub type CheckResult = Result<PackageSource, (String, String)>;

/// The mathematical form of a [`CheckResult`].
pub type CheckView = Result<SourceView, (Seq<char>, Seq<char>)>;

/// The view of a finding.
pub open spec fn check_view(r: CheckResult) -> CheckView {
    match r {
        Ok(s) => Ok(s@),
        Err((p, m)) => Err((p@, m@)),
    }
}

/// The views of a list of findings.
pub open spec fn check_views(rs: Seq<CheckResult>) -> Seq<CheckView> {
    rs.map_values(|r: CheckResult| check_view(r))
}

/// What comes of searching the official repositories for a package.
#[derive(Debug, PartialEq, Eq)]
pub enum OfficialLookup {
    /// The package's finding is settled.
    Settled(CheckResult),
    /// The package is not official: its AUR repository at this URL is to
    /// be checked.
    CheckAur(String),
}

/// The message for a failed search of the official repositories.
pub open spec fn official_error_spec(pack: Seq<char>, err: Seq<char>) -> Seq<char> {
    "Error checking official repos for "@ + pack + ": "@ + err
}

/// The message for a failed check of the AUR.
pub open spec fn aur_error_spec(pack: Seq<char>, err: Seq<char>) -> Seq<char> {
    "Err checkinnnn AUR for "@ + pack + ": "@ + err
}

/// Reads the outcome of `pacman -Ss ^pack$`: its standard output, or the
/// text of the error that kept it from running.  A package with any
/// output is official; one without is looked for in the AUR.
pub fn after_official_search(pack: &str, search: Result<Vec<u8>, String>) -> (r: OfficialLookup)
    ensures
        match search {
            Ok(out) => if out@.len() > 0 {
                r matches OfficialLookup::Settled(c) && check_view(c) == Ok::<SourceView, (Seq<char>, Seq<char>)>(SourceView::Official(pack@))
            } else {
                r matches OfficialLookup::CheckAur(url) && url@ == aur_git_url_spec(pack@)
            },
            Err(e) => r matches OfficialLookup::Settled(c) && check_view(c) == Err::<SourceView, (Seq<char>, Seq<char>)>((pack@, official_error_spec(pack@, e@))),
        },
{
    match search {
        Ok(out) => {
            if out.len() > 0 {
                OfficialLookup::Settled(Ok(PackageSource::Official(String::from_str(pack))))
            } else {
                OfficialLookup::CheckAur(aur_git_url(pack))
            }
        },
        Err(e) => {
            let mut m = String::from_str("Error checking official repos for ");
            m.append(pack);
            m.append(": ");
            m.append(e.as_str());
            OfficialLookup::Settled(Err((String::from_str(pack), m)))
        },
    }
}

/// Reads the outcome of checking the package's AUR repository: whether it
/// exists, or the text of the error that kept the check from running.
pub fn after_aur_check(pack: &str, check: Result<bool, String>) -> (r: CheckResult)
    ensures
        check_view(r) == match check {
            Ok(true) => Ok::<SourceView, (Seq<char>, Seq<char>)>(SourceView::Aur(pack@)),
            Ok(false) => Ok::<SourceView, (Seq<char>, Seq<char>)>(SourceView::NotFound(pack@)),
            Err(e) => Err::<SourceView, (Seq<char>, Seq<char>)>((pack@, aur_error_spec(pack@, e@))),
        },
{
    match check {
        Ok(true) => Ok(PackageSource::Aur(String::from_str(pack))),
        Ok(false) => Ok(PackageSource::NotFound(String::from_str(pack))),
        Err(e) => {
            let mut m = String::from_str("Err checkinnnn AUR for ");
            m.append(pack);
            m.append(": ");
            m.append(e.as_str());
            Err((String::from_str(pack), m))
        },
    }
}


/// The packages found in the official repositories, in order.
pub open spec fn officials(rs: Seq<CheckView>) -> Seq<Seq<char>>
    decreases rs.len(),
{
    if rs.len() == 0 {
        Seq::empty()
    } else {
        officials(rs.drop_last()) + match rs.last() {
            Ok(SourceView::Official(p)) => seq![p],
            _ => Seq::empty(),
        }
    }
}

/// The packages found in the AUR, in order.
pub open spec fn aurs(rs: Seq<CheckView>) -> Seq<Seq<char>>
    decreases rs.len(),
{
    if rs.len() == 0 {
        Seq::empty()
    } else {
        aurs(rs.drop_last()) + match rs.last() {
            Ok(SourceView::Aur(p)) => seq![p],
            _ => Seq::empty(),
        }
    }
}

/// The packages found nowhere, in order.
pub open spec fn not_founds(rs: Seq<CheckView>) -> Seq<Seq<char>>
    decreases rs.len(),
{
    if rs.len() == 0 {
        Seq::empty()
    } else {
        not_founds(rs.drop_last()) + match rs.last() {
            Ok(SourceView::NotFound(p)) => seq![p],
            _ => Seq::empty(),
        }
    }
}

/// The failed lookups, in order.
pub open spec fn failures(rs: Seq<CheckView>) -> Seq<(Seq<char>, Seq<char>)>
    decreases rs.len(),
{
    if rs.len() == 0 {
        Seq::empty()
    } else {
        failures(rs.drop_last()) + match rs.last() {
            Err(e) => seq![e],
            _ => Seq::empty(),
        }
    }
}

/// The findings for all requested packages, sorted by where each package
/// was found.
#[derive(Debug, PartialEq, Eq)]
pub struct InstallPlan {
    pub official: Vec<String>,
    pub aur: Vec<String>,
    pub not_found: Vec<String>,
    pub errors: Vec<(String, String)>,
}

/// The views of a list of failed lookups.
pub open spec fn error_views(v: Seq<(String, String)>) -> Seq<(Seq<char>, Seq<char>)> {
    v.map_values(|e: (String, String)| (e.0@, e.1@))
}

/// Sorts the findings: the official packages, the AUR packages, the
/// packages found nowhere and the failed lookups, each list in the order
/// of the findings.
pub fn sort_findings(results: &Vec<CheckResult>) -> (plan: InstallPlan)
    ensures
        views(plan.official@) == officials(check_views(results@)),
        views(plan.aur@) == aurs(check_views(results@)),
        views(plan.not_found@) == not_founds(check_views(results@)),
        error_views(plan.errors@) == failures(check_views(results@)),
{
    let mut plan = InstallPlan {
        official: Vec::new(),
        aur: Vec::new(),
        not_found: Vec::new(),
        errors: Vec::new(),
    };
    let n = results.len();
    let ghost cv = check_views(results@);
    for i in 0..n
        invariant
            n == results@.len(),
            cv == check_views(results@),
            views(plan.official@) == officials(cv.take(i as int)),
            views(plan.aur@) == aurs(cv.take(i as int)),
            views(plan.not_found@) == not_founds(cv.take(i as int)),
            error_views(plan.errors@) == failures(cv.take(i as int)),
    {
        assert(cv.take(i + 1).drop_last() == cv.take(i as int));
        assert(cv.take(i + 1).last() == check_view(results@[i as int]));
        let ghost o = plan.official@;
        let ghost a = plan.aur@;
        let ghost f = plan.not_found@;
        let ghost e = plan.errors@;
        match &results[i] {
            Ok(PackageSource::Official(p)) => {
                plan.official.push(p.clone());
                assert(views(plan.official@) == views(o).push(p@));
            },
            Ok(PackageSource::Aur(p)) => {
                plan.aur.push(p.clone());
                assert(views(plan.aur@) == views(a).push(p@));
            },
            Ok(PackageSource::NotFound(p)) => {
                plan.not_found.push(p.clone());
                assert(views(plan.not_found@) == views(f).push(p@));
            },
            Err((p, m)) => {
                plan.errors.push((p.clone(), m.clone()));
                assert(error_views(plan.errors@) == error_views(e).push((p@, m@)));
            },
        }
    }
    assert(cv.take(n as int) == cv);
    plan
}

/// Every finding lands in exactly one list: the four lists together are
/// as long as the findings.
pub proof fn lemma_findings_partition(rs: Seq<CheckView>)
    ensures
        officials(rs).len() + aurs(rs).len() + not_founds(rs).len() + failures(rs).len() == rs.len(),
    decreases rs.len(),
{
    if rs.len() > 0 {
        lemma_findings_partition(rs.drop_last());
    }
}

/// A package is in the official list exactly when some finding found it
/// there, in the AUR list exactly when some finding found it in the AUR, in
/// the not-found list exactly when some finding found it nowhere; a failure
/// is listed exactly when some lookup failed with it.
pub proof fn lemma_findings_membership(rs: Seq<CheckView>, p: Seq<char>, e: (Seq<char>, Seq<char>))
    ensures
        officials(rs).contains(p) <==> exists|i: int| 0 <= i < rs.len() && #[trigger] rs[i] == Ok::<SourceView, (Seq<char>, Seq<char>)>(SourceView::Official(p)),
        aurs(rs).contains(p) <==> exists|i: int| 0 <= i < rs.len() && #[trigger] rs[i] == Ok::<SourceView, (Seq<char>, Seq<char>)>(SourceView::Aur(p)),
        not_founds(rs).contains(p) <==> exists|i: int| 0 <= i < rs.len() && #[trigger] rs[i] == Ok::<SourceView, (Seq<char>, Seq<char>)>(SourceView::NotFound(p)),
        failures(rs).contains(e) <==> exists|i: int| 0 <= i < rs.len() && #[trigger] rs[i] == Err::<SourceView, (Seq<char>, Seq<char>)>(e),
    decreases rs.len(),
{
    if rs.len() > 0 {
        let d = rs.drop_last();
        lemma_findings_membership(d, p, e);
        let last = rs.last();
        assert forall|i: int| 0 <= i < d.len() implies #[trigger] d[i] == rs[i] by {}
        let tail_o: Seq<Seq<char>> = match last { Ok(SourceView::Official(q)) => seq![q], _ => Seq::empty() };
        let tail_a: Seq<Seq<char>> = match last { Ok(SourceView::Aur(q)) => seq![q], _ => Seq::empty() };
        let tail_n: Seq<Seq<char>> = match last { Ok(SourceView::NotFound(q)) => seq![q], _ => Seq::empty() };
        let tail_f: Seq<(Seq<char>, Seq<char>)> = match last { Err(x) => seq![x], _ => Seq::empty() };
        assert(officials(rs) == officials(d) + tail_o);
        assert(aurs(rs) == aurs(d) + tail_a);
        assert(not_founds(rs) == not_founds(d) + tail_n);
        assert(failures(rs) == failures(d) + tail_f);
        if officials(rs).contains(p) {
            let k = choose|k: int| 0 <= k < officials(rs).len() && officials(rs)[k] == p;
            if k >= officials(d).len() {
                assert(rs[rs.len() - 1] == last);
            } else {
                assert(officials(d)[k] == p);
            }
        }
        if exists|i: int| 0 <= i < rs.len() && #[trigger] rs[i] == Ok::<SourceView, (Seq<char>, Seq<char>)>(SourceView::Official(p)) {
            let i = choose|i: int| 0 <= i < rs.len() && #[trigger] rs[i] == Ok::<SourceView, (Seq<char>, Seq<char>)>(SourceView::Official(p));
            if i == rs.len() - 1 {
                assert(officials(rs)[officials(d).len() as int] == p);
            } else {
                assert(d[i] == rs[i]);
                let k = choose|k: int| 0 <= k < officials(d).len() && officials(d)[k] == p;
                assert(officials(rs)[k] == p);
            }
        }
        if aurs(rs).contains(p) {
            let k = choose|k: int| 0 <= k < aurs(rs).len() && aurs(rs)[k] == p;
            if k >= aurs(d).len() {
                assert(rs[rs.len() - 1] == last);
            } else {
                assert(aurs(d)[k] == p);
            }
        }
        if exists|i: int| 0 <= i < rs.len() && #[trigger] rs[i] == Ok::<SourceView, (Seq<char>, Seq<char>)>(SourceView::Aur(p)) {
            let i = choose|i: int| 0 <= i < rs.len() && #[trigger] rs[i] == Ok::<SourceView, (Seq<char>, Seq<char>)>(SourceView::Aur(p));
            if i == rs.len() - 1 {
                assert(aurs(rs)[aurs(d).len() as int] == p);
            } else {
                assert(d[i] == rs[i]);
                let k = choose|k: int| 0 <= k < aurs(d).len() && aurs(d)[k] == p;
                assert(aurs(rs)[k] == p);
            }
        }
        if not_founds(rs).contains(p) {
            let k = choose|k: int| 0 <= k < not_founds(rs).len() && not_founds(rs)[k] == p;
            if k >= not_founds(d).len() {
                assert(rs[rs.len() - 1] == last);
            } else {
                assert(not_founds(d)[k] == p);
            }
        }
        if exists|i: int| 0 <= i < rs.len() && #[trigger] rs[i] == Ok::<SourceView, (Seq<char>, Seq<char>)>(SourceView::NotFound(p)) {
            let i = choose|i: int| 0 <= i < rs.len() && #[trigger] rs[i] == Ok::<SourceView, (Seq<char>, Seq<char>)>(SourceView::NotFound(p));
            if i == rs.len() - 1 {
                assert(not_founds(rs)[not_founds(d).len() as int] == p);
            } else {
                assert(d[i] == rs[i]);
                let k = choose|k: int| 0 <= k < not_founds(d).len() && not_founds(d)[k] == p;
                assert(not_founds(rs)[k] == p);
            }
        }
        if failures(rs).contains(e) {
            let k = choose|k: int| 0 <= k < failures(rs).len() && failures(rs)[k] == e;
            if k >= failures(d).len() {
                assert(rs[rs.len() - 1] == last);
            } else {
                assert(failures(d)[k] == e);
            }
        }
        if exists|i: int| 0 <= i < rs.len() && #[trigger] rs[i] == Err::<SourceView, (Seq<char>, Seq<char>)>(e) {
            let i = choose|i: int| 0 <= i < rs.len() && #[trigger] rs[i] == Err::<SourceView, (Seq<char>, Seq<char>)>(e);
            if i == rs.len() - 1 {
                assert(failures(rs)[failures(d).len() as int] == e);
            } else {
                assert(d[i] == rs[i]);
                let k = choose|k: int| 0 <= k < failures(d).len() && failures(d)[k] == e;
                assert(failures(rs)[k] == e);
            }
        }
    }
}

/// The arguments that `pacman` is run with to install the official
/// packages `official`: `-S --noconfirm` and the packages.
pub fn pacman_install_args(official: &[String]) -> (r: Vec<String>)
    ensures
        views(r@) == seq!["-S"@, "--noconfirm"@] + views(official@),
{
    let mut r: Vec<String> = Vec::new();
    r.push(String::from_str("-S"));
    r.push(String::from_str("--noconfirm"));
    let n = official.len();
    for i in 0..n
        invariant
            n == official@.len(),
            views(r@) == seq!["-S"@, "--noconfirm"@] + views(official@.take(i as int)),
    {
        let ghost prev = r@;
        r.push(official[i].clone());
        assert(views(r@) == views(prev).push(official@[i as int]@));
        assert(views(official@.take(i + 1)) == views(official@.take(i as int)).push(official@[i as int]@));
    }
    assert(official@.take(n as int) == official@);
    r
}


/// How far the build of an AUR package has come.
#[derive(PartialEq, Eq, Structural, Debug, Clone, Copy)]
pub enum BuildStage {
    PreparingDir,
    Cloning,
    Building,
    CleaningUp,
    ShowingLog,
    Done,
}

/// What the caller does next for an AUR build.
#[derive(Debug, PartialEq, Eq)]
pub enum BuildAction {
    /// Announce the clone, remove a stale clone directory if there is one,
    /// and create the directory anew.
    PrepareDir,
    /// Clone the repository at this URL into the directory.
    Clone(String),
    /// Run `makepkg -si --noconfirm` in the directory.
    RunMakepkg,
    /// Report success and remove the directory.
    RemoveClone,
    /// Report the failure and show what `makepkg` wrote to its error output.
    ShowMakepkgErrors,
    /// The build is over, with this result.
    Finish(Result<String, (String, String)>),
}

/// The mathematical form of a [`BuildAction`].
pub enum BuildActionView {
    PrepareDir,
    Clone(Seq<char>),
    RunMakepkg,
    RemoveClone,
    ShowMakepkgErrors,
    Finish(Result<Seq<char>, (Seq<char>, Seq<char>)>),
}

impl View for BuildAction {
    type V = BuildActionView;

    open spec fn view(&self) -> BuildActionView {
        match self {
            BuildAction::PrepareDir => BuildActionView::PrepareDir,
            BuildAction::Clone(u) => BuildActionView::Clone(u@),
            BuildAction::RunMakepkg => BuildActionView::RunMakepkg,
            BuildAction::RemoveClone => BuildActionView::RemoveClone,
            BuildAction::ShowMakepkgErrors => BuildActionView::ShowMakepkgErrors,
            BuildAction::Finish(Ok(p)) => BuildActionView::Finish(Ok(p@)),
            BuildAction::Finish(Err((p, m))) => BuildActionView::Finish(Err((p@, m@))),
        }
    }
}

/// What came of the last action: `Ok(success)` where it ran (`success`
/// matters for `makepkg` alone), `Err(text)` where it could not be done.
pub type StepOutcome = Result<bool, String>;

/// The mathematical form of a [`StepOutcome`].
pub type StepOutcomeView = Result<bool, Seq<char>>;

/// The view of a step outcome.
pub open spec fn outcome_view(o: StepOutcome) -> StepOutcomeView {
    match o {
        Ok(b) => Ok(b),
        Err(e) => Err(e@),
    }
}

/// The stage and action that follow `stage` in the build of `pack` when
/// the last action had the outcome `o`.
pub open spec fn build_next(pack: Seq<char>, stage: BuildStage, o: StepOutcomeView) -> (BuildStage, BuildActionView) {
    match stage {
        BuildStage::PreparingDir => match o {
            Ok(_) => (BuildStage::Cloning, BuildActionView::Clone(aur_git_url_spec(pack))),
            Err(m) => (BuildStage::Done, BuildActionView::Finish(Err((pack, "Failed to create directory "@ + m)))),
        },
        BuildStage::Cloning => match o {
            Ok(_) => (BuildStage::Building, BuildActionView::RunMakepkg),
            Err(m) => (BuildStage::Done, BuildActionView::Finish(Err((pack, "Failed to clon repo: "@ + m)))),
        },
        BuildStage::Building => match o {
            Ok(true) => (BuildStage::CleaningUp, BuildActionView::RemoveClone),
            Ok(false) => (BuildStage::ShowingLog, BuildActionView::ShowMakepkgErrors),
            Err(_) => (BuildStage::Done, BuildActionView::Finish(Err((pack, " "@)))),
        },
        BuildStage::CleaningUp => (BuildStage::Done, BuildActionView::Finish(Ok(pack))),
        BuildStage::ShowingLog => (BuildStage::Done, BuildActionView::Finish(Err((pack, "makepkg did not want to install"@)))),
        BuildStage::Done => (BuildStage::Done, BuildActionView::Finish(Err((pack, " "@)))),
    }
}

/// The build of one AUR package, from creating its directory to removing
/// it again.
pub struct AurBuild {
    pub pack: String,
    pub stage: BuildStage,
}

impl AurBuild {
    /// Starts the build of `pack`: its directory is prepared first.
    pub fn start(pack: String) -> (r: (AurBuild, BuildAction))
        ensures
            r.0.pack@ == pack@,
            r.0.stage == BuildStage::PreparingDir,
            r.1@ == BuildActionView::PrepareDir,
    {
        (AurBuild { pack, stage: BuildStage::PreparingDir }, BuildAction::PrepareDir)
    }

    /// Moves the build on after the last action had the outcome `o`.
    pub fn advance(self, o: StepOutcome) -> (r: (AurBuild, BuildAction))
        requires
            self.stage != BuildStage::Done,
        ensures
            r.0.pack@ == self.pack@,
            (r.0.stage, r.1@) == build_next(self.pack@, self.stage, outcome_view(o)),
    {
        let pack = self.pack;
        match self.stage {
            BuildStage::PreparingDir => match o {
                Ok(_) => {
                    let url = aur_git_url(pack.as_str());
                    (AurBuild { pack, stage: BuildStage::Cloning }, BuildAction::Clone(url))
                },
                Err(m) => {
                    let mut msg = String::from_str("Failed to create directory ");
                    msg.append(m.as_str());
                    let p = pack.clone();
                    (AurBuild { pack, stage: BuildStage::Done }, BuildAction::Finish(Err((p, msg))))
                },
            },
            BuildStage::Cloning => match o {
                Ok(_) => (AurBuild { pack, stage: BuildStage::Building }, BuildAction::RunMakepkg),
                Err(m) => {
                    let mut msg = String::from_str("Failed to clon repo: ");
                    msg.append(m.as_str());
                    let p = pack.clone();
                    (AurBuild { pack, stage: BuildStage::Done }, BuildAction::Finish(Err((p, msg))))
                },
            },
            BuildStage::Building => match o {
                Ok(true) => (AurBuild { pack, stage: BuildStage::CleaningUp }, BuildAction::RemoveClone),
                Ok(false) => (AurBuild { pack, stage: BuildStage::ShowingLog }, BuildAction::ShowMakepkgErrors),
                Err(_) => {
                    let p = pack.clone();
                    (AurBuild { pack, stage: BuildStage::Done }, BuildAction::Finish(Err((p, String::from_str(" ")))))
                },
            },
            BuildStage::CleaningUp => {
                let p = pack.clone();
                (AurBuild { pack, stage: BuildStage::Done }, BuildAction::Finish(Ok(p)))
            },
            _ => {
                let p = pack.clone();
                let msg = String::from_str("makepkg did not want to install");
                (AurBuild { pack, stage: BuildStage::Done }, BuildAction::Finish(Err((p, msg))))
            },
        }
    }
}


/// How a build of `pack` that stands at `stage` ends when its actions have
/// the outcomes `os`, one after the other: `None` where they run out first.
pub open spec fn build_run(pack: Seq<char>, stage: BuildStage, os: Seq<StepOutcomeView>) -> Option<
    Result<Seq<char>, (Seq<char>, Seq<char>)>,
>
    decreases os.len(),
{
    if stage == BuildStage::Done || os.len() == 0 {
        None
    } else {
        let (next, action) = build_next(pack, stage, os[0]);
        match action {
            BuildActionView::Finish(r) => Some(r),
            _ => build_run(pack, next, os.drop_first()),
        }
    }
}

/// A build always ends within four actions, with a result that names the
/// package; it succeeds exactly when the directory was prepared, the
/// clone went through and `makepkg` succeeded.
pub proof fn lemma_build_outcome(pack: Seq<char>, os: Seq<StepOutcomeView>)
    requires
        os.len() >= 4,
    ensures
        build_run(pack, BuildStage::PreparingDir, os) matches Some(r) && (r is Ok <==> (os[0] is Ok
            && os[1] is Ok && os[2] == Ok::<bool, Seq<char>>(true))) && match r {
            Ok(p) => p == pack,
            Err(e) => e.0 == pack,
        },
{
    reveal_with_fuel(build_run, 5);
    let s1 = os.drop_first();
    let s2 = s1.drop_first();
    let s3 = s2.drop_first();
    assert(s1[0] == os[1]);
    assert(s2[0] == os[2]);
    assert(s3[0] == os[3]);
}


/// The number of successful builds.
pub open spec fn successes(rs: Seq<Result<Seq<char>, (Seq<char>, Seq<char>)>>) -> nat
    decreases rs.len(),
{
    if rs.len() == 0 {
        0
    } else {
        successes(rs.drop_last()) + if rs.last() is Ok { 1nat } else { 0nat }
    }
}

/// The views of a list of build results.
pub open spec fn build_views(rs: Seq<Result<String, (String, String)>>) -> Seq<Result<Seq<char>, (Seq<char>, Seq<char>)>> {
    rs.map_values(|r: Result<String, (String, String)>| match r {
        Ok(p) => Ok(p@),
        Err((p, m)) => Err((p@, m@)),
    })
}

/// Counts the successful and the failed builds; the two add up to all.
pub fn count_builds(results: &[Result<String, (String, String)>]) -> (r: (usize, usize))
    ensures
        r.0 == successes(build_views(results@)),
        r.0 + r.1 == results@.len(),
{
    let mut ok: usize = 0;
    let mut failed: usize = 0;
    let n = results.len();
    let ghost bv = build_views(results@);
    for i in 0..n
        invariant
            n == results@.len(),
            bv == build_views(results@),
            ok == successes(bv.take(i as int)),
            ok + failed == i,
    {
        assert(bv.take(i + 1).drop_last() == bv.take(i as int));
        assert(bv.take(i + 1).last() == bv[i as int]);
        match &results[i] {
            Ok(_) => {
                ok = ok + 1;
            },
            Err(_) => {
                failed = failed + 1;
            },
        }
    }
    assert(bv.take(n as int) == bv);
    (ok, failed)
}

/// The removal that reports success follows only a `makepkg` that
/// succeeded, `makepkg` runs only after a clone that went through, and the
/// clone only into a directory that was created; every failure ends the
/// build with an error that names the package: a failed clone with
/// `Failed to clon repo: ` and the reason, a directory that could not be
/// created with `Failed to create directory ` and the reason.  The URL
/// cloned is the package's own.
pub proof fn lemma_build_steps(pack: Seq<char>, stage: BuildStage, o: StepOutcomeView)
    requires
        stage != BuildStage::Done,
    ensures
        build_next(pack, stage, o).1 is RemoveClone ==> stage == BuildStage::Building && o == Ok::<bool, Seq<char>>(true),
        build_next(pack, stage, o).1 is RunMakepkg ==> stage == BuildStage::Cloning && o is Ok,
        build_next(pack, stage, o).1 is Clone ==> stage == BuildStage::PreparingDir && o is Ok
            && build_next(pack, stage, o).1->Clone_0 == aur_git_url_spec(pack),
        build_next(pack, stage, o).1 matches BuildActionView::Finish(Ok(q)) ==> stage == BuildStage::CleaningUp && q == pack,
        build_next(pack, stage, o).1 matches BuildActionView::Finish(Err(e)) ==> e.0 == pack,
        build_next(pack, stage, o).1 is Finish <==> build_next(pack, stage, o).0 == BuildStage::Done,
        stage == BuildStage::Cloning && o is Err ==> build_next(pack, stage, o).1 == BuildActionView::Finish(
            Err((pack, "Failed to clon repo: "@ + o->Err_0)),
        ),
        stage == BuildStage::PreparingDir && o is Err ==> build_next(pack, stage, o).1 == BuildActionView::Finish(
            Err((pack, "Failed to create directory "@ + o->Err_0)),
        ),
        stage == BuildStage::Building && o == Ok::<bool, Seq<char>>(false) ==> build_next(pack, stage, o).1
            is ShowMakepkgErrors,
        stage == BuildStage::ShowingLog ==> build_next(pack, stage, o).1 == BuildActionView::Finish(
            Err((pack, "makepkg did not want to install"@)),
        ),
{
}

/// The successful builds counted are exactly the results that are `Ok`.
pub proof fn lemma_successes_count(rs: Seq<Result<Seq<char>, (Seq<char>, Seq<char>)>>)
    ensures
        successes(rs) == rs.filter(|r: Result<Seq<char>, (Seq<char>, Seq<char>)>| r is Ok).len(),
        successes(rs) <= rs.len(),
    decreases rs.len(),
{
    reveal(Seq::filter);
    if rs.len() > 0 {
        lemma_successes_count(rs.drop_last());
    }
}

} // verus!
