use tarah::install::{
    after_aur_check, after_official_search, count_builds, pacman_install_args, sort_findings, AurBuild, BuildAction,
    BuildStage, InstallPlan, OfficialLookup, PackageSource,
};

fn strings(v: &[&str]) -> Vec<String> {
    v.iter().map(|s| s.to_string()).collect()
}

#[test]
fn official_search_outcomes() {
    assert_eq!(
        after_official_search("vim", Ok(b"extra/vim 9.1\n".to_vec())),
        OfficialLookup::Settled(Ok(PackageSource::Official("vim".to_string())))
    );
    assert_eq!(
        after_official_search("yay", Ok(Vec::new())),
        OfficialLookup::CheckAur("https://aur.archlinux.org/yay.git".to_string())
    );
    assert_eq!(
        after_official_search("x", Err("No such file or directory (os error 2)".to_string())),
        OfficialLookup::Settled(Err((
            "x".to_string(),
            "Error checking official repos for x: No such file or directory (os error 2)".to_string()
        )))
    );
}

#[test]
fn aur_check_outcomes() {
    assert_eq!(after_aur_check("yay", Ok(true)), Ok(PackageSource::Aur("yay".to_string())));
    assert_eq!(after_aur_check("nope", Ok(false)), Ok(PackageSource::NotFound("nope".to_string())));
    assert_eq!(
        after_aur_check("y", Err("boom".to_string())),
        Err(("y".to_string(), "Err checkinnnn AUR for y: boom".to_string()))
    );
}

#[test]
fn findings_are_sorted_in_order() {
    let findings = vec![
        Ok(PackageSource::Aur("a1".to_string())),
        Ok(PackageSource::Official("o1".to_string())),
        Err(("e1".to_string(), "m".to_string())),
        Ok(PackageSource::NotFound("n1".to_string())),
        Ok(PackageSource::Official("o2".to_string())),
        Ok(PackageSource::Aur("a2".to_string())),
    ];
    let plan = sort_findings(&findings);
    assert_eq!(
        plan,
        InstallPlan {
            official: strings(&["o1", "o2"]),
            aur: strings(&["a1", "a2"]),
            not_found: strings(&["n1"]),
            errors: vec![("e1".to_string(), "m".to_string())],
        }
    );
    let total = plan.official.len() + plan.aur.len() + plan.not_found.len() + plan.errors.len();
    assert_eq!(total, findings.len());
}

#[test]
fn pacman_arguments() {
    assert_eq!(pacman_install_args(&strings(&["a", "b"])), strings(&["-S", "--noconfirm", "a", "b"]));
    assert_eq!(pacman_install_args(&[]), strings(&["-S", "--noconfirm"]));
}

#[test]
fn successful_build() {
    let (b, a) = AurBuild::start("yay".to_string());
    assert_eq!(a, BuildAction::PrepareDir);
    let (b, a) = b.advance(Ok(true));
    assert_eq!(a, BuildAction::Clone("https://aur.archlinux.org/yay.git".to_string()));
    let (b, a) = b.advance(Ok(true));
    assert_eq!(a, BuildAction::RunMakepkg);
    let (b, a) = b.advance(Ok(true));
    assert_eq!(a, BuildAction::RemoveClone);
    let (b, a) = b.advance(Err("spawn failed".to_string()));
    assert_eq!(a, BuildAction::Finish(Ok("yay".to_string())));
    assert_eq!(b.stage, BuildStage::Done);
}

#[test]
fn failed_builds() {
    let (b, _) = AurBuild::start("p".to_string());
    let (_, a) = b.advance(Err("\"/x\": denied".to_string()));
    assert_eq!(a, BuildAction::Finish(Err(("p".to_string(), "Failed to create directory \"/x\": denied".to_string()))));

    let (b, _) = AurBuild::start("p".to_string());
    let (b, _) = b.advance(Ok(true));
    let (_, a) = b.advance(Err("not found".to_string()));
    assert_eq!(a, BuildAction::Finish(Err(("p".to_string(), "Failed to clon repo: not found".to_string()))));

    let (b, _) = AurBuild::start("p".to_string());
    let (b, _) = b.advance(Ok(true));
    let (b, _) = b.advance(Ok(true));
    let (b, a) = b.advance(Ok(false));
    assert_eq!(a, BuildAction::ShowMakepkgErrors);
    let (_, a) = b.advance(Ok(true));
    assert_eq!(a, BuildAction::Finish(Err(("p".to_string(), "makepkg did not want to install".to_string()))));

    let (b, _) = AurBuild::start("p".to_string());
    let (b, _) = b.advance(Ok(true));
    let (b, _) = b.advance(Ok(true));
    let (_, a) = b.advance(Err("no makepkg".to_string()));
    assert_eq!(a, BuildAction::Finish(Err(("p".to_string(), " ".to_string()))));
}

#[test]
fn build_counts() {
    let results = vec![Ok("a".to_string()), Err(("b".to_string(), "m".to_string())), Ok("c".to_string())];
    assert_eq!(count_builds(&results), (2, 1));
    assert_eq!(count_builds(&[]), (0, 0));
}
