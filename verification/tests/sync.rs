use tarah::sync::{SyncAction, SyncEvent, SyncRun, SyncStage};

#[test]
fn official_package_is_installed_directly() {
    let (r, a) = SyncRun::start("vim".to_string());
    assert_eq!(a, SyncAction::SearchOfficial("^vim ".to_string()));
    let (r, a) = r.advance(SyncEvent::Searched(Ok(b"extra/vim 9.1".to_vec())));
    assert_eq!(a, SyncAction::InstallOfficial);
    let (r, a) = r.advance(SyncEvent::Ran);
    assert_eq!(a, SyncAction::Finish);
    assert_eq!(r.stage, SyncStage::Done);
}

#[test]
fn aur_package_is_built() {
    let (r, _) = SyncRun::start("yay".to_string());
    let (r, a) = r.advance(SyncEvent::Searched(Ok(Vec::new())));
    assert_eq!(a, SyncAction::CheckAur("https://aur.archlinux.org/yay.git".to_string()));
    let (r, a) = r.advance(SyncEvent::RepoChecked(true));
    assert_eq!(a, SyncAction::FindHome);
    let (r, a) = r.advance(SyncEvent::HomeFound(Some("/home/u".to_string())));
    let dir = "/home/u/.cache/tarah/git_cloney_thingy/yay".to_string();
    assert_eq!(a, SyncAction::CreateDir(dir.clone()));
    let (r, a) = r.advance(SyncEvent::Stepped(Ok(())));
    assert_eq!(a, SyncAction::Clone("https://aur.archlinux.org/yay.git".to_string(), dir.clone()));
    let (r, a) = r.advance(SyncEvent::Stepped(Ok(())));
    assert_eq!(
        a,
        SyncAction::Build(format!("cloninn yay from https://aur.archlinux.org/yay.git to {}", dir))
    );
    let (r, a) = r.advance(SyncEvent::Built(Ok(true)));
    assert_eq!(a, SyncAction::RemoveClone(dir));
    let (r, a) = r.advance(SyncEvent::Stepped(Err("gone".to_string())));
    assert_eq!(a, SyncAction::Finish);
    assert_eq!(r.stage, SyncStage::Done);
}

#[test]
fn sync_failures_exit() {
    let (r, _) = SyncRun::start("x".to_string());
    let (_, a) = r.advance(SyncEvent::Searched(Err("oops".to_string())));
    assert_eq!(a, SyncAction::Exit("pacman said: oops".to_string(), false));

    let (r, _) = SyncRun::start("x".to_string());
    let (r, _) = r.advance(SyncEvent::Searched(Ok(Vec::new())));
    let (_, a) = r.advance(SyncEvent::RepoChecked(false));
    assert_eq!(a, SyncAction::Exit("repo duznt exist".to_string(), true));

    let (r, _) = SyncRun::start("x".to_string());
    let (r, _) = r.advance(SyncEvent::Searched(Ok(Vec::new())));
    let (r, _) = r.advance(SyncEvent::RepoChecked(true));
    let (_, a) = r.advance(SyncEvent::HomeFound(None));
    assert_eq!(a, SyncAction::Exit("Faild to get $HOME.".to_string(), true));

    let (r, _) = SyncRun::start("x".to_string());
    let (r, _) = r.advance(SyncEvent::Searched(Ok(Vec::new())));
    let (r, _) = r.advance(SyncEvent::RepoChecked(true));
    let (r, _) = r.advance(SyncEvent::HomeFound(Some("/h".to_string())));
    let (r, _) = r.advance(SyncEvent::Stepped(Ok(())));
    let (r, _) = r.advance(SyncEvent::Stepped(Ok(())));
    let (_, a) = r.advance(SyncEvent::Built(Ok(false)));
    assert_eq!(a, SyncAction::Exit("makepkg did not want to install".to_string(), true));
}

#[test]
fn answers_must_fit_the_step() {
    let (r, _) = SyncRun::start("x".to_string());
    assert!(r.accepts(&SyncEvent::Searched(Ok(Vec::new()))));
    assert!(!r.accepts(&SyncEvent::Ran));
    let (r, _) = r.advance(SyncEvent::Searched(Ok(Vec::new())));
    assert!(r.accepts(&SyncEvent::RepoChecked(true)));
    assert!(!r.accepts(&SyncEvent::Stepped(Ok(()))));
}
