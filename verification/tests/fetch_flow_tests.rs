use blitz_l10n::download_flow::{FetchAction, FetchEvent, FetchRun, FetchStage};

fn step(run: &mut FetchRun, e: FetchEvent) -> FetchAction {
    assert!(run.expects(&e), "unexpected event");
    run.next(e)
}

fn progress(a: &FetchAction) -> (String, u32, String, u64, u64) {
    match a {
        FetchAction::Progress { step, percent, message_key, downloaded, total } => {
            (step.clone(), *percent, message_key.clone(), *downloaded, *total)
        }
        _ => panic!("expected a report"),
    }
}

#[test]
fn cached_archive_with_current_tag_is_extracted() {
    let (mut run, a) = FetchRun::start("l10n", None);
    assert!(matches!(a, FetchAction::Head));
    assert!(matches!(step(&mut run, FetchEvent::Head(Some((10, Some("\"t1\"".into()))))), FetchAction::ReadCache));
    let a = step(&mut run, FetchEvent::CacheState { archive_exists: true, etag_file: "t1\n".into() });
    assert_eq!(progress(&a), ("download".into(), 100, "l10n".into(), 0, 0));
    let a = step(&mut run, FetchEvent::Ack);
    assert_eq!(progress(&a), ("extract".into(), 0, "extracting".into(), 0, 0));
    assert!(matches!(step(&mut run, FetchEvent::Ack), FetchAction::Extract { create_dir: false }));
    let a = step(&mut run, FetchEvent::Extracted(Ok(())));
    assert_eq!(progress(&a), ("extract".into(), 100, "extracted".into(), 0, 0));
    match step(&mut run, FetchEvent::Ack) {
        FetchAction::Finish { result } => assert_eq!(result, Ok("t1".to_string())),
        _ => panic!("expected the end"),
    }
    assert_eq!(run.stage, FetchStage::Finished);
}

#[test]
fn unchanged_installed_package_is_kept() {
    let (mut run, _) = FetchRun::start("font", Some("t2"));
    step(&mut run, FetchEvent::Head(Some((0, Some("t2".into())))));
    let a = step(&mut run, FetchEvent::CacheState { archive_exists: false, etag_file: String::new() });
    assert_eq!(progress(&a), ("download".into(), 100, "font".into(), 0, 0));
    match step(&mut run, FetchEvent::Ack) {
        FetchAction::Finish { result } => assert_eq!(result, Ok("t2".to_string())),
        _ => panic!("expected the end"),
    }
}

#[test]
fn fresh_download_is_stored_then_extracted() {
    let (mut run, _) = FetchRun::start("l10n", Some("old"));
    step(&mut run, FetchEvent::Head(None));
    assert!(matches!(step(&mut run, FetchEvent::CacheState { archive_exists: true, etag_file: "old".into() }), FetchAction::Get));
    match step(&mut run, FetchEvent::Response(Ok((Some(2048), Some("\"new\"".into()))))) {
        FetchAction::Stream { total } => assert_eq!(total, 2048),
        _ => panic!("expected streaming"),
    }
    let a = step(&mut run, FetchEvent::Streamed(Ok(2048)));
    assert_eq!(progress(&a), ("download".into(), 100, "l10n".into(), 2048, 2048));
    match step(&mut run, FetchEvent::Ack) {
        FetchAction::Store { etag } => assert_eq!(etag, "new"),
        _ => panic!("expected storing"),
    }
    let a = step(&mut run, FetchEvent::Stored(Ok(())));
    assert_eq!(progress(&a), ("extract".into(), 0, "extracting".into(), 0, 0));
    assert!(matches!(step(&mut run, FetchEvent::Ack), FetchAction::Extract { create_dir: true }));
    step(&mut run, FetchEvent::Extracted(Ok(())));
    match step(&mut run, FetchEvent::Ack) {
        FetchAction::Finish { result } => assert_eq!(result, Ok("new".to_string())),
        _ => panic!("expected the end"),
    }
}

#[test]
fn head_tag_and_size_take_precedence() {
    let (mut run, _) = FetchRun::start("l10n", None);
    step(&mut run, FetchEvent::Head(Some((100, Some("h".into())))));
    step(&mut run, FetchEvent::CacheState { archive_exists: false, etag_file: String::new() });
    match step(&mut run, FetchEvent::Response(Ok((Some(5), Some("g".into()))))) {
        FetchAction::Stream { total } => assert_eq!(total, 100),
        _ => panic!("expected streaming"),
    }
    step(&mut run, FetchEvent::Streamed(Ok(100)));
    match step(&mut run, FetchEvent::Ack) {
        FetchAction::Store { etag } => assert_eq!(etag, "h"),
        _ => panic!("expected storing"),
    }
}

#[test]
fn failures_end_the_fetch() {
    let (mut run, _) = FetchRun::start("l10n", None);
    step(&mut run, FetchEvent::Head(None));
    step(&mut run, FetchEvent::CacheState { archive_exists: false, etag_file: String::new() });
    match step(&mut run, FetchEvent::Response(Err("Failed to download l10n: refused".into()))) {
        FetchAction::Finish { result } => assert_eq!(result, Err("Failed to download l10n: refused".to_string())),
        _ => panic!("expected failure"),
    }
    let (mut run, _) = FetchRun::start("l10n", None);
    step(&mut run, FetchEvent::Head(Some((0, Some("t".into())))));
    step(&mut run, FetchEvent::CacheState { archive_exists: true, etag_file: "t".into() });
    step(&mut run, FetchEvent::Ack);
    step(&mut run, FetchEvent::Ack);
    match step(&mut run, FetchEvent::Extracted(Err("Failed to extract l10n: bad".into()))) {
        FetchAction::Finish { result } => assert_eq!(result, Err("Failed to extract l10n: bad".to_string())),
        _ => panic!("expected failure"),
    }
    assert!(!run.expects(&FetchEvent::Ack));
}
