use rooq::request_gen::RequestGenerator;

#[test]
fn stale_token_is_detected_after_advance() {
    let mut gen = RequestGenerator::new();
    let old_token = gen.advance();
    assert!(old_token.is_still_current(&gen));

    let _new_token = gen.advance();
    assert!(!old_token.is_still_current(&gen));
}

#[test]
fn latest_token_remains_current_until_superseded() {
    let mut gen = RequestGenerator::new();
    let token = gen.advance();
    assert!(token.is_still_current(&gen));
    assert!(token.is_still_current(&gen));
}

#[test]
fn superseded_token_stays_stale_after_many_advances() {
    let mut gen = RequestGenerator::default();
    let first = gen.advance();
    let mut last = gen.advance();
    for _ in 0..10 {
        last = gen.advance();
    }
    assert!(!first.is_still_current(&gen));
    assert!(last.is_still_current(&gen));
}

#[test]
fn copied_token_tracks_the_same_generation() {
    let mut gen = RequestGenerator::new();
    let token = gen.advance();
    let copy = token.clone();
    assert!(copy.is_still_current(&gen));
    gen.advance();
    assert!(!copy.is_still_current(&gen));
}
