use syodep::effects::Effects;

#[test]
fn requests_or_together_and_the_later_pending_state_wins() {
    let quit = Effects {
        quit: true,
        pending_input: true,
        ..Effects::default()
    };
    let merged = Effects::redraw().merge(quit);
    assert!(merged.redraw && merged.quit && merged.pending_input);
    let merged = quit.merge(Effects::redraw());
    assert!(merged.redraw && merged.quit);
    assert!(!merged.pending_input);
}

#[test]
fn redraw_requests_only_a_redraw() {
    assert_eq!(
        Effects::redraw(),
        Effects {
            redraw: true,
            ..Effects::default()
        }
    );
    assert_eq!(Effects::default().merge(Effects::redraw()), Effects::redraw());
}
