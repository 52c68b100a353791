use noctis::error::{DisplayError, Rejected};
use noctis::fixed::ONE;
use noctis::magnification::{
    advance, apply_dim, apply_shadow_lift, apply_smart_adjustment, init, remove_effects,
    set_color_effect, smart_adjustment, Adjustment, CompositorCall, MagColorEffect, Magnifier,
    Outcome, Phase, Step, DARK_THRESHOLD,
};

fn matrix(scale: i32, offset: i32) -> [[i32; 5]; 5] {
    [
        [scale, 0, 0, 0, 0],
        [0, scale, 0, 0, 0],
        [0, 0, scale, 0, 0],
        [0, 0, 0, ONE, 0],
        [offset, offset, offset, 0, ONE],
    ]
}

#[test]
fn identity_changes_nothing() {
    assert_eq!(MagColorEffect::identity().transform, matrix(ONE, 0));
    assert_eq!(MagColorEffect::default(), MagColorEffect::identity());
}

#[test]
fn shadow_lift_trades_gain_for_bias() {
    assert_eq!(MagColorEffect::shadow_lift(0).transform, matrix(ONE, 0));
    assert_eq!(MagColorEffect::shadow_lift(ONE).transform, matrix(500_000, 500_000));
    assert_eq!(MagColorEffect::shadow_lift(500_000).transform, matrix(750_000, 250_000));
    // Half of an odd intensity is rounded down; the gain takes the rest.
    assert_eq!(MagColorEffect::shadow_lift(3).transform, matrix(999_999, 1));
    assert_eq!(MagColorEffect::shadow_lift(-4).transform, matrix(ONE, 0));
    assert_eq!(MagColorEffect::shadow_lift(7 * ONE).transform, matrix(500_000, 500_000));
}

#[test]
fn shadow_lift_gain_and_bias_add_up_to_one() {
    for intensity in [i32::MIN, -1, 0, 1, 2, 3, 123_457, 500_000, 999_999, ONE, ONE + 1, i32::MAX] {
        let effect = MagColorEffect::shadow_lift(intensity);
        for channel in 0..3 {
            assert_eq!(effect.transform[channel][channel] + effect.transform[4][channel], ONE);
        }
        assert_eq!(effect.transform[3], [0, 0, 0, ONE, 0]);
        assert_eq!(effect.transform[4][3], 0);
        assert_eq!(effect.transform[4][4], ONE);
    }
}

#[test]
fn dim_takes_up_to_three_tenths_off() {
    assert_eq!(MagColorEffect::dim(0).transform, matrix(ONE, 0));
    assert_eq!(MagColorEffect::dim(ONE).transform, matrix(700_000, 0));
    assert_eq!(MagColorEffect::dim(500_000).transform, matrix(850_000, 0));
    // 3 * 7 / 10 = 2.1, rounded down.
    assert_eq!(MagColorEffect::dim(7).transform, matrix(999_998, 0));
    assert_eq!(MagColorEffect::dim(-9).transform, matrix(ONE, 0));
    assert_eq!(MagColorEffect::dim(i32::MAX).transform, matrix(700_000, 0));
}

#[test]
fn dim_leaves_alpha_alone() {
    for intensity in [i32::MIN, 0, 1, 333_333, ONE, i32::MAX] {
        assert_eq!(MagColorEffect::dim(intensity).transform[3], [0, 0, 0, ONE, 0]);
    }
}

#[test]
fn a_bright_sample_calls_for_the_plain_picture() {
    assert_eq!(DARK_THRESHOLD, 400_000);
    assert_eq!(smart_adjustment(400_000), Adjustment::Normal);
    assert_eq!(smart_adjustment(400_001), Adjustment::Normal);
    assert_eq!(smart_adjustment(ONE), Adjustment::Normal);
    assert_eq!(smart_adjustment(i32::MAX), Adjustment::Normal);
}

#[test]
fn a_dark_sample_calls_for_lifted_shadows() {
    assert_eq!(smart_adjustment(0), Adjustment::NightVision { intensity: ONE });
    assert_eq!(smart_adjustment(200_000), Adjustment::NightVision { intensity: 500_000 });
    assert_eq!(smart_adjustment(100_000), Adjustment::NightVision { intensity: 750_000 });
    // (400000 - 399999) / 400000 = 0.0000025, rounded down to 2 millionths.
    assert_eq!(smart_adjustment(399_999), Adjustment::NightVision { intensity: 2 });
    assert_eq!(smart_adjustment(-1), Adjustment::NightVision { intensity: ONE });
    assert_eq!(smart_adjustment(i32::MIN), Adjustment::NightVision { intensity: ONE });
}

#[test]
fn every_adjustment_has_its_matrix() {
    assert_eq!(Adjustment::Normal.effect(), MagColorEffect::identity());
    assert_eq!(
        Adjustment::NightVision { intensity: 600_000 }.effect(),
        MagColorEffect::shadow_lift(600_000)
    );
    assert_eq!(Adjustment::Dimmed { intensity: 600_000 }.effect(), MagColorEffect::dim(600_000));
    assert_eq!(smart_adjustment(0).effect().transform, matrix(500_000, 500_000));
    assert_eq!(smart_adjustment(400_000).effect().transform, matrix(ONE, 0));
}

fn started() -> Magnifier {
    let mut magnifier = Magnifier::new();
    assert_eq!(init(&mut magnifier), Step::Perform(CompositorCall::Initialize));
    assert_eq!(
        advance(&mut magnifier, Outcome::Succeeded),
        Step::Perform(CompositorCall::ResetTransform)
    );
    assert_eq!(advance(&mut magnifier, Outcome::Succeeded), Step::Done);
    magnifier
}

#[test]
fn the_first_effect_starts_the_subsystem_and_later_ones_do_not() {
    let mut magnifier = Magnifier::new();
    assert!(!magnifier.initialized);
    let night = Adjustment::NightVision { intensity: 300_000 };
    assert_eq!(set_color_effect(&mut magnifier, night), Step::Perform(CompositorCall::Initialize));
    assert_eq!(
        advance(&mut magnifier, Outcome::Succeeded),
        Step::Perform(CompositorCall::ResetTransform)
    );
    assert!(!magnifier.initialized);
    assert_eq!(
        advance(&mut magnifier, Outcome::Succeeded),
        Step::Perform(CompositorCall::SetColorEffect(night))
    );
    assert!(magnifier.initialized);
    assert_eq!(magnifier.active, Adjustment::Normal);
    assert_eq!(advance(&mut magnifier, Outcome::Succeeded), Step::Done);
    assert_eq!(magnifier.active, night);
    assert_eq!(magnifier.phase, Phase::Idle);

    assert_eq!(
        remove_effects(&mut magnifier),
        Step::Perform(CompositorCall::SetColorEffect(Adjustment::Normal))
    );
    assert_eq!(advance(&mut magnifier, Outcome::Succeeded), Step::Done);
    assert_eq!(magnifier.active, Adjustment::Normal);
    assert!(magnifier.initialized);
}

#[test]
fn init_alone_starts_the_subsystem_once() {
    let mut magnifier = started();
    assert!(magnifier.initialized);
    assert_eq!(magnifier.active, Adjustment::Normal);
    assert_eq!(init(&mut magnifier), Step::Done);
    assert_eq!(magnifier, started());
}

#[test]
fn a_failed_start_is_reported_and_tried_again_next_time() {
    let mut magnifier = Magnifier::new();
    remove_effects(&mut magnifier);
    assert_eq!(
        advance(&mut magnifier, Outcome::Failed { code: 5 }),
        Step::Failed(DisplayError::ApplyRejected { what: Rejected::CompositorInit, code: None })
    );
    assert_eq!(magnifier.phase, Phase::Idle);
    assert!(!magnifier.initialized);

    assert_eq!(remove_effects(&mut magnifier), Step::Perform(CompositorCall::Initialize));
    advance(&mut magnifier, Outcome::Succeeded);
    assert_eq!(
        advance(&mut magnifier, Outcome::Failed { code: 6 }),
        Step::Failed(DisplayError::ApplyRejected {
            what: Rejected::FullscreenTransform,
            code: None
        })
    );
    assert!(!magnifier.initialized);
    assert_eq!(remove_effects(&mut magnifier), Step::Perform(CompositorCall::Initialize));
}

#[test]
fn a_refused_effect_is_reported_with_its_code_and_changes_nothing() {
    let mut magnifier = started();
    apply_shadow_lift(&mut magnifier, 250_000);
    advance(&mut magnifier, Outcome::Succeeded);
    let shown = Adjustment::NightVision { intensity: 250_000 };
    assert_eq!(magnifier.active, shown);

    assert_eq!(
        apply_dim(&mut magnifier, 100_000),
        Step::Perform(CompositorCall::SetColorEffect(Adjustment::Dimmed { intensity: 100_000 }))
    );
    assert_eq!(
        advance(&mut magnifier, Outcome::Failed { code: 1812 }),
        Step::Failed(DisplayError::ApplyRejected { what: Rejected::ColorEffect, code: Some(1812) })
    );
    assert_eq!(magnifier.active, shown);
    assert!(magnifier.initialized);
    assert_eq!(magnifier.phase, Phase::Idle);
}

#[test]
fn effects_are_asked_for_with_their_intensity_held_to_the_unit_interval() {
    let mut magnifier = started();
    assert_eq!(
        apply_shadow_lift(&mut magnifier, 2 * ONE),
        Step::Perform(CompositorCall::SetColorEffect(Adjustment::NightVision { intensity: ONE }))
    );
    assert_eq!(
        apply_shadow_lift(&mut magnifier, -3),
        Step::Perform(CompositorCall::SetColorEffect(Adjustment::NightVision { intensity: 0 }))
    );
    assert_eq!(
        apply_dim(&mut magnifier, i32::MAX),
        Step::Perform(CompositorCall::SetColorEffect(Adjustment::Dimmed { intensity: ONE }))
    );
}

#[test]
fn smart_adjustment_drives_the_controller() {
    let mut magnifier = started();
    assert_eq!(
        apply_smart_adjustment(&mut magnifier, 200_000),
        Step::Perform(CompositorCall::SetColorEffect(Adjustment::NightVision {
            intensity: 500_000
        }))
    );
    assert_eq!(advance(&mut magnifier, Outcome::Succeeded), Step::Done);
    assert_eq!(magnifier.active, Adjustment::NightVision { intensity: 500_000 });

    // A new sample overwrites what is shown.
    apply_smart_adjustment(&mut magnifier, 0);
    advance(&mut magnifier, Outcome::Succeeded);
    assert_eq!(magnifier.active, Adjustment::NightVision { intensity: ONE });

    assert_eq!(
        apply_smart_adjustment(&mut magnifier, 400_000),
        Step::Perform(CompositorCall::SetColorEffect(Adjustment::Normal))
    );
    advance(&mut magnifier, Outcome::Succeeded);
    assert_eq!(magnifier.active, Adjustment::Normal);
}

#[test]
fn an_outcome_without_an_operation_changes_nothing() {
    let mut magnifier = started();
    let before = magnifier;
    assert_eq!(advance(&mut magnifier, Outcome::Failed { code: 1 }), Step::Done);
    assert_eq!(magnifier, before);
}
