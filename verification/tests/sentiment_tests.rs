use labcolors_core::sentiment::Sentiment;

#[test]
fn prototype_hues() {
    assert_eq!(Sentiment::Danger.prototype_hue(), 18);
    assert_eq!(Sentiment::Warning.prototype_hue(), 67);
    assert_eq!(Sentiment::Success.prototype_hue(), 145);
    assert_eq!(Sentiment::Info.prototype_hue(), 240);
}

#[test]
fn only_warning_has_a_floor() {
    assert_eq!(Sentiment::Warning.hue_floor(), Some(45));
    assert_eq!(Sentiment::Danger.hue_floor(), None);
    assert_eq!(Sentiment::Success.hue_floor(), None);
    assert_eq!(Sentiment::Info.hue_floor(), None);
}

#[test]
fn floor_does_not_move_prototype() {
    for s in [Sentiment::Danger, Sentiment::Warning, Sentiment::Success, Sentiment::Info] {
        if let Some(f) = s.hue_floor() {
            assert!(f <= s.prototype_hue());
        }
        assert!(s.prototype_hue() < 360);
    }
}
