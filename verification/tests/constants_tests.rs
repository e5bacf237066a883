use banditrs::constants::{ranking, Rank};

#[test]
fn rank_roundtrip() {
    let names = ranking();
    for (i, r) in Rank::all().iter().enumerate() {
        assert_eq!(r.index(), i);
        assert_eq!(Rank::from_index(i), Some(*r));
        assert_eq!(Rank::parse(r.as_str()), Some(*r));
        assert_eq!(names[i], r.as_str());
    }
    assert!(Rank::Low < Rank::High);
    assert_eq!(Rank::High.value(), 10);
    assert_eq!(Rank::Medium.capitalize(), "Medium");
    assert_eq!(Rank::parse("low"), None);
}

#[test]
fn rank_names_and_weights() {
    assert_eq!(Rank::Undefined.lower(), "undefined");
    assert_eq!(Rank::Low.value(), 3);
    assert_eq!(Rank::Medium.value(), 5);
    assert_eq!(Rank::from_index(4), None);
    assert!(Rank::High.at_least(Rank::Medium));
    assert!(!Rank::Low.at_least(Rank::Medium));
}
