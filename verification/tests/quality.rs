use rm_engine::quality::Quality;

#[test]
fn tiers_count_divisions_by_e() {
    assert_eq!(Quality::A.tier(), 0);
    assert_eq!(Quality::B.tier(), 1);
    assert_eq!(Quality::C.tier(), 2);
    assert_eq!(Quality::D.tier(), 3);
    assert_eq!(Quality::E.tier(), 4);
}

#[test]
fn tiers_are_distinct() {
    let all = [Quality::A, Quality::B, Quality::C, Quality::D, Quality::E];
    for a in all {
        for b in all {
            assert_eq!(a.tier() == b.tier(), a == b);
        }
    }
}
