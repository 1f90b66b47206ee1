use arm_backend::motion::format_pairs;

#[test]
fn collision_pairs_have_a_stable_human_readable_form() {
    assert_eq!(format_pairs(&vec![("link1".into(), "link4".into())]), "link1↔link4");
}

#[test]
fn several_collision_pairs_are_joined() {
    assert_eq!(
        format_pairs(&vec![("a".into(), "b".into()), ("c".into(), "d".into())]),
        "a↔b、c↔d"
    );
    assert_eq!(format_pairs(&vec![]), "");
}
