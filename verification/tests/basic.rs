use calendar_transform::transformer::next_uid;

#[test]
fn next_uid_increments_number() {
    assert_eq!(next_uid("41@ucilnica.fri.uni-lj.si"), "42@ucilnica.fri.uni-lj.si");
}
