use three_body::pairs::pair_schedule;

#[test]
fn three_bodies_give_three_pairs_in_loop_order() {
    assert_eq!(pair_schedule(3), vec![(0, 1), (0, 2), (1, 2)]);
}

#[test]
fn empty_and_single_body_sets_have_no_pairs() {
    assert!(pair_schedule(0).is_empty());
    assert!(pair_schedule(1).is_empty());
}

#[test]
fn six_bodies_give_each_pair_once() {
    let s = pair_schedule(6);
    assert_eq!(s.len(), 15);
    for i in 0..6 {
        for j in 0..6 {
            let n = s.iter().filter(|p| **p == (i, j)).count();
            assert_eq!(n, if i < j { 1 } else { 0 });
        }
    }
    assert_eq!(s[0], (0, 1));
    assert_eq!(s[5], (1, 2));
    assert_eq!(s[14], (4, 5));
}
