use three_body::trail::{Trail, TrailBuffer, TrailError};

fn p(x: f64) -> [f64; 3] {
    [x, 0.0, 0.0]
}

#[test]
fn new_trails_hold_the_start_position_in_every_slot() {
    let start = vec![[1.0, 2.0, 3.0], [-1.0, 0.5, 0.0]];
    let b = TrailBuffer::new(&start, 5, 0).unwrap();
    assert_eq!(b.body_count(), 2);
    assert_eq!(b.length(), 5);
    assert_eq!(b.snapshot(0).unwrap(), vec![[1.0, 2.0, 3.0]; 5]);
    assert_eq!(b.snapshot(1).unwrap(), vec![[-1.0, 0.5, 0.0]; 5]);
}

#[test]
fn zero_length_is_refused() {
    let start = vec![p(0.0)];
    assert_eq!(TrailBuffer::new(&start, 0, 0).err(), Some(TrailError::ZeroLength));
}

#[test]
fn no_bodies_is_accepted() {
    let start: Vec<[f64; 3]> = Vec::new();
    let mut b = TrailBuffer::new(&start, 3, 0).unwrap();
    assert_eq!(b.body_count(), 0);
    assert_eq!(b.record(&start), Ok(true));
    assert!(b.snapshot(0).is_none());
}

#[test]
fn record_with_wrong_body_count_is_refused_and_changes_nothing() {
    let start = vec![p(0.0), p(1.0)];
    let mut b = TrailBuffer::new(&start, 3, 1).unwrap();
    assert_eq!(b.record(&vec![p(5.0)]), Err(TrailError::BodyCountMismatch));
    assert_eq!(b.snapshot(0).unwrap(), vec![p(0.0); 3]);
    // the refused call did not advance the cadence: the first frame still does not fire
    assert_eq!(b.record(&vec![p(5.0), p(6.0)]), Ok(false));
    assert_eq!(b.record(&vec![p(7.0), p(8.0)]), Ok(true));
    assert_eq!(b.snapshot(1).unwrap(), vec![p(8.0), p(1.0), p(1.0)]);
}

#[test]
fn overfilled_trail_keeps_its_length_and_the_newest_entries() {
    let start = vec![p(-1.0)];
    let mut b = TrailBuffer::new(&start, 4, 0).unwrap();
    for i in 0..10 {
        assert_eq!(b.record(&vec![p(i as f64)]), Ok(true));
    }
    let s = b.snapshot(0).unwrap();
    assert_eq!(s.len(), 4);
    assert_eq!(s, vec![p(9.0), p(8.0), p(7.0), p(6.0)]);
}

#[test]
fn partly_filled_trail_still_holds_start_positions_at_the_back() {
    let start = vec![p(-1.0)];
    let mut b = TrailBuffer::new(&start, 4, 0).unwrap();
    b.record(&vec![p(1.0)]).unwrap();
    b.record(&vec![p(2.0)]).unwrap();
    assert_eq!(b.snapshot(0).unwrap(), vec![p(2.0), p(1.0), p(-1.0), p(-1.0)]);
}

#[test]
fn skip_two_records_once_every_three_frames() {
    let start = vec![p(0.0), p(10.0)];
    let mut b = TrailBuffer::new(&start, 8, 2).unwrap();
    assert_eq!(b.skip(), 2);
    let mut fired = Vec::new();
    for f in 1..=9 {
        fired.push(b.record(&vec![p(f as f64), p(10.0 + f as f64)]).unwrap());
    }
    assert_eq!(fired, vec![false, false, true, false, false, true, false, false, true]);
    assert_eq!(fired.iter().filter(|x| **x).count(), 3);
    assert_eq!(
        b.snapshot(0).unwrap(),
        vec![p(9.0), p(6.0), p(3.0), p(0.0), p(0.0), p(0.0), p(0.0), p(0.0)]
    );
    assert_eq!(b.entry(1, 0), Some(p(19.0)));
    assert_eq!(b.entry(1, 2), Some(p(13.0)));
}

#[test]
fn skip_zero_records_every_frame() {
    let start = vec![p(0.0)];
    let mut b = TrailBuffer::new(&start, 2, 0).unwrap();
    for f in 1..=5 {
        assert_eq!(b.record(&vec![p(f as f64)]), Ok(true));
    }
    assert_eq!(b.snapshot(0).unwrap(), vec![p(5.0), p(4.0)]);
}

#[test]
fn out_of_range_reads_give_none() {
    let start = vec![p(0.0)];
    let b = TrailBuffer::new(&start, 3, 0).unwrap();
    assert!(b.snapshot(1).is_none());
    assert_eq!(b.entry(0, 3), None);
    assert_eq!(b.entry(1, 0), None);
    assert_eq!(b.entry(0, 2), Some(p(0.0)));
}

#[test]
fn single_trail_wraps_around_its_arena() {
    let mut t = Trail::filled(0u32, 3);
    assert_eq!(t.len(), 3);
    for x in 1..=7u32 {
        t.push_front(x);
    }
    assert_eq!(t.snapshot(), vec![7, 6, 5]);
    assert_eq!(t.get(0), 7);
    assert_eq!(t.get(2), 5);
}
