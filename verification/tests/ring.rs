use lanmic::ring::SampleRing;

#[test]
fn samples_come_out_in_the_order_they_went_in() {
    let mut r = SampleRing::new(8);
    assert_eq!((r.free(), r.len()), (8, 0));
    assert_eq!(r.push(&[1, 2, 3]), 3);
    assert_eq!(r.push_silence(2), 2);
    assert_eq!(r.push(&[4, 5, 6, 7]), 3, "only what fits");
    assert_eq!((r.free(), r.len()), (0, 8));
    let mut out = [9i16; 4];
    assert_eq!(r.pop(&mut out), 4);
    assert_eq!(out, [1, 2, 3, 0]);
    assert_eq!(r.skip(2), 2);
    let mut out = [9i16; 4];
    assert_eq!(r.pop(&mut out), 2);
    assert_eq!(out, [5, 6, 9, 9]);
    assert_eq!(r.skip(3), 0);
    assert_eq!(r.push_silence(99), 8);
    assert_eq!(r.skip(99), 8);
}

#[test]
fn silence_is_silent_where_samples_were() {
    let mut r = SampleRing::new(4);
    r.push(&[7, 7, 7, 7]);
    r.skip(4);
    r.push_silence(4);
    let mut out = [9i16; 4];
    assert_eq!(r.pop(&mut out), 4);
    assert_eq!(out, [0, 0, 0, 0]);
}
