use bandmix::index::{admission_for, Admission, TrackIndex};

#[test]
fn admission_follows_the_answers_of_the_two_lists() {
    assert_eq!(admission_for(false, 0, None, None), Admission::Refused);
    assert_eq!(admission_for(true, 0, None, Some(0)), Admission::Refused);
    assert_eq!(admission_for(true, 3, Some(9), None), Admission::Hidden { slot: 9 });
    assert_eq!(admission_for(true, 3, Some(9), Some(3)), Admission::Hidden { slot: 9 });
    assert_eq!(
        admission_for(false, 3, Some(9), Some(3)),
        Admission::Listed { slot: 9, position: 3 }
    );
    assert_eq!(admission_for(false, 3, Some(9), Some(4)), Admission::Unlisted { slot: 9 });
    assert_eq!(admission_for(false, 3, Some(9), None), Admission::Unlisted { slot: 9 });
}

#[test]
fn index_lists_unheard_tracks_in_order_and_hides_heard_ones() {
    let mut index = TrackIndex::new();
    assert_eq!(index.filtered_len(), 0);
    assert_eq!(index.master_len(), 0);
    assert_eq!(index.filtered_cap(), 0);
    assert_eq!(index.ref_at(0), None);
    let first = index.add_track(1, 11, false);
    let hidden = index.add_track(1, 12, true);
    let second = index.add_track(2, 21, false);
    assert!(matches!(first, Admission::Listed { position: 0, .. }));
    assert!(matches!(hidden, Admission::Hidden { .. }));
    assert!(matches!(second, Admission::Listed { position: 1, .. }));
    assert_eq!(index.master_len(), 3);
    assert_eq!(index.filtered_len(), 2);
    assert_eq!(index.filtered_cap(), 1);
    assert_eq!(index.ref_at(0), Some((1, 11)));
    assert_eq!(index.ref_at(1), Some((2, 21)));
    assert_eq!(index.ref_at(2), None);
}
