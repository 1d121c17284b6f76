use bevy_seedling::follower::{FollowError, Followers};
use bevy_seedling::pool::rank_nodes;
use bevy_seedling::time::Audio;

#[test]
fn audio_clock_advances() {
    let mut clock = Audio::new();
    assert_eq!(clock.update(1000), 1000);
    assert_eq!(clock.update(1500), 500);
    assert_eq!(clock.render_range(), (1000, 1500));
    assert_eq!(clock.delay(25), 1525);
    // an older report does not move time backwards in the delta
    assert_eq!(clock.update(1200), 0);
    assert_eq!(clock.instant(), 1200);
    assert_eq!(clock.delay(u64::MAX), u64::MAX);
}

#[test]
fn followers_allow_one_rank_only() {
    let mut f = Followers::new();
    assert_eq!(f.follow(2, 1), Ok(()));
    assert_eq!(f.source_of(2), Some(1));
    // a source cannot follow, a follower cannot be followed
    assert_eq!(f.follow(1, 5), Err(FollowError::Cascade));
    assert_eq!(f.follow(3, 2), Err(FollowError::Cascade));
    assert_eq!(f.follow(4, 4), Err(FollowError::Cascade));
    // re-targeting replaces the old link
    assert_eq!(f.follow(2, 9), Ok(()));
    assert_eq!(f.source_of(2), Some(9));
    assert_eq!(f.source_of(1), None);
}

#[test]
fn nodes_rank_by_work_descending() {
    assert_eq!(rank_nodes(&vec![5, 9, 5, 0, u64::MAX]), vec![4, 1, 0, 2, 3]);
}
