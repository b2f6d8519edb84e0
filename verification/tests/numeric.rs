use rusterio::errors::RusterioError;
use rusterio::numeric::{checked_lcm, try_cast, try_tuple_cast};

#[test]
fn least_common_multiples() {
    assert_eq!(checked_lcm(4, 6), Some(12));
    assert_eq!(checked_lcm(12, 6), Some(12));
    assert_eq!(checked_lcm(7, 3), Some(21));
    assert_eq!(checked_lcm(1, 9), Some(9));
    assert_eq!(checked_lcm(10980, 5490), Some(10980));
    assert_eq!(checked_lcm(10980, 1830), Some(10980));
    assert_eq!(checked_lcm(8, 12), Some(24));
}

#[test]
fn least_common_multiple_with_zero_is_zero() {
    assert_eq!(checked_lcm(0, 0), Some(0));
    assert_eq!(checked_lcm(0, 5), Some(0));
    assert_eq!(checked_lcm(5, 0), Some(0));
}

#[test]
fn least_common_multiple_that_does_not_fit() {
    assert_eq!(checked_lcm(usize::MAX, usize::MAX - 1), None);
    assert_eq!(checked_lcm(usize::MAX, 2), None);
    assert_eq!(checked_lcm(usize::MAX, usize::MAX), Some(usize::MAX));
    assert_eq!(checked_lcm(usize::MAX, 1), Some(usize::MAX));
}

#[test]
fn casts_to_pixel_coordinates() {
    assert_eq!(try_cast(0), Ok(0));
    assert_eq!(try_cast(12), Ok(12));
    assert_eq!(try_cast(usize::MAX as i128), Ok(usize::MAX));
    assert_eq!(try_cast(-1), Err(RusterioError::Uncastable));
    assert_eq!(try_cast(usize::MAX as i128 + 1), Err(RusterioError::Uncastable));
    assert_eq!(try_cast(i128::MIN), Err(RusterioError::Uncastable));
}

#[test]
fn casts_of_pairs() {
    assert_eq!(try_tuple_cast((3, 4)), Ok((3, 4)));
    assert_eq!(try_tuple_cast((-3, 4)), Err(RusterioError::Uncastable));
    assert_eq!(try_tuple_cast((3, -4)), Err(RusterioError::Uncastable));
}
