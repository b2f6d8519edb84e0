use rusterio::{Buffer, DataType};

#[test]
fn new_buffer_is_zeroed_and_sized_by_its_shape() {
    let buffer: Buffer<u16, 3> = Buffer::new([2, 3, 4]);
    assert_eq!(buffer.len(), 24);
    assert_eq!(buffer.shape(), [2, 3, 4]);
    assert!(buffer.as_slice().iter().all(|v| *v == 0));
}

#[test]
fn buffer_with_an_empty_dimension_is_empty() {
    let buffer: Buffer<u8, 3> = Buffer::new([5, 0, 7]);
    assert_eq!(buffer.len(), 0);
    assert_eq!(buffer.shape(), [5, 0, 7]);
    let big: Buffer<u8, 3> = Buffer::new([usize::MAX, usize::MAX, 0]);
    assert_eq!(big.len(), 0);
}

#[test]
fn buffer_without_dimensions_holds_one_element() {
    let buffer: Buffer<i32, 0> = Buffer::new([]);
    assert_eq!(buffer.len(), 1);
}

#[test]
fn buffer_is_written_through_as_mut() {
    let mut buffer: Buffer<u16, 1> = Buffer::new([4]);
    buffer.as_mut()[2] = 9;
    buffer.as_mut().copy_from_slice(&[1, 2, 3, 4]);
    assert_eq!(buffer.as_slice(), &[1, 2, 3, 4]);
    assert_eq!(buffer.len(), 4);
}

#[test]
fn buffer_gives_its_parts() {
    let mut buffer: Buffer<u16, 2> = Buffer::new([2, 2]);
    buffer.as_mut().copy_from_slice(&[5, 6, 7, 8]);
    let (data, shape) = buffer.to_owned_parts();
    assert_eq!(&*data, &[5, 6, 7, 8]);
    assert_eq!(shape, [2, 2]);
}

#[derive(Debug, Clone, Copy, PartialEq)]
struct Reflectance(f32);

impl DataType for Reflectance {
    fn zero() -> Self {
        Reflectance(0.0)
    }
}

#[test]
fn a_type_of_the_caller_can_be_an_element_type() {
    let buffer: Buffer<Reflectance, 2> = Buffer::new([2, 2]);
    assert_eq!(buffer.as_slice(), &[Reflectance(0.0); 4]);
    assert_eq!(<u64 as DataType>::zero(), 0);
    assert_eq!(<i8 as DataType>::zero(), 0);
}
