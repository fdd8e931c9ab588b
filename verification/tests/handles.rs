use zero_schema::__private::{
    ExclusiveInput, SharedInput, UnspecifiedArrayAdapter, UnspecifiedArrayToken,
};
use zero_schema::{ArrayMut, ArrayRef};

#[test]
fn unspecified_array_adapter_accepts_nothing() {
    let storage = [0_u8; 2];
    let input = SharedInput::<[u8; 2]>::from_checked(&storage).unwrap();
    assert!(ArrayRef::<(), 2, UnspecifiedArrayAdapter>::prove(input).is_err());
    let empty = SharedInput::<[u8; 0]>::from_checked(&[]).unwrap();
    let view = ArrayRef::<(), 0, UnspecifiedArrayAdapter>::prove(empty).unwrap();
    assert!(view.get(0).is_none());
}

#[test]
fn unspecified_mutable_array_proves_only_the_empty_array() {
    let mut storage = [7_u8; 3];
    {
        let input = ExclusiveInput::<[u8; 3]>::from_checked(&mut storage).unwrap();
        let proved =
            ArrayMut::<(), 3, UnspecifiedArrayAdapter>::prove(input, UnspecifiedArrayToken);
        assert!(proved.is_err());
    }
    assert_eq!(storage, [7, 7, 7]);
}

#[test]
fn empty_mutable_array_reports_index_and_length_errors() {
    let mut storage: [u8; 0] = [];
    let input = ExclusiveInput::<[u8; 0]>::from_checked(&mut storage).unwrap();
    let mut array =
        ArrayMut::<(), 0, UnspecifiedArrayAdapter>::prove(input, UnspecifiedArrayToken).unwrap();
    assert!(array.get(0).is_none());
    assert!(array.set(0, ()).is_err());
    assert!(array.copy_from(&[]).is_ok());
    assert!(array.copy_from(&[()]).is_err());
}
