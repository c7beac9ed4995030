use lau_ffi_bindings::zero_copy::{ZeroCopySliceMut, ZeroCopyTransfer};
use lau_ffi_bindings::{CVec, ZeroCopySlice};

#[test]
fn test_zero_copy_slice_from_slice() {
    let data = vec![1u32, 2, 3, 4, 5];
    let zcs = ZeroCopySlice::from_slice(&data);
    assert_eq!(zcs.len(), 5);
    assert!(!zcs.is_empty());
    let slice = zcs.as_slice();
    assert_eq!(slice, &[1, 2, 3, 4, 5]);
}

#[test]
fn test_zero_copy_slice_empty() {
    let data: Vec<u8> = vec![];
    let zcs = ZeroCopySlice::from_slice(&data);
    assert!(zcs.is_empty());
    assert_eq!(zcs.len(), 0);
}

#[test]
fn test_zero_copy_mut() {
    let mut data = vec![10u32, 20, 30];
    let mut zcm = ZeroCopySliceMut::from_slice(&mut data);
    let slice = zcm.as_mut_slice();
    slice[0] = 99;
    assert_eq!(data[0], 99);
}

#[test]
fn test_zero_copy_transfer_roundtrip() {
    let v = vec![100u64, 200, 300];
    let transfer = ZeroCopyTransfer::from_vec(v);
    assert_eq!(transfer.len(), 3);
    let slice = transfer.as_slice();
    assert_eq!(slice[0], 100);
    let v2 = vec![100u64, 200, 300];
    let t2 = ZeroCopyTransfer::from_vec(v2);
    let reclaimed = t2.reclaim();
    assert_eq!(reclaimed, vec![100, 200, 300]);
}

#[test]
fn test_zero_copy_no_allocation() {
    let data = [1i32, 2, 3];
    let zcs = ZeroCopySlice::from_slice(&data);
    assert_eq!(zcs.as_slice().as_ptr(), data.as_ptr());
}

#[test]
fn test_zero_copy_slice_copy_trait() {
    let data = vec![1u8, 2, 3];
    let zcs1 = ZeroCopySlice::from_slice(&data);
    let zcs2 = zcs1;
    assert_eq!(zcs1.as_slice().as_ptr(), zcs2.as_slice().as_ptr());
    assert_eq!(zcs1.len(), zcs2.len());
}

#[test]
fn zero_copy_mut_reports_length() {
    let mut data = [0u8; 4];
    let zcm = ZeroCopySliceMut::from_slice(&mut data);
    assert_eq!(zcm.len(), 4);
}

#[test]
fn test_cvec_from_vec_roundtrip() {
    let v = vec![1u32, 2, 3, 4, 5];
    let cv = CVec::from_vec(v.clone());
    assert_eq!(cv.len(), 5);
    let back = cv.into_vec();
    assert_eq!(v, back);
}

#[test]
fn test_cvec_get() {
    let cv = CVec::from_vec(vec![10u32, 20, 30]);
    assert_eq!(cv.get(0), Some(&10));
    assert_eq!(cv.get(2), Some(&30));
    assert_eq!(cv.get(3), None);
}

#[test]
fn test_cvec_empty() {
    let cv: CVec<u8> = CVec::new();
    assert!(cv.is_empty());
    assert_eq!(cv.len(), 0);
    let v = cv.into_vec();
    assert!(v.is_empty());
}

#[test]
fn test_cvec_as_slice() {
    let cv = CVec::from_vec(vec![1u8, 2, 3]);
    let slice = cv.as_slice();
    assert_eq!(slice, &[1, 2, 3]);
}

#[test]
fn cvec_from_and_default() {
    let cv: CVec<i8> = CVec::from(vec![-1i8, 2]);
    assert_eq!(cv.get(1), Some(&2));
    let empty: CVec<i8> = CVec::default();
    assert!(empty.is_empty());
    assert_eq!(empty.get(0), None);
}
