//! The bounded collections and the maximum-serialized-length arithmetic,
//! checked against real borsh encodings of the equivalent plain values.

use std::collections::BTreeMap;

use agsol::bounded::CONTENTS_FULL;
use agsol::locked_item::LockedItem;
use agsol::max_len_btree::MaxLenBTreeMap;
use agsol::max_len_string::MaxLenString;
use agsol::max_len_vec::MaxLenVec;
use agsol::max_serialized_len::MaxSerializedLen;

type TestBTree = MaxLenBTreeMap<u8, u32, 5>;
type TestString = MaxLenString<5>;
const CAPACITY: usize = 5;
type TestVec = MaxLenVec<u8, CAPACITY>;

fn btree_bytes(map: &TestBTree) -> Vec<u8> {
    let plain: BTreeMap<u8, u32> = map.contents().iter().cloned().collect();
    borsh::to_vec(&plain).unwrap()
}

#[test]
fn max_len_btree_valid_conversions() {
    let mut pairs: Vec<(u8, u32)> = Vec::new();
    for i in 0..5u32 {
        pairs.push((i as u8, i));
    }
    let max_len_btree = TestBTree::try_from(pairs.clone()).unwrap();
    assert_eq!(&pairs, max_len_btree.contents());
}

#[test]
fn max_len_btree_invalid_conversions() {
    let mut pairs: Vec<(u8, u32)> = Vec::new();
    for i in 0..6u32 {
        pairs.push((i as u8, i));
    }
    assert!(TestBTree::try_from(pairs).is_err());
}

#[test]
fn max_len_btreemap_serialized_len() {
    let mut test_btree: TestBTree = TestBTree::new();
    assert!(btree_bytes(&test_btree).len() <= TestBTree::max_serialized_len());

    for i in 0..4u32 {
        assert!(test_btree.insert(i as u8, i).is_ok());
    }
    // re-insert with the same key
    assert_eq!(test_btree.insert(1_u8, 2), Ok(Some(1)));

    assert!(btree_bytes(&test_btree).len() <= TestBTree::max_serialized_len());
    assert!(test_btree.insert(83_u8, 81237).is_ok());
    assert_eq!(btree_bytes(&test_btree).len(), TestBTree::max_serialized_len());

    assert_eq!(test_btree.insert(85_u8, 81237), Err(CONTENTS_FULL));
    // re-insert into full map
    assert_eq!(test_btree.insert(3_u8, 4), Ok(Some(3)));
}

#[test]
fn max_len_btree_lookup_and_removal() {
    let mut map: TestBTree = TestBTree::new();
    assert!(map.is_empty());
    assert!(map.insert(7, 70).is_ok());
    assert!(map.insert(9, 90).is_ok());
    assert!(map.contains_key(&7));
    assert!(!map.contains_key(&8));
    assert_eq!(map.get(&9), Some(&90));
    assert_eq!(map.get(&8), None);
    if let Some(v) = map.get_mut(&7) {
        *v = 71;
    }
    assert_eq!(map.get(&7), Some(&71));
    assert_eq!(map.remove(&7), Some(71));
    assert_eq!(map.remove(&7), None);
    assert_eq!(map.len(), 1);
    map.clear();
    assert!(map.is_empty());
    assert!(!map.is_full());
}

#[test]
fn max_len_btree_rejects_duplicate_keys() {
    let pairs: Vec<(u8, u32)> = vec![(1, 10), (2, 20), (1, 30)];
    assert!(TestBTree::try_from(pairs).is_err());
}

#[test]
fn max_len_string_valid_conversions() {
    let string_slice = "ASDEF";
    let max_len_string = TestString::try_from_str(string_slice).unwrap();
    assert_eq!(string_slice, max_len_string.contents());

    let string = "ASDEF".to_string();
    let max_len_string = TestString::try_from(string.clone()).unwrap();
    assert_eq!(&string, max_len_string.contents());
}

#[test]
fn max_len_string_invalid_conversions() {
    let string_slice = "ASDEFG";
    assert!(TestString::try_from_str(string_slice).is_err());

    let string = "ASDEFG".to_string();
    assert!(TestString::try_from(string).is_err());
}

#[test]
fn max_len_string_serialized_len() {
    let test_string: TestString = TestString::try_from_str("asd").unwrap();
    assert!(borsh::to_vec(test_string.contents()).unwrap().len() <= TestString::max_serialized_len());

    let test_string: TestString = TestString::try_from("asdef".to_string()).unwrap();
    assert_eq!(
        borsh::to_vec(test_string.contents()).unwrap().len(),
        TestString::max_serialized_len()
    );
}

#[test]
fn initialization() {
    assert!(TestVec::new().is_empty());
    let vec: Vec<u8> = vec![1, 2, 3, 4, 5];
    assert!(TestVec::try_from(vec).is_ok());
    let long_vec: Vec<u8> = vec![1, 2, 3, 4, 5, 6];
    assert!(TestVec::try_from(long_vec).is_err());
}

#[test]
fn dynamic_updates() {
    let mut vec = TestVec::new();
    assert_eq!(vec.get_last_element(), None);
    for i in 0..CAPACITY {
        assert!(vec.push(i as u8).is_ok());
    }
    assert_eq!(vec.len(), CAPACITY);
    assert!(vec.push(32).is_err());
    vec.cyclic_push(32);
    assert_eq!(vec.contents(), &[1, 2, 3, 4, 32][..]);
    assert_eq!(vec.get_last_element(), Some(&32));
    vec.pop();
    vec.pop();
    assert_eq!(vec.contents(), &[1, 2, 3][..]);
    vec.cyclic_push(53);
    assert_eq!(vec.contents(), &[1, 2, 3, 53][..]);
    vec.cyclic_push(23);
    vec.cyclic_push(33);
    vec.cyclic_push(73);
    assert_eq!(vec.contents(), &[3, 53, 23, 33, 73][..]);
    assert_eq!(vec.get_last_element(), Some(&73));
    assert!(vec.insert(3, 12).is_err());
    vec.pop();
    assert!(vec.insert(3, 12).is_ok());
    assert_eq!(vec.contents(), &[3, 53, 23, 12, 33][..]);
    vec.remove(2);
    assert_eq!(vec.contents(), &[3, 53, 12, 33][..]);
    vec.remove(1);
    assert_eq!(vec.contents(), &[3, 12, 33][..]);
    vec.remove(0);
    assert_eq!(vec.contents(), &[12, 33][..]);
    vec.remove(1);
    assert_eq!(vec.contents(), &[12][..]);
    vec.pop();
    assert!(vec.is_empty());
}

#[test]
fn static_updates() {
    let mut vec = TestVec::try_from(vec![3, 5, 2, 1, 4]).unwrap();
    vec.contents_mut().sort_unstable();
    assert_eq!(vec.contents(), &[1, 2, 3, 4, 5][..]);
    vec.contents_mut()[2] = 10;
    assert_eq!(vec.contents(), &[1, 2, 10, 4, 5][..]);
}

#[test]
fn max_len_vec_serialized_len() {
    let mut test_vec = TestVec::new();
    assert!(borsh::to_vec(&test_vec.contents().to_vec()).unwrap().len()
        <= TestVec::max_serialized_len());

    for i in 0..4u8 {
        assert!(test_vec.push(i).is_ok());
    }
    assert!(borsh::to_vec(&test_vec.contents().to_vec()).unwrap().len()
        <= TestVec::max_serialized_len());

    assert!(test_vec.push(4).is_ok());
    assert_eq!(
        borsh::to_vec(&test_vec.contents().to_vec()).unwrap().len(),
        TestVec::max_serialized_len()
    );
}

#[test]
fn test_derive() {
    // A struct's maximum serialized length is the sum over its fields: a
    // `u64`, an `i32`, and a sequence capped at `4 + 8 * 2` bytes.
    let something = u64::max_serialized_len() + i32::max_serialized_len();
    assert_eq!(something + 4 + 8 * 2, 32);
}

#[test]
fn serialized_lenghts() {
    let u: i64 = 234232;
    assert_eq!(borsh::to_vec(&u).unwrap().len(), i64::max_serialized_len());
}

#[test]
fn option_max_serialized_len() {
    let none: Option<u64> = None;
    assert!(borsh::to_vec(&none).unwrap().len() <= Option::<u64>::max_serialized_len());
    let none: Option<u64> = Some(15_u64);
    assert_eq!(borsh::to_vec(&none).unwrap().len(), Option::<u64>::max_serialized_len());

    // The bound of a struct holding a `u64` and an optional payload of a
    // `u64`, an `i32` and a sequence capped at twenty bytes.
    let dummy_len = u64::max_serialized_len() + i32::max_serialized_len() + 4 + 8 * 2;
    let dummy_option_len = u64::max_serialized_len() + 1 + dummy_len;

    let empty: (u64, Option<(u64, i32, Vec<u16>)>) = (u64::MAX, None);
    assert!(borsh::to_vec(&empty).unwrap().len() <= dummy_option_len);
    let full: (u64, Option<(u64, i32, Vec<u16>)>) = (u64::MAX, Some((0, 1456, vec![542; 8])));
    assert_eq!(borsh::to_vec(&full).unwrap().len(), dummy_option_len);
}

#[test]
fn phantom_data() {
    // A `u8`, an optional 32-byte key, and a phantom marker.
    let ghastly = u8::max_serialized_len() + Option::<[u8; 32]>::max_serialized_len()
        + core::marker::PhantomData::<u32>::max_serialized_len();
    assert_eq!(ghastly, 34);
    let ghastly_other = u8::max_serialized_len() + Option::<[u8; 32]>::max_serialized_len()
        + core::marker::PhantomData::<String>::max_serialized_len();
    assert_eq!(ghastly_other, 34);
}

#[test]
fn locked_items_compare_by_expiry() {
    let a = LockedItem { item: 5_u64, expires: 100 };
    let b = LockedItem { item: 9_u64, expires: 100 };
    let c = LockedItem { item: 5_u64, expires: 200 };
    assert!(a == b);
    assert!(a != c);
    assert!(a < c);
    assert!(c > b);
    assert!(!a.expired(100));
    assert!(a.expired(101));
    assert_eq!(LockedItem::<u64>::max_serialized_len(), 16);
}
