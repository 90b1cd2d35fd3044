use kdb::{symbol, KBox, List, Runtime, Second};

fn one_to_ten(rt: &mut Runtime) -> KBox<List<i32>> {
    let v: Vec<i32> = (1..=10i32).collect();
    KBox::<List<i32>>::from_slice(rt, &v)
}

#[test]
fn lists_len_returns_number_of_elements() {
    let mut rt = Runtime::new();
    let mut list = KBox::<List<i32>>::new_list(&mut rt);
    list.push(&mut rt, 1);
    list.push(&mut rt, 2);
    assert_eq!(2, list.as_ref().len(&rt));
}

#[test]
fn lists_len_returns_0_for_new_list() {
    let mut rt = Runtime::new();
    let list = KBox::<List<i32>>::new_list(&mut rt);
    assert_eq!(0, list.as_ref().len(&rt));
}

#[test]
fn lists_iter_over_empty_returns_no_elements() {
    let mut rt = Runtime::new();
    let list = KBox::<List<i32>>::new_list(&mut rt);
    assert_eq!(Vec::<i32>::new(), list.as_ref().as_slice(&rt));
}

#[test]
fn lists_push_adds_a_single_element_to_the_list() {
    let mut rt = Runtime::new();
    let mut list = KBox::<List<i32>>::new_list(&mut rt);
    list.push(&mut rt, 2);
    assert_eq!((1, 2), (list.as_ref().len(&rt), list.as_ref().as_slice(&rt)[0]));
}

#[test]
fn lists_iter_returns_all_elements() {
    let mut rt = Runtime::new();
    let mut list = KBox::<List<i32>>::new_list(&mut rt);
    list.push(&mut rt, 1);
    list.push(&mut rt, 2);
    assert_eq!(vec![1, 2], list.as_ref().as_slice(&rt));
}

#[test]
fn lists_collect_creates_collection() {
    let mut rt = Runtime::new();
    let list = one_to_ten(&mut rt);
    assert_eq!((1..=10).collect::<Vec<i32>>(), list.as_ref().as_slice(&rt));
}

#[test]
fn lists_extend_merges_two_lists_together() {
    let mut rt = Runtime::new();
    let a: Vec<i32> = (1..=5i32).collect();
    let b: Vec<i32> = (6..=10i32).collect();
    let mut list = KBox::<List<i32>>::from_slice(&mut rt, &a);
    let list_2 = KBox::<List<i32>>::from_slice(&mut rt, &b);
    list.join(&mut rt, list_2);
    assert_eq!((1..=10).collect::<Vec<i32>>(), list.as_ref().as_slice(&rt));
}

#[test]
fn index_rangefull_converts_list_to_slice() {
    let mut rt = Runtime::new();
    let list = one_to_ten(&mut rt);
    let slice = list.as_ref().as_slice(&rt);
    let expected: Vec<_> = (1..=10i32).collect();
    assert_eq!(&expected[..], &slice[..]);
}

#[test]
fn index_range_converts_list_to_slice() {
    let mut rt = Runtime::new();
    let list = one_to_ten(&mut rt);
    let slice = list.as_ref().as_slice(&rt);
    let expected: Vec<_> = (1..=10i32).collect();
    assert_eq!(&expected[1..5], &slice[1..5]);
}

#[test]
fn index_rangeto_converts_list_to_slice() {
    let mut rt = Runtime::new();
    let list = one_to_ten(&mut rt);
    let slice = list.as_ref().as_slice(&rt);
    let expected: Vec<_> = (1..=10i32).collect();
    assert_eq!(&expected[..5], &slice[..5]);
}

#[test]
fn index_rangefrom_converts_list_to_slice() {
    let mut rt = Runtime::new();
    let list = one_to_ten(&mut rt);
    let slice = list.as_ref().as_slice(&rt);
    let expected: Vec<_> = (1..=10i32).collect();
    assert_eq!(&expected[5..], &slice[5..]);
}

#[test]
fn lists_index_usize_returns_item() {
    let mut rt = Runtime::new();
    let list = one_to_ten(&mut rt);
    assert_eq!(Some(6), list.as_ref().get(&rt, 5));
}

#[test]
fn list_macro_creates_lists() {
    let mut rt = Runtime::new();
    let rt = &mut rt;
    let sum_u8: u8 = KBox::<List<u8>>::from_slice(rt, &[1, 2, 3]).as_ref().as_slice(rt).iter().copied().sum();
    assert_eq!(6u8, sum_u8);
    let sum_i8: i8 = KBox::<List<i8>>::from_slice(rt, &[1, 2, 3]).as_ref().as_slice(rt).iter().copied().sum();
    assert_eq!(6i8, sum_i8);
    let sum_i16: i16 = KBox::<List<i16>>::from_slice(rt, &[1i16, 2i16, 3i16]).as_ref().as_slice(rt).iter().copied().sum();
    assert_eq!(6i16, sum_i16);
    let sum_i32: i32 = KBox::<List<i32>>::from_slice(rt, &[1, 2, 3]).as_ref().as_slice(rt).iter().copied().sum();
    assert_eq!(6i32, sum_i32);
    let sum_i64: i64 = KBox::<List<i64>>::from_slice(rt, &[1, 2, 3]).as_ref().as_slice(rt).iter().copied().sum();
    assert_eq!(6i64, sum_i64);
    assert_eq!(
        vec![true, false, true],
        KBox::<List<bool>>::from_slice(rt, &[true, false, true]).as_ref().as_slice(rt)
    );
    assert_eq!(
        vec![Second::new(1), Second::new(2), Second::new(3)],
        KBox::<List<Second>>::from_slice(rt, &[Second::new(1), Second::new(2), Second::new(3)]).as_ref().as_slice(rt)
    );
    let hello = symbol(rt, "Hello");
    let world = symbol(rt, "World");
    assert_eq!(
        vec![symbol(rt, "Hello"), symbol(rt, "World")],
        KBox::<List<kdb::Symbol>>::from_slice(rt, &[hello, world]).as_ref().as_slice(rt)
    );
}

#[test]
fn pushing_ten_values_keeps_order_across_moves() {
    let mut rt = Runtime::new();
    let mut list = KBox::<List<i32>>::new_list(&mut rt);
    let first = list.as_raw();
    for i in 1..=10 {
        list.push(&mut rt, i);
    }
    assert_eq!(10, list.as_ref().len(&rt));
    assert_eq!((1..=10).collect::<Vec<i32>>(), list.as_ref().as_slice(&rt));
    // the list outgrew its first buffer, so it moved, and its first slot was freed
    assert_ne!(first, list.as_raw());
    assert!(!rt.is_live(first));
    assert_eq!(1, rt.ref_count(list.as_raw()));
}

#[test]
fn join_concatenates_and_frees_the_second_list() {
    let mut rt = Runtime::new();
    let mut a = KBox::<List<i32>>::from_slice(&mut rt, &[1, 2, 3]);
    let b = KBox::<List<i32>>::from_slice(&mut rt, &[4, 5]);
    let bk = b.as_raw();
    a.join(&mut rt, b);
    assert_eq!(vec![1, 2, 3, 4, 5], a.as_ref().as_slice(&rt));
    assert_eq!(5, a.as_ref().len(&rt));
    assert!(!rt.is_live(bk));
}

#[test]
fn from_slice_of_three_has_length_three() {
    let mut rt = Runtime::new();
    let l = KBox::<List<i32>>::from_slice(&mut rt, &[1, 2, 3]);
    assert_eq!(3, l.as_ref().len(&rt));
    assert!(!l.as_ref().is_empty(&rt));
    assert_eq!(None, l.as_ref().get(&rt, 3));
}

#[test]
fn extend_appends_in_order() {
    let mut rt = Runtime::new();
    let mut l = KBox::<List<i64>>::from_slice(&mut rt, &[1]);
    l.extend(&mut rt, &[2, 3, 4, 5, 6]);
    assert_eq!(vec![1i64, 2, 3, 4, 5, 6], l.as_ref().as_slice(&rt));
}

#[test]
fn set_overwrites_one_element() {
    let mut rt = Runtime::new();
    let l = KBox::<List<i32>>::from_slice(&mut rt, &[1, 2, 3]);
    l.as_ref().set(&mut rt, 1, 20);
    assert_eq!(vec![1, 20, 3], l.as_ref().as_slice(&rt));
}

#[test]
fn from_slice_does_not_move_the_list() {
    let mut rt = Runtime::new();
    let before = rt.slot_count();
    let l = KBox::<List<i32>>::from_slice(&mut rt, &[1, 2, 3, 4, 5, 6, 7, 8, 9]);
    assert_eq!(before, l.as_raw());
    assert_eq!(before + 1, rt.slot_count());
}

#[test]
fn symbol_list_from_texts() {
    let mut rt = Runtime::new();
    let l = KBox::<List<kdb::Symbol>>::from_strs(&mut rt, &["Hello", "World", "Hello"]);
    let syms = l.as_ref().as_slice(&rt);
    assert_eq!(3, syms.len());
    assert_eq!(syms[0], syms[2]);
    assert_eq!(Ok("World"), syms[1].try_as_str(&rt));
}
