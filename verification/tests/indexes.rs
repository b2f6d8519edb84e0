use rusterio::Indexes;

#[test]
fn listed_indexes_are_kept_as_listed() {
    let indexes = Indexes::from([4, 0, 10]);
    assert_eq!(indexes.indexes_from(12), vec![4, 0, 10]);
    let indexes = Indexes::from(([2, 1], false));
    assert_eq!(indexes.indexes_from(3), vec![2, 1]);
    let indexes = Indexes::new(vec![1, 1], false);
    assert_eq!(indexes.indexes_from(3), vec![1, 1]);
}

#[test]
fn dropped_indexes_leave_the_others_in_ascending_order() {
    let indexes = Indexes::from(([3, 0], true));
    assert_eq!(indexes.indexes_from(5), vec![1, 2, 4]);
    let indexes = Indexes::from(([7, 1, 1], true));
    assert_eq!(indexes.indexes_from(3), vec![0, 2]);
    let indexes = Indexes::from(([0, 1, 2], true));
    assert_eq!(indexes.indexes_from(3), Vec::<usize>::new());
}

#[test]
fn all_selects_every_index() {
    assert_eq!(Indexes::all().indexes_from(4), vec![0, 1, 2, 3]);
    assert_eq!(Indexes::all().indexes_from(0), Vec::<usize>::new());
    assert_eq!(Indexes::from(([], true)).indexes_from(2), vec![0, 1]);
}

#[test]
fn ranges_select_their_indexes() {
    assert_eq!(Indexes::from(0usize..6).indexes_from(10), vec![0, 1, 2, 3, 4, 5]);
    assert_eq!(Indexes::from((2usize..4, false)).indexes_from(10), vec![2, 3]);
    assert_eq!(Indexes::from((1usize..3, true)).indexes_from(5), vec![0, 3, 4]);
    assert_eq!(Indexes::from(3usize..3).indexes_from(5), Vec::<usize>::new());
    assert_eq!(Indexes::from(4usize..2).indexes_from(5), Vec::<usize>::new());
}

#[test]
fn select_from_picks_the_items() {
    let items = vec!['a', 'b', 'c', 'd'];
    assert_eq!(Indexes::from([3, 0]).select_from(items.clone()), vec!['d', 'a']);
    assert_eq!(Indexes::from(([1], true)).select_from(items.clone()), vec!['a', 'c', 'd']);
    assert_eq!(Indexes::all().select_from(items), vec!['a', 'b', 'c', 'd']);
}

#[test]
fn a_selection_can_be_used_twice() {
    let indexes = Indexes::from([1, 2]);
    let again = indexes.clone();
    assert_eq!(indexes.indexes_from(3), again.indexes_from(3));
}

#[test]
fn what_is_left_of_many_indexes_comes_out_sorted() {
    let dropped: Vec<usize> = (0..1000).filter(|i| i % 7 == 3).collect();
    let expected: Vec<usize> = (0..1000).filter(|i| i % 7 != 3).collect();
    let indexes = Indexes::new(dropped, true);
    assert_eq!(indexes.selection().len(), 143);
    assert!(indexes.drops());
    assert_eq!(indexes.indexes_from(1000), expected);
}
