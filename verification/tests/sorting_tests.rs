use panama::sorting::{QuickSort, SelectionSort, Sorter};

#[test]
fn quicksort_it_works() {
    let mut things = vec![4, 2, 5, 3, 1, 6, 7, 8, 9];
    QuickSort.sort(&mut things);
    assert_eq!(things, vec![1, 2, 3, 4, 5, 6, 7, 8, 9]);
}

#[test]
fn selectionsort_it_works() {
    let mut things = vec![4, 2, 5, 3, 1];
    SelectionSort.sort(&mut things);
    assert_eq!(things, vec![1, 2, 3, 4, 5]);
}

#[test]
fn quicksort_empty_and_single() {
    let mut empty: Vec<u64> = vec![];
    QuickSort.sort(&mut empty);
    assert_eq!(empty, Vec::<u64>::new());
    let mut one = vec![9];
    QuickSort.sort(&mut one);
    assert_eq!(one, vec![9]);
}

#[test]
fn quicksort_keeps_duplicates() {
    let mut things = vec![3, 1, 3, 1, 2, 2];
    QuickSort.sort(&mut things);
    assert_eq!(things, vec![1, 1, 2, 2, 3, 3]);
}

#[test]
fn selectionsort_keeps_duplicates() {
    let mut things = vec![5, 5, 0, 0, 5];
    SelectionSort.sort(&mut things);
    assert_eq!(things, vec![0, 0, 5, 5, 5]);
}

#[test]
fn quicksort_reversed_input() {
    let mut things = vec![9, 8, 7, 6, 5, 4, 3, 2, 1];
    QuickSort.sort(&mut things);
    assert_eq!(things, vec![1, 2, 3, 4, 5, 6, 7, 8, 9]);
}
