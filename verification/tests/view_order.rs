use brush::view_order::ViewOrder;

#[test]
fn every_epoch_visits_each_view_once() {
    let mut o = ViewOrder::new(7, 42);
    for _ in 0..5 {
        let mut seen: Vec<usize> = (0..7).map(|_| o.next_view()).collect();
        seen.sort();
        assert_eq!(seen, (0..7).collect::<Vec<usize>>());
    }
}

#[test]
fn single_view() {
    let mut o = ViewOrder::new(1, 0);
    for _ in 0..4 {
        assert_eq!(o.next_view(), 0);
    }
}

#[test]
fn same_seed_same_order() {
    let mut a = ViewOrder::new(20, 9);
    let mut b = ViewOrder::new(20, 9);
    let va: Vec<usize> = (0..60).map(|_| a.next_view()).collect();
    let vb: Vec<usize> = (0..60).map(|_| b.next_view()).collect();
    assert_eq!(va, vb);
}
