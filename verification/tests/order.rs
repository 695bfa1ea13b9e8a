use flashquiz::order::places;

#[test]
fn no_places_for_no_words() {
    assert_eq!(places(0), Vec::<usize>::new());
}

#[test]
fn one_place_for_one_word() {
    assert_eq!(places(1), vec![0]);
}

#[test]
fn places_come_in_turn() {
    assert_eq!(places(5), vec![0, 1, 2, 3, 4]);
}

#[test]
fn there_are_as_many_places_as_asked_for() {
    let order = places(1000);
    assert_eq!(order.len(), 1000);
    for (at, place) in order.iter().enumerate() {
        assert_eq!(*place, at);
    }
}
