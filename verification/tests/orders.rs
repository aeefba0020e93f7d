use belote::order::Order;
use belote::position::Position;
use belote::team::Team;

#[test]
fn order_tests() {
    let order1 = Order::default();
    assert!(order1.get(0) == Position::North);
    assert!(order1.get(1) == Position::East);
    assert!(order1.get(2) == Position::South);
    assert!(order1.get(3) == Position::West);

    let mut order2 = Order::default();
    order2.rotate();
    assert!(order2.get(0) == Position::East);
    assert!(order2.get(1) == Position::South);
    assert!(order2.get(2) == Position::West);
    assert!(order2.get(3) == Position::North);
}

#[test]
fn random_order_is_a_rotation() {
    for _ in 0..20 {
        let order = Order::random();
        let first = order.get(0);
        assert_eq!(order.get(1), first.next());
        assert_eq!(order.get(2), first.next().next());
        assert_eq!(order.get(3), first.next().next().next());
    }
}

#[test]
fn seats_and_teams() {
    assert_eq!(Position::North.team(), Team::NorthSouth);
    assert_eq!(Position::South.team(), Team::NorthSouth);
    assert_eq!(Position::East.team(), Team::WestEast);
    assert_eq!(Position::West.team(), Team::WestEast);
    assert_eq!(Team::NorthSouth.other(), Team::WestEast);
    assert_eq!(Team::WestEast.other(), Team::NorthSouth);
    assert_eq!(Position::North.next(), Position::East);
    assert_eq!(Position::East.next(), Position::South);
    assert_eq!(Position::South.next(), Position::West);
    assert_eq!(Position::West.next(), Position::North);
}
