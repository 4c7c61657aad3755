use qusb::dev::Mailer;
use qusb::usb::UrbHandle;
use qusb::utils::bytes_alloc::BytesAllocator;
use qusb::utils::metrics::{Duration, Max, Min, RollingAvg};
use qusb::utils::three_key_map::{LinkResult, ThreeKeyMap};
use qusb::utils::{align, align_to_usize, cold, Counter, NoHash};

type Senders = ThreeKeyMap<u8, u8, u64, u32>;

#[test]
fn dev_remove_last_tx_works() {
    let mut mailer: Mailer<u32> = Mailer::with_capacity(0);

    mailer.insert_tx(1, 20);
    mailer.remove_by_port(&1);

    assert!(mailer.port_to_work.is_empty());
    assert!(mailer.work_line.is_empty());
}

#[test]
fn dev_remove_tx_works() {
    let mut mailer: Mailer<u32> = Mailer::with_capacity(0);

    mailer.insert_tx(1, 20);
    mailer.insert_tx(5, 20);

    mailer.remove_by_port(&1);
    let index = mailer.port_to_work.get(&5).unwrap();
    assert_eq!(*index, 0);
}

#[test]
fn utils_remove_last_tx_works() {
    let mut mailer = Senders::with_capacities(8, 8, 10, 64);

    mailer.insert_by_key1(1, 20);
    mailer.remove_by_key1(&1);

    assert!(mailer.is_empty());
}

#[test]
fn utils_remove_tx_works() {
    let mut mailer = Senders::with_capacities(4, 4, 6, 32);

    mailer.insert_by_key1(1, 20);
    mailer.insert_by_key1(5, 20);

    mailer.remove_by_key1(&1);
    let index = mailer.key1_map.get(&5).unwrap();
    assert_eq!(*index, 0);
}

#[test]
fn align_zero_to_zero() {
    assert_eq!(align_to_usize(0), 0);
}

#[test]
fn align_seven_to_eight() {
    assert_eq!(align_to_usize(7), 8);
}

#[test]
fn align_eight_to_eight() {
    assert_eq!(align_to_usize(8), 8);
}

#[test]
fn align_to_cache() {
    assert_eq!(align(0, 64), 0);
    assert_eq!(align(3, 64), 64);
}

#[test]
fn align_past_a_multiple() {
    assert_eq!(align(65, 64), 128);
    assert_eq!(align_to_usize(9), 16);
    assert_eq!(align_to_usize(align_to_usize(13)), 16);
}

#[test]
fn mailer_links_blocks_to_ports() {
    let mut mailer: Mailer<u32> = Mailer::with_capacity(4);
    mailer.insert_tx(1, 100);
    mailer.insert_tx(2, 200);
    assert!(mailer.link_handle_to_port(UrbHandle(0x4000), 2));
    assert!(!mailer.link_handle_to_port(UrbHandle(0x4000), 1));
    assert!(!mailer.link_handle_to_port(UrbHandle(0x5000), 3));
    assert_eq!(mailer.get_tx_from_handle(UrbHandle(0x4000)), Some(200));
    mailer.remove_by_port(&1);
    assert_eq!(mailer.get_tx_from_handle(UrbHandle(0x4000)), Some(200));
    assert_eq!(mailer.get_tx_from_port(2), Some(200));
    assert_eq!(mailer.get_tx_from_port(1), None);
    assert!(mailer.unlink_handle_from_port(&UrbHandle(0x4000)));
    assert!(!mailer.contains_handle(&UrbHandle(0x4000)));
    mailer.remove_by_tx(|tx: &u32| *tx == 200);
    assert!(!mailer.contains_port(&2));
    assert!(mailer.ports().is_empty());
}

#[test]
fn a_port_takes_its_own_sender_along() {
    let mut mailer: Mailer<u32> = Mailer::with_capacity(4);
    // the senders are alike, and yet each port has its own
    mailer.insert_tx(1, 7);
    mailer.insert_tx(2, 7);
    mailer.insert_tx(3, 9);
    mailer.link_handle_to_port(UrbHandle(10), 1);
    mailer.link_handle_to_port(UrbHandle(20), 2);
    mailer.link_handle_to_port(UrbHandle(30), 3);
    mailer.remove_by_port(&1);
    assert_eq!(mailer.get_tx_from_port(1), None);
    assert_eq!(mailer.get_tx_from_port(2), Some(7));
    assert_eq!(mailer.get_tx_from_port(3), Some(9));
    assert_eq!(mailer.get_tx_from_handle(UrbHandle(10)), None);
    assert_eq!(mailer.get_tx_from_handle(UrbHandle(20)), Some(7));
    assert_eq!(mailer.get_tx_from_handle(UrbHandle(30)), Some(9));
}

#[test]
fn three_keys_share_a_value() {
    let mut m = Senders::with_capacities(4, 4, 4, 4);
    assert_eq!(m.insert_by_key1(1, 10), None);
    assert_eq!(m.insert_by_key1(2, 20), None);
    assert_eq!(m.link_key2_to_key1(7, &2), LinkResult::Success);
    assert_eq!(m.link_key3_to_key2(70, &7), LinkResult::Success);
    assert_eq!(
        m.link_key3_to_key2(70, &7),
        LinkResult::NewKeyAlreadyExists
    );
    assert_eq!(
        m.link_key3_to_key1(71, &9),
        LinkResult::ExistingKeyDoesNotExist
    );
    assert_eq!(m.get_by_key3(&70), Some(&20));
    // the value goes with its last key
    assert_eq!(m.remove_by_key1(&2), None);
    assert_eq!(m.get_by_key2(&7), Some(&20));
    assert_eq!(m.remove_by_key2(&7), None);
    assert_eq!(m.remove_by_key3(&70), Some(20));
    assert_eq!(m.get_by_key1(&1), Some(&10));
    assert_eq!(m.remove_by_key1(&1), Some(10));
    assert!(m.is_empty());
}

#[test]
fn a_value_goes_with_its_last_key_in_any_order() {
    let orders: [[u8; 3]; 6] = [
        [1, 2, 3],
        [1, 3, 2],
        [2, 1, 3],
        [2, 3, 1],
        [3, 1, 2],
        [3, 2, 1],
    ];
    for order in orders {
        let mut m = Senders::with_capacities(1, 1, 1, 1);
        m.insert_by_key3(30, 7);
        m.insert_by_key1(99, 8);
        m.link_key1_to_key3(10, &30);
        m.link_key2_to_key1(20, &10);
        let gone: Vec<Option<u32>> = order
            .iter()
            .map(|n| match n {
                1 => m.remove_by_key1(&10),
                2 => m.remove_by_key2(&20),
                _ => m.remove_by_key3(&30),
            })
            .collect();
        assert_eq!(gone, vec![None, None, Some(7)]);
        assert_eq!(m.get_by_key1(&99), Some(&8));
    }
}

#[test]
fn three_keys_keep_only_the_first() {
    let mut m = Senders::with_capacities(4, 4, 4, 4);
    m.insert_by_key1(1, 10);
    m.link_key2_to_key1(7, &1);
    m.link_key3_to_key1(70, &1);
    m.unlink_all_but_key1(&1);
    assert_eq!(m.get_by_key1(&1), Some(&10));
    assert_eq!(m.get_by_key2(&7), None);
    assert_eq!(m.get_by_key3(&70), None);
    assert_eq!(m.key1_iter(), vec![1]);
    // the value still counts the keys that it had
    assert_eq!(m.remove_by_key1(&1), None);
    assert_eq!(m.values, vec![(10, 2)]);
}

#[test]
fn every_key_finds_its_way() {
    let mut m = Senders::with_capacities(1, 1, 1, 1);
    m.insert_by_key2(2, 5);
    assert_eq!(m.link_key1_to_key2(1, &2), LinkResult::Success);
    assert_eq!(m.link_key1_to_key1(11, &1), LinkResult::Success);
    assert_eq!(m.link_key2_to_key2(12, &2), LinkResult::Success);
    m.insert_by_key3(3, 6);
    assert_eq!(m.link_key1_to_key3(13, &3), LinkResult::Success);
    assert_eq!(m.link_key2_to_key3(14, &3), LinkResult::Success);
    assert_eq!(m.link_key3_to_key3(15, &3), LinkResult::Success);
    assert_eq!(m.link_key3_to_key1(16, &11), LinkResult::Success);
    assert_eq!(m.get_by_key1(&11), Some(&5));
    assert_eq!(m.get_by_key2(&12), Some(&5));
    assert_eq!(m.get_by_key1(&13), Some(&6));
    assert_eq!(m.get_by_key2(&14), Some(&6));
    assert_eq!(m.get_by_key3(&15), Some(&6));
    assert_eq!(m.get_by_key3(&16), Some(&5));
}

#[test]
fn counter_gives_what_it_had() {
    let mut c = Counter::new(4);
    assert_eq!(c.increment(), 4);
    assert_eq!(c.increment(), 5);
    assert_eq!(cold(7), 7);
    assert_eq!(NoHash(3).0, 3);
}

#[test]
fn allocator_hands_out_empty_room() {
    let mut a = BytesAllocator::with_capacity(2);
    let first = a.reserve(100);
    let second = a.reserve(65536);
    let third = a.reserve(70000);
    assert_eq!(first.len(), 100);
    assert_eq!(second.len(), 65536);
    assert_eq!(third.len(), 70000);
}

fn nanos(nanos: u128) -> Duration {
    Duration { nanos }
}

#[test]
fn max_keeps_the_largest() {
    let mut m: Max<2, char> = Max::new();
    assert!(m.is_empty());
    m.push(nanos(5), 'a');
    m.push(nanos(9), 'b');
    m.push(nanos(7), 'c');
    assert_eq!(m.len(), 2);
    // what is smaller than all that is kept does not stay
    m.push(nanos(1), 'd');
    assert_eq!(m.len(), 2);
    // what is there already takes no room
    m.push(nanos(9), 'e');
    assert_eq!(m.len(), 2);
    let mut none: Max<0, char> = Max::new();
    none.push(nanos(1), 'x');
    assert!(none.is_empty());
}

#[test]
fn min_keeps_the_smallest() {
    let mut m: Min<2> = Min::new();
    assert!(m.is_empty());
    m.push(nanos(5));
    m.push(nanos(9));
    m.push(nanos(7));
    assert_eq!(m.len(), 2);
    m.push(nanos(5));
    assert_eq!(m.len(), 2);
    let mut none: Min<0> = Min::new();
    none.push(nanos(1));
    assert!(none.is_empty());
}

#[test]
fn as_many_are_kept_as_there_are() {
    let mut max: Max<3, usize> = Max::new();
    let mut min: Min<3> = Min::new();
    let lens: Vec<(usize, usize)> = [4, 4, 1, 9, 1, 6, 2]
        .iter()
        .enumerate()
        .map(|(i, n)| {
            max.push(nanos(*n), i);
            min.push(nanos(*n));
            (max.len(), min.len())
        })
        .collect();
    assert_eq!(
        lens,
        vec![(1, 1), (1, 1), (2, 2), (3, 3), (3, 3), (3, 3), (3, 3)]
    );
    assert!(!max.is_empty());
    assert!(!min.is_empty());
    // neither the order nor how often something is pushed matters
    let mut reordered: Min<3> = Min::new();
    for n in [9, 6, 2, 1, 1, 4] {
        reordered.push(nanos(n));
    }
    assert_eq!(reordered.len(), min.len());
}

#[test]
fn mean_is_of_the_last() {
    let mut avg: RollingAvg<3, Duration> = RollingAvg::new();
    assert_eq!(avg.mean(), None);
    assert!(avg.is_empty());
    for n in [100, 1, 2, 4] {
        avg.push(nanos(n));
    }
    assert_eq!(avg.len(), 3);
    assert_eq!(avg.mean(), Some(nanos(2)));
    let room: RollingAvg<3, Duration> = RollingAvg::preallocated();
    assert!(room.is_empty());
}

#[test]
fn the_last_are_kept() {
    let mut avg: RollingAvg<3, usize> = RollingAvg::new();
    let means: Vec<Option<usize>> = [9, 1, 2, 6, 4]
        .iter()
        .map(|n| {
            avg.push(*n);
            avg.mean()
        })
        .collect();
    assert_eq!(means, vec![Some(9), Some(5), Some(4), Some(3), Some(4)]);
    // the last one is kept in any case
    let mut last: RollingAvg<0, usize> = RollingAvg::new();
    assert_eq!(last.mean(), None);
    last.push(3);
    last.push(8);
    assert_eq!(last.len(), 1);
    assert_eq!(last.mean(), Some(8));
}

#[test]
fn there_may_be_room_for_any_number() {
    let mut max: Max<{ usize::MAX }, ()> = Max::new();
    let mut min: Min<{ usize::MAX }> = Min::new();
    for n in [3, 1, 3] {
        max.push(nanos(n), ());
        min.push(nanos(n));
    }
    assert_eq!(max.len(), 2);
    assert_eq!(min.len(), 2);
}
