use parrot::ui::random::Random;
use parrot::ui::textbuffer::TextBuffer;

#[test]
fn buffer_next() {
    let mut buf = TextBuffer::new();
    buf.push("a    🐇bc");

    assert_eq!("a", buf.next().unwrap());
    assert_eq!("    ", buf.next().unwrap());
    assert_eq!("🐇", buf.next().unwrap());
    assert_eq!("b", buf.next().unwrap());
    assert_eq!("c", buf.next().unwrap());
    assert!(buf.next().is_none());
}

#[test]
fn buffer_groups_only_four_spaces() {
    let mut buf = TextBuffer::new();
    buf.push("   x      ");
    let mut units = vec![];
    while let Some(unit) = buf.next() {
        units.push(unit);
    }
    assert_eq!(units, vec![" ", " ", " ", "x", "    ", " ", " "]);
}

#[test]
fn buffer_is_used_again() {
    let mut buf = TextBuffer::new();
    assert!(buf.is_empty());
    assert!(buf.next().is_none());
    buf.push("ab");
    assert!(!buf.is_empty());
    assert_eq!("a", buf.next().unwrap());
    buf.push("\n");
    assert_eq!("b", buf.next().unwrap());
    assert_eq!("\n", buf.next().unwrap());
    assert!(buf.next().is_none());
    assert!(buf.is_empty());
    buf.push("c");
    assert_eq!("c", buf.next().unwrap());
    assert!(buf.next().is_none());
}

#[test]
fn random_is_a_function_of_the_seed() {
    let mut a = Random::new(12345);
    let mut b = Random::new(12345);
    for _ in 0..100 {
        assert_eq!(a.next(20), b.next(20));
    }
}

#[test]
fn random_follows_the_three_rounds() {
    let mut state: u64 = 0x1234_5678_9abc_def0;
    let mut random = Random::new(state);
    for max in [1u64, 2, 20, 1000, u64::MAX] {
        state ^= state >> 13;
        state ^= state << 5;
        state ^= state >> 17;
        assert_eq!(random.next(max), state % max);
    }
    assert_eq!(Random::new(1).next(1_000_000), 33);
}

#[test]
fn random_stays_below_the_bound() {
    let mut random = Random::new(42);
    for _ in 0..1000 {
        assert!(random.next(7) < 7);
    }
    assert_eq!(random.next(0), 0);
    assert_eq!(random.next(1), 0);
}
