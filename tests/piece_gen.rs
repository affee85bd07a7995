use ppt_sync::piece_gen::{Piece, PieceGenerator};

fn letters(pieces: &[Piece]) -> String {
    pieces
        .iter()
        .map(|p| match p {
            Piece::S => 'S',
            Piece::Z => 'Z',
            Piece::J => 'J',
            Piece::L => 'L',
            Piece::T => 'T',
            Piece::O => 'O',
            Piece::I => 'I',
        })
        .collect()
}

fn first(seed: u32, n: usize) -> String {
    letters(&PieceGenerator::new(seed).take(n))
}

#[test]
fn golden_sequences() {
    assert_eq!(first(0, 14), "SIZLTOJLTJZSOI");
    assert_eq!(first(1, 14), "TJILZOSILTJZOS");
    assert_eq!(first(42, 14), "ITLZSOJJLIZSTO");
    assert_eq!(first(12345, 14), "LJISZTOLJOTZSI");
    assert_eq!(first(65535, 14), "ITLOSZJTZLIOJS");
    assert_eq!(first(u32::MAX, 14), "TLJZOSIZITOJLS");
}

#[test]
fn same_seed_same_sequence() {
    for seed in [0u32, 7, 42, 1_000_000, u32::MAX] {
        let mut a = PieceGenerator::new(seed);
        let mut b = PieceGenerator::new(seed);
        for _ in 0..500 {
            assert_eq!(a.next(), b.next());
        }
    }
}

#[test]
fn next_always_yields() {
    let mut g = PieceGenerator::new(3);
    for _ in 0..100 {
        assert!(g.next().is_some());
    }
}

#[test]
fn every_bag_holds_each_shape_once() {
    for seed in [0u32, 1, 42, 99_999, u32::MAX] {
        let pieces = PieceGenerator::new(seed).take(7 * 50);
        for bag in pieces.chunks(7) {
            let mut seen = letters(bag).chars().collect::<Vec<_>>();
            seen.sort();
            assert_eq!(seen.into_iter().collect::<String>(), "IJLOSTZ");
        }
    }
}

#[test]
fn warm_up_count_matters() {
    for seed in [0u32, 1, 42, 12345, 65535, u32::MAX] {
        let expected = PieceGenerator::new(seed).take(14);
        assert_eq!(PieceGenerator::with_warm_up(seed, 1973).take(14), expected);
        assert_ne!(PieceGenerator::with_warm_up(seed, 1972).take(14), expected);
        assert_ne!(PieceGenerator::with_warm_up(seed, 1974).take(14), expected);
        assert_ne!(PieceGenerator::with_warm_up(seed, 0).take(14), expected);
    }
}

#[test]
fn take_continues_where_it_left() {
    let mut g = PieceGenerator::new(42);
    let a = g.take(5);
    let b = g.take(9);
    assert_eq!(letters(&a) + &letters(&b), "ITLZSOJJLIZSTO");
}

#[test]
fn duplicate_continues_identically() {
    let mut g = PieceGenerator::new(42);
    g.take(3);
    let mut d = g.duplicate();
    assert_eq!(g.take(20), d.take(20));
}

#[test]
fn take_zero_is_empty() {
    let mut g = PieceGenerator::new(42);
    assert!(g.take(0).is_empty());
    assert_eq!(letters(&g.take(1)), "I");
}
