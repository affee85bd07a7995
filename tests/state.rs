use ppt_sync::state::State;

#[test]
fn blank_state_is_empty() {
    let s = State::new_blank();
    assert!(s.columns.is_empty());
    assert_eq!(s.current_piece, None);
    assert_eq!(s.hold, None);
    assert!(s.next_queue.is_empty());
}

#[test]
fn equality_compares_every_field() {
    let a = State { columns: vec![vec![1, 2], vec![3]], current_piece: Some(1), hold: Some(2), next_queue: vec![1, 2] };
    assert!(a == a.clone());
    assert!(a == a.duplicate());
    let mut b = a.clone();
    b.columns[1][0] = 4;
    assert!(a != b);
    let mut c = a.clone();
    c.current_piece = None;
    assert!(a != c);
    let mut d = a.clone();
    d.hold = Some(3);
    assert!(a != d);
    let mut e = a.clone();
    e.next_queue.push(0);
    assert!(a != e);
    let mut f = a.clone();
    f.columns.push(vec![]);
    assert!(a != f);
}

#[test]
fn from_raw_decodes_values() {
    let s = State::from_raw(3, Some(0x1_0005), &vec![vec![0, -1, 40000], vec![7]], &vec![1, 2, 0x2_0006]);
    assert_eq!(s.current_piece, Some(3));
    assert_eq!(s.hold, Some(5));
    assert_eq!(s.columns, vec![vec![0, -1, -25536], vec![7]]);
    assert_eq!(s.next_queue, vec![1, 2, 6]);
}

#[test]
fn from_raw_negative_piece_is_none() {
    let s = State::from_raw(-1, None, &vec![], &vec![]);
    assert_eq!(s.current_piece, None);
    assert_eq!(s.hold, None);
    assert!(s == State::new_blank());
    assert_eq!(State::from_raw(70000, None, &vec![], &vec![]).current_piece, Some(4464));
}
