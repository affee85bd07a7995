//! The externally observed game state: board, active piece, hold and the
//! next-queue as the target presents them.

use vstd::prelude::*;

verus! {

/// What a `State` holds, as mathematical values.
pub struct StateView {
    pub columns: Seq<Seq<i16>>,
    pub current_piece: Option<u16>,
    pub hold: Option<u16>,
    pub next_queue: Seq<u16>,
}

/// A point-in-time snapshot of the target's visible game state.
#[derive(Clone, Debug)]
pub struct State {
    pub columns: Vec<Vec<i16>>,
    pub current_piece: Option<u16>,
    pub hold: Option<u16>,
    pub next_queue: Vec<u16>,
}

/// The cell values of each column.
pub open spec fn columns_view(columns: Seq<Vec<i16>>) -> Seq<Seq<i16>> {
    columns.map_values(|c: Vec<i16>| c@)
}

impl View for State {
    type V = StateView;

    open spec fn view(&self) -> StateView {
        StateView {
            columns: columns_view(self.columns@),
            current_piece: self.current_piece,
            hold: self.hold,
            next_queue: self.next_queue@,
        }
    }
}

/// The state before anything has been observed.
pub open spec fn blank_view() -> StateView {
    StateView {
        columns: Seq::empty(),
        current_piece: None,
        hold: None,
        next_queue: Seq::empty(),
    }
}

/// The active piece as the target stores it: a negative value means none.
pub open spec fn decode_piece(raw: i32) -> Option<u16> {
    if raw >= 0 {
        Some(raw as u16)
    } else {
        None
    }
}

/// The snapshot that `State::from_raw` builds from raw target values.
pub open spec fn decoded_view(
    current_piece: i32,
    hold: Option<u32>,
    columns: Seq<Seq<i32>>,
    next_queue: Seq<u32>,
) -> StateView {
    StateView {
        columns: columns.map_values(|c: Seq<i32>| c.map_values(|v: i32| v as i16)),
        current_piece: decode_piece(current_piece),
        hold: match hold {
            Some(h) => Some(h as u16),
            None => None,
        },
        next_queue: next_queue.map_values(|v: u32| v as u16),
    }
}

impl State {
    /// The state before anything has been observed.
    pub fn new_blank() -> (r: Self)
        ensures
            r@ == blank_view(),
    {
        let r = State { columns: Vec::new(), current_piece: None, hold: None, next_queue: Vec::new() };
        assert(r@.columns =~= Seq::<Seq<i16>>::empty());
        r
    }

    /// Builds a snapshot from the raw values read out of the target: the
    /// active piece (negative when none is live), the hold slot's piece if
    /// the slot is occupied, the board's cells column by column and the
    /// next-queue. Each value is truncated to the snapshot's width.
    pub fn from_raw(current_piece: i32, hold: Option<u32>, columns: &Vec<Vec<i32>>, next_queue: &Vec<u32>) -> (r: Self)
        ensures
            r@ == decoded_view(current_piece, hold, columns@.map_values(|c: Vec<i32>| c@), next_queue@),
    {
        let piece = if current_piece >= 0 {
            Some(#[verifier::truncate] (current_piece as u16))
        } else {
            None
        };
        let held = match hold {
            Some(h) => Some(#[verifier::truncate] (h as u16)),
            None => None,
        };
        let mut cols: Vec<Vec<i16>> = Vec::new();
        let mut i: usize = 0;
        while i < columns.len()
            invariant
                i <= columns@.len(),
                cols@.len() == i,
                forall|k: int| 0 <= k < i ==> #[trigger] cols@[k]@ == columns@[k]@.map_values(|v: i32| v as i16),
            decreases columns.len() - i,
        {
            let column = &columns[i];
            let mut cells: Vec<i16> = Vec::new();
            let mut j: usize = 0;
            while j < column.len()
                invariant
                    j <= column@.len(),
                    cells@ == column@.subrange(0, j as int).map_values(|v: i32| v as i16),
                decreases column.len() - j,
            {
                cells.push(#[verifier::truncate] (column[j] as i16));
                j += 1;
                assert(cells@ =~= column@.subrange(0, j as int).map_values(|v: i32| v as i16));
            }
            assert(column@.subrange(0, j as int) =~= column@);
            cols.push(cells);
            i += 1;
        }
        let mut queue: Vec<u16> = Vec::new();
        let mut j: usize = 0;
        while j < next_queue.len()
            invariant
                j <= next_queue@.len(),
                queue@ == next_queue@.subrange(0, j as int).map_values(|v: u32| v as u16),
            decreases next_queue.len() - j,
        {
            queue.push(#[verifier::truncate] (next_queue[j] as u16));
            j += 1;
            assert(queue@ =~= next_queue@.subrange(0, j as int).map_values(|v: u32| v as u16));
        }
        assert(next_queue@.subrange(0, j as int) =~= next_queue@);
        let r = State { columns: cols, current_piece: piece, hold: held, next_queue: queue };
        assert(r@.columns =~= columns@.map_values(|c: Vec<i32>| c@).map_values(
            |c: Seq<i32>| c.map_values(|v: i32| v as i16),
        ));
        assert(r@.next_queue =~= next_queue@.map_values(|v: u32| v as u16));
        r
    }

    /// A copy holding the same values.
    pub fn duplicate(&self) -> (r: Self)
        ensures
            r@ == self@,
    {
        let mut cols: Vec<Vec<i16>> = Vec::new();
        let mut i: usize = 0;
        while i < self.columns.len()
            invariant
                i <= self.columns@.len(),
                cols@.len() == i,
                forall|k: int| 0 <= k < i ==> #[trigger] cols@[k]@ == self.columns@[k]@,
            decreases self.columns.len() - i,
        {
            cols.push(copy_cells(&self.columns[i]));
            i += 1;
        }
        let r = State {
            columns: cols,
            current_piece: self.current_piece,
            hold: self.hold,
            next_queue: copy_queue(&self.next_queue),
        };
        assert(r@.columns =~= self@.columns);
        r
    }
}

fn copy_cells(v: &Vec<i16>) -> (r: Vec<i16>)
    ensures
        r@ == v@,
{
    let mut r: Vec<i16> = Vec::new();
    let mut i: usize = 0;
    while i < v.len()
        invariant
            i <= v@.len(),
            r@ == v@.subrange(0, i as int),
        decreases v.len() - i,
    {
        r.push(v[i]);
        i += 1;
        assert(r@ =~= v@.subrange(0, i as int));
    }
    assert(v@.subrange(0, i as int) =~= v@);
    r
}

fn copy_queue(v: &Vec<u16>) -> (r: Vec<u16>)
    ensures
        r@ == v@,
{
    let mut r: Vec<u16> = Vec::new();
    let mut i: usize = 0;
    while i < v.len()
        invariant
            i <= v@.len(),
            r@ == v@.subrange(0, i as int),
        decreases v.len() - i,
    {
        r.push(v[i]);
        i += 1;
        assert(r@ =~= v@.subrange(0, i as int));
    }
    assert(v@.subrange(0, i as int) =~= v@);
    r
}

/// Whether two next-queues hold the same pieces in the same order.
pub fn same_queue(a: &Vec<u16>, b: &Vec<u16>) -> (r: bool)
    ensures
        r == (a@ == b@),
{
    if a.len() != b.len() {
        return false;
    }
    let mut i: usize = 0;
    while i < a.len()
        invariant
            a@.len() == b@.len(),
            i <= a@.len(),
            forall|k: int| 0 <= k < i ==> a@[k] == b@[k],
        decreases a.len() - i,
    {
        if a[i] != b[i] {
            return false;
        }
        i += 1;
    }
    assert(a@ =~= b@);
    true
}

fn same_cells(a: &Vec<i16>, b: &Vec<i16>) -> (r: bool)
    ensures
        r == (a@ == b@),
{
    if a.len() != b.len() {
        return false;
    }
    let mut i: usize = 0;
    while i < a.len()
        invariant
            a@.len() == b@.len(),
            i <= a@.len(),
            forall|k: int| 0 <= k < i ==> a@[k] == b@[k],
        decreases a.len() - i,
    {
        if a[i] != b[i] {
            return false;
        }
        i += 1;
    }
    assert(a@ =~= b@);
    true
}

fn same_columns(a: &Vec<Vec<i16>>, b: &Vec<Vec<i16>>) -> (r: bool)
    ensures
        r == (columns_view(a@) == columns_view(b@)),
{
    if a.len() != b.len() {
        assert(columns_view(a@).len() != columns_view(b@).len());
        return false;
    }
    let mut i: usize = 0;
    while i < a.len()
        invariant
            a@.len() == b@.len(),
            i <= a@.len(),
            forall|k: int| 0 <= k < i ==> a@[k]@ == b@[k]@,
        decreases a.len() - i,
    {
        if !same_cells(&a[i], &b[i]) {
            assert(columns_view(a@)[i as int] != columns_view(b@)[i as int]);
            return false;
        }
        i += 1;
    }
    assert(columns_view(a@) =~= columns_view(b@));
    true
}

impl PartialEq for State {
    fn eq(&self, other: &State) -> (r: bool) {
        same_columns(&self.columns, &other.columns) && self.current_piece == other.current_piece
            && self.hold == other.hold && same_queue(&self.next_queue, &other.next_queue)
    }
}

impl vstd::std_specs::cmp::PartialEqSpecImpl for State {
    open spec fn obeys_eq_spec() -> bool {
        true
    }

    open spec fn eq_spec(&self, other: &State) -> bool {
        self@ == other@
    }
}

} // verus!
