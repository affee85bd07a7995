//! The target game's piece randomizer: a 32-bit linear congruential register
//! feeding a seven-piece bag shuffle.

use vstd::prelude::*;

verus! {

/// One of the seven tile shapes.
#[derive(Clone, Copy, Debug, PartialEq, Eq, Structural)]
pub enum Piece {
    S,
    Z,
    J,
    L,
    T,
    O,
    I,
}

/// Register advances performed by `PieceGenerator::new` before the first piece.
pub const WARM_UP: u32 = 1973;

/// Multiplier of the register update.
pub const LCG_MUL: u64 = 0x5D588B65;

/// Increment of the register update.
pub const LCG_ADD: u64 = 0x269EC3;

/// One register update: `r * 0x5D588B65 + 0x269EC3` modulo 2^32.
pub open spec fn lcg_step(r: u32) -> u32 {
    ((r as int * LCG_MUL as int + LCG_ADD as int) % 0x1_0000_0000) as u32
}

/// The register after `n` updates.
pub open spec fn lcg_advance(r: u32, n: nat) -> u32
    decreases n,
{
    if n == 0 {
        r
    } else {
        lcg_advance(lcg_step(r), (n - 1) as nat)
    }
}

/// The abstract generator: its register and its pending bag, stored so that
/// the next piece is the last element.
pub type GenModel = (u32, Seq<Piece>);

/// The state of a generator built from `seed` with `warm_up` discarded advances.
pub open spec fn initial_model(seed: u32, warm_up: nat) -> GenModel {
    (lcg_advance(seed, warm_up), Seq::empty())
}

/// The seven shapes in the order a fresh bag starts from.
pub open spec fn canonical_order() -> Seq<Piece> {
    seq![Piece::S, Piece::Z, Piece::J, Piece::L, Piece::T, Piece::O, Piece::I]
}

/// The position swapped with `i` at step `i` of a shuffle, `r` being the
/// register value drawn for that step: the high 16 bits of `r`, scaled by the
/// `7 - i` places left, keep their high 16 bits.
pub open spec fn swap_index(r: u32, i: int) -> int {
    i + ((r as int / 0x10000) * (7 - i)) / 0x10000
}

/// `s` with the elements at `i` and `j` exchanged.
pub open spec fn swapped(s: Seq<Piece>, i: int, j: int) -> Seq<Piece> {
    s.update(i, s[j]).update(j, s[i])
}

/// Steps `i..7` of a shuffle of `bag` starting from register `r`: the
/// shuffled bag and the register afterwards.
pub open spec fn shuffle_from(bag: Seq<Piece>, r: u32, i: nat) -> (Seq<Piece>, u32)
    decreases 7 - i,
{
    if i >= 7 {
        (bag, r)
    } else {
        let r2 = lcg_step(r);
        shuffle_from(swapped(bag, i as int, swap_index(r2, i as int)), r2, i + 1)
    }
}

/// A new bag drawn from register `r`, in the order its pieces are handed
/// out, and the register afterwards.
pub open spec fn shuffle(r: u32) -> (Seq<Piece>, u32) {
    shuffle_from(canonical_order(), r, 0)
}

/// `s` back to front.
pub open spec fn reversed(s: Seq<Piece>) -> Seq<Piece> {
    Seq::new(s.len(), |k: int| s[s.len() - 1 - k])
}

/// One draw: the piece handed out and the generator afterwards. A pending
/// bag hands out its last element; an empty one is refilled first.
pub open spec fn next_model(g: GenModel) -> (Piece, GenModel) {
    if g.1.len() > 0 {
        (g.1.last(), (g.0, g.1.drop_last()))
    } else {
        let (fwd, r) = shuffle(g.0);
        (fwd[0], (r, reversed(fwd).drop_last()))
    }
}

/// The first `n` pieces that `g` hands out.
pub open spec fn outputs(g: GenModel, n: nat) -> Seq<Piece>
    decreases n,
{
    if n == 0 {
        Seq::empty()
    } else {
        seq![next_model(g).0] + outputs(next_model(g).1, (n - 1) as nat)
    }
}

/// The generator after `n` draws.
pub open spec fn advanced(g: GenModel, n: nat) -> GenModel
    decreases n,
{
    if n == 0 {
        g
    } else {
        advanced(next_model(g).1, (n - 1) as nat)
    }
}

/// Deterministic piece sequence generator.
#[derive(Clone, Debug)]
pub struct PieceGenerator {
    rng: u32,
    pub current_bag: Vec<Piece>,
}

impl View for PieceGenerator {
    type V = GenModel;

    closed spec fn view(&self) -> GenModel {
        (self.rng, self.current_bag@)
    }
}

impl PieceGenerator {
    /// A generator for `seed`, with the register advanced `WARM_UP` times.
    pub fn new(seed: u32) -> (r: Self)
        ensures
            r@ == initial_model(seed, WARM_UP as nat),
    {
        Self::with_warm_up(seed, WARM_UP)
    }

    /// A generator for `seed`, with the register advanced `warm_up` times.
    pub fn with_warm_up(seed: u32, warm_up: u32) -> (r: Self)
        ensures
            r@ == initial_model(seed, warm_up as nat),
    {
        let mut this = PieceGenerator { rng: seed, current_bag: Vec::new() };
        let mut k: u32 = 0;
        while k < warm_up
            invariant
                k <= warm_up,
                this@ == (lcg_advance(seed, k as nat), Seq::<Piece>::empty()),
            decreases warm_up - k,
        {
            proof {
                lemma_advance_one_more(seed, k as nat);
            }
            this.rng();
            k += 1;
        }
        this
    }

    /// Hands out the next piece, refilling the bag first when it is empty.
    /// There is always a next piece.
    pub fn next(&mut self) -> (r: Option<Piece>)
        ensures
            r == Some(next_model(old(self)@).0),
            final(self)@ == next_model(old(self)@).1,
    {
        if let Some(piece) = self.current_bag.pop() {
            return Some(piece);
        }
        let mut bag: Vec<Piece> = vec![
            Piece::S,
            Piece::Z,
            Piece::J,
            Piece::L,
            Piece::T,
            Piece::O,
            Piece::I,
        ];
        let ghost r0 = self.rng;
        assert(bag@ == canonical_order());
        let mut i: u32 = 0;
        while i < 7
            invariant
                i <= 7,
                bag@.len() == 7,
                shuffle_from(bag@, self.rng, i as nat) == shuffle(r0),
                self.current_bag@.len() == 0,
            decreases 7 - i,
        {
            let r = self.rng();
            let high = r >> 16;
            assert(high == r / 0x10000) by (bit_vector)
                requires high == r >> 16;
            assert(high < 0x10000) by (bit_vector)
                requires high == r >> 16;
            assert(high * (7 - i) < 0x10000 * (7 - i)) by (nonlinear_arith)
                requires high < 0x10000, i < 7;
            let scaled = high * (7 - i);
            let offset = scaled >> 16;
            assert(offset == scaled / 0x10000) by (bit_vector)
                requires offset == scaled >> 16;
            assert(scaled / 0x10000 < 7 - i) by (nonlinear_arith)
                requires scaled < 0x10000 * (7 - i), i < 7;
            let new_index = offset + i;
            assert(new_index as int == swap_index(r, i as int));
            let ghost before = bag@;
            let a = bag[i as usize];
            let b = bag[new_index as usize];
            bag[i as usize] = b;
            bag[new_index as usize] = a;
            assert(bag@ =~= swapped(before, i as int, new_index as int));
            i += 1;
        }
        let mut stored: Vec<Piece> = Vec::new();
        let mut k: usize = 7;
        while k > 0
            invariant
                k <= 7,
                bag@.len() == 7,
                stored@ == reversed(bag@).subrange(0, 7 - k as int),
            decreases k,
        {
            k -= 1;
            stored.push(bag[k]);
        }
        self.current_bag = stored;
        self.current_bag.pop()
    }

    /// Hands out the next `n` pieces, in order.
    pub fn take(&mut self, n: usize) -> (r: Vec<Piece>)
        ensures
            r@ == outputs(old(self)@, n as nat),
            final(self)@ == advanced(old(self)@, n as nat),
    {
        let ghost g0 = self@;
        let mut taken: Vec<Piece> = Vec::new();
        let mut k: usize = 0;
        while k < n
            invariant
                k <= n,
                taken@ == outputs(g0, k as nat),
                self@ == advanced(g0, k as nat),
            decreases n - k,
        {
            proof {
                lemma_outputs_one_more(g0, k as nat);
            }
            let piece = self.next();
            taken.push(piece.unwrap());
            k += 1;
        }
        taken
    }

    /// A copy with the same register and pending bag.
    pub fn duplicate(&self) -> (r: Self)
        ensures
            r@ == self@,
    {
        let mut bag: Vec<Piece> = Vec::new();
        let mut i: usize = 0;
        while i < self.current_bag.len()
            invariant
                i <= self.current_bag@.len(),
                bag@ == self.current_bag@.subrange(0, i as int),
            decreases self.current_bag.len() - i,
        {
            bag.push(self.current_bag[i]);
            i += 1;
            assert(bag@ =~= self.current_bag@.subrange(0, i as int));
        }
        assert(self.current_bag@.subrange(0, i as int) =~= self.current_bag@);
        PieceGenerator { rng: self.rng, current_bag: bag }
    }

    /// Advances the register once and returns its new value.
    fn rng(&mut self) -> (r: u32)
        ensures
            r == lcg_step(old(self).rng),
            final(self).rng == r,
            final(self).current_bag@ == old(self).current_bag@,
    {
        let next: u64 = (self.rng as u64 * LCG_MUL + LCG_ADD) % 0x1_0000_0000;
        self.rng = next as u32;
        self.rng
    }
}

/// One more update appends one step at the end.
proof fn lemma_advance_one_more(r: u32, n: nat)
    ensures
        lcg_advance(r, n + 1) == lcg_step(lcg_advance(r, n)),
    decreases n,
{
    assert(lcg_advance(r, n + 1) == lcg_advance(lcg_step(r), n));
    if n > 0 {
        lemma_advance_one_more(lcg_step(r), (n - 1) as nat);
    }
}

/// One more draw appends the next piece of the generator reached so far.
pub proof fn lemma_outputs_one_more(g: GenModel, n: nat)
    ensures
        outputs(g, n + 1) == outputs(g, n).push(next_model(advanced(g, n)).0),
        advanced(g, n + 1) == next_model(advanced(g, n)).1,
    decreases n,
{
    assert(outputs(g, n + 1) == seq![next_model(g).0] + outputs(next_model(g).1, n));
    assert(advanced(g, n + 1) == advanced(next_model(g).1, n));
    if n > 0 {
        lemma_outputs_one_more(next_model(g).1, (n - 1) as nat);
        assert(outputs(g, n + 1) =~= outputs(g, n).push(next_model(advanced(g, n)).0));
    } else {
        assert(outputs(g, 1) =~= outputs(g, 0).push(next_model(g).0));
    }
}

/// A bag holds seven pieces, each shape once.
pub open spec fn is_full_bag(s: Seq<Piece>) -> bool {
    &&& s.len() == 7
    &&& s.no_duplicates()
    &&& forall|p: Piece| #[trigger] s.contains(p)
}

/// Two generators built from the same seed hand out the same pieces,
/// however many are drawn.
pub proof fn lemma_same_seed_same_pieces(a: PieceGenerator, b: PieceGenerator, seed: u32, n: nat)
    requires
        a@ == initial_model(seed, WARM_UP as nat),
        b@ == initial_model(seed, WARM_UP as nat),
    ensures
        outputs(a@, n) == outputs(b@, n),
{
}

/// From construction on, pieces come in bags: for every `k`, the pieces
/// numbered `7k` to `7k + 6` are the seven shapes, each once.
pub proof fn lemma_every_bag_is_full(seed: u32, k: nat)
    ensures
        is_full_bag(outputs(initial_model(seed, WARM_UP as nat), 7 * (k + 1)).subrange(7 * k as int, 7 * k as int + 7)),
{
    lemma_bags_from(lcg_advance(seed, WARM_UP as nat), k);
}

proof fn lemma_bags_from(r: u32, k: nat)
    ensures
        is_full_bag(outputs((r, Seq::empty()), 7 * (k + 1)).subrange(7 * k as int, 7 * k as int + 7)),
    decreases k,
{
    let fwd = shuffle(r).0;
    let r2 = shuffle(r).1;
    lemma_fresh_bag(r, 7 * k);
    lemma_shuffle_full(r);
    let all = outputs((r, Seq::empty()), 7 * (k + 1));
    assert(7 * (k + 1) == 7 + 7 * k);
    if k == 0 {
        lemma_outputs_len((r2, Seq::empty()), 0);
        assert(all.subrange(0, 7) =~= fwd);
    } else {
        let k1 = (k - 1) as nat;
        let rest = outputs((r2, Seq::empty()), 7 * k);
        lemma_outputs_len((r2, Seq::empty()), 7 * k);
        lemma_bags_from(r2, k1);
        assert(7 * (k1 + 1) == 7 * k);
        assert(all.subrange(7 * k as int, 7 * k as int + 7) =~= rest.subrange(7 * k1 as int, 7 * k1 as int + 7));
    }
}

/// A generator with an empty bag hands out a whole shuffled bag first.
proof fn lemma_fresh_bag(r: u32, n: nat)
    ensures
        outputs((r, Seq::empty()), 7 + n) == shuffle(r).0 + outputs((shuffle(r).1, Seq::empty()), n),
{
    let fwd = shuffle(r).0;
    let r2 = shuffle(r).1;
    lemma_shuffle_full(r);
    let rest = reversed(fwd).drop_last();
    assert(outputs((r, Seq::empty()), 7 + n) == seq![fwd[0]] + outputs((r2, rest), 6 + n));
    lemma_drain(r2, rest, n);
    assert(reversed(rest) =~= fwd.drop_first());
    assert(seq![fwd[0]] + (fwd.drop_first() + outputs((r2, Seq::empty()), n)) =~= fwd + outputs(
        (r2, Seq::empty()),
        n,
    ));
}

/// A pending bag is handed out back to front before the register is read.
proof fn lemma_drain(r: u32, bag: Seq<Piece>, n: nat)
    ensures
        outputs((r, bag), bag.len() + n) == reversed(bag) + outputs((r, Seq::empty()), n),
    decreases bag.len(),
{
    if bag.len() == 0 {
        assert(reversed(bag) + outputs((r, Seq::empty()), n) =~= outputs((r, Seq::empty()), n));
        assert(bag =~= Seq::<Piece>::empty());
    } else {
        let rest = bag.drop_last();
        assert(outputs((r, bag), bag.len() + n) == seq![bag.last()] + outputs(
            (r, rest),
            rest.len() + n,
        ));
        lemma_drain(r, rest, n);
        assert(reversed(bag) =~= seq![bag.last()] + reversed(rest));
        assert(seq![bag.last()] + (reversed(rest) + outputs((r, Seq::empty()), n)) =~= reversed(bag)
            + outputs((r, Seq::empty()), n));
    }
}

/// `g` hands out as many pieces as are asked for.
pub proof fn lemma_outputs_len(g: GenModel, n: nat)
    ensures
        outputs(g, n).len() == n,
    decreases n,
{
    if n > 0 {
        lemma_outputs_len(next_model(g).1, (n - 1) as nat);
    }
}

/// Every bag drawn is full.
proof fn lemma_shuffle_full(r: u32)
    ensures
        is_full_bag(shuffle(r).0),
{
    let c = canonical_order();
    assert forall|p: Piece| #[trigger] c.contains(p) by {
        match p {
            Piece::S => assert(c[0] == p),
            Piece::Z => assert(c[1] == p),
            Piece::J => assert(c[2] == p),
            Piece::L => assert(c[3] == p),
            Piece::T => assert(c[4] == p),
            Piece::O => assert(c[5] == p),
            Piece::I => assert(c[6] == p),
        }
    }
    assert(c.no_duplicates());
    lemma_shuffle_from_full(c, r, 0);
}

proof fn lemma_shuffle_from_full(bag: Seq<Piece>, r: u32, i: nat)
    requires
        is_full_bag(bag),
        i <= 7,
    ensures
        is_full_bag(shuffle_from(bag, r, i).0),
    decreases 7 - i,
{
    if i < 7 {
        let r2 = lcg_step(r);
        let j = swap_index(r2, i as int);
        lemma_swap_index_bounds(r2, i as int);
        lemma_swapped_full(bag, i as int, j);
        lemma_shuffle_from_full(swapped(bag, i as int, j), r2, i + 1);
    }
}

proof fn lemma_swap_index_bounds(r: u32, i: int)
    requires
        0 <= i < 7,
    ensures
        i <= swap_index(r, i) < 7,
{
    let high = r as int / 0x10000;
    assert(0 <= high < 0x10000);
    assert(0 <= high * (7 - i) < 0x10000 * (7 - i)) by (nonlinear_arith)
        requires 0 <= high < 0x10000, i < 7;
    assert((high * (7 - i)) / 0x10000 < 7 - i) by (nonlinear_arith)
        requires 0 <= high * (7 - i) < 0x10000 * (7 - i), i < 7;
    assert(0 <= (high * (7 - i)) / 0x10000) by (nonlinear_arith)
        requires 0 <= high * (7 - i);
}

proof fn lemma_swapped_full(s: Seq<Piece>, i: int, j: int)
    requires
        is_full_bag(s),
        0 <= i < 7,
        0 <= j < 7,
    ensures
        is_full_bag(swapped(s, i, j)),
{
    let t = swapped(s, i, j);
    assert forall|p: Piece| #[trigger] t.contains(p) by {
        assert(s.contains(p));
        let k = choose|k: int| 0 <= k < s.len() && s[k] == p;
        if k == i {
            assert(t[j] == p);
        } else if k == j {
            assert(t[i] == p);
        } else {
            assert(t[k] == p);
        }
    }
    assert forall|a: int, b: int| 0 <= a < t.len() && 0 <= b < t.len() && a != b implies t[a] != t[b] by {
        let sa = if a == i { j } else if a == j { i } else { a };
        let sb = if b == i { j } else if b == j { i } else { b };
        assert(t[a] == s[sa]);
        assert(t[b] == s[sb]);
    }
}

} // verus!
