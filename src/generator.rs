use vstd::prelude::*;
use crate::piece::{Color, Piece, PieceKind};
use crate::modifier::{Modifier, ModifierSet};

verus! {

/// The piece kind that a die value selects, from the value modulo 100:
/// Pawn below 34, Bishop below 54, Knight below 74, Rook below 90, else Queen.
pub open spec fn kind_for_roll(a: u64) -> PieceKind {
    let v = a % 100;
    if v < 34 {
        PieceKind::Pawn
    } else if v < 54 {
        PieceKind::Bishop
    } else if v < 74 {
        PieceKind::Knight
    } else if v < 90 {
        PieceKind::Rook
    } else {
        PieceKind::Queen
    }
}

/// The modifier that the two dice `a` (piece kind) and `b` (modifier kind)
/// give to `recipient`. The value of `b` modulo 100 selects King-of-the-Hill
/// below 10, Atomic below 28, CrazyHouse below 46, Extinction below 64, Sniper
/// below 82, else Triple-Check. Atomic, Sniper and Triple-Check take the
/// recipient's color; CrazyHouse and Extinction take the opponent's.
pub open spec fn modifier_for_rolls(recipient: Color, a: u64, b: u64) -> Modifier {
    let v = b % 100;
    let own = Piece { kind: kind_for_roll(a), color: recipient };
    let theirs = Piece { kind: kind_for_roll(a), color: recipient.opp() };
    if v < 10 {
        Modifier::KingOfTheHill
    } else if v < 28 {
        Modifier::Atomic(own)
    } else if v < 46 {
        Modifier::CrazyHouse(theirs)
    } else if v < 64 {
        Modifier::Extinction(theirs)
    } else if v < 82 {
        Modifier::Sniper(own)
    } else {
        Modifier::TripleCheck(own)
    }
}

/// The modifier for the two dice `dice_a` (piece kind) and `dice_b`
/// (modifier kind) for the player `recipient`.
pub fn generate(recipient: Color, dice_a: u64, dice_b: u64) -> (r: Modifier)
    ensures
        r == modifier_for_rolls(recipient, dice_a, dice_b),
{
    let a = dice_a % 100;
    let kind = if a < 34 {
        PieceKind::Pawn
    } else if a < 54 {
        PieceKind::Bishop
    } else if a < 74 {
        PieceKind::Knight
    } else if a < 90 {
        PieceKind::Rook
    } else {
        PieceKind::Queen
    };
    let own = Piece { kind, color: recipient };
    let theirs = Piece { kind, color: recipient.opponent() };
    let b = dice_b % 100;
    if b < 10 {
        Modifier::KingOfTheHill
    } else if b < 28 {
        Modifier::Atomic(own)
    } else if b < 46 {
        Modifier::CrazyHouse(theirs)
    } else if b < 64 {
        Modifier::Extinction(theirs)
    } else if b < 82 {
        Modifier::Sniper(own)
    } else {
        Modifier::TripleCheck(own)
    }
}

/// The lowest die value of each piece-kind band, Pawn to Queen.
pub open spec fn kind_floor(i: int) -> u64 {
    if i == 0 {
        0
    } else if i == 1 {
        34
    } else if i == 2 {
        54
    } else if i == 3 {
        74
    } else {
        90
    }
}

/// The lowest die value of each modifier-kind band, King-of-the-Hill to
/// Triple-Check.
pub open spec fn modifier_floor(j: int) -> u64 {
    if j == 0 {
        0
    } else if j == 1 {
        10
    } else if j == 2 {
        28
    } else if j == 3 {
        46
    } else if j == 4 {
        64
    } else {
        82
    }
}

/// One pair of dice for every pair of bands: the sweep that ends a draw when
/// the random dice ran out, so that no reachable modifier is missed.
pub open spec fn sweep() -> Seq<(u64, u64)> {
    Seq::new(30, |i: int| (kind_floor(i % 5), modifier_floor(i / 5)))
}

/// The modifiers collected from `dice` in order, after `chosen`: a modifier
/// already held (in `existing`) or already chosen is passed over, and
/// collection stops at three.
pub open spec fn collect(
    recipient: Color,
    existing: Set<Modifier>,
    chosen: Seq<Modifier>,
    dice: Seq<(u64, u64)>,
) -> Seq<Modifier>
    decreases dice.len(),
{
    if chosen.len() >= 3 || dice.len() == 0 {
        chosen
    } else {
        let m = modifier_for_rolls(recipient, dice[0].0, dice[0].1);
        if existing.contains(m) || chosen.contains(m) {
            collect(recipient, existing, chosen, dice.drop_first())
        } else {
            collect(recipient, existing, chosen.push(m), dice.drop_first())
        }
    }
}

/// What a draw for `recipient` collects from the random `dice` and then the sweep.
pub open spec fn drawn(recipient: Color, existing: Set<Modifier>, dice: Seq<(u64, u64)>) -> Seq<
    Modifier,
> {
    collect(recipient, existing, Seq::empty(), dice + sweep())
}

/// Collection keeps what was chosen, adds only fresh modifiers, and stops at three.
pub proof fn lemma_collect_fresh(
    recipient: Color,
    existing: Set<Modifier>,
    chosen: Seq<Modifier>,
    dice: Seq<(u64, u64)>,
)
    requires
        chosen.no_duplicates(),
        chosen.len() <= 3,
        forall|i: int| 0 <= i < chosen.len() ==> !existing.contains(#[trigger] chosen[i]),
    ensures
        ({
            let c = collect(recipient, existing, chosen, dice);
            &&& c.no_duplicates()
            &&& c.len() <= 3
            &&& chosen.len() <= c.len()
            &&& c.subrange(0, chosen.len() as int) == chosen
            &&& forall|i: int| 0 <= i < c.len() ==> !existing.contains(#[trigger] c[i])
        }),
    decreases dice.len(),
{
    if chosen.len() >= 3 || dice.len() == 0 {
        assert(chosen.subrange(0, chosen.len() as int) =~= chosen);
    } else {
        let m = modifier_for_rolls(recipient, dice[0].0, dice[0].1);
        if existing.contains(m) || chosen.contains(m) {
            lemma_collect_fresh(recipient, existing, chosen, dice.drop_first());
        } else {
            let next = chosen.push(m);
            assert forall|i: int, j: int| 0 <= i < next.len() && 0 <= j < next.len() && i != j
                implies next[i] != next[j] by {
                if i == chosen.len() {
                    assert(chosen[j] == next[j]);
                } else if j == chosen.len() {
                    assert(chosen[i] == next[i]);
                }
            }
            assert forall|i: int| 0 <= i < next.len() implies !existing.contains(#[trigger] next[i]) by {
                if i < chosen.len() {
                    assert(next[i] == chosen[i]);
                }
            }
            lemma_collect_fresh(recipient, existing, next, dice.drop_first());
            let c = collect(recipient, existing, next, dice.drop_first());
            assert(c.subrange(0, chosen.len() as int) =~= c.subrange(0, next.len() as int).subrange(
                0,
                chosen.len() as int,
            ));
            assert(next.subrange(0, chosen.len() as int) =~= chosen);
        }
    }
}

/// When fewer than three are collected, every modifier of `dice` is held or collected.
pub proof fn lemma_collect_exhausts(
    recipient: Color,
    existing: Set<Modifier>,
    chosen: Seq<Modifier>,
    dice: Seq<(u64, u64)>,
)
    requires
        chosen.len() <= 3,
    ensures
        ({
            let c = collect(recipient, existing, chosen, dice);
            c.len() < 3 ==> forall|i: int|
                0 <= i < dice.len() ==> {
                    let m = modifier_for_rolls(recipient, #[trigger] dice[i].0, dice[i].1);
                    existing.contains(m) || c.contains(m)
                }
        }),
        forall|m: Modifier|
            chosen.contains(m) ==> #[trigger] collect(recipient, existing, chosen, dice).contains(m),
    decreases dice.len(),
{
    if chosen.len() >= 3 || dice.len() == 0 {
    } else {
        let m = modifier_for_rolls(recipient, dice[0].0, dice[0].1);
        let rest = dice.drop_first();
        let next = if existing.contains(m) || chosen.contains(m) {
            chosen
        } else {
            chosen.push(m)
        };
        lemma_collect_exhausts(recipient, existing, next, rest);
        let c = collect(recipient, existing, next, rest);
        assert forall|x: Modifier| chosen.contains(x) implies c.contains(x) by {
            let k = choose|k: int| 0 <= k < chosen.len() && chosen[k] == x;
            assert(next[k] == x);
            assert(next.contains(x));
        }
        if c.len() < 3 {
            assert forall|i: int| 0 <= i < dice.len() implies {
                let mm = modifier_for_rolls(recipient, #[trigger] dice[i].0, dice[i].1);
                existing.contains(mm) || c.contains(mm)
            } by {
                if i == 0 {
                    if !existing.contains(m) {
                        if chosen.contains(m) {
                        } else {
                            assert(next[chosen.len() as int] == m);
                            assert(next.contains(m));
                        }
                    }
                } else {
                    assert(rest[i - 1] == dice[i]);
                }
            }
        }
    }
}

/// Every die value selects the same modifier as the floor of its band.
pub proof fn lemma_sweep_covers(recipient: Color, a: u64, b: u64)
    ensures
        exists|i: int|
            0 <= i < 30 && modifier_for_rolls(recipient, a, b) == modifier_for_rolls(
                recipient,
                #[trigger] sweep()[i].0,
                sweep()[i].1,
            ),
{
    let va = a % 100;
    let vb = b % 100;
    let p: int = if va < 34 {
        0
    } else if va < 54 {
        1
    } else if va < 74 {
        2
    } else if va < 90 {
        3
    } else {
        4
    };
    let q: int = if vb < 10 {
        0
    } else if vb < 28 {
        1
    } else if vb < 46 {
        2
    } else if vb < 64 {
        3
    } else if vb < 82 {
        4
    } else {
        5
    };
    let i = q * 5 + p;
    assert(i % 5 == p && i / 5 == q) by (nonlinear_arith)
        requires
            i == q * 5 + p,
            0 <= p < 5,
            0 <= q < 6,
    ;
    assert(sweep()[i] == (kind_floor(p), modifier_floor(q)));
    assert(sweep()[i].0 == kind_floor(p));
    assert(sweep()[i].1 == modifier_floor(q));
    assert(kind_for_roll(a) == kind_for_roll(kind_floor(p)));
    assert(modifier_for_rolls(recipient, a, b) == modifier_for_rolls(
        recipient,
        kind_floor(p),
        modifier_floor(q),
    ));
}

/// The dice of the sweep, in order.
fn sweep_dice() -> (r: Vec<(u64, u64)>)
    ensures
        r@ == sweep(),
{
    let kinds: [u64; 5] = [0, 34, 54, 74, 90];
    let mods: [u64; 6] = [0, 10, 28, 46, 64, 82];
    let mut r: Vec<(u64, u64)> = Vec::new();
    let mut j: usize = 0;
    while j < 6
        invariant
            j <= 6,
            kinds@ == seq![0u64, 34, 54, 74, 90],
            mods@ == seq![0u64, 10, 28, 46, 64, 82],
            r@.len() == 5 * j,
            forall|i: int| 0 <= i < r@.len() ==> #[trigger] r@[i] == sweep()[i],
        decreases 6 - j,
    {
        let mut i: usize = 0;
        while i < 5
            invariant
                j < 6,
                i <= 5,
                kinds@ == seq![0u64, 34, 54, 74, 90],
                mods@ == seq![0u64, 10, 28, 46, 64, 82],
                r@.len() == 5 * j + i,
                forall|k: int| 0 <= k < r@.len() ==> #[trigger] r@[k] == sweep()[k],
            decreases 5 - i,
        {
            let ghost n: int = 5 * j + i;
            assert(n % 5 == i && n / 5 == j);
            r.push((kinds[i], mods[j]));
            i = i + 1;
        }
        j = j + 1;
    }
    assert(r@ =~= sweep());
    r
}

/// Three distinct modifiers for `recipient`, none of them in `existing`.
///
/// The pairs of `dice` (piece-kind die, modifier-kind die) are tried in order,
/// passing over any modifier already held or already chosen. When they run out
/// before three are found, one pair from every band is tried in turn. `None`
/// comes only when, besides those held in `existing`, fewer than three
/// modifiers can be generated for `recipient` at all.
pub fn draw_candidates(recipient: Color, existing: &ModifierSet, dice: &Vec<(u64, u64)>) -> (r:
    Option<[Modifier; 3]>)
    requires
        existing.wf(),
        dice@.len() + 30 <= usize::MAX,
    ensures
        r.is_some() <==> drawn(recipient, existing@, dice@).len() == 3,
        r.is_some() ==> r.unwrap()@ == drawn(recipient, existing@, dice@),
        r.is_some() ==> r.unwrap()@.no_duplicates(),
        r.is_some() ==> forall|i: int| 0 <= i < 3 ==> !existing@.contains(#[trigger] r.unwrap()[i]),
        r.is_none() ==> forall|a: u64, b: u64|
            existing@.contains(#[trigger] modifier_for_rolls(recipient, a, b)) || drawn(
                recipient,
                existing@,
                dice@,
            ).contains(modifier_for_rolls(recipient, a, b)),
{
    let mut all: Vec<(u64, u64)> = Vec::new();
    let mut k: usize = 0;
    while k < dice.len()
        invariant
            k <= dice@.len(),
            all@ == dice@.subrange(0, k as int),
        decreases dice@.len() - k,
    {
        all.push(dice[k]);
        k = k + 1;
        assert(all@ =~= dice@.subrange(0, k as int));
    }
    let tail = sweep_dice();
    let mut t: usize = 0;
    while t < tail.len()
        invariant
            t <= tail@.len(),
            tail@ == sweep(),
            all@ == dice@ + tail@.subrange(0, t as int),
        decreases tail@.len() - t,
    {
        all.push(tail[t]);
        t = t + 1;
        assert(all@ =~= dice@ + tail@.subrange(0, t as int));
    }
    assert(tail@.subrange(0, t as int) =~= tail@);
    let ghost target = drawn(recipient, existing@, dice@);
    let mut chosen: Vec<Modifier> = Vec::new();
    assert(all@.subrange(0, all@.len() as int) =~= all@);
    assert(chosen@ =~= Seq::<Modifier>::empty());
    let mut i: usize = 0;
    while i < all.len() && chosen.len() < 3
        invariant
            existing.wf(),
            i <= all@.len(),
            all@ == dice@ + sweep(),
            chosen@.len() <= 3,
            collect(recipient, existing@, chosen@, all@.subrange(i as int, all@.len() as int))
                == target,
            target == drawn(recipient, existing@, dice@),
        decreases all@.len() - i,
    {
        let ghost rest = all@.subrange(i as int, all@.len() as int);
        assert(rest.drop_first() =~= all@.subrange(i + 1, all@.len() as int));
        let (a, b) = all[i];
        let m = generate(recipient, a, b);
        let mut seen = existing.contains(m);
        let mut j: usize = 0;
        while j < chosen.len()
            invariant
                j <= chosen@.len(),
                seen == (existing@.contains(m) || exists|q: int| 0 <= q < j && chosen@[q] == m),
            decreases chosen@.len() - j,
        {
            if chosen[j] == m {
                seen = true;
            }
            j = j + 1;
        }
        if !seen {
            chosen.push(m);
        }
        i = i + 1;
    }
    let ghost rest = all@.subrange(i as int, all@.len() as int);
    if i == all.len() {
        assert(rest.len() == 0);
    }
    assert(collect(recipient, existing@, chosen@, rest) == chosen@);
    proof {
        lemma_collect_exhausts(recipient, existing@, Seq::empty(), all@);
        lemma_collect_fresh(recipient, existing@, Seq::empty(), all@);
    }
    if chosen.len() == 3 {
        Some([chosen[0], chosen[1], chosen[2]])
    } else {
        proof {
            assert forall|a: u64, b: u64|
                existing@.contains(#[trigger] modifier_for_rolls(recipient, a, b)) || target.contains(
                    modifier_for_rolls(recipient, a, b),
                ) by {
                lemma_sweep_covers(recipient, a, b);
                let w = choose|w: int|
                    0 <= w < 30 && modifier_for_rolls(recipient, a, b) == modifier_for_rolls(
                        recipient,
                        #[trigger] sweep()[w].0,
                        sweep()[w].1,
                    );
                assert(all@[dice@.len() + w] == sweep()[w]);
            }
        }
        None
    }
}

/// The pair of dice that the stream yields at counter value `c`.
pub open spec fn roll_at(c: u64) -> (u64, u64) {
    let x = c % 4294967296;
    let a = ((x * 2654435761 + 40503) % 4294967296) as u64;
    let b = ((a * 1103515245 + 12345) % 4294967296) as u64;
    (a, b)
}

/// The counter value after `c` advanced by one, wrapping at the top.
pub open spec fn next_count(c: u64) -> u64 {
    if c == u64::MAX {
        0
    } else {
        (c + 1) as u64
    }
}

/// The counter value after `c` advanced `k` times.
pub open spec fn count_after(c: u64, k: nat) -> u64
    decreases k,
{
    if k == 0 {
        c
    } else {
        next_count(count_after(c, (k - 1) as nat))
    }
}

/// A reproducible source of dice, driven by a counter that the caller seeds
/// and that advances once per idle tick and once per pair of dice drawn.
pub struct DiceStream {
    pub counter: u64,
}

impl DiceStream {
    /// A stream that starts at the counter value `seed`.
    pub fn new(seed: u64) -> (r: DiceStream)
        ensures
            r.counter == seed,
    {
        DiceStream { counter: seed }
    }

    /// Advances the counter once.
    pub fn tick(&mut self)
        ensures
            final(self).counter == next_count(old(self).counter),
    {
        self.counter = if self.counter == u64::MAX {
            0
        } else {
            self.counter + 1
        };
    }

    /// The next pair of dice (piece-kind die, modifier-kind die).
    pub fn next_roll(&mut self) -> (r: (u64, u64))
        ensures
            r == roll_at(old(self).counter),
            final(self).counter == next_count(old(self).counter),
    {
        let x: u64 = self.counter % 4294967296;
        assert(x * 2654435761 <= 4294967295 * 2654435761) by (nonlinear_arith)
            requires
                x <= 4294967295,
        ;
        let a: u64 = (x * 2654435761 + 40503) % 4294967296;
        assert(a * 1103515245 <= 4294967295 * 1103515245) by (nonlinear_arith)
            requires
                a <= 4294967295,
        ;
        let b: u64 = (a * 1103515245 + 12345) % 4294967296;
        self.tick();
        (a, b)
    }

    /// The next `n` pairs of dice, in order.
    pub fn next_rolls(&mut self, n: usize) -> (r: Vec<(u64, u64)>)
        ensures
            r@.len() == n,
            forall|i: int| 0 <= i < n ==> #[trigger] r@[i] == roll_at(count_after(old(self).counter, i as nat)),
            final(self).counter == count_after(old(self).counter, n as nat),
    {
        let mut r: Vec<(u64, u64)> = Vec::new();
        let mut i: usize = 0;
        while i < n
            invariant
                i <= n,
                r@.len() == i,
                self.counter == count_after(old(self).counter, i as nat),
                forall|k: int| 0 <= k < i ==> #[trigger] r@[k] == roll_at(count_after(old(self).counter, k as nat)),
            decreases n - i,
        {
            let d = self.next_roll();
            r.push(d);
            i = i + 1;
        }
        r
    }
}

} // verus!
