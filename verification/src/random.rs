//! The game's source of randomness, and the few ways the game draws from it.
use rand::rngs::SmallRng;
use rand::Rng;
use rand::SeedableRng;
use vstd::prelude::*;

verus! {

/// `rand::rngs::SmallRng`, carried through verified code as an opaque value.
#[verifier::external_type_specification]
#[verifier::external_body]
pub struct ExSmallRng(SmallRng);

/// Calls `SmallRng::from_entropy`, which seeds a generator from the operating
/// system; nothing is stated of the seed it picks.
#[verifier::external_body]
fn small_rng_from_entropy() -> SmallRng {
    SmallRng::from_entropy()
}

/// Calls `Rng::gen_range(low..high)` on `usize`: rand samples uniformly from the
/// half-open range and panics when it is empty, so `low < high` is required and
/// the result lies in `[low, high)`.
#[verifier::external_body]
fn draw_usize_below(rng: &mut SmallRng, low: usize, high: usize) -> (r: usize)
    requires
        low < high,
    ensures
        low <= r < high,
{
    rng.gen_range(low..high)
}

/// Calls `Rng::gen_range(low..=high)` on `i32`: rand samples uniformly from the
/// closed range and panics when it is empty, so `low <= high` is required and
/// the result lies in `[low, high]`.
#[verifier::external_body]
fn draw_i32_inclusive(rng: &mut SmallRng, low: i32, high: i32) -> (r: i32)
    requires
        low <= high,
    ensures
        low <= r <= high,
{
    rng.gen_range(low..=high)
}

/// Calls `Rng::gen::<u32>()`; every `u32` is a possible result.
#[verifier::external_body]
fn draw_u32(rng: &mut SmallRng) -> u32 {
    rng.gen::<u32>()
}

/// One draw from the generator: a whole number picked in `[low, high]`, and the
/// number that came out.
pub type Draw = (int, int, int);

/// Appending a draw to a log extends the part after `l` by that draw and
/// leaves the first `l` draws alone.
pub proof fn lemma_log_push(log: Seq<Draw>, l: int, d: Draw)
    requires
        0 <= l <= log.len(),
    ensures
        log.push(d).skip(l) == log.skip(l).push(d),
        log.push(d).take(l) == log.take(l),
{
    assert forall|i: int| 0 <= i < log.len() - l + 1 implies log.push(d).skip(l)[i] == log.skip(l).push(d)[i] by {
        if i < log.len() - l {
            assert(log.push(d)[l + i] == log[l + i]);
        }
    }
    assert(log.push(d).skip(l) =~= log.skip(l).push(d));
    assert forall|i: int| 0 <= i < l implies log.push(d).take(l)[i] == log.take(l)[i] by {
        assert(log.push(d)[i] == log[i]);
    }
    assert(log.push(d).take(l) =~= log.take(l));
}

/// A log that extends `log` splits, after `l <= log.len()`, into `log`'s part
/// and the new draws.
pub proof fn lemma_log_extend(log: Seq<Draw>, later: Seq<Draw>, l: int)
    requires
        0 <= l <= log.len() <= later.len(),
        later.take(log.len() as int) == log,
    ensures
        later.skip(l) == log.skip(l) + later.skip(log.len() as int),
        later.take(l) == log.take(l),
{
    assert forall|i: int| 0 <= i < later.len() - l implies later.skip(l)[i] == (log.skip(l) + later.skip(
        log.len() as int,
    ))[i] by {
        if i < log.len() - l {
            assert(later.take(log.len() as int)[l + i] == later[l + i]);
        }
    }
    assert(later.skip(l) =~= log.skip(l) + later.skip(log.len() as int));
    assert forall|i: int| 0 <= i < l implies later.take(l)[i] == log.take(l)[i] by {
        assert(later.take(log.len() as int)[i] == later[i]);
    }
    assert(later.take(l) =~= log.take(l));
}

/// The game's random number generator, with a ghost record, in order, of every
/// draw made through its methods. A draw taken from the `rng` field directly
/// (as the game does for its float placements) is not recorded.
pub struct GameRng {
    pub rng: SmallRng,
    log: Ghost<Seq<Draw>>,
}

impl GameRng {
    /// The draws made so far, oldest first: `(low, high, value)` for each.
    pub closed spec fn draws(&self) -> Seq<Draw> {
        self.log@
    }

    /// A generator seeded from the operating system's entropy source, with no
    /// draws yet.
    pub fn from_entropy() -> (g: GameRng)
        ensures
            g.draws() == Seq::<Draw>::empty(),
    {
        GameRng { rng: small_rng_from_entropy(), log: Ghost(Seq::empty()) }
    }

    /// A value drawn uniformly from the closed range `[low, high]`.
    pub fn gen_range(&mut self, low: i32, high: i32) -> (r: i32)
        requires
            low <= high,
        ensures
            low <= r <= high,
            final(self).draws() == old(self).draws().push((low as int, high as int, r as int)),
    {
        let r = draw_i32_inclusive(&mut self.rng, low, high);
        proof {
            self.log@ = self.log@.push((low as int, high as int, r as int));
        }
        r
    }

    /// An index drawn uniformly from `[0, n)`.
    pub fn index_below(&mut self, n: usize) -> (r: usize)
        requires
            n > 0,
        ensures
            r < n,
            final(self).draws() == old(self).draws().push((0, n - 1, r as int)),
    {
        let r = draw_usize_below(&mut self.rng, 0, n);
        proof {
            self.log@ = self.log@.push((0, n - 1, r as int));
        }
        r
    }

    /// A uniformly drawn `u32`.
    pub fn gen(&mut self) -> (r: u32)
        ensures
            final(self).draws() == old(self).draws().push((0, u32::MAX as int, r as int)),
    {
        let r = draw_u32(&mut self.rng);
        proof {
            self.log@ = self.log@.push((0, u32::MAX as int, r as int));
        }
        r
    }
}

impl Default for GameRng {
    fn default() -> (g: Self)
        ensures
            g.draws() == Seq::<Draw>::empty(),
    {
        GameRng::from_entropy()
    }
}

} // verus!
