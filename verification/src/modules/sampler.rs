//! Where the random bits of a render come from.
use rand::rngs::StdRng;
use rand::Rng;
use rand::SeedableRng;
use vstd::prelude::*;

verus! {

/// A source of random bits, handed to every function that samples.
///
/// A draw hands out 64 bits together with the source from which the bits
/// after them are drawn. A source that holds its state as a value, as
/// [`SeededSampler`] does, is left by a draw as it was. [`ThreadSampler`] is
/// the exception: it stands for the generator of the calling thread, which
/// every draw moves on. Nothing is assumed of what an implementation hands
/// out. A contract that rests on draws names the sources before and after.
pub trait Sampler: Sized {
    /// The next 64 random bits, and the source of the bits after them.
    fn draw(&self) -> (u64, Self);
}

/// `before` may hand out `bits` and leave `after` to draw from.
#[verifier::inline]
pub open spec fn is_draw<S: Sampler>(before: S, bits: u64, after: S) -> bool {
    call_ensures(S::draw, (&before,), (bits, after))
}

/// Draws 64 bits and moves the source on.
pub fn next_bits<S: Sampler>(s: &mut S) -> (bits: u64)
    ensures
        is_draw(*old(s), bits, *final(s)),
{
    let (bits, next) = s.draw();
    *s = next;
    bits
}

/// `rand::rngs::StdRng`, the seedable generator of `rand`. Nothing of its
/// state is visible here.
#[verifier::external_type_specification]
#[verifier::external_body]
pub struct ExStdRng(StdRng);

/// `rand::thread_rng().gen::<u64>()`: 64 bits from the generator that `rand`
/// keeps for the calling thread and seeds from the operating system. Nothing
/// is claimed of the bits. `rand` gives up where the system has no entropy to
/// seed the generator with.
#[verifier::external_body]
fn thread_bits() -> (bits: u64) {
    rand::thread_rng().gen::<u64>()
}

/// `StdRng::seed_from_u64`: the generator of `rand` that a 64-bit seed
/// starts. Nothing is claimed of it.
#[verifier::external_body]
fn seeded_generator(seed: u64) -> (generator: StdRng) {
    StdRng::seed_from_u64(seed)
}

/// `StdRng::clone`: a generator in the state of the given one. Nothing is
/// claimed of it.
#[verifier::external_body]
fn generator_copy(generator: &StdRng) -> (copy: StdRng) {
    generator.clone()
}

/// `Rng::gen::<u64>` on a seeded generator: its next 64 bits. Nothing is
/// claimed of the bits.
#[verifier::external_body]
fn generator_bits(generator: &mut StdRng) -> (bits: u64) {
    generator.gen::<u64>()
}

/// The calling thread's own generator. Two draws from it differ: it does
/// not hand out its bits again.
pub struct ThreadSampler {}

impl ThreadSampler {
    pub fn new() -> (r: ThreadSampler) {
        ThreadSampler {  }
    }
}

impl Sampler for ThreadSampler {
    fn draw(&self) -> (u64, ThreadSampler) {
        (thread_bits(), ThreadSampler {  })
    }
}

/// A generator of `rand` started from a seed.
///
/// `rand` calls the algorithm deterministic, and does not promise the same
/// stream from another version or configuration of the crate. So nothing of
/// the stream is claimed here: what is proved of a render holds for whatever
/// bits this source hands out.
pub struct SeededSampler {
    generator: StdRng,
}

impl SeededSampler {
    pub fn new(seed: u64) -> (r: SeededSampler) {
        SeededSampler { generator: seeded_generator(seed) }
    }
}

impl Sampler for SeededSampler {
    fn draw(&self) -> (u64, SeededSampler) {
        let mut generator = generator_copy(&self.generator);
        let bits = generator_bits(&mut generator);
        (bits, SeededSampler { generator })
    }
}

} // verus!
