//! Seeds drawn from an external entropy authority: the raw bytes it returns
//! become one machine word.

use vstd::arithmetic::power::{lemma_pow_increases, pow};
use vstd::layout::size_of;
use vstd::prelude::*;

verus! {

/// The number that the bytes `s` spell in big-endian order, most significant
/// byte first.
pub open spec fn be_value(s: Seq<u8>) -> nat
    decreases s.len(),
{
    if s.len() == 0 {
        0
    } else {
        (be_value(s.drop_last()) * 256 + s.last()) as nat
    }
}

/// The seed that an entropy response yields: its leading bytes, as many as a
/// machine word holds, read as a big-endian number. A shorter response is
/// padded with zeros on the most significant side.
pub open spec fn entropy_seed(bytes: Seq<u8>) -> nat {
    let n = if bytes.len() < size_of::<usize>() {
        bytes.len()
    } else {
        size_of::<usize>()
    };
    be_value(bytes.take(n as int))
}

/// A big-endian number of `s.len()` bytes lies below `256^len`.
proof fn lemma_be_value_bound(s: Seq<u8>)
    ensures
        be_value(s) < pow(256, s.len()),
    decreases s.len(),
{
    if s.len() > 0 {
        lemma_be_value_bound(s.drop_last());
        let p = pow(256, (s.len() - 1) as nat);
        assert(pow(256, s.len()) == 256 * p) by {
            vstd::arithmetic::power::lemma_pow_adds(256, (s.len() - 1) as nat, 1);
            vstd::arithmetic::power::lemma_pow1(256);
        }
        assert(be_value(s.drop_last()) * 256 + s.last() < 256 * p) by (nonlinear_arith)
            requires
                be_value(s.drop_last()) < p,
                s.last() < 256,
        ;
    } else {
        vstd::arithmetic::power::lemma_pow0(256);
    }
}

/// Turns the bytes of an entropy response into a machine-word seed: the
/// leading bytes, up to the word's size, read most significant first and
/// zero-padded on the left when there are fewer.
pub fn seed_from_entropy(bytes: &Vec<u8>) -> (r: usize)
    ensures
        r as nat == entropy_seed(bytes@),
{
    let w = core::mem::size_of::<usize>();
    let n = if bytes.len() < w {
        bytes.len()
    } else {
        w
    };
    proof {
        vstd::layout::unsigned_int_max_values();
    }
    let mut acc: usize = 0;
    let mut i: usize = 0;
    while i < n
        invariant
            w as nat == size_of::<usize>(),
            n == (if bytes@.len() < w { bytes@.len() } else { w as nat }),
            n <= bytes@.len(),
            n <= w,
            usize::MAX as nat == pow(256, w as nat) - 1,
            i <= n,
            acc as nat == be_value(bytes@.take(i as int)),
        decreases n - i,
    {
        let ghost next = bytes@.take(i + 1);
        proof {
            assert(next.drop_last() =~= bytes@.take(i as int));
            lemma_be_value_bound(next);
            lemma_pow_increases(256, (i + 1) as nat, w as nat);
        }
        acc = acc * 256 + bytes[i] as usize;
        i += 1;
    }
    acc
}

} // verus!
