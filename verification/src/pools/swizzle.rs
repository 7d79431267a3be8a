//! Exchanging the red and blue channels of four-byte pixels on their way into a
//! mapped buffer.

use vstd::prelude::*;

verus! {

/// How many of `n` bytes belong to whole pixels.
pub open spec fn whole_pixels(n: int) -> int {
    n / 4 * 4
}

/// The place that the byte at `i` comes from when red and blue change places.
pub open spec fn partner(i: int) -> int {
    if i % 4 == 0 {
        i + 2
    } else if i % 4 == 2 {
        i - 2
    } else {
        i
    }
}

/// The bytes with red and blue exchanged in every whole pixel. A trailing part
/// of a pixel stays as it is.
pub open spec fn exchanged(bytes: Seq<u8>) -> Seq<u8> {
    Seq::new(
        bytes.len(),
        |i: int|
            if i < whole_pixels(bytes.len() as int) {
                bytes[partner(i)]
            } else {
                bytes[i]
            },
    )
}

/// What both slices have room for.
pub open spec fn common_len(a: nat, b: nat) -> int {
    if a < b {
        a as int
    } else {
        b as int
    }
}

/// Copy `src` into `dst` with red and blue exchanged in every whole pixel. The
/// shorter of the two bounds the copy, and what lies behind it in `dst` stays.
/// Each byte of `dst` is written once and none is read.
pub fn exchange_rb_into(src: &[u8], dst: &mut [u8])
    ensures
        final(dst)@.len() == old(dst)@.len(),
        ({
            let n = common_len(src@.len(), old(dst)@.len());
            final(dst)@ == exchanged(src@.take(n)) + old(dst)@.skip(n)
        }),
        forall|i: int|
            0 <= i < old(dst)@.len() ==> #[trigger] final(dst)@[i] == if i >= src@.len() {
                old(dst)@[i]
            } else if i / 4 * 4 + 4 > src@.len() || i / 4 * 4 + 4 > old(dst)@.len() {
                src@[i]
            } else if i % 4 == 0 {
                src@[i + 2]
            } else if i % 4 == 2 {
                src@[i - 2]
            } else {
                src@[i]
            },
{
    let n: usize = if src.len() < dst.len() {
        src.len()
    } else {
        dst.len()
    };
    let whole: usize = n / 4 * 4;
    let ghost target = exchanged(src@.take(n as int)) + old(dst)@.skip(n as int);
    assert(target.len() == old(dst)@.len());
    let mut i: usize = 0;
    while i < whole
        invariant
            i % 4 == 0,
            i <= whole,
            whole == n / 4 * 4,
            n <= src@.len(),
            n <= dst@.len(),
            dst@.len() == old(dst)@.len(),
            target == exchanged(src@.take(n as int)) + old(dst)@.skip(n as int),
            forall|k: int| 0 <= k < i ==> dst@[k] == target[k],
            forall|k: int| i <= k < dst@.len() ==> dst@[k] == old(dst)@[k],
        decreases whole - i,
    {
        assert(i + 4 <= whole);
        dst[i] = src[i + 2];
        dst[i + 1] = src[i + 1];
        dst[i + 2] = src[i];
        dst[i + 3] = src[i + 3];
        i += 4;
    }
    while i < n
        invariant
            whole <= i <= n,
            whole == n / 4 * 4,
            n <= src@.len(),
            n <= dst@.len(),
            dst@.len() == old(dst)@.len(),
            target == exchanged(src@.take(n as int)) + old(dst)@.skip(n as int),
            forall|k: int| 0 <= k < i ==> dst@[k] == target[k],
            forall|k: int| i <= k < dst@.len() ==> dst@[k] == old(dst)@[k],
        decreases n - i,
    {
        dst[i] = src[i];
        i += 1;
    }
    assert(dst@ =~= target);
}

/// Exchanging twice gives the bytes back, so one function serves both
/// directions.
pub proof fn law_exchanging_twice_is_the_identity(bytes: Seq<u8>)
    ensures
        exchanged(exchanged(bytes)) == bytes,
{
    assert(exchanged(exchanged(bytes)) =~= bytes);
}

/// Green and alpha stay where they are.
pub proof fn law_green_and_alpha_stay(bytes: Seq<u8>, i: int)
    requires
        0 <= i < bytes.len(),
        i % 4 == 1 || i % 4 == 3,
    ensures
        exchanged(bytes)[i] == bytes[i],
{
}

/// In every whole pixel red and blue change places and green and alpha stay;
/// the bytes of a last, partial pixel stay too.
pub proof fn law_every_whole_pixel_is_exchanged(bytes: Seq<u8>)
    ensures
        exchanged(bytes).len() == bytes.len(),
        forall|p: int|
            #![trigger partner(4 * p)]
            0 <= p && 4 * p + 4 <= bytes.len() ==> {
                &&& exchanged(bytes)[4 * p] == bytes[4 * p + 2]
                &&& exchanged(bytes)[4 * p + 1] == bytes[4 * p + 1]
                &&& exchanged(bytes)[4 * p + 2] == bytes[4 * p]
                &&& exchanged(bytes)[4 * p + 3] == bytes[4 * p + 3]
            },
        forall|i: int|
            0 <= i < bytes.len() && i / 4 * 4 + 4 > bytes.len() ==> #[trigger] exchanged(bytes)[i]
                == bytes[i],
{
}

/// What two slices have room for is as long as the shorter.
pub proof fn law_the_shorter_bounds_the_copy(a: nat, b: nat)
    ensures
        common_len(a, b) <= a,
        common_len(a, b) <= b,
        common_len(a, b) == a || common_len(a, b) == b,
        common_len(a, b) == common_len(b, a),
{
}

} // verus!
