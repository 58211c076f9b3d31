use vstd::arithmetic::div_mod::{
    lemma_div_pos_is_pos, lemma_fundamental_div_mod, lemma_fundamental_div_mod_converse,
    lemma_mod_bound,
};
use vstd::arithmetic::mul::{
    lemma_mul_inequality, lemma_mul_is_commutative, lemma_mul_is_distributive_add_other_way,
};
use vstd::prelude::*;

verus! {

/// Where the pixel at `x` of scan line `y` stands in a frame of scan lines
/// `width` wide.
pub open spec fn position(width: u32, x: u32, y: u32) -> int {
    y * width + x
}

/// The row of a picture `height` rows high that shows scan line `y`, and the
/// scan line that is shown as row `y`: scan lines are counted upwards from
/// the bottom of the picture and rows downwards from its top.
pub open spec fn flipped(height: u32, y: u32) -> u32 {
    (height - 1 - y) as u32
}

/// Whether `total` may be what `first` becomes after `extra` further
/// samples, where `draws` says what a sample may be and `joins` what a total
/// and a sample may add up to. Each sample is added to the total so far.
pub open spec fn tally_of<C>(
    draws: spec_fn(C) -> bool,
    joins: spec_fn(C, C, C) -> bool,
    first: C,
    extra: nat,
    total: C,
) -> bool
    decreases extra,
{
    if extra == 0 {
        total == first
    } else {
        exists|so_far: C, drawn: C|
            tally_of(draws, joins, first, (extra - 1) as nat, so_far) && draws(drawn)
                && #[trigger] joins(so_far, drawn, total)
    }
}

/// What `sample` may draw, as a relation.
pub open spec fn draws<C, S: Fn() -> C>(sample: S) -> spec_fn(C) -> bool {
    |drawn: C| call_ensures(sample, (), drawn)
}

/// What `join` may make of a total and a sample, as a relation.
pub open spec fn joins<C, A: Fn(C, C) -> C>(join: A) -> spec_fn(C, C, C) -> bool {
    |so_far: C, drawn: C, total: C| call_ensures(join, (so_far, drawn), total)
}

/// Whether `total` may be what `first` becomes after `extra` further
/// samples: each one is drawn by `sample` and then added by `join` to the
/// total so far, the total on the left.
pub open spec fn tally<C, S: Fn() -> C, A: Fn(C, C) -> C>(
    sample: S,
    join: A,
    first: C,
    extra: nat,
    total: C,
) -> bool {
    tally_of(draws(sample), joins(join), first, extra, total)
}

/// What holds of the first sample, of every further sample, and of every
/// sum of a total and a sample of which it holds, holds of the total.
pub proof fn lemma_tally_stays_good<C>(
    draws: spec_fn(C) -> bool,
    joins: spec_fn(C, C, C) -> bool,
    good: spec_fn(C) -> bool,
    first: C,
    extra: nat,
    total: C,
)
    requires
        good(first),
        forall|drawn: C| #[trigger] draws(drawn) ==> good(drawn),
        forall|so_far: C, drawn: C, sum: C|
            good(so_far) && good(drawn) && #[trigger] joins(so_far, drawn, sum) ==> good(sum),
        tally_of(draws, joins, first, extra, total),
    ensures
        good(total),
    decreases extra,
{
    if extra > 0 {
        let (so_far, drawn) = choose|so_far: C, drawn: C|
            tally_of(draws, joins, first, (extra - 1) as nat, so_far) && draws(drawn)
                && #[trigger] joins(so_far, drawn, total);
        lemma_tally_stays_good(draws, joins, good, first, (extra - 1) as nat, so_far);
    }
}

/// The number of samples that are drawn for a pixel after the first one.
pub open spec fn further_samples(sample_count: u32) -> nat {
    if sample_count == 0 {
        0
    } else {
        (sample_count - 1) as nat
    }
}

/// The sum of the samples of one pixel: `first`, and as many further
/// samples as it takes to make `sample_count` of them. A pixel always has
/// its first sample, also where `sample_count` is 0.
pub fn accumulate<C, S: Fn() -> C, A: Fn(C, C) -> C>(
    first: C,
    sample_count: u32,
    sample: &S,
    join: &A,
) -> (total: C)
    requires
        call_requires(*sample, ()),
        forall|a: C, b: C| call_requires(*join, (a, b)),
    ensures
        tally(*sample, *join, first, further_samples(sample_count), total),
{
    let mut total = first;
    let mut taken: u32 = 1;
    while taken < sample_count
        invariant
            1 <= taken,
            sample_count == 0 ==> taken == 1,
            sample_count != 0 ==> taken <= sample_count,
            call_requires(*sample, ()),
            forall|a: C, b: C| call_requires(*join, (a, b)),
            tally(*sample, *join, first, (taken - 1) as nat, total),
        decreases sample_count - taken,
    {
        let ghost so_far = total;
        let drawn = sample();
        total = join(total, drawn);
        assert(draws(*sample)(drawn) && joins(*join)(so_far, drawn, total));
        taken += 1;
    }
    total
}

/// Every index of a frame is the position of exactly one pixel: of the one
/// at the remainder of the index by the width, on the scan line that is
/// their quotient.
pub proof fn lemma_index_is_one_position(width: u32, height: u32, index: int)
    requires
        0 <= index < width * height,
    ensures
        width > 0,
        0 <= index % (width as int) < width,
        0 <= index / (width as int) < height,
        position(width, (index % (width as int)) as u32, (index / (width as int)) as u32) == index,
        forall|x: u32, y: u32|
            x < width && #[trigger] position(width, x, y) == index ==> x == index % (width as int)
                && y == index / (width as int),
{
    let w = width as int;
    assert(width > 0) by (nonlinear_arith)
        requires
            0 <= index < width * height,
    ;
    lemma_fundamental_div_mod(index, w);
    lemma_mod_bound(index, w);
    lemma_div_pos_is_pos(index, w);
    assert(index / w < height) by (nonlinear_arith)
        requires
            0 <= index < w * height,
            w > 0,
            index == w * (index / w) + index % w,
            0 <= index % w,
    ;
    lemma_mul_is_commutative(w, index / w);
    assert forall|x: u32, y: u32| x < width && #[trigger] position(width, x, y)
        == index implies x == index % w && y == index / w by {
        lemma_mul_is_commutative(y as int, w);
        lemma_fundamental_div_mod_converse(index, w, y as int, x as int);
    }
}

/// Where in the picture the pixel at `index` of a frame is shown: its `x`
/// and its row. Scan line 0, the first of the frame, is the bottom row.
pub fn place(width: u32, height: u32, index: usize) -> (at: (u32, u32))
    requires
        index < width * height,
    ensures
        at.0 < width,
        at.1 < height,
        position(width, at.0, flipped(height, at.1)) == index,
{
    proof {
        lemma_index_is_one_position(width, height, index as int);
    }
    let w = width as usize;
    let x = (index % w) as u32;
    let y = (index / w) as u32;
    (x, height - 1 - y)
}

/// Shades every pixel of a picture, scan line by scan line from the bottom
/// one and each from the left, and returns the frame in that order: the
/// pixel at `x` of scan line `y` is what `shade` made of `x` and `y`.
pub fn render<P, S: Fn(u32, u32) -> P>(width: u32, height: u32, shade: &S) -> (frame: Vec<P>)
    requires
        width * height <= usize::MAX,
        forall|x: u32, y: u32| x < width && y < height ==> call_requires(*shade, (x, y)),
    ensures
        frame@.len() == width * height,
        forall|x: u32, y: u32|
            x < width && y < height ==> call_ensures(
                *shade,
                (x, y),
                #[trigger] frame@[position(width, x, y)],
            ),
{
    let mut frame: Vec<P> = Vec::new();
    let mut y: u32 = 0;
    while y < height
        invariant
            y <= height,
            width * height <= usize::MAX,
            forall|x: u32, y: u32| x < width && y < height ==> call_requires(*shade, (x, y)),
            frame@.len() == y * width,
            forall|x: u32, below: u32|
                x < width && below < y ==> call_ensures(
                    *shade,
                    (x, below),
                    #[trigger] frame@[position(width, x, below)],
                ),
        decreases height - y,
    {
        let mut x: u32 = 0;
        while x < width
            invariant
                x <= width,
                y < height,
                forall|x: u32, y: u32| x < width && y < height ==> call_requires(*shade, (x, y)),
                frame@.len() == y * width + x,
                forall|left: u32, below: u32|
                    left < width && below < y ==> call_ensures(
                        *shade,
                        (left, below),
                        #[trigger] frame@[position(width, left, below)],
                    ),
                forall|left: u32|
                    left < x ==> call_ensures(
                        *shade,
                        (left, y),
                        #[trigger] frame@[position(width, left, y)],
                    ),
            decreases width - x,
        {
            let ghost before = frame@;
            let pixel = shade(x, y);
            frame.push(pixel);
            proof {
                assert forall|left: u32, below: u32| left < width && below < y implies position(
                    width,
                    left,
                    below,
                ) < before.len() by {
                    lemma_mul_inequality(below + 1, y as int, width as int);
                    lemma_mul_is_distributive_add_other_way(width as int, below as int, 1);
                }
            }
            x += 1;
        }
        proof {
            lemma_mul_is_distributive_add_other_way(width as int, y as int, 1);
        }
        y += 1;
    }
    proof {
        lemma_mul_is_commutative(width as int, height as int);
    }
    frame
}

} // verus!
