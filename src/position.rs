//! Turning chapter-relative progress into a fraction of the whole book.
use vstd::prelude::*;

verus! {

/// Chapter progress is given in millionths: `PROGRESS_SCALE` stands for the
/// whole chapter.
pub const PROGRESS_SCALE: u32 = 1_000_000;

/// A position in a book as the fraction `num / den`.
#[derive(Clone, Copy, Debug, PartialEq, Eq)]
pub struct Location {
    pub num: u128,
    pub den: u128,
}

/// Why a position could not be computed.
#[derive(Clone, Copy, Debug, PartialEq, Eq)]
pub enum PositionError {
    /// The book has no words, so no fraction of it exists.
    InvalidInput,
}

/// `round(x / d)` for `x >= 0`, `d > 0`, halves rounded up.
pub open spec fn round_div(x: int, d: int) -> int {
    (2 * x + d) / (2 * d)
}

impl Location {
    pub open spec fn well_formed(self) -> bool {
        self.den > 0
    }

    /// The percentage `100 * num / den`, as a fraction over `den`.
    pub fn percent_num(&self) -> (r: u128)
        requires
            self.num <= u128::MAX / 100,
        ensures
            r == 100 * self.num,
    {
        100 * self.num
    }
}

/// The location of a bookmark: `(preceding_words + chapter_words * progress) /
/// total_words`, with `chapter_progress` in millionths of the chapter.
pub open spec fn location_of(
    total_words: u32,
    chapter_words: u32,
    chapter_progress: u32,
    preceding_words: u32,
) -> Location {
    Location {
        num: (preceding_words as int * PROGRESS_SCALE + chapter_words as int
            * chapter_progress as int) as u128,
        den: (total_words as int * PROGRESS_SCALE) as u128,
    }
}

/// `location = (preceding_words + chapter_words * progress) / total_words`,
/// where `chapter_progress` counts millionths of the chapter.
pub fn compute_location(
    total_words: u32,
    chapter_words: u32,
    chapter_progress: u32,
    preceding_words: u32,
) -> (r: Result<Location, PositionError>)
    ensures
        total_words == 0 ==> r == Err::<Location, PositionError>(PositionError::InvalidInput),
        total_words > 0 ==> r == Ok::<Location, PositionError>(
            location_of(total_words, chapter_words, chapter_progress, preceding_words),
        ),
        r matches Ok(loc) ==> {
            &&& loc.num == preceding_words as int * PROGRESS_SCALE + chapter_words as int
                * chapter_progress as int
            &&& loc.den == total_words as int * PROGRESS_SCALE
            &&& loc.well_formed()
        },
{
    if total_words == 0 {
        return Err(PositionError::InvalidInput);
    }
    assert(preceding_words as int * 1_000_000 <= 0xffff_ffff * 1_000_000) by (nonlinear_arith)
        requires
            preceding_words <= 0xffff_ffff,
    ;
    assert(chapter_words as int * chapter_progress as int <= 0xffff_ffff * 0xffff_ffff)
        by (nonlinear_arith)
        requires
            chapter_words <= 0xffff_ffff,
            chapter_progress <= 0xffff_ffff,
    ;
    assert(total_words as int * 1_000_000 <= 0xffff_ffff * 1_000_000) by (nonlinear_arith)
        requires
            total_words <= 0xffff_ffff,
    ;
    let pre = preceding_words as u128 * PROGRESS_SCALE as u128;
    let within = chapter_words as u128 * chapter_progress as u128;
    Ok(Location { num: pre + within, den: total_words as u128 * PROGRESS_SCALE as u128 })
}

/// The page that a location falls on in an edition of `pages` pages:
/// `pages * location` rounded to the nearest integer, halves away from zero.
pub open spec fn page_of(loc: Location, pages: int) -> int {
    if pages >= 0 {
        round_div(pages * loc.num, loc.den as int)
    } else {
        -round_div(-pages * loc.num, loc.den as int)
    }
}

proof fn lemma_round_by_remainder(x: int, d: int, q: int, r: int)
    requires
        d > 0,
        0 <= r < d,
        x == q * d + r,
    ensures
        round_div(x, d) == if 2 * r >= d { q + 1 } else { q },
{
    let t = if 2 * r >= d { 1int } else { 0int };
    assert(2 * x + d == (q + t) * (2 * d) + (2 * r + d - 2 * d * t)) by (nonlinear_arith)
        requires
            x == q * d + r,
    ;
    assert(0 <= 2 * r + d - 2 * d * t < 2 * d);
    vstd::arithmetic::div_mod::lemma_fundamental_div_mod_converse(2 * x + d, 2 * d, q + t, 2 * r + d - 2 * d * t);
}

/// Whether `x` is an `i64` value.
pub open spec fn fits_page(x: int) -> bool {
    i64::MIN <= x <= i64::MAX
}

/// Rounds `magnitude * loc` to the nearest integer, halves up, where the
/// result is at most 2^63.
fn round_scaled(magnitude: u128, loc: Location) -> (r: Option<u128>)
    requires
        loc.den > 0,
        loc.den <= u64::MAX,
        magnitude <= 0x8000_0000_0000_0000u128,
    ensures
        r matches Some(v) ==> v == round_div(magnitude * loc.num, loc.den as int) && v
            <= 0x8000_0000_0000_0000u128,
        r is None ==> round_div(magnitude * loc.num, loc.den as int) > 0x8000_0000_0000_0000u128,
{
    let d = loc.den;
    let q = loc.num / d;
    let rem = loc.num % d;
    proof {
        vstd::arithmetic::div_mod::lemma_fundamental_div_mod(loc.num as int, d as int);
    }
    if magnitude == 0 {
        assert(round_div(0, d as int) == 0) by {
            lemma_round_by_remainder(0, d as int, 0, 0);
        }
        return Some(0);
    }
    if q > 0x8000_0000_0000_0000u128 {
        proof {
            let x = magnitude * loc.num;
            assert(x >= q * d) by (nonlinear_arith)
                requires
                    x == magnitude * loc.num,
                    magnitude >= 1,
                    loc.num == d * q + rem,
                    rem >= 0,
                    d > 0,
            ;
            let big = 2 * x + d;
            assert(big >= 2 * (q * d) + d);
            vstd::arithmetic::div_mod::lemma_fundamental_div_mod(big, 2 * d as int);
            let qq = big / (2 * d as int);
            let rr = big % (2 * d as int);
            assert(qq > 0x8000_0000_0000_0000u128) by (nonlinear_arith)
                requires
                    big == qq * (2 * d) + rr,
                    rr < 2 * d,
                    big >= 2 * (q * d) + d,
                    q > 0x8000_0000_0000_0000u128,
                    d > 0,
            ;
        }
        return None;
    }
    assert(magnitude * q <= 0x8000_0000_0000_0000u128 * 0x8000_0000_0000_0000u128) by (nonlinear_arith)
        requires
            magnitude <= 0x8000_0000_0000_0000u128,
            q <= 0x8000_0000_0000_0000u128,
    ;
    assert(magnitude * rem <= 0x8000_0000_0000_0000u128 * 0xffff_ffff_ffff_ffffu128) by (nonlinear_arith)
        requires
            magnitude <= 0x8000_0000_0000_0000u128,
            rem < d,
            d <= 0xffff_ffff_ffff_ffffu128,
    ;
    let a = magnitude * q;
    let x2 = magnitude * rem;
    let q2 = x2 / d;
    let r2 = x2 % d;
    proof {
        vstd::arithmetic::div_mod::lemma_fundamental_div_mod(x2 as int, d as int);
    }
    assert(q2 <= x2) by (nonlinear_arith)
        requires
            x2 == d * q2 + r2,
            r2 >= 0,
            d >= 1,
            q2 >= 0,
    ;
    let b = if 2 * r2 >= d {
        q2 + 1
    } else {
        q2
    };
    proof {
        assert(magnitude * loc.num == (a + q2) * d + r2) by (nonlinear_arith)
            requires
                loc.num == d * q + rem,
                a == magnitude * q,
                x2 == magnitude * rem,
                x2 == d * q2 + r2,
        ;
        lemma_round_by_remainder(magnitude * loc.num, d as int, a + q2, r2 as int);
    }
    let v = a + b;
    if v > 0x8000_0000_0000_0000u128 {
        None
    } else {
        Some(v)
    }
}

/// The page of an edition with `pages` pages that `loc` falls on, where that
/// is an `i64`. A location past the end of the book gives a page past the
/// last.
pub fn page_for_location(loc: Location, pages: i64) -> (r: Option<i64>)
    requires
        loc.well_formed(),
        loc.den <= u64::MAX,
    ensures
        fits_page(page_of(loc, pages as int)) ==> r == Some(page_of(loc, pages as int) as i64),
        !fits_page(page_of(loc, pages as int)) ==> r is None,
{
    if pages >= 0 {
        match round_scaled(pages as u128, loc) {
            Some(v) => if v <= 0x7fff_ffff_ffff_ffff {
                Some(v as i64)
            } else {
                None
            },
            None => None,
        }
    } else {
        let magnitude = (-(pages as i128)) as u128;
        match round_scaled(magnitude, loc) {
            Some(m) => Some((-(m as i128)) as i64),
            None => None,
        }
    }
}

/// Within a book that has words, a bookmark no further than the end of its
/// chapter lies between the start of the book and the end of that chapter, and
/// moving it further into the chapter never moves its location back.
pub proof fn lemma_location_bounded_and_monotone(
    total_words: u32,
    chapter_words: u32,
    progress_a: u32,
    progress_b: u32,
    preceding_words: u32,
)
    requires
        total_words > 0,
        progress_a <= progress_b <= PROGRESS_SCALE,
    ensures
        ({
            let a = location_of(total_words, chapter_words, progress_a, preceding_words);
            let b = location_of(total_words, chapter_words, progress_b, preceding_words);
            &&& a.well_formed()
            &&& a.num as int * total_words <= (preceding_words + chapter_words) * a.den as int
            &&& a.num as int * b.den as int <= b.num as int * a.den as int
        }),
{
    let a = location_of(total_words, chapter_words, progress_a, preceding_words);
    let b = location_of(total_words, chapter_words, progress_b, preceding_words);
    let s = PROGRESS_SCALE as int;
    let (t, c, pa, pb, w) = (total_words as int, chapter_words as int, progress_a as int, progress_b as int, preceding_words as int);
    assert(c * pa <= c * pb <= c * s) by (nonlinear_arith)
        requires
            0 <= c,
            pa <= pb <= s,
    ;
    assert(0 <= w * s + c * pa <= 0xffff_ffff * s + 0xffff_ffff * 0xffff_ffff) by (nonlinear_arith)
        requires
            0 <= w <= 0xffff_ffff,
            0 <= c <= 0xffff_ffff,
            0 <= pa <= s,
            s == 1_000_000,
    ;
    assert(0 <= w * s + c * pb <= 0xffff_ffff * s + 0xffff_ffff * 0xffff_ffff) by (nonlinear_arith)
        requires
            0 <= w <= 0xffff_ffff,
            0 <= c <= 0xffff_ffff,
            0 <= pb <= s,
            s == 1_000_000,
    ;
    assert(0 < t * s <= 0xffff_ffff * s) by (nonlinear_arith)
        requires
            0 < t <= 0xffff_ffff,
            s == 1_000_000,
    ;
    assert((w * s + c * pa) * t <= (w + c) * (t * s)) by (nonlinear_arith)
        requires
            c * pa <= c * s,
            t > 0,
    ;
    assert((w * s + c * pa) * (t * s) <= (w * s + c * pb) * (t * s)) by (nonlinear_arith)
        requires
            c * pa <= c * pb,
            t * s > 0,
    ;
}

/// Every position in a chapter lies at or before every position in the
/// chapter that follows it.
pub proof fn lemma_location_monotone_in_chapter(
    total_words: u32,
    chapter_words: u32,
    next_chapter_words: u32,
    progress: u32,
    next_progress: u32,
    preceding_words: u32,
)
    requires
        total_words > 0,
        progress <= PROGRESS_SCALE,
        preceding_words + chapter_words <= u32::MAX,
    ensures
        ({
            let a = location_of(total_words, chapter_words, progress, preceding_words);
            let b = location_of(
                total_words,
                next_chapter_words,
                next_progress,
                (preceding_words + chapter_words) as u32,
            );
            a.num as int * b.den as int <= b.num as int * a.den as int
        }),
{
    let s = PROGRESS_SCALE as int;
    let (t, c, n, p, np, w) = (
        total_words as int,
        chapter_words as int,
        next_chapter_words as int,
        progress as int,
        next_progress as int,
        preceding_words as int,
    );
    assert(0 <= w * s + c * p <= 0xffff_ffff * s + 0xffff_ffff * 0xffff_ffff) by (nonlinear_arith)
        requires
            0 <= w <= 0xffff_ffff,
            0 <= c <= 0xffff_ffff,
            0 <= p <= s,
            s == 1_000_000,
    ;
    assert(0 <= (w + c) * s + n * np <= 0xffff_ffff * s + 0xffff_ffff * 0xffff_ffff)
        by (nonlinear_arith)
        requires
            0 <= w + c <= 0xffff_ffff,
            0 <= n <= 0xffff_ffff,
            0 <= np <= 0xffff_ffff,
            s == 1_000_000,
    ;
    assert(0 < t * s <= 0xffff_ffff * s) by (nonlinear_arith)
        requires
            0 < t <= 0xffff_ffff,
            s == 1_000_000,
    ;
    assert((w * s + c * p) * (t * s) <= ((w + c) * s + n * np) * (t * s)) by (nonlinear_arith)
        requires
            0 <= p <= s,
            0 <= c,
            0 <= n * np,
            t * s > 0,
    ;
}

} // verus!
