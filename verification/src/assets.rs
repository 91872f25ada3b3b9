use vstd::prelude::*;
use crate::image::Image;
use crate::image::ImageAnimation;
use crate::image::SpriteColor;
use crate::image::row_bit;

verus! {

/// A row mask restricted to the declared width: bits at or beyond the
/// width are cleared; a width of 32 keeps the whole word.
pub open spec fn spec_masked_row(row: u32, width: u16) -> u32 {
    if width >= 32 {
        row
    } else {
        row & (((1u32 << (width as u32)) - 1) as u32)
    }
}

/// Builds a well-formed image from raw row masks: each row is the given
/// one with any bit at or beyond the declared width masked off, honoring
/// the 32-pixel row-width ceiling.
fn masked_image(rows: Vec<u32>, width: u16, color: SpriteColor) -> (r: Image)
    requires
        width <= 32,
        rows@.len() <= u16::MAX,
    ensures
        r.wf(),
        r.width == width,
        r.color == color,
        r.pixels@.len() == rows@.len(),
        forall|i: int|
            0 <= i < rows@.len() ==> r.pixels@[i] == spec_masked_row(#[trigger] rows@[i], width),
{
    if width == 32 {
        let r = Image { pixels: rows, width, color };
        proof {
            assert forall|i: int, c: int|
                #![trigger row_bit(r.pixels@[i], c)]
                0 <= i < r.pixels@.len() && r.width <= c implies !row_bit(r.pixels@[i], c) by {
            }
        }
        return r;
    }
    let wu: u32 = width as u32;
    proof {
        assert((1u32 << wu) >= 1) by (bit_vector)
            requires
                wu < 32,
        ;
    }
    let mask: u32 = (1u32 << wu) - 1;
    let mut pixels: Vec<u32> = Vec::new();
    let mut i: usize = 0;
    while i < rows.len()
        invariant
            wu == width,
            width < 32,
            mask == (1u32 << wu) - 1,
            pixels@.len() == i <= rows@.len(),
            forall|j: int, c: int|
                #![trigger row_bit(pixels@[j], c)]
                0 <= j < pixels@.len() && width <= c ==> !row_bit(pixels@[j], c),
            forall|j: int|
                0 <= j < i ==> pixels@[j] == spec_masked_row(#[trigger] rows@[j], width),
        decreases rows@.len() - i,
    {
        let row_i: u32 = rows[i];
        let masked: u32 = row_i & mask;
        proof {
            assert((masked >> wu) == 0) by (bit_vector)
                requires
                    masked == row_i & mask,
                    mask == (1u32 << wu) - 1,
                    wu < 32,
            ;
            crate::image::lemma_row_wf_equiv(masked, width);
        }
        pixels.push(masked);
        i = i + 1;
    }
    Image { pixels, width, color }
}

/// Frame count, pixel width, and non-emptiness of every frame, plus
/// well-formedness: what the game logic relies on for each animation.
pub open spec fn spec_animation_shape(a: ImageAnimation, frames: int, width: int) -> bool {
    &&& a.wf()
    &&& a.0@.len() == frames
    &&& forall|i: int|
        0 <= i < a.0@.len() ==> (#[trigger] a.0@[i]).width == width && a.0@[i].pixels@.len() > 0
}

/// The two-frame running animation of the player character, 14 pixels wide.
pub fn trex_running() -> (r: ImageAnimation)
    ensures
        spec_animation_shape(r, 2, 14),
{
    let mut frames: Vec<Image> = Vec::new();
    frames.push(
        masked_image(
            vec![
                0b_0_1_1_1_1_1_1_0_0_0_0_0_0_0,
                0b_1_1_1_1_0_0_1_1_0_0_0_0_0_0,
                0b_1_1_1_1_0_0_1_1_0_0_0_0_0_0,
                0b_1_1_1_1_1_1_1_1_0_0_0_0_0_0,
                0b_0_0_0_0_1_1_1_1_0_0_0_0_0_0,
                0b_0_0_1_1_1_1_1_1_0_0_0_0_0_0,
                0b_0_0_0_0_0_1_1_1_1_0_0_0_0_1,
                0b_0_0_0_1_1_1_1_1_1_1_0_0_1_1,
                0b_0_0_0_1_0_1_1_1_1_1_1_1_1_1,
                0b_0_0_0_0_0_1_1_1_1_1_1_1_1_1,
                0b_0_0_0_0_0_1_1_1_1_1_1_1_1_0,
                0b_0_0_0_0_0_0_1_1_1_1_1_1_0_0,
                0b_0_0_0_0_0_0_0_1_1_1_1_0_0_0,
                0b_0_0_0_0_0_0_1_1_0_1_1_0_0_0,
                0b_0_0_0_0_0_0_0_0_0_0_1_0_0_0,
                0b_0_0_0_0_0_0_0_0_0_1_1_0_0_0,
            ],
            14,
            SpriteColor::Red,
        ),
    );
    frames.push(
        masked_image(
            vec![
                0b_0_1_1_1_1_1_1_0_0_0_0_0_0_0,
                0b_1_1_1_1_0_0_1_1_0_0_0_0_0_0,
                0b_1_1_1_1_0_0_1_1_0_0_0_0_0_0,
                0b_1_1_1_1_1_1_1_1_0_0_0_0_0_0,
                0b_0_0_0_0_1_1_1_1_0_0_0_0_0_0,
                0b_0_0_1_1_1_1_1_1_0_0_0_0_0_0,
                0b_0_0_0_0_0_1_1_1_1_0_0_0_0_1,
                0b_0_0_0_1_1_1_1_1_1_1_0_0_1_1,
                0b_0_0_0_1_0_1_1_1_1_1_1_1_1_1,
                0b_0_0_0_0_0_1_1_1_1_1_1_1_1_1,
                0b_0_0_0_0_0_1_1_1_1_1_1_1_1_0,
                0b_0_0_0_0_0_0_1_1_1_1_1_1_0_0,
                0b_0_0_0_0_0_0_0_1_1_1_1_0_0_0,
                0b_0_0_0_0_0_0_0_1_0_0_1_0_0_0,
                0b_0_0_0_0_0_0_0_1_0_1_1_0_0_0,
                0b_0_0_0_0_0_0_1_1_0_0_0_0_0_0,
            ],
            14,
            SpriteColor::Red,
        ),
    );
    ImageAnimation(frames)
}

/// The two-frame crouching animation of the player character, 18 pixels
/// wide.
pub fn trex_crouching() -> (r: ImageAnimation)
    ensures
        spec_animation_shape(r, 2, 18),
{
    let mut frames: Vec<Image> = Vec::new();
    frames.push(
        masked_image(
            vec![
                0b_0_1_1_1_1_1_1_0_0_0_0_0_0_0_0_0_0_0,
                0b_1_1_1_1_0_0_1_1_0_1_1_1_1_0_0_0_0_1,
                0b_1_1_1_1_1_1_1_1_1_1_1_1_1_1_0_0_1_1,
                0b_1_1_1_1_1_1_1_1_1_1_1_1_1_1_1_1_1_1,
                0b_0_0_0_0_1_1_1_1_1_1_1_1_1_1_1_1_1_1,
                0b_0_0_1_1_1_1_1_0_0_1_1_1_1_1_1_1_1_0,
                0b_0_0_0_0_0_0_0_0_1_1_1_1_1_1_1_1_0_0,
                0b_0_0_0_0_0_0_0_0_1_0_1_1_0_1_1_0_0_0,
                0b_0_0_0_0_0_0_0_0_0_0_0_1_0_0_1_1_0_0,
                0b_0_0_0_0_0_0_0_0_0_0_1_1_0_0_0_1_0_0,
                0b_0_0_0_0_0_0_0_0_0_0_0_0_0_0_1_1_0_0,
            ],
            18,
            SpriteColor::Red,
        ),
    );
    frames.push(
        masked_image(
            vec![
                0b_0_1_1_1_1_1_1_0_0_0_0_0_0_0_0_0_0_0,
                0b_1_1_1_1_0_0_1_1_0_1_1_1_1_0_0_0_0_1,
                0b_1_1_1_1_1_1_1_1_1_1_1_1_1_1_0_0_1_1,
                0b_1_1_1_1_1_1_1_1_1_1_1_1_1_1_1_1_1_1,
                0b_0_0_0_0_1_1_1_1_1_1_1_1_1_1_1_1_1_1,
                0b_0_0_1_1_1_1_1_0_0_1_1_1_1_1_1_1_1_0,
                0b_0_0_0_0_0_0_0_0_1_1_1_1_1_1_1_1_0_0,
                0b_0_0_0_0_0_0_0_0_1_0_1_1_0_0_1_0_0_0,
                0b_0_0_0_0_0_0_0_0_0_0_0_1_1_0_0_1_0_0,
                0b_0_0_0_0_0_0_0_0_0_0_0_0_1_0_1_1_0_0,
                0b_0_0_0_0_0_0_0_0_0_0_0_1_1_0_0_0_0_0,
            ],
            18,
            SpriteColor::Red,
        ),
    );
    ImageAnimation(frames)
}

/// The four-frame bird animation, 17 pixels wide.
pub fn bird() -> (r: ImageAnimation)
    ensures
        spec_animation_shape(r, 4, 17),
{
    let mut frames: Vec<Image> = Vec::new();
    frames.push(
        masked_image(
            vec![
                0b_0_0_0_0_0_0_0_0_0_1_1_1_0_0_0_0_0,
                0b_0_0_0_0_0_0_0_0_0_1_1_1_1_0_0_0_0,
                0b_0_0_0_0_0_0_1_1_0_1_1_1_1_1_0_0_0,
                0b_0_0_0_0_0_1_1_1_0_1_1_0_0_1_0_0_0,
                0b_0_0_1_1_1_1_1_1_1_1_1_0_0_1_1_1_1,
                0b_1_1_1_1_1_1_1_1_1_1_1_1_1_1_1_1_0,
                0b_0_0_0_0_1_1_1_1_1_1_1_1_1_1_0_0_0,
                0b_0_0_1_1_1_1_1_1_1_1_1_1_1_1_0_0_0,
                0b_0_0_0_0_0_1_1_1_1_1_1_1_1_0_0_0_0,
            ],
            17,
            SpriteColor::LightBlue,
        ),
    );
    frames.push(
        masked_image(
            vec![
                0b_0_0_0_0_0_0_0_0_0_1_1_1_0_0_0_0_0,
                0b_0_0_0_0_0_0_0_0_0_1_1_1_1_0_0_0_0,
                0b_0_0_0_0_0_0_0_0_0_1_1_1_1_1_0_0_0,
                0b_0_0_0_0_0_0_0_0_0_1_1_0_0_1_0_0_0,
                0b_0_0_1_1_1_1_1_1_1_1_1_0_0_1_1_1_1,
                0b_1_1_1_1_1_1_1_1_1_1_1_1_1_1_1_1_0,
                0b_0_0_0_0_1_1_1_1_1_1_1_1_1_1_0_0_0,
                0b_0_0_1_1_1_1_1_1_1_1_1_1_1_1_0_0_0,
                0b_0_0_0_0_0_1_1_1_1_1_1_1_1_0_0_0_0,
                0b_0_0_0_0_0_0_0_0_0_0_0_0_0_0_0_0_0,
            ],
            17,
            SpriteColor::LightBlue,
        ),
    );
    frames.push(
        masked_image(
            vec![
                0b_0_0_0_0_0_0_0_0_0_1_1_1_0_0_0_0_0,
                0b_0_0_0_0_0_0_0_0_0_1_1_1_1_0_0_0_0,
                0b_0_0_0_0_0_0_0_0_0_1_1_1_1_1_0_0_0,
                0b_0_0_0_0_0_0_0_0_0_1_1_0_0_1_0_0_0,
                0b_0_0_1_1_1_1_1_1_1_1_1_0_0_1_1_1_1,
                0b_1_1_1_1_1_1_1_1_1_1_1_1_1_1_1_1_0,
                0b_0_0_0_0_1_1_1_1_1_1_1_1_1_1_0_0_0,
                0b_0_0_1_1_1_1_1_1_1_1_1_1_1_1_0_0_0,
                0b_0_0_0_0_0_1_1_1_1_1_1_1_1_0_0_0_0,
                0b_0_0_0_0_0_1_1_1_0_0_0_0_0_0_0_0_0,
                0b_0_0_0_0_0_0_1_1_0_0_0_0_0_0_0_0_0,
            ],
            17,
            SpriteColor::LightBlue,
        ),
    );
    frames.push(
        masked_image(
            vec![
                0b_0_0_0_0_0_0_0_0_0_1_1_1_0_0_0_0_0,
                0b_0_0_0_0_0_0_0_0_0_1_1_1_1_0_0_0_0,
                0b_0_0_0_0_0_0_0_0_0_1_1_1_1_1_0_0_0,
                0b_0_0_0_0_0_0_0_0_0_1_1_0_0_1_0_0_0,
                0b_0_0_1_1_1_1_1_1_1_1_1_0_0_1_1_1_1,
                0b_1_1_1_1_1_1_1_1_1_1_1_1_1_1_1_1_0,
                0b_0_0_0_0_1_1_1_1_1_1_1_1_1_1_0_0_0,
                0b_0_0_1_1_1_1_1_1_1_1_1_1_1_1_0_0_0,
                0b_0_0_0_0_0_1_1_1_1_1_1_1_1_0_0_0_0,
                0b_0_0_0_0_0_0_0_0_0_0_0_0_0_0_0_0_0,
            ],
            17,
            SpriteColor::LightBlue,
        ),
    );
    ImageAnimation(frames)
}

/// The three cactus variants, 11 pixels wide and 15 rows tall.
pub fn cactuses() -> (r: Vec<Image>)
    ensures
        r@.len() == 3,
        forall|i: int|
            0 <= i < r@.len() ==> (#[trigger] r@[i]).wf() && r@[i].width == 11
                && r@[i].pixels@.len() > 0,
{
    let mut out: Vec<Image> = Vec::new();
    let mut n: usize = 0;
    while n < 3
        invariant
            out@.len() == n <= 3,
            forall|i: int|
                0 <= i < out@.len() ==> (#[trigger] out@[i]).wf() && out@[i].width == 11
                    && out@[i].pixels@.len() > 0,
        decreases 3 - n,
    {
        out.push(
            masked_image(
                vec![
                    0b_0_0_0_0_0_1_0_0_0_0_0,
                    0b_0_0_0_0_1_1_1_0_0_0_0,
                    0b_0_1_0_0_1_1_1_0_0_0_0,
                    0b_1_1_0_0_1_1_1_0_0_1_0,
                    0b_1_1_0_0_1_1_1_0_0_1_1,
                    0b_1_1_0_0_1_1_1_0_0_1_1,
                    0b_1_1_0_0_1_1_1_0_0_1_1,
                    0b_1_1_0_0_1_1_1_0_0_1_1,
                    0b_1_1_1_1_1_1_1_1_1_1_1,
                    0b_0_1_1_1_1_1_1_1_1_1_0,
                    0b_0_0_1_1_1_1_1_1_1_0_0,
                    0b_0_0_0_0_1_1_1_0_0_0_0,
                    0b_0_0_0_0_1_1_1_0_0_0_0,
                    0b_0_0_0_0_1_1_1_0_0_0_0,
                    0b_0_0_0_0_1_1_1_0_0_0_0,
                ],
                11,
                SpriteColor::Green,
            ),
        );
        n = n + 1;
    }
    out
}

} // verus!
