use trex_runner::image::Image;
use trex_runner::image::Origin;
use trex_runner::image::OriginPair;
use trex_runner::image::Sprite;
use trex_runner::image::SpriteColor;
use trex_runner::math::Line;
use trex_runner::math::Pos;
use trex_runner::math::Rect;
use trex_runner::math::Size;

fn image(pixels: Vec<u32>, width: u16) -> Image {
    Image { pixels, width, color: SpriteColor::Red }
}

#[test]
fn sprite_collision() {
    let img_a = image(vec![0b1111], 4);
    let img_b = image(vec![0b1111, 0b0001], 4);

    let a = Sprite {
        position: Pos::new(0, 0),
        origin: OriginPair::new(Origin::Min, Origin::Min),
        image: &img_a,
    };

    let mut b = Sprite {
        position: Pos::new(3, 0),
        origin: OriginPair::new(Origin::Min, Origin::Min),
        image: &img_b,
    };

    assert!(a.collide(&b));
    assert!(b.collide(&a));

    // Change Position

    b.position = Pos::new(4, 0);
    assert!(!a.collide(&b));

    b.position = Pos::new(0, -1);
    assert!(a.collide(&b));
    assert!(b.collide(&a));

    b.position = Pos::new(-1, -1);
    assert!(!a.collide(&b));
    assert!(!b.collide(&a));

    // Change Origin

    b.position = Pos::new(-1, 0);
    b.origin = OriginPair::new(Origin::Max, Origin::Max);
    assert!(!a.collide(&b));

    // With a Max y-origin at y = -1, `b` covers rows [-2, 0) and `a` covers
    // row 0 alone: the boxes share no row, so there is no collision.
    b.position = Pos::new(3, -1);
    b.origin = OriginPair::new(Origin::Min, Origin::Max);
    assert!(!a.collide(&b));

    b.position = Pos::new(4, -1);
    b.origin = OriginPair::new(Origin::Min, Origin::Max);
    assert!(!a.collide(&b));
}

#[test]
fn bounding_box() {
    let img = image(vec![0b1111, 0b1000], 4);

    let mut sprite = Sprite {
        position: Pos::new(3, 1),
        origin: OriginPair::new(Origin::Min, Origin::Min),
        image: &img,
    };

    assert_eq!(
        sprite.bounding_box(),
        Rect { x: Line::new(3, 7), y: Line::new(1, 3) }
    );

    sprite.origin = OriginPair::new(Origin::Max, Origin::Max);
    assert_eq!(
        sprite.bounding_box(),
        Rect { x: Line::new(0, 4), y: Line::new(0, 2) }
    );
}

#[test]
fn disjoint_boxes_never_collide() {
    let img = image(vec![0b1111], 4);
    let a = Sprite {
        position: Pos::new(0, 0),
        origin: OriginPair::new(Origin::Min, Origin::Min),
        image: &img,
    };
    let b = Sprite {
        position: Pos::new(5, 0),
        origin: OriginPair::new(Origin::Min, Origin::Min),
        image: &img,
    };
    assert!(!a.collide(&b));
    assert!(!b.collide(&a));
}

#[test]
fn touching_boxes_with_disjoint_masks() {
    // Boxes adjacent: overlap must be strictly positive in width to collide.
    let img_a = image(vec![0b1111], 4);
    let img_b = image(vec![0b0001], 4);
    let a = Sprite {
        position: Pos::new(0, 0),
        origin: OriginPair::new(Origin::Min, Origin::Min),
        image: &img_a,
    };
    let mut b = Sprite {
        position: Pos::new(4, 0),
        origin: OriginPair::new(Origin::Min, Origin::Min),
        image: &img_b,
    };
    assert!(!a.collide(&b));

    // One pixel left: the single opaque bit now shares a column with `a`.
    b.position = Pos::new(3, 0);
    assert!(a.collide(&b));
}

#[test]
fn overlapping_boxes_disjoint_pixels() {
    // Box overlap without any shared opaque bit is no collision.
    let img_a = image(vec![0b0011], 4);
    let img_b = image(vec![0b1100], 4);
    let a = Sprite {
        position: Pos::new(0, 0),
        origin: OriginPair::new(Origin::Min, Origin::Min),
        image: &img_a,
    };
    let b = Sprite {
        position: Pos::new(0, 0),
        origin: OriginPair::new(Origin::Min, Origin::Min),
        image: &img_b,
    };
    assert!(!a.collide(&b));
    assert!(!b.collide(&a));
}

#[test]
fn rect_clips_left_edge() {
    let img = image(vec![0b1111, 0b1000], 4);
    let sprite = Sprite {
        position: Pos::new(-2, 0),
        origin: OriginPair::new(Origin::Min, Origin::Min),
        image: &img,
    };
    let rect = sprite
        .rect(Pos::new(0, 0), Size::new(10, 10))
        .expect("partially visible sprite");
    assert_eq!(rect.image_offset_x, 2);
    assert_eq!(rect.image_offset_y, 0);
    assert_eq!(rect.rect.x, Line::new(0, 2));
    assert_eq!(rect.rect.y, Line::new(0, 2));
    assert!(rect.wf_check());

    let mut pixels = rect.set_pixels();
    pixels.sort_by_key(|p| (p.y, p.x));
    // Visible columns 2 and 3: row 0 has both bits, row 1 only bit 3.
    assert_eq!(pixels, vec![Pos::new(0, 0), Pos::new(1, 0), Pos::new(1, 1)]);
}

#[test]
fn rect_off_canvas_is_none() {
    let img = image(vec![0b1111], 4);
    let sprite = Sprite {
        position: Pos::new(-4, 0),
        origin: OriginPair::new(Origin::Min, Origin::Min),
        image: &img,
    };
    assert!(sprite.rect(Pos::new(0, 0), Size::new(10, 10)).is_none());

    let right = Sprite {
        position: Pos::new(10, 0),
        origin: OriginPair::new(Origin::Min, Origin::Min),
        image: &img,
    };
    assert!(right.rect(Pos::new(0, 0), Size::new(10, 10)).is_none());
}

#[test]
fn compiled_artwork_is_well_formed() {
    let running = trex_runner::assets::trex_running();
    let crouching = trex_runner::assets::trex_crouching();
    let bird = trex_runner::assets::bird();
    let cactuses = trex_runner::assets::cactuses();

    assert_eq!(running.0.len(), 2);
    assert_eq!(crouching.0.len(), 2);
    assert_eq!(bird.0.len(), 4);
    assert_eq!(cactuses.len(), 3);

    for frame in running.0.iter().chain(crouching.0.iter()).chain(bird.0.iter()) {
        assert!(frame.wf_check());
        assert!(!frame.pixels.is_empty());
    }
    assert_eq!(running.0[0].width, 14);
    assert_eq!(crouching.0[0].width, 18);
    assert_eq!(bird.0[0].width, 17);
    for cactus in &cactuses {
        assert!(cactus.wf_check());
        assert_eq!(cactus.width, 11);
        assert_eq!(cactus.pixels.len(), 15);
    }

    // Golden rows: the artwork holds the drawn patterns, not blank masks.
    assert_eq!(running.0[0].pixels[0], 0b_0_1_1_1_1_1_1_0_0_0_0_0_0_0);
    assert_eq!(running.0[1].pixels[15], 0b_0_0_0_0_0_0_1_1_0_0_0_0_0_0);
    assert_eq!(
        crouching.0[0].pixels[3],
        0b_1_1_1_1_1_1_1_1_1_1_1_1_1_1_1_1_1_1
    );
    assert_eq!(bird.0[0].pixels[5], 0b_1_1_1_1_1_1_1_1_1_1_1_1_1_1_1_1_0);
    assert_eq!(cactuses[0].pixels[0], 0b_0_0_0_0_0_1_0_0_0_0_0);
    assert_eq!(cactuses[2].pixels[8], 0b_1_1_1_1_1_1_1_1_1_1_1);
}

#[test]
fn image_wf_check_flags_stray_bits() {
    let good = image(vec![0b1111], 4);
    assert!(good.wf_check());

    let stray = image(vec![0b10000], 4);
    assert!(!stray.wf_check());

    let wide = image(vec![0b1], 40);
    assert!(!wide.wf_check());
}
