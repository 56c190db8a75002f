use amity_art::color::Rgba;
use amity_art::flood_fill::flood_fill;
use amity_art::image::Image;

fn red() -> Rgba {
    Rgba::new(255, 0, 0, 255)
}

fn black() -> Rgba {
    Rgba::new(0, 0, 0, 255)
}

/// A 7 by 5 white image with a black vertical wall at column 3, open at row 4.
fn walled() -> Image {
    let mut img = Image::new(7, 5, Rgba::white());
    for y in 0..4 {
        img.set_pixel(3, y, black());
    }
    img
}

fn snapshot(img: &Image) -> Vec<Option<Rgba>> {
    let mut v = Vec::new();
    for y in 0..img.height() as i64 {
        for x in 0..img.width() as i64 {
            v.push(img.get_color(x, y));
        }
    }
    v
}

#[test]
fn fill_reaches_around_wall() {
    let mut img = walled();
    flood_fill(&mut img, 0, 0, red());
    for y in 0..5i64 {
        for x in 0..7i64 {
            let expected = if x == 3 && y < 4 { black() } else { red() };
            assert_eq!(img.get_color(x, y), Some(expected), "pixel {x},{y}");
        }
    }
}

#[test]
fn fill_stops_at_closed_wall() {
    let mut img = walled();
    img.set_pixel(3, 4, black());
    flood_fill(&mut img, 1, 2, red());
    for y in 0..5i64 {
        for x in 0..7i64 {
            let expected = if x == 3 { black() } else if x < 3 { red() } else { Rgba::white() };
            assert_eq!(img.get_color(x, y), Some(expected), "pixel {x},{y}");
        }
    }
}

#[test]
fn fill_does_not_cross_diagonals() {
    let mut img = Image::new(3, 3, Rgba::white());
    img.set_pixel(1, 0, black());
    img.set_pixel(0, 1, black());
    flood_fill(&mut img, 0, 0, red());
    assert_eq!(img.get_color(0, 0), Some(red()));
    assert_eq!(img.get_color(1, 1), Some(Rgba::white()));
    assert_eq!(img.get_color(2, 2), Some(Rgba::white()));
}

#[test]
fn fill_single_pixel_region() {
    let mut img = Image::new(3, 3, black());
    img.set_pixel(1, 1, Rgba::white());
    flood_fill(&mut img, 1, 1, red());
    assert_eq!(img.get_color(1, 1), Some(red()));
    assert_eq!(img.get_color(0, 1), Some(black()));
    assert_eq!(img.get_color(1, 0), Some(black()));
}

#[test]
fn fill_with_same_color_is_noop() {
    let mut img = walled();
    let before = snapshot(&img);
    flood_fill(&mut img, 0, 0, Rgba::white());
    assert_eq!(snapshot(&img), before);
    assert_eq!(img.pixel_bytes(), walled().pixel_bytes());
}

#[test]
fn fill_outside_is_noop() {
    let mut img = walled();
    let before = snapshot(&img);
    flood_fill(&mut img, -1, 0, red());
    flood_fill(&mut img, 7, 0, red());
    flood_fill(&mut img, 0, 5, red());
    assert_eq!(snapshot(&img), before);
}

#[test]
fn fill_concave_region() {
    // A U shape of white inside black: the fill must come back up the right arm.
    let mut img = Image::new(5, 4, black());
    for y in 0..4 {
        img.set_pixel(0, y, Rgba::white());
        img.set_pixel(4, y, Rgba::white());
    }
    for x in 0..5 {
        img.set_pixel(x, 3, Rgba::white());
    }
    flood_fill(&mut img, 0, 0, red());
    for y in 0..4i64 {
        for x in 0..5i64 {
            let white = x == 0 || x == 4 || y == 3;
            let expected = if white { red() } else { black() };
            assert_eq!(img.get_color(x, y), Some(expected), "pixel {x},{y}");
        }
    }
}

#[test]
fn fill_spiral_region() {
    // '#' is black; the white corridor winds inward from the top-left corner.
    let rows = [
        ".......",
        "######.",
        ".....#.",
        ".###.#.",
        ".#...#.",
        ".#####.",
        ".......",
    ];
    let mut img = Image::new(7, 7, Rgba::white());
    for (y, row) in rows.iter().enumerate() {
        for (x, ch) in row.chars().enumerate() {
            if ch == '#' {
                img.set_pixel(x as i64, y as i64, black());
            }
        }
    }
    flood_fill(&mut img, 0, 0, red());
    for (y, row) in rows.iter().enumerate() {
        for (x, ch) in row.chars().enumerate() {
            let expected = if ch == '#' { black() } else { red() };
            assert_eq!(img.get_color(x as i64, y as i64), Some(expected), "pixel {x},{y}");
        }
    }
}

#[test]
fn fill_comb_teeth() {
    // Teeth hang down from a top bar; each gap between teeth is reached from the bar
    // and the bottom row joins them again.
    let mut img = Image::new(9, 5, black());
    for x in 0..9 {
        img.set_pixel(x, 0, Rgba::white());
        img.set_pixel(x, 4, Rgba::white());
    }
    for y in 1..4 {
        for x in [0i64, 2, 4, 6, 8] {
            img.set_pixel(x, y, Rgba::white());
        }
    }
    flood_fill(&mut img, 4, 2, red());
    for y in 0..5i64 {
        for x in 0..9i64 {
            let white = y == 0 || y == 4 || x % 2 == 0;
            let expected = if white { red() } else { black() };
            assert_eq!(img.get_color(x, y), Some(expected), "pixel {x},{y}");
        }
    }
}
