use sketchbook::ray_tracing::hittable::{choose_root, nearest_hit, Root};
use sketchbook::decimal::push_decimal;
use sketchbook::ray_tracing::material::{scatter, Encounter, Outgoing};
use sketchbook::ray_tracing::ppm::{image_text, Rgb};
use sketchbook::ray_tracing::render::{
    exhausted, pixel_at, progress_line, ray_color, Place, Probe, Shade,
};
use sketchbook::ray_tracing::scene::{scene_plan, Slot};

fn rgb(red: u8, green: u8, blue: u8) -> Rgb {
    Rgb { red, green, blue }
}

#[test]
fn a_pixel_line_holds_three_numbers_and_a_newline() {
    assert_eq!(rgb(255, 0, 128).format_str(), "255 0 128\n");
    assert_eq!(rgb(0, 0, 0).format_str(), "0 0 0\n");
    assert_eq!(rgb(9, 10, 99).format_str(), "9 10 99\n");
    assert_eq!(rgb(100, 101, 200).format_str(), "100 101 200\n");
}

#[test]
fn numbers_are_written_without_leading_zeros() {
    for (number, expected) in [
        (0u64, "0"),
        (7, "7"),
        (10, "10"),
        (255, "255"),
        (1200, "1200"),
        (1000000, "1000000"),
        (u64::MAX, "18446744073709551615"),
    ] {
        let mut text = String::from("x");
        push_decimal(&mut text, number);
        assert_eq!(text, format!("x{expected}"));
    }
}

#[test]
fn an_image_is_its_header_and_a_line_for_each_pixel() {
    let pixels = vec![rgb(255, 255, 255), rgb(0, 0, 0), rgb(1, 2, 3), rgb(10, 20, 30)];
    assert_eq!(image_text(2, 2, &pixels), "P3\n2 2\n255\n255 255 255\n0 0 0\n1 2 3\n10 20 30\n");
    assert_eq!(image_text(4, 1, &pixels), "P3\n4 1\n255\n255 255 255\n0 0 0\n1 2 3\n10 20 30\n");
    assert_eq!(image_text(0, 0, &Vec::new()), "P3\n0 0\n255\n");
    assert_eq!(image_text(0, 7, &Vec::new()), "P3\n0 7\n255\n");
}

#[test]
fn the_stream_conforms_line_by_line() {
    let width = 20u64;
    let height = 13u64;
    let mut pixels = Vec::new();
    for index in 0..width * height {
        pixels.push(rgb((index % 256) as u8, (index * 7 % 256) as u8, 255 - (index % 256) as u8));
    }
    let text = image_text(width, height, &pixels);
    assert!(text.ends_with('\n'));
    let lines: Vec<&str> = text.split('\n').collect();
    assert_eq!(lines.len(), 3 + 260 + 1);
    assert_eq!(lines[0], "P3");
    assert_eq!(lines[1], "20 13");
    assert_eq!(lines[2], "255");
    assert_eq!(lines[263], "");
    for (index, pixel) in pixels.iter().enumerate() {
        let fields: Vec<&str> = lines[3 + index].split(' ').collect();
        assert_eq!(fields.len(), 3);
        let values: Vec<u32> = fields.iter().map(|field| field.parse().unwrap()).collect();
        assert_eq!(values, vec![pixel.red as u32, pixel.green as u32, pixel.blue as u32]);
        assert!(values.iter().all(|value| *value <= 255));
        assert!(fields.iter().all(|field| field.bytes().all(|byte| byte.is_ascii_digit())));
    }
}

#[test]
fn pixels_are_produced_from_the_top_row_down_and_from_left_to_right() {
    assert_eq!(pixel_at(20, 13, 0), Place { column: 0, row: 12 });
    assert_eq!(pixel_at(20, 13, 1), Place { column: 1, row: 12 });
    assert_eq!(pixel_at(20, 13, 19), Place { column: 19, row: 12 });
    assert_eq!(pixel_at(20, 13, 20), Place { column: 0, row: 11 });
    assert_eq!(pixel_at(20, 13, 259), Place { column: 19, row: 0 });
    assert_eq!(pixel_at(1200, 800, 959_999), Place { column: 1199, row: 0 });
    assert_eq!(pixel_at(1, 1, 0), Place { column: 0, row: 0 });
}

#[test]
fn every_pixel_is_produced_once() {
    let mut seen = vec![false; 7 * 5];
    let mut last = None;
    for index in 0..35 {
        let place = pixel_at(7, 5, index);
        assert!(place.column < 7 && place.row < 5);
        let slot = (place.row * 7 + place.column) as usize;
        assert!(!seen[slot]);
        seen[slot] = true;
        if let Some(Place { column, row }) = last {
            assert!(place.row < row || (place.row == row && place.column > column));
        }
        last = Some(place);
    }
    assert!(seen.iter().all(|seen| *seen));
}

#[test]
fn a_ray_without_bounces_left_is_black_whatever_it_strikes() {
    for probe in [Probe::Miss, Probe::Absorbed, Probe::Scattered] {
        assert_eq!(ray_color(0, probe), Shade::Black);
    }
    assert!(exhausted(0));
    assert!(!exhausted(1));
    assert!(!exhausted(50));
}

#[test]
fn a_ray_with_bounces_left_follows_what_it_strikes() {
    assert_eq!(ray_color(1, Probe::Miss), Shade::Sky);
    assert_eq!(ray_color(1, Probe::Absorbed), Shade::Black);
    assert_eq!(ray_color(1, Probe::Scattered), Shade::Attenuated { depth: 0 });
    assert_eq!(ray_color(50, Probe::Scattered), Shade::Attenuated { depth: 49 });
    assert_eq!(ray_color(u64::MAX, Probe::Scattered), Shade::Attenuated { depth: u64::MAX - 1 });
    assert_eq!(ray_color(50, Probe::Miss), Shade::Sky);
}

#[test]
fn the_top_left_pixel_of_a_small_image_shows_the_sky_at_depth_one() {
    let place = pixel_at(20, 13, 0);
    assert_eq!(place, Place { column: 0, row: 12 });
    assert!(!exhausted(1));
    assert_eq!(ray_color(1, Probe::Miss), Shade::Sky);
}

#[test]
fn progress_is_reported_by_the_rows_that_remain() {
    assert_eq!(progress_line(799), "Scan lines remaining: 799");
    assert_eq!(progress_line(0), "Scan lines remaining: 0");
}

#[test]
fn of_two_spheres_along_a_ray_the_one_at_distance_two_is_hit() {
    let near = 2.0f64.to_bits();
    let far = 5.0f64.to_bits();
    assert!(near < far);
    assert_eq!(nearest_hit(&vec![Some(near), Some(far)]), Some(0));
    assert_eq!(nearest_hit(&vec![Some(far), Some(near)]), Some(1));
    assert_eq!(nearest_hit(&vec![None, Some(far), None, Some(near), None]), Some(3));
}

#[test]
fn no_reply_means_no_hit() {
    assert_eq!(nearest_hit(&Vec::new()), None);
    assert_eq!(nearest_hit(&vec![None, None, None]), None);
}

#[test]
fn of_equal_distances_the_last_shape_wins() {
    assert_eq!(nearest_hit(&vec![Some(7), Some(3), Some(3), Some(9)]), Some(2));
    assert_eq!(nearest_hit(&vec![Some(u64::MAX)]), Some(0));
    assert_eq!(nearest_hit(&vec![Some(u64::MAX), None, Some(u64::MAX)]), Some(2));
    assert_eq!(nearest_hit(&vec![Some(0), Some(1)]), Some(0));
}

#[test]
fn the_near_root_is_tried_first_and_the_far_root_second() {
    assert_eq!(choose_root(5, 9, 1, 100), Some(Root::Near));
    assert_eq!(choose_root(1, 9, 1, 100), Some(Root::Near));
    assert_eq!(choose_root(100, 200, 1, 100), Some(Root::Near));
    assert_eq!(choose_root(0, 9, 1, 100), Some(Root::Far));
    assert_eq!(choose_root(0, 100, 1, 100), Some(Root::Far));
    assert_eq!(choose_root(0, 101, 1, 100), None);
    assert_eq!(choose_root(101, 102, 1, 100), None);
    assert_eq!(choose_root(0, 0, 1, 100), None);
    assert_eq!(choose_root(5, 9, 10, 3), None);
}

#[test]
fn the_scene_holds_the_ground_the_grid_and_three_large_spheres() {
    let plan = scene_plan();
    assert_eq!(plan.len(), 1 + 23 * 23 + 3);
    assert_eq!(plan[0], Slot::Ground);
    assert_eq!(plan[1], Slot::Small { a: -11, b: -11 });
    assert_eq!(plan[2], Slot::Small { a: -11, b: -10 });
    assert_eq!(plan[23], Slot::Small { a: -11, b: 11 });
    assert_eq!(plan[24], Slot::Small { a: -10, b: -11 });
    assert_eq!(plan[1 + 11 * 23 + 11], Slot::Small { a: 0, b: 0 });
    assert_eq!(plan[529], Slot::Small { a: 11, b: 11 });
    assert_eq!(plan[530], Slot::Glass);
    assert_eq!(plan[531], Slot::Diffuse);
    assert_eq!(plan[532], Slot::Metal);
    let mut index = 1;
    for a in -11..=11 {
        for b in -11..=11 {
            assert_eq!(plan[index], Slot::Small { a, b });
            index += 1;
        }
    }
}

#[test]
fn a_diffuse_surface_always_scatters() {
    assert_eq!(scatter(Encounter::Lambertian { degenerate: false }), Some(Outgoing::Diffuse));
    assert_eq!(scatter(Encounter::Lambertian { degenerate: true }), Some(Outgoing::Normal));
}

#[test]
fn metal_absorbs_a_ray_that_would_enter_it() {
    assert_eq!(scatter(Encounter::Metal { outward: true }), Some(Outgoing::Mirror));
    assert_eq!(scatter(Encounter::Metal { outward: false }), None);
}

#[test]
fn glass_that_cannot_refract_mirrors_the_ray_whatever_is_drawn() {
    for will_reflect in [false, true] {
        assert_eq!(
            scatter(Encounter::Dielectric { cannot_refract: true, will_reflect }),
            Some(Outgoing::Mirror)
        );
    }
    assert_eq!(
        scatter(Encounter::Dielectric { cannot_refract: false, will_reflect: true }),
        Some(Outgoing::Mirror)
    );
    assert_eq!(
        scatter(Encounter::Dielectric { cannot_refract: false, will_reflect: false }),
        Some(Outgoing::Refracted)
    );
}
