use word_cloud::engine::{WordCloud, WordItem, WordPosition};
use word_cloud::geom::compute_bbox;
use word_cloud::sizing::{estimate_box, map_size};
use word_cloud::trig::{cos_fp, sin_fp};

fn cloud(width: u32, height: u32, min_size: i64, max_size: i64) -> WordCloud {
    WordCloud::new(
        width,
        height,
        "sans-serif".to_string(),
        "normal".to_string(),
        min_size,
        max_size,
    )
}

fn item(text: &str, weight: i64) -> WordItem {
    WordItem { text: text.to_string(), weight, color: None, rotate: None }
}

fn rotated_item(text: &str, weight: i64, rotate: i64) -> WordItem {
    WordItem { text: text.to_string(), weight, color: None, rotate: Some(rotate) }
}

/// Recomputes the rotated bounds of a placed label with the library's own
/// geometry.
fn bounds_of(p: &WordPosition) -> (i64, i64, i64, i64) {
    let size = p.size.unwrap();
    let dims = estimate_box(p.text.chars().count(), size);
    compute_bbox(p.x, p.y, dims.0, dims.1, p.rotate)
}

fn overlap(a: (i64, i64, i64, i64), b: (i64, i64, i64, i64)) -> bool {
    a.0 <= b.2 && b.0 <= a.2 && a.1 <= b.3 && b.1 <= a.3
}

#[test]
fn empty_input_gives_empty_layout() {
    let mut wc = cloud(800, 600, 10_000, 60_000);
    let out = wc.generate_layout(vec![]);
    assert!(out.is_empty());
}

#[test]
fn single_label_is_centered_at_max_size() {
    let mut wc = cloud(800, 600, 10_000, 60_000);
    let out = wc.generate_layout(vec![item("hello", 1_000)]);
    assert_eq!(out.len(), 1);
    assert_eq!(out[0].text, "hello");
    assert_eq!(out[0].weight, 1_000);
    assert_eq!(out[0].x, 400_000);
    assert_eq!(out[0].y, 300_000);
    assert_eq!(out[0].rotate, 0);
    assert_eq!(out[0].color, None);
    assert_eq!(out[0].size, Some(60_000));
}

#[test]
fn two_weights_interpolate_to_the_extremes() {
    let mut wc = cloud(800, 600, 10_000, 50_000);
    let out = wc.generate_layout(vec![item("a", 1_000), item("b", 10_000)]);
    assert_eq!(out.len(), 2);
    for p in &out {
        if p.text == "a" {
            assert_eq!(p.size, Some(10_000));
        } else {
            assert_eq!(p.text, "b");
            assert_eq!(p.size, Some(50_000));
        }
    }
}

#[test]
fn interpolation_formula_exact_midpoint() {
    assert_eq!(map_size(5_000, 0, 10_000, 10_000, 20_000), 15_000);
    assert_eq!(map_size(0, 0, 10_000, 10_000, 20_000), 10_000);
    assert_eq!(map_size(10_000, 0, 10_000, 10_000, 20_000), 20_000);
}

#[test]
fn uniform_weights_all_take_max_size() {
    let mut wc = cloud(800, 600, 10_000, 40_000);
    let out = wc.generate_layout(vec![item("a", 7), item("b", 7), item("c", 7), item("d", 7)]);
    assert!(!out.is_empty());
    for p in &out {
        assert_eq!(p.size, Some(40_000));
    }
}

#[test]
fn estimate_is_six_tenths_of_size_per_character() {
    assert_eq!(estimate_box(5, 60_000), (180_000, 60_000));
    assert_eq!(estimate_box(1, 10_000), (6_000, 10_000));
    assert_eq!(estimate_box(0, 10_000), (0, 10_000));
}

#[test]
fn placed_boxes_stay_inside_the_canvas() {
    let mut wc = cloud(400, 300, 8_000, 30_000);
    let words: Vec<WordItem> = (0..12).map(|k| rotated_item("word", k * 100, 300)).collect();
    let out = wc.generate_layout(words);
    assert!(!out.is_empty());
    for p in &out {
        let b = bounds_of(p);
        assert!(b.0 >= 0 && b.1 >= 0, "box leaves the canvas: {:?}", b);
        assert!(b.2 <= 400_000 && b.3 <= 300_000, "box leaves the canvas: {:?}", b);
    }
}

#[test]
fn placed_boxes_do_not_overlap_pairwise() {
    let mut wc = cloud(800, 600, 8_000, 24_000);
    let words: Vec<WordItem> = (0..10).map(|k| rotated_item("ab", 100 + k, 250)).collect();
    let out = wc.generate_layout(words);
    assert!(out.len() >= 2);
    for i in 0..out.len() {
        for j in (i + 1)..out.len() {
            let a = bounds_of(&out[i]);
            let b = bounds_of(&out[j]);
            assert!(!overlap(a, b), "boxes {:?} and {:?} overlap", a, b);
        }
    }
}

#[test]
fn archimedean_runs_are_deterministic() {
    let words = vec![
        rotated_item("one", 1, 0),
        rotated_item("two", 5, 0),
        rotated_item("three", 9, 0),
    ];
    let mut wc1 = cloud(800, 600, 10_000, 40_000);
    let mut wc2 = cloud(800, 600, 10_000, 40_000);
    wc1.set_spiral("archimedean".to_string());
    wc2.set_spiral("archimedean".to_string());
    let out1 = wc1.generate_layout(words.clone());
    let out2 = wc2.generate_layout(words);
    assert_eq!(out1, out2);
}

#[test]
fn rectangular_runs_are_deterministic() {
    let words = vec![rotated_item("one", 1, 0), rotated_item("two", 5, 0)];
    let mut wc1 = cloud(600, 400, 10_000, 30_000);
    let mut wc2 = cloud(600, 400, 10_000, 30_000);
    wc1.set_spiral("rectangular".to_string());
    wc2.set_spiral("rectangular".to_string());
    let out1 = wc1.generate_layout(words.clone());
    let out2 = wc2.generate_layout(words);
    assert_eq!(out1, out2);
}

#[test]
fn unknown_spiral_name_falls_back_to_archimedean() {
    let words = vec![rotated_item("one", 1, 0), rotated_item("two", 5, 0)];
    let mut wc1 = cloud(800, 600, 10_000, 40_000);
    let mut wc2 = cloud(800, 600, 10_000, 40_000);
    wc2.set_spiral("wavy".to_string());
    let out1 = wc1.generate_layout(words.clone());
    let out2 = wc2.generate_layout(words);
    assert_eq!(out1, out2);
}

#[test]
fn explicit_rotation_is_honored() {
    let mut wc = cloud(800, 600, 10_000, 20_000);
    let out = wc.generate_layout(vec![rotated_item("tilted", 3, 500)]);
    assert_eq!(out.len(), 1);
    assert_eq!(out[0].rotate, 500);
}

#[test]
fn drawn_rotation_stays_inside_the_range() {
    let mut wc = cloud(800, 600, 10_000, 20_000);
    wc.set_rotation_range(400);
    let out = wc.generate_layout(vec![item("a", 1), item("b", 2), item("c", 3)]);
    assert!(!out.is_empty());
    for p in &out {
        assert!(-400 <= p.rotate && p.rotate <= 400, "rotation {} out of range", p.rotate);
    }
}

#[test]
fn zero_rotation_range_places_unrotated() {
    let mut wc = cloud(800, 600, 10_000, 20_000);
    let out = wc.generate_layout(vec![item("a", 1)]);
    assert_eq!(out.len(), 1);
    assert_eq!(out[0].rotate, 0);
}

#[test]
fn seeded_draws_are_reproducible() {
    let mut wc1 = cloud(800, 600, 10_000, 20_000);
    let mut wc2 = cloud(800, 600, 10_000, 20_000);
    wc1.set_rotation_range(900);
    wc2.set_rotation_range(900);
    wc1.set_seed(42);
    wc2.set_seed(42);
    let out1 = wc1.generate_layout(vec![item("a", 1), item("b", 2)]);
    let out2 = wc2.generate_layout(vec![item("a", 1), item("b", 2)]);
    assert_eq!(out1, out2);
}

#[test]
fn oversized_label_is_silently_omitted() {
    let mut wc = cloud(100, 100, 90_000, 90_000);
    let out = wc.generate_layout(vec![item("wwwwwwwwww", 1)]);
    assert!(out.is_empty());
}

#[test]
fn reset_grid_always_succeeds_and_runs_are_independent() {
    let mut wc = cloud(800, 600, 10_000, 60_000);
    assert!(wc.reset_grid());
    let out1 = wc.generate_layout(vec![rotated_item("hello", 1, 0)]);
    let out2 = wc.generate_layout(vec![rotated_item("hello", 1, 0)]);
    assert_eq!(out1, out2);
    assert_eq!(out1.len(), 1);
    assert_eq!(out1[0].x, 400_000);
}

#[test]
fn color_passes_through_unmodified() {
    let mut wc = cloud(800, 600, 10_000, 20_000);
    let out = wc.generate_layout(vec![WordItem {
        text: "tinted".to_string(),
        weight: 4,
        color: Some("#a0b1c2".to_string()),
        rotate: Some(0),
    }]);
    assert_eq!(out.len(), 1);
    assert_eq!(out[0].color, Some("#a0b1c2".to_string()));
}

#[test]
fn fixed_point_trig_values() {
    assert_eq!(cos_fp(0), 1000);
    assert_eq!(sin_fp(0), 0);
    assert_eq!(sin_fp(1571), 1000);
    assert_eq!(sin_fp(3142), 0);
    assert!(cos_fp(3142) <= -995);
    for t in [-7000i64, -3000, -100, 0, 100, 3000, 7000, 12_345] {
        assert!(cos_fp(t).abs() <= 1000);
        assert!(sin_fp(t).abs() <= 1000);
    }
}

#[test]
fn second_label_is_displaced_from_the_center() {
    let mut wc = cloud(800, 600, 20_000, 20_000);
    let out = wc.generate_layout(vec![rotated_item("first", 1, 0), rotated_item("second", 1, 0)]);
    assert_eq!(out.len(), 2);
    assert_eq!((out[0].x, out[0].y), (400_000, 300_000));
    assert!((out[1].x, out[1].y) != (400_000, 300_000));
    let a = bounds_of(&out[0]);
    let b = bounds_of(&out[1]);
    assert!(!overlap(a, b));
}

#[test]
fn character_count_drives_the_estimate_for_multibyte_text() {
    // Five characters, ten bytes: a five-character box (60 px wide) fits a
    // 100-px canvas, a ten-character one (120 px) would not.
    let mut wc = cloud(100, 100, 20_000, 20_000);
    let out = wc.generate_layout(vec![rotated_item("ééééé", 1, 0)]);
    assert_eq!(out.len(), 1);
    assert_eq!((out[0].x, out[0].y), (50_000, 50_000));
}

#[test]
fn placement_count_never_exceeds_input() {
    let mut wc = cloud(200, 150, 12_000, 20_000);
    let words: Vec<WordItem> = (0..30).map(|k| rotated_item("dense", k, 0)).collect();
    let out = wc.generate_layout(words);
    assert!(out.len() <= 30);
}
