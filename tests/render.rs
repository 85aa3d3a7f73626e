use raytracer::render::{accumulate, Config};

#[test]
fn config_keeps_its_fields() {
    let c = Config::new(400, 225, 100, 5, 50);
    assert_eq!(c.image_width(), 400);
    assert_eq!(c.image_height(), 225);
    assert_eq!(c.samples_per_pixel(), 100);
    assert_eq!(c.time_samples(), 5);
    assert_eq!(c.max_depth(), 50);
}

#[test]
fn config_counts() {
    let c = Config::new(400, 225, 100, 5, 50);
    assert_eq!(c.pixel_count(), 90_000);
    assert_eq!(c.sample_count(), 500);
    assert_eq!(c.plane_spans(), (399, 224));
}

#[test]
fn pixel_coords_are_row_major() {
    let c = Config::new(3, 2, 1, 1, 1);
    assert_eq!(
        c.pixel_coords(),
        vec![(0, 0), (0, 1), (0, 2), (1, 0), (1, 1), (1, 2)]
    );
}

#[test]
fn pixel_coords_single_pixel() {
    let c = Config::new(1, 1, 1, 1, 1);
    assert_eq!(c.pixel_coords(), vec![(0, 0)]);
    assert_eq!(c.plane_spans(), (0, 0));
}

#[test]
fn accumulate_adds_pixelwise() {
    let image = vec![(0.0f64, 1.0f64), (2.0, 3.0)];
    let frame = vec![(0.5f64, 0.25f64), (1.0, -1.0)];
    let r = accumulate(&image, &frame, &|a: &(f64, f64), b: &(f64, f64)| (a.0 + b.0, a.1 + b.1));
    assert_eq!(r, vec![(0.5, 1.25), (3.0, 2.0)]);
}

#[test]
fn accumulate_empty() {
    let image: Vec<u32> = Vec::new();
    let r = accumulate(&image, &image, &|a: &u32, b: &u32| a + b);
    assert!(r.is_empty());
}
