use raytracer::number::Decimal;
use raytracer::render::{sample_block, CastPlan, OptionsError, RenderOptions, RendererOutput, Sample, Shading};
use raytracer::scene::Material;
use raytracer::scene_file::parse_file;

fn with_shininess(magnitude: u64, scale: u32) -> Material {
    let mut m = Material::default_material();
    m.shininess = Decimal { negative: false, magnitude, scale };
    m
}

#[test]
fn shininess_picks_the_shading() {
    assert_eq!(with_shininess(0, 0).shading(), Shading::Diffuse);
    assert_eq!(with_shininess(0, 3).shading(), Shading::Diffuse);
    assert_eq!(with_shininess(1, 0).shading(), Shading::Mirror);
    assert_eq!(with_shininess(10, 1).shading(), Shading::Mirror);
    assert_eq!(with_shininess(5, 1).shading(), Shading::Blend);
    assert_eq!(with_shininess(2, 0).shading(), Shading::Blend);
}

#[test]
fn options_defaults_and_limits() {
    let o = RenderOptions::from_file(&parse_file("png 4 3 a.png").unwrap()).unwrap();
    assert_eq!(o, RenderOptions { width: 4, height: 3, max_depth: 4, aa: 1 });
    let o = RenderOptions::from_file(&parse_file("png 4 3 a.png\nbounces 1\naa 2").unwrap()).unwrap();
    assert_eq!(o, RenderOptions { width: 4, height: 3, max_depth: 1, aa: 2 });
    assert_eq!((o.sample_width(), o.sample_height(), o.scale()), (8, 6, 8));
    let zero = parse_file("png 4 3 a.png\naa 0").unwrap();
    assert_eq!(RenderOptions::from_file(&zero), Err(OptionsError::ZeroSupersampling));
    let big = parse_file("png 4000000000 3 a.png").unwrap();
    assert_eq!(RenderOptions::from_file(&big), Err(OptionsError::TooLarge));
}

#[test]
fn mirror_at_the_bounce_limit_contributes_nothing() {
    let o = RenderOptions { width: 1, height: 1, max_depth: 2, aa: 1 };
    let mirror = with_shininess(1, 0);
    assert_eq!(o.plan(2, Some(mirror)), CastPlan::Reflect);
    assert_eq!(o.plan(3, Some(mirror)), CastPlan::Nothing);
    assert_eq!(o.plan(0, None), CastPlan::Nothing);
    assert_eq!(o.plan(0, Some(with_shininess(0, 0))), CastPlan::Local);
    assert_eq!(o.plan(1, Some(with_shininess(25, 2))), CastPlan::Blend);
    assert!(o.may_trace(2) && !o.may_trace(3));
}

#[test]
fn samples_cover_the_grid_in_raster_order() {
    let o = RenderOptions { width: 2, height: 1, max_depth: 4, aa: 2 };
    let s = o.initialize_rays();
    assert_eq!(s.len(), 8);
    assert_eq!(s[0], Sample { x: 0, y: 0, sx: -4, sy: 2 });
    assert_eq!(s[3], Sample { x: 3, y: 0, sx: 2, sy: 2 });
    assert_eq!(s[5], Sample { x: 1, y: 1, sx: -2, sy: 0 });
    let empty = RenderOptions { width: 0, height: 5, max_depth: 4, aa: 1 };
    assert!(empty.initialize_rays().is_empty());
}

#[test]
fn sample_buffer_starts_empty_and_records() {
    let mut out: RendererOutput<u32> = RendererOutput::new(3, 2);
    assert_eq!(out.pixel_buffer.len(), 2);
    assert!(out.pixel_buffer.iter().all(|row| row.len() == 3 && row.iter().all(|p| p.is_none())));
    out.put(2, 1, 7);
    assert_eq!(out.pixel_buffer[1][2], Some(7));
    assert_eq!(out.pixel_buffer[0][2], None);
}

#[test]
fn blocks_gather_the_supersamples_of_a_pixel() {
    let image: Vec<Vec<u32>> = (0..4).map(|y| (0..6).map(|x| 10 * y + x).collect()).collect();
    assert_eq!(sample_block(&image, 1, 1, 2), vec![22, 23, 32, 33]);
    assert_eq!(sample_block(&image, 2, 0, 2), vec![4, 5, 14, 15]);
    assert_eq!(sample_block(&image, 5, 3, 1), vec![35]);
}
