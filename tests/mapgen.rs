use gibbering_mouther::map::{check_decoded, Error, MapMeta, WorldMap};
use gibbering_mouther::terrain::{generate, render_row, TerrainBands, SAMPLE_ONE};
use noise::{NoiseFn, OpenSimplex, Seedable};

fn to_sample(v: f64) -> i32 {
    let scaled = (v * SAMPLE_ONE as f64).round();
    scaled.max(-(SAMPLE_ONE as f64)).min(SAMPLE_ONE as f64) as i32
}

fn sample_grid(seed: u32, width: usize, height: usize, scale: f64) -> Vec<Vec<i32>> {
    let field = OpenSimplex::new().set_seed(seed);
    (0..height)
        .map(|i| (0..width).map(|j| to_sample(field.get([j as f64 * scale, i as f64 * scale]))).collect())
        .collect()
}

fn rows(m: &WorldMap) -> Vec<&str> {
    m.map.iter().map(|r| r.as_str()).collect()
}

#[test]
fn it_works() {
    let result = 2 + 2;
    assert_eq!(result, 4);
}

#[test]
fn standard_bands_quantize_at_cut_points() {
    let b = TerrainBands::standard();
    assert_eq!(b.glyph(-1_000_000), '~');
    assert_eq!(b.glyph(-200_001), '~');
    assert_eq!(b.glyph(-200_000), '.');
    assert_eq!(b.glyph(0), '.');
    assert_eq!(b.glyph(199_999), '.');
    assert_eq!(b.glyph(200_000), '^');
    assert_eq!(b.glyph(1_000_000), '^');
    assert_eq!(b.band(0), 1);
}

#[test]
fn bands_reject_bad_configuration() {
    assert!(TerrainBands::new(vec![5, 1], vec!['a', 'b', 'c']).is_none());
    assert!(TerrainBands::new(vec![1, 1], vec!['a', 'b', 'c']).is_none());
    assert!(TerrainBands::new(vec![1, 5], vec!['a', 'b']).is_none());
    assert!(TerrainBands::new(vec![], vec![]).is_none());
    let one = TerrainBands::new(vec![], vec!['#']).unwrap();
    assert_eq!(one.glyph(-7), '#');
    let b = TerrainBands::new(vec![-10, 0, 10], vec!['a', 'b', 'c', 'd']).unwrap();
    assert_eq!(b.glyph(-11), 'a');
    assert_eq!(b.glyph(-10), 'b');
    assert_eq!(b.glyph(5), 'c');
    assert_eq!(b.glyph(10), 'd');
}

#[test]
fn render_row_draws_each_sample() {
    let b = TerrainBands::standard();
    assert_eq!(render_row(&vec![-500_000, 0, 500_000, 0], &b), "~.^.");
    assert_eq!(render_row(&vec![], &b), "");
}

#[test]
fn generate_quantizes_grid() {
    let b = TerrainBands::standard();
    let samples = vec![vec![-900_000, -100_000, 300_000], vec![250_000, 0, -250_000]];
    let m = generate(3, 2, &samples, &b);
    assert_eq!(m.meta, MapMeta { height: 2, width: 3 });
    assert_eq!(rows(&m), vec!["~.^", "^.~"]);
}

#[test]
fn generate_zero_size_is_empty() {
    let b = TerrainBands::standard();
    let m = generate(0, 0, &vec![], &b);
    assert!(m.map.is_empty());
    assert_eq!(m.meta, MapMeta { height: 0, width: 0 });
    let wide = generate(4, 0, &vec![], &b);
    assert!(wide.map.is_empty());
    let tall = generate(0, 2, &vec![vec![], vec![]], &b);
    assert_eq!(rows(&tall), vec!["", ""]);
    assert!(tall.validate().is_ok());
}

#[test]
fn generate_is_deterministic() {
    let b = TerrainBands::standard();
    let g1 = sample_grid(8675309, 6, 4, 0.1);
    let g2 = sample_grid(8675309, 6, 4, 0.1);
    let m1 = generate(6, 4, &g1, &b);
    let m2 = generate(6, 4, &g2, &b);
    assert_eq!(m1.map, m2.map);
    assert_eq!(m1.meta, m2.meta);
}

#[test]
fn seeded_ten_by_ten_scenario() {
    let b = TerrainBands::new(vec![-200_000, 200_000], vec!['~', '.', '^']).unwrap();
    let first = generate(10, 10, &sample_grid(8675309, 10, 10, 0.1), &b);
    let second = generate(10, 10, &sample_grid(8675309, 10, 10, 0.1), &b);
    assert_eq!(first.map, second.map);
    assert_eq!(
        rows(&first),
        vec![
            "...^^^^...",
            "....^^^^..",
            ".....^^^^.",
            "......^^^^",
            "......^^^^",
            ".....^^^^^",
            ".....^^^^^",
            ".....^^^^^",
            "...^^^^^^^",
            "^^^^^^^^^^",
        ]
    );
    assert_eq!(first.map.len(), 10);
    for row in &first.map {
        assert_eq!(row.chars().count(), 10);
        assert!(row.chars().all(|c| c == '~' || c == '.' || c == '^'));
    }
    assert!(first.validate().is_ok());
}

#[test]
fn validate_accepts_consistent_map() {
    let m = WorldMap { map: vec!["ab".to_string(), "cd".to_string()], meta: MapMeta { height: 2, width: 2 } };
    let back = m.clone().validate().unwrap();
    assert_eq!(back.map, m.map);
    assert_eq!(back.meta, m.meta);
}

#[test]
fn validate_counts_characters_not_bytes() {
    let m = WorldMap { map: vec!["é~".to_string()], meta: MapMeta { height: 1, width: 2 } };
    assert!(m.validate().is_ok());
}

#[test]
fn validate_rejects_short_row() {
    let m = WorldMap { map: vec!["abc".to_string(), "ab".to_string()], meta: MapMeta { height: 2, width: 3 } };
    assert_eq!(m.validate().unwrap_err(), Error::InvariantError);
}

#[test]
fn validate_rejects_wrong_row_count() {
    let m = WorldMap { map: vec!["abc".to_string()], meta: MapMeta { height: 2, width: 3 } };
    assert_eq!(m.validate().unwrap_err(), Error::InvariantError);
}

#[test]
fn check_decoded_reports_parse_failure() {
    assert_eq!(check_decoded(None).unwrap_err(), Error::ParseDBError);
    let m = WorldMap { map: vec!["x".to_string()], meta: MapMeta { height: 1, width: 1 } };
    assert_eq!(check_decoded(Some(m)).unwrap().map, vec!["x".to_string()]);
    let bad = WorldMap { map: vec![], meta: MapMeta { height: 1, width: 1 } };
    assert_eq!(check_decoded(Some(bad)).unwrap_err(), Error::InvariantError);
}

