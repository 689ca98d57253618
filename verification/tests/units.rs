use issen::i18n::{Lang, Strings};
use issen::tools::units::{category_label, convert, Category, Conversion, Unit, CATEGORIES};

/// The value that a conversion gives.
fn apply(conversion: Conversion, value: f64) -> f64 {
    match conversion {
        Conversion::Linear { from, to } => value * factor(from) / factor(to),
        Conversion::Temperature { from_scale, to_scale } => {
            let celsius = (value - from_scale.offset as f64 / 100.0) * from_scale.num as f64
                / from_scale.den as f64;
            celsius * to_scale.den as f64 / to_scale.num as f64 + to_scale.offset as f64 / 100.0
        }
    }
}

fn factor(unit: Unit) -> f64 {
    unit.num as f64 / unit.den as f64
}

fn converted(category: Category, value: f64, from: usize, to: usize) -> Option<f64> {
    convert(category, from, to).map(|c| apply(c, value))
}

#[test]
fn converts_km_to_miles() {
    let km_idx = 1;
    let mile_idx = 4;
    let result = converted(Category::Length, 1.0, km_idx, mile_idx).unwrap();
    assert!((result - 0.621_371).abs() < 0.001);
}

#[test]
fn converts_celsius_to_fahrenheit() {
    let result = converted(Category::Temperature, 0.0, 0, 1).unwrap();
    assert!((result - 32.0).abs() < 0.0001);
    let result = converted(Category::Temperature, 100.0, 0, 1).unwrap();
    assert!((result - 212.0).abs() < 0.0001);
}

#[test]
fn converts_celsius_to_kelvin() {
    let result = converted(Category::Temperature, 0.0, 0, 2).unwrap();
    assert!((result - 273.15).abs() < 0.0001);
}

#[test]
fn converts_gb_to_mb() {
    let result = converted(Category::Data, 1.0, 3, 2).unwrap();
    assert!((result - 1024.0).abs() < 0.001);
}

#[test]
fn out_of_range_index_is_none() {
    assert!(converted(Category::Length, 1.0, 99, 0).is_none());
}

#[test]
fn every_conversion_is_undone_by_the_other_way() {
    for category in CATEGORIES {
        let n = category.units().len();
        for a in 0..n {
            for b in 0..n {
                let there = converted(category, 36.5, a, b).unwrap();
                let back = converted(category, there, b, a).unwrap();
                assert!((back - 36.5).abs() < 1e-6);
            }
        }
    }
    let kelvin = converted(Category::Temperature, 212.0, 1, 2).unwrap();
    assert!((kelvin - 373.15).abs() < 1e-9);
}

#[test]
fn either_index_can_be_out_of_range() {
    assert!(convert(Category::Time, 0, 4).is_none());
    assert!(convert(Category::Time, 3, 3).is_some());
    assert!(convert(Category::Temperature, 3, 0).is_none());
}

#[test]
fn every_conversion_is_undone_by_its_reverse() {
    for category in CATEGORIES {
        let n = category.units().len();
        assert!(n >= 2);
        for from in 0..n {
            for to in 0..n {
                let there = converted(category, 12.5, from, to).unwrap();
                let back = converted(category, there, to, from).unwrap();
                assert!((back - 12.5).abs() < 1e-9);
            }
        }
    }
}

#[test]
fn factors_have_their_known_values() {
    let value = |category: Category, i: usize| factor(category.units()[i]);
    assert_eq!(value(Category::Length, 4), 1609.344);
    assert_eq!(value(Category::Length, 7), 0.0254);
    assert_eq!(value(Category::Mass, 3), 0.45359237);
    assert_eq!(value(Category::Mass, 4), 0.028349523125);
    assert_eq!(value(Category::Area, 4), 4046.8564224);
    assert_eq!(value(Category::Area, 5), 0.09290304);
    assert_eq!(value(Category::Volume, 3), 3.785411784);
    assert_eq!(value(Category::Volume, 4), 0.946352946);
    assert_eq!(value(Category::Volume, 5), 0.2365882365);
    assert_eq!(value(Category::Speed, 2), 0.44704);
    assert_eq!(value(Category::Speed, 3), 0.514444444);
    assert_eq!(value(Category::Data, 4), 1024.0 * 1024.0 * 1024.0 * 1024.0);
}

#[test]
fn categories_are_named_in_the_language() {
    assert_eq!(category_label(Category::Mass, &Strings::for_lang(Lang::En)), "Mass");
    assert_eq!(category_label(Category::Mass, &Strings::for_lang(Lang::Ja)), "質量");
}
