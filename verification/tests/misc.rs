use std::cmp::Ordering;

use fractal_tiles::color::{black, color16, color_of_iterations, Color};
use fractal_tiles::complex_rational::ComplexRationalNumber;
use fractal_tiles::config::{validate_request, ConfigError};
use fractal_tiles::fractal_image::FractalImage;
use fractal_tiles::models::{FractalResponse, Response, WebSocketResponse};
use fractal_tiles::rational::RationalNumber;
use fractal_tiles::tile::{TileData, TileDataPoint};

#[test]
fn color_it_works() {
    let result = 2 + 2;
    assert_eq!(result, 4);
}

#[test]
fn fractal_image_it_works() {
    let result = 2 + 2;
    assert_eq!(result, 4);
}

#[test]
fn complex_it_works() {
    let result = 2 + 2;
    assert_eq!(result, 4);
}

#[test]
fn complex_rational_numbers_it_works() {
    let result = 2 + 2;
    assert_eq!(result, 4);
}

#[test]
fn test_color16_palette() {
    let palette = color16();
    assert_eq!(palette.len(), 16);
    assert_eq!(palette[0], Color { r: 0, g: 0, b: 0 });
    assert_eq!(palette[1], Color { r: 128, g: 0, b: 0 });
    assert_eq!(palette[9], Color { r: 255, g: 0, b: 0 });
    assert_eq!(palette[15], Color { r: 0, g: 255, b: 255 });
    assert_eq!(black(), Color { r: 0, g: 0, b: 0 });
}

#[test]
fn test_color_of_iterations() {
    let palette = color16();

    // The iteration limit was reached: the pixel stays default-colored.
    assert_eq!(color_of_iterations(10, 10, &palette), Color { r: 0, g: 0, b: 0 });
    assert_eq!(color_of_iterations(11, 10, &palette), Color { r: 0, g: 0, b: 0 });

    // Below the limit the palette cycles.
    assert_eq!(color_of_iterations(5, 10, &palette), palette[5]);
    assert_eq!(color_of_iterations(20, 100, &palette), palette[4]);
}

#[test]
fn test_validate_request() {
    assert!(validate_request(100, 100, 10, 10, 16).is_ok());
    assert!(validate_request(100, 100, 10, 10, 256).is_ok());
    assert_eq!(
        validate_request(100, 100, 10, 10, 12),
        Err(ConfigError::UnsupportedColors)
    );
    assert_eq!(
        validate_request(100, 100, 0, 10, 16),
        Err(ConfigError::BadTileGrid)
    );
    assert_eq!(
        validate_request(100, 100, 101, 10, 256),
        Err(ConfigError::BadTileGrid)
    );
    assert_eq!(
        validate_request(9, 9, 2, 10, 16),
        Err(ConfigError::BadTileGrid)
    );
    assert_eq!(
        ConfigError::UnsupportedColors.message(),
        "number of colors not supported"
    );
}

#[test]
fn test_complex_rational_ops() {
    let z = ComplexRationalNumber {
        a: RationalNumber { num: 1, denom: 2 },
        b: RationalNumber { num: 1, denom: 3 },
    };

    let squared = z.pow2();
    assert!(squared.a.equals(&RationalNumber { num: 5, denom: 36 }));
    assert!(squared.b.equals(&RationalNumber { num: 1, denom: 3 }));

    let norm = z.length_squared();
    assert!(norm.equals(&RationalNumber { num: 13, denom: 36 }));

    let w = ComplexRationalNumber {
        a: RationalNumber { num: 1, denom: 4 },
        b: RationalNumber { num: -1, denom: 3 },
    };
    let sum = z.add(&w);
    assert!(sum.a.equals(&RationalNumber { num: 3, denom: 4 }));
    assert!(sum.b.equals(&RationalNumber { num: 0, denom: 1 }));

    let zero = ComplexRationalNumber::default();
    assert!(zero.a.equals(&RationalNumber { num: 0, denom: 5 }));

    let one_half = RationalNumber { num: 1, denom: 2 };
    let one_third = RationalNumber { num: 1, denom: 3 };
    assert_eq!(one_half.compare(&one_third), Ordering::Greater);
}

#[test]
fn test_data_model_shapes() {
    let p = TileDataPoint::new(3, 5, Color { r: 1, g: 2, b: 3 });
    assert_eq!(p.get_x(), 3);
    assert_eq!(p.get_y(), 5);
    assert_eq!(*p.get_color(), Color { r: 1, g: 2, b: 3 });

    let td = TileData::new(7, vec![p]);
    assert_eq!(td.get_idx(), 7);
    assert_eq!(td.get_points().len(), 1);

    let img = FractalImage::default();
    assert_eq!(img.width, 0);
    assert_eq!(img.height, 0);
    assert!(img.pixels.is_empty());

    let response = Response {
        duration: String::from("0 ms"),
        fractal: img,
    };
    assert_eq!(response.duration, "0 ms");

    let fr = FractalResponse {
        duration_calculation: String::from("0 ms"),
        duration_ms: 0,
        fractal: FractalImage::default(),
    };
    assert_eq!(fr.duration_ms, 0);

    let ws = WebSocketResponse {
        height: Some(100),
        tile: None,
    };
    assert_eq!(ws.height, Some(100));
    assert!(ws.tile.is_none());
}
