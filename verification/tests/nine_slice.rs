use willos_graveyard::nine_slice::{
    generate_nineslice_image, texture_atlas_from_nine_slice, ImageData, NineSliceError,
    NineSliceIndex, NineSliceSize, URect, UVec2,
};

fn rect(x0: u32, y0: u32, x1: u32, y1: u32) -> URect {
    URect { min: UVec2::new(x0, y0), max: UVec2::new(x1, y1) }
}

/// A 3 by 3 image of one-byte pixels numbered row by row.
fn three_by_three() -> ImageData {
    ImageData { width: 3, height: 3, format: 7, pixel_size: 1, data: Some((0..9).collect()) }
}

#[test]
fn atlas_cuts_nine_slices() {
    let atlas = texture_atlas_from_nine_slice(UVec2::splat(64), 16, 8, 4, 2);
    assert_eq!(atlas.size, UVec2::new(64, 64));
    assert_eq!(
        atlas.textures,
        vec![
            rect(0, 0, 16, 4),
            rect(16, 0, 56, 4),
            rect(56, 0, 64, 4),
            rect(0, 4, 16, 62),
            rect(16, 4, 56, 62),
            rect(56, 4, 64, 62),
            rect(0, 62, 16, 64),
            rect(16, 62, 56, 64),
            rect(56, 62, 64, 64),
        ]
    );
}

#[test]
fn reassembling_at_size_one_gives_back_the_image() {
    let image = three_by_three();
    let atlas = texture_atlas_from_nine_slice(UVec2::new(3, 3), 1, 1, 1, 1);
    let out = generate_nineslice_image(
        NineSliceSize { inner_width: 1, inner_height: 1 },
        NineSliceIndex::default(),
        &atlas,
        Some(&image),
    )
    .unwrap();
    assert_eq!((out.width, out.height), (3, 3));
    assert_eq!((out.format, out.pixel_size), (7, 1));
    assert_eq!(out.data, (0..9).collect::<Vec<u8>>());
}

#[test]
fn center_and_borders_repeat() {
    let image = three_by_three();
    let atlas = texture_atlas_from_nine_slice(UVec2::new(3, 3), 1, 1, 1, 1);
    let out = generate_nineslice_image(
        NineSliceSize { inner_width: 2, inner_height: 0 },
        NineSliceIndex::default(),
        &atlas,
        Some(&image),
    )
    .unwrap();
    assert_eq!((out.width, out.height), (4, 2));
    assert_eq!(out.data, vec![0, 1, 1, 2, 6, 7, 7, 8]);
}

#[test]
fn border_only_image_at_size_zero() {
    let image = three_by_three();
    let atlas = texture_atlas_from_nine_slice(UVec2::new(3, 3), 1, 1, 1, 1);
    let out = generate_nineslice_image(
        NineSliceSize::default(),
        NineSliceIndex::default(),
        &atlas,
        Some(&image),
    )
    .unwrap();
    assert_eq!((out.width, out.height), (2, 2));
    assert_eq!(out.data, vec![0, 2, 6, 8]);
}

#[test]
fn wider_pixels_are_copied_whole() {
    let image = ImageData { width: 3, height: 3, format: 7, pixel_size: 2, data: Some((0..18).collect()) };
    let atlas = texture_atlas_from_nine_slice(UVec2::new(3, 3), 1, 1, 1, 1);
    let out = generate_nineslice_image(
        NineSliceSize::default(),
        NineSliceIndex::default(),
        &atlas,
        Some(&image),
    )
    .unwrap();
    assert_eq!(out.data, vec![0, 1, 4, 5, 12, 13, 16, 17]);
}

#[test]
fn missing_image_is_an_error() {
    let atlas = texture_atlas_from_nine_slice(UVec2::new(3, 3), 1, 1, 1, 1);
    assert_eq!(
        generate_nineslice_image(NineSliceSize::default(), NineSliceIndex::default(), &atlas, None),
        Err(NineSliceError::ImageNotFound)
    );
}

#[test]
fn image_without_data_gives_empty_data() {
    let image = ImageData { width: 3, height: 3, format: 7, pixel_size: 1, data: None };
    let atlas = texture_atlas_from_nine_slice(UVec2::new(3, 3), 1, 1, 1, 1);
    let out = generate_nineslice_image(
        NineSliceSize { inner_width: 1, inner_height: 1 },
        NineSliceIndex::default(),
        &atlas,
        Some(&image),
    )
    .unwrap();
    assert_eq!((out.width, out.height), (3, 3));
    assert!(out.data.is_empty());
}

#[test]
fn slices_can_be_picked_in_any_order() {
    let image = three_by_three();
    let atlas = texture_atlas_from_nine_slice(UVec2::new(3, 3), 1, 1, 1, 1);
    let flipped = NineSliceIndex { indices: [8, 7, 6, 5, 4, 3, 2, 1, 0] };
    let out = generate_nineslice_image(
        NineSliceSize { inner_width: 1, inner_height: 1 },
        flipped,
        &atlas,
        Some(&image),
    )
    .unwrap();
    assert_eq!(out.data, vec![8, 7, 6, 5, 4, 3, 2, 1, 0]);
}

#[test]
fn rectangle_measures() {
    let r = rect(2, 3, 7, 4);
    assert_eq!((r.width(), r.height()), (5, 1));
    assert_eq!(r.size(), UVec2::new(5, 1));
    assert_eq!(UVec2::from(NineSliceSize { inner_width: 4, inner_height: 6 }), UVec2::new(4, 6));
}
