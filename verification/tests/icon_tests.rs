use winseek::icon::{
    decode_bgra, first_icon_source, icon_dimensions, icon_fallback_step, placeholder_icon,
    IconLookup, IconSource, Rgba, WindowIconError,
};

#[test]
fn decode_swaps_bgra_to_rgba() {
    // One pixel: source bytes B,G,R,A = 10,20,30,40 decode to R,G,B,A = 30,20,10,40.
    let data = vec![10u8, 20, 30, 40];
    let icon = decode_bgra(&data, 1, 1).expect("exact-length buffer must decode");
    assert_eq!(icon.width, 1);
    assert_eq!(icon.height, 1);
    assert_eq!(icon.pixels.len(), 1);
    assert_eq!(icon.pixels[0], Rgba { r: 30, g: 20, b: 10, a: 40 });
}

#[test]
fn decode_repeating_pattern() {
    // [B,G,R,A] repeating decodes to [R,G,B,A] repeating, alpha unchanged.
    let mut data = Vec::new();
    for _ in 0..6 {
        data.extend_from_slice(&[10u8, 20, 30, 40]);
    }
    let icon = decode_bgra(&data, 3, 2).expect("exact-length buffer must decode");
    assert_eq!(icon.pixels.len(), 6);
    for px in &icon.pixels {
        assert_eq!(*px, Rgba { r: 30, g: 20, b: 10, a: 40 });
    }
}

#[test]
fn decode_distinct_pixels_keep_positions() {
    let data = vec![1u8, 2, 3, 4, 5, 6, 7, 8];
    let icon = decode_bgra(&data, 2, 1).expect("exact-length buffer must decode");
    assert_eq!(icon.pixels[0], Rgba { r: 3, g: 2, b: 1, a: 4 });
    assert_eq!(icon.pixels[1], Rgba { r: 7, g: 6, b: 5, a: 8 });
}

#[test]
fn decode_rejects_wrong_length() {
    let data = vec![10u8, 20, 30, 40];
    assert_eq!(decode_bgra(&data, 2, 1), Err(WindowIconError::PixelBufferMismatch));
    assert_eq!(decode_bgra(&data, 1, 2), Err(WindowIconError::PixelBufferMismatch));
    let short = vec![10u8, 20, 30];
    assert_eq!(decode_bgra(&short, 1, 1), Err(WindowIconError::PixelBufferMismatch));
    let empty: Vec<u8> = Vec::new();
    assert!(decode_bgra(&empty, 0, 0).is_ok());
}

#[test]
fn placeholder_is_32_by_32_fully_transparent() {
    let icon = placeholder_icon();
    assert_eq!(icon.width, 32);
    assert_eq!(icon.height, 32);
    assert_eq!(icon.pixels.len(), 32 * 32);
    for px in &icon.pixels {
        assert_eq!(px.a, 0);
        assert_eq!(*px, Rgba { r: 0, g: 0, b: 0, a: 0 });
    }
}

#[test]
fn fallback_order_is_fixed() {
    // With no source yielding a handle the search walks all four sources.
    assert_eq!(first_icon_source(), IconSource::BigFromMessage);
    assert_eq!(
        icon_fallback_step(IconSource::BigFromMessage, 0),
        IconLookup::TryNext(IconSource::BigFromClass)
    );
    assert_eq!(
        icon_fallback_step(IconSource::BigFromClass, 0),
        IconLookup::TryNext(IconSource::SmallFromMessage)
    );
    assert_eq!(
        icon_fallback_step(IconSource::SmallFromMessage, 0),
        IconLookup::TryNext(IconSource::SmallFromClass)
    );
    assert_eq!(icon_fallback_step(IconSource::SmallFromClass, 0), IconLookup::Exhausted);
}

#[test]
fn fallback_stops_at_first_hit() {
    assert_eq!(icon_fallback_step(IconSource::BigFromMessage, 7), IconLookup::Resolved(7));
    assert_eq!(icon_fallback_step(IconSource::SmallFromClass, 9), IconLookup::Resolved(9));
}

#[test]
fn dimensions_are_twice_the_hotspot() {
    assert_eq!(icon_dimensions(16, 16), (32, 32));
    assert_eq!(icon_dimensions(8, 24), (16, 48));
    assert_eq!(icon_dimensions(0, 0), (0, 0));
}
