use vnc_server::protocol::pixel_format::{BitsPerPixel, PixelFormat, PixelFormatError};
use vnc_server::protocol::primitives::Flag;

fn format(
    bits_per_pixel: BitsPerPixel,
    depth: u8,
    big_endian: Flag,
    maxes: (u16, u16, u16),
    shifts: (u8, u8, u8),
) -> PixelFormat {
    PixelFormat {
        bits_per_pixel,
        depth,
        big_endian,
        true_color: Flag::Yes,
        red_max: maxes.0,
        green_max: maxes.1,
        blue_max: maxes.2,
        red_shift: shifts.0,
        green_shift: shifts.1,
        blue_shift: shifts.2,
    }
}

#[test]
fn endian_pixel_format_conversion() {
    let src_format = PixelFormat {
        bits_per_pixel: BitsPerPixel::U32,
        depth: 24,
        big_endian: Flag::No,
        true_color: Flag::Yes,
        red_max: 255,
        green_max: 255,
        blue_max: 255,
        red_shift: 16,
        green_shift: 8,
        blue_shift: 0,
    };

    let dest_format = PixelFormat {
        bits_per_pixel: BitsPerPixel::U32,
        depth: 24,
        big_endian: Flag::Yes,
        true_color: Flag::Yes,
        red_max: 255,
        green_max: 255,
        blue_max: 255,
        red_shift: 16,
        green_shift: 8,
        blue_shift: 0,
    };

    let data = vec![
        0xdeu8, 0xad, 0xbe, 0xef, 0xdeu8, 0xad, 0xbe, 0xef, 0xdeu8, 0xad, 0xbe, 0xef,
    ];

    println!(
        "source :{}",
        data.iter().map(|b| format!("{:02X} ", b)).collect::<String>()
    );

    let converted = src_format
        .convert_data_to_pixel_format(&dest_format, &data)
        .unwrap();

    println!(
        "dest :{}",
        converted.iter().map(|b| format!("{:0>2x} ", b)).collect::<String>()
    );

    assert_eq!(
        converted,
        vec![
            0x0, 0xbe, 0xad, 0xdeu8, 0x0, 0xbe, 0xad, 0xdeu8, 0x0, 0xbe, 0xad, 0xdeu8,
        ]
    )
}

#[test]
fn u32_to_u16_pixel_format_conversion() {
    let src_format = PixelFormat {
        bits_per_pixel: BitsPerPixel::U32,
        depth: 24,
        big_endian: Flag::Yes,
        true_color: Flag::Yes,
        red_max: 255,
        green_max: 255,
        blue_max: 255,
        red_shift: 16,
        green_shift: 8,
        blue_shift: 0,
    };

    let dest_format = PixelFormat {
        bits_per_pixel: BitsPerPixel::U16,
        depth: 16,
        big_endian: Flag::Yes,
        true_color: Flag::Yes,
        red_max: 31,
        green_max: 63,
        blue_max: 31,
        red_shift: 11,
        green_shift: 5,
        blue_shift: 0,
    };

    let data = vec![
        0x0u8, 0xff, 0x0, 0x0, 0x0, 0x0, 0xff, 0x0, 0x0, 0x0, 0x0, 0xff,
    ];

    println!(
        "source :{}",
        data.iter().map(|b| format!("{:02X} ", b)).collect::<String>()
    );

    let converted = src_format
        .convert_data_to_pixel_format(&dest_format, &data)
        .unwrap();

    println!(
        "dest :{}",
        converted.iter().map(|b| format!("{:0>2x} ", b)).collect::<String>()
    );

    assert_eq!(converted, vec![0xf8, 0x00, 0x07, 0xe0, 0x00, 0x1f])
}

#[test]
fn conversion_to_same_format_keeps_data() {
    let f = PixelFormat::default();
    let data = vec![1u8, 2, 3, 4, 5, 6, 7];
    assert_eq!(f.convert_data_to_pixel_format(&f, &data), Ok(data.clone()));
    let mut in_place = data.clone();
    assert_eq!(f.convert_data_in_place(&f, &mut in_place), Ok(()));
    assert_eq!(in_place, data);
}

#[test]
fn palette_formats_are_refused() {
    let src = PixelFormat::default();
    let mut palette = PixelFormat::default();
    palette.true_color = Flag::No;
    let data = vec![0u8; 8];
    assert_eq!(
        src.convert_data_to_pixel_format(&palette, &data),
        Err(PixelFormatError::PaletteNotImplemented)
    );
    let mut buf = data.clone();
    assert_eq!(
        palette.convert_data_in_place(&src, &mut buf),
        Err(PixelFormatError::PaletteNotImplemented)
    );
    assert_eq!(buf, data);
}

#[test]
fn partial_pixel_is_refused() {
    let src = PixelFormat::default();
    let dst = format(BitsPerPixel::U16, 16, Flag::Yes, (31, 63, 31), (11, 5, 0));
    assert_eq!(
        src.convert_data_to_pixel_format(&dst, &[1, 2, 3, 4, 5]),
        Err(PixelFormatError::IncompletePixel)
    );
}

#[test]
fn invalid_source_size_is_refused() {
    let mut src = PixelFormat::default();
    src.bits_per_pixel = BitsPerPixel::Invalid;
    let dst = PixelFormat::default();
    assert_eq!(
        src.convert_data_to_pixel_format(&dst, &[1, 2, 3, 4]),
        Err(PixelFormatError::InvalidSourceFormat)
    );
}

#[test]
fn wider_target_cannot_be_converted_in_place() {
    let src = format(BitsPerPixel::U16, 16, Flag::Yes, (31, 63, 31), (11, 5, 0));
    let dst = PixelFormat::default();
    let mut data = vec![0xf8u8, 0x00];
    assert_eq!(
        src.convert_data_in_place(&dst, &mut data),
        Err(PixelFormatError::TargetWider)
    );
    assert_eq!(data, vec![0xf8, 0x00]);
}

#[test]
fn in_place_conversion_agrees_with_copy() {
    let src = format(BitsPerPixel::U32, 24, Flag::Yes, (255, 255, 255), (16, 8, 0));
    let dst = format(BitsPerPixel::U16, 16, Flag::Yes, (31, 63, 31), (11, 5, 0));
    let data = vec![0x0u8, 0xff, 0x0, 0x0, 0x0, 0x0, 0xff, 0x0, 0x0, 0x12, 0x34, 0x56];
    let copy = src.convert_data_to_pixel_format(&dst, &data).unwrap();
    let mut in_place = data.clone();
    src.convert_data_in_place(&dst, &mut in_place).unwrap();
    assert_eq!(in_place, copy);
}

#[test]
fn convert_u32_rescales_each_channel() {
    let src = PixelFormat::default();
    let dst = format(BitsPerPixel::U16, 16, Flag::Yes, (31, 63, 31), (11, 5, 0));
    // red 0xff -> 31, green 0x80 -> 128 * 63 / 255 = 31, blue 0x10 -> 16 * 31 / 255 = 1
    assert_eq!(src.convert_u32(&dst, 0x00ff_8010), (31 << 11) | (31 << 5) | 1);
}

#[test]
fn pixel_format_wire_roundtrip() {
    let f = format(BitsPerPixel::U16, 16, Flag::Yes, (31, 63, 31), (11, 5, 0));
    let mut out = Vec::new();
    f.write_to(&mut out);
    assert_eq!(out, vec![16, 16, 1, 1, 0, 31, 0, 63, 0, 31, 11, 5, 0, 0, 0, 0]);
    assert_eq!(PixelFormat::read_from(&out, 0), f);
}

#[test]
fn default_pixel_format_is_capture_format() {
    let f = PixelFormat::default();
    assert_eq!(f, format(BitsPerPixel::U32, 24, Flag::No, (255, 255, 255), (16, 8, 0)));
    assert_eq!(BitsPerPixel::U32.bytes_size(), 4);
    assert_eq!(BitsPerPixel::U16.bytes_size(), 2);
    assert_eq!(BitsPerPixel::U8.bytes_size(), 1);
}

#[test]
fn bits_per_pixel_bytes() {
    assert_eq!(BitsPerPixel::from_byte(8), BitsPerPixel::U8);
    assert_eq!(BitsPerPixel::from_byte(16), BitsPerPixel::U16);
    assert_eq!(BitsPerPixel::from_byte(32), BitsPerPixel::U32);
    assert_eq!(BitsPerPixel::from_byte(24), BitsPerPixel::Invalid);
    assert!(BitsPerPixel::U16.is_narrower_than(&BitsPerPixel::U32));
    assert!(!BitsPerPixel::U32.is_narrower_than(&BitsPerPixel::U16));
}

#[test]
fn conversion_checks_match_what_is_accepted() {
    let src = PixelFormat::default();
    let mut bad = format(BitsPerPixel::U16, 16, Flag::Yes, (31, 63, 31), (40, 5, 0));
    assert!(!src.can_convert_copy(&bad, &[1, 2, 3, 4]));
    assert!(src.can_convert_copy(&bad, &[]));
    bad.red_shift = 11;
    assert!(src.can_convert_copy(&bad, &[1, 2, 3, 4]));
    assert!(src.can_convert_in_place(&bad, &[1, 2, 3, 4]));
    assert!(!src.can_convert_in_place(&bad, &[1, 2, 3]));
}

#[test]
fn convert_data_takes_the_buffer() {
    let src = PixelFormat::default();
    let dst = format(BitsPerPixel::U16, 16, Flag::Yes, (31, 63, 31), (11, 5, 0));
    let data = vec![0x0u8, 0x0, 0xff, 0x0];
    assert_eq!(src.convert_data(&dst, data.clone()), Ok(vec![0xf8, 0x00]));
    assert_eq!(src.convert_data(&src, data.clone()), Ok(data));
}
