use crabboy::pica::transfer::{DisplayTransfer, Format, TextureCopy};

#[test]
fn every_format_round_trips_its_own_pixels() {
    for (format, pixel) in [
        (Format::Rgba8, &[0x12, 0x34, 0x56, 0x78][..]),
        (Format::Rgb8, &[0x12, 0x34, 0x56]),
        (Format::Rgb565, &[0xCD, 0xAB]),
        (Format::Rgb5a1, &[0xCD, 0xAB]),
        (Format::Rgba4, &[0xCD, 0xAB]),
    ] {
        let mut out = [0u8; 4];
        format.encode(format.decode(pixel), &mut out);
        assert_eq!(&out[..format.bytes()], pixel, "{format:?}");
    }
}

#[test]
fn channels_sit_where_the_display_controller_reads_them() {
    assert_eq!(Format::Rgba8.decode(&[0xAA, 3, 2, 1]), [1, 2, 3, 0xAA]);
    assert_eq!(Format::Rgb8.decode(&[3, 2, 1]), [1, 2, 3, 0xFF]);
    assert_eq!(Format::Rgb565.decode(&[0x00, 0xF8]), [0xFF, 0, 0, 0xFF]);
    assert_eq!(Format::Rgb5a1.decode(&[0x3F, 0x00]), [0, 0, 0xFF, 0xFF]);
    assert_eq!(Format::Rgba4.decode(&[0xF0, 0x00]), [0, 0, 0xFF, 0]);
}

#[test]
fn a_display_transfer_converts_and_flips() {
    // Two rows of two RGB565 pixels to RGB8, flipped.
    let t = DisplayTransfer::from_registers(2 << 16 | 2, 2 << 16 | 2, 1 << 12 | 2 << 8 | 1)
        .unwrap();
    assert_eq!((t.input_len(), t.output_len()), (8, 12));
    let input = [0x00, 0xF8, 0xE0, 0x07, 0x1F, 0x00, 0xFF, 0xFF];
    let mut output = [0u8; 12];
    t.run(&input, &mut output);
    assert_eq!(
        output,
        [0xFF, 0, 0, 0xFF, 0xFF, 0xFF, 0, 0, 0xFF, 0, 0xFF, 0]
    );
}

#[test]
fn downscaling_averages_a_box() {
    let flags = 2 << 24;
    let t = DisplayTransfer::from_registers(2 << 16 | 2, 2 << 16 | 2, flags).unwrap();
    assert_eq!(t.output_len(), 4);
    let mut input = [0u8; 16];
    for (i, red) in [10u8, 20, 30, 40].into_iter().enumerate() {
        input[i * 4 + 3] = red;
    }
    let mut output = [0u8; 4];
    t.run(&input, &mut output);
    assert_eq!(output, [0, 0, 0, 25]);

    let t = DisplayTransfer::from_registers(2 << 16 | 2, 2 << 16 | 2, 1 << 24).unwrap();
    let mut output = [0u8; 8];
    t.run(&input, &mut output);
    assert_eq!((output[3], output[7]), (15, 35));
}

#[test]
fn unknown_formats_and_scales_are_refused() {
    assert_eq!(DisplayTransfer::from_registers(0, 0, 5 << 8), None);
    assert_eq!(DisplayTransfer::from_registers(0, 0, 3 << 24), None);
}

#[test]
fn a_texture_copy_without_gaps_is_one_run() {
    let t = TextureCopy::from_registers(37, 0, 0);
    assert_eq!((t.size, t.input_len(), t.output_len()), (32, 32, 32));
    let input: Vec<u8> = (0..40).collect();
    let mut output = [0xEEu8; 40];
    t.run(&input, &mut output);
    assert_eq!(output[..32], input[..32]);
    assert_eq!(output[32], 0xEE);
}

#[test]
fn a_texture_copy_skips_the_gaps_of_both_sides() {
    // Input lines of 16 bytes 16 apart, packed into the output.
    let t = TextureCopy::from_registers(32, 1 << 16 | 1, 0);
    assert_eq!((t.input_len(), t.output_len()), (48, 32));
    let input: Vec<u8> = (0..48).collect();
    let mut output = [0u8; 32];
    t.run(&input, &mut output);
    assert_eq!(output[..16], input[..16]);
    assert_eq!(output[16..], input[32..48]);

    // And the other way round.
    let t = TextureCopy::from_registers(32, 0, 1 << 16 | 1);
    let mut output = [0xEEu8; 48];
    t.run(&input, &mut output);
    assert_eq!(output[..16], input[..16]);
    assert_eq!(output[16..32], [0xEE; 16]);
    assert_eq!(output[32..], input[16..32]);
}
