use std::cell::RefCell;

use doom_colormap_generator::blend::{
    channel_bytes, faded_channel, no_color_math, shifted_channel, shifted_color,
};
use doom_colormap_generator::dcolors::{
    build_hurt_palette, build_palette, build_pickup_palette, build_radiation_palette,
    build_vanilla_palette, color_shift_palette,
};
use doom_colormap_generator::{BlendMode, ColorOp, PLAYPAL_LEN};

fn ramp_palette() -> Vec<u8> {
    let mut bytes = Vec::with_capacity(768);
    for i in 0..256usize {
        bytes.push(i as u8);
        bytes.push((255 - i) as u8);
        bytes.push(((i * 7) % 256) as u8);
    }
    bytes
}

fn never(_: ColorOp) -> (i32, i32, i32) {
    panic!("no colour computation is expected under the normal mode")
}

#[test]
fn shifted_channel_values() {
    assert_eq!(shifted_channel(0, 256, 1, 8), 32);
    assert_eq!(shifted_channel(0, 255, 1, 8), 31);
    assert_eq!(shifted_channel(255, 0, 1, 8), 224);
    assert_eq!(shifted_channel(200, 0, 8, 9), 23);
    assert_eq!(shifted_channel(100, 215, 4, 8), 157);
    assert_eq!(shifted_channel(17, 17, 5, 9), 17);
    assert_eq!(shifted_channel(9, 255, 9, 9), 255);
    assert_eq!(shifted_channel(9, 255, 0, 9), 9);
}

#[test]
fn shifted_channel_rounds_toward_zero() {
    // (0 - 10) * 1 / 3 is -3.33: rounded toward zero it is -3, not -4.
    assert_eq!(shifted_channel(10, 0, 1, 3), 7);
    assert_eq!(shifted_channel(0, 10, 1, 3), 3);
    assert_eq!(shifted_channel(10, 0, 1, -3), 13);
    assert_eq!(shifted_channel(10, 0, -1, 3), 13);
}

#[test]
fn shifted_channel_keeps_the_low_byte() {
    assert_eq!(shifted_channel(250, 300, 1, 1), 44);
    assert_eq!(shifted_channel(5, -3, 1, 1), 253);
    assert_eq!(shifted_channel(0, i32::MAX, i32::MAX, 1), 1);
    assert_eq!(shifted_channel(255, i32::MIN, i32::MIN, i32::MAX), 255);
}

#[test]
fn faded_channel_values() {
    assert_eq!(faded_channel(100, 0, 0), 100);
    assert_eq!(faded_channel(255, 0, 31), 8);
    assert_eq!(faded_channel(200, 0, 16), 100);
    assert_eq!(faded_channel(7, 0, 30), 0);
    assert_eq!(faded_channel(8, 0, 30), 1);
    assert_eq!(faded_channel(100, 255, 0), 101);
    assert_eq!(faded_channel(100, 255, 31), 251);
    assert_eq!(faded_channel(255, 255, 12), 255);
}

#[test]
fn channel_bytes_wrap() {
    assert_eq!(channel_bytes((0, 255, 256)), (0, 255, 0));
    assert_eq!(channel_bytes((-1, 511, 1000)), (255, 255, 232));
    assert_eq!(channel_bytes((i32::MIN, i32::MAX, -256)), (0, 255, 0));
}

#[test]
fn normal_shift_needs_no_colour_computation() {
    let out = shifted_color(&never, BlendMode::Normal, (0, 128, 255), (255, 0, 0), 1, 9);
    assert_eq!(out, (28, 114, 227));
}

#[test]
fn colour_computation_that_is_never_asked_answers_black() {
    assert_eq!(
        no_color_math(ColorOp::Multiply { top: (1, 2, 3), bottom: (4, 5, 6) }),
        (0, 0, 0)
    );
}

#[test]
fn blend_modes_ask_for_their_operation_with_the_target_on_top() {
    let cases = [
        (BlendMode::Hue, (true, false, false)),
        (BlendMode::Saturation, (false, true, false)),
        (BlendMode::Color, (true, true, false)),
        (BlendMode::Luminosity, (false, false, true)),
    ];
    for (mode, (hue, saturation, value)) in cases {
        let log = RefCell::new(Vec::new());
        let math = |op: ColorOp| {
            log.borrow_mut().push(op);
            match op {
                ColorOp::Mix { .. } => (300, -2, 77),
                _ => (11, 22, 33),
            }
        };
        let out = shifted_color(&math, mode, (1, 2, 3), (40, 50, 60), 3, 8);
        assert_eq!(out, (44, 254, 77));
        assert_eq!(
            *log.borrow(),
            vec![
                ColorOp::CombineHsv {
                    top: (40, 50, 60),
                    bottom: (1, 2, 3),
                    hue_from_top: hue,
                    saturation_from_top: saturation,
                    value_from_top: value,
                },
                ColorOp::Mix { from: (1, 2, 3), to: (11, 22, 33), num: 3, den: 8 },
            ]
        );
    }
}

#[test]
fn multiply_and_screen_ask_for_their_operation() {
    let log = RefCell::new(Vec::new());
    let math = |op: ColorOp| {
        log.borrow_mut().push(op);
        (5, 6, 7)
    };
    assert_eq!(shifted_color(&math, BlendMode::Multiply, (1, 2, 3), (40, 50, 60), 1, 9), (5, 6, 7));
    assert_eq!(shifted_color(&math, BlendMode::Screen, (1, 2, 3), (40, 50, 60), 0, 0), (5, 6, 7));
    assert_eq!(
        *log.borrow(),
        vec![
            ColorOp::Multiply { top: (40, 50, 60), bottom: (1, 2, 3) },
            ColorOp::Mix { from: (1, 2, 3), to: (5, 6, 7), num: 1, den: 9 },
            ColorOp::Screen { top: (40, 50, 60), bottom: (1, 2, 3) },
            ColorOp::Mix { from: (1, 2, 3), to: (5, 6, 7), num: 0, den: 0 },
        ]
    );
}

#[test]
fn shift_page_is_written_and_the_rest_stays() {
    let pal = ramp_palette();
    let mut out = vec![0xAAu8; 768 + 5];
    color_shift_palette(&pal, &mut out, (255, 0, 0), 4, 9, &BlendMode::Normal, &never);
    for c in 0..256usize {
        let (r, g, b) = (pal[3 * c] as i32, pal[3 * c + 1] as i32, pal[3 * c + 2] as i32);
        assert_eq!(out[3 * c] as i32, r + (255 - r) * 4 / 9);
        assert_eq!(out[3 * c + 1] as i32, g + (0 - g) * 4 / 9);
        assert_eq!(out[3 * c + 2] as i32, b + (0 - b) * 4 / 9);
    }
    assert_eq!(&out[768..], &[0xAA; 5]);
}

#[test]
fn shift_page_in_a_floating_mode_stores_the_low_bytes_of_the_answers() {
    let pal = ramp_palette();
    let mut out = vec![0u8; 768];
    let math = |op: ColorOp| match op {
        ColorOp::Screen { top, bottom } => (top.0 + bottom.0, top.1 + bottom.1, top.2 + bottom.2),
        ColorOp::Mix { from, to, num, den } => (to.0 - from.0, to.1 * num, to.2 * den),
        _ => panic!("unexpected operation"),
    };
    color_shift_palette(&pal, &mut out, (10, 20, 30), 2, 3, &BlendMode::Screen, &math);
    for c in 0..256usize {
        let (g, b) = (pal[3 * c + 1] as i32, pal[3 * c + 2] as i32);
        assert_eq!(out[3 * c], 10);
        assert_eq!(out[3 * c + 1] as i32, ((20 + g) * 2) % 256);
        assert_eq!(out[3 * c + 2] as i32, ((30 + b) * 3) % 256);
    }
}

#[test]
fn hurt_ramp_has_eight_pages_in_ninths() {
    let pal = ramp_palette();
    let mut out = vec![7u8; 8 * 768 + 3];
    build_hurt_palette(&pal, &mut out, (255, 0, 0), BlendMode::Normal, &never);
    for page in 0..8usize {
        for c in 0..256usize {
            let r = pal[3 * c] as i32;
            let g = pal[3 * c + 1] as i32;
            assert_eq!(out[page * 768 + 3 * c] as i32, r + (255 - r) * (page as i32 + 1) / 9);
            assert_eq!(out[page * 768 + 3 * c + 1] as i32, g - g * (page as i32 + 1) / 9);
        }
    }
    // The last step is eight ninths, not the whole way.
    assert_eq!(out[7 * 768], 226);
    assert_eq!(&out[8 * 768..], &[7, 7, 7]);
}

#[test]
fn pickup_ramp_has_four_pages_in_eighths() {
    let pal = ramp_palette();
    let mut out = vec![7u8; 4 * 768 + 1];
    build_pickup_palette(&pal, &mut out, (215, 186, 69), BlendMode::Normal, &never);
    for page in 0..4usize {
        for c in 0..256usize {
            let b = pal[3 * c + 2] as i32;
            assert_eq!(
                out[page * 768 + 3 * c + 2] as i32,
                b + (69 - b) * (page as i32 + 1) / 8
            );
        }
    }
    assert_eq!(out[3 * 768], 107);
    assert_eq!(out[4 * 768], 7);
}

#[test]
fn radiation_page_is_one_eighth() {
    let pal = ramp_palette();
    let mut out = vec![7u8; 768];
    build_radiation_palette(&pal, &mut out, (0, 256, 0), BlendMode::Normal, &never);
    assert_eq!(&out[..3], &[0, 255, 0]);
    assert_eq!(&out[3 * 255..], &[224, 32, 218]);
}

#[test]
fn palette_page_zero_is_the_base_palette() {
    let mut pal = ramp_palette();
    pal.extend_from_slice(&[1, 2, 3, 4]);
    let mut out = vec![0u8; PLAYPAL_LEN + 2];
    out[PLAYPAL_LEN] = 0x55;
    out[PLAYPAL_LEN + 1] = 0x66;
    build_palette(
        &pal,
        &mut out,
        (9, 8, 7),
        (6, 5, 4),
        (3, 2, 1),
        BlendMode::Normal,
        BlendMode::Normal,
        BlendMode::Normal,
        &never,
    );
    assert_eq!(&out[..768], &pal[..768]);
    assert_eq!(&out[PLAYPAL_LEN..], &[0x55, 0x66]);
}

#[test]
fn palette_pages_follow_their_own_colour_and_mode() {
    let pal = ramp_palette();
    let mut out = vec![0u8; PLAYPAL_LEN];
    let math = |op: ColorOp| match op {
        ColorOp::Multiply { .. } => (1, 1, 1),
        ColorOp::Screen { .. } => (2, 2, 2),
        ColorOp::Mix { to, num, den, .. } => (to.0 * 100 + num * 10 + den, 0, 0),
        _ => panic!("unexpected operation"),
    };
    build_palette(
        &pal,
        &mut out,
        (10, 20, 30),
        (40, 50, 60),
        (0, 256, 0),
        BlendMode::Multiply,
        BlendMode::Screen,
        BlendMode::Normal,
        &math,
    );
    for page in 1..9usize {
        assert_eq!(out[page * 768] as usize, (100 + page * 10 + 9) % 256);
        assert_eq!(out[page * 768 + 765] as usize, (100 + page * 10 + 9) % 256);
    }
    for page in 9..13usize {
        assert_eq!(out[page * 768] as usize, (200 + (page - 8) * 10 + 8) % 256);
    }
    assert_eq!(&out[13 * 768..13 * 768 + 3], &[0, 255, 0]);
}

#[test]
fn vanilla_palette_on_a_ramp() {
    let pal = ramp_palette();
    let mut out = vec![0u8; PLAYPAL_LEN];
    build_vanilla_palette(&pal, &mut out);
    assert_eq!(&out[..768], &pal[..]);
    // Entry 0 is (0, 255, 0).
    assert_eq!(&out[768..771], &[28, 227, 0]);
    assert_eq!(&out[8 * 768..8 * 768 + 3], &[226, 29, 0]);
    assert_eq!(&out[9 * 768..9 * 768 + 3], &[26, 247, 8]);
    assert_eq!(&out[12 * 768..12 * 768 + 3], &[107, 221, 34]);
    assert_eq!(&out[13 * 768..13 * 768 + 3], &[0, 255, 0]);
    // Entry 255 is (255, 0, 249): the radiation green is 256 / 8.
    assert_eq!(&out[13 * 768 + 765..13 * 768 + 768], &[224, 32, 218]);
}
