use crabboy::emu::layout::Layout;
use crabboy::emu::mem::Mem;
use crabboy::emu::state::{Reader, Writer};
use crabboy::emu::storage::{Storage, StorageError, Window};
use crabboy::emu::video::{Frame, DMG_PALETTE};
use crabboy::emu::Screen;

#[test]
fn two_screens_stack_with_the_narrow_one_centred() {
    let l = Layout::stacked(&[Screen::new(400, 240), Screen::new(320, 240)]);
    assert_eq!((l.width, l.height), (400, 480));
    assert_eq!(l.origin(0), Some((0, 0)));
    assert_eq!(l.origin(1), Some((40, 240)));
}

#[test]
fn locate_maps_points_into_screen_coordinates() {
    let l = Layout::stacked(&[Screen::new(400, 240), Screen::new(320, 240)]);
    assert_eq!(l.locate(399, 239), Some((0, 399, 239)));
    assert_eq!(l.locate(40, 240), Some((1, 0, 0)));
    assert_eq!(l.locate(359, 479), Some((1, 319, 239)));
    assert_eq!(l.locate(39, 240), None);
    assert_eq!(l.locate(360, 300), None);
    assert_eq!(l.locate(0, 480), None);
}

#[test]
fn a_single_screen_is_its_own_layout() {
    let l = Layout::stacked(&[Screen::new(160, 144)]);
    assert_eq!((l.width, l.height), (160, 144));
    assert_eq!(l.locate(159, 143), Some((0, 159, 143)));
}

#[test]
fn a_large_region_allocates_without_touching_the_stack() {
    let mut m: Mem<u8, 0x80_0000> = Mem::zeroed();
    assert_eq!(m.len(), 8 << 20);
    m.set((8 << 20) - 1, 0xAB);
    assert_eq!(m.as_slice()[(8 << 20) - 1..], [0xAB]);
}

#[test]
fn filled_repeats_the_value() {
    let m: Mem<u16, 4> = Mem::filled(0xFFFF);
    assert_eq!(m.as_slice(), [0xFFFF; 4]);
}

#[test]
fn round_trips_every_field_kind() {
    let mut w = Writer::with_header(b"TEST", 3);
    w.u8(1);
    w.u16(0x1234);
    w.u32(0xDEAD_BEEF);
    w.u64(0x0123_4567_89AB_CDEF);
    w.bool(true);
    w.bytes(&[9, 8, 7]);
    w.raw(&[5, 6]);
    let data = w.finish();

    let (mut r, version) = Reader::with_header(&data, b"TEST").unwrap();
    assert_eq!(version, 3);
    assert_eq!(r.u8().unwrap(), 1);
    assert_eq!(r.u16().unwrap(), 0x1234);
    assert_eq!(r.u32().unwrap(), 0xDEAD_BEEF);
    assert_eq!(r.u64().unwrap(), 0x0123_4567_89AB_CDEF);
    assert!(r.bool().unwrap());
    assert_eq!(r.bytes().unwrap(), [9, 8, 7]);
    assert_eq!(r.array::<2>().unwrap(), [5, 6]);
    assert_eq!(r.remaining(), 0);
}

#[test]
fn rejects_a_wrong_magic_and_truncated_data() {
    let data = Writer::with_header(b"TEST", 1).finish();
    assert!(Reader::with_header(&data, b"NOPE").is_err());
    assert!(Reader::with_header(&data[..6], b"TEST").is_err());

    let mut w = Writer::new();
    w.u32(1000);
    let data = w.finish();
    assert!(Reader::new(&data).bytes().is_err());
    assert!(Reader::new(&[0xFF; 4]).bytes().is_err());
}

#[test]
fn bytes_into_checks_the_length() {
    let mut w = Writer::new();
    w.bytes(&[1, 2, 3]);
    let data = w.finish();
    let mut short = [0u8; 2];
    assert!(Reader::new(&data).bytes_into(&mut short).is_err());
    let mut exact = [0u8; 3];
    Reader::new(&data).bytes_into(&mut exact).unwrap();
    assert_eq!(exact, [1, 2, 3]);
}

#[test]
fn a_vector_is_a_medium_and_refuses_reads_past_its_end() {
    let mut media: Vec<u8> = (0..16).collect();
    let mut buf = [0u8; 4];
    media.read_at(12, &mut buf).unwrap();
    assert_eq!(buf, [12, 13, 14, 15]);
    assert_eq!(
        media.read_at(13, &mut buf),
        Err(StorageError::OutOfRange { offset: 13, len: 4 })
    );
    assert!(media.read_at(u64::MAX, &mut buf).is_err());
    assert_eq!(Storage::len(&media), 16);
}

#[test]
fn windows_nest_and_stay_inside_their_parent() {
    let mut media: Vec<u8> = (0..32).collect();
    let partition = Window::whole(&media).sub(8, 16).unwrap();
    let file = partition.sub(4, 8).unwrap();
    assert_eq!(file, Window { base: 12, len: 8 });
    assert_eq!(file.read_vec(&mut media, 6, 2).unwrap(), [18, 19]);
    assert!(file.read_vec(&mut media, 6, 3).is_err());
    assert_eq!(partition.sub(9, 8), None);
    assert_eq!(partition.sub(u64::MAX, 2), None);
}

#[test]
fn write_rgba_maps_shades_through_the_palette() {
    let mut f = Frame::new(2, 1);
    f.shades = vec![0, 3];
    let out = f.to_rgba(&DMG_PALETTE);
    assert_eq!(&out[..4], &DMG_PALETTE[0]);
    assert_eq!(&out[4..], &DMG_PALETTE[3]);
}

#[test]
fn write_rgba_prefers_the_colour_buffer() {
    let mut f = Frame::new(1, 2);
    f.rgb = Some(vec![1, 2, 3, 4, 5, 6]);
    let out = f.to_rgba(&DMG_PALETTE);
    assert_eq!(out, [1, 2, 3, 0xFF, 4, 5, 6, 0xFF]);
}
