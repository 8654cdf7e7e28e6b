use crabboy::emu::audio::AudioBuffer;
use crabboy::emu::input::Button;
use crabboy::emu::layout::Layout;
use crabboy::emu::mem::Mem;
use crabboy::emu::state::{Reader, Writer};
use crabboy::emu::storage::{Storage, StorageError, Window};
use crabboy::emu::text::{numbered, push_decimal};
use crabboy::emu::video::{Frame, DMG_PALETTE};
use crabboy::emu::{Error, Screen};

#[test]
fn errors_say_what_went_wrong() {
    assert_eq!(Error::InvalidRom("x".to_string()).message(), "invalid ROM: x");
    assert_eq!(
        Error::UnsupportedSystem("nes".to_string()).message(),
        "unsupported system: nes"
    );
    assert_eq!(Error::OutOfMemory.message(), "out of memory");
}

#[test]
fn every_button_is_listed_once() {
    let labels: Vec<&str> = Button::ALL.iter().map(|b| b.label()).collect();
    assert_eq!(
        labels,
        vec![
            "A", "B", "X", "Y", "L", "R", "ZL", "ZR", "Start", "Select", "Up", "Down", "Left",
            "Right"
        ]
    );
}

#[test]
fn numbers_are_written_in_decimal() {
    assert_eq!(numbered("n = ", 0), "n = 0");
    assert_eq!(numbered("", u64::MAX), "18446744073709551615");
    let mut s = String::from("7");
    push_decimal(&mut s, 1024);
    assert_eq!(s, "71024");
}

#[test]
fn samples_come_out_as_pushed() {
    let mut b = AudioBuffer::default();
    assert!(b.is_empty());
    b.push(3, -4);
    b.push(5, -6);
    assert_eq!(b.samples, vec![3, -4, 5, -6]);
    b.clear();
    assert!(b.is_empty());
}

#[test]
fn a_memory_is_overlaid_and_filled_in_place() {
    let mut m: Mem<u8, 8> = Mem::zeroed();
    m.copy_from(2, &[1, 2, 3, 4], 3);
    assert_eq!(m.as_slice(), [0, 0, 1, 2, 3, 0, 0, 0]);
    m.fill(4, 2, 9);
    assert_eq!(m.as_slice(), [0, 0, 1, 2, 9, 9, 0, 0]);
    assert_eq!(m.get(3), 2);
}

#[test]
fn windows_of_windows_read_the_same_bytes() {
    let mut media: Vec<u8> = (0..100).collect();
    let outer = Window::whole(&media).sub(10, 50).unwrap();
    let inner = outer.sub(5, 20).unwrap();
    assert_eq!((inner.base, inner.len), (15, 20));
    let mut buf = [0u8; 4];
    inner.read_at(&mut media, 3, &mut buf).unwrap();
    assert_eq!(buf, [18, 19, 20, 21]);
    assert_eq!(outer.read_vec(&mut media, 8, 4), Ok(vec![18, 19, 20, 21]));
    assert_eq!(outer.sub(41, 10), None);
    assert_eq!(outer.sub(u64::MAX, 2), None);
}

#[test]
fn reads_outside_a_medium_name_the_range() {
    let mut media: Vec<u8> = vec![1, 2, 3];
    assert!(!Storage::is_empty(&media));
    let mut buf = [0u8; 2];
    assert_eq!(
        Storage::read_at(&mut media, 2, &mut buf),
        Err(StorageError::OutOfRange { offset: 2, len: 2 })
    );
    assert_eq!(
        StorageError::OutOfRange { offset: 0xBEEF0, len: 512 }.message(),
        "read of 512 bytes at 0xbeef0 is outside the image"
    );
    assert_eq!(StorageError::Host("gone".to_string()).message(), "gone");
    let w = Window::whole(&media);
    assert_eq!(
        w.read_vec(&mut media, 1, 3),
        Err(StorageError::OutOfRange { offset: 1, len: 3 })
    );
    // A window that is longer than the medium it is used on.
    let wide = Window { base: 1, len: 10 };
    assert_eq!(
        wide.read_vec(&mut media, 1, 3),
        Err(StorageError::OutOfRange { offset: 2, len: 3 })
    );
    assert_eq!(wide.read_vec(&mut media, 0, 2), Ok(vec![2, 3]));
}

#[test]
fn a_reader_reports_the_first_missing_field() {
    let end = "unexpected end of state".to_string();
    assert_eq!(Reader::new(&[1]).u16(), Err(end.clone()));
    assert_eq!(Reader::new(&[1, 2, 3]).u32(), Err(end.clone()));
    assert_eq!(Reader::new(&[0; 7]).u64(), Err(end.clone()));
    assert_eq!(Reader::new(&[]).u8(), Err(end.clone()));
    assert_eq!(Reader::new(&[]).bool(), Err(end.clone()));
    assert_eq!(Reader::new(&[1, 2]).array::<3>(), Err(end.clone()));
    // A length prefix that runs past the end.
    assert_eq!(Reader::new(&[2, 0, 0, 0, 9]).bytes(), Err(end));
    assert_eq!(
        Reader::with_header(b"ABCX\x01\0\0\0", b"ABCD").err(),
        Some("not a save state for this system".to_string())
    );
    let mut out = [0u8; 3];
    assert_eq!(
        Reader::new(&[2, 0, 0, 0, 8, 9]).bytes_into(&mut out),
        Err("state field is 2 bytes, expected 3".to_string())
    );
}

#[test]
fn a_refused_field_leaves_the_buffer_and_moves_the_reader() {
    let data = [2, 0, 0, 0, 8, 9, 5];
    let mut r = Reader::new(&data);
    let mut out = [7u8; 3];
    assert!(r.bytes_into(&mut out).is_err());
    assert_eq!(out, [7; 3]);
    assert_eq!(r.remaining(), 1);
    let mut r = Reader::new(&data);
    let mut out = [7u8; 2];
    assert_eq!(r.bytes_into(&mut out), Ok(()));
    assert_eq!(out, [8, 9]);
    let mut r = Reader::new(&[9, 0, 0, 0, 1]);
    assert!(r.bytes().is_err());
    assert_eq!(r.remaining(), 1);
}

#[test]
fn fields_are_little_endian() {
    let mut w = Writer::new();
    w.u16(0x1234);
    w.u32(0x89AB_CDEF);
    w.bool(true);
    w.bytes(&[7, 8]);
    w.raw(&[9]);
    assert_eq!(
        w.finish(),
        vec![0x34, 0x12, 0xEF, 0xCD, 0xAB, 0x89, 1, 2, 0, 0, 0, 7, 8, 9]
    );
}

#[test]
fn every_point_of_a_display_is_located_from_its_origin() {
    let screens = [Screen::new(5, 2), Screen::new(8, 3), Screen::new(3, 1)];
    let l = Layout::stacked(&screens);
    assert_eq!((l.width, l.height), (8, 6));
    for (i, s) in screens.iter().enumerate() {
        let (ox, oy) = l.origin(i).unwrap();
        for y in 0..s.height {
            for x in 0..s.width {
                assert_eq!(l.locate(ox + x, oy + y), Some((i, x, y)));
            }
        }
    }
    assert_eq!(l.origin(3), None);
}

#[test]
fn displays_are_composed_over_black() {
    let l = Layout::stacked(&[Screen::new(1, 1), Screen::new(3, 1)]);
    let mut top = Frame::new(1, 1);
    top.rgb = Some(vec![1, 2, 3]);
    let mut bottom = Frame::new(3, 1);
    bottom.shades = vec![0, 3, 6];
    let palette = [[10, 11, 12, 255], [0; 4], [20, 21, 22, 255], [30, 31, 32, 255]];
    let f = l.compose(vec![top, bottom], &palette);
    assert_eq!((f.width, f.height), (3, 2));
    assert_eq!(f.shades, vec![0; 6]);
    assert_eq!(
        f.rgb,
        Some(vec![0, 0, 0, 1, 2, 3, 0, 0, 0, 10, 11, 12, 30, 31, 32, 20, 21, 22])
    );
}

#[test]
fn a_single_display_is_handed_on_untouched() {
    let l = Layout::stacked(&[Screen::new(2, 1)]);
    let mut f = Frame::new(2, 1);
    f.shades = vec![1, 2];
    let out = l.compose(vec![f], &DMG_PALETTE);
    assert_eq!(out.shades, vec![1, 2]);
    assert!(out.rgb.is_none());
}

#[test]
fn rows_and_fills_reach_every_pixel() {
    let mut f = Frame::new(2, 2);
    f.fill(2);
    assert_eq!(f.shades, vec![2; 4]);
    f.set_row(1, &[3, 0]);
    assert_eq!(f.shades, vec![2, 2, 3, 0]);
    assert_eq!(Screen::new(160, 144).pixels(), 23040);
}
