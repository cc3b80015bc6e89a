use scaffolding::os::{page_align, OsType};
use scaffolding::tui::text_style::{TextStyle, TextStyleFlags};
use scaffolding::utils::{align, Hashnt, HashntHash, MemoryAmount};

#[test]
fn bitflags() {
    let mut flags = TextStyle::Bold | TextStyle::Dim;
    assert!(flags.contains(TextStyle::Bold));
    assert!(flags.contains(TextStyle::Dim));
    assert!(flags & TextStyle::Bold);
    assert!(flags & TextStyle::Dim);

    flags ^= TextStyle::Bold;
    assert!(!flags.contains(TextStyle::Bold));
    assert!(flags.contains(TextStyle::Dim));
    assert!(!(flags & TextStyle::Bold));
    assert!(flags & TextStyle::Dim);

    flags |= TextStyle::Bold;
    assert!(flags.contains(TextStyle::Bold));
    assert!(flags.contains(TextStyle::Dim));
    assert!(flags & TextStyle::Bold);
    assert!(flags & TextStyle::Dim);

    flags.remove_flag(TextStyle::Bold);
    assert!(!flags.contains(TextStyle::Bold));
    assert!(flags.contains(TextStyle::Dim));
    assert!(!(flags & TextStyle::Bold));
    assert!(flags & TextStyle::Dim);

    flags.add_flag(TextStyle::Bold);
    assert!(flags.contains(TextStyle::Bold));
    assert!(flags.contains(TextStyle::Dim));
    assert!(flags & TextStyle::Bold);
    assert!(flags & TextStyle::Dim);
}

#[test]
fn flag_sets_merge() {
    let mut flags = TextStyleFlags::default();
    assert!(flags.is_empty());
    flags.merge(TextStyleFlags::from_flag(TextStyle::Strikethrough));
    flags.merge(TextStyle::Italic | TextStyle::Hidden);
    assert_eq!(flags, TextStyleFlags(0b1100_0100));
    assert!(!flags.contains(TextStyle::Underline));
    assert_eq!(TextStyle::Blinking.bit(), 16);
    assert_eq!(TextStyle::Inverse.bit(), 32);
}

#[test]
fn align_rounds_up() {
    assert_eq!(align(0, 4096), 0);
    assert_eq!(align(1, 4096), 4096);
    assert_eq!(align(4096, 4096), 4096);
    assert_eq!(align(4097, 4096), 8192);
    assert_eq!(align(7, 3), 9);
    assert_eq!(align(13, 4), 16);
    assert_eq!(align(13, 1), 13);
    assert_eq!(align(13, 0), 0);
    assert_eq!(align(usize::MAX, 4096), 0);
    assert_eq!(align(usize::MAX - 1, 4), 0);
    assert_eq!(page_align(5000, 4096), 8192);
    assert_eq!(page_align(5000, 16384), 16384);
    assert_ne!(OsType::Linux, OsType::MacOS);
}

#[test]
fn memory_amounts_in_bytes() {
    assert_eq!(MemoryAmount::Bytes(7).into_bytes(), 7);
    assert_eq!(MemoryAmount::Kilobytes(7).into_bytes(), 7_000);
    assert_eq!(MemoryAmount::Kibibytes(7).into_bytes(), 7_168);
    assert_eq!(MemoryAmount::Megabytes(1).into_bytes(), 1_000_000);
    assert_eq!(MemoryAmount::Mebibytes(2).into_bytes(), 2_097_152);
    assert_eq!(MemoryAmount::Gigabytes(3).into_bytes(), 3_000_000_000);
    assert_eq!(MemoryAmount::Gibibytes(10).into_bytes(), 10_737_418_240);
    assert_eq!(MemoryAmount::Gibibytes(10).checked_into_bytes(), Some(10_737_418_240));
    assert_eq!(MemoryAmount::Kibibytes(usize::MAX).checked_into_bytes(), None);
    assert_eq!(MemoryAmount::Bytes(usize::MAX).checked_into_bytes(), Some(usize::MAX));
}

#[test]
fn hashnt_keeps_the_last_number() {
    let mut hasher: HashntHash = Hashnt.build_hasher();
    assert_eq!(hasher.finish(), 0);
    hasher.write_u8(7);
    assert_eq!(hasher.finish(), 7);
    hasher.write_u16(700);
    assert_eq!(hasher.finish(), 700);
    hasher.write_u32(70_000);
    assert_eq!(hasher.finish(), 70_000);
    hasher.write_u64(u64::MAX);
    assert_eq!(hasher.finish(), u64::MAX);
    hasher.write_usize(5);
    assert_eq!(hasher.result, 5);
    hasher.write(&[1]);
    assert_eq!(hasher.finish(), 1);
    hasher.write(&[1, 2]);
    assert_eq!(hasher.finish(), 0x0201);
    hasher.write(&0xdead_beef_u32.to_le_bytes());
    assert_eq!(hasher.finish(), 0xdead_beef);
    hasher.write(&[1, 2, 3, 4, 5, 6, 7, 8]);
    assert_eq!(hasher.finish(), 0x0807_0605_0403_0201);
    hasher.write(&[1, 2, 3, 4, 5, 6, 7, 8, 9, 10, 11, 12, 13, 14, 15, 16]);
    assert_eq!(hasher.finish(), 0x0807_0605_0403_0201);
    hasher.write(&[]);
    assert_eq!(hasher.finish(), 0);
}
