use em6809_core::bus::{Bus, Memory, WriteTrack};
use em6809_core::io::IoBus;
use em6809_core::loader::{
    load_binary, load_binary_bus, load_srec, load_srec_bus, parse_binary, parse_srec,
};

#[test]
fn s1_records_are_read_in_order() {
    let text = "S00600004844521B\nS1070100112233440D\nS1050200556600\nS9030100FB\n";
    let image = parse_srec(text).unwrap();
    assert_eq!(
        image.blocks,
        vec![(0x0100, vec![0x11, 0x22, 0x33, 0x44]), (0x0200, vec![0x55, 0x66])]
    );
    assert_eq!(image.loaded_ranges, vec![(0x0100, 0x0104), (0x0200, 0x0202)]);
    assert_eq!(image.entry, Some(0x0100));
}

#[test]
fn checksums_are_not_looked_at() {
    let image = parse_srec("S104010042FF").unwrap();
    assert_eq!(image.blocks, vec![(0x0100, vec![0x42])]);
}

#[test]
fn wide_records_keep_the_low_address_bits() {
    let text = "S206120100ABCD00\nS30700340200EF0000\nS80412F00000\nS70500341234FF\n";
    let image = parse_srec(text).unwrap();
    assert_eq!(image.blocks[0], (0x0100, vec![0xAB, 0xCD]));
    assert_eq!(image.blocks[1], (0x0200, vec![0xEF, 0x00]));
    assert_eq!(image.entry, Some(0x1234));
    assert_eq!(parse_srec("S80412F000").unwrap().entry, Some(0xF000));
}

#[test]
fn malformed_records_name_their_line() {
    let err = |t: &str| parse_srec(t).unwrap_err();
    assert_eq!(err("\n:10010000"), "Line 2: Not an S-record");
    assert_eq!(err("S1"), "Line 1: too short");
    assert_eq!(err("S1ZZ0100"), "Line 1: bad count");
    assert_eq!(err("S1070100"), "Line 1: too short for count");
    assert_eq!(err("S1020100"), "Line 1: invalid S1 count 2");
    assert_eq!(err("S20301000000"), "Line 1: invalid S2 count 3");
    assert_eq!(err("S3040100000000"), "Line 1: invalid S3 count 4");
    assert_eq!(err("S104GG0042FF"), "Line 1: bad addr");
    assert_eq!(err("S1040100ZZFF"), "Line 1: bad data");
}

#[test]
fn blank_lines_and_other_records_are_passed_over() {
    let image = parse_srec("\n   \n  S104010042FF  \nS5030001FB\n").unwrap();
    assert_eq!(image.blocks.len(), 1);
    assert_eq!(image.entry, None);
}

#[test]
fn a_malformed_file_loads_nothing() {
    let text = "S104010042FF\nbroken\nS104010143FF\n";
    let mut mem = Memory::new();
    let r = load_srec(&mut mem, text);
    assert_eq!(r.err(), Some("Line 2: Not an S-record".to_string()));
    assert_eq!(mem.read_slice(0x0100, 2), &[0, 0]);
    let mut bus = Memory::new();
    let r = load_srec_bus(&mut bus, "S1040100AA50\nX");
    assert_eq!(r.err(), Some("Line 2: Not an S-record".to_string()));
    assert_eq!(bus.read8(0x0100), 0x00);
}

#[test]
fn loading_through_a_bus_is_the_same() {
    let text = "S1070100112233440D\nS9030100FB";
    let mut mem = Memory::new();
    let a = load_srec(&mut mem, text).unwrap();
    let mut bus = IoBus::new(Memory::new());
    let b = load_srec_bus(&mut bus, text).unwrap();
    assert_eq!(a.loaded_ranges, b.loaded_ranges);
    assert_eq!(a.entry, b.entry);
    for addr in 0x0100..0x0104 {
        assert_eq!(mem.read8(addr), bus.read8(addr));
    }
}

#[test]
fn binaries_are_one_block() {
    let image = parse_binary(0xFFFE, &[1, 2, 3, 4]);
    assert_eq!(image.blocks, vec![(0xFFFE, vec![1, 2, 3, 4])]);
    assert_eq!(image.loaded_ranges, vec![(0xFFFE, 0x0002)]);
    assert_eq!(image.entry, None);
}

#[test]
fn a_memory_drops_what_a_bus_wraps() {
    let mut mem = Memory::new();
    let image = load_binary(&mut mem, 0xFFFE, &[1, 2, 3, 4]);
    assert_eq!(image.loaded_ranges, vec![(0xFFFE, 0x0002)]);
    assert_eq!((mem.read8(0xFFFE), mem.read8(0xFFFF), mem.read8(0)), (1, 2, 0));
    let mut bus = Memory::new();
    load_binary_bus(&mut bus, 0xFFFE, &[1, 2, 3, 4]);
    assert_eq!((bus.read8(0xFFFE), bus.read8(0), bus.read8(1)), (1, 3, 4));
}

#[test]
fn memory_reads_back_what_was_written() {
    let mut mem = Memory::new();
    mem.clear(0xAA);
    assert_eq!(mem.read8(0x1234), 0xAA);
    mem.write8(0x1234, 0x55);
    assert_eq!(mem.read8(0x1234), 0x55);
    assert_eq!(mem.read8(0x1235), 0xAA);
    assert_eq!(mem.read_slice(0x1234, 2), &[0x55, 0xAA]);
    assert_eq!(mem.read_slice(0xFFFF, 10).len(), 1);
}

#[test]
fn tracked_writes_are_reported_once() {
    let mut bus = WriteTrack::new(Memory::new(), Some((0x0100, 0x0110)));
    bus.write8(0x0105, 1);
    bus.write8(0x0102, 2);
    bus.write8(0x0105, 3);
    bus.write8(0x0110, 4);
    assert_eq!(bus.take_dirty_addrs(), vec![0x0102, 0x0105]);
    assert!(bus.take_dirty_addrs().is_empty());
    assert_eq!(bus.inner_any_mut().read8(0x0110), 4);
    bus.set_span(None);
    bus.write8(0x0105, 9);
    assert_eq!(bus.read8(0x0105), 9);
}
