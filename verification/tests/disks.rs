use em6809_core::bus::{Bus, Memory};
use em6809_core::io::{set_block_log, BlockDev, Device, IoBus};

const BASE: u16 = 0xFF10;

fn seek(d: &mut BlockDev, lba: u32, count: u8) {
    d.write8(BASE + 3, count);
    for i in 0..4 {
        d.write8(BASE + 4 + i, (lba >> (8 * i)) as u8);
    }
}

fn fill(d: &mut BlockDev, first: u8, bytes: usize) {
    for i in 0..bytes {
        d.write8(BASE, first.wrapping_add(i as u8));
    }
}

#[test]
fn sectors_are_read_back() {
    let mut d = BlockDev::new(BASE);
    seek(&mut d, 2, 2);
    d.write8(BASE + 2, 0x02);
    fill(&mut d, 7, 1024);
    seek(&mut d, 2, 2);
    d.write8(BASE + 2, 0x01);
    for i in 0..1024usize {
        assert_eq!(d.read8(BASE), 7u8.wrapping_add(i as u8));
    }
    assert_eq!(d.status(), 0);
    assert_eq!(d.last_cmd(), 0x01);
    assert_eq!(d.last_data(), 7u8.wrapping_add(1023usize as u8));
    // The sectors before were filled up with zeros.
    seek(&mut d, 0, 1);
    d.write8(BASE + 2, 0x01);
    assert_eq!(d.read8(BASE), 0);
    assert_eq!(d.status(), 0x02);
}

#[test]
fn the_status_follows_a_read() {
    let mut d = BlockDev::new(BASE);
    seek(&mut d, 1, 2);
    d.write8(BASE + 2, 0x02);
    fill(&mut d, 3, 1024);
    seek(&mut d, 1, 2);
    d.write8(BASE + 2, 0x01);
    for i in 0..1024usize {
        assert_eq!(d.read8(BASE + 1), 0x02);
        assert_eq!(d.read8(BASE), 3u8.wrapping_add(i as u8));
    }
    assert_eq!(d.read8(BASE + 1), 0x00);
}

#[test]
fn a_write_drops_what_was_read() {
    let mut d = BlockDev::new(BASE);
    d.set_image(vec![0; 512]);
    d.write8(BASE + 2, 0x01);
    assert_eq!(d.status(), 0x02);
    d.write8(BASE + 2, 0x02);
    assert_eq!(d.status(), 0x01);
    for _ in 0..512 {
        d.write8(BASE, 0x55);
    }
    assert_eq!(d.status(), 0x00);
}

#[test]
fn a_sector_past_the_image_is_an_error_and_reads_zeros() {
    let mut d = BlockDev::new(BASE);
    d.set_image(vec![0x55; 512]);
    seek(&mut d, 1, 1);
    d.write8(BASE + 2, 0x01);
    assert_eq!(d.status(), 0x06);
    assert_eq!(d.read8(BASE + 1), 0x06);
    // Reading the status clears the error.
    assert_eq!(d.status(), 0x02);
    assert_eq!(d.read8(BASE), 0);
}

#[test]
fn unknown_commands_are_errors_and_reset_drops_them() {
    let mut d = BlockDev::new(BASE);
    d.write8(BASE + 2, 0x77);
    assert_eq!(d.status(), 0x04);
    assert_eq!(d.last_cmd(), 0x77);
    d.write8(BASE + 2, 0xFF);
    assert_eq!(d.status(), 0);
    assert_eq!(d.last_cmd(), 0);
    assert_eq!(d.read8(BASE), 0);
}

#[test]
fn registers_read_back() {
    let mut d = BlockDev::new(BASE);
    seek(&mut d, 0x1234_5678, 9);
    assert_eq!(d.read8(BASE + 3), 9);
    assert_eq!(d.read8(BASE + 4), 0x78);
    assert_eq!(d.read8(BASE + 5), 0x56);
    assert_eq!(d.read8(BASE + 6), 0x34);
    assert_eq!(d.read8(BASE + 7), 0x12);
    assert!(d.contains(BASE));
    assert!(d.contains(BASE + 7));
    assert!(!d.contains(BASE + 8));
}

#[test]
fn written_sectors_go_to_the_mirror() {
    let mut d = BlockDev::new(BASE);
    d.set_backing_file("disk.img", Some(vec![0xAA; 1024]));
    assert_eq!(d.backing_file(), Some("disk.img"));
    seek(&mut d, 1, 1);
    d.write8(BASE + 2, 0x02);
    fill(&mut d, 0, 512);
    let writes = d.take_mirror();
    assert_eq!(writes.len(), 1);
    assert_eq!(writes[0].start, 512);
    assert_eq!(writes[0].bytes.len(), 512);
    assert_eq!(writes[0].bytes[3], 3);
    assert!(d.take_mirror().is_empty());
    d.report_mirror(true);
    assert_eq!(d.status(), 0);
    d.report_mirror(false);
    assert_eq!(d.status(), 0x04);
    // A file that could not be read keeps the image.
    d.set_backing_file("other.img", None);
    seek(&mut d, 0, 1);
    d.write8(BASE + 2, 0x01);
    assert_eq!(d.read8(BASE), 0xAA);
}

#[test]
fn commands_are_logged() {
    let mut d = BlockDev::new(BASE);
    set_block_log(&mut d, true);
    seek(&mut d, 0x0001_0002, 3);
    d.write8(BASE + 2, 0x00);
    d.set_irq_enable(true);
    d.write8(BASE + 2, 0x00);
    assert_eq!(
        d.take_lines(),
        vec![
            "[block] CMD=$00 LBA=$00010002 SECCNT=$03 irq=false".to_string(),
            "[block] CMD=$00 LBA=$00010002 SECCNT=$03 irq=true".to_string(),
        ]
    );
    assert!(d.take_lines().is_empty());
}

#[test]
fn interrupts_come_on_the_chosen_line() {
    let mut d = BlockDev::new(BASE);
    d.set_image(vec![0; 512]);
    d.set_irq_enable(true);
    seek(&mut d, 0, 1);
    d.write8(BASE + 2, 0x01);
    assert_eq!(d.irq_lines(), (false, false, true));
    d.set_firq(true);
    assert_eq!(d.irq_lines(), (false, true, false));
}

#[test]
fn changes_are_told_once() {
    let mut bus = IoBus::new(Memory::new());
    assert!(!bus.take_block_dirty());
    bus.ensure_block(true, BASE);
    assert!(bus.take_block_dirty());
    assert!(!bus.take_block_dirty());
    bus.write8(BASE + 2, 0x77);
    assert!(bus.take_block_dirty());
    assert!(bus.with_block_mut(|b: &mut BlockDev| b.set_irq_enable(true)));
    assert_eq!(bus.irq_lines(), (false, false, true));
    bus.ensure_block(false, BASE);
    assert!(!bus.with_block_mut(|_b: &mut BlockDev| {}));
}
