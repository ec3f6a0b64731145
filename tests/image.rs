use nga::semantics::{Policy, IMAGE_SIZE};
use nga::vm::NgaVm;

fn encode(cells: &[i32]) -> Vec<u8> {
    cells.iter().flat_map(|c| c.to_le_bytes()).collect()
}

#[test]
fn image_round_trip() {
    let cells = [0, 1, -1, 42, i32::MIN, i32::MAX, 0x01020304, -123456];
    let mut vm = NgaVm::new();
    vm.load_bytes(&encode(&cells));
    for (i, c) in cells.iter().enumerate() {
        assert_eq!(vm.cell(i), *c);
    }
    assert_eq!(vm.cell(cells.len()), 0);
}

#[test]
fn image_is_little_endian() {
    let mut vm = NgaVm::new();
    vm.load_bytes(&[0x04, 0x03, 0x02, 0x01, 0xff, 0xff, 0xff, 0xff]);
    assert_eq!(vm.cell(0), 0x01020304);
    assert_eq!(vm.cell(1), -1);
}

#[test]
fn partial_cell_is_ignored_and_tail_kept() {
    let mut vm = NgaVm::with_policy(Policy::Strict);
    vm.set_cell(1, 77);
    vm.set_cell(2, 88);
    vm.load_bytes(&[1, 0, 0, 0, 9, 9]);
    assert_eq!(vm.cell(0), 1);
    assert_eq!(vm.cell(1), 77);
    assert_eq!(vm.cell(2), 88);
}

#[test]
fn oversized_image_is_truncated() {
    let mut cells = vec![5i32; IMAGE_SIZE + 3];
    cells[IMAGE_SIZE - 1] = 6;
    let mut vm = NgaVm::new();
    vm.load_bytes(&encode(&cells));
    assert_eq!(vm.cell(0), 5);
    assert_eq!(vm.cell(IMAGE_SIZE - 1), 6);
}
