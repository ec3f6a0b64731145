//! Image files: little-endian 32-bit cells, loaded from address 0.
use vstd::prelude::*;

use crate::semantics::{Machine, IMAGE_SIZE};
use crate::vm::NgaVm;

verus! {

/// The 32-bit word whose little-endian bytes are `b0` to `b3`.
pub open spec fn le_word(b0: u8, b1: u8, b2: u8, b3: u8) -> u32 {
    (b0 as u32) | ((b1 as u32) << 8u32) | ((b2 as u32) << 16u32) | ((b3 as u32) << 24u32)
}

/// Cell `i` of an image file.
pub open spec fn cell_in(bytes: Seq<u8>, i: int) -> i32 {
    le_word(bytes[4 * i], bytes[4 * i + 1], bytes[4 * i + 2], bytes[4 * i + 3]) as i32
}

/// Number of whole cells an image file holds, up to the image capacity.
pub open spec fn cells_in(bytes: Seq<u8>) -> int {
    if bytes.len() / 4 < IMAGE_SIZE { (bytes.len() / 4) as int } else { IMAGE_SIZE as int }
}

/// Memory after loading an image file over `mem`: the file's cells from address
/// 0, the rest as it was. A trailing partial cell is ignored.
pub open spec fn loaded(mem: Seq<i32>, bytes: Seq<u8>) -> Seq<i32> {
    Seq::new(mem.len(), |i: int| if i < cells_in(bytes) { cell_in(bytes, i) } else { mem[i] })
}

/// The four little-endian bytes of a cell.
pub open spec fn cell_bytes(c: i32) -> Seq<u8> {
    let w = c as u32;
    seq![(w & 0xff) as u8, ((w >> 8u32) & 0xff) as u8, ((w >> 16u32) & 0xff) as u8, ((w >> 24u32) & 0xff) as u8]
}

/// An image file holding `cells`.
pub open spec fn encode_cells(cells: Seq<i32>) -> Seq<u8> {
    Seq::new(4 * cells.len(), |j: int| cell_bytes(cells[j / 4])[j % 4])
}

/// Decoding the bytes of one cell gives the cell back.
pub proof fn lemma_cell_bytes_decode(c: i32)
    ensures
        le_word(cell_bytes(c)[0], cell_bytes(c)[1], cell_bytes(c)[2], cell_bytes(c)[3]) as i32 == c,
{
    let w = c as u32;
    assert(((w & 0xff) as u8 as u32) | ((((w >> 8u32) & 0xff) as u8 as u32) << 8u32) | ((((w
        >> 16u32) & 0xff) as u8 as u32) << 16u32) | ((((w >> 24u32) & 0xff) as u8 as u32) << 24u32)
        == w) by (bit_vector);
    assert((c as u32) as i32 == c) by (bit_vector);
}

/// Loading an image file written from a cell sequence that fits in the image
/// puts exactly that sequence at the start of memory and keeps the rest.
pub proof fn law_image_round_trip(cells: Seq<i32>, mem: Seq<i32>)
    requires
        cells.len() <= IMAGE_SIZE,
        mem.len() == IMAGE_SIZE,
    ensures
        loaded(mem, encode_cells(cells)).subrange(0, cells.len() as int) == cells,
        loaded(mem, encode_cells(cells)).subrange(cells.len() as int, IMAGE_SIZE as int)
            == mem.subrange(cells.len() as int, IMAGE_SIZE as int),
{
    let bytes = encode_cells(cells);
    let n = cells.len() as int;
    assert((4 * n) / 4 == n) by (nonlinear_arith);
    assert(cells_in(bytes) == n);
    assert forall|i: int| 0 <= i < n implies #[trigger] cell_in(bytes, i) == cells[i] by {
        assert((4 * i) / 4 == i && (4 * i) % 4 == 0) by (nonlinear_arith);
        assert((4 * i + 1) / 4 == i && (4 * i + 1) % 4 == 1) by (nonlinear_arith);
        assert((4 * i + 2) / 4 == i && (4 * i + 2) % 4 == 2) by (nonlinear_arith);
        assert((4 * i + 3) / 4 == i && (4 * i + 3) % 4 == 3) by (nonlinear_arith);
        lemma_cell_bytes_decode(cells[i]);
    }
    assert(loaded(mem, bytes).subrange(0, n) =~= cells);
    assert(loaded(mem, bytes).subrange(n, IMAGE_SIZE as int) =~= mem.subrange(
        n,
        IMAGE_SIZE as int,
    ));
}

/// Cell `i` of an image file.
fn read_cell(bytes: &[u8], i: usize) -> (r: i32)
    requires
        4 * i + 3 < bytes@.len(),
    ensures
        r == cell_in(bytes@, i as int),
{
    let len = bytes.len();
    assert(4 * i + 3 < len);
    let b0 = bytes[4 * i] as u32;
    let b1 = bytes[4 * i + 1] as u32;
    let b2 = bytes[4 * i + 2] as u32;
    let b3 = bytes[4 * i + 3] as u32;
    let w: u32 = b0 | (b1 << 8u32) | (b2 << 16u32) | (b3 << 24u32);
    #[verifier::truncate]
    (w as i32)
}

impl NgaVm {
    /// Copy an image file's cells into memory from address 0, up to the image
    /// capacity; the cells past the file's end keep their values.
    pub fn load_bytes(&mut self, bytes: &[u8])
        requires
            old(self).wf(),
        ensures
            final(self).wf(),
            final(self)@ == (Machine { memory: loaded(old(self)@.memory, bytes@), ..old(self)@ }),
    {
        let n: usize = if bytes.len() / 4 < IMAGE_SIZE {
            bytes.len() / 4
        } else {
            IMAGE_SIZE
        };
        let ghost start = self@;
        let mut i: usize = 0;
        while i < n
            invariant
                self.wf(),
                n as int == cells_in(bytes@),
                i <= n,
                self@ == (Machine { memory: self@.memory, ..start }),
                forall|j: int| 0 <= j < i ==> self@.memory[j] == cell_in(bytes@, j),
                forall|j: int| i <= j < IMAGE_SIZE ==> self@.memory[j] == start.memory[j],
            decreases n - i,
        {
            let c = read_cell(bytes, i);
            self.set_cell(i, c);
            i = i + 1;
        }
        proof {
            assert(self@.memory =~= loaded(start.memory, bytes@));
        }
    }
}

} // verus!
