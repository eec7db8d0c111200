//! A captured screen image and the cutting out of rectangles from it.
use vstd::prelude::*;
use crate::protocol::pixel_format::PixelFormat;
use crate::protocol::primitives::Rect;

verus! {

/// A captured screen image: its rows one after another, in `format`.
pub struct Frame {
    pub data: Vec<u8>,
    pub format: PixelFormat,
}

/// `n` zero bytes.
pub open spec fn zeros(n: nat) -> Seq<u8> {
    Seq::new(n, |i: int| 0u8)
}

/// Row `r` of a cut-out: the `row_size` bytes starting `start_x` bytes into
/// image row `y + r` (rows `stride` bytes apart), or zeros where they would
/// run past the end of the image.
pub open spec fn cut_row(data: Seq<u8>, stride: nat, y: nat, start_x: nat, row_size: nat, r: nat) -> Seq<u8> {
    let start = stride * (y + r) + start_x;
    if start + row_size <= data.len() {
        data.subrange(start as int, (start + row_size) as int)
    } else {
        zeros(row_size)
    }
}

/// The first `rows` rows of a cut-out, one after another.
pub open spec fn cut_rows(data: Seq<u8>, stride: nat, y: nat, start_x: nat, row_size: nat, rows: nat) -> Seq<u8>
    decreases rows,
{
    if rows == 0 {
        seq![]
    } else {
        cut_rows(data, stride, y, start_x, row_size, (rows - 1) as nat) + cut_row(
            data,
            stride,
            y,
            start_x,
            row_size,
            (rows - 1) as nat,
        )
    }
}

/// Each row of a cut-out is `row_size` bytes long.
pub proof fn lemma_cut_rows_len(data: Seq<u8>, stride: nat, y: nat, start_x: nat, row_size: nat, rows: nat)
    ensures
        cut_rows(data, stride, y, start_x, row_size, rows).len() == rows * row_size,
    decreases rows,
{
    if rows > 0 {
        lemma_cut_rows_len(data, stride, y, start_x, row_size, (rows - 1) as nat);
        assert(cut_row(data, stride, y, start_x, row_size, (rows - 1) as nat).len() == row_size);
        let prev = (rows - 1) as nat;
        assert(rows * row_size == prev * row_size + row_size) by (nonlinear_arith)
            requires
                prev == rows - 1,
        ;
        assert(cut_rows(data, stride, y, start_x, row_size, rows) == cut_rows(data, stride, y, start_x, row_size, prev) + cut_row(data, stride, y, start_x, row_size, prev));
    } else {
        assert(rows * row_size == 0) by (nonlinear_arith)
            requires
                rows == 0,
        ;
    }
}

impl Frame {
    /// `get_src_rect` can cut `rect` out of an image `height` rows high.
    pub open spec fn cut_defined(self, rect: Rect, height: nat) -> bool {
        &&& height > 0
        &&& self.format.bits_per_pixel != crate::protocol::pixel_format::BitsPerPixel::Invalid
        &&& (self.data@.len() / height) * (rect.y_pos + rect.height) + (rect.x_pos + rect.width)
            * 4 <= usize::MAX
    }

    /// Whether `get_src_rect` can cut `rect` out of an image `height` rows high.
    pub fn can_cut(&self, rect: Rect, height: usize) -> (b: bool)
        ensures
            b == self.cut_defined(rect, height as nat),
    {
        if height == 0 || self.format.bits_per_pixel
            == crate::protocol::pixel_format::BitsPerPixel::Invalid {
            return false;
        }
        let stride = (self.data.len() / height) as u128;
        let rows = rect.y_pos as u128 + rect.height as u128;
        assert(stride * rows <= 0xffff_ffff_ffff_ffff * 0x1_ffff) by (nonlinear_arith)
            requires
                stride <= 0xffff_ffff_ffff_ffff,
                rows <= 0x1_ffff,
        ;
        let need = stride * rows + (rect.x_pos as u128 + rect.width as u128) * 4;
        need <= usize::MAX as u128
    }

    /// The bytes of `rect` cut out of an image `height` rows high: each row of
    /// the rectangle in turn, zeros for a row that runs past the image.
    pub open spec fn spec_src_rect(self, rect: Rect, height: nat) -> Seq<u8> {
        let bpp = self.format.bits_per_pixel.width();
        cut_rows(
            self.data@,
            self.data@.len() / height,
            rect.y_pos as nat,
            (rect.x_pos * bpp) as nat,
            (rect.width * bpp) as nat,
            rect.height as nat,
        )
    }

    /// The pixels of `rect`, row after row, taken from an image `height` rows high.
    pub fn get_src_rect(&self, rect: Rect, height: usize) -> (r: Vec<u8>)
        requires
            self.cut_defined(rect, height as nat),
        ensures
            r@ == self.spec_src_rect(rect, height as nat),
            r@.len() == rect.height * (rect.width * self.format.bits_per_pixel.width()),
    {
        let bpp = self.format.bits_per_pixel.bytes_size();
        let stride = self.data.len() / height;
        let ghost len = self.data@.len();
        proof {
            assert(bpp <= 4);
            assert(stride * rect.y_pos <= stride * (rect.y_pos + rect.height)) by (nonlinear_arith)
                requires
                    stride >= 0,
            ;
            assert(rect.x_pos * bpp <= rect.x_pos * 4) by (nonlinear_arith)
                requires
                    bpp <= 4,
            ;
            assert(rect.width * bpp <= rect.width * 4) by (nonlinear_arith)
                requires
                    bpp <= 4,
            ;
        }
        let start_x = rect.x_pos as usize * bpp;
        let row_size = rect.width as usize * bpp;
        let mut result: Vec<u8> = Vec::new();
        let mut y_index = stride * rect.y_pos as usize;
        let mut row: u16 = 0;
        while row < rect.height
            invariant
                row <= rect.height,
                height > 0,
                stride == len / height as nat,
                len == self.data@.len(),
                bpp == self.format.bits_per_pixel.width(),
                bpp <= 4,
                start_x == rect.x_pos * bpp,
                row_size == rect.width * bpp,
                start_x + row_size <= (rect.x_pos + rect.width) * 4,
                y_index == stride * (rect.y_pos + row),
                stride * (rect.y_pos + rect.height) + (rect.x_pos + rect.width) * 4 <= usize::MAX,
                result@ == cut_rows(self.data@, stride as nat, rect.y_pos as nat, start_x as nat, row_size as nat, row as nat),
            decreases rect.height - row,
        {
            proof {
                assert(stride * (rect.y_pos + row) <= stride * (rect.y_pos + rect.height)) by (nonlinear_arith)
                    requires
                        row <= rect.height,
                        stride >= 0,
                ;
                assert(stride * (rect.y_pos + row + 1) == stride * (rect.y_pos + row) + stride) by (nonlinear_arith);
                assert(stride * (rect.y_pos + row + 1) <= stride * (rect.y_pos + rect.height)) by (nonlinear_arith)
                    requires
                        row < rect.height,
                        stride >= 0,
                ;
            }
            let start = y_index + start_x;
            let end = start + row_size;
            let ghost before = result@;
            if end <= self.data.len() {
                let mut k: usize = start;
                while k < end
                    invariant
                        start <= k <= end,
                        end <= self.data@.len(),
                        result@ == before + self.data@.subrange(start as int, k as int),
                    decreases end - k,
                {
                    result.push(self.data[k]);
                    k = k + 1;
                    assert(result@ =~= before + self.data@.subrange(start as int, k as int));
                }
            } else {
                let mut k: usize = 0;
                while k < row_size
                    invariant
                        k <= row_size,
                        result@ == before + zeros(k as nat),
                    decreases row_size - k,
                {
                    result.push(0u8);
                    k = k + 1;
                    assert(result@ =~= before + zeros(k as nat));
                }
            }
            assert(result@ =~= cut_rows(self.data@, stride as nat, rect.y_pos as nat, start_x as nat, row_size as nat, (row + 1) as nat));
            y_index = y_index + stride;
            row = row + 1;
        }
        proof {
            lemma_cut_rows_len(self.data@, stride as nat, rect.y_pos as nat, start_x as nat, row_size as nat, rect.height as nat);
        }
        result
    }
}

impl Default for Frame {
    /// No pixels yet, in the default format.
    fn default() -> (f: Self)
        ensures
            f.data@ == Seq::<u8>::empty(),
            f.format == PixelFormat::capture_format(),
    {
        Frame { data: Vec::new(), format: PixelFormat::default() }
    }
}

} // verus!
