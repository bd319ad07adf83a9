//! Fan-in of computed scanlines.
//!
//! Under the parallel scheduler every scanline of the image is traced
//! independently, and the scheduler finishes them in no fixed order. The
//! image bytes must not depend on that order, so the finished rows are
//! written to the sink strictly in their original top-to-bottom order. The
//! writer here does that, and its contract pins the resulting bytes down as
//! a function of the rows alone.

use vstd::prelude::*;

verus! {

use crate::outputs::{Pixel, PpmRawOutput, ppm_header};

/// The bytes of one row of pixels, in left-to-right order.
pub open spec fn row_bytes(row: Seq<Pixel>) -> Seq<u8>
    decreases row.len(),
{
    if row.len() == 0 {
        Seq::empty()
    } else {
        row_bytes(row.drop_last()) + row.last().bytes()
    }
}

/// The pixel bytes of a whole image: its rows in top-to-bottom order.
pub open spec fn raster_bytes(rows: Seq<Seq<Pixel>>) -> Seq<u8>
    decreases rows.len(),
{
    if rows.len() == 0 {
        Seq::empty()
    } else {
        raster_bytes(rows.drop_last()) + row_bytes(rows.last())
    }
}

/// The rows a vector of pixel rows holds.
pub open spec fn rows_view(rows: Seq<Vec<Pixel>>) -> Seq<Seq<Pixel>> {
    rows.map_values(|row: Vec<Pixel>| row@)
}

/// The complete image of `w` by `h` pixels built from `rows`: the header,
/// then the rows in top-to-bottom order.
pub open spec fn image_bytes(w: nat, h: nat, rows: Seq<Seq<Pixel>>) -> Seq<u8> {
    ppm_header(w, h) + raster_bytes(rows)
}

/// Write the finished rows to a fresh sink, first row first, ending each
/// with the sink's row mark. The sink then holds exactly the image built
/// from the rows, whatever order the rows were computed in.
pub fn write_rows(out: &mut PpmRawOutput, rows: &Vec<Vec<Pixel>>)
    requires
        old(out).wf(),
        old(out).next_x() == 0,
        old(out).next_y() == 0,
        rows@.len() == old(out).height(),
        forall|j: int| 0 <= j < rows@.len() ==> #[trigger] rows@[j]@.len() == old(out).width(),
    ensures
        final(out).wf(),
        final(out).written() == image_bytes(old(out).width(), old(out).height(), rows_view(rows@)),
{
    let ghost w = old(out).width();
    let ghost h = old(out).height();
    proof {
        assert(old(out).pixel_bytes() =~= Seq::<u8>::empty());
        assert(raster_bytes(rows_view(rows@).take(0)) =~= Seq::<u8>::empty());
    }
    let mut j: usize = 0;
    while j < rows.len()
        invariant
            j <= rows@.len(),
            out.wf(),
            out.width() == w,
            out.height() == h,
            rows@.len() == h,
            forall|k: int| 0 <= k < rows@.len() ==> #[trigger] rows@[k]@.len() == w,
            out.next_x() == 0,
            out.next_y() == j,
            out.pixel_bytes() == raster_bytes(rows_view(rows@).take(j as int)),
        decreases rows@.len() - j,
    {
        let row = &rows[j];
        let ghost done = out.pixel_bytes();
        let mut i: usize = 0;
        while i < row.len()
            invariant
                i <= row@.len(),
                j < rows@.len(),
                out.wf(),
                out.width() == w,
                out.height() == h,
                rows@.len() == h,
                row@ == rows@[j as int]@,
                row@.len() == w,
                out.pixel_bytes() == done + row_bytes(row@.take(i as int)),
                if i < row@.len() {
                    out.next_x() == i && out.next_y() == j
                } else {
                    out.next_x() == 0 && out.next_y() == j + 1
                },
            decreases row@.len() - i,
        {
            out.put_pixel(i, j, row[i]);
            proof {
                assert(row@.take(i + 1).drop_last() =~= row@.take(i as int));
                assert(row@.take(i + 1).last() == row@[i as int]);
            }
            i = i + 1;
        }
        out.flush_row();
        proof {
            assert(row@.take(row@.len() as int) =~= row@);
            assert(rows_view(rows@).take(j + 1).drop_last() =~= rows_view(rows@).take(j as int));
            assert(rows_view(rows@).take(j + 1).last() == row@);
        }
        j = j + 1;
    }
    proof {
        assert(rows_view(rows@).take(rows@.len() as int) =~= rows_view(rows@));
        assert(out.written() =~= image_bytes(w, h, rows_view(rows@)));
    }
}

/// One row of `w` pixels takes exactly `3 * w` bytes.
pub proof fn lemma_row_bytes_len(row: Seq<Pixel>)
    ensures
        row_bytes(row).len() == 3 * row.len(),
    decreases row.len(),
{
    if row.len() > 0 {
        lemma_row_bytes_len(row.drop_last());
    }
}

/// Rows of `w` pixels each take exactly `3 * w` bytes per row.
proof fn lemma_raster_bytes_len(rows: Seq<Seq<Pixel>>, w: nat)
    requires
        forall|j: int| 0 <= j < rows.len() ==> #[trigger] rows[j].len() == w,
    ensures
        raster_bytes(rows).len() == 3 * w * rows.len(),
    decreases rows.len(),
{
    if rows.len() > 0 {
        lemma_raster_bytes_len(rows.drop_last(), w);
        lemma_row_bytes_len(rows.last());
        assert(3 * w * (rows.len() - 1) + 3 * w == 3 * w * rows.len()) by (nonlinear_arith);
    }
}

/// An image of `h` rows of `w` pixels each is exactly the header followed
/// by `3 * w * h` pixel bytes.
pub proof fn lemma_image_size(w: nat, h: nat, rows: Seq<Seq<Pixel>>)
    requires
        rows.len() == h,
        forall|j: int| 0 <= j < rows.len() ==> #[trigger] rows[j].len() == w,
    ensures
        image_bytes(w, h, rows).len() == ppm_header(w, h).len() + 3 * w * h,
{
    lemma_raster_bytes_len(rows, w);
}

/// Two sinks that each hold the image of the same rows at the same size
/// hold byte-identical output: the image is a function of the rows alone,
/// not of the schedule that produced them.
pub proof fn lemma_image_deterministic(
    a: PpmRawOutput,
    b: PpmRawOutput,
    w: nat,
    h: nat,
    rows: Seq<Seq<Pixel>>,
)
    requires
        a.written() == image_bytes(w, h, rows),
        b.written() == image_bytes(w, h, rows),
    ensures
        a.written() == b.written(),
{
}

} // verus!
