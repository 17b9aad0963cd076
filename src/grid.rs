use vstd::prelude::*;
use crate::normalize::{min_max_scaling_8c, min_max_scaling_8g, normalize, Normalized};
use crate::raster::{lemma_pixel_index, GrayModel, GrayRaster, RgbModel, RgbPixel, RgbRaster};

verus! {

/// The rows of a table, each as a sequence.
pub open spec fn rows_of(t: Seq<Vec<Normalized>>) -> Seq<Seq<Normalized>> {
    t.map_values(|row: Vec<Normalized>| row@)
}

/// The three channels of a pixel, each scaled into the unit interval.
pub open spec fn channels(p: RgbPixel) -> Seq<Normalized> {
    seq![normalize(p.r), normalize(p.g), normalize(p.b)]
}

/// The scaled grayscale image, row-major: `height` rows of `width` values,
/// the value at row `y`, column `x` being that of pixel `(x, y)`.
pub open spec fn gray_table(m: GrayModel) -> Seq<Seq<Normalized>> {
    Seq::new(
        m.height as nat,
        |y: int| Seq::new(m.width as nat, |x: int| normalize(m.at(x, y))),
    )
}

/// The scaled red channel of a colour image, row-major.
pub open spec fn red_table(m: RgbModel) -> Seq<Seq<Normalized>> {
    Seq::new(
        m.height as nat,
        |y: int| Seq::new(m.width as nat, |x: int| normalize(m.at(x, y).r)),
    )
}

/// Whether every index `x * height + y`, for `x < height` and `y < width`,
/// falls inside a flat sequence of `width * height` pixels.
pub open spec fn legacy_in_range(width: int, height: int) -> bool {
    forall|x: int, y: int|
        0 <= x < height && 0 <= y < width ==> #[trigger] (x * height + y) < width * height
}

/// The table read from the column-major flat sequence with the roles of width
/// and height swapped: `width` rows of `height` values, row `y`, column `x`
/// holding the red channel of flat element `x * height + y`, which is pixel
/// `(i / height, i % height)`.
pub open spec fn legacy_red_table(m: RgbModel) -> Seq<Seq<Normalized>> {
    Seq::new(
        m.width as nat,
        |y: int|
            Seq::new(
                m.height as nat,
                |x: int|
                    normalize(
                        m.at((x * m.height + y) / m.height as int, (x * m.height + y) % m.height as int).r,
                    ),
            ),
    )
}

/// Why a table could not be read out of a scaled image.
#[derive(Clone, Copy, Debug, PartialEq, Eq, Structural)]
pub enum TableError {
    /// An index fell outside the flat sequence of pixels.
    IndexOutOfRange,
}

/// Scales every pixel of a grayscale image, giving one row per image row.
pub fn min_max_scaling_image8g(image: &GrayRaster) -> (r: Vec<Vec<Normalized>>)
    ensures
        rows_of(r@) == gray_table(image@),
{
    let width = image.width();
    let height = image.height();
    let ghost m = image@;
    let mut vv: Vec<Vec<Normalized>> = Vec::new();
    let mut y: u32 = 0;
    while y < height
        invariant
            m == image@,
            width == m.width,
            height == m.height,
            y <= height,
            vv@.len() == y,
            forall|j: int| 0 <= j < y ==> #[trigger] vv@[j]@ == gray_table(m)[j],
        decreases height - y,
    {
        let mut v: Vec<Normalized> = Vec::new();
        let mut x: u32 = 0;
        while x < width
            invariant
                m == image@,
                width == m.width,
                height == m.height,
                y < height,
                x <= width,
                v@.len() == x,
                forall|k: int| 0 <= k < x ==> #[trigger] v@[k] == normalize(m.at(k, y as int)),
            decreases width - x,
        {
            let f = min_max_scaling_8g(image.pixel(x, y));
            v.push(f);
            x += 1;
        }
        assert(v@ =~= gray_table(m)[y as int]);
        vv.push(v);
        y += 1;
    }
    assert(rows_of(vv@) =~= gray_table(m));
    vv
}

/// Scales every channel of every pixel of a colour image, giving one row per
/// image row and `[red, green, blue]` per pixel.
pub fn min_max_scaling_image8c(image: &RgbRaster) -> (r: Vec<Vec<Vec<Normalized>>>)
    ensures
        r@.len() == image@.height,
        forall|y: int| 0 <= y < image@.height ==> #[trigger] r@[y]@.len() == image@.width,
        forall|y: int, x: int|
            0 <= y < image@.height && 0 <= x < image@.width ==> #[trigger] r@[y]@[x]@ == channels(
                image@.at(x, y),
            ),
{
    let width = image.width();
    let height = image.height();
    let ghost m = image@;
    let mut vvv: Vec<Vec<Vec<Normalized>>> = Vec::new();
    let mut y: u32 = 0;
    while y < height
        invariant
            m == image@,
            width == m.width,
            height == m.height,
            y <= height,
            vvv@.len() == y,
            forall|j: int| 0 <= j < y ==> #[trigger] vvv@[j]@.len() == width,
            forall|j: int, k: int|
                0 <= j < y && 0 <= k < width ==> #[trigger] vvv@[j]@[k]@ == channels(m.at(k, j)),
        decreases height - y,
    {
        let mut vv: Vec<Vec<Normalized>> = Vec::new();
        let mut x: u32 = 0;
        while x < width
            invariant
                m == image@,
                width == m.width,
                height == m.height,
                y < height,
                x <= width,
                vv@.len() == x,
                forall|k: int| 0 <= k < x ==> #[trigger] vv@[k]@ == channels(m.at(k, y as int)),
            decreases width - x,
        {
            let v = min_max_scaling_8c(image.pixel(x, y));
            vv.push(v);
            x += 1;
        }
        vvv.push(vv);
        y += 1;
    }
    vvv
}

/// The red channel of a colour image, scaled and laid out row-major:
/// `table[y][x]` is the scaled red byte of pixel `(x, y)`.
pub fn red_table_8c(image: &RgbRaster) -> (r: Vec<Vec<Normalized>>)
    ensures
        rows_of(r@) == red_table(image@),
{
    let grid = min_max_scaling_image8c(image);
    let width = image.width();
    let height = image.height();
    let ghost m = image@;
    let mut table: Vec<Vec<Normalized>> = Vec::new();
    let mut y: usize = 0;
    while y < height as usize
        invariant
            m == image@,
            width == m.width,
            height == m.height,
            grid@.len() == height,
            forall|j: int| 0 <= j < height ==> #[trigger] grid@[j]@.len() == width,
            forall|j: int, k: int|
                0 <= j < height && 0 <= k < width ==> #[trigger] grid@[j]@[k]@ == channels(
                    m.at(k, j),
                ),
            y <= height,
            table@.len() == y,
            forall|j: int| 0 <= j < y ==> #[trigger] table@[j]@ == red_table(m)[j],
        decreases height - y,
    {
        let mut row: Vec<Normalized> = Vec::new();
        let mut x: usize = 0;
        while x < width as usize
            invariant
                m == image@,
                width == m.width,
                height == m.height,
                grid@.len() == height,
                forall|j: int| 0 <= j < height ==> #[trigger] grid@[j]@.len() == width,
                forall|j: int, k: int|
                    0 <= j < height && 0 <= k < width ==> #[trigger] grid@[j]@[k]@ == channels(
                        m.at(k, j),
                    ),
                y < height,
                x <= width,
                row@.len() == x,
                forall|k: int| 0 <= k < x ==> #[trigger] row@[k] == normalize(m.at(k, y as int).r),
            decreases width - x,
        {
            assert(grid@[y as int]@[x as int]@ == channels(m.at(x as int, y as int)));
            row.push(grid[y][x][0]);
            x += 1;
        }
        assert(row@ =~= red_table(m)[y as int]);
        table.push(row);
        y += 1;
    }
    assert(rows_of(table@) =~= red_table(m));
    table
}

/// Scales every pixel of a colour image into one flat sequence, walking the
/// columns in the outer loop: element `i` is pixel `(i / height, i % height)`.
pub fn column_major_scaling_8c(image: &RgbRaster) -> (r: Vec<Vec<Normalized>>)
    ensures
        r@.len() == image@.width * image@.height,
        forall|i: int|
            0 <= i < r@.len() ==> #[trigger] r@[i]@ == channels(
                image@.at(i / image@.height as int, i % image@.height as int),
            ),
{
    let width = image.width();
    let height = image.height();
    let ghost m = image@;
    let mut flat: Vec<Vec<Normalized>> = Vec::new();
    let mut x: u32 = 0;
    while x < width
        invariant
            m == image@,
            width == m.width,
            height == m.height,
            x <= width,
            flat@.len() == x * height,
            forall|i: int|
                0 <= i < flat@.len() ==> #[trigger] flat@[i]@ == channels(
                    m.at(i / height as int, i % height as int),
                ),
        decreases width - x,
    {
        let mut y: u32 = 0;
        while y < height
            invariant
                m == image@,
                width == m.width,
                height == m.height,
                x < width,
                y <= height,
                flat@.len() == x * height + y,
                forall|i: int|
                    0 <= i < flat@.len() ==> #[trigger] flat@[i]@ == channels(
                        m.at(i / height as int, i % height as int),
                    ),
            decreases height - y,
        {
            let v = min_max_scaling_8c(image.pixel(x, y));
            proof {
                vstd::arithmetic::div_mod::lemma_fundamental_div_mod_converse(
                    x * height + y,
                    height as int,
                    x as int,
                    y as int,
                );
            }
            flat.push(v);
            y += 1;
        }
        assert((x + 1) * height == x * height + height) by (nonlinear_arith);
        x += 1;
    }
    flat
}

/// Reads the red channel out of the column-major flat sequence, with the
/// roles of width and height swapped: row `y` runs over `0..width`, column `x`
/// over `0..height`, and the cell is flat element `x * height + y`. Where the
/// image is not square some such index can fall outside the sequence; then the
/// result is `IndexOutOfRange`.
pub fn legacy_red_table_8c(image: &RgbRaster) -> (r: Result<Vec<Vec<Normalized>>, TableError>)
    ensures
        r is Ok <==> legacy_in_range(image@.width as int, image@.height as int),
        r matches Ok(t) ==> rows_of(t@) == legacy_red_table(image@),
{
    let flat = column_major_scaling_8c(image);
    let width = image.width();
    let height = image.height();
    let ghost m = image@;
    let mut table: Vec<Vec<Normalized>> = Vec::new();
    let mut y: u32 = 0;
    while y < width
        invariant
            m == image@,
            width == m.width,
            height == m.height,
            flat@.len() == width * height,
            forall|i: int|
                0 <= i < flat@.len() ==> #[trigger] flat@[i]@ == channels(
                    m.at(i / height as int, i % height as int),
                ),
            y <= width,
            table@.len() == y,
            forall|j: int| 0 <= j < y ==> #[trigger] table@[j]@ == legacy_red_table(m)[j],
            forall|xx: int, yy: int|
                0 <= xx < height && 0 <= yy < y ==> #[trigger] (xx * height + yy) < width * height,
        decreases width - y,
    {
        let mut row: Vec<Normalized> = Vec::new();
        let mut x: u32 = 0;
        while x < height
            invariant
                m == image@,
                width == m.width,
                height == m.height,
                flat@.len() == width * height,
                forall|i: int|
                    0 <= i < flat@.len() ==> #[trigger] flat@[i]@ == channels(
                        m.at(i / height as int, i % height as int),
                    ),
                y < width,
                x <= height,
                row@.len() == x,
                forall|k: int| 0 <= k < x ==> #[trigger] row@[k] == legacy_red_table(m)[y as int][k],
                forall|xx: int, yy: int|
                    0 <= xx < height && 0 <= yy < y ==> #[trigger] (xx * height + yy) < width * height,
                forall|xx: int| 0 <= xx < x ==> #[trigger] (xx * height + y) < width * height,
            decreases height - x,
        {
            proof {
                assert(x * height + y <= 0xffff_fffe_0000_0001 + 0xffff_ffff) by (nonlinear_arith)
                    requires
                        x < height <= 0xffff_ffff,
                        y < width <= 0xffff_ffff,
                ;
            }
            let index: u64 = x as u64 * height as u64 + y as u64;
            if index >= flat.len() as u64 {
                assert(!legacy_in_range(width as int, height as int)) by {
                    assert(!((x as int) * (height as int) + (y as int) < (width as int) * (height as int)));
                }
                return Err(TableError::IndexOutOfRange);
            }
            assert(flat@[index as int]@ == channels(
                m.at(index as int / height as int, index as int % height as int),
            ));
            row.push(flat[index as usize][0]);
            x += 1;
        }
        assert(row@ =~= legacy_red_table(m)[y as int]);
        table.push(row);
        y += 1;
    }
    assert(rows_of(table@) =~= legacy_red_table(m));
    Ok(table)
}

/// A square image of `n` by `n` pixels that all hold the luma `g` scales to
/// `n` rows of `n` values, every one of them `normalize(g)`.
pub proof fn solid_gray_law(m: GrayModel, g: u8)
    requires
        m.wf(),
        m.width == m.height,
        forall|i: int| 0 <= i < m.luma.len() ==> m.luma[i] == g,
    ensures
        gray_table(m).len() == m.height,
        forall|y: int| 0 <= y < m.height ==> #[trigger] gray_table(m)[y].len() == m.height,
        forall|y: int, x: int|
            0 <= y < m.height && 0 <= x < m.height ==> #[trigger] gray_table(m)[y][x] == normalize(
                g,
            ),
{
    assert forall|y: int, x: int|
        0 <= y < m.height && 0 <= x < m.height implies #[trigger] gray_table(m)[y][x] == normalize(
            g,
        ) by {
        lemma_pixel_index(x, y, m.width as int, m.height as int);
    }
}

/// On a square image the swapped-index table never leaves the flat sequence
/// and agrees with the row-major red table.
pub proof fn square_legacy_law(m: RgbModel)
    requires
        m.width == m.height,
    ensures
        legacy_in_range(m.width as int, m.height as int),
        legacy_red_table(m) == red_table(m),
{
    let n = m.height as int;
    assert forall|x: int, y: int| 0 <= x < n && 0 <= y < n implies #[trigger] (x * n + y) < n
        * n by {
        lemma_pixel_index(y, x, n, n);
    }
    assert forall|y: int, x: int|
        0 <= y < n && 0 <= x < n implies #[trigger] legacy_red_table(m)[y][x] == red_table(
            m,
        )[y][x] by {
        vstd::arithmetic::div_mod::lemma_fundamental_div_mod_converse(x * n + y, n, x, y);
    }
    assert forall|y: int| 0 <= y < n implies #[trigger] legacy_red_table(m)[y] == red_table(m)[y] by {
        assert(legacy_red_table(m)[y] =~= red_table(m)[y]);
    }
    assert(legacy_red_table(m) =~= red_table(m));
}

} // verus!
