use vstd::prelude::*;

use crate::engine::Engine;

verus! {

/// One RGBA pixel, one byte per channel.
#[derive(Clone, Copy, Debug, PartialEq, Eq, Structural)]
pub struct Rgba {
    pub r: u8,
    pub g: u8,
    pub b: u8,
    pub a: u8,
}

impl Rgba {
    /// The fully transparent black pixel that fresh buffers are filled with.
    pub open spec fn zero() -> Rgba {
        Rgba { r: 0, g: 0, b: 0, a: 0 }
    }

    pub fn new(r: u8, g: u8, b: u8, a: u8) -> (c: Rgba)
        ensures
            c == (Rgba { r, g, b, a }),
    {
        Rgba { r, g, b, a }
    }
}

/// The pixel of a row-major grid `s` of width `w` at coordinate `(x, y)`.
pub open spec fn grid_at(s: Seq<Rgba>, w: int, x: int, y: int) -> Rgba {
    s[x + y * w]
}

/// A row-major index stays inside the grid.
pub proof fn lemma_grid_index_in_range(w: int, h: int, x: int, y: int)
    by (nonlinear_arith)
    requires
        0 <= x < w,
        0 <= y < h,
    ensures
        0 <= x + y * w < w * h,
        x + y * w < h * w,
{
}

/// Two in-range coordinates with the same row-major index are the same
/// coordinate.
pub proof fn lemma_grid_index_injective(w: int, x1: int, y1: int, x2: int, y2: int)
    by (nonlinear_arith)
    requires
        0 <= x1 < w,
        0 <= x2 < w,
        0 <= y1,
        0 <= y2,
        x1 + y1 * w == x2 + y2 * w,
    ensures
        x1 == x2,
        y1 == y2,
{
}

/// An owned tile of RGBA pixels, row-major, `width * height` of them; sliced
/// out of the atlas once and then only read.
pub struct Sprite {
    pub width: u32,
    pub height: u32,
    pub data: Vec<Rgba>,
}

impl Sprite {
    /// The sprite invariant: one pixel per coordinate of the grid.
    pub open spec fn wf(self) -> bool {
        self.data@.len() == self.width * self.height
    }

    /// A `width x height` sprite filled with the zero pixel.
    pub fn new(width: u32, height: u32) -> (s: Sprite)
        requires
            width * height <= usize::MAX,
        ensures
            s.wf(),
            s.width == width,
            s.height == height,
            forall|i: int| 0 <= i < s.data@.len() ==> s.data@[i] == Rgba::zero(),
    {
        let len: usize = (width as usize) * (height as usize);
        let mut data: Vec<Rgba> = Vec::new();
        let mut i: usize = 0;
        while i < len
            invariant
                i <= len,
                data@.len() == i,
                forall|j: int| 0 <= j < i ==> data@[j] == Rgba::zero(),
            decreases len - i,
        {
            data.push(Rgba { r: 0, g: 0, b: 0, a: 0 });
            i = i + 1;
        }
        Sprite { width, height, data }
    }

    /// Wrap a pixel buffer as a sprite when it holds exactly one pixel per
    /// grid coordinate; any other length is refused.
    pub fn from_pixels(width: u32, height: u32, data: Vec<Rgba>) -> (r: Option<Sprite>)
        ensures
            if data@.len() == width * height {
                r == Some(Sprite { width, height, data })
            } else {
                r == None::<Sprite>
            },
    {
        proof {
            assert((width as int) * (height as int) <= u64::MAX) by (nonlinear_arith)
                requires
                    width <= u32::MAX,
                    height <= u32::MAX,
            ;
        }
        let want: u64 = (width as u64) * (height as u64);
        if data.len() as u64 == want {
            Some(Sprite { width, height, data })
        } else {
            None
        }
    }

    /// The pixel at `(x, y)`.
    pub fn at(&self, x: u32, y: u32) -> (c: Rgba)
        requires
            self.wf(),
            x < self.width,
            y < self.height,
        ensures
            c == grid_at(self.data@, self.width as int, x as int, y as int),
    {
        let n: usize = self.data.len();
        proof {
            lemma_grid_index_in_range(self.width as int, self.height as int, x as int, y as int);
            assert((x as int) + (y as int) * (self.width as int) < (n as int));
        }
        let idx: usize = (x as usize) + (y as usize) * (self.width as usize);
        self.data[idx]
    }
}

/// The framebuffer after writing `c` at `(x, y)` on a `w x h` grid: the write
/// is dropped when the coordinate is out of bounds.
pub open spec fn write_pixel(fb: Seq<Rgba>, w: int, h: int, x: int, y: int, c: Rgba) -> Seq<Rgba> {
    if 0 <= x < w && 0 <= y < h {
        fb.update(x + y * w, c)
    } else {
        fb
    }
}

/// Where the camera places a world coordinate on the screen: `world + eye`
/// componentwise, valid only when both sums are non-negative and fit an
/// unsigned framebuffer coordinate; anything else is off-screen.
pub open spec fn screen_of(eye: (i64, i64), world: (i32, i32)) -> Option<(u32, u32)> {
    let sx = world.0 as int + eye.0 as int;
    let sy = world.1 as int + eye.1 as int;
    if 0 <= sx <= u32::MAX as int && 0 <= sy <= u32::MAX as int {
        Some(((sx as u32), (sy as u32)))
    } else {
        None
    }
}

/// Does the clipped copy of the source region `[left, left + bw) x
/// [top, top + bh)` reach the destination pixel at offset `(ox, oy)` from the
/// copy's target corner?  It does when the offset lies inside the region and
/// the source pixel `(left + ox, top + oy)` lies inside the `sw x sh` source;
/// source pixels outside it are skipped, not an error.
pub open spec fn region_covers(
    left: int,
    top: int,
    bw: int,
    bh: int,
    sw: int,
    sh: int,
    ox: int,
    oy: int,
) -> bool {
    &&& 0 <= ox < bw
    &&& 0 <= oy < bh
    &&& 0 <= left + ox < sw
    &&& 0 <= top + oy < sh
}

/// The part of a region copy done after `rows` full rows and `cols` pixels of
/// the next row: does it reach the destination offset `(ox, oy)`?
spec fn region_covers_upto(
    left: int,
    top: int,
    bw: int,
    sw: int,
    sh: int,
    rows: int,
    cols: int,
    ox: int,
    oy: int,
) -> bool {
    ||| (0 <= ox < bw && 0 <= oy < rows && 0 <= left + ox < sw && 0 <= top + oy < sh)
    ||| (0 <= ox < cols && oy == rows && 0 <= left + ox < sw && 0 <= top + oy < sh)
}

/// Write `c` at `(x, y)` of a `dw x dh` pixel grid, dropping the write when
/// the coordinate lies outside the grid.
fn put_clipped(dst: &mut Vec<Rgba>, dw: u32, dh: u32, x: i64, y: i64, c: Rgba)
    requires
        old(dst)@.len() == dw * dh,
    ensures
        final(dst)@.len() == old(dst)@.len(),
        final(dst)@ == write_pixel(old(dst)@, dw as int, dh as int, x as int, y as int, c),
{
    if 0 <= x && x < dw as i64 && 0 <= y && y < dh as i64 {
        let n: usize = dst.len();
        proof {
            lemma_grid_index_in_range(dw as int, dh as int, x as int, y as int);
            assert((x as int) + (y as int) * (dw as int) < (n as int));
        }
        let idx: usize = (x as usize) + (y as usize) * (dw as usize);
        dst.set(idx, c);
    }
}

/// Copy the source region `[left, left + bw) x [top, top + bh)` of the
/// `sw x sh` grid `src` into the `dw x dh` grid `dst`, placing the region's
/// corner at `(t0, t1)`.  Every pixel is clipped individually on both sides:
/// source pixels outside `src` and destination pixels outside `dst` are
/// skipped, never an error.
fn copy_region(
    dst: &mut Vec<Rgba>,
    dw: u32,
    dh: u32,
    src: &Vec<Rgba>,
    sw: u32,
    sh: u32,
    left: i64,
    top: i64,
    bw: u32,
    bh: u32,
    t0: i64,
    t1: i64,
)
    requires
        old(dst)@.len() == dw * dh,
        src@.len() == sw * sh,
        -0x2_0000_0000 <= left <= 0x2_0000_0000,
        -0x2_0000_0000 <= top <= 0x2_0000_0000,
        -0x2_0000_0000 <= t0 <= 0x2_0000_0000,
        -0x2_0000_0000 <= t1 <= 0x2_0000_0000,
    ensures
        final(dst)@.len() == old(dst)@.len(),
        forall|dx: int, dy: int|
            0 <= dx < dw && 0 <= dy < dh ==> #[trigger] grid_at(final(dst)@, dw as int, dx, dy)
                == if region_covers(
                left as int,
                top as int,
                bw as int,
                bh as int,
                sw as int,
                sh as int,
                dx - t0 as int,
                dy - t1 as int,
            ) {
                grid_at(src@, sw as int, left as int + (dx - t0 as int), top as int + (dy - t1 as int))
            } else {
                grid_at(old(dst)@, dw as int, dx, dy)
            },
{
    let mut j: u32 = 0;
    while j < bh
        invariant
            j <= bh,
            dst@.len() == old(dst)@.len(),
            dst@.len() == dw * dh,
            src@.len() == sw * sh,
            -0x2_0000_0000 <= left <= 0x2_0000_0000,
            -0x2_0000_0000 <= top <= 0x2_0000_0000,
            -0x2_0000_0000 <= t0 <= 0x2_0000_0000,
            -0x2_0000_0000 <= t1 <= 0x2_0000_0000,
            forall|dx: int, dy: int|
                0 <= dx < dw && 0 <= dy < dh ==> #[trigger] grid_at(dst@, dw as int, dx, dy)
                    == if region_covers_upto(
                    left as int,
                    top as int,
                    bw as int,
                    sw as int,
                    sh as int,
                    j as int,
                    0,
                    dx - t0 as int,
                    dy - t1 as int,
                ) {
                    grid_at(
                        src@,
                        sw as int,
                        left as int + (dx - t0 as int),
                        top as int + (dy - t1 as int),
                    )
                } else {
                    grid_at(old(dst)@, dw as int, dx, dy)
                },
        decreases bh - j,
    {
        let mut i: u32 = 0;
        while i < bw
            invariant
                i <= bw,
                j < bh,
                dst@.len() == old(dst)@.len(),
                dst@.len() == dw * dh,
                src@.len() == sw * sh,
                -0x2_0000_0000 <= left <= 0x2_0000_0000,
                -0x2_0000_0000 <= top <= 0x2_0000_0000,
                -0x2_0000_0000 <= t0 <= 0x2_0000_0000,
                -0x2_0000_0000 <= t1 <= 0x2_0000_0000,
                forall|dx: int, dy: int|
                    0 <= dx < dw && 0 <= dy < dh ==> #[trigger] grid_at(dst@, dw as int, dx, dy)
                        == if region_covers_upto(
                        left as int,
                        top as int,
                        bw as int,
                        sw as int,
                        sh as int,
                        j as int,
                        i as int,
                        dx - t0 as int,
                        dy - t1 as int,
                    ) {
                        grid_at(
                            src@,
                            sw as int,
                            left as int + (dx - t0 as int),
                            top as int + (dy - t1 as int),
                        )
                    } else {
                        grid_at(old(dst)@, dw as int, dx, dy)
                    },
            decreases bw - i,
        {
            let csx: i64 = left + i as i64;
            let csy: i64 = top + j as i64;
            let ghost dst_prev = dst@;
            if 0 <= csx && csx < sw as i64 && 0 <= csy && csy < sh as i64 {
                let n: usize = src.len();
                proof {
                    lemma_grid_index_in_range(sw as int, sh as int, csx as int, csy as int);
                    assert((csx as int) + (csy as int) * (sw as int) < (n as int));
                }
                let sidx: usize = (csx as usize) + (csy as usize) * (sw as usize);
                let val: Rgba = src[sidx];
                put_clipped(dst, dw, dh, t0 + i as i64, t1 + j as i64, val);
            }
            proof {
                let wi = dw as int;
                let hi = dh as int;
                let gox = i as int;
                let goy = j as int;
                let gdx = t0 as int + gox;
                let gdy = t1 as int + goy;
                assert forall|dx: int, dy: int|
                    0 <= dx < wi && 0 <= dy < hi implies #[trigger] grid_at(dst@, wi, dx, dy)
                    == if region_covers_upto(
                    left as int,
                    top as int,
                    bw as int,
                    sw as int,
                    sh as int,
                    goy,
                    gox + 1,
                    dx - t0 as int,
                    dy - t1 as int,
                ) {
                    grid_at(
                        src@,
                        sw as int,
                        left as int + (dx - t0 as int),
                        top as int + (dy - t1 as int),
                    )
                } else {
                    grid_at(old(dst)@, wi, dx, dy)
                } by {
                    lemma_grid_index_in_range(wi, hi, dx, dy);
                    if dx == gdx && dy == gdy {
                    } else {
                        if 0 <= gdx < wi && 0 <= gdy < hi {
                            lemma_grid_index_in_range(wi, hi, gdx, gdy);
                            if dx + dy * wi == gdx + gdy * wi {
                                lemma_grid_index_injective(wi, dx, dy, gdx, gdy);
                            }
                        }
                        assert(grid_at(dst@, wi, dx, dy) == grid_at(dst_prev, wi, dx, dy));
                    }
                }
            }
            i = i + 1;
        }
        j = j + 1;
    }
}

/// A tile grid laid out row-major: the tile cut out at grid coordinate
/// `(c, r)` of the atlas sits at index `c + r * cols`.
pub open spec fn tile_seq_at(tiles: Seq<Sprite>, cols: int, c: int, r: int) -> Sprite {
    tiles[c + r * cols]
}

/// The sprites sliced out of one atlas: a mapping from grid coordinate
/// `(c, r)`, keys unique, to the owned `tile_width x tile_height` tile cut
/// from the atlas region starting at `(c * tile_width, r * tile_height)`.
pub struct SpriteGrid {
    pub cols: u32,
    pub rows: u32,
    pub tile_width: u32,
    pub tile_height: u32,
    pub tiles: Vec<Sprite>,
}

impl SpriteGrid {
    /// The grid invariant: one tile per grid coordinate, each a well-formed
    /// sprite of the configured tile size.
    pub open spec fn wf(self) -> bool {
        &&& self.tiles@.len() == self.rows * self.cols
        &&& forall|c: int, r: int|
            0 <= c < self.cols && 0 <= r < self.rows ==> (#[trigger] tile_seq_at(
                self.tiles@,
                self.cols as int,
                c,
                r,
            )).wf() && tile_seq_at(self.tiles@, self.cols as int, c, r).width == self.tile_width
                && tile_seq_at(self.tiles@, self.cols as int, c, r).height == self.tile_height
    }

    /// The tile at grid coordinate `(c, r)`.
    pub open spec fn tile_at(self, c: int, r: int) -> Sprite {
        tile_seq_at(self.tiles@, self.cols as int, c, r)
    }

    /// Look a tile up by its grid coordinate; a coordinate outside the grid
    /// yields `None`.
    pub fn get(&self, c: u32, r: u32) -> (t: Option<&Sprite>)
        requires
            self.wf(),
        ensures
            (c < self.cols && r < self.rows) <==> (t is Some),
            t is Some ==> *(t->Some_0) == self.tile_at(c as int, r as int),
    {
        if c < self.cols && r < self.rows {
            let n: usize = self.tiles.len();
            proof {
                lemma_grid_index_in_range(self.cols as int, self.rows as int, c as int, r as int);
                assert((c as int) + (r as int) * (self.cols as int) < (n as int));
            }
            let idx: usize = (c as usize) + (r as usize) * (self.cols as usize);
            Some(&self.tiles[idx])
        } else {
            None
        }
    }
}

/// `0 <= c * t` and `c * t + t <= a` whenever `c < a / t`: the tile cut at
/// grid column `c` lies wholly inside an atlas extent of `a` pixels.
pub proof fn lemma_tile_corner_in_bounds(a: int, t: int, c: int)
    by (nonlinear_arith)
    requires
        t > 0,
        0 <= a,
        0 <= c < a / t,
    ensures
        0 <= c * t,
        c * t + t <= a,
{
}

/// Slice `atlas` into a grid of `tile_width x tile_height` tiles:
/// `atlas.width / tile_width` columns by `atlas.height / tile_height` rows
/// (integer division: a trailing partial row or column of the atlas is
/// deliberately truncated).  Tile `(c, r)` is a fresh buffer holding exactly
/// the atlas region whose corner is `(c * tile_width, r * tile_height)`.
pub fn slice_atlas(atlas: &Sprite, tile_width: u32, tile_height: u32) -> (g: SpriteGrid)
    requires
        atlas.wf(),
        tile_width > 0,
        tile_height > 0,
        tile_width * tile_height <= usize::MAX,
    ensures
        g.wf(),
        g.tile_width == tile_width,
        g.tile_height == tile_height,
        g.cols == atlas.width as int / tile_width as int,
        g.rows == atlas.height as int / tile_height as int,
        forall|c: int, r: int, x: int, y: int|
            0 <= c < g.cols && 0 <= r < g.rows && 0 <= x < tile_width && 0 <= y < tile_height
                ==> #[trigger] grid_at(g.tile_at(c, r).data@, tile_width as int, x, y) == grid_at(
                atlas.data@,
                atlas.width as int,
                c * (tile_width as int) + x,
                r * (tile_height as int) + y,
            ),
{
    let cols: u32 = atlas.width / tile_width;
    let rows: u32 = atlas.height / tile_height;
    let mut tiles: Vec<Sprite> = Vec::new();
    let mut r: u32 = 0;
    while r < rows
        invariant
            r <= rows,
            atlas.wf(),
            tile_width > 0,
            tile_height > 0,
            tile_width * tile_height <= usize::MAX,
            cols == atlas.width as int / tile_width as int,
            rows == atlas.height as int / tile_height as int,
            tiles@.len() == r * cols,
            forall|ci: int, ri: int|
                0 <= ci < cols && 0 <= ri < r ==> (#[trigger] tile_seq_at(
                    tiles@,
                    cols as int,
                    ci,
                    ri,
                )).wf() && tile_seq_at(tiles@, cols as int, ci, ri).width == tile_width
                    && tile_seq_at(tiles@, cols as int, ci, ri).height == tile_height,
            forall|ci: int, ri: int, x: int, y: int|
                0 <= ci < cols && 0 <= ri < r && 0 <= x < tile_width && 0 <= y < tile_height
                    ==> #[trigger] grid_at(
                    tile_seq_at(tiles@, cols as int, ci, ri).data@,
                    tile_width as int,
                    x,
                    y,
                ) == grid_at(
                    atlas.data@,
                    atlas.width as int,
                    ci * (tile_width as int) + x,
                    ri * (tile_height as int) + y,
                ),
        decreases rows - r,
    {
        let mut c: u32 = 0;
        while c < cols
            invariant
                c <= cols,
                r < rows,
                atlas.wf(),
                tile_width > 0,
                tile_height > 0,
                tile_width * tile_height <= usize::MAX,
                cols == atlas.width as int / tile_width as int,
                rows == atlas.height as int / tile_height as int,
                tiles@.len() == r * cols + c,
                forall|ci: int, ri: int|
                    0 <= ci < cols && 0 <= ri && (ri < r || (ri == r && ci < c)) ==> (
                    #[trigger] tile_seq_at(tiles@, cols as int, ci, ri)).wf() && tile_seq_at(
                        tiles@,
                        cols as int,
                        ci,
                        ri,
                    ).width == tile_width && tile_seq_at(tiles@, cols as int, ci, ri).height
                        == tile_height,
                forall|ci: int, ri: int, x: int, y: int|
                    0 <= ci < cols && 0 <= ri && (ri < r || (ri == r && ci < c)) && 0 <= x
                        < tile_width && 0 <= y < tile_height ==> #[trigger] grid_at(
                        tile_seq_at(tiles@, cols as int, ci, ri).data@,
                        tile_width as int,
                        x,
                        y,
                    ) == grid_at(
                        atlas.data@,
                        atlas.width as int,
                        ci * (tile_width as int) + x,
                        ri * (tile_height as int) + y,
                    ),
            decreases cols - c,
        {
            proof {
                lemma_tile_corner_in_bounds(atlas.width as int, tile_width as int, c as int);
                lemma_tile_corner_in_bounds(atlas.height as int, tile_height as int, r as int);
            }
            let left: u32 = c * tile_width;
            let top: u32 = r * tile_height;
            let mut tile = Sprite::new(tile_width, tile_height);
            copy_sprite(atlas, &mut tile, (left, top, tile_width, tile_height), (0, 0));
            let ghost tiles_prev = tiles@;
            tiles.push(tile);
            proof {
                let colsI = cols as int;
                assert forall|ci: int, ri: int|
                    0 <= ci < cols && 0 <= ri && (ri < r || (ri == r && ci < c + 1)) implies (
                #[trigger] tile_seq_at(tiles@, colsI, ci, ri)).wf() && tile_seq_at(
                    tiles@,
                    colsI,
                    ci,
                    ri,
                ).width == tile_width && tile_seq_at(tiles@, colsI, ci, ri).height
                    == tile_height by {
                    if ri == r && ci == c {
                        assert(ci + ri * colsI == tiles_prev.len());
                    } else {
                        if ri < r {
                            lemma_grid_index_in_range(colsI, r as int, ci, ri);
                        }
                        assert(tile_seq_at(tiles@, colsI, ci, ri) == tile_seq_at(
                            tiles_prev,
                            colsI,
                            ci,
                            ri,
                        ));
                    }
                }
                assert forall|ci: int, ri: int, x: int, y: int|
                    0 <= ci < cols && 0 <= ri && (ri < r || (ri == r && ci < c + 1)) && 0 <= x
                        < tile_width && 0 <= y < tile_height implies #[trigger] grid_at(
                    tile_seq_at(tiles@, colsI, ci, ri).data@,
                    tile_width as int,
                    x,
                    y,
                ) == grid_at(
                    atlas.data@,
                    atlas.width as int,
                    ci * (tile_width as int) + x,
                    ri * (tile_height as int) + y,
                ) by {
                    if ri == r && ci == c {
                        assert(ci + ri * colsI == tiles_prev.len());
                        assert(tile_seq_at(tiles@, colsI, ci, ri) == tile);
                    } else {
                        if ri < r {
                            lemma_grid_index_in_range(colsI, r as int, ci, ri);
                        }
                        assert(tile_seq_at(tiles@, colsI, ci, ri) == tile_seq_at(
                            tiles_prev,
                            colsI,
                            ci,
                            ri,
                        ));
                    }
                }
            }
            c = c + 1;
        }
        proof {
            assert((r as int) * (cols as int) + (cols as int) == ((r as int) + 1) * (cols as int))
                by (nonlinear_arith);
        }
        r = r + 1;
    }
    SpriteGrid { cols, rows, tile_width, tile_height, tiles }
}

/// What decoding an encoded image to tightly packed 8-bit RGBA yields:
/// `None` for bytes that are no decodable image, otherwise the width, the
/// height and the pixel bytes, row-major, four per pixel.  The result is a
/// function of the encoded bytes alone.
pub uninterp spec fn decoded_rgba(bytes: Seq<u8>) -> Option<(u32, u32, Seq<u8>)>;

/// Relies on image::load_from_memory (the format is guessed from the bytes
/// alone) and DynamicImage::to_rgba8 / ImageBuffer::into_raw: on success the
/// raw container holds exactly `4 * width * height` bytes of tightly packed
/// 8-bit RGBA, row-major.
#[verifier::external_body]
fn decode_rgba(bytes: &Vec<u8>) -> (r: Option<(u32, u32, Vec<u8>)>)
    ensures
        match r {
            Some(t) => decoded_rgba(bytes@) == Some((t.0, t.1, t.2@)) && t.2@.len() == 4 * (
            (t.0 as int) * (t.1 as int)),
            None => decoded_rgba(bytes@) is None,
        },
{
    match image::load_from_memory(bytes.as_slice()) {
        Ok(img) => {
            let rgba = img.to_rgba8();
            let w = rgba.width();
            let h = rgba.height();
            Some((w, h, rgba.into_raw()))
        },
        Err(_) => None,
    }
}

/// The pixels described by tightly packed RGBA bytes, four per pixel.
pub open spec fn bytes_to_rgba(bytes: Seq<u8>) -> Seq<Rgba> {
    Seq::new(
        (bytes.len() / 4) as nat,
        |i: int| Rgba { r: bytes[4 * i], g: bytes[4 * i + 1], b: bytes[4 * i + 2], a: bytes[4 * i + 3] },
    )
}

/// Group tightly packed RGBA bytes into pixels, four bytes each.
fn rgba_from_bytes(bytes: &Vec<u8>) -> (r: Vec<Rgba>)
    ensures
        r@ == bytes_to_rgba(bytes@),
{
    let total: usize = bytes.len();
    let n: usize = total / 4;
    let mut out: Vec<Rgba> = Vec::new();
    let mut k: usize = 0;
    while k < n
        invariant
            k <= n,
            total == bytes@.len(),
            n == total / 4,
            out@.len() == k,
            forall|j: int|
                0 <= j < k ==> out@[j] == (Rgba {
                    r: bytes@[4 * j],
                    g: bytes@[4 * j + 1],
                    b: bytes@[4 * j + 2],
                    a: bytes@[4 * j + 3],
                }),
        decreases n - k,
    {
        let base: usize = 4 * k;
        let px = Rgba { r: bytes[base], g: bytes[base + 1], b: bytes[base + 2], a: bytes[base + 3] };
        out.push(px);
        k = k + 1;
    }
    proof {
        assert(out@ =~= bytes_to_rgba(bytes@));
    }
    out
}

/// Decode one atlas image and slice it into 16 x 16 tiles, the engine's
/// sprite size: the result maps each grid coordinate to its tile, exactly as
/// `slice_atlas` cuts them, and is `None` exactly when the bytes are no
/// decodable image.  The caller treats `None` as fatal at startup; here it is
/// an ordinary result.
pub fn load_sprites(png_bytes: &Vec<u8>) -> (r: Option<SpriteGrid>)
    ensures
        match decoded_rgba(png_bytes@) {
            Some(img) => match r {
                Some(g) => {
                    &&& g.wf()
                    &&& g.tile_width == 16
                    &&& g.tile_height == 16
                    &&& g.cols == img.0 as int / 16
                    &&& g.rows == img.1 as int / 16
                    &&& forall|c: int, r2: int, x: int, y: int|
                        0 <= c < g.cols && 0 <= r2 < g.rows && 0 <= x < 16 && 0 <= y < 16
                            ==> #[trigger] grid_at(g.tile_at(c, r2).data@, 16, x, y) == grid_at(
                            bytes_to_rgba(img.2),
                            img.0 as int,
                            c * 16 + x,
                            r2 * 16 + y,
                        )
                },
                None => false,
            },
            None => r is None,
        },
{
    match decode_rgba(png_bytes) {
        None => None,
        Some((w, h, data)) => {
            let pixels: Vec<Rgba> = rgba_from_bytes(&data);
            let atlas = Sprite { width: w, height: h, data: pixels };
            Some(slice_atlas(&atlas, 16, 16))
        },
    }
}

/// Copy the region `bounds = (left, top, width, height)` of `from` into `to`,
/// placing the region's corner at `target`.  Source pixels outside `from` and
/// destination pixels outside `to` are skipped pixel by pixel, never an
/// error, so a region that overhangs either buffer is partially copied.
pub fn copy_sprite(from: &Sprite, to: &mut Sprite, bounds: (u32, u32, u32, u32), target: (u32, u32))
    requires
        from.wf(),
        old(to).wf(),
    ensures
        final(to).wf(),
        final(to).width == old(to).width,
        final(to).height == old(to).height,
        forall|dx: int, dy: int|
            0 <= dx < old(to).width && 0 <= dy < old(to).height ==> #[trigger] grid_at(
                final(to).data@,
                old(to).width as int,
                dx,
                dy,
            ) == if region_covers(
                bounds.0 as int,
                bounds.1 as int,
                bounds.2 as int,
                bounds.3 as int,
                from.width as int,
                from.height as int,
                dx - target.0 as int,
                dy - target.1 as int,
            ) {
                grid_at(
                    from.data@,
                    from.width as int,
                    bounds.0 as int + (dx - target.0 as int),
                    bounds.1 as int + (dy - target.1 as int),
                )
            } else {
                grid_at(old(to).data@, old(to).width as int, dx, dy)
            },
{
    let dw: u32 = to.width;
    let dh: u32 = to.height;
    copy_region(
        &mut to.data,
        dw,
        dh,
        &from.data,
        from.width,
        from.height,
        bounds.0 as i64,
        bounds.1 as i64,
        bounds.2,
        bounds.3,
        target.0 as i64,
        target.1 as i64,
    );
}

/// Copy the whole of `from` into `to` with its corner at `target`, clipped
/// pixel by pixel against `to`.
pub fn copy_entire_sprite(from: &Sprite, to: &mut Sprite, target: (u32, u32))
    requires
        from.wf(),
        old(to).wf(),
    ensures
        final(to).wf(),
        final(to).width == old(to).width,
        final(to).height == old(to).height,
        forall|dx: int, dy: int|
            0 <= dx < old(to).width && 0 <= dy < old(to).height ==> #[trigger] grid_at(
                final(to).data@,
                old(to).width as int,
                dx,
                dy,
            ) == if 0 <= (dx - target.0 as int) < (from.width as int) && 0 <= (dy
                - target.1 as int) < (from.height as int) {
                grid_at(
                    from.data@,
                    from.width as int,
                    dx - target.0 as int,
                    dy - target.1 as int,
                )
            } else {
                grid_at(old(to).data@, old(to).width as int, dx, dy)
            },
{
    copy_sprite(from, to, (0, 0, from.width, from.height), target);
}

/// For every world coordinate and eye offset whose componentwise sum is
/// non-negative and lies within the `w x h` framebuffer, the camera reports
/// exactly that sum as the screen position.
pub proof fn lemma_screen_of_on_screen(eye: (i64, i64), world: (i32, i32), w: u32, h: u32)
    requires
        0 <= (world.0 as int + eye.0 as int) < (w as int),
        0 <= (world.1 as int + eye.1 as int) < (h as int),
    ensures
        screen_of(eye, world) == Some(
            (
                (world.0 as int + eye.0 as int) as u32,
                (world.1 as int + eye.1 as int) as u32,
            ),
        ),
{
}

/// For every world coordinate and eye offset whose sum has a negative
/// component, the camera reports no screen position at all; `pixel` at such
/// a coordinate then leaves the framebuffer unmodified, as its contract
/// states for the `None` case.
pub proof fn lemma_screen_of_negative_is_off_screen(eye: (i64, i64), world: (i32, i32))
    requires
        (world.0 as int + eye.0 as int) < 0 || (world.1 as int + eye.1 as int) < 0,
    ensures
        screen_of(eye, world) is None,
{
}

/// After `look((0, 0))` the world origin maps exactly to the framebuffer
/// centre `(w / 2, h / 2)`.  (For any other argument `p`, `look(p)` followed
/// by the camera transform of `p` yields `2 * p` plus the centre, since the
/// specified arithmetic adds `p` rather than subtracting it.)
pub proof fn lemma_look_centers_origin(e: Engine, p: (i32, i32))
    requires
        p.0 == 0 && p.1 == 0,
        0 < e.width,
        0 < e.height,
        e.eye.0 == p.0 as int + e.width as int / 2,
        e.eye.1 == p.1 as int + e.height as int / 2,
    ensures
        screen_of(e.eye, p) == Some(
            ((e.width as int / 2) as u32, (e.height as int / 2) as u32),
        ),
{
}

/// The pointwise effect of blitting a `sw x sh` sprite `spr` with its corner
/// at `(tx, ty)` (any integers, possibly off-screen) onto a `w x h`
/// framebuffer `pre`, clipping every pixel individually: `post` holds the
/// sprite pixel wherever the sprite covers the grid and the old pixel
/// everywhere else.
pub open spec fn blit_result(
    pre: Seq<Rgba>,
    w: int,
    h: int,
    spr: Seq<Rgba>,
    sw: int,
    sh: int,
    tx: int,
    ty: int,
    post: Seq<Rgba>,
) -> bool {
    &&& post.len() == pre.len()
    &&& forall|x: int, y: int|
        0 <= x < w && 0 <= y < h ==> #[trigger] grid_at(post, w, x, y) == if tx <= x < tx + sw
            && ty <= y < ty + sh {
            grid_at(spr, sw, x - tx, y - ty)
        } else {
            grid_at(pre, w, x, y)
        }
}

/// A blit whose sprite lies fully within the framebuffer reproduces the
/// sprite's pixels exactly: pixel `(x, y)` of the sprite is found at
/// `(tx + x, ty + y)` afterwards.
pub proof fn lemma_blit_reproduces_sprite(
    pre: Seq<Rgba>,
    w: int,
    h: int,
    spr: Seq<Rgba>,
    sw: int,
    sh: int,
    tx: int,
    ty: int,
    post: Seq<Rgba>,
    x: int,
    y: int,
)
    requires
        blit_result(pre, w, h, spr, sw, sh, tx, ty, post),
        0 <= tx && tx + sw <= w,
        0 <= ty && ty + sh <= h,
        0 <= x < sw,
        0 <= y < sh,
    ensures
        grid_at(post, w, tx + x, ty + y) == grid_at(spr, sw, x, y),
{
}

/// A blit never writes outside the sprite's footprint: every framebuffer
/// pixel the (possibly straddling) sprite does not cover keeps its old
/// value.
pub proof fn lemma_blit_leaves_rest(
    pre: Seq<Rgba>,
    w: int,
    h: int,
    spr: Seq<Rgba>,
    sw: int,
    sh: int,
    tx: int,
    ty: int,
    post: Seq<Rgba>,
    x: int,
    y: int,
)
    requires
        blit_result(pre, w, h, spr, sw, sh, tx, ty, post),
        0 <= x < w,
        0 <= y < h,
        !(tx <= x < tx + sw && ty <= y < ty + sh),
    ensures
        grid_at(post, w, x, y) == grid_at(pre, w, x, y),
{
}

impl Engine {
    /// Everything of the engine but the framebuffer contents is kept.
    pub open spec fn same_but_fb(pre: Engine, post: Engine) -> bool {
        &&& post.width == pre.width
        &&& post.height == pre.height
        &&& post.eye == pre.eye
        &&& post.clock == pre.clock
        &&& post.config == pre.config
    }

    /// Map a world coordinate to a framebuffer coordinate through the camera:
    /// `world + eye`, reported only when both components are non-negative and
    /// fit `u32`; off-screen points yield `None`, never an error.
    pub fn world_to_screen(&self, world: (i32, i32)) -> (r: Option<(u32, u32)>)
        requires
            self.well_formed(),
        ensures
            r == screen_of(self.eye, world),
    {
        let x: i64 = world.0 as i64 + self.eye.0;
        let y: i64 = world.1 as i64 + self.eye.1;
        if 0 <= x && x <= u32::MAX as i64 && 0 <= y && y <= u32::MAX as i64 {
            Some((x as u32, y as u32))
        } else {
            None
        }
    }

    /// Write one pixel at an exact framebuffer coordinate; a coordinate
    /// outside the `width x height` grid is silently dropped, never written
    /// and never a panic.
    pub fn pixel_direct(&mut self, pixel: Rgba, pos: (u32, u32))
        requires
            old(self).well_formed(),
        ensures
            final(self).well_formed(),
            Engine::same_but_fb(*old(self), *final(self)),
            final(self).fb@ == write_pixel(
                old(self).fb@,
                old(self).width as int,
                old(self).height as int,
                pos.0 as int,
                pos.1 as int,
                pixel,
            ),
    {
        let dw: u32 = self.width;
        let dh: u32 = self.height;
        put_clipped(&mut self.fb, dw, dh, pos.0 as i64, pos.1 as i64, pixel);
    }

    /// Write one pixel at a world coordinate: the camera transform is applied
    /// first, and an off-screen result leaves the framebuffer untouched.
    pub fn pixel(&mut self, pixel: Rgba, pos: (i32, i32))
        requires
            old(self).well_formed(),
        ensures
            final(self).well_formed(),
            Engine::same_but_fb(*old(self), *final(self)),
            final(self).fb@ == match screen_of(old(self).eye, pos) {
                Some(p) => write_pixel(
                    old(self).fb@,
                    old(self).width as int,
                    old(self).height as int,
                    p.0 as int,
                    p.1 as int,
                    pixel,
                ),
                None => old(self).fb@,
            },
    {
        let screen = self.world_to_screen(pos);
        match screen {
            Some(p) => self.pixel_direct(pixel, p),
            None => (),
        }
    }

    /// Overwrite every pixel of the framebuffer with `color`.
    pub fn clear(&mut self, color: Rgba)
        requires
            old(self).well_formed(),
        ensures
            final(self).well_formed(),
            Engine::same_but_fb(*old(self), *final(self)),
            final(self).fb@.len() == old(self).fb@.len(),
            forall|i: int| 0 <= i < final(self).fb@.len() ==> final(self).fb@[i] == color,
    {
        let len: usize = self.fb.len();
        let mut i: usize = 0;
        while i < len
            invariant
                i <= len,
                len == self.fb@.len(),
                Engine::same_but_fb(*old(self), *self),
                self.fb@.len() == old(self).fb@.len(),
                forall|j: int| 0 <= j < i ==> self.fb@[j] == color,
            decreases len - i,
        {
            self.fb.set(i, color);
            i = i + 1;
        }
    }

    /// Blit `sprite` with its corner at the integer screen coordinate
    /// `corner`, which may lie partly or wholly off-screen: every pixel is
    /// clipped individually, so a straddling sprite is partially drawn.
    fn blit_at(&mut self, sprite: &Sprite, corner: (i64, i64))
        requires
            old(self).well_formed(),
            sprite.wf(),
            -0x2_0000_0000 <= corner.0 <= 0x2_0000_0000,
            -0x2_0000_0000 <= corner.1 <= 0x2_0000_0000,
        ensures
            final(self).well_formed(),
            Engine::same_but_fb(*old(self), *final(self)),
            blit_result(
                old(self).fb@,
                old(self).width as int,
                old(self).height as int,
                sprite.data@,
                sprite.width as int,
                sprite.height as int,
                corner.0 as int,
                corner.1 as int,
                final(self).fb@,
            ),
    {
        let dw: u32 = self.width;
        let dh: u32 = self.height;
        let sw: u32 = sprite.width;
        let sh: u32 = sprite.height;
        copy_region(&mut self.fb, dw, dh, &sprite.data, sw, sh, 0, 0, sw, sh, corner.0, corner.1);
    }

    /// Blit `sprite` at an exact framebuffer coordinate: pixel `(x, y)` of
    /// the sprite lands at `(target.0 + x, target.1 + y)`, and every pixel
    /// falling outside the framebuffer is dropped individually, so a sprite
    /// straddling an edge is partially drawn, never rejected wholesale.
    pub fn sprite_direct(&mut self, sprite: &Sprite, target: (u32, u32))
        requires
            old(self).well_formed(),
            sprite.wf(),
        ensures
            final(self).well_formed(),
            Engine::same_but_fb(*old(self), *final(self)),
            blit_result(
                old(self).fb@,
                old(self).width as int,
                old(self).height as int,
                sprite.data@,
                sprite.width as int,
                sprite.height as int,
                target.0 as int,
                target.1 as int,
                final(self).fb@,
            ),
    {
        self.blit_at(sprite, (target.0 as i64, target.1 as i64));
    }

    /// Blit `sprite` at a world coordinate: each pixel's destination goes
    /// through the camera transform individually, which amounts to a blit
    /// whose corner is `target + eye` as unbounded integers; pixels that land
    /// off-screen are dropped one by one.
    pub fn sprite(&mut self, sprite: &Sprite, target: (i32, i32))
        requires
            old(self).well_formed(),
            sprite.wf(),
        ensures
            final(self).well_formed(),
            Engine::same_but_fb(*old(self), *final(self)),
            blit_result(
                old(self).fb@,
                old(self).width as int,
                old(self).height as int,
                sprite.data@,
                sprite.width as int,
                sprite.height as int,
                target.0 as int + old(self).eye.0 as int,
                target.1 as int + old(self).eye.1 as int,
                final(self).fb@,
            ),
    {
        let cx: i64 = target.0 as i64 + self.eye.0;
        let cy: i64 = target.1 as i64 + self.eye.1;
        self.blit_at(sprite, (cx, cy));
    }

    /// Point the camera: the eye becomes `pos + (width / 2, height / 2)`, so
    /// that afterwards the world origin region around `-pos` fills the view
    /// (the sum, not a difference, is the specified arithmetic).
    pub fn look(&mut self, pos: (i32, i32))
        requires
            old(self).well_formed(),
        ensures
            final(self).well_formed(),
            final(self).fb == old(self).fb,
            final(self).width == old(self).width,
            final(self).height == old(self).height,
            final(self).clock == old(self).clock,
            final(self).config == old(self).config,
            final(self).eye.0 == pos.0 as int + old(self).width as int / 2,
            final(self).eye.1 == pos.1 as int + old(self).height as int / 2,
    {
        self.eye = (
            pos.0 as i64 + (self.width / 2) as i64,
            pos.1 as i64 + (self.height / 2) as i64,
        );
    }
}

} // verus!
