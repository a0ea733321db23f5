use vstd::prelude::*;
use base64::Engine;
use base64::engine::general_purpose::STANDARD;
use crate::fmt::{decimal_spec, decimal_string};
use crate::text::{chars_of, concat_str, slice_chars, string_from_chars};

verus! {

/// The char for a 6-bit value in the standard base64 alphabet:
/// `A`-`Z`, `a`-`z`, `0`-`9`, `+`, `/`.
pub open spec fn b64_digit(v: int) -> char {
    if v < 26 {
        ('A' as int + v) as char
    } else if v < 52 {
        ('a' as int + (v - 26)) as char
    } else if v < 62 {
        ('0' as int + (v - 52)) as char
    } else if v == 62 {
        '+'
    } else {
        '/'
    }
}

/// The padded standard base64 text of `data` (RFC 4648): each group of
/// three bytes as four chars of six bits each, a last group of one or two
/// bytes padded with `=`.
pub open spec fn base64_standard(data: Seq<u8>) -> Seq<char>
    decreases data.len(),
{
    if data.len() == 0 {
        Seq::empty()
    } else if data.len() == 1 {
        let n = data[0] as int;
        seq![b64_digit(n / 4), b64_digit(n % 4 * 16), '=', '=']
    } else if data.len() == 2 {
        let n = data[0] as int * 256 + data[1] as int;
        seq![b64_digit(n / 1024), b64_digit(n / 16 % 64), b64_digit(n % 16 * 4), '=']
    } else {
        let n = data[0] as int * 65536 + data[1] as int * 256 + data[2] as int;
        seq![b64_digit(n / 262144), b64_digit(n / 4096 % 64), b64_digit(n / 64 % 64), b64_digit(n % 64)]
            + base64_standard(data.subrange(3, data.len() as int))
    }
}

/// `base64::engine::general_purpose::STANDARD.encode`: the padded standard
/// base64 text of the bytes (see [`base64_standard`]). It panics when the
/// text's length overflows `usize`, which `requires` leaves out.
#[verifier::external_body]
fn base64_encode(data: &[u8]) -> (r: String)
    requires
        data@.len() / 3 * 4 + 4 <= usize::MAX,
    ensures
        r@ == base64_standard(data@),
{
    STANDARD.encode(data)
}

/// How many bytes one Kitty graphics escape carries.
pub open spec fn kitty_chunk() -> int {
    4096
}

/// The `k`-th piece of the payload.
pub open spec fn chunk_spec(payload: Seq<char>, k: int) -> Seq<char> {
    let start = k * kitty_chunk();
    let end = if start + kitty_chunk() < payload.len() { start + kitty_chunk() } else { payload.len() as int };
    payload.subrange(start, end)
}

/// How many pieces the payload is sent in.
pub open spec fn chunk_count(payload: Seq<char>) -> int {
    (payload.len() + kitty_chunk() - 1) / kitty_chunk()
}

/// `1` while more pieces follow piece `k`, else `0`.
pub open spec fn more_flag(payload: Seq<char>, k: int) -> Seq<char> {
    if (k + 1) * kitty_chunk() < payload.len() { "1"@ } else { "0"@ }
}

/// The escapes that send an image with the Kitty graphics protocol: the
/// payload in pieces of 4096 bytes, the first with the PNG format, size and
/// (for a pane) the cell box, each saying whether more follow.
pub open spec fn kitty_frames_spec(payload: Seq<char>, w: u32, h: u32, cells: Option<(u16, u16)>) -> Seq<Seq<char>> {
    Seq::new(chunk_count(payload) as nat, |k: int| if k == 0 {
        "\x1b_Ga=T,f=100,s="@ + decimal_spec(w as nat) + ",v="@ + decimal_spec(h as nat) + match cells {
            Some(c) => ",c="@ + decimal_spec(c.0 as nat) + ",r="@ + decimal_spec(c.1 as nat),
            None => Seq::empty(),
        } + ",m="@ + more_flag(payload, k) + ";"@ + chunk_spec(payload, k) + "\x1b\\"@
    } else {
        "\x1b_Gm="@ + more_flag(payload, k) + ";"@ + chunk_spec(payload, k) + "\x1b\\"@
    })
}

/// The Kitty escapes for a payload (see [`kitty_frames_spec`]).
pub fn kitty_frames(payload: &str, w: u32, h: u32, cells: Option<(u16, u16)>) -> (r: Vec<String>)
    ensures
        r@.map_values(|s: String| s@) == kitty_frames_spec(payload@, w, h, cells),
{
    let p = chars_of(payload);
    let n = p.len();
    let mut frames: Vec<String> = Vec::new();
    let mut k: usize = 0;
    let mut offset: usize = 0;
    while offset < n
        invariant
            p@ == payload@,
            n == p.len(),
            offset <= n,
            offset < n ==> offset == k * 4096 && k < chunk_count(payload@),
            offset == n ==> k == chunk_count(payload@),
            frames@.map_values(|s: String| s@) == kitty_frames_spec(payload@, w, h, cells).take(k as int),
        decreases n - offset,
    {
        let end = if n - offset > 4096 { offset + 4096 } else { n };
        let chunk = slice_chars(&p, offset, end);
        assert(chunk@ == chunk_spec(payload@, k as int));
        let more = if end < n { "1" } else { "0" };
        assert(more@ == more_flag(payload@, k as int));
        let frame = if offset == 0 {
            let a = concat_str("\x1b_Ga=T,f=100,s=", decimal_string(w as u64).as_str());
            let b = concat_str(a.as_str(), ",v=");
            let mut c = concat_str(b.as_str(), decimal_string(h as u64).as_str());
            match cells {
                Some((cols, rows)) => {
                    let c1 = concat_str(c.as_str(), ",c=");
                    let c2 = concat_str(c1.as_str(), decimal_string(cols as u64).as_str());
                    let c3 = concat_str(c2.as_str(), ",r=");
                    c = concat_str(c3.as_str(), decimal_string(rows as u64).as_str());
                },
                None => {},
            }
            let d = concat_str(c.as_str(), ",m=");
            let e = concat_str(d.as_str(), more);
            let f = concat_str(e.as_str(), ";");
            let g = concat_str(f.as_str(), string_from_chars(chunk.as_slice()).as_str());
            concat_str(g.as_str(), "\x1b\\")
        } else {
            let d = concat_str("\x1b_Gm=", more);
            let f = concat_str(d.as_str(), ";");
            let g = concat_str(f.as_str(), string_from_chars(chunk.as_slice()).as_str());
            concat_str(g.as_str(), "\x1b\\")
        };
        proof {
            assert(k == 0 <==> offset == 0) by (nonlinear_arith)
                requires
                    offset == k * 4096;
            let spec_frames = kitty_frames_spec(payload@, w, h, cells);
            assert(frame@ =~= spec_frames[k as int]);
        }
        let ghost before = frames@.map_values(|s: String| s@);
        frames.push(frame);
        assert(frames@.map_values(|s: String| s@) =~= before.push(kitty_frames_spec(payload@, w, h, cells)[k as int]));
        assert(kitty_frames_spec(payload@, w, h, cells).take(k + 1) =~= kitty_frames_spec(payload@, w, h, cells).take(k as int).push(kitty_frames_spec(payload@, w, h, cells)[k as int]));
        proof {
            if end < n {
                assert(k + 1 < chunk_count(payload@)) by (nonlinear_arith)
                    requires
                        offset == k * 4096,
                        end == offset + 4096,
                        end < n,
                        chunk_count(payload@) == (n + 4095) / 4096;
            } else {
                assert(k + 1 == chunk_count(payload@)) by (nonlinear_arith)
                    requires
                        offset == k * 4096,
                        offset < n,
                        n <= offset + 4096,
                        chunk_count(payload@) == (n + 4095) / 4096;
            }
        }
        offset = end;
        k = k + 1;
    }
    assert(kitty_frames_spec(payload@, w, h, cells).take(k as int) =~= kitty_frames_spec(payload@, w, h, cells));
    frames
}

/// The Kitty escapes that show a PNG image: its base64 text in pieces (see
/// [`kitty_frames_spec`]).
pub fn kitty_image_frames(png: &[u8], w: u32, h: u32, cells: Option<(u16, u16)>) -> (r: Vec<String>)
    requires
        png@.len() / 3 * 4 + 4 <= usize::MAX,
    ensures
        r@.map_values(|s: String| s@) == kitty_frames_spec(base64_standard(png@), w, h, cells),
{
    let payload = base64_encode(png);
    kitty_frames(payload.as_str(), w, h, cells)
}

/// The iTerm2 inline-image escape for a PNG image.
pub fn iterm2_inline_sequence(png: &[u8]) -> (r: String)
    requires
        png@.len() / 3 * 4 + 4 <= usize::MAX,
    ensures
        r@ == "\x1b]1337;File=inline=1;preserveAspectRatio=1;width=auto;height=auto:"@ + base64_standard(png@)
            + "\x07"@,
{
    let payload = base64_encode(png);
    let a = concat_str("\x1b]1337;File=inline=1;preserveAspectRatio=1;width=auto;height=auto:", payload.as_str());
    concat_str(a.as_str(), "\x07")
}

/// RGB pixels as RGBA, fully opaque (a trailing partial pixel dropped).
pub open spec fn rgba_spec(rgb: Seq<u8>) -> Seq<u8> {
    Seq::new((rgb.len() / 3 * 4) as nat, |i: int| if i % 4 == 3 { 255u8 } else { rgb[i / 4 * 3 + i % 4] })
}

/// RGB pixels as RGBA (see [`rgba_spec`]).
pub fn rgb_to_rgba(rgb: &[u8]) -> (r: Vec<u8>)
    requires
        rgb@.len() / 3 * 4 <= usize::MAX,
    ensures
        r@ == rgba_spec(rgb@),
{
    let n = rgb.len() / 3;
    let mut out: Vec<u8> = Vec::new();
    let mut p: usize = 0;
    while p < n
        invariant
            n == rgb@.len() / 3,
            n * 4 <= usize::MAX,
            p <= n,
            out@.len() == p * 4,
            forall|i: int| 0 <= i < p * 4 ==> #[trigger] out@[i] == rgba_spec(rgb@)[i],
        decreases n - p,
    {
        assert(p * 3 + 2 < rgb@.len()) by (nonlinear_arith)
            requires
                p < n,
                n == rgb@.len() / 3;
        let ghost before = out@;
        out.push(rgb[p * 3]);
        out.push(rgb[p * 3 + 1]);
        out.push(rgb[p * 3 + 2]);
        out.push(255u8);
        assert forall|i: int| 0 <= i < (p + 1) * 4 implies #[trigger] out@[i] == rgba_spec(rgb@)[i] by {
            if i >= p * 4 {
                assert(i / 4 == p && i % 4 == i - p * 4) by (nonlinear_arith)
                    requires
                        p * 4 <= i < p * 4 + 4;
            } else {
                assert(out@[i] == before[i]);
            }
            assert(i < (rgb@.len() / 3 * 4)) by (nonlinear_arith)
                requires
                    i < (p + 1) * 4,
                    p < n,
                    n == rgb@.len() / 3;
        }
        p = p + 1;
    }
    assert(out@ =~= rgba_spec(rgb@));
    out
}

/// A terminal colour: plain black, or an RGB colour.
#[derive(Clone, Copy, PartialEq, Eq, Structural, Debug)]
pub enum CellColor {
    Black,
    Rgb(u8, u8, u8),
}

/// The first source pixel (column or row) under render cell `cell`.
pub open spec fn src_start(cell: int, img: int, render: int) -> int {
    let a = cell * img / render;
    if a < img - 1 { a } else { img - 1 }
}

/// One past the last source pixel under render cell `cell` (at least one
/// pixel).
pub open spec fn src_end(cell: int, img: int, render: int, start: int) -> int {
    let b = (cell + 1) * img / render;
    let c = if b < img { b } else { img };
    if c > start + 1 { c } else { start + 1 }
}

/// Channel `c` (0 to 2) of the pixel at (`px`, `py`), or 1 for `c == 3` to
/// count it; 0 when the buffer is too short to hold it.
pub open spec fn pix_val(rgb: Seq<u8>, iw: int, px: int, py: int, c: int) -> int {
    let idx = (py * iw + px) * 3;
    if idx + 2 < rgb.len() {
        if c == 3 { 1 } else { rgb[idx + c] as int }
    } else {
        0
    }
}

/// `pix_val` summed over columns `x0 .. x` of row `py`.
pub open spec fn row_sum(rgb: Seq<u8>, iw: int, py: int, x0: int, x: int, c: int) -> int
    decreases x - x0,
{
    if x <= x0 {
        0
    } else {
        row_sum(rgb, iw, py, x0, x - 1, c) + pix_val(rgb, iw, x - 1, py, c)
    }
}

/// `pix_val` summed over rows `y0 .. y`, columns `x0 .. x1`.
pub open spec fn rect_sum(rgb: Seq<u8>, iw: int, y0: int, y: int, x0: int, x1: int, c: int) -> int
    decreases y - y0,
{
    if y <= y0 {
        0
    } else {
        rect_sum(rgb, iw, y0, y - 1, x0, x1, c) + row_sum(rgb, iw, y - 1, x0, x1, c)
    }
}

/// The colour of render cell (`cx`, `cy`) of an `iw`×`ih` RGB image drawn
/// at `rw`×`rh`: the average of the source pixels under it, or black when
/// none of them is in the buffer.
pub open spec fn avg_pixel_spec(rgb: Seq<u8>, iw: int, ih: int, rw: int, rh: int, cx: int, cy: int) -> CellColor {
    let x0 = src_start(cx, iw, rw);
    let x1 = src_end(cx, iw, rw, x0);
    let y0 = src_start(cy, ih, rh);
    let y1 = src_end(cy, ih, rh, y0);
    let count = rect_sum(rgb, iw, y0, y1, x0, x1, 3);
    if count == 0 {
        CellColor::Black
    } else {
        CellColor::Rgb(
            (rect_sum(rgb, iw, y0, y1, x0, x1, 0) / count) as u8,
            (rect_sum(rgb, iw, y0, y1, x0, x1, 1) / count) as u8,
            (rect_sum(rgb, iw, y0, y1, x0, x1, 2) / count) as u8,
        )
    }
}

proof fn lemma_row_bounds(rgb: Seq<u8>, iw: int, py: int, x0: int, x: int, c: int)
    requires
        0 <= c < 3,
        x0 <= x,
    ensures
        0 <= row_sum(rgb, iw, py, x0, x, c) <= 255 * row_sum(rgb, iw, py, x0, x, 3),
        0 <= row_sum(rgb, iw, py, x0, x, 3) <= x - x0,
    decreases x - x0,
{
    if x > x0 {
        lemma_row_bounds(rgb, iw, py, x0, x - 1, c);
    }
}

proof fn lemma_rect_bounds(rgb: Seq<u8>, iw: int, y0: int, y: int, x0: int, x1: int, c: int)
    requires
        0 <= c < 3,
        y0 <= y,
        x0 <= x1,
    ensures
        0 <= rect_sum(rgb, iw, y0, y, x0, x1, c) <= 255 * rect_sum(rgb, iw, y0, y, x0, x1, 3),
        0 <= rect_sum(rgb, iw, y0, y, x0, x1, 3) <= (y - y0) * (x1 - x0),
    decreases y - y0,
{
    if y > y0 {
        lemma_rect_bounds(rgb, iw, y0, y - 1, x0, x1, c);
        lemma_row_bounds(rgb, iw, y - 1, x0, x1, c);
        assert((y - 1 - y0) * (x1 - x0) + (x1 - x0) == (y - y0) * (x1 - x0)) by (nonlinear_arith);
    }
}

/// The average colour of the source pixels under a render cell (see
/// [`avg_pixel_spec`]); the sums are kept wide enough that none overflows.
pub fn avg_pixel(rgb: &[u8], img_w: u32, img_h: u32, render_w: u32, render_h: u32, cell_x: u32, cell_y: u32) -> (r: CellColor)
    requires
        img_w >= 1,
        img_h >= 1,
        render_w >= 1,
        render_h >= 1,
        (cell_x + 1) * img_w <= u32::MAX,
        (cell_y + 1) * img_h <= u32::MAX,
    ensures
        r == avg_pixel_spec(rgb@, img_w as int, img_h as int, render_w as int, render_h as int, cell_x as int, cell_y as int),
{
    proof {
        assert(cell_x * img_w <= (cell_x + 1) * img_w) by (nonlinear_arith);
        assert(cell_y * img_h <= (cell_y + 1) * img_h) by (nonlinear_arith);
        assert(cell_x + 1 <= (cell_x + 1) * img_w) by (nonlinear_arith)
            requires
                img_w >= 1;
        assert(cell_y + 1 <= (cell_y + 1) * img_h) by (nonlinear_arith)
            requires
                img_h >= 1;
    }
    let a = cell_x * img_w / render_w;
    let x0 = if a < img_w - 1 { a } else { img_w - 1 };
    let b = (cell_x + 1) * img_w / render_w;
    let c = if b < img_w { b } else { img_w };
    let x1 = if c > x0 + 1 { c } else { x0 + 1 };
    let a2 = cell_y * img_h / render_h;
    let y0 = if a2 < img_h - 1 { a2 } else { img_h - 1 };
    let b2 = (cell_y + 1) * img_h / render_h;
    let c2 = if b2 < img_h { b2 } else { img_h };
    let y1 = if c2 > y0 + 1 { c2 } else { y0 + 1 };
    let ghost g = rgb@;
    let ghost iw = img_w as int;
    let ghost block: int = 0x1_0000_0000_0000_0000;
    proof {
        assert((y1 - y0) * (x1 - x0) <= block) by (nonlinear_arith)
            requires
                0 <= y1 - y0 <= 0xffff_ffff,
                0 <= x1 - x0 <= 0xffff_ffff,
                block == 0x1_0000_0000_0000_0000;
    }
    let mut r_sum: u128 = 0;
    let mut g_sum: u128 = 0;
    let mut b_sum: u128 = 0;
    let mut count: u128 = 0;
    let mut py = y0;
    while py < y1
        invariant
            y0 <= py <= y1 <= img_h,
            x0 < x1 <= img_w,
            block == 0x1_0000_0000_0000_0000,
            (y1 - y0) * (x1 - x0) <= block,
            iw == img_w as int,
            g == rgb@,
            r_sum == rect_sum(g, iw, y0 as int, py as int, x0 as int, x1 as int, 0),
            g_sum == rect_sum(g, iw, y0 as int, py as int, x0 as int, x1 as int, 1),
            b_sum == rect_sum(g, iw, y0 as int, py as int, x0 as int, x1 as int, 2),
            count == rect_sum(g, iw, y0 as int, py as int, x0 as int, x1 as int, 3),
        decreases y1 - py,
    {
        let mut px = x0;
        while px < x1
            invariant
                y0 <= py < y1 <= img_h,
                x0 <= px <= x1 <= img_w,
                block == 0x1_0000_0000_0000_0000,
                (y1 - y0) * (x1 - x0) <= block,
                iw == img_w as int,
                g == rgb@,
                r_sum == rect_sum(g, iw, y0 as int, py as int, x0 as int, x1 as int, 0) + row_sum(g, iw, py as int, x0 as int, px as int, 0),
                g_sum == rect_sum(g, iw, y0 as int, py as int, x0 as int, x1 as int, 1) + row_sum(g, iw, py as int, x0 as int, px as int, 1),
                b_sum == rect_sum(g, iw, y0 as int, py as int, x0 as int, x1 as int, 2) + row_sum(g, iw, py as int, x0 as int, px as int, 2),
                count == rect_sum(g, iw, y0 as int, py as int, x0 as int, x1 as int, 3) + row_sum(g, iw, py as int, x0 as int, px as int, 3),
            decreases x1 - px,
        {
            proof {
                assert((py * img_w + px) * 3 + 2 <= 3 * block) by (nonlinear_arith)
                    requires
                        py < 0x1_0000_0000,
                        px < 0x1_0000_0000,
                        img_w < 0x1_0000_0000,
                        block == 0x1_0000_0000_0000_0000;
                let yy = py as int;
                let xx = px as int;
                lemma_rect_bounds(g, iw, y0 as int, yy, x0 as int, x1 as int, 0);
                lemma_rect_bounds(g, iw, y0 as int, yy, x0 as int, x1 as int, 1);
                lemma_rect_bounds(g, iw, y0 as int, yy, x0 as int, x1 as int, 2);
                lemma_row_bounds(g, iw, yy, x0 as int, xx + 1, 0);
                lemma_row_bounds(g, iw, yy, x0 as int, xx + 1, 1);
                lemma_row_bounds(g, iw, yy, x0 as int, xx + 1, 2);
                assert((yy - y0) * (x1 - x0) + (xx + 1 - x0) <= (y1 - y0) * (x1 - x0)) by (nonlinear_arith)
                    requires
                        yy < y1,
                        xx < x1,
                        x0 <= xx,
                        y0 <= yy;
            }
            let idx: u128 = (py as u128 * img_w as u128 + px as u128) * 3;
            if idx + 2 < rgb.len() as u128 {
                let i = idx as usize;
                r_sum = r_sum + rgb[i] as u128;
                g_sum = g_sum + rgb[i + 1] as u128;
                b_sum = b_sum + rgb[i + 2] as u128;
                count = count + 1;
            }
            px = px + 1;
        }
        py = py + 1;
    }
    if count == 0 {
        return CellColor::Black;
    }
    proof {
        lemma_rect_bounds(g, iw, y0 as int, y1 as int, x0 as int, x1 as int, 0);
        lemma_rect_bounds(g, iw, y0 as int, y1 as int, x0 as int, x1 as int, 1);
        lemma_rect_bounds(g, iw, y0 as int, y1 as int, x0 as int, x1 as int, 2);
        assert(r_sum / count <= 255) by (nonlinear_arith)
            requires
                r_sum <= 255 * count,
                count > 0;
        assert(g_sum / count <= 255) by (nonlinear_arith)
            requires
                g_sum <= 255 * count,
                count > 0;
        assert(b_sum / count <= 255) by (nonlinear_arith)
            requires
                b_sum <= 255 * count,
                count > 0;
    }
    CellColor::Rgb((r_sum / count) as u8, (g_sum / count) as u8, (b_sum / count) as u8)
}

/// One cell of a half-block picture: blank, or an upper-half block whose
/// foreground is the top pixel row and background the bottom one.
#[derive(Clone, Copy, PartialEq, Eq, Structural, Debug)]
pub enum HalfCell {
    Space,
    Block { fg: CellColor, bg: CellColor },
}

/// One line of a half-block picture: all blank, or its cells.
pub enum HalfRow {
    Padding,
    Cells(Vec<HalfCell>),
}

/// Pixel row `py` of the display is inside the picture drawn `rh` rows high
/// from row `y_off`.
pub open spec fn row_in(py: int, y_off: int, rh: int) -> bool {
    y_off <= py < y_off + rh
}

/// The cell at (`col`, `row`) of a `dw`×`dh` half-block display of an image
/// drawn at `rw`×`rh` pixels, centred.
pub open spec fn half_cell_spec(rgb: Seq<u8>, iw: int, ih: int, dw: int, dh: int, rw: int, rh: int, row: int, col: int) -> HalfCell {
    let x_off = (dw - rw) / 2;
    let y_off = (2 * dh - rh) / 2;
    let top = 2 * row;
    let bot = 2 * row + 1;
    if col < x_off || col >= x_off + rw {
        HalfCell::Space
    } else {
        HalfCell::Block {
            fg: if row_in(top, y_off, rh) { avg_pixel_spec(rgb, iw, ih, rw, rh, col - x_off, top - y_off) } else { CellColor::Black },
            bg: if row_in(bot, y_off, rh) { avg_pixel_spec(rgb, iw, ih, rw, rh, col - x_off, bot - y_off) } else { CellColor::Black },
        }
    }
}

/// A line of the half-block display: padding when neither of its pixel rows
/// is inside the picture.
pub open spec fn half_row_is_padding(dh: int, rh: int, row: int) -> bool {
    let y_off = (2 * dh - rh) / 2;
    !row_in(2 * row, y_off, rh) && !row_in(2 * row + 1, y_off, rh)
}

/// The input the half-block display can be drawn from.
pub open spec fn halfblock_drawable(rgb_len: int, img_w: u32, img_h: u32, display_w: u16, display_h: u16) -> bool {
    display_w > 0 && display_h > 0 && img_w > 0 && img_h > 0 && rgb_len > 0
}

/// The half-block picture of an RGB image on a `display_w`×`display_h`
/// cell display, drawn at `render_w`×`render_h` pixels (two pixel rows per
/// cell) and centred; nothing when the display, the image or its pixels
/// are empty.
pub fn halfblock_cells(
    rgb: &[u8],
    img_w: u32,
    img_h: u32,
    display_w: u16,
    display_h: u16,
    render_w: u32,
    render_h: u32,
) -> (r: Vec<HalfRow>)
    requires
        halfblock_drawable(rgb@.len() as int, img_w, img_h, display_w, display_h) ==> {
            &&& 1 <= render_w <= display_w
            &&& 1 <= render_h <= 2 * display_h
            &&& render_w * img_w <= u32::MAX
            &&& render_h * img_h <= u32::MAX
        },
    ensures
        !halfblock_drawable(rgb@.len() as int, img_w, img_h, display_w, display_h) ==> r@.len() == 0,
        halfblock_drawable(rgb@.len() as int, img_w, img_h, display_w, display_h) ==> {
            &&& r@.len() == display_h
            &&& forall|row: int| 0 <= row < display_h ==> match #[trigger] r@[row] {
                HalfRow::Padding => half_row_is_padding(display_h as int, render_h as int, row),
                HalfRow::Cells(cells) => !half_row_is_padding(display_h as int, render_h as int, row)
                    && cells@.len() == display_w
                    && forall|col: int| 0 <= col < display_w ==> #[trigger] cells@[col] == half_cell_spec(
                        rgb@, img_w as int, img_h as int, display_w as int, display_h as int,
                        render_w as int, render_h as int, row, col),
            }
        },
{
    if display_w == 0 || display_h == 0 || img_w == 0 || img_h == 0 || rgb.len() == 0 {
        return Vec::new();
    }
    let dw = display_w as u32;
    let dh = display_h as u32;
    let pixel_h = dh * 2;
    let x_off = (dw - render_w) / 2;
    let y_off = (pixel_h - render_h) / 2;
    let mut lines: Vec<HalfRow> = Vec::new();
    let mut row: u32 = 0;
    while row < dh
        invariant
            dw == display_w as u32,
            dh == display_h as u32,
            dh >= 1,
            pixel_h == dh * 2,
            1 <= render_w <= dw,
            1 <= render_h <= pixel_h,
            render_w * img_w <= u32::MAX,
            render_h * img_h <= u32::MAX,
            img_w >= 1,
            img_h >= 1,
            x_off == (dw - render_w) / 2,
            y_off == (pixel_h - render_h) / 2,
            row <= dh,
            lines@.len() == row,
            forall|rr: int| 0 <= rr < row ==> match #[trigger] lines@[rr] {
                HalfRow::Padding => half_row_is_padding(display_h as int, render_h as int, rr),
                HalfRow::Cells(cells) => !half_row_is_padding(display_h as int, render_h as int, rr)
                    && cells@.len() == display_w
                    && forall|col: int| 0 <= col < display_w ==> #[trigger] cells@[col] == half_cell_spec(
                        rgb@, img_w as int, img_h as int, display_w as int, display_h as int,
                        render_w as int, render_h as int, rr, col),
            },
        decreases dh - row,
    {
        let py_top = row * 2;
        let py_bot = row * 2 + 1;
        let top_in = py_top >= y_off && py_top < y_off + render_h;
        let bot_in = py_bot >= y_off && py_bot < y_off + render_h;
        if !top_in && !bot_in {
            lines.push(HalfRow::Padding);
        } else {
            let mut cells: Vec<HalfCell> = Vec::new();
            let mut col: u32 = 0;
            while col < dw
                invariant
                    dw == display_w as u32,
                    dh == display_h as u32,
                    pixel_h == dh * 2,
                    row < dh,
                    py_top == row * 2,
                    py_bot == row * 2 + 1,
                    1 <= render_w <= dw,
                    1 <= render_h <= pixel_h,
                    render_w * img_w <= u32::MAX,
                    render_h * img_h <= u32::MAX,
                            img_w >= 1,
                    img_h >= 1,
                    x_off == (dw - render_w) / 2,
                    y_off == (pixel_h - render_h) / 2,
                    top_in == row_in(py_top as int, y_off as int, render_h as int),
                    bot_in == row_in(py_bot as int, y_off as int, render_h as int),
                    col <= dw,
                    cells@.len() == col,
                    forall|c: int| 0 <= c < col ==> #[trigger] cells@[c] == half_cell_spec(
                        rgb@, img_w as int, img_h as int, display_w as int, display_h as int,
                        render_w as int, render_h as int, row as int, c),
                decreases dw - col,
            {
                if col < x_off || col >= x_off + render_w {
                    cells.push(HalfCell::Space);
                } else {
                    let cell_x = col - x_off;
                    proof {
                        assert((cell_x + 1) * img_w <= render_w * img_w) by (nonlinear_arith)
                            requires
                                cell_x < render_w;
                    }
                    let fg = if top_in {
                        proof {
                            assert((py_top - y_off + 1) * img_h <= render_h * img_h) by (nonlinear_arith)
                                requires
                                    py_top - y_off < render_h;
                        }
                        avg_pixel(rgb, img_w, img_h, render_w, render_h, cell_x, py_top - y_off)
                    } else {
                        CellColor::Black
                    };
                    let bg = if bot_in {
                        proof {
                            assert((py_bot - y_off + 1) * img_h <= render_h * img_h) by (nonlinear_arith)
                                requires
                                    py_bot - y_off < render_h;
                        }
                        avg_pixel(rgb, img_w, img_h, render_w, render_h, cell_x, py_bot - y_off)
                    } else {
                        CellColor::Black
                    };
                    cells.push(HalfCell::Block { fg, bg });
                }
                col = col + 1;
            }
            lines.push(HalfRow::Cells(cells));
        }
        row = row + 1;
    }
    lines
}

} // verus!
