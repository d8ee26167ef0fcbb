//! Camera and remote video frames: conversion to planar I420, the camera pump,
//! and the slot for the latest remote frame.
use crate::bytes;
use crate::encoding;
use crate::text;
use vstd::arithmetic::div_mod::lemma_fundamental_div_mod_converse;
use vstd::prelude::*;

verus! {

/// Planar I420 frame (Y w*h + U w*h/4 + V w*h/4).
#[derive(Clone, Debug)]
pub struct I420Frame {
    pub width: u32,
    pub height: u32,
    pub data: Vec<u8>,
}

impl I420Frame {
    /// The bytes of a frame of the given size.
    pub fn expected_len(width: u32, height: u32) -> (r: usize)
        requires
            width * height * 3 <= usize::MAX,
        ensures
            r == width * height * 3 / 2,
    {
        (area_of(width, height) * 3 / 2) as usize
    }
}

/// Pixel formats that a camera may push.
#[derive(Clone, Copy, Debug, PartialEq, Eq, Structural)]
pub enum PixFmt {
    I420,
    Nv12,
    Bgra,
}

/// The pixel format of a name, whatever its case.
pub open spec fn pixel_format(name: Seq<char>) -> Option<PixFmt> {
    let n = text::lowered(name);
    if n == "i420"@ || n == "yu12"@ || n == "yuv420"@ {
        Some(PixFmt::I420)
    } else if n == "nv12"@ || n == "420v"@ {
        Some(PixFmt::Nv12)
    } else if n == "bgra"@ || n == "32bgra"@ {
        Some(PixFmt::Bgra)
    } else {
        None
    }
}

impl PixFmt {
    /// Reads the name of a pixel format; the error is the text to show.
    pub fn parse(s: &str) -> (r: Result<PixFmt, String>)
        ensures
            match r {
                Ok(f) => pixel_format(s@) == Some(f),
                Err(e) => pixel_format(s@) is None && e@ == "unsupported pixel format: "@
                    + text::lowered(s@),
            },
    {
        let n = text::lower(s);
        if text::same(n.as_str(), "i420") || text::same(n.as_str(), "yu12") || text::same(
            n.as_str(),
            "yuv420",
        ) {
            Ok(PixFmt::I420)
        } else if text::same(n.as_str(), "nv12") || text::same(n.as_str(), "420v") {
            Ok(PixFmt::Nv12)
        } else if text::same(n.as_str(), "bgra") || text::same(n.as_str(), "32bgra") {
            Ok(PixFmt::Bgra)
        } else {
            Err(text::join2("unsupported pixel format: ", n.as_str()))
        }
    }
}

/// What is said of a frame whose dimensions do not do.
pub open spec fn odd_dims(format: Seq<char>, w: int, h: int) -> Seq<char> {
    format + " needs even nonzero dims, got "@ + text::decimal(w as nat) + "x"@ + text::decimal(
        h as nat,
    )
}

fn odd_dims_text(format: &str, width: u32, height: u32) -> (r: String)
    ensures
        r@ == odd_dims(format@, width as int, height as int),
{
    let mut s = text::join2(format, " needs even nonzero dims, got ");
    s.append(text::to_decimal(width as u64).as_str());
    s.append("x");
    s.append(text::to_decimal(height as u64).as_str());
    s
}

/// What is said of a frame of too few bytes.
pub open spec fn too_small(format: Seq<char>, have: int, need: int) -> Seq<char> {
    format + " too small: "@ + text::decimal(have as nat) + " bytes, need "@ + text::decimal(
        need as nat,
    )
}

fn too_small_text(format: &str, have: usize, need: u128) -> (r: String)
    ensures
        r@ == too_small(format@, have as int, need as int),
{
    let mut s = text::join2(format, " too small: ");
    s.append(text::to_decimal(have as u64).as_str());
    s.append(" bytes, need ");
    s.append(text::to_decimal_wide(need).as_str());
    s
}

/// True of dimensions whose chroma can be halved.
pub open spec fn even_dims(w: int, h: int) -> bool {
    w != 0 && h != 0 && w % 2 == 0 && h % 2 == 0
}

/// NV12 as planar I420: the interleaved chroma split into its two planes.
pub open spec fn nv12_planes(data: Seq<u8>, w: int, h: int) -> Seq<u8> {
    let y = w * h;
    data.take(y) + Seq::new((y / 4) as nat, |i: int| data[y + 2 * i]) + Seq::new(
        (y / 4) as nat,
        |i: int| data[y + 2 * i + 1],
    )
}

/// How NV12 converts.
pub open spec fn nv12_result(data: Seq<u8>, w: int, h: int) -> Result<Seq<u8>, Seq<char>> {
    if !even_dims(w, h) {
        Err(odd_dims("nv12"@, w, h))
    } else if data.len() < w * h * 3 / 2 {
        Err(too_small("nv12"@, data.len() as int, w * h * 3 / 2))
    } else {
        Ok(nv12_planes(data, w, h))
    }
}

/// A result by its views.
pub open spec fn result_view(r: Result<Vec<u8>, String>) -> Result<Seq<u8>, Seq<char>> {
    match r {
        Ok(v) => Ok(v@),
        Err(e) => Err(e@),
    }
}

proof fn lemma_even_area(w: int, h: int)
    requires
        even_dims(w, h),
        w > 0,
        h > 0,
    ensures
        (w * h) % 4 == 0,
        w * h == (w / 2) * (h / 2) * 4,
        (w / 2) * (h / 2) > 0,
{
    let a = w / 2;
    let b = h / 2;
    assert(w == 2 * a && h == 2 * b);
    assert(w * h == a * b * 4) by (nonlinear_arith)
        requires
            w == 2 * a,
            h == 2 * b,
    ;
    assert(a * b > 0) by (nonlinear_arith)
        requires
            a > 0,
            b > 0,
    ;
}

/// Converts NV12 (Y and interleaved UV) to planar I420.
pub fn nv12_to_i420(nv12: &[u8], width: u32, height: u32) -> (r: Result<Vec<u8>, String>)
    ensures
        result_view(r) == nv12_result(nv12@, width as int, height as int),
{
    if width == 0 || height == 0 || width % 2 != 0 || height % 2 != 0 {
        return Err(odd_dims_text("nv12", width, height));
    }
    let area: u128 = area_of(width, height);
    if (nv12.len() as u128) < area * 3 / 2 {
        return Err(too_small_text("nv12", nv12.len(), area * 3 / 2));
    }
    proof {
        lemma_even_area(width as int, height as int);
    }
    let y: usize = area as usize;
    let n: usize = nv12.len();
    let quarter: usize = y / 4;
    let mut out = bytes::copy_range(nv12, 0, y);
    proof {
        assert(out@ =~= nv12@.take(y as int));
    }
    let ghost head = out@;
    let ghost us = Seq::new(quarter as nat, |i: int| nv12@[y + 2 * i]);
    let ghost vs = Seq::new(quarter as nat, |i: int| nv12@[y + 2 * i + 1]);
    let mut i: usize = 0;
    proof {
        assert(out@ =~= head + us.take(0));
    }
    while i < quarter
        invariant
            i <= quarter,
            y + quarter * 2 <= n,
            n == nv12@.len(),
            us == Seq::new(quarter as nat, |i: int| nv12@[y + 2 * i]),
            out@ == head + us.take(i as int),
        decreases quarter - i,
    {
        out.push(nv12[y + 2 * i]);
        proof {
            assert(out@ =~= head + us.take(i + 1));
        }
        i = i + 1;
    }
    proof {
        assert(us.take(i as int) =~= us);
        assert(out@ =~= head + us + vs.take(0));
    }
    let mut k: usize = 0;
    while k < quarter
        invariant
            k <= quarter,
            y + quarter * 2 <= n,
            n == nv12@.len(),
            vs == Seq::new(quarter as nat, |i: int| nv12@[y + 2 * i + 1]),
            out@ == head + us + vs.take(k as int),
        decreases quarter - k,
    {
        out.push(nv12[y + 2 * k + 1]);
        proof {
            assert(out@ =~= head + us + vs.take(k + 1));
        }
        k = k + 1;
    }
    proof {
        assert(vs.take(k as int) =~= vs);
    }
    Ok(out)
}

/// The luma of a pixel (BT.601, integer math).
pub open spec fn luma(r: u8, g: u8, b: u8) -> u8 {
    ((77 * r + 150 * g + 29 * b) / 256) as u8
}

/// The blue chroma of a pixel.
pub open spec fn chroma_u(r: u8, g: u8, b: u8) -> u8 {
    ((128 * b - 43 * r - 85 * g) / 256 + 128) as u8
}

/// The red chroma of a pixel.
pub open spec fn chroma_v(r: u8, g: u8, b: u8) -> u8 {
    ((128 * r - 107 * g - 21 * b) / 256 + 128) as u8
}

/// The top left pixel of a block of four, counted in blocks row by row.
pub open spec fn block_pixel(k: int, w: int) -> int {
    2 * (k / (w / 2)) * w + 2 * (k % (w / 2))
}

/// Packed BGRA as planar I420: luma of each pixel, chroma of the top left pixel
/// of each block of four.
pub open spec fn bgra_planes(data: Seq<u8>, w: int, h: int) -> Seq<u8> {
    let blocks = ((w / 2) * (h / 2)) as nat;
    Seq::new((w * h) as nat, |i: int| luma(data[4 * i + 2], data[4 * i + 1], data[4 * i]))
        + Seq::new(
        blocks,
        |k: int|
            chroma_u(
                data[4 * block_pixel(k, w) + 2],
                data[4 * block_pixel(k, w) + 1],
                data[4 * block_pixel(k, w)],
            ),
    ) + Seq::new(
        blocks,
        |k: int|
            chroma_v(
                data[4 * block_pixel(k, w) + 2],
                data[4 * block_pixel(k, w) + 1],
                data[4 * block_pixel(k, w)],
            ),
    )
}

/// How BGRA converts.
pub open spec fn bgra_result(data: Seq<u8>, w: int, h: int) -> Result<Seq<u8>, Seq<char>> {
    if !even_dims(w, h) {
        Err(odd_dims("bgra"@, w, h))
    } else if data.len() < w * h * 4 {
        Err(too_small("bgra"@, data.len() as int, w * h * 4))
    } else {
        Ok(bgra_planes(data, w, h))
    }
}

fn area_of(width: u32, height: u32) -> (r: u128)
    ensures
        r == width * height,
        r <= 0xffff_ffff * 0xffff_ffff,
{
    proof {
        assert(width * height <= 0xffff_ffff * 0xffff_ffff) by (nonlinear_arith)
            requires
                width <= 0xffff_ffff,
                height <= 0xffff_ffff,
        ;
        assert(0 <= width * height) by (nonlinear_arith);
    }
    width as u128 * height as u128
}

fn luma_of(r: u8, g: u8, b: u8) -> (y: u8)
    ensures
        y == luma(r, g, b),
{
    ((77 * r as u32 + 150 * g as u32 + 29 * b as u32) / 256) as u8
}

fn chroma_u_of(r: u8, g: u8, b: u8) -> (u: u8)
    ensures
        u == chroma_u(r, g, b),
{
    ((32768 + 128 * b as u32 - 43 * r as u32 - 85 * g as u32) / 256) as u8
}

fn chroma_v_of(r: u8, g: u8, b: u8) -> (v: u8)
    ensures
        v == chroma_v(r, g, b),
{
    ((32768 + 128 * r as u32 - 107 * g as u32 - 21 * b as u32) / 256) as u8
}

proof fn lemma_block_pixel(row: int, col: int, w: int, h: int)
    requires
        w > 0,
        h > 0,
        even_dims(w, h),
        0 <= row < h / 2,
        0 <= col < w / 2,
    ensures
        block_pixel(row * (w / 2) + col, w) == 2 * row * w + 2 * col,
        0 <= row * (w / 2) + col < (w / 2) * (h / 2),
        0 <= 2 * row * w + 2 * col < w * h,
{
    let half = w / 2;
    let k = row * half + col;
    lemma_fundamental_div_mod_converse(k, half, row, col);
    assert(0 <= row * half) by (nonlinear_arith)
        requires
            row >= 0,
            half > 0,
    ;
    assert(row * half + half <= half * (h / 2)) by (nonlinear_arith)
        requires
            row + 1 <= h / 2,
            half > 0,
    ;
    assert(0 <= 2 * row * w) by (nonlinear_arith)
        requires
            row >= 0,
            w > 0,
    ;
    assert(2 * row * w + 2 * w <= w * h) by (nonlinear_arith)
        requires
            2 * row + 2 <= h,
            w > 0,
    ;
}

fn append_chroma(out: &mut Vec<u8>, bgra: &[u8], w: usize, h: usize, red: bool)
    requires
        even_dims(w as int, h as int),
        w * h * 4 <= bgra@.len(),
    ensures
        final(out)@ == old(out)@ + Seq::new(
            ((w / 2) * (h / 2)) as nat,
            |k: int|
                if red {
                    chroma_v(
                        bgra@[4 * block_pixel(k, w as int) + 2],
                        bgra@[4 * block_pixel(k, w as int) + 1],
                        bgra@[4 * block_pixel(k, w as int)],
                    )
                } else {
                    chroma_u(
                        bgra@[4 * block_pixel(k, w as int) + 2],
                        bgra@[4 * block_pixel(k, w as int) + 1],
                        bgra@[4 * block_pixel(k, w as int)],
                    )
                },
        ),
{
    let ghost plane = Seq::new(
        ((w / 2) * (h / 2)) as nat,
        |k: int|
            if red {
                chroma_v(
                    bgra@[4 * block_pixel(k, w as int) + 2],
                    bgra@[4 * block_pixel(k, w as int) + 1],
                    bgra@[4 * block_pixel(k, w as int)],
                )
            } else {
                chroma_u(
                    bgra@[4 * block_pixel(k, w as int) + 2],
                    bgra@[4 * block_pixel(k, w as int) + 1],
                    bgra@[4 * block_pixel(k, w as int)],
                )
            },
    );
    let n: usize = bgra.len();
    let half_w: usize = w / 2;
    let half_h: usize = h / 2;
    let mut row: usize = 0;
    // The first pixel of the current pair of rows.
    let mut base: usize = 0;
    proof {
        assert(0 * (w as int) == 0);
        assert(0 * (half_w as int) == 0);
        assert(out@ =~= old(out)@ + plane.take(0));
        lemma_even_area(w as int, h as int);
    }
    while row < half_h
        invariant
            row <= half_h,
            half_w == w / 2,
            half_h == h / 2,
            even_dims(w as int, h as int),
            w * h * 4 <= n,
            n == bgra@.len(),
            base == 2 * row * w,
            base <= w * h,
            0 <= row * half_w <= plane.len(),
            plane.len() == half_w * half_h,
            plane == Seq::new(
                ((w / 2) * (h / 2)) as nat,
                |k: int|
                    if red {
                        chroma_v(
                            bgra@[4 * block_pixel(k, w as int) + 2],
                            bgra@[4 * block_pixel(k, w as int) + 1],
                            bgra@[4 * block_pixel(k, w as int)],
                        )
                    } else {
                        chroma_u(
                            bgra@[4 * block_pixel(k, w as int) + 2],
                            bgra@[4 * block_pixel(k, w as int) + 1],
                            bgra@[4 * block_pixel(k, w as int)],
                        )
                    },
            ),
            out@ == old(out)@ + plane.take(row * half_w),
        decreases half_h - row,
    {
        let mut col: usize = 0;
        proof {
            assert(row * half_w + half_w <= half_w * half_h) by (nonlinear_arith)
                requires
                    row + 1 <= half_h,
                    half_w >= 0,
            ;
        }
        while col < half_w
            invariant
                col <= half_w,
                row < half_h,
                half_w == w / 2,
                half_h == h / 2,
                even_dims(w as int, h as int),
                w * h * 4 <= n,
                n == bgra@.len(),
                base == 2 * row * w,
                0 <= row * half_w,
                row * half_w + half_w <= plane.len(),
                plane.len() == half_w * half_h,
                plane == Seq::new(
                    ((w / 2) * (h / 2)) as nat,
                    |k: int|
                        if red {
                            chroma_v(
                                bgra@[4 * block_pixel(k, w as int) + 2],
                                bgra@[4 * block_pixel(k, w as int) + 1],
                                bgra@[4 * block_pixel(k, w as int)],
                            )
                        } else {
                            chroma_u(
                                bgra@[4 * block_pixel(k, w as int) + 2],
                                bgra@[4 * block_pixel(k, w as int) + 1],
                                bgra@[4 * block_pixel(k, w as int)],
                            )
                        },
                ),
                out@ == old(out)@ + plane.take(row * half_w + col),
            decreases half_w - col,
        {
            proof {
                lemma_block_pixel(row as int, col as int, w as int, h as int);
            }
            let at: usize = (base + 2 * col) * 4;
            let c: u8 = if red {
                chroma_v_of(bgra[at + 2], bgra[at + 1], bgra[at])
            } else {
                chroma_u_of(bgra[at + 2], bgra[at + 1], bgra[at])
            };
            out.push(c);
            proof {
                assert(plane[row * half_w + col] == c);
                assert(out@ =~= old(out)@ + plane.take(row * half_w + col + 1));
            }
            col = col + 1;
        }
        proof {
            assert((row + 1) * half_w == row * half_w + half_w) by (nonlinear_arith);
            assert(2 * (row + 1) * w == 2 * row * w + 2 * w) by (nonlinear_arith);
            assert(2 * row * w + 2 * w <= w * h) by (nonlinear_arith)
                requires
                    2 * row + 2 <= h,
                    w >= 0,
            ;
        }
        base = base + 2 * w;
        row = row + 1;
    }
    proof {
        assert(row * half_w == half_w * half_h) by (nonlinear_arith)
            requires
                row == half_h,
        ;
        assert(plane.take(row * half_w) =~= plane);
    }
}

/// Converts packed BGRA to planar I420.
pub fn bgra_to_i420(bgra: &[u8], width: u32, height: u32) -> (r: Result<Vec<u8>, String>)
    ensures
        result_view(r) == bgra_result(bgra@, width as int, height as int),
{
    if width == 0 || height == 0 || width % 2 != 0 || height % 2 != 0 {
        return Err(odd_dims_text("bgra", width, height));
    }
    let area: u128 = area_of(width, height);
    if (bgra.len() as u128) < area * 4 {
        return Err(too_small_text("bgra", bgra.len(), area * 4));
    }
    proof {
        lemma_even_area(width as int, height as int);
        assert(width <= width * height && height <= width * height) by (nonlinear_arith)
            requires
                width >= 1,
                height >= 1,
        ;
    }
    let n: usize = bgra.len();
    let y: usize = area as usize;
    let w: usize = width as usize;
    let h: usize = height as usize;
    let mut out: Vec<u8> = Vec::new();
    let ghost luma_plane = Seq::new(
        (width * height) as nat,
        |i: int| luma(bgra@[4 * i + 2], bgra@[4 * i + 1], bgra@[4 * i]),
    );
    let mut i: usize = 0;
    proof {
        assert(out@ =~= luma_plane.take(0));
    }
    while i < y
        invariant
            i <= y,
            y * 4 <= n,
            n == bgra@.len(),
            luma_plane.len() == y,
            forall|j: int|
                0 <= j < y ==> #[trigger] luma_plane[j] == luma(
                    bgra@[4 * j + 2],
                    bgra@[4 * j + 1],
                    bgra@[4 * j],
                ),
            out@ == luma_plane.take(i as int),
        decreases y - i,
    {
        out.push(luma_of(bgra[4 * i + 2], bgra[4 * i + 1], bgra[4 * i]));
        proof {
            assert(out@ =~= luma_plane.take(i + 1));
        }
        i = i + 1;
    }
    proof {
        assert(luma_plane.take(i as int) =~= luma_plane);
    }
    append_chroma(&mut out, bgra, w, h, false);
    append_chroma(&mut out, bgra, w, h, true);
    proof {
        assert(out@ =~= bgra_planes(bgra@, width as int, height as int));
    }
    Ok(out)
}

/// How a buffer converts.
pub open spec fn converted(data: Seq<u8>, w: int, h: int, fmt: PixFmt) -> Result<
    Seq<u8>,
    Seq<char>,
> {
    match fmt {
        PixFmt::I420 => if data.len() < w * h * 3 / 2 {
            Err(too_small("i420"@, data.len() as int, w * h * 3 / 2))
        } else {
            Ok(data.take(w * h * 3 / 2))
        },
        PixFmt::Nv12 => nv12_result(data, w, h),
        PixFmt::Bgra => bgra_result(data, w, h),
    }
}

/// A converted frame has exactly the bytes that its size calls for.
pub proof fn law_converted_length(data: Seq<u8>, w: int, h: int, fmt: PixFmt)
    requires
        0 <= w,
        0 <= h,
    ensures
        converted(data, w, h, fmt) matches Ok(out) ==> out.len() == w * h * 3 / 2,
{
    assert(w * h >= 0) by (nonlinear_arith)
        requires
            w >= 0,
            h >= 0,
    ;
    if even_dims(w, h) {
        lemma_even_area(w, h);
    }
}

/// Converts one pushed camera buffer into I420; the error is the text to show.
pub fn convert_to_i420(data: &[u8], width: u32, height: u32, fmt: PixFmt) -> (r: Result<
    Vec<u8>,
    String,
>)
    ensures
        result_view(r) == converted(data@, width as int, height as int, fmt),
{
    match fmt {
        PixFmt::I420 => {
            let need: u128 = area_of(width, height) * 3 / 2;
            if (data.len() as u128) < need {
                return Err(too_small_text("i420", data.len(), need));
            }
            let out = bytes::copy_range(data, 0, need as usize);
            proof {
                assert(out@ =~= data@.take(need as int));
            }
            Ok(out)
        },
        PixFmt::Nv12 => nv12_to_i420(data, width, height),
        PixFmt::Bgra => bgra_to_i420(data, width, height),
    }
}

// -- Camera pump --

/// Snapshot of camera pump counters.
#[derive(Clone, Debug)]
pub struct CameraStats {
    pub running: bool,
    pub width: u32,
    pub height: u32,
    pub fps_want: u32,
    pub frames: u64,
    pub dropped: u64,
    pub last_bytes: usize,
}

/// The latest camera frame and the counters of a capture run.
pub struct CameraPump {
    pub running: bool,
    pub width: u32,
    pub height: u32,
    pub fps_want: u32,
    pub frames: u64,
    pub dropped: u64,
    pub latest: Option<I420Frame>,
}

/// The model of [`CameraPump`], with the latest frame by its size and its bytes.
pub struct CameraPumpV {
    pub running: bool,
    pub width: u32,
    pub height: u32,
    pub fps_want: u32,
    pub frames: int,
    pub dropped: int,
    pub latest: Option<(u32, u32, Seq<u8>)>,
}

impl View for CameraPump {
    type V = CameraPumpV;

    open spec fn view(&self) -> CameraPumpV {
        CameraPumpV {
            running: self.running,
            width: self.width,
            height: self.height,
            fps_want: self.fps_want,
            frames: self.frames as int,
            dropped: self.dropped as int,
            latest: match self.latest {
                Some(f) => Some((f.width, f.height, f.data@)),
                None => None,
            },
        }
    }
}

/// One camera buffer as it is pushed.
pub struct PushedBufferV {
    pub data: Seq<u8>,
    pub width: u32,
    pub height: u32,
    pub fmt: PixFmt,
}

/// A pump whose run has begun.
pub open spec fn begun(width: u32, height: u32, fps: u32) -> CameraPumpV {
    CameraPumpV {
        running: true,
        width,
        height,
        fps_want: fps,
        frames: 0,
        dropped: 0,
        latest: None,
    }
}

/// A pump whose run has ended.
pub open spec fn ended(v: CameraPumpV) -> CameraPumpV {
    CameraPumpV { running: false, latest: None, ..v }
}

/// The bytes that a pump takes of a buffer: nothing outside a run, nor of a buffer
/// that does not convert.
pub open spec fn taken(v: CameraPumpV, b: PushedBufferV) -> Option<Seq<u8>> {
    match converted(b.data, b.width as int, b.height as int, b.fmt) {
        Ok(out) if v.running => Some(out),
        _ => None,
    }
}

/// A pump after one buffer.
pub open spec fn pushed(v: CameraPumpV, b: PushedBufferV) -> CameraPumpV {
    match taken(v, b) {
        Some(out) => CameraPumpV {
            frames: v.frames + 1,
            latest: Some((b.width, b.height, out)),
            ..v
        },
        None => CameraPumpV { dropped: v.dropped + 1, ..v },
    }
}

/// A pump after several buffers.
pub open spec fn pushed_all(v: CameraPumpV, buffers: Seq<PushedBufferV>) -> CameraPumpV
    decreases buffers.len(),
{
    if buffers.len() == 0 {
        v
    } else {
        pushed(pushed_all(v, buffers.drop_last()), buffers.last())
    }
}

/// After the end of a run the pump does not run and shows no frame, and its counters
/// stay. Until the next run begins, every buffer only counts as dropped.
pub proof fn law_ended_pump_shows_nothing(v: CameraPumpV, buffers: Seq<PushedBufferV>)
    ensures
        !ended(v).running,
        ended(v).latest is None,
        ended(v).frames == v.frames,
        ended(v).dropped == v.dropped,
        ended(v).width == v.width,
        ended(v).height == v.height,
        ended(v).fps_want == v.fps_want,
        pushed_all(ended(v), buffers) == (CameraPumpV {
            dropped: v.dropped + buffers.len(),
            ..ended(v)
        }),
    decreases buffers.len(),
{
    if buffers.len() > 0 {
        law_ended_pump_shows_nothing(v, buffers.drop_last());
    }
}

/// Every buffer is counted once, as a frame or as dropped.
pub proof fn law_pump_counts_every_buffer(v: CameraPumpV, buffers: Seq<PushedBufferV>)
    ensures
        pushed_all(v, buffers).frames + pushed_all(v, buffers).dropped == v.frames + v.dropped
            + buffers.len(),
        pushed_all(v, buffers).frames >= v.frames,
        pushed_all(v, buffers).dropped >= v.dropped,
    decreases buffers.len(),
{
    if buffers.len() > 0 {
        law_pump_counts_every_buffer(v, buffers.drop_last());
    }
}

impl CameraPump {
    /// A pump that is not running.
    pub fn new() -> (r: CameraPump)
        ensures
            r@ == ended(begun(0, 0, 0)),
    {
        CameraPump {
            running: false,
            width: 0,
            height: 0,
            fps_want: 0,
            frames: 0,
            dropped: 0,
            latest: None,
        }
    }

    /// Begins a capture run, with all counters at zero.
    pub fn begin(&mut self, width: u32, height: u32, fps: u32)
        ensures
            final(self)@ == begun(width, height, fps),
    {
        self.running = true;
        self.width = width;
        self.height = height;
        self.fps_want = fps;
        self.frames = 0;
        self.dropped = 0;
        self.latest = None;
    }

    /// Ends a capture run; the counters stay.
    pub fn end(&mut self)
        ensures
            final(self)@ == ended(old(self)@),
    {
        self.running = false;
        self.latest = None;
    }

    /// Takes one frame. A frame that does not convert, or that comes outside a
    /// run, counts as dropped.
    pub fn push(&mut self, data: &[u8], width: u32, height: u32, fmt: PixFmt)
        requires
            pushed(old(self)@, (PushedBufferV { data: data@, width, height, fmt })).frames
                <= u64::MAX,
            pushed(old(self)@, (PushedBufferV { data: data@, width, height, fmt })).dropped
                <= u64::MAX,
        ensures
            final(self)@ == pushed(
                old(self)@,
                (PushedBufferV { data: data@, width, height, fmt }),
            ),
    {
        if !self.running {
            self.dropped = self.dropped + 1;
            return;
        }
        match convert_to_i420(data, width, height, fmt) {
            Ok(i420) => {
                self.frames = self.frames + 1;
                self.latest = Some(I420Frame { width, height, data: i420 });
            },
            Err(_) => {
                self.dropped = self.dropped + 1;
            },
        }
    }

    /// The counters, and the size of the latest frame.
    pub fn stats(&self) -> (r: CameraStats)
        ensures
            r.running == self.running,
            r.width == self.width,
            r.height == self.height,
            r.fps_want == self.fps_want,
            r.frames == self.frames,
            r.dropped == self.dropped,
            r.last_bytes == match self.latest {
                Some(f) => f.data@.len(),
                None => 0,
            },
    {
        CameraStats {
            running: self.running,
            width: self.width,
            height: self.height,
            fps_want: self.fps_want,
            frames: self.frames,
            dropped: self.dropped,
            last_bytes: match &self.latest {
                Some(f) => f.data.len(),
                None => 0,
            },
        }
    }

    /// The latest frame of the run.
    pub fn latest(&self) -> (r: Option<&I420Frame>)
        ensures
            match r {
                Some(f) => self.latest == Some(*f),
                None => self.latest is None,
            },
    {
        match &self.latest {
            Some(f) => Some(f),
            None => None,
        }
    }
}

impl Default for CameraPump {
    fn default() -> (r: CameraPump)
        ensures
            r@ == ended(begun(0, 0, 0)),
    {
        CameraPump::new()
    }
}

// -- Remote frames --

/// Latest decoded remote frame. Taking it empties the slot.
pub struct RemoteSlot {
    pub latest: Option<I420Frame>,
}

impl RemoteSlot {
    /// An empty slot.
    pub fn new() -> (r: RemoteSlot)
        ensures
            r.latest is None,
    {
        RemoteSlot { latest: None }
    }

    /// Puts a frame in the place of the one that is there.
    pub fn push(&mut self, frame: I420Frame)
        ensures
            final(self).latest == Some(frame),
    {
        self.latest = Some(frame);
    }

    /// Takes the frame out.
    pub fn take(&mut self) -> (r: Option<I420Frame>)
        ensures
            r == old(self).latest,
            final(self).latest is None,
    {
        let mut out: Option<I420Frame> = None;
        std::mem::swap(&mut out, &mut self.latest);
        out
    }

    /// True when there is a frame.
    pub fn has_frame(&self) -> (r: bool)
        ensures
            r == (self.latest is Some),
    {
        self.latest.is_some()
    }
}

impl Default for RemoteSlot {
    fn default() -> (r: RemoteSlot)
        ensures
            r.latest is None,
    {
        RemoteSlot::new()
    }
}

// -- Self-test material --

/// The NAL units of an access unit in Base64.
pub fn black_iframe_b64(nals: &Vec<Vec<u8>>) -> (r: Vec<String>)
    ensures
        r@.len() == nals@.len(),
        forall|i: int|
            0 <= i < r@.len() ==> (#[trigger] r@[i])@ == encoding::base64_of(nals@[i]@),
{
    let mut out: Vec<String> = Vec::new();
    let mut i: usize = 0;
    while i < nals.len()
        invariant
            i <= nals@.len(),
            out@.len() == i,
            forall|j: int|
                0 <= j < i ==> (#[trigger] out@[j])@ == encoding::base64_of(nals@[j]@),
        decreases nals@.len() - i,
    {
        out.push(encoding::base64_encode(nals[i].as_slice()));
        i = i + 1;
    }
    out
}

/// A crypto line with thirty equal key bytes.
pub open spec fn fixed_crypto_line(tag: u32, fill: u8) -> Seq<char> {
    "a=crypto:"@ + text::decimal(tag as nat) + " AES_CM_128_HMAC_SHA1_80 inline:"@
        + encoding::base64_of(Seq::new(30, |i: int| fill)) + "|2^31"@
}

/// Fixed keying material for a dry run, not for real calls.
pub fn dry_run_material(tag: u32, fill: u8) -> (r: String)
    ensures
        r@ == fixed_crypto_line(tag, fill),
{
    let mut raw: Vec<u8> = Vec::new();
    let mut i: usize = 0;
    while i < 30
        invariant
            i <= 30,
            raw@ == Seq::new(i as nat, |j: int| fill),
        decreases 30 - i,
    {
        raw.push(fill);
        proof {
            assert(raw@ =~= Seq::new((i + 1) as nat, |j: int| fill));
        }
        i = i + 1;
    }
    let b64 = encoding::base64_encode(raw.as_slice());
    let mut s = "a=crypto:".to_string();
    s.append(text::to_decimal(tag as u64).as_str());
    s.append(" AES_CM_128_HMAC_SHA1_80 inline:");
    s.append(b64.as_str());
    s.append("|2^31");
    s
}

/// A format is known by its names, in either case.
pub proof fn law_formats_by_name(name: Seq<char>)
    ensures
        text::lowered(name) == "i420"@ || text::lowered(name) == "yu12"@ || text::lowered(name)
            == "yuv420"@ ==> pixel_format(name) == Some(PixFmt::I420),
        text::lowered(name) == "nv12"@ || text::lowered(name) == "420v"@ ==> pixel_format(name)
            == Some(PixFmt::Nv12),
        text::lowered(name) == "bgra"@ || text::lowered(name) == "32bgra"@ ==> pixel_format(name)
            == Some(PixFmt::Bgra),
{
    assert("i420"@.len() == 4 && "i420"@[0] == 'i') by {
        reveal_strlit("i420");
    }
    assert("yu12"@.len() == 4 && "yu12"@[0] == 'y') by {
        reveal_strlit("yu12");
    }
    assert("yuv420"@.len() == 6 && "yuv420"@[0] == 'y') by {
        reveal_strlit("yuv420");
    }
    assert("nv12"@.len() == 4 && "nv12"@[0] == 'n') by {
        reveal_strlit("nv12");
    }
    assert("420v"@.len() == 4 && "420v"@[0] == '4') by {
        reveal_strlit("420v");
    }
    assert("bgra"@.len() == 4 && "bgra"@[0] == 'b') by {
        reveal_strlit("bgra");
    }
    assert("32bgra"@.len() == 6 && "32bgra"@[0] == '3') by {
        reveal_strlit("32bgra");
    }
}

/// Grey stays grey: a pixel of three equal parts has that brightness, and no colour. The
/// brightness of a pixel lies between its least and its greatest part.
pub proof fn law_grey_has_no_colour(r: u8, g: u8, b: u8)
    ensures
        luma(r, r, r) == r,
        chroma_u(r, r, r) == 128,
        chroma_v(r, r, r) == 128,
        r <= g <= b ==> r <= luma(r, g, b) <= b,
        luma(255, 0, 0) == 76 && luma(0, 255, 0) == 149 && luma(0, 0, 255) == 28,
        b > r && b > g ==> chroma_u(r, g, b) >= 128,
        r > g && r > b ==> chroma_v(r, g, b) >= 128,
        b < r && b < g ==> chroma_u(r, g, b) < 128,
        r < g && r < b ==> chroma_v(r, g, b) < 128,
{
}

/// The two colour planes of a converted frame hold the bytes that took turns in the given
/// one, and the brightness stands before them as it was.
pub proof fn law_nv12_colours_are_parted(data: Seq<u8>, w: int, h: int, i: int)
    requires
        even_dims(w, h),
        w > 0,
        h > 0,
        data.len() >= w * h * 3 / 2,
        0 <= i < w * h / 4,
    ensures
        nv12_result(data, w, h) matches Ok(f) && f.len() == w * h + 2 * (w * h / 4) && f[w * h + i]
            == data[w * h + 2 * i] && f[w * h + w * h / 4 + i] == data[w * h + 2 * i + 1] && f.take(
            w * h,
        ) == data.take(w * h),
{
    assert(w * h >= 0) by (nonlinear_arith)
        requires
            w > 0,
            h > 0,
    ;
    let f = nv12_planes(data, w, h);
    assert(f.take(w * h) =~= data.take(w * h));
}

/// A frame of an odd or empty size, or with too few bytes, is refused; one that is large
/// enough is not.
pub proof fn law_frames_need_even_sizes(data: Seq<u8>, w: int, h: int)
    requires
        w >= 0,
        h >= 0,
    ensures
        w == 0 || h == 0 || w % 2 == 1 || h % 2 == 1 ==> nv12_result(data, w, h) is Err
            && bgra_result(data, w, h) is Err,
        w > 0 && h > 0 && w % 2 == 0 && h % 2 == 0 ==> {
            &&& nv12_result(data, w, h) is Ok <==> 2 * data.len() >= w * h * 3
            &&& bgra_result(data, w, h) is Ok <==> data.len() >= 4 * (w * h)
        },
        converted(data, w, h, PixFmt::I420) is Ok <==> data.len() >= w * h * 3 / 2,
        converted(data, w, h, PixFmt::I420) matches Ok(f) ==> f == data.take(w * h * 3 / 2),
{
    if w % 2 == 0 {
        let k = w / 2;
        assert(w * h * 3 == 2 * (k * h * 3)) by (nonlinear_arith)
            requires
                w == 2 * k,
        ;
    }
}

/// The pixel of a block is its upper left one: at even places of its row and its column.
pub proof fn law_block_is_told_by_its_corner(k: int, w: int)
    requires
        w > 0,
        w % 2 == 0,
        k >= 0,
    ensures
        block_pixel(k, w) == 2 * (k / (w / 2)) * w + 2 * (k % (w / 2)),
        block_pixel(k, w) % w % 2 == 0,
        block_pixel(k, w) / w % 2 == 0,
{
    let half = w / 2;
    let row = k / half;
    let col = 2 * (k % half);
    assert(0 <= col < w);
    let p = block_pixel(k, w);
    assert(p == (2 * row) * w + col);
    vstd::arithmetic::div_mod::lemma_fundamental_div_mod_converse(p, w, 2 * row, col);
}

/// A pump takes a frame only while it runs, and shows the one that came last, in its
/// size.
pub proof fn law_pump_shows_the_last_frame(v: CameraPumpV, b: PushedBufferV, f: Seq<u8>)
    requires
        converted(b.data, b.width as int, b.height as int, b.fmt) == Ok::<Seq<u8>, Seq<char>>(f),
    ensures
        v.running ==> pushed(v, b).latest == Some((b.width, b.height, f)) && pushed(v, b).frames
            == v.frames + 1 && pushed(v, b).dropped == v.dropped && pushed(v, b).running,
        !v.running ==> pushed(v, b).latest == v.latest && pushed(v, b).frames == v.frames && pushed(
            v,
            b,
        ).dropped == v.dropped + 1,
        begun(b.width, b.height, 30).running && begun(b.width, b.height, 30).frames == 0 && begun(
            b.width,
            b.height,
            30,
        ).dropped == 0 && begun(b.width, b.height, 30).latest is None,
        !ended(v).running && ended(v).latest is None && ended(v).frames == v.frames
            && ended(v).dropped == v.dropped,
{
}

/// A frame of colours becomes one plane of brightness, a byte for each pixel in its place,
/// and two planes of colour, a byte for each block, told by its upper left pixel. A pixel
/// has its blue part first, then green, then red.
pub proof fn law_bgra_planes_by_place(data: Seq<u8>, w: int, h: int, i: int, k: int)
    requires
        even_dims(w, h),
        w > 0,
        h > 0,
        data.len() >= w * h * 4,
        0 <= i < w * h,
        0 <= k < (w / 2) * (h / 2),
    ensures
        ({
            let p = 2 * (k / (w / 2)) * w + 2 * (k % (w / 2));
            bgra_result(data, w, h) matches Ok(f) && f.len() == w * h + 2 * ((w / 2) * (h / 2))
                && f[i] == luma(data[4 * i + 2], data[4 * i + 1], data[4 * i]) && f[w * h + k]
                == chroma_u(data[4 * p + 2], data[4 * p + 1], data[4 * p]) && f[w * h + (w / 2) * (h
                / 2) + k] == chroma_v(data[4 * p + 2], data[4 * p + 1], data[4 * p])
        }),
{
    assert(w * h >= 0) by (nonlinear_arith)
        requires
            w > 0,
            h > 0,
    ;
    assert((w / 2) * (h / 2) >= 0) by (nonlinear_arith)
        requires
            w > 0,
            h > 0,
    ;
    let f = bgra_planes(data, w, h);
    let n = (w / 2) * (h / 2);
    assert(f.len() == w * h + 2 * n);
    assert(f[w * h + k] == chroma_u(
        data[4 * block_pixel(k, w) + 2],
        data[4 * block_pixel(k, w) + 1],
        data[4 * block_pixel(k, w)],
    ));
}

/// Why a frame was refused names its format and its size.
pub proof fn law_refused_frame_is_told(format: Seq<char>, a: nat, b: nat)
    ensures
        odd_dims(format, a as int, b as int) == format + " needs even nonzero dims, got "@
            + text::decimal(a) + "x"@ + text::decimal(b),
        too_small(format, a as int, b as int) == format + " too small: "@ + text::decimal(a)
            + " bytes, need "@ + text::decimal(b),
{
}

/// A key line names its tag, and its key is thirty times the same byte.
pub proof fn law_fixed_key_line(tag: u32, fill: u8)
    ensures
        ("a=crypto:"@ + text::decimal(tag as nat)
            + " AES_CM_128_HMAC_SHA1_80 inline:"@).is_prefix_of(
            fixed_crypto_line(tag, fill),
        ),
        ("|2^31"@).is_suffix_of(fixed_crypto_line(tag, fill)),
{
    let s = fixed_crypto_line(tag, fill);
    let p = "a=crypto:"@ + text::decimal(tag as nat) + " AES_CM_128_HMAC_SHA1_80 inline:"@;
    let t = "|2^31"@;
    assert(s.subrange(0, p.len() as int) =~= p);
    assert(s.subrange(s.len() - t.len(), s.len() as int) =~= t);
}

} // verus!
