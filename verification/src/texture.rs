//! Texture helpers that work on plain bytes: decoding an image file into
//! RGBA8 pixels and padding pixel rows to the copy alignment the GPU requires.
use vstd::prelude::*;
use vstd::arithmetic::div_mod::lemma_fundamental_div_mod_converse;
use vstd::arithmetic::mul::{lemma_mul_inequality, lemma_mul_is_distributive_add_other_way};

use crate::gpu_context::RenderError;

verus! {

/// Row pitch alignment, in bytes, for buffer-to-texture copies.
pub const COPY_ROW_ALIGNMENT: u32 = 256;

/// `row_bytes` rounded up to a multiple of [`COPY_ROW_ALIGNMENT`].
pub open spec fn aligned_row_bytes(row_bytes: nat) -> nat {
    ((row_bytes + 255) / 256) * 256
}

/// Byte `i` of the padded image: rows of `row_bytes` bytes from `data`,
/// each followed by zeros up to `aligned` bytes.
pub open spec fn padded_byte(data: Seq<u8>, row_bytes: nat, aligned: nat, i: int) -> u8 {
    let r = i / aligned as int;
    let c = i % aligned as int;
    if c < row_bytes {
        data[r * row_bytes + c]
    } else {
        0u8
    }
}

/// What [`pad_rows`] returns: `data` itself when the rows are already
/// aligned, otherwise `rows` rows padded with zeros to the aligned pitch.
pub open spec fn padded_rows(data: Seq<u8>, row_bytes: nat, rows: nat) -> Seq<u8> {
    let aligned = aligned_row_bytes(row_bytes);
    if aligned == row_bytes {
        data
    } else {
        Seq::new(aligned * rows, |i: int| padded_byte(data, row_bytes, aligned, i))
    }
}

/// Rounds `row_bytes` up to a multiple of 256.
pub fn align_row_bytes(row_bytes: u32) -> (a: u32)
    requires
        row_bytes as nat + 255 <= u32::MAX,
    ensures
        a as nat == aligned_row_bytes(row_bytes as nat),
        a >= row_bytes,
{
    let blocks = (row_bytes + 255) / 256;
    assert(blocks * 256 <= row_bytes + 255) by (nonlinear_arith)
        requires
            blocks == (row_bytes + 255) / 256,
    ;
    assert(blocks * 256 >= row_bytes) by (nonlinear_arith)
        requires
            blocks == (row_bytes + 255) / 256,
    ;
    blocks * 256
}

/// Lays out `rows` rows of `row_bytes` bytes at the 256-byte pitch a texture
/// copy needs; each row is followed by zero bytes.  When the pitch already
/// matches, the bytes are returned unchanged.
pub fn pad_rows(data: &[u8], row_bytes: u32, rows: u32) -> (out: Vec<u8>)
    requires
        row_bytes as nat + 255 <= u32::MAX,
        aligned_row_bytes(row_bytes as nat) != row_bytes ==> {
            &&& aligned_row_bytes(row_bytes as nat) * rows <= u32::MAX
            &&& row_bytes * rows <= data@.len()
        },
    ensures
        out@ == padded_rows(data@, row_bytes as nat, rows as nat),
{
    let aligned = align_row_bytes(row_bytes);
    if aligned == row_bytes {
        return vstd::slice::slice_to_vec(data);
    }
    let ghost al = aligned as nat;
    let ghost rb = row_bytes as nat;
    let n = data.len();
    let mut out: Vec<u8> = Vec::new();
    let mut r: u32 = 0;
    while r < rows
        invariant
            al == aligned as nat,
            rb == row_bytes as nat,
            al > rb,
            al * rows <= u32::MAX,
            rb * rows <= data@.len(),
            n == data@.len(),
            r <= rows,
            out@.len() == r * al,
            forall|j: int| 0 <= j < out@.len() ==> out@[j] == padded_byte(data@, rb, al, j),
        decreases rows - r,
    {
        let mut c: u32 = 0;
        proof {
            lemma_mul_inequality(r as int + 1, rows as int, rb as int);
            lemma_mul_is_distributive_add_other_way(rb as int, r as int, 1);
        }
        while c < aligned
            invariant
                al == aligned as nat,
                rb == row_bytes as nat,
                al > rb,
                r < rows,
                rb * rows <= data@.len(),
                n == data@.len(),
                (r + 1) * rb <= rb * rows,
                (r + 1) * rb == r * rb + rb,
                c <= aligned,
                out@.len() == r * al + c,
                forall|j: int| 0 <= j < out@.len() ==> out@[j] == padded_byte(data@, rb, al, j),
            decreases aligned - c,
        {
            let ghost j = out@.len() as int;
            proof {
                lemma_fundamental_div_mod_converse(j, al as int, r as int, c as int);
            }
            if c < row_bytes {
                assert((r as int) * (row_bytes as int) + c < n) by (nonlinear_arith)
                    requires
                        rb == row_bytes as nat,
                        n == data@.len(),
                        c < rb,
                        (r + 1) * rb == r * rb + rb,
                        (r + 1) * rb <= rb * rows,
                        rb * rows <= data@.len(),
                ;
                let idx: usize = (r as usize) * (row_bytes as usize) + (c as usize);
                out.push(data[idx]);
            } else {
                out.push(0u8);
            }
            c = c + 1;
        }
        assert(out@.len() == (r + 1) * al) by (nonlinear_arith)
            requires
                out@.len() == r * al + al,
        ;
        r = r + 1;
    }
    assert(out@.len() == al * rows) by (nonlinear_arith)
        requires
            out@.len() == r * al,
            r == rows,
    ;
    assert(out@ =~= padded_rows(data@, rb, rows as nat));
    out
}


/// Largest texture side accepted (the GPU's default limit).
pub const MAX_TEXTURE_SIDE: u32 = 8192;

/// The image the `image` crate decodes from an encoded file (PNG and the
/// other enabled formats), converted to RGBA8: width, height and pixels, or
/// `None` when the bytes do not decode.
pub uninterp spec fn decoded_rgba8(bytes: Seq<u8>) -> Option<(u32, u32, Seq<u8>)>;

/// Decodes an encoded image with `image::load_from_memory` and converts it to
/// RGBA8 (`to_rgba8`).  The contract claims the result is the named decoding,
/// and that the pixel buffer holds exactly four bytes per pixel, as the
/// decoded buffers of `image` do.  The error is the decoder's message.
#[verifier::external_body]
fn decode_rgba8(bytes: &[u8]) -> (r: Result<(u32, u32, Vec<u8>), String>)
    ensures
        match r {
            Ok((w, h, px)) => {
                &&& decoded_rgba8(bytes@) == Some((w, h, px@))
                &&& px@.len() == w * h * 4
            },
            Err(_) => decoded_rgba8(bytes@) is None,
        },
{
    match image::load_from_memory(bytes) {
        Ok(img) => {
            let rgba = img.to_rgba8();
            let (w, h) = rgba.dimensions();
            Ok((w, h, rgba.into_raw()))
        },
        Err(e) => Err(e.to_string()),
    }
}

/// RGBA8 pixels laid out for upload: each row padded to `bytes_per_row`.
pub struct TexturePixels {
    pub width: u32,
    pub height: u32,
    pub bytes_per_row: u32,
    pub data: Vec<u8>,
}

/// The start of the message for bytes that do not decode; the decoder's own
/// message follows it.
pub open spec fn decode_failure_prefix() -> Seq<char> {
    "图片解码失败："@
}

/// The message for an image of zero width or height.
pub open spec fn zero_size_message() -> Seq<char> {
    "纹理尺寸无效：宽或高为 0"@
}

/// The message for an image larger than [`MAX_TEXTURE_SIDE`].
pub open spec fn too_large_message() -> Seq<char> {
    "纹理尺寸超出 GPU 限制：最大 8192×8192"@
}

/// Decodes an image file into RGBA8 pixels ready for a texture upload.
///
/// Fails with [`RenderError::Generic`] when the bytes do not decode, when a
/// side is 0, or when a side exceeds [`MAX_TEXTURE_SIDE`]; otherwise the rows
/// (4 bytes a pixel) are padded to a multiple of 256 bytes.
pub fn decode_texture_pixels(bytes: &[u8]) -> (r: Result<TexturePixels, RenderError>)
    ensures
        match decoded_rgba8(bytes@) {
            None => r matches Err(RenderError::Generic(m)) && exists|detail: Seq<char>| m@
                == decode_failure_prefix() + detail,
            Some((w, h, px)) => if w == 0 || h == 0 {
                r matches Err(RenderError::Generic(m)) && m@ == zero_size_message()
            } else if w > MAX_TEXTURE_SIDE || h > MAX_TEXTURE_SIDE {
                r matches Err(RenderError::Generic(m)) && m@ == too_large_message()
            } else {
                r matches Ok(t) && {
                    &&& t.width == w
                    &&& t.height == h
                    &&& t.bytes_per_row as nat == aligned_row_bytes(4 * w as nat)
                    &&& t.data@ == padded_rows(px, 4 * w as nat, h as nat)
                }
            },
        },
{
    let (width, height, pixels) = match decode_rgba8(bytes) {
        Ok(d) => d,
        Err(e) => {
            proof {
                reveal_strlit("图片解码失败：");
            }
            let mut m = "图片解码失败：".to_owned();
            m.append(e.as_str());
            assert(m@ == decode_failure_prefix() + e@);
            return Err(RenderError::Generic(m));
        },
    };
    if width == 0 || height == 0 {
        proof {
            reveal_strlit("纹理尺寸无效：宽或高为 0");
        }
        return Err(RenderError::Generic("纹理尺寸无效：宽或高为 0".to_owned()));
    }
    if width > MAX_TEXTURE_SIDE || height > MAX_TEXTURE_SIDE {
        proof {
            reveal_strlit("纹理尺寸超出 GPU 限制：最大 8192×8192");
        }
        return Err(RenderError::Generic("纹理尺寸超出 GPU 限制：最大 8192×8192".to_owned()));
    }
    let row_bytes = 4 * width;
    let aligned = align_row_bytes(row_bytes);
    assert(aligned_row_bytes(row_bytes as nat) * height <= 32768 * 8192) by (nonlinear_arith)
        requires
            aligned as nat == aligned_row_bytes(row_bytes as nat),
            aligned <= row_bytes + 255,
            row_bytes <= 32768,
            height <= 8192,
    ;
    assert(row_bytes * height <= pixels@.len()) by (nonlinear_arith)
        requires
            row_bytes == 4 * width,
            pixels@.len() == width * height * 4,
    ;
    let data = pad_rows(pixels.as_slice(), row_bytes, height);
    Ok(TexturePixels { width, height, bytes_per_row: aligned, data })
}


/// Takes `rows` rows of `row_bytes` bytes out of data laid out at a pitch of
/// `pitch` bytes a row, dropping the padding after each row (the layout a
/// texture-to-buffer copy produces).
pub fn unpad_rows(data: &[u8], row_bytes: u32, pitch: u32, rows: u32) -> (out: Vec<u8>)
    requires
        row_bytes <= pitch,
        pitch * rows <= data@.len(),
    ensures
        out@.len() == row_bytes * rows,
        forall|r: int, c: int|
            0 <= r < rows && 0 <= c < row_bytes ==> #[trigger] out@[r * row_bytes + c] == data@[r * pitch + c],
{
    let mut out: Vec<u8> = Vec::new();
    let total = data.len();
    let mut r: u32 = 0;
    while r < rows
        invariant
            total == data@.len(),
            row_bytes <= pitch,
            pitch * rows <= data@.len(),
            r <= rows,
            out@.len() == r * row_bytes,
            forall|q: int, c: int|
                0 <= q < r && 0 <= c < row_bytes ==> #[trigger] out@[q * row_bytes + c] == data@[q * pitch + c],
        decreases rows - r,
    {
        let mut c: u32 = 0;
        assert(r * pitch + pitch <= pitch * rows) by (nonlinear_arith)
            requires
                r < rows,
        ;
        while c < row_bytes
            invariant
                total == data@.len(),
                row_bytes <= pitch,
                pitch * rows <= data@.len(),
                r < rows,
                r * pitch + pitch <= pitch * rows,
                c <= row_bytes,
                out@.len() == r * row_bytes + c,
                forall|q: int, d: int|
                    0 <= q < r && 0 <= d < row_bytes ==> #[trigger] out@[q * row_bytes + d] == data@[q * pitch + d],
                forall|d: int| 0 <= d < c ==> #[trigger] out@[r * row_bytes + d] == data@[r * pitch + d],
            decreases row_bytes - c,
        {
            assert((r as int) * (pitch as int) + (c as int) < total) by (nonlinear_arith)
                requires
                    r * pitch + pitch <= pitch * rows,
                    pitch * rows <= total,
                    c < row_bytes,
                    row_bytes <= pitch,
            ;
            let idx: usize = (r as usize) * (pitch as usize) + (c as usize);
            let ghost before = out@;
            out.push(data[idx]);
            proof {
                assert forall|q: int, d: int|
                    0 <= q < r && 0 <= d < row_bytes implies #[trigger] out@[q * row_bytes + d] == data@[q * pitch
                    + d] by {
                    assert(q * row_bytes + d < r * row_bytes) by (nonlinear_arith)
                        requires
                            0 <= q < r,
                            0 <= d < row_bytes,
                    ;
                    assert(out@[q * row_bytes + d] == before[q * row_bytes + d]);
                }
            }
            c = c + 1;
        }
        proof {
            assert forall|q: int, d: int|
                0 <= q < r + 1 && 0 <= d < row_bytes implies #[trigger] out@[q * row_bytes + d] == data@[q * pitch
                + d] by {
                if q == r {
                    assert(out@[r * row_bytes + d] == data@[r * pitch + d]);
                }
            }
            assert(out@.len() == (r + 1) * row_bytes) by (nonlinear_arith)
                requires
                    out@.len() == r * row_bytes + row_bytes,
            ;
        }
        r = r + 1;
    }
    assert(out@.len() == row_bytes * rows) by (nonlinear_arith)
        requires
            out@.len() == r * row_bytes,
            r == rows,
    ;
    out
}

/// Padding rows and taking them out again gives the rows back: byte `c` of
/// row `r` of the padded layout is byte `c` of row `r` of the data.
pub proof fn law_padding_keeps_rows(data: Seq<u8>, row_bytes: nat, rows: nat, r: int, c: int)
    requires
        0 <= r < rows,
        0 <= c < row_bytes,
        row_bytes * rows <= data.len(),
    ensures
        padded_rows(data, row_bytes, rows)[r * aligned_row_bytes(row_bytes) + c] == data[r * row_bytes + c],
{
    let al = aligned_row_bytes(row_bytes);
    if al != row_bytes {
        assert(al >= row_bytes) by (nonlinear_arith)
            requires
                al == ((row_bytes + 255) / 256) * 256,
        ;
        lemma_fundamental_div_mod_converse(r * al + c, al as int, r, c);
        assert(r * al + c < al * rows) by (nonlinear_arith)
            requires
                0 <= r < rows,
                0 <= c < row_bytes,
                row_bytes <= al,
        ;
    }
}

} // verus!
