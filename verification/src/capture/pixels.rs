//! Pixel-layout conversion shared by the capture backends: BGRA to RGBA
//! channel order and packing of pitched rows into a tight buffer.
use vstd::prelude::*;

verus! {

/// Number of bytes that belong to whole 4-byte pixels.
pub open spec fn whole_pixel_bytes(len: nat) -> nat {
    (len - len % 4) as nat
}

/// Byte `i` of a buffer after each whole BGRA pixel is rewritten in RGBA
/// order (channels 0 and 2 exchanged), with the alpha channel forced to 255
/// when `force_opaque`. Bytes after the last whole pixel are untouched.
pub open spec fn rgba_byte(src: Seq<u8>, force_opaque: bool, i: int) -> u8 {
    if i >= whole_pixel_bytes(src.len()) {
        src[i]
    } else if i % 4 == 0 {
        src[i + 2]
    } else if i % 4 == 2 {
        src[i - 2]
    } else if i % 4 == 3 && force_opaque {
        255
    } else {
        src[i]
    }
}

pub open spec fn rgba_from_bgra(src: Seq<u8>, force_opaque: bool) -> Seq<u8> {
    Seq::new(src.len(), |i: int| rgba_byte(src, force_opaque, i))
}

proof fn lemma_pixel_offsets(p: int, n: int)
    requires
        0 <= p,
        4 * p + 4 <= n,
    ensures
        (4 * p) % 4 == 0,
        (4 * p + 1) % 4 == 1,
        (4 * p + 2) % 4 == 2,
        (4 * p + 3) % 4 == 3,
        4 * p + 3 < whole_pixel_bytes(n as nat),
{
    assert((4 * p) % 4 == 0) by (nonlinear_arith);
    assert((4 * p + 1) % 4 == 1) by (nonlinear_arith);
    assert((4 * p + 2) % 4 == 2) by (nonlinear_arith);
    assert((4 * p + 3) % 4 == 3) by (nonlinear_arith);
    assert(n - n % 4 >= 4 * p + 4) by (nonlinear_arith)
        requires
            4 * p + 4 <= n,
            0 <= p,
    {
        assert(n % 4 < 4);
        assert(n == 4 * (n / 4) + n % 4);
        assert(n / 4 >= p + 1);
    }
}

proof fn lemma_pixel_of(i: int, n: int) -> (p: int)
    requires
        0 <= i < whole_pixel_bytes(n as nat),
        0 <= n,
    ensures
        0 <= p,
        4 * p <= i < 4 * p + 4,
        i == 4 * p + i % 4,
        4 * p + 4 <= whole_pixel_bytes(n as nat),
{
    let p = i / 4;
    assert(i == 4 * p + i % 4 && 0 <= i % 4 < 4) by (nonlinear_arith)
        requires
            0 <= i,
            p == i / 4,
    ;
    assert(whole_pixel_bytes(n as nat) % 4 == 0) by (nonlinear_arith)
        requires
            0 <= n,
    {
        assert(n == 4 * (n / 4) + n % 4);
        assert(n - n % 4 == 4 * (n / 4));
    }
    assert(4 * p + 4 <= whole_pixel_bytes(n as nat)) by (nonlinear_arith)
        requires
            0 <= i < whole_pixel_bytes(n as nat),
            whole_pixel_bytes(n as nat) % 4 == 0,
            i == 4 * p + i % 4,
            0 <= i % 4 < 4,
    {
        let w = whole_pixel_bytes(n as nat) as int;
        assert(w == 4 * (w / 4));
    }
    p
}

/// Rewrites every whole BGRA pixel of `bytes` in RGBA order, forcing the
/// alpha channel to 255 when `force_opaque`.
pub fn bgra_to_rgba_in_place(bytes: &mut Vec<u8>, force_opaque: bool)
    ensures
        final(bytes)@ == rgba_from_bgra(old(bytes)@, force_opaque),
        final(bytes)@.len() == old(bytes)@.len(),
        forall|p: int| 0 <= p && 4 * p + 4 <= old(bytes)@.len() ==> {
            &&& #[trigger] final(bytes)@[4 * p] == old(bytes)@[4 * p + 2]
            &&& final(bytes)@[4 * p + 1] == old(bytes)@[4 * p + 1]
            &&& final(bytes)@[4 * p + 2] == old(bytes)@[4 * p]
            &&& final(bytes)@[4 * p + 3] == if force_opaque { 255u8 } else { old(bytes)@[4 * p + 3] }
        },
{
    let ghost src = bytes@;
    let n = bytes.len();
    let pixels = n / 4;
    assert(4 * pixels <= n && n - 4 * pixels == n % 4) by (nonlinear_arith)
        requires
            pixels == n / 4,
    ;
    let mut p: usize = 0;
    while p < pixels
        invariant
            n == bytes@.len(),
            n == src.len(),
            pixels == n / 4,
            4 * pixels <= n,
            n - 4 * pixels == n % 4,
            p <= pixels,
            forall|i: int| 0 <= i < 4 * p ==> #[trigger] bytes@[i] == rgba_byte(src, force_opaque, i),
            forall|i: int| 4 * p <= i < n ==> #[trigger] bytes@[i] == src[i],
        decreases pixels - p,
    {
        let base = 4 * p;
        proof {
            lemma_pixel_offsets(p as int, n as int);
        }
        let blue = bytes[base];
        let red = bytes[base + 2];
        bytes[base] = red;
        bytes[base + 2] = blue;
        if force_opaque {
            bytes[base + 3] = 255;
        }
        p = p + 1;
        assert forall|i: int| 0 <= i < 4 * p implies #[trigger] bytes@[i] == rgba_byte(src, force_opaque, i) by {
            if i >= base {
                assert(i == base || i == base + 1 || i == base + 2 || i == base + 3);
            }
        }
    }
    assert(bytes@ =~= rgba_from_bgra(src, force_opaque)) by {
        assert forall|i: int| 0 <= i < n implies #[trigger] bytes@[i] == rgba_byte(src, force_opaque, i) by {
            if i >= 4 * pixels {
                assert(i >= whole_pixel_bytes(n as nat));
            }
        }
    }
    assert forall|q: int| 0 <= q && 4 * q + 4 <= src.len() implies {
        &&& #[trigger] bytes@[4 * q] == src[4 * q + 2]
        &&& bytes@[4 * q + 1] == src[4 * q + 1]
        &&& bytes@[4 * q + 2] == src[4 * q]
        &&& bytes@[4 * q + 3] == if force_opaque { 255u8 } else { src[4 * q + 3] }
    } by {
        lemma_every_pixel_is_swizzled(src, force_opaque, q);
    }
}

/// Exchanging channels 0 and 2 twice gives the same buffer back.
pub proof fn lemma_channel_swap_is_involution(src: Seq<u8>)
    ensures
        rgba_from_bgra(rgba_from_bgra(src, false), false) =~= src,
{
    let once = rgba_from_bgra(src, false);
    assert forall|i: int| 0 <= i < src.len() implies #[trigger] rgba_from_bgra(once, false)[i] == src[i] by {
        if i < whole_pixel_bytes(src.len()) {
            let p = lemma_pixel_of(i, src.len() as int);
            lemma_pixel_offsets(p, whole_pixel_bytes(src.len()) as int);
            assert(i == 4 * p || i == 4 * p + 1 || i == 4 * p + 2 || i == 4 * p + 3);
        }
    }
}

/// Forcing the alpha channel leaves every pixel opaque.
pub proof fn lemma_forced_alpha_is_opaque(src: Seq<u8>, p: int)
    requires
        0 <= p,
        4 * p + 4 <= src.len(),
    ensures
        rgba_from_bgra(src, true)[4 * p + 3] == 255,
        rgba_from_bgra(src, true)[4 * p] == src[4 * p + 2],
        rgba_from_bgra(src, true)[4 * p + 1] == src[4 * p + 1],
        rgba_from_bgra(src, true)[4 * p + 2] == src[4 * p],
{
    lemma_pixel_offsets(p, src.len() as int);
}

/// Every whole pixel has its red and blue channels exchanged and its green
/// channel kept, whatever its alpha; its alpha is 255 when `force_opaque` and
/// kept otherwise. Bytes after the last whole pixel are kept, and the length
/// does not change.
pub proof fn lemma_every_pixel_is_swizzled(src: Seq<u8>, force_opaque: bool, p: int)
    requires
        0 <= p,
        4 * p + 4 <= src.len(),
    ensures
        rgba_from_bgra(src, force_opaque).len() == src.len(),
        rgba_from_bgra(src, force_opaque)[4 * p] == src[4 * p + 2],
        rgba_from_bgra(src, force_opaque)[4 * p + 1] == src[4 * p + 1],
        rgba_from_bgra(src, force_opaque)[4 * p + 2] == src[4 * p],
        rgba_from_bgra(src, force_opaque)[4 * p + 3] == (if force_opaque { 255u8 } else { src[4 * p + 3] }),
{
    lemma_pixel_offsets(p, src.len() as int);
}

/// Bytes after the last whole pixel are left as they are.
pub proof fn lemma_trailing_bytes_are_kept(src: Seq<u8>, force_opaque: bool, i: int)
    requires
        4 * (src.len() / 4) <= i < src.len(),
    ensures
        rgba_from_bgra(src, force_opaque)[i] == src[i],
{
    let n = src.len() as int;
    assert(n - n % 4 == 4 * (n / 4)) by (nonlinear_arith)
        requires
            0 <= n,
    {
        assert(n == 4 * (n / 4) + n % 4);
    }
}

/// The first `rows` rows of `row_bytes` bytes each, read from a buffer whose
/// rows start `pitch` bytes apart, laid end to end.
pub open spec fn packed_rows(src: Seq<u8>, pitch: nat, row_bytes: nat, rows: nat) -> Seq<u8>
    decreases rows,
{
    if rows == 0 {
        Seq::empty()
    } else {
        let start = (rows - 1) * pitch;
        packed_rows(src, pitch, row_bytes, (rows - 1) as nat) + src.subrange(start as int, (start + row_bytes) as int)
    }
}

/// Every requested row lies inside the source buffer.
pub open spec fn rows_fit(len: nat, pitch: nat, row_bytes: nat, rows: nat) -> bool {
    rows == 0 || (rows - 1) * pitch + row_bytes <= len
}

proof fn lemma_rows_fit_fewer(len: nat, pitch: nat, row_bytes: nat, rows: nat, fewer: nat)
    requires
        rows_fit(len, pitch, row_bytes, rows),
        fewer <= rows,
    ensures
        rows_fit(len, pitch, row_bytes, fewer),
{
    if fewer > 0 {
        assert((fewer - 1) * pitch <= (rows - 1) * pitch) by (nonlinear_arith)
            requires
                1 <= fewer <= rows,
        ;
    }
}

/// Byte `j` of row `r` of the packed buffer is byte `j` of row `r` of the
/// source.
pub proof fn lemma_packed_rows_index(src: Seq<u8>, pitch: nat, row_bytes: nat, rows: nat, r: nat, j: nat)
    requires
        rows_fit(src.len(), pitch, row_bytes, rows),
        r < rows,
        j < row_bytes,
    ensures
        packed_rows(src, pitch, row_bytes, rows).len() == rows * row_bytes,
        r * row_bytes + j < rows * row_bytes,
        packed_rows(src, pitch, row_bytes, rows)[(r * row_bytes + j) as int] == src[(r * pitch + j) as int],
    decreases rows,
{
    lemma_packed_rows_len(src, pitch, row_bytes, rows);
    let prev = (rows - 1) as nat;
    lemma_rows_fit_fewer(src.len(), pitch, row_bytes, rows, prev);
    lemma_packed_rows_len(src, pitch, row_bytes, prev);
    assert(prev * row_bytes + row_bytes == rows * row_bytes) by (nonlinear_arith)
        requires
            prev + 1 == rows,
    ;
    assert(r * row_bytes + j < rows * row_bytes) by (nonlinear_arith)
        requires
            r < rows,
            j < row_bytes,
    ;
    if r < prev {
        lemma_packed_rows_index(src, pitch, row_bytes, prev, r, j);
        assert(r * row_bytes + j < prev * row_bytes);
    } else {
        assert(r == prev);
    }
}

proof fn lemma_packed_rows_len(src: Seq<u8>, pitch: nat, row_bytes: nat, rows: nat)
    requires
        rows_fit(src.len(), pitch, row_bytes, rows),
    ensures
        packed_rows(src, pitch, row_bytes, rows).len() == rows * row_bytes,
    decreases rows,
{
    if rows > 0 {
        let prev = (rows - 1) as nat;
        lemma_rows_fit_fewer(src.len(), pitch, row_bytes, rows, prev);
        lemma_packed_rows_len(src, pitch, row_bytes, prev);
        assert(prev * row_bytes + row_bytes == rows * row_bytes) by (nonlinear_arith)
            requires
                prev + 1 == rows,
        ;
        let start = prev * pitch;
        assert(start + row_bytes <= src.len());
        assert(src.subrange(start as int, (start + row_bytes) as int).len() == row_bytes);
        assert(packed_rows(src, pitch, row_bytes, rows) == packed_rows(src, pitch, row_bytes, prev)
            + src.subrange(start as int, (start + row_bytes) as int));
    } else {
        assert(rows * row_bytes == 0) by (nonlinear_arith)
            requires
                rows == 0,
        ;
    }
}

/// When rows are already tightly packed, packing keeps the leading rows of
/// the buffer as they are.
pub proof fn lemma_tight_rows_are_a_prefix(src: Seq<u8>, row_bytes: nat, rows: nat)
    requires
        rows * row_bytes <= src.len(),
    ensures
        packed_rows(src, row_bytes, row_bytes, rows) =~= src.take((rows * row_bytes) as int),
    decreases rows,
{
    if rows > 0 {
        let prev = (rows - 1) as nat;
        assert(prev * row_bytes + row_bytes == rows * row_bytes) by (nonlinear_arith)
            requires
                prev + 1 == rows,
        ;
        lemma_tight_rows_are_a_prefix(src, row_bytes, prev);
        let start = prev * row_bytes;
        assert(packed_rows(src, row_bytes, row_bytes, rows) == packed_rows(src, row_bytes, row_bytes, prev)
            + src.subrange(start as int, (start + row_bytes) as int));
        assert(src.take(start as int) + src.subrange(start as int, (start + row_bytes) as int) =~= src.take(
            (rows * row_bytes) as int,
        ));
    } else {
        assert(rows * row_bytes == 0) by (nonlinear_arith)
            requires
                rows == 0,
        ;
        assert(src.take(0) =~= Seq::<u8>::empty());
    }
}

/// Copies `rows` rows of `row_bytes` bytes from a buffer whose rows start
/// `pitch` bytes apart into a tightly packed buffer.
pub fn pack_rows(src: &[u8], pitch: usize, row_bytes: usize, rows: usize) -> (out: Vec<u8>)
    requires
        rows_fit(src@.len(), pitch as nat, row_bytes as nat, rows as nat),
        rows * row_bytes <= usize::MAX,
    ensures
        out@ == packed_rows(src@, pitch as nat, row_bytes as nat, rows as nat),
        out@.len() == rows * row_bytes,
{
    let mut out: Vec<u8> = Vec::new();
    let len = src.len();
    let mut r: usize = 0;
    while r < rows
        invariant
            len == src@.len(),
            r <= rows,
            rows_fit(src@.len(), pitch as nat, row_bytes as nat, rows as nat),
            rows * row_bytes <= usize::MAX,
            out@ == packed_rows(src@, pitch as nat, row_bytes as nat, r as nat),
        decreases rows - r,
    {
        proof {
            lemma_rows_fit_fewer(src@.len(), pitch as nat, row_bytes as nat, rows as nat, (r + 1) as nat);
            assert(r * pitch + row_bytes <= src@.len());
        }
        let start = r * pitch;
        let ghost before = out@;
        let mut j: usize = 0;
        while j < row_bytes
            invariant
                len == src@.len(),
                j <= row_bytes,
                start == r * pitch,
                start + row_bytes <= src@.len(),
                out@ == before + src@.subrange(start as int, start + j),
            decreases row_bytes - j,
        {
            out.push(src[start + j]);
            j = j + 1;
            assert(out@ =~= before + src@.subrange(start as int, start + j));
        }
        r = r + 1;
        assert(out@ == packed_rows(src@, pitch as nat, row_bytes as nat, r as nat));
    }
    proof {
        lemma_packed_rows_len(src@, pitch as nat, row_bytes as nat, rows as nat);
    }
    out
}

} // verus!
