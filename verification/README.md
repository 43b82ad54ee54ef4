# kyuaru

A QR Code Model 2 encoder with its behaviour stated in contracts and proved
by Verus. It takes text (numeric, alphanumeric or byte mode, chosen from the
text) or raw bytes, picks the smallest version within the requested bounds,
optionally raises the error-correction level, and writes the symbol as one
byte of side length followed by the modules, row-major, one bit per module,
least-significant bit first, a set bit being dark.

Layout:

- `src/lib.rs`: the two entry points `kyuaru_encode_text_utf8` and
  `kyuaru_encode_binary`, their error codes, and the laws about their answers.
- `src/params.rs`: versions, levels, masks and the capacity tables.
- `src/bits.rs`, `src/segment.rs`: bit buffers and data segments.
- `src/encode.rs`: version choice and the data codewords.
- `src/gf.rs`, `src/interleave.rs`: GF(2^8), Reed–Solomon and interleaving.
- `src/qrcode.rs`, `src/patterns.rs`, `src/placement.rs`, `src/mask.rs`,
  `src/penalty.rs`, `src/symbol.rs`: the symbol, its function patterns,
  codeword placement, masks, penalty scoring and mask choice.
- `src/layout.rs`: the size of the data area: the non-function modules number
  exactly the raw data modules, and the codeword zigzag passes them all.
- `src/utf8.rs`: well-formed UTF-8.
- `app/lib.rs`: the C entry points, which turn raw pointers into slices.
