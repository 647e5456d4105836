//! Frame renderer: converts a heat field and precompiled tier colors into
//! an escape-coded byte stream, emitting one color escape per run of
//! same-tier cells (escape-sequence coalescing).

use vstd::prelude::*;
use crate::field::HeatField;
use crate::theme::{color_escape, glyph_for, precompile_color_codes, Theme};

verus! {

/// Move the cursor to the top-left corner: `ESC [ 1 ; 1 H`.
pub open spec fn home_seq() -> Seq<u8> {
    seq![27u8, 91, 49, 59, 49, 72]
}

/// Reset graphics attributes: `ESC [ 0 m`.
pub open spec fn reset_seq() -> Seq<u8> {
    seq![27u8, 91, 48, 109]
}

/// Erase to end of line: `ESC [ 0 K`.
pub open spec fn erase_seq() -> Seq<u8> {
    seq![27u8, 91, 48, 75]
}

/// Carriage return and line feed between rows.
pub open spec fn crlf_seq() -> Seq<u8> {
    seq![13u8, 10]
}

/// The color tier of an intensity: fixed thresholds at 4, 9 and 15.
pub open spec fn tier_spec(v: u8) -> int {
    if v <= 4 {
        0
    } else if v <= 9 {
        1
    } else if v <= 15 {
        2
    } else {
        3
    }
}

/// The color tier of an intensity, with its exact boundaries.
pub fn tier(v: u8) -> (t: usize)
    ensures
        t == tier_spec(v),
        t <= 3,
{
    if v <= 4 {
        0
    } else if v <= 9 {
        1
    } else if v <= 15 {
        2
    } else {
        3
    }
}

/// The bytes emitted for the cells of one row from position `i` on, given
/// the tier of the previously drawn cell (`None` at the row start): a color
/// escape only where the tier changes, then the cell's glyph.
pub open spec fn row_cells_bytes(
    row: Seq<u8>,
    codes: Seq<Seq<u8>>,
    use_color: bool,
    i: int,
    last: Option<int>,
) -> Seq<u8>
    decreases row.len() - i,
{
    if i < 0 || i >= row.len() {
        Seq::empty()
    } else {
        let t = tier_spec(row[i]);
        let glyph = seq![glyph_for(row[i])];
        if use_color {
            let esc = if last != Some(t) {
                codes[t]
            } else {
                Seq::<u8>::empty()
            };
            esc + glyph + row_cells_bytes(row, codes, use_color, i + 1, Some(t))
        } else {
            glyph + row_cells_bytes(row, codes, use_color, i + 1, last)
        }
    }
}

/// One full row: its cells (coalesced), a color reset when color is on,
/// erase-to-end-of-line, and a line break unless it is the last row.
pub open spec fn row_bytes(
    row: Seq<u8>,
    codes: Seq<Seq<u8>>,
    use_color: bool,
    is_last: bool,
) -> Seq<u8> {
    row_cells_bytes(row, codes, use_color, 0, None) + (if use_color {
        reset_seq()
    } else {
        Seq::<u8>::empty()
    }) + erase_seq() + (if is_last {
        Seq::<u8>::empty()
    } else {
        crlf_seq()
    })
}

/// The rows of the frame from row `y` down.
pub open spec fn rows_bytes(
    cells: Seq<u8>,
    w: int,
    h: int,
    codes: Seq<Seq<u8>>,
    use_color: bool,
    y: int,
) -> Seq<u8>
    decreases h - y,
{
    if y < 0 || y >= h {
        Seq::empty()
    } else {
        row_bytes(cells.subrange(y * w, y * w + w), codes, use_color, y == h - 1)
            + rows_bytes(cells, w, h, codes, use_color, y + 1)
    }
}

/// The whole frame: home the cursor once, then every row.
pub open spec fn frame_bytes(
    cells: Seq<u8>,
    w: int,
    h: int,
    codes: Seq<Seq<u8>>,
    use_color: bool,
) -> Seq<u8> {
    home_seq() + rows_bytes(cells, w, h, codes, use_color, 0)
}

/// The view of precompiled color codes as byte sequences.
pub open spec fn codes_view(codes: Seq<Vec<u8>>) -> Seq<Seq<u8>> {
    codes.map_values(|v: Vec<u8>| v@)
}

/// The spec-level memo mirroring the renderer's last-tier variable.
pub open spec fn memo_view(last: Option<usize>) -> Option<int> {
    match last {
        Some(p) => Some(p as int),
        None => None,
    }
}

/// How many color escapes the renderer emits for the cells of one row
/// from position `i` on, given the previously drawn cell's tier.
pub open spec fn row_escape_count(row: Seq<u8>, i: int, last: Option<int>) -> int
    decreases row.len() - i,
{
    if i < 0 || i >= row.len() {
        0
    } else {
        let t = tier_spec(row[i]);
        (if last != Some(t) {
            1int
        } else {
            0int
        }) + row_escape_count(row, i + 1, Some(t))
    }
}

/// The number of positions after `i - 1` where a row's tier differs from
/// the previous cell's tier.
pub open spec fn tier_transitions(row: Seq<u8>, i: int) -> int
    decreases row.len() - i,
{
    if i <= 0 || i >= row.len() {
        0
    } else {
        (if tier_spec(row[i]) != tier_spec(row[i - 1]) {
            1int
        } else {
            0int
        }) + tier_transitions(row, i + 1)
    }
}

/// The number of maximal runs of constant tier in a row.
pub open spec fn tier_run_count(row: Seq<u8>) -> int {
    if row.len() == 0 {
        0
    } else {
        1 + tier_transitions(row, 1)
    }
}

proof fn lemma_escapes_from(row: Seq<u8>, i: int)
    requires
        1 <= i <= row.len(),
    ensures
        row_escape_count(row, i, Some(tier_spec(row[i - 1]))) == tier_transitions(row, i),
    decreases row.len() - i,
{
    if i < row.len() {
        lemma_escapes_from(row, i + 1);
    }
}

/// Escape-sequence coalescing: for a row with K maximal runs of constant
/// tier, the renderer emits exactly K color escapes (color enabled),
/// independent of the row's length.
pub proof fn lemma_row_escapes_equal_runs(row: Seq<u8>)
    ensures
        row_escape_count(row, 0, None) == tier_run_count(row),
{
    if row.len() > 0 {
        lemma_escapes_from(row, 1);
    }
}

/// Render one frame into `out` (reusing its allocation): home the cursor,
/// then draw every cell's glyph with per-row coalesced color escapes.
pub fn render(field: &HeatField, codes: &Vec<Vec<u8>>, use_color: bool, out: &mut Vec<u8>)
    requires
        field.wf(),
        codes@.len() == 4,
    ensures
        final(out)@ == frame_bytes(
            field.cells@,
            field.width as int,
            field.height as int,
            codes_view(codes@),
            use_color,
        ),
{
    let w = field.width;
    let h = field.height;
    let len = field.cells.len();
    let ghost cells = field.cells@;
    let ghost cv = codes_view(codes@);
    out.clear();
    out.push(27);
    out.push(91);
    out.push(49);
    out.push(59);
    out.push(49);
    out.push(72);
    proof {
        assert(out@ =~= home_seq());
    }
    let mut y: usize = 0;
    while y < h
        invariant
            field.wf(),
            w == field.width,
            h == field.height,
            cells == field.cells@,
            cv == codes_view(codes@),
            codes@.len() == 4,
            len == cells.len(),
            y <= h,
            out@ + rows_bytes(cells, w as int, h as int, cv, use_color, y as int) =~= frame_bytes(
                cells,
                w as int,
                h as int,
                cv,
                use_color,
            ),
        decreases h - y,
    {
        let ghost out_start = out@;
        proof {
            assert(y as int * w as int + w as int <= w as int * h as int) by (nonlinear_arith)
                requires
                    y < h,
                    w >= 0,
            ;
            assert(cells.len() == w as int * h as int + w as int + 1);
        }
        let row_base = y * w;
        let ghost row = cells.subrange(row_base as int, row_base as int + w as int);
        let mut last: Option<usize> = None;
        let mut x: usize = 0;
        while x < w
            invariant
                field.wf(),
                w == field.width,
                h == field.height,
                cells == field.cells@,
                cv == codes_view(codes@),
                codes@.len() == 4,
                len == cells.len(),
                y < h,
                x <= w,
                row_base == y as int * w as int,
                row_base + w <= cells.len(),
                row =~= cells.subrange(row_base as int, row_base as int + w as int),
                use_color ==> (x == 0 ==> last.is_none()),
                !use_color ==> last.is_none(),
                use_color && x > 0 ==> memo_view(last) == Some(tier_spec(row[x as int - 1])),
                out_start + row_cells_bytes(row, cv, use_color, 0, None) =~= out@
                    + row_cells_bytes(row, cv, use_color, x as int, memo_view(last)),
            decreases w - x,
        {
            let heat = field.cells[row_base + x];
            proof {
                assert(row[x as int] == cells[row_base as int + x as int]);
            }
            let ghost memo0 = memo_view(last);
            let t = tier(heat);
            if use_color {
                let emit = match last {
                    Some(p) => p != t,
                    None => true,
                };
                if emit {
                    out.extend_from_slice(codes[t].as_slice());
                    last = Some(t);
                } else {
                    last = Some(t);
                }
            }
            let g = crate::theme::glyph_byte(heat);
            out.push(g);
            proof {
                let ti = tier_spec(row[x as int]);
                assert(row_cells_bytes(row, cv, use_color, x as int, memo0) == (if use_color {
                    (if memo0 != Some(ti) {
                        cv[ti]
                    } else {
                        Seq::<u8>::empty()
                    }) + seq![glyph_for(row[x as int])] + row_cells_bytes(
                        row,
                        cv,
                        use_color,
                        x as int + 1,
                        Some(ti),
                    )
                } else {
                    seq![glyph_for(row[x as int])] + row_cells_bytes(
                        row,
                        cv,
                        use_color,
                        x as int + 1,
                        memo0,
                    )
                }));
                assert(out_start + row_cells_bytes(row, cv, use_color, 0, None) =~= out@
                    + row_cells_bytes(row, cv, use_color, x as int + 1, memo_view(last)));
            }
            x += 1;
        }
        if use_color {
            out.push(27);
            out.push(91);
            out.push(48);
            out.push(109);
        }
        out.push(27);
        out.push(91);
        out.push(48);
        out.push(75);
        if y + 1 < h {
            out.push(13);
            out.push(10);
        }
        proof {
            assert(out@ =~= out_start + row_bytes(row, cv, use_color, y as int == h as int - 1));
            assert(rows_bytes(cells, w as int, h as int, cv, use_color, y as int) == row_bytes(
                row,
                cv,
                use_color,
                y as int == h as int - 1,
            ) + rows_bytes(cells, w as int, h as int, cv, use_color, y as int + 1));
            assert(out@ + rows_bytes(cells, w as int, h as int, cv, use_color, y as int + 1)
                =~= frame_bytes(cells, w as int, h as int, cv, use_color));
        }
        y += 1;
    }
}

/// The four tier escape codes of a theme, dimmest first.
pub open spec fn theme_codes(th: Theme) -> Seq<Seq<u8>> {
    seq![
        color_escape(th.color(0)),
        color_escape(th.color(1)),
        color_escape(th.color(2)),
        color_escape(th.color(3)),
    ]
}

/// Render one frame straight from a theme (compiling its escape codes on
/// the fly); the pacing-sensitive path precompiles the codes once and
/// calls `render` instead.
pub fn render_frame(field: &HeatField, theme: &Theme, use_color: bool, out: &mut Vec<u8>)
    requires
        field.wf(),
    ensures
        final(out)@ == frame_bytes(
            field.cells@,
            field.width as int,
            field.height as int,
            theme_codes(*theme),
            use_color,
        ),
{
    let codes = precompile_color_codes(theme);
    proof {
        assert(codes_view(codes@) =~~= theme_codes(*theme));
    }
    render(field, &codes, use_color, out)
}

} // verus!
