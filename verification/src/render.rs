//! The lines the two kinds of bar draw, as functions of what the bar shows.
use vstd::prelude::*;
use crate::text::{decimal, pad_left, push_char, push_decimal, push_padded, push_repeat, repeat};

verus! {

/// Colour escape: red text.
pub const RED: &'static str = "\u{1b}[49;31m";

/// Colour escape: green text.
pub const GREEN: &'static str = "\u{1b}[49;32m";

/// Colour escape: yellow text.
pub const YELLOW: &'static str = "\u{1b}[49;33m";

/// Colour escape: blue text.
pub const BLUE: &'static str = "\u{1b}[49;34m";

/// Escape that resets the colour.
pub const CLEAR: &'static str = "\u{1b}[0m";

/// Escape that ends a line: clears the rest of it.
pub const END_LINE: &'static str = "\u{1b}[0K\n";

/// Cells in the bar of a boring bar.
pub const BAR_CELLS: usize = 60;

/// Cells lit at a time in the bar of a boring bar without a total.
pub const LOOP_CELLS: usize = 10;

/// Width of the field the name of a boring bar is right-aligned in.
pub const NAME_WIDTH: usize = 15;

/// Glyphs in the spinner of a braille bar.
pub const SPINNER_LEN: usize = 29;

/// Glyphs in the progress scale of a braille bar.
pub const PROGRESS_LEN: usize = 9;

/// `draws + 1`, wrapping to 0 after the largest `usize`.
pub open spec fn next_count(draws: usize) -> usize {
    if draws == usize::MAX {
        0
    } else {
        (draws + 1) as usize
    }
}

/// The progress a bar's shared counter holds after adding `by` to `from`: it wraps around past
/// the largest `usize`.
pub open spec fn wrapped_sum(from: usize, by: usize) -> usize {
    ((from + by) % (usize::MAX as int + 1)) as usize
}

/// The integer nearest to `a / b`, halves rounded up.
pub open spec fn round_half_up(a: nat, b: nat) -> nat {
    (2 * a + b) / (2 * b)
}

/// The integer nearest to `a / b`, halves rounded to the even neighbour.
pub open spec fn round_half_even(a: nat, b: nat) -> nat {
    let q = a / b;
    let r = a % b;
    if 2 * r > b || (2 * r == b && q % 2 == 1) {
        q + 1
    } else {
        q
    }
}

// ---------------------------------------------------------------- boring bar

/// Cells filled in a bar with a known total: the nearest whole number of cells to
/// `60 * current / total`, at most the whole bar. It is computed exactly; a floating-point
/// computation agrees with it except, at most by one cell, for values beyond 2^53.
pub open spec fn filled_cells(current: nat, total: nat) -> nat {
    let r = round_half_up(BAR_CELLS as nat * current, total);
    if r < BAR_CELLS {
        r
    } else {
        BAR_CELLS as nat
    }
}

/// Colour of a bar with a known total: red when aborted, or when finished short of full;
/// green when finished full; blue while running.
pub open spec fn total_colour(aborted: bool, finished: bool, remaining: nat) -> Seq<char> {
    if aborted {
        RED@
    } else if finished {
        if remaining == 0 {
            GREEN@
        } else {
            RED@
        }
    } else {
        BLUE@
    }
}

/// The line of a boring bar with a known total: the name right-aligned, the filled cells as
/// `=` in colour, the rest as `-`, then `current/total`.
pub open spec fn total_line(
    name: Seq<char>,
    total: nat,
    current: nat,
    finished: bool,
    aborted: bool,
) -> Seq<char> {
    let used = filled_cells(current, total);
    let remaining = (BAR_CELLS - used) as nat;
    pad_left(name, NAME_WIDTH as nat) + " "@ + total_colour(aborted, finished, remaining) + repeat(
        "="@,
        used,
    ) + CLEAR@ + repeat("-"@, remaining) + " "@ + decimal(current) + "/"@ + decimal(total)
        + END_LINE@
}

/// Whether cell `i` is lit in a looping bar whose window starts at `start`; the window of ten
/// cells wraps around the end of the bar.
pub open spec fn in_window(start: nat, i: nat) -> bool {
    (start <= i && i < start + LOOP_CELLS) || i + BAR_CELLS < start + LOOP_CELLS
}

/// One cell of a looping bar.
pub open spec fn loop_cell(start: nat, aborted: bool, i: nat) -> Seq<char> {
    if in_window(start, i) {
        (if aborted {
            RED@
        } else {
            BLUE@
        }) + "="@ + CLEAR@
    } else {
        "-"@
    }
}

/// The first `n` cells of a looping bar.
pub open spec fn loop_cells(start: nat, aborted: bool, n: nat) -> Seq<char>
    decreases n,
{
    if n == 0 {
        Seq::empty()
    } else {
        loop_cells(start, aborted, (n - 1) as nat) + loop_cell(start, aborted, (n - 1) as nat)
    }
}

/// The bar of a boring bar without a total: all green when finished (and not aborted), else
/// the window drawn at `start`.
pub open spec fn loop_bar(start: nat, finished: bool, aborted: bool) -> Seq<char> {
    if finished && !aborted {
        GREEN@ + repeat("="@, BAR_CELLS as nat) + CLEAR@
    } else {
        loop_cells(start, aborted, BAR_CELLS as nat)
    }
}

/// The line of a boring bar without a total: the name right-aligned, the looping bar with its
/// window at the number of draws so far (modulo the bar's width), then `current`.
pub open spec fn loop_line(
    name: Seq<char>,
    draws: nat,
    current: nat,
    finished: bool,
    aborted: bool,
) -> Seq<char> {
    pad_left(name, NAME_WIDTH as nat) + " "@ + loop_bar(draws % BAR_CELLS as nat, finished, aborted)
        + " "@ + decimal(current) + END_LINE@
}

/// The line a boring bar draws.
pub open spec fn boring_line(
    name: Seq<char>,
    draws: usize,
    total: usize,
    current: usize,
    finished: bool,
    aborted: bool,
) -> Seq<char> {
    if total != 0 {
        total_line(name, total as nat, current as nat, finished, aborted)
    } else {
        loop_line(name, draws as nat, current as nat, finished, aborted)
    }
}

/// The draw count of a boring bar after a draw: only a looping bar that is not aborted moves on.
pub open spec fn boring_next_draws(draws: usize, total: usize, aborted: bool) -> usize {
    if total == 0 && !aborted {
        next_count(draws)
    } else {
        draws
    }
}

fn filled(current: usize, total: usize) -> (used: usize)
    requires
        total > 0,
    ensures
        used == filled_cells(current as nat, total as nat),
        used <= BAR_CELLS,
{
    let c = current as u128;
    let t = total as u128;
    let r = (120 * c + t) / (2 * t);
    if r < 60 {
        r as usize
    } else {
        BAR_CELLS
    }
}

fn push_loop_bar(buffer: &mut String, start: usize, finished: bool, aborted: bool)
    requires
        start < BAR_CELLS,
    ensures
        final(buffer)@ == old(buffer)@ + loop_bar(start as nat, finished, aborted),
{
    if finished && !aborted {
        buffer.append(GREEN);
        push_repeat(buffer, "=", BAR_CELLS);
        buffer.append(CLEAR);
    } else {
        let mut i: usize = 0;
        while i < BAR_CELLS
            invariant
                i <= BAR_CELLS,
                start < BAR_CELLS,
                buffer@ == old(buffer)@ + loop_cells(start as nat, aborted, i as nat),
            decreases BAR_CELLS - i,
        {
            if (i >= start && i < start + LOOP_CELLS) || (i + BAR_CELLS < start + LOOP_CELLS) {
                buffer.append(if aborted {
                    RED
                } else {
                    BLUE
                });
                buffer.append("=");
                buffer.append(CLEAR);
            } else {
                buffer.append("-");
            }
            i = i + 1;
            assert(buffer@ =~= old(buffer)@ + loop_cells(start as nat, aborted, i as nat));
        }
    }
}

/// The line a boring bar draws, and its draw count after the draw.
pub fn boring_bar_line(
    name: &str,
    draws: usize,
    total: usize,
    current: usize,
    finished: bool,
    aborted: bool,
) -> (r: (String, usize))
    ensures
        r.0@ == boring_line(name@, draws, total, current, finished, aborted),
        r.1 == boring_next_draws(draws, total, aborted),
{
    let mut buffer = String::new();
    push_padded(&mut buffer, name, NAME_WIDTH);
    buffer.append(" ");
    if total != 0 {
        let used = filled(current, total);
        let remaining = BAR_CELLS - used;
        let colour = if aborted {
            RED
        } else if finished {
            if remaining == 0 {
                GREEN
            } else {
                RED
            }
        } else {
            BLUE
        };
        buffer.append(colour);
        push_repeat(&mut buffer, "=", used);
        buffer.append(CLEAR);
        push_repeat(&mut buffer, "-", remaining);
        buffer.append(" ");
        push_decimal(&mut buffer, current as u128);
        buffer.append("/");
        push_decimal(&mut buffer, total as u128);
        buffer.append(END_LINE);
        assert(buffer@ =~= boring_line(name@, draws, total, current, finished, aborted));
        (buffer, draws)
    } else {
        let next = if aborted {
            draws
        } else if draws < usize::MAX {
            draws + 1
        } else {
            0
        };
        push_loop_bar(&mut buffer, draws % BAR_CELLS, finished, aborted);
        buffer.append(" ");
        push_decimal(&mut buffer, current as u128);
        buffer.append(END_LINE);
        assert(buffer@ =~= boring_line(name@, draws, total, current, finished, aborted));
        (buffer, next)
    }
}


// ---------------------------------------------------------------- braille bar

/// Glyph `i` of the spinner of a braille bar without a total.
pub open spec fn spinner_char(i: nat) -> char {
    if i == 0 {
        '\u{2801}'
    } else if i == 1 {
        '\u{2801}'
    } else if i == 2 {
        '\u{2809}'
    } else if i == 3 {
        '\u{2819}'
    } else if i == 4 {
        '\u{281a}'
    } else if i == 5 {
        '\u{2812}'
    } else if i == 6 {
        '\u{2802}'
    } else if i == 7 {
        '\u{2802}'
    } else if i == 8 {
        '\u{2812}'
    } else if i == 9 {
        '\u{2832}'
    } else if i == 10 {
        '\u{2834}'
    } else if i == 11 {
        '\u{2824}'
    } else if i == 12 {
        '\u{2804}'
    } else if i == 13 {
        '\u{2804}'
    } else if i == 14 {
        '\u{2824}'
    } else if i == 15 {
        '\u{2820}'
    } else if i == 16 {
        '\u{2820}'
    } else if i == 17 {
        '\u{2824}'
    } else if i == 18 {
        '\u{2826}'
    } else if i == 19 {
        '\u{2816}'
    } else if i == 20 {
        '\u{2812}'
    } else if i == 21 {
        '\u{2810}'
    } else if i == 22 {
        '\u{2810}'
    } else if i == 23 {
        '\u{2812}'
    } else if i == 24 {
        '\u{2813}'
    } else if i == 25 {
        '\u{280b}'
    } else if i == 26 {
        '\u{2809}'
    } else if i == 27 {
        '\u{2808}'
    } else {
        '\u{2808}'
    }
}

/// Glyph `i` of the progress scale of a braille bar with a total: from empty to full.
pub open spec fn progress_char(i: nat) -> char {
    if i == 0 {
        '\u{0020}'
    } else if i == 1 {
        '\u{2840}'
    } else if i == 2 {
        '\u{28c0}'
    } else if i == 3 {
        '\u{28c4}'
    } else if i == 4 {
        '\u{28e4}'
    } else if i == 5 {
        '\u{28e6}'
    } else if i == 6 {
        '\u{28f6}'
    } else if i == 7 {
        '\u{28f7}'
    } else {
        '\u{28ff}'
    }
}

/// The glyph of a finished braille bar without a total.
pub open spec fn full_glyph() -> char {
    '\u{28ff}'
}

fn spinner_glyph(i: usize) -> (c: char)
    requires
        i < SPINNER_LEN,
    ensures
        c == spinner_char(i as nat),
{
    match i {
        0 => '\u{2801}',
        1 => '\u{2801}',
        2 => '\u{2809}',
        3 => '\u{2819}',
        4 => '\u{281a}',
        5 => '\u{2812}',
        6 => '\u{2802}',
        7 => '\u{2802}',
        8 => '\u{2812}',
        9 => '\u{2832}',
        10 => '\u{2834}',
        11 => '\u{2824}',
        12 => '\u{2804}',
        13 => '\u{2804}',
        14 => '\u{2824}',
        15 => '\u{2820}',
        16 => '\u{2820}',
        17 => '\u{2824}',
        18 => '\u{2826}',
        19 => '\u{2816}',
        20 => '\u{2812}',
        21 => '\u{2810}',
        22 => '\u{2810}',
        23 => '\u{2812}',
        24 => '\u{2813}',
        25 => '\u{280b}',
        26 => '\u{2809}',
        27 => '\u{2808}',
        _ => '\u{2808}',
    }
}

fn progress_glyph_at(i: usize) -> (c: char)
    requires
        i < PROGRESS_LEN,
    ensures
        c == progress_char(i as nat),
{
    match i {
        0 => '\u{0020}',
        1 => '\u{2840}',
        2 => '\u{28c0}',
        3 => '\u{28c4}',
        4 => '\u{28e4}',
        5 => '\u{28e6}',
        6 => '\u{28f6}',
        7 => '\u{28f7}',
        _ => '\u{28ff}',
    }
}

/// Position on the progress scale: `8 * current / total` rounded down, at most the full glyph.
/// Progress beyond the total (which other handles may write at any time) shows the full glyph
/// rather than stopping the program.
pub open spec fn progress_index(current: nat, total: nat) -> nat {
    let ix = ((PROGRESS_LEN - 1) as nat * current) / total;
    if ix < (PROGRESS_LEN - 1) as nat {
        ix
    } else {
        (PROGRESS_LEN - 1) as nat
    }
}

/// The progress glyph of a braille bar with a total: blank before any progress.
pub open spec fn progress_glyph(current: nat, total: nat) -> char {
    if current == 0 {
        ' '
    } else {
        progress_char(progress_index(current, total))
    }
}

/// Colour of a braille bar: red when aborted, green when finished, blue while running.
pub open spec fn braille_colour(aborted: bool, finished: bool) -> Seq<char> {
    if aborted {
        RED@
    } else if finished {
        GREEN@
    } else {
        BLUE@
    }
}

/// The default progress text of a braille bar: the whole percentage, in brackets, rounded
/// exactly (a floating-point computation agrees while `100 * current` stays below 2^52).
pub open spec fn percent_text(current: nat, total: nat) -> Seq<char> {
    "("@ + decimal(round_half_even(100 * current, total)) + "%)"@
}

/// The line of a braille bar without a total: the spinner glyph (the full glyph once finished
/// and not aborted) in colour, then the name.
pub open spec fn spinner_line(
    name: Seq<char>,
    spinner: nat,
    finished: bool,
    aborted: bool,
) -> Seq<char> {
    let glyph = if finished && !aborted {
        full_glyph()
    } else {
        spinner_char(spinner)
    };
    braille_colour(aborted, finished) + seq![glyph] + CLEAR@ + " "@ + name + END_LINE@
}

/// The line of a braille bar with a total: the progress glyph in colour, the name, then the
/// progress text.
pub open spec fn progress_line(
    name: Seq<char>,
    current: nat,
    total: nat,
    finished: bool,
    aborted: bool,
    text: Seq<char>,
) -> Seq<char> {
    braille_colour(aborted, finished) + seq![progress_glyph(current, total)] + CLEAR@ + " "@ + name
        + " "@ + text + END_LINE@
}

/// The line a braille bar draws at spinner position `spinner`; `text` is the progress text a
/// caller supplied, if any.
pub open spec fn braille_line_spec(
    name: Seq<char>,
    spinner: usize,
    current: usize,
    total: usize,
    finished: bool,
    aborted: bool,
    text: Option<Seq<char>>,
) -> Seq<char> {
    if total == 0 {
        spinner_line(name, spinner as nat, finished, aborted)
    } else {
        progress_line(
            name,
            current as nat,
            total as nat,
            finished,
            aborted,
            match text {
                Some(t) => t,
                None => percent_text(current as nat, total as nat),
            },
        )
    }
}

/// The counters of a braille bar after it has seen `current`: a change of `current` counts as
/// a draw, and without a total every second such draw moves the spinner one glyph on.
/// Returns the draw count, the last value seen and the spinner position.
pub open spec fn braille_step(
    draws: usize,
    last_ticker: usize,
    spinner: usize,
    current: usize,
    total: usize,
) -> (usize, usize, usize) {
    let s0 = (spinner % SPINNER_LEN) as usize;
    if last_ticker != current {
        let d = next_count(draws);
        let s = if total == 0 && d % 2 == 0 {
            ((s0 + 1) % (SPINNER_LEN as int)) as usize
        } else {
            s0
        };
        (d, current, s)
    } else {
        (draws, last_ticker, s0)
    }
}

fn percent(current: usize, total: usize) -> (p: u128)
    requires
        total > 0,
    ensures
        p == round_half_even(100 * current as nat, total as nat),
{
    let a = 100 * (current as u128);
    let t = total as u128;
    let q = a / t;
    let r = a % t;
    let rounded = if 2 * r > t || (2 * r == t && q % 2 == 1) {
        q + 1
    } else {
        q
    };
    rounded
}

/// The line a braille bar draws at spinner position `spinner`.
pub fn braille_line(
    name: &str,
    spinner: usize,
    current: usize,
    total: usize,
    finished: bool,
    aborted: bool,
    text: Option<String>,
) -> (s: String)
    requires
        spinner < SPINNER_LEN,
    ensures
        s@ == braille_line_spec(
            name@,
            spinner,
            current,
            total,
            finished,
            aborted,
            match text {
                Some(t) => Some(t@),
                None => None,
            },
        ),
{
    let mut buffer = String::new();
    buffer.append(
        if aborted {
            RED
        } else if finished {
            GREEN
        } else {
            BLUE
        },
    );
    if total == 0 {
        let glyph = if finished && !aborted {
            '\u{28ff}'
        } else {
            spinner_glyph(spinner)
        };
        push_char(&mut buffer, glyph);
        buffer.append(CLEAR);
        buffer.append(" ");
        buffer.append(name);
        buffer.append(END_LINE);
    } else {
        let glyph = if current == 0 {
            ' '
        } else {
            let c = current as u128;
            let ix = (8 * c) / (total as u128);
            progress_glyph_at(if ix < 8 {
                ix as usize
            } else {
                PROGRESS_LEN - 1
            })
        };
        push_char(&mut buffer, glyph);
        buffer.append(CLEAR);
        buffer.append(" ");
        buffer.append(name);
        buffer.append(" ");
        match text {
            Some(t) => buffer.append(t.as_str()),
            None => {
                buffer.append("(");
                push_decimal(&mut buffer, percent(current, total));
                buffer.append("%)");
            },
        }
        buffer.append(END_LINE);
    }
    buffer
}

// ---------------------------------------------------------------- laws

/// A bar with a known total is empty at no progress, full once the progress reaches the total,
/// never more than full, and fills as the progress grows.
pub proof fn law_filled_cells(c1: nat, c2: nat, total: nat)
    requires
        total > 0,
    ensures
        filled_cells(0, total) == 0,
        filled_cells(total, total) == BAR_CELLS,
        filled_cells(c1, total) <= BAR_CELLS,
        c1 <= c2 ==> filled_cells(c1, total) <= filled_cells(c2, total),
        c1 >= total ==> filled_cells(c1, total) == BAR_CELLS,
{
    assert((2 * (60 * 0) + total) / (2 * total) == 0) by (nonlinear_arith)
        requires
            total > 0,
    ;
    assert((2 * (60 * total) + total) / (2 * total) >= 60) by (nonlinear_arith)
        requires
            total > 0,
    ;
    if c1 <= c2 {
        assert((2 * (60 * c1) + total) / (2 * total) <= (2 * (60 * c2) + total) / (2 * total))
            by (nonlinear_arith)
            requires
                total > 0,
                c1 <= c2,
        ;
    }
    if c1 >= total {
        assert((2 * (60 * c1) + total) / (2 * total) >= 60) by (nonlinear_arith)
            requires
                total > 0,
                c1 >= total,
        ;
    }
}

/// The number of lit cells among the first `n` cells of a looping bar.
pub open spec fn lit_count(start: nat, n: nat) -> nat
    decreases n,
{
    if n == 0 {
        0
    } else {
        lit_count(start, (n - 1) as nat) + if in_window(start, (n - 1) as nat) {
            1nat
        } else {
            0nat
        }
    }
}

proof fn lemma_lit_count_closed(start: nat, n: nat)
    requires
        start < BAR_CELLS,
        n <= BAR_CELLS,
    ensures
        lit_count(start, n) == (if n <= start {
            0
        } else if n < start + LOOP_CELLS {
            n - start
        } else {
            LOOP_CELLS as int
        }) + (if start + LOOP_CELLS <= BAR_CELLS {
            0
        } else if n < start + LOOP_CELLS - BAR_CELLS {
            n as int
        } else {
            start + LOOP_CELLS - BAR_CELLS
        }),
    decreases n,
{
    if n > 0 {
        lemma_lit_count_closed(start, (n - 1) as nat);
    }
}

/// Every frame of an unfinished looping bar lights exactly ten of its sixty cells, wherever
/// the window stands.
pub proof fn law_loop_lights_ten_cells(draws: nat)
    ensures
        lit_count(draws % BAR_CELLS as nat, BAR_CELLS as nat) == LOOP_CELLS,
{
    lemma_lit_count_closed(draws % BAR_CELLS as nat, BAR_CELLS as nat);
}

/// Each draw of a looping bar that is not aborted moves its window one cell on, wrapping at
/// the end of the bar; an aborted bar's window stays.
pub proof fn law_loop_window_advances(draws: usize, aborted: bool)
    requires
        draws < usize::MAX,
    ensures
        aborted ==> boring_next_draws(draws, 0, aborted) == draws,
        !aborted ==> boring_next_draws(draws, 0, aborted) % BAR_CELLS == (draws % BAR_CELLS + 1)
            % BAR_CELLS as int,
{
}

/// The progress glyph of a braille bar never goes past the full glyph, never goes back as the
/// progress grows, and is full exactly when the progress has reached the total.
pub proof fn law_progress_glyph(c1: nat, c2: nat, total: nat)
    requires
        total > 0,
    ensures
        progress_index(c1, total) < PROGRESS_LEN,
        c1 <= c2 ==> progress_index(c1, total) <= progress_index(c2, total),
        progress_index(c1, total) == PROGRESS_LEN - 1 <==> c1 >= total,
{
    if c1 <= c2 {
        assert((8 * c1) / total <= (8 * c2) / total) by (nonlinear_arith)
            requires
                total > 0,
                c1 <= c2,
        ;
    }
    if c1 >= total {
        assert((8 * c1) / total >= 8) by (nonlinear_arith)
            requires
                total > 0,
                c1 >= total,
        ;
    } else {
        assert((8 * c1) / total < 8) by (nonlinear_arith)
            requires
                total > 0,
                c1 < total,
        ;
    }
}

/// The percentage of a braille bar is 0 at no progress, 100 at the total, and at most 100
/// up to the total.
pub proof fn law_percent(current: nat, total: nat)
    requires
        total > 0,
    ensures
        round_half_even(100 * 0, total) == 0,
        round_half_even(100 * total, total) == 100,
        current <= total ==> round_half_even(100 * current, total) <= 100,
{
    assert((100 * 0) / total == 0 && (100 * 0) % total == 0) by (nonlinear_arith)
        requires
            total > 0,
    ;
    assert((100 * total) / total == 100 && (100 * total) % total == 0) by (nonlinear_arith)
        requires
            total > 0,
    ;
    if current <= total {
        let a = 100 * current;
        assert(a / total <= 100) by (nonlinear_arith)
            requires
                total > 0,
                a == 100 * current,
                current <= total,
        ;
        if a / total == 100 {
            assert(a % total == 0) by (nonlinear_arith)
                requires
                    total > 0,
                    a == 100 * current,
                    current <= total,
                    a / total == 100,
            ;
        }
    }
}

/// A braille bar without a total moves its spinner one glyph on for every two changes of
/// progress: after two changes it stands one glyph further.
pub proof fn law_spinner_two_ticks(draws: usize, last: usize, spinner: usize, c1: usize, c2: usize)
    requires
        draws < usize::MAX - 1,
        last != c1,
        c1 != c2,
    ensures
        ({
            let first = braille_step(draws, last, spinner, c1, 0);
            let second = braille_step(first.0, first.1, first.2, c2, 0);
            second.2 == (spinner % SPINNER_LEN + 1) % SPINNER_LEN as int
        }),
{
}

/// Ticks add up: in a run of ticks on one bar, the first starting from a fresh bar's `0` and
/// each later one from the progress the one before it left, the tick at position `k` leaves the
/// progress `k + 1` (wrapping past the largest `usize`).
pub proof fn law_ticks_count(steps: Seq<(usize, usize)>)
    requires
        forall|k: int| 0 <= k < steps.len() ==> #[trigger] steps[k].1 == wrapped_sum(steps[k].0, 1),
        steps.len() > 0 ==> steps[0].0 == 0,
        forall|k: int| 0 < k < steps.len() ==> #[trigger] steps[k].0 == steps[k - 1].1,
    ensures
        forall|k: int|
            0 <= k < steps.len() ==> #[trigger] steps[k].1 == (k + 1) % (usize::MAX as int + 1),
    decreases steps.len(),
{
    let m = usize::MAX as int + 1;
    if steps.len() > 0 {
        let init = steps.drop_last();
        let n = steps.len() - 1;
        assert forall|k: int| 0 <= k < init.len() implies #[trigger] init[k].1 == wrapped_sum(
            init[k].0,
            1,
        ) by {
            assert(init[k] == steps[k]);
        }
        assert forall|k: int| 0 < k < init.len() implies #[trigger] init[k].0 == init[k - 1].1 by {
            assert(init[k] == steps[k] && init[k - 1] == steps[k - 1]);
        }
        law_ticks_count(init);
        let found = steps[n].0;
        if n > 0 {
            assert(init[n - 1] == steps[n - 1]);
            assert(init[n - 1].1 == ((n - 1) + 1) % m);
            assert(steps[n].0 == steps[n - 1].1);
        } else {
            assert(0int % m == 0);
        }
        assert(found == n % m);
        assert(steps[n].1 == (found + 1) % m);
        assert((n % m + 1int % m) % m == (n + 1) % m) by {
            vstd::arithmetic::div_mod::lemma_add_mod_noop(n, 1, m);
        }
        assert forall|k: int| 0 <= k < steps.len() implies #[trigger] steps[k].1 == (k + 1) % m by {
            if k < n {
                assert(init[k] == steps[k]);
            }
        }
    }
}

} // verus!
