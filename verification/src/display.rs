//! Text layout for the terminal: sizes, bars, table rows, boxed headers and
//! badges. Colors are applied by the application when it prints.

use vstd::prelude::*;
use crate::text::{digit_value, digits_value, is_digit, string_views, unsigned_digits, unsigned_value};
use crate::types::{CleanupTarget, CleanupTargetView, ThreatLevel};

verus! {

// ── Numbers ──────────────────────────────────────────────────────────────

pub open spec fn digit_char(d: nat) -> char {
    if d == 0 {
        '0'
    } else if d == 1 {
        '1'
    } else if d == 2 {
        '2'
    } else if d == 3 {
        '3'
    } else if d == 4 {
        '4'
    } else if d == 5 {
        '5'
    } else if d == 6 {
        '6'
    } else if d == 7 {
        '7'
    } else if d == 8 {
        '8'
    } else {
        '9'
    }
}

/// The decimal digits of `n`, without leading zeros.
pub open spec fn decimal_text(n: nat) -> Seq<char>
    decreases n,
{
    if n < 10 {
        seq![digit_char(n)]
    } else {
        decimal_text(n / 10).push(digit_char(n % 10))
    }
}

fn digit_str(d: u64) -> (s: &'static str)
    requires
        d < 10,
    ensures
        s@ == seq![digit_char(d as nat)],
{
    proof {
        reveal_strlit("0");
        reveal_strlit("1");
        reveal_strlit("2");
        reveal_strlit("3");
        reveal_strlit("4");
        reveal_strlit("5");
        reveal_strlit("6");
        reveal_strlit("7");
        reveal_strlit("8");
        reveal_strlit("9");
    }
    if d == 0 {
        "0"
    } else if d == 1 {
        "1"
    } else if d == 2 {
        "2"
    } else if d == 3 {
        "3"
    } else if d == 4 {
        "4"
    } else if d == 5 {
        "5"
    } else if d == 6 {
        "6"
    } else if d == 7 {
        "7"
    } else if d == 8 {
        "8"
    } else {
        "9"
    }
}

/// `n` written in decimal.
pub fn decimal_string(n: u64) -> (s: String)
    ensures
        s@ == decimal_text(n as nat),
    decreases n,
{
    if n < 10 {
        String::from_str(digit_str(n))
    } else {
        let mut s = decimal_string(n / 10);
        s.append(digit_str(n % 10));
        s
    }
}

/// Reading back a number written in decimal gives the number.
pub proof fn lemma_decimal_text_reads_back(n: nat)
    ensures
        unsigned_value(decimal_text(n)) == Some(n),
        forall|i: int| 0 <= i < decimal_text(n).len() ==> is_digit(#[trigger] decimal_text(n)[i]),
    decreases n,
{
    let s = decimal_text(n);
    if n >= 10 {
        lemma_decimal_text_reads_back(n / 10);
        let t = decimal_text(n / 10);
        assert(s.drop_last() =~= t);
        assert forall|i: int| 0 <= i < s.len() implies is_digit(#[trigger] s[i]) by {
            if i < t.len() {
                assert(s[i] == t[i]);
            }
        }
        assert(unsigned_digits(t) == t);
        assert(digits_value(t) == n / 10);
        assert(s.last() == digit_char(n % 10));
        assert(digit_value(digit_char(n % 10)) == n % 10);
        assert(digits_value(s) == (n / 10) * 10 + n % 10);
        assert((n / 10) * 10 + n % 10 == n);
    } else {
        assert(s.drop_last() =~= Seq::<char>::empty());
        assert(digits_value(s.drop_last()) == 0);
        assert(digit_value(digit_char(n)) == n);
    }
    assert(s[0] != '+');
    assert(unsigned_digits(s) == s);
    assert(digits_value(s) == n);
    assert(forall|i: int| 0 <= i < s.len() ==> is_digit(#[trigger] s[i]));
    assert(s.len() > 0);
}

/// `n` written in decimal, with a leading `-` when negative.
pub open spec fn signed_decimal_text(n: int) -> Seq<char> {
    if n < 0 {
        "-"@ + decimal_text((-n) as nat)
    } else {
        decimal_text(n as nat)
    }
}

/// `n` written in decimal, with a leading `-` when negative.
pub fn signed_decimal_string(n: i32) -> (s: String)
    ensures
        s@ == signed_decimal_text(n as int),
{
    if n < 0 {
        let magnitude: i64 = -(n as i64);
        String::from_str("-").concat(decimal_string(magnitude as u64).as_str())
    } else {
        decimal_string(n as u64)
    }
}

// ── Sizes ────────────────────────────────────────────────────────────────

/// The text that the `humansize` crate gives a byte count in its binary
/// style (`1023 B`, `1 KiB`, `1.50 KiB`, ...).
pub uninterp spec fn binary_size_text(bytes: u64) -> Seq<char>;

/// Calls `humansize::format_size` with the `BINARY` options. The result is
/// named [`binary_size_text`]; below 1024 bytes it is the byte count
/// followed by ` B` (whole values are printed without decimals and the
/// unit of the first scale is `B`). Larger values, which the crate scales
/// and rounds in floating point, are not spelled out.
#[verifier::external_body]
fn format_size_binary(bytes: u64) -> (s: String)
    ensures
        s@ == binary_size_text(bytes),
        bytes < 1024 ==> s@ == decimal_text(bytes as nat) + " B"@,
{
    humansize::format_size(bytes, humansize::BINARY)
}

/// A byte count in human readable binary units.
pub fn fmt_size(bytes: u64) -> (s: String)
    ensures
        s@ == binary_size_text(bytes),
        bytes < 1024 ==> s@ == decimal_text(bytes as nat) + " B"@,
{
    format_size_binary(bytes)
}

/// How alarming a size is: more than 10 GiB is large, more than 1 GiB
/// moderate.
#[derive(Debug, Clone, Copy, PartialEq, Eq, Structural)]
pub enum SizeTone {
    Large,
    Moderate,
    Small,
}

pub open spec fn tone_for(bytes: u64) -> SizeTone {
    if bytes > 10 * 1024 * 1024 * 1024 {
        SizeTone::Large
    } else if bytes > 1024 * 1024 * 1024 {
        SizeTone::Moderate
    } else {
        SizeTone::Small
    }
}

/// The tone in which a size is shown (red, yellow or green).
pub fn size_tone(bytes: u64) -> (t: SizeTone)
    ensures
        t == tone_for(bytes),
{
    if bytes > 10 * 1024 * 1024 * 1024 {
        SizeTone::Large
    } else if bytes > 1024 * 1024 * 1024 {
        SizeTone::Moderate
    } else {
        SizeTone::Small
    }
}

// ── Repetition and padding ───────────────────────────────────────────────

/// `n` copies of `c`.
pub open spec fn repeated(c: char, n: nat) -> Seq<char> {
    Seq::new(n, |i: int| c)
}

/// Appends `n` copies of the one-character string `unit`.
fn append_repeated(s: &mut String, unit: &str, n: usize)
    requires
        unit@.len() == 1,
    ensures
        final(s)@ == old(s)@ + repeated(unit@[0], n as nat),
{
    let mut k: usize = 0;
    while k < n
        invariant
            k <= n,
            unit@.len() == 1,
            s@ == old(s)@ + repeated(unit@[0], k as nat),
        decreases n - k,
    {
        s.append(unit);
        assert(repeated(unit@[0], (k + 1) as nat) =~= repeated(unit@[0], k as nat) + unit@);
        k = k + 1;
    }
}

/// `s` followed by spaces up to `width` characters, as `{:<width$}`
/// formats it; longer strings are left as they are.
pub open spec fn padded_right(s: Seq<char>, width: nat) -> Seq<char> {
    if s.len() < width {
        s + repeated(' ', (width - s.len()) as nat)
    } else {
        s
    }
}

/// Spaces up to `width` characters followed by `s`, as `{:>width$}`
/// formats it; longer strings are left as they are.
pub open spec fn padded_left(s: Seq<char>, width: nat) -> Seq<char> {
    if s.len() < width {
        repeated(' ', (width - s.len()) as nat) + s
    } else {
        s
    }
}

/// `s` centered in `width` characters, as `{:^width$}` formats it: the
/// extra space on the left is half the padding, rounded down.
pub open spec fn centered(s: Seq<char>, width: nat) -> Seq<char> {
    if s.len() < width {
        let pad = (width - s.len()) as nat;
        repeated(' ', pad / 2) + s + repeated(' ', (pad - pad / 2) as nat)
    } else {
        s
    }
}

/// Pads `s` with spaces on the right to `width` characters.
pub fn pad_right(s: &str, width: usize) -> (r: String)
    ensures
        r@ == padded_right(s@, width as nat),
{
    proof {
        reveal_strlit(" ");
    }
    let len = s.unicode_len();
    let mut r = String::from_str(s);
    if len < width {
        append_repeated(&mut r, " ", width - len);
    }
    r
}

/// Pads `s` with spaces on the left to `width` characters.
pub fn pad_left(s: &str, width: usize) -> (r: String)
    ensures
        r@ == padded_left(s@, width as nat),
{
    proof {
        reveal_strlit(" ");
    }
    let len = s.unicode_len();
    if len < width {
        let mut r = String::new();
        append_repeated(&mut r, " ", width - len);
        r.append(s);
        r
    } else {
        String::from_str(s)
    }
}

/// Centers `s` in `width` characters.
pub fn pad_center(s: &str, width: usize) -> (r: String)
    ensures
        r@ == centered(s@, width as nat),
{
    proof {
        reveal_strlit(" ");
    }
    let len = s.unicode_len();
    if len < width {
        let pad = width - len;
        let mut r = String::new();
        append_repeated(&mut r, " ", pad / 2);
        r.append(s);
        append_repeated(&mut r, " ", pad - pad / 2);
        assert(r@ =~= centered(s@, width as nat));
        r
    } else {
        String::from_str(s)
    }
}

// ── Progress bars ────────────────────────────────────────────────────────

/// A bar of `width` cells, the first `filled` of them full.
pub open spec fn bar_text(filled: nat, width: nat) -> Seq<char> {
    repeated('█', filled) + repeated('░', if filled < width {
        (width - filled) as nat
    } else {
        0
    })
}

/// The visual progress bar: `filled` full cells followed by empty cells up
/// to `width`. The application rounds a percentage to the number of full
/// cells.
pub fn progress_bar_cells(filled: usize, width: usize) -> (bar: String)
    ensures
        bar@ == bar_text(filled as nat, width as nat),
{
    proof {
        reveal_strlit("█");
        reveal_strlit("░");
    }
    let mut bar = String::new();
    append_repeated(&mut bar, "█", filled);
    let empty = if filled < width {
        width - filled
    } else {
        0
    };
    append_repeated(&mut bar, "░", empty);
    assert(bar@ =~= bar_text(filled as nat, width as nat));
    bar
}

/// The shape of padded text: it is `width` characters long (or `s`
/// unchanged when `s` is longer), `s` stands at the left, at the right, or
/// after half the padding, and every other character is a space.
pub proof fn lemma_padding_shape(s: Seq<char>, width: nat)
    ensures
        padded_right(s, width).len() == if s.len() < width { width } else { s.len() },
        padded_right(s, width).take(s.len() as int) == s,
        forall|k: int|
            s.len() <= k < padded_right(s, width).len() ==> #[trigger] padded_right(s, width)[k] == ' ',
        padded_left(s, width).len() == if s.len() < width { width } else { s.len() },
        padded_left(s, width).skip(padded_left(s, width).len() - s.len()) == s,
        forall|k: int|
            0 <= k < padded_left(s, width).len() - s.len() ==> #[trigger] padded_left(s, width)[k] == ' ',
        centered(s, width).len() == if s.len() < width { width } else { s.len() },
        ({
            let left = if s.len() < width { (width - s.len()) / 2 } else { 0 };
            centered(s, width).subrange(left, left + s.len()) == s
        }),
{
    let pr = padded_right(s, width);
    assert(pr.take(s.len() as int) =~= s);
    let pl = padded_left(s, width);
    assert(pl.skip(pl.len() - s.len()) =~= s);
    let left = if s.len() < width { (width - s.len()) / 2 } else { 0 };
    assert(centered(s, width).subrange(left, left + s.len()) =~= s);
}

/// A progress bar has `width` cells (or `filled`, when more cells are
/// filled than fit): the first `filled` are full and the rest empty.
pub proof fn lemma_bar_shape(filled: nat, width: nat)
    ensures
        bar_text(filled, width).len() == if filled < width { width } else { filled },
        forall|k: int| 0 <= k < filled ==> #[trigger] bar_text(filled, width)[k] == '█',
        forall|k: int|
            filled <= k < bar_text(filled, width).len() ==> #[trigger] bar_text(filled, width)[k] == '░',
{
}

// ── Tables ───────────────────────────────────────────────────────────────

/// The pieces joined with `sep` between neighbours.
pub open spec fn joined_text(pieces: Seq<Seq<char>>, sep: Seq<char>) -> Seq<char>
    decreases pieces.len(),
{
    if pieces.len() == 0 {
        seq![]
    } else if pieces.len() == 1 {
        pieces[0]
    } else {
        joined_text(pieces.drop_last(), sep) + sep + pieces.last()
    }
}

/// Joins the pieces with `sep` between neighbours.
fn join(pieces: &Vec<String>, sep: &str) -> (r: String)
    ensures
        r@ == joined_text(string_views(pieces@), sep@),
{
    let ghost views = string_views(pieces@);
    let mut r = String::new();
    let mut i: usize = 0;
    assert(views.take(0) =~= Seq::<Seq<char>>::empty());
    while i < pieces.len()
        invariant
            i <= pieces.len(),
            views == string_views(pieces@),
            r@ == joined_text(views.take(i as int), sep@),
        decreases pieces.len() - i,
    {
        assert(views.take(i + 1).drop_last() =~= views.take(i as int));
        assert(views.take(i + 1).last() == pieces@[i as int]@);
        if i > 0 {
            r.append(sep);
        } else {
            assert(r@ =~= Seq::<char>::empty());
        }
        r.append(pieces[i].as_str());
        i = i + 1;
    }
    assert(views.take(i as int) =~= views);
    r
}

/// The cells of a table line, each padded to its column width; cells or
/// widths beyond the shorter of the two lists are dropped.
pub open spec fn padded_cells(cells: Seq<Seq<char>>, widths: Seq<usize>) -> Seq<Seq<char>> {
    let n = if cells.len() < widths.len() {
        cells.len()
    } else {
        widths.len()
    };
    Seq::new(n, |i: int| padded_right(cells[i], widths[i] as nat))
}

/// A table line: the cells padded to their column widths and separated by
/// two spaces.
pub fn table_row(cells: &Vec<String>, widths: &Vec<usize>) -> (line: String)
    ensures
        line@ == joined_text(padded_cells(string_views(cells@), widths@), "  "@),
{
    let n = if cells.len() < widths.len() {
        cells.len()
    } else {
        widths.len()
    };
    let mut padded: Vec<String> = Vec::new();
    let mut i: usize = 0;
    while i < n
        invariant
            i <= n,
            n <= cells.len(),
            n <= widths.len(),
            padded@.len() == i,
            forall|k: int|
                0 <= k < i ==> #[trigger] padded@[k]@ == padded_right(cells@[k]@, widths@[k] as nat),
        decreases n - i,
    {
        padded.push(pad_right(cells[i].as_str(), widths[i]));
        i = i + 1;
    }
    assert(string_views(padded@) =~= padded_cells(string_views(cells@), widths@));
    join(&padded, "  ")
}

/// The rule under a table header: a run of `─` per column, columns joined
/// by `──`.
pub open spec fn separator_text(widths: Seq<usize>) -> Seq<char> {
    joined_text(Seq::new(widths.len(), |i: int| repeated('─', widths[i] as nat)), "──"@)
}

/// The rule drawn under a table header.
pub fn table_separator(widths: &Vec<usize>) -> (line: String)
    ensures
        line@ == separator_text(widths@),
{
    let mut parts: Vec<String> = Vec::new();
    let mut i: usize = 0;
    while i < widths.len()
        invariant
            i <= widths.len(),
            parts@.len() == i,
            forall|k: int| 0 <= k < i ==> #[trigger] parts@[k]@ == repeated('─', widths@[k] as nat),
        decreases widths.len() - i,
    {
        proof {
            reveal_strlit("─");
        }
        let mut part = String::new();
        append_repeated(&mut part, "─", widths[i]);
        assert(part@ =~= repeated('─', widths@[i as int] as nat));
        parts.push(part);
        i = i + 1;
    }
    assert(string_views(parts@) =~= Seq::new(
        widths@.len(),
        |k: int| repeated('─', widths@[k] as nat),
    ));
    join(&parts, "──")
}

// ── Section headers ──────────────────────────────────────────────────────

/// The inner width of a section header box.
pub const HEADER_WIDTH: usize = 54;

/// The text inside a section header box.
pub open spec fn header_inner(icon: Seq<char>, title: Seq<char>) -> Seq<char> {
    "  "@ + icon + " "@ + title
}

/// The three lines of a section header box. The title line is padded by
/// the UTF-8 length of its text, in bytes (as `str::len` reports it).
pub open spec fn header_text(icon: Seq<char>, title: Seq<char>) -> Seq<Seq<char>> {
    let inner = header_inner(icon, title);
    let bytes = vstd::utf8::encode_utf8(inner).len() as usize;
    let padding: nat = if bytes < HEADER_WIDTH {
        (HEADER_WIDTH - bytes) as nat
    } else {
        0
    };
    seq![
        "┏"@ + repeated('━', HEADER_WIDTH as nat) + "┓"@,
        "┃"@ + inner + repeated(' ', padding) + "┃"@,
        "┗"@ + repeated('━', HEADER_WIDTH as nat) + "┛"@,
    ]
}

/// The lines of the box that opens a section.
pub fn header_lines(icon: &str, title: &str) -> (lines: Vec<String>)
    ensures
        string_views(lines@) == header_text(icon@, title@),
{
    proof {
        reveal_strlit("━");
        reveal_strlit(" ");
    }
    let inner = String::from_str("  ").concat(icon).concat(" ").concat(title);
    let bytes = inner.as_str().len();
    let padding = if bytes < HEADER_WIDTH {
        HEADER_WIDTH - bytes
    } else {
        0
    };
    let mut top = String::from_str("┏");
    append_repeated(&mut top, "━", HEADER_WIDTH);
    top.append("┓");
    let mut middle = String::from_str("┃").concat(inner.as_str());
    append_repeated(&mut middle, " ", padding);
    middle.append("┃");
    let mut bottom = String::from_str("┗");
    append_repeated(&mut bottom, "━", HEADER_WIDTH);
    bottom.append("┛");
    let mut lines: Vec<String> = Vec::new();
    lines.push(top);
    lines.push(middle);
    lines.push(bottom);
    assert(string_views(lines@) =~= header_text(icon@, title@));
    lines
}

// ── Health score card ────────────────────────────────────────────────────

/// The color of a health score card.
#[derive(Debug, Clone, Copy, PartialEq, Eq, Structural)]
pub enum ScoreColor {
    Green,
    Yellow,
    Red,
}

/// The color and emoji of a health score: green from 70, yellow from 50,
/// red below.
pub open spec fn score_style(score: i32) -> (ScoreColor, Seq<char>) {
    if 90 <= score <= 100 {
        (ScoreColor::Green, "🟢"@)
    } else if 70 <= score <= 89 {
        (ScoreColor::Green, "🟡"@)
    } else if 50 <= score <= 69 {
        (ScoreColor::Yellow, "🟠"@)
    } else if 30 <= score <= 49 {
        (ScoreColor::Red, "🔴"@)
    } else {
        (ScoreColor::Red, "💀"@)
    }
}

/// The inner width of the health score card.
pub const CARD_WIDTH: usize = 44;

/// The lines of the health score card.
pub open spec fn health_card_text(score: i32, rating: Seq<char>) -> Seq<Seq<char>> {
    seq![
        "╔"@ + repeated('═', CARD_WIDTH as nat) + "╗"@,
        "║"@ + centered("SYSTEM HEALTH SCORE"@, CARD_WIDTH as nat) + "║"@,
        "║"@ + centered(signed_decimal_text(score as int) + "/100"@, CARD_WIDTH as nat) + "║"@,
        "║"@ + centered(score_style(score).1 + " "@ + rating, CARD_WIDTH as nat) + "║"@,
        "╚"@ + repeated('═', CARD_WIDTH as nat) + "╝"@,
    ]
}

/// The health score card and the color it is drawn in.
pub fn health_card(score: i32, rating: &str) -> (card: (ScoreColor, Vec<String>))
    ensures
        card.0 == score_style(score).0,
        string_views(card.1@) == health_card_text(score, rating@),
{
    proof {
        reveal_strlit("═");
    }
    let (color, emoji) = if 90 <= score && score <= 100 {
        (ScoreColor::Green, "🟢")
    } else if 70 <= score && score <= 89 {
        (ScoreColor::Green, "🟡")
    } else if 50 <= score && score <= 69 {
        (ScoreColor::Yellow, "🟠")
    } else if 30 <= score && score <= 49 {
        (ScoreColor::Red, "🔴")
    } else {
        (ScoreColor::Red, "💀")
    };
    let mut top = String::from_str("╔");
    append_repeated(&mut top, "═", CARD_WIDTH);
    top.append("╗");
    let title = String::from_str("║").concat(pad_center("SYSTEM HEALTH SCORE", CARD_WIDTH).as_str()).concat("║");
    let score_text = signed_decimal_string(score).concat("/100");
    let score_line = String::from_str("║").concat(pad_center(score_text.as_str(), CARD_WIDTH).as_str()).concat("║");
    let rating_text = String::from_str(emoji).concat(" ").concat(rating);
    let rating_line = String::from_str("║").concat(pad_center(rating_text.as_str(), CARD_WIDTH).as_str()).concat("║");
    let mut bottom = String::from_str("╚");
    append_repeated(&mut bottom, "═", CARD_WIDTH);
    bottom.append("╝");
    let mut lines: Vec<String> = Vec::new();
    lines.push(top);
    lines.push(title);
    lines.push(score_line);
    lines.push(rating_line);
    lines.push(bottom);
    assert(string_views(lines@) =~= health_card_text(score, rating@));
    (color, lines)
}

// ── Threat badges ────────────────────────────────────────────────────────

/// The emoji and label that head a reported threat.
pub open spec fn threat_badge_text(level: ThreatLevel) -> Seq<char> {
    match level {
        ThreatLevel::Critical => "🔴 "@ + level.display_text(),
        ThreatLevel::High => "🟠 "@ + level.display_text(),
        ThreatLevel::Medium => "🟡 "@ + level.display_text(),
        ThreatLevel::Low => "🟢 "@ + level.display_text(),
        ThreatLevel::Info => "🔵 "@ + level.display_text(),
    }
}

/// The badge shown before a reported threat.
pub fn threat_badge(level: ThreatLevel) -> (badge: String)
    ensures
        badge@ == threat_badge_text(level),
{
    let emoji = match level {
        ThreatLevel::Critical => "🔴 ",
        ThreatLevel::High => "🟠 ",
        ThreatLevel::Medium => "🟡 ",
        ThreatLevel::Low => "🟢 ",
        ThreatLevel::Info => "🔵 ",
    };
    String::from_str(emoji).concat(level.to_display_string().as_str())
}

// ── Cleanup target listing ───────────────────────────────────────────────

/// The cells of the listing line of target number `number` (1-based).
pub open spec fn target_row_text(number: nat, t: CleanupTargetView) -> Seq<Seq<char>> {
    seq![
        padded_left(decimal_text(number), 2),
        t.description,
        t.category.display_text(),
        binary_size_text(t.size_bytes),
        decimal_text(t.file_count as nat),
        (if t.is_safe {
            "✅"@
        } else {
            "⚠️ "@
        }) + " "@ + (if t.requires_admin {
            "🔒"@
        } else {
            "   "@
        }),
    ]
}

/// The rows of the table of cleanup targets: number, description,
/// category, size, file count and the safe / administrator marks.
pub fn target_rows(targets: &Vec<CleanupTarget>) -> (rows: Vec<Vec<String>>)
    ensures
        rows@.len() == targets@.len(),
        forall|i: int|
            0 <= i < rows@.len() ==> string_views(#[trigger] rows@[i]@) == target_row_text(
                (i + 1) as nat,
                targets@[i]@,
            ),
{
    let mut rows: Vec<Vec<String>> = Vec::new();
    let mut i: usize = 0;
    while i < targets.len()
        invariant
            i <= targets.len(),
            rows@.len() == i,
            forall|k: int|
                0 <= k < i ==> string_views(#[trigger] rows@[k]@) == target_row_text(
                    (k + 1) as nat,
                    targets@[k]@,
                ),
        decreases targets.len() - i,
    {
        let t = &targets[i];
        let number = decimal_string((i as u64) + 1);
        let marks = String::from_str(
            if t.is_safe {
                "✅"
            } else {
                "⚠️ "
            },
        ).concat(" ").concat(
            if t.requires_admin {
                "🔒"
            } else {
                "   "
            },
        );
        let mut row: Vec<String> = Vec::new();
        row.push(pad_left(number.as_str(), 2));
        row.push(t.description.clone());
        row.push(t.category.to_display_string());
        row.push(fmt_size(t.size_bytes));
        row.push(decimal_string(t.file_count as u64));
        row.push(marks);
        assert(string_views(row@) =~= target_row_text((i + 1) as nat, targets@[i as int]@));
        rows.push(row);
        i = i + 1;
    }
    rows
}

} // verus!
