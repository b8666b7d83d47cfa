//! Output formatters: how a frame of levels becomes the line that is printed.

use vstd::prelude::*;
use crate::player::{info_text, PlayingInfo};
use crate::text::{
    decimal, is_digit, join, join_decimals, lemma_decimal_reads_back, lemma_replace_absent,
    lemma_split_join, lowercase, occurs_at, parse_decimal, push_char, push_str, replace,
    replace_all, split, to_lowercase,
};

verus! {

/// Braille cells for a pair of levels (left, right), each 0 to 4 dots high.
/// The first table is the plain meter; in the second the lowest left dot is
/// cleared and in the third the lowest right dot, which marks the playback
/// position in the first or second half of a cell.
pub const DOTS: [[[char; 5]; 5]; 3] = [
    [
        ['⠀', '⢀', '⢠', '⢰', '⢸'],
        ['⡀', '⣀', '⣠', '⣰', '⣸'],
        ['⡄', '⣄', '⣤', '⣴', '⣼'],
        ['⡆', '⣆', '⣦', '⣶', '⣾'],
        ['⡇', '⣇', '⣧', '⣷', '⣿'],
    ],
    [
        ['⠀', '⢀', '⢠', '⢰', '⢸'],
        ['⠀', '⢀', '⢠', '⢰', '⢸'],
        ['⠄', '⢄', '⢤', '⢴', '⢼'],
        ['⠆', '⢆', '⢦', '⢶', '⢾'],
        ['⠇', '⢇', '⢧', '⢷', '⢿'],
    ],
    [
        ['⠀', '⠀', '⠠', '⠰', '⠸'],
        ['⡀', '⡀', '⡠', '⡰', '⡸'],
        ['⡄', '⡄', '⡤', '⡴', '⡼'],
        ['⡆', '⡆', '⡦', '⡶', '⡾'],
        ['⡇', '⡇', '⡧', '⡷', '⡿'],
    ],
];

/// The cell of table `table` for a left and a right level.
pub open spec fn glyph(table: int, left: int, right: int) -> char {
    DOTS[table][left][right]
}

/// The template of a Waybar `custom` module's JSON line.
pub const TEMPLATE_WAYBAR: &'static str = "{\"text\":\"{text}\",\"tooltip\":\"{artist} - {title}\",\"class\":\"{state}\"}";

/// A level as it is drawn: a level of zero still shows one dot.
pub open spec fn drawn(level: u32) -> int {
    if level < 1 {
        1
    } else {
        level as int
    }
}

/// The cell that holds the playback cursor, for `bars` cells and a track at
/// `pos` of `len`: the cell `floor(bars * pos / len)`, the first one when the
/// length is unknown (zero).
pub open spec fn cursor_cell(bars: nat, pos: nat, len: nat) -> nat {
    if len == 0 {
        0
    } else {
        (bars * pos) / len
    }
}

/// Which table draws the cursor cell: the second when the cursor lies in the
/// first half of its cell (or the length is unknown), the third otherwise.
pub open spec fn cursor_table(bars: nat, pos: nat, len: nat) -> int {
    if len == 0 {
        1
    } else if 2 * ((bars * pos) % len) < len {
        1
    } else {
        2
    }
}

/// The levels a dot meter can draw: pairs of levels of at most four dots.
pub open spec fn dot_levels(levels: Seq<u32>) -> bool {
    &&& levels.len() % 2 == 0
    &&& forall|i: int| 0 <= i < levels.len() ==> #[trigger] levels[i] <= 4
}

/// One Braille cell per pair of levels, the cell at `cell` drawn from table
/// `table` and every other cell from the plain table.
pub open spec fn dots_text(levels: Seq<u32>, cell: nat, table: int) -> Seq<char> {
    Seq::new(
        levels.len() / 2,
        |i: int|
            glyph(
                if i == cell {
                    table
                } else {
                    0
                },
                drawn(levels[2 * i]),
                drawn(levels[2 * i + 1]),
            ),
    )
}

/// The dot meter for a track at `pos` of `len` microseconds.
pub open spec fn dots_for(levels: Seq<u32>, pos: nat, len: nat) -> Seq<char> {
    let bars = levels.len() / 2;
    dots_text(levels, cursor_cell(bars, pos, len), cursor_table(bars, pos, len))
}

/// Renders pairs of levels as Braille cells, marking the cell where a track
/// at `position_us` of `length_us` microseconds stands.
pub fn dots(levels: &[u32], position_us: u64, length_us: u64) -> (r: String)
    requires
        dot_levels(levels@),
    ensures
        r@ == dots_for(levels@, position_us as nat, length_us as nat),
{
    let bars = levels.len() / 2;
    let (cell, table): (u128, usize) = if length_us == 0 {
        (0, 1)
    } else {
        let b = bars as u128;
        let p = position_us as u128;
        assert(b * p <= 0xffff_ffff_ffff_ffff * 0xffff_ffff_ffff_ffff) by (nonlinear_arith)
            requires
                b <= 0xffff_ffff_ffff_ffff,
                p <= 0xffff_ffff_ffff_ffff,
        ;
        let prod = b * p;
        let len = length_us as u128;
        let rem = prod % len;
        (prod / len, if 2 * rem < len {
            1
        } else {
            2
        })
    };
    assert(cell == cursor_cell(bars as nat, position_us as nat, length_us as nat));
    assert(table == cursor_table(bars as nat, position_us as nat, length_us as nat));
    let ghost expected = dots_for(levels@, position_us as nat, length_us as nat);
    let mut out = String::new();
    let mut i: usize = 0;
    while i < bars
        invariant
            bars == levels.len() / 2,
            dot_levels(levels@),
            cell == cursor_cell(bars as nat, position_us as nat, length_us as nat),
            table == cursor_table(bars as nat, position_us as nat, length_us as nat),
            expected == dots_for(levels@, position_us as nat, length_us as nat),
            i <= bars,
            out@ == expected.take(i as int),
        decreases bars - i,
    {
        let t: usize = if i as u128 == cell {
            table
        } else {
            0
        };
        let a = levels[2 * i];
        let b = levels[2 * i + 1];
        let l: usize = if a < 1 {
            1
        } else {
            a as usize
        };
        let r: usize = if b < 1 {
            1
        } else {
            b as usize
        };
        let c = DOTS[t][l][r];
        push_char(&mut out, c);
        i = i + 1;
        assert(out@ =~= expected.take(i as int));
    }
    assert(expected.take(bars as int) =~= expected);
    out
}

/// The cell of the plain meter for the `i`-th pair of levels.
pub open spec fn plain_cell(levels: Seq<u32>, i: int) -> char {
    DOTS[0][drawn(levels[2 * i])][drawn(levels[2 * i + 1])]
}

/// Both cursor tables differ from the plain table wherever both levels show
/// at least one dot: the mark is always visible.
proof fn lemma_cursor_tables_differ(l: int, r: int)
    requires
        1 <= l <= 4,
        1 <= r <= 4,
    ensures
        DOTS[1][l][r] != DOTS[0][l][r],
        DOTS[2][l][r] != DOTS[0][l][r],
{
    if l == 1 {
        if r == 1 {} else if r == 2 {} else if r == 3 {} else {}
    } else if l == 2 {
        if r == 1 {} else if r == 2 {} else if r == 3 {} else {}
    } else if l == 3 {
        if r == 1 {} else if r == 2 {} else if r == 3 {} else {}
    } else {
        if r == 1 {} else if r == 2 {} else if r == 3 {} else {}
    }
}

/// `q` is the quotient of `x` by `d` exactly when `q * d <= x < (q + 1) * d`.
proof fn lemma_quotient_bracket(x: int, d: int, q: int)
    requires
        x >= 0,
        d > 0,
    ensures
        (q * d <= x && x < (q + 1) * d) <==> q == x / d,
{
    let k = x / d;
    assert(k * d <= x && x < (k + 1) * d) by (nonlinear_arith)
        requires
            x >= 0,
            d > 0,
            k == x / d,
    ;
    if q * d <= x && x < (q + 1) * d {
        assert(q == k) by (nonlinear_arith)
            requires
                q * d <= x,
                x < (q + 1) * d,
                k * d <= x,
                x < (k + 1) * d,
                d > 0,
        ;
    }
}

/// Where the dot meter puts the playback mark. For `2 * b` levels and a
/// track at `pos` of a known length `len`, exactly the cell `i` with
/// `i * len <= b * pos < (i + 1) * len` differs from the plain meter (so none
/// once the track is past its end), and its lowest left dot is cleared when
/// the position lies in the first half of that cell, its lowest right dot
/// otherwise. With an unknown length (zero) the first cell carries the mark
/// of a first half. The meter has one cell per pair of levels.
pub proof fn lemma_mark_position(levels: Seq<u32>, pos: nat, len: nat)
    requires
        dot_levels(levels),
    ensures
        dots_for(levels, pos, len).len() == levels.len() / 2,
        len > 0 ==> forall|i: int|
            0 <= i < levels.len() / 2 ==> ((#[trigger] dots_for(levels, pos, len)[i] != plain_cell(levels, i))
                <==> (i * len <= (levels.len() / 2) * pos && (levels.len() / 2) * pos < (i + 1) * len)),
        len > 0 ==> forall|i: int|
            0 <= i < levels.len() / 2 && i * len <= (levels.len() / 2) * pos && (levels.len() / 2) * pos < (i
                + 1) * len ==> #[trigger] dots_for(levels, pos, len)[i] == if 2 * ((levels.len() / 2) * pos - i
                * len) < len {
                DOTS[1][drawn(levels[2 * i])][drawn(levels[2 * i + 1])]
            } else {
                DOTS[2][drawn(levels[2 * i])][drawn(levels[2 * i + 1])]
            },
        len == 0 ==> forall|i: int|
            0 <= i < levels.len() / 2 ==> #[trigger] dots_for(levels, pos, len)[i] == if i == 0 {
                DOTS[1][drawn(levels[2 * i])][drawn(levels[2 * i + 1])]
            } else {
                plain_cell(levels, i)
            },
{
    let b = levels.len() / 2;
    let d = dots_for(levels, pos, len);
    if len > 0 {
        let x: int = (b * pos) as int;
        assert(x >= 0) by (nonlinear_arith)
            requires
                x == b * pos,
                b >= 0,
                pos >= 0,
        ;
        assert forall|i: int| 0 <= i < b implies ((#[trigger] d[i] != plain_cell(levels, i)) <==> (i * len
            <= b * pos && b * pos < (i + 1) * len)) by {
            assert(levels[2 * i] <= 4);
            assert(levels[2 * i + 1] <= 4);
            lemma_quotient_bracket(x, len as int, i);
            lemma_cursor_tables_differ(drawn(levels[2 * i]), drawn(levels[2 * i + 1]));
        }
        assert forall|i: int|
            0 <= i < b && i * len <= b * pos && b * pos < (i + 1) * len implies #[trigger] d[i] == if 2 * (b
                * pos - i * len) < len {
                DOTS[1][drawn(levels[2 * i])][drawn(levels[2 * i + 1])]
            } else {
                DOTS[2][drawn(levels[2 * i])][drawn(levels[2 * i + 1])]
            } by {
            lemma_quotient_bracket(x, len as int, i);
            assert(x % (len as int) == x - i * len) by (nonlinear_arith)
                requires
                    i == x / (len as int),
                    len > 0,
                    x >= 0,
            ;
        }
    }
}

/// The playback mark moves forward with the track: a later position never
/// marks an earlier cell, and while the track plays (its position is below
/// its length) the mark lies on one of the shown cells.
pub proof fn lemma_cursor_moves_forward(bars: nat, pos1: nat, pos2: nat, len: nat)
    requires
        pos1 <= pos2,
    ensures
        cursor_cell(bars, pos1, len) <= cursor_cell(bars, pos2, len),
        pos2 < len ==> cursor_cell(bars, pos2, len) < bars || bars == 0,
        cursor_table(bars, pos1, len) == 1 || cursor_table(bars, pos1, len) == 2,
{
    if len > 0 {
        assert(bars * pos1 <= bars * pos2) by (nonlinear_arith)
            requires
                pos1 <= pos2,
        ;
        vstd::arithmetic::div_mod::lemma_div_is_ordered(
            (bars * pos1) as int,
            (bars * pos2) as int,
            len as int,
        );
        if pos2 < len && bars > 0 {
            assert(bars * pos2 < bars * len) by (nonlinear_arith)
                requires
                    pos2 < len,
                    bars > 0,
            ;
            assert((bars * pos2) / len < bars) by (nonlinear_arith)
                requires
                    bars * pos2 < bars * len,
                    len > 0,
            ;
        }
    }
}

/// A template without placeholders is printed as it is, whatever the
/// levels and the track.
pub proof fn lemma_template_without_placeholders(
    template: Seq<char>,
    text: Seq<char>,
    info: Option<PlayingInfo>,
)
    requires
        forall|i: int| !#[trigger] occurs_at(template, "{text}"@, i),
        forall|i: int| !#[trigger] occurs_at(template, "{title}"@, i),
        forall|i: int| !#[trigger] occurs_at(template, "{artist}"@, i),
        forall|i: int| !#[trigger] occurs_at(template, "{state}"@, i),
    ensures
        template_text(template, text, info) == template,
{
    let (title, artist, state) = match info {
        Some(i) => (i.title@, i.artist@, i.state@),
        None => ("No Title"@, "No Artist"@, "Stopped"@),
    };
    lemma_replace_absent(template, "{text}"@, text);
    lemma_replace_absent(template, "{title}"@, title);
    lemma_replace_absent(template, "{artist}"@, artist);
    lemma_replace_absent(template, "{state}"@, state);
}

/// Whether `pat` occurs nowhere in `s`.
pub open spec fn free_of(s: Seq<char>, pat: Seq<char>) -> bool {
    forall|k: int| !#[trigger] occurs_at(s, pat, k)
}

/// Replacing a whole string that is the pattern gives the replacement.
proof fn lemma_replace_whole(pat: Seq<char>, rep: Seq<char>)
    requires
        pat.len() > 0,
    ensures
        replace_all(pat, pat, rep) == rep,
{
    assert(pat.take(pat.len() as int) =~= pat);
    assert(pat.skip(pat.len() as int) =~= Seq::<char>::empty());
    assert(replace_all(Seq::<char>::empty(), pat, rep) == Seq::<char>::empty());
    assert(rep + Seq::<char>::empty() =~= rep);
}

/// A placeholder does not occur in another: both open with `{`, which stands
/// only at the start of `s`, and they differ at position `j`.
proof fn lemma_placeholder_free(s: Seq<char>, pat: Seq<char>, j: int)
    requires
        pat.len() > 0,
        pat[0] == '{',
        forall|k: int| 0 < k < s.len() ==> s[k] != '{',
        0 <= j < pat.len(),
        j < s.len(),
        s[j] != pat[j],
    ensures
        free_of(s, pat),
{
    assert forall|k: int| !#[trigger] occurs_at(s, pat, k) by {
        if occurs_at(s, pat, k) {
            assert(s.subrange(k, k + pat.len())[0] == s[k]);
            assert(k == 0);
            assert(s.subrange(k, k + pat.len())[j] == s[j]);
        }
    }
}

/// Each placeholder filled on its own gives the value it stands for: a
/// template that is just `{state}` renders the track's state (`Stopped`
/// without a track), `{artist}` its artist, `{title}` its title and `{text}`
/// the meter text, as long as the value itself holds none of the
/// placeholders filled after it (the placeholders are filled in the order
/// text, title, artist, state).
pub proof fn lemma_template_fields(text: Seq<char>, info: Option<PlayingInfo>)
    ensures
        template_text("{state}"@, text, info) == match info {
            Some(i) => i.state@,
            None => "Stopped"@,
        },
        info matches Some(i) ==> (free_of(i.artist@, "{state}"@) ==> template_text("{artist}"@, text, info)
            == i.artist@),
        info matches Some(i) ==> (free_of(i.title@, "{artist}"@) && free_of(i.title@, "{state}"@)
            ==> template_text("{title}"@, text, info) == i.title@),
        free_of(text, "{title}"@) && free_of(text, "{artist}"@) && free_of(text, "{state}"@)
            ==> template_text("{text}"@, text, info) == text,
{
    reveal_strlit("{text}");
    reveal_strlit("{title}");
    reveal_strlit("{artist}");
    reveal_strlit("{state}");
    let te = "{text}"@;
    let ti = "{title}"@;
    let ar = "{artist}"@;
    let st = "{state}"@;
    assert(te =~= seq!['{', 't', 'e', 'x', 't', '}']);
    assert(ti =~= seq!['{', 't', 'i', 't', 'l', 'e', '}']);
    assert(ar =~= seq!['{', 'a', 'r', 't', 'i', 's', 't', '}']);
    assert(st =~= seq!['{', 's', 't', 'a', 't', 'e', '}']);
    let (title, artist, state) = match info {
        Some(i) => (i.title@, i.artist@, i.state@),
        None => ("No Title"@, "No Artist"@, "Stopped"@),
    };
    lemma_placeholder_free(st, te, 1);
    lemma_placeholder_free(st, ti, 1);
    lemma_placeholder_free(st, ar, 1);
    lemma_placeholder_free(ar, te, 1);
    lemma_placeholder_free(ar, ti, 1);
    lemma_placeholder_free(ti, te, 2);
    lemma_replace_absent(st, te, text);
    lemma_replace_absent(st, ti, title);
    lemma_replace_absent(st, ar, artist);
    lemma_replace_whole(st, state);
    lemma_replace_absent(ar, te, text);
    lemma_replace_absent(ar, ti, title);
    lemma_replace_whole(ar, artist);
    lemma_replace_absent(ti, te, text);
    lemma_replace_whole(ti, title);
    lemma_replace_whole(te, text);
    if info is Some {
        if free_of(artist, st) {
            lemma_replace_absent(artist, st, state);
        }
        if free_of(title, ar) && free_of(title, st) {
            lemma_replace_absent(title, ar, artist);
            lemma_replace_absent(title, st, state);
        }
    }
    if free_of(text, ti) && free_of(text, ar) && free_of(text, st) {
        lemma_replace_absent(text, ti, title);
        lemma_replace_absent(text, ar, artist);
        lemma_replace_absent(text, st, state);
    }
}

/// Where a track stands, in microseconds: position and length, or zero and
/// zero when nothing is known.
pub open spec fn position_of(info: Option<PlayingInfo>) -> (nat, nat) {
    match info {
        Some(i) => (i.position_us as nat, i.length_us as nat),
        None => (0, 0),
    }
}

/// Formats a frame of levels into the line that is printed.
pub trait Formatter {
    /// The highest level this formatter can show.
    spec fn top_level(&self) -> u32;

    /// Whether the formatter can show these levels.
    spec fn shows(&self, levels: Seq<u32>) -> bool;

    /// The line shown for these levels, given what the player reports.
    spec fn rendering(&self, levels: Seq<u32>, info: Option<PlayingInfo>) -> Seq<char>;

    /// Get the maximum level for the formatter.
    fn max_level(&self) -> (r: u32)
        ensures
            r == self.top_level(),
    ;

    /// Whether the formatter can show these levels.
    fn can_show(&self, levels: &[u32]) -> (r: bool)
        ensures
            r == self.shows(levels@),
    ;

    /// Format the given levels into a string.
    fn format(&self, levels: &[u32], info: &Option<PlayingInfo>) -> (r: String)
        requires
            self.shows(levels@),
        ensures
            r@ == self.rendering(levels@, *info),
    ;
}

/// A simple ASCII formatter that joins levels with a separator.
#[derive(Debug, Clone)]
pub struct AsciiFormatter {
    pub max_level: u32,
    pub separator: String,
}

impl Formatter for AsciiFormatter {
    open spec fn top_level(&self) -> u32 {
        self.max_level
    }

    open spec fn shows(&self, levels: Seq<u32>) -> bool {
        true
    }

    open spec fn rendering(&self, levels: Seq<u32>, info: Option<PlayingInfo>) -> Seq<char> {
        join(levels.map_values(|v: u32| decimal(v as nat)), self.separator@)
    }

    fn max_level(&self) -> (r: u32) {
        self.max_level
    }

    fn can_show(&self, levels: &[u32]) -> (r: bool) {
        true
    }

    fn format(&self, levels: &[u32], info: &Option<PlayingInfo>) -> (r: String) {
        join_decimals(levels, self.separator.as_str())
    }
}

/// An ASCII line reads back as its levels: with a non-empty separator that
/// holds no digit, splitting the line at the separator and reading each
/// piece as a decimal number gives the levels in order; no levels give an
/// empty line.
pub proof fn lemma_ascii_levels_read_back(f: AsciiFormatter, levels: Seq<u32>, info: Option<PlayingInfo>)
    requires
        f.separator@.len() > 0,
        forall|j: int| 0 <= j < f.separator@.len() ==> !is_digit(#[trigger] f.separator@[j]),
    ensures
        levels.len() == 0 ==> f.rendering(levels, info) == Seq::<char>::empty(),
        levels.len() > 0 ==> split(f.rendering(levels, info), f.separator@).map_values(
            |p: Seq<char>| parse_decimal(p),
        ) == levels.map_values(|v: u32| v as nat),
{
    let parts = levels.map_values(|v: u32| decimal(v as nat));
    if levels.len() > 0 {
        assert forall|k: int, j: int| 0 <= k < parts.len() && 0 <= j < parts[k].len() implies is_digit(
            #[trigger] parts[k][j],
        ) by {
            lemma_decimal_reads_back(levels[k] as nat);
        }
        lemma_split_join(parts, f.separator@);
        assert forall|k: int| 0 <= k < levels.len() implies parse_decimal(#[trigger] parts[k]) == levels[k] as nat by {
            lemma_decimal_reads_back(levels[k] as nat);
        }
        assert(parts.map_values(|p: Seq<char>| parse_decimal(p)) =~= levels.map_values(|v: u32| v as nat));
    }
}

/// A formatter that represents levels using dot characters, marking the
/// playback position of the current track.
#[derive(Debug, Clone)]
pub struct DotFormatter {}

impl Formatter for DotFormatter {
    open spec fn top_level(&self) -> u32 {
        4
    }

    open spec fn shows(&self, levels: Seq<u32>) -> bool {
        dot_levels(levels)
    }

    open spec fn rendering(&self, levels: Seq<u32>, info: Option<PlayingInfo>) -> Seq<char> {
        dots_for(levels, position_of(info).0, position_of(info).1)
    }

    fn max_level(&self) -> (r: u32) {
        4
    }

    fn can_show(&self, levels: &[u32]) -> (r: bool) {
        if levels.len() % 2 != 0 {
            return false;
        }
        let mut i: usize = 0;
        while i < levels.len()
            invariant
                i <= levels.len(),
                forall|k: int| 0 <= k < i ==> #[trigger] levels@[k] <= 4,
            decreases levels.len() - i,
        {
            if levels[i] > 4 {
                return false;
            }
            i = i + 1;
        }
        true
    }

    fn format(&self, levels: &[u32], info: &Option<PlayingInfo>) -> (r: String) {
        match info {
            Some(i) => dots(levels, i.position_us, i.length_us),
            None => dots(levels, 0, 0),
        }
    }
}

/// A formatter that uses a template to format the output string.
#[derive(Debug, Clone)]
pub struct TemplateFormatter<T> {
    pub inner: T,
    pub template: String,
}

/// The template with `{text}`, `{title}`, `{artist}` and `{state}`
/// replaced, in this order, by the given values.
pub open spec fn fill_template(
    template: Seq<char>,
    text: Seq<char>,
    title: Seq<char>,
    artist: Seq<char>,
    state: Seq<char>,
) -> Seq<char> {
    replace_all(
        replace_all(
            replace_all(replace_all(template, "{text}"@, text), "{title}"@, title),
            "{artist}"@,
            artist,
        ),
        "{state}"@,
        state,
    )
}

/// The template filled in for a frame: the track's title, artist and state,
/// or `No Title`, `No Artist` and `Stopped` when nothing is playing.
pub open spec fn template_text(template: Seq<char>, text: Seq<char>, info: Option<PlayingInfo>) -> Seq<char> {
    match info {
        Some(i) => fill_template(template, text, i.title@, i.artist@, i.state@),
        None => fill_template(template, text, "No Title"@, "No Artist"@, "Stopped"@),
    }
}

/// Fills in a template.
fn fill(template: &str, text: &str, title: &str, artist: &str, state: &str) -> (r: String)
    ensures
        r@ == fill_template(template@, text@, title@, artist@, state@),
{
    proof {
        reveal_strlit("{text}");
        reveal_strlit("{title}");
        reveal_strlit("{artist}");
        reveal_strlit("{state}");
    }
    let a = replace(template, "{text}", text);
    let b = replace(a.as_str(), "{title}", title);
    let c = replace(b.as_str(), "{artist}", artist);
    replace(c.as_str(), "{state}", state)
}

impl<T: Formatter> Formatter for TemplateFormatter<T> {
    open spec fn top_level(&self) -> u32 {
        self.inner.top_level()
    }

    open spec fn shows(&self, levels: Seq<u32>) -> bool {
        self.inner.shows(levels)
    }

    open spec fn rendering(&self, levels: Seq<u32>, info: Option<PlayingInfo>) -> Seq<char> {
        template_text(self.template@, self.inner.rendering(levels, info), info)
    }

    fn max_level(&self) -> (r: u32) {
        self.inner.max_level()
    }

    fn can_show(&self, levels: &[u32]) -> (r: bool) {
        self.inner.can_show(levels)
    }

    fn format(&self, levels: &[u32], info: &Option<PlayingInfo>) -> (r: String) {
        let text = self.inner.format(levels, info);
        match info {
            Some(i) => fill(
                self.template.as_str(),
                text.as_str(),
                i.title.as_str(),
                i.artist.as_str(),
                i.state.as_str(),
            ),
            None => fill(self.template.as_str(), text.as_str(), "No Title", "No Artist", "Stopped"),
        }
    }
}

/// The Waybar JSON line for a meter: the track's description as tooltip and
/// its lowercased state as class, or a fixed line when nothing is playing.
pub open spec fn waybar_text(text: Seq<char>, info: Option<PlayingInfo>) -> Seq<char> {
    match info {
        Some(i) => "{\"text\":\""@ + text + "\",\"tooltip\":\""@ + info_text(i) + "\",\"class\":\""@
            + lowercase(i.state@) + "\"}"@,
        None => "{\"text\":\""@ + text
            + "\",\"tooltip\":\"No player info available\",\"class\":\"stopped\"}"@,
    }
}

/// The Waybar line for a known track opens with the meter text and the
/// track's description as tooltip, and closes with the class field, which
/// holds the lowercase of the track's state.
pub proof fn lemma_waybar_fields(text: Seq<char>, info: PlayingInfo)
    ensures
        exists|rest: Seq<char>|
            waybar_text(text, Some(info)) == "{\"text\":\""@ + text + "\",\"tooltip\":\""@ + info_text(info)
                + rest,
        exists|head: Seq<char>|
            waybar_text(text, Some(info)) == head + "\",\"class\":\""@ + lowercase(info.state@) + "\"}"@,
{
    let line = waybar_text(text, Some(info));
    let open = "{\"text\":\""@ + text + "\",\"tooltip\":\""@ + info_text(info);
    let rest = "\",\"class\":\""@ + lowercase(info.state@) + "\"}"@;
    assert(line =~= open + rest);
    assert(line =~= open + "\",\"class\":\""@ + lowercase(info.state@) + "\"}"@);
}

/// Wraps a meter into a Waybar JSON line.
pub fn waybar(text: &str, info: &Option<PlayingInfo>) -> (r: String)
    ensures
        r@ == waybar_text(text@, *info),
{
    let mut s = String::new();
    match info {
        Some(i) => {
            push_str(&mut s, "{\"text\":\"");
            push_str(&mut s, text);
            push_str(&mut s, "\",\"tooltip\":\"");
            let d = i.describe();
            push_str(&mut s, d.as_str());
            push_str(&mut s, "\",\"class\":\"");
            let st = to_lowercase(i.state.as_str());
            push_str(&mut s, st.as_str());
            push_str(&mut s, "\"}");
        },
        None => {
            push_str(&mut s, "{\"text\":\"");
            push_str(&mut s, text);
            push_str(&mut s, "\",\"tooltip\":\"No player info available\",\"class\":\"stopped\"}");
        },
    }
    assert(s@ =~= waybar_text(text@, *info));
    s
}

} // verus!
