//! A player's view of the star map and its text and CSV renderings.
use crate::text::{chars_of, decimal, push_char, push_decimal, push_str};
use vstd::prelude::*;

verus! {

/// What a player knows of one world.
#[derive(Debug, Clone, PartialEq, Eq)]
pub struct PlayerStarmapWorld {
    pub planet_record_index_1_based: usize,
    pub coords: [u8; 2],
    pub known_name: Option<String>,
    pub known_owner_empire_id: Option<u8>,
    pub known_owner_empire_name: Option<String>,
    pub known_potential_production: Option<u16>,
    pub known_armies: Option<u8>,
    pub known_ground_batteries: Option<u8>,
    pub known_current_production: Option<u8>,
    pub known_stored_points: Option<u16>,
    pub known_docked_summary: Option<String>,
    pub known_orbit_summary: Option<String>,
}

/// A player's star map: its size, the year, the viewer and the worlds.
#[derive(Debug, Clone, PartialEq, Eq)]
pub struct PlayerStarmapProjection {
    pub map_width: u8,
    pub map_height: u8,
    pub year: u16,
    pub viewer_empire_id: u8,
    pub worlds: Vec<PlayerStarmapWorld>,
}

// ---------------------------------------------------------------------------
// Text pieces
// ---------------------------------------------------------------------------

/// `n` spaces.
pub open spec fn spaces(n: int) -> Seq<char> {
    Seq::new(if n > 0 { n as nat } else { 0 }, |i: int| ' ')
}

/// `format!("{:02}", n)`: at least two digits, zero-padded.
pub open spec fn pad2(n: nat) -> Seq<char> {
    if n < 10 {
        seq!['0'] + decimal(n)
    } else {
        decimal(n)
    }
}

/// `format!("{:>w$}", s)`: right-aligned in `w` characters.
pub open spec fn align_right(s: Seq<char>, w: int) -> Seq<char> {
    spaces(w - s.len()) + s
}

/// `format!("{:<w$}", s)`: left-aligned in `w` characters.
pub open spec fn align_left(s: Seq<char>, w: int) -> Seq<char> {
    s + spaces(w - s.len())
}

/// Appends `n` spaces.
fn push_spaces(out: &mut String, n: usize)
    ensures
        final(out)@ == old(out)@ + spaces(n as int),
{
    let mut i: usize = 0;
    while i < n
        invariant
            i <= n,
            out@ == old(out)@ + spaces(i as int),
        decreases n - i,
    {
        push_char(out, ' ');
        i = i + 1;
        assert(out@ =~= old(out)@ + spaces(i as int));
    }
}

/// Appends `n` with at least two digits.
fn push_pad2(out: &mut String, n: u32)
    ensures
        final(out)@ == old(out)@ + pad2(n as nat),
{
    if n < 10 {
        push_char(out, '0');
    }
    push_decimal(out, n);
    assert(final(out)@ =~= old(out)@ + pad2(n as nat));
}

/// Appends `s` right-aligned in `w` characters.
fn push_align_right(out: &mut String, s: &str, w: usize)
    ensures
        final(out)@ == old(out)@ + align_right(s@, w as int),
{
    let n = s.unicode_len();
    if n < w {
        push_spaces(out, w - n);
    } else {
        assert(spaces(w - n) =~= Seq::<char>::empty());
    }
    push_str(out, s);
    assert(final(out)@ =~= old(out)@ + align_right(s@, w as int));
}

/// Appends `s` left-aligned in `w` characters.
fn push_align_left(out: &mut String, s: &str, w: usize)
    ensures
        final(out)@ == old(out)@ + align_left(s@, w as int),
{
    let n = s.unicode_len();
    push_str(out, s);
    if n < w {
        push_spaces(out, w - n);
    } else {
        assert(spaces(w - n) =~= Seq::<char>::empty());
    }
    assert(final(out)@ =~= old(out)@ + align_left(s@, w as int));
}

/// A CSV field that needs quoting: it holds a comma, a quote or a newline.
pub open spec fn needs_quotes(s: Seq<char>) -> bool {
    exists|i: int| 0 <= i < s.len() && (s[i] == ',' || s[i] == '"' || s[i] == '\n')
}

/// `s` with each `"` doubled.
pub open spec fn double_quotes(s: Seq<char>) -> Seq<char>
    decreases s.len(),
{
    if s.len() == 0 {
        Seq::empty()
    } else {
        double_quotes(s.drop_last()) + if s.last() == '"' {
            seq!['"', '"']
        } else {
            seq![s.last()]
        }
    }
}

/// A CSV field: empty for no value, quoted (with inner quotes doubled) when
/// it holds a comma, a quote or a newline, else the value itself.
pub open spec fn csv_text(value: Option<Seq<char>>) -> Seq<char> {
    match value {
        None => Seq::empty(),
        Some(s) => if needs_quotes(s) {
            seq!['"'] + double_quotes(s) + seq!['"']
        } else {
            s
        },
    }
}

/// A CSV field for an optional text value.
pub fn csv_field(value: Option<&str>) -> (r: String)
    ensures
        r@ == csv_text(
            match value {
                Some(v) => Some(v@),
                None => None,
            },
        ),
{
    let v = match value {
        None => {
            return String::new();
        },
        Some(v) => v,
    };
    let cs = chars_of(v);
    let n = cs.len();
    let mut quote = false;
    let mut quoted = String::new();
    let mut i: usize = 0;
    while i < n
        invariant
            i <= n == cs@.len(),
            cs@ == v@,
            quoted@ == double_quotes(cs@.take(i as int)),
            quote <==> exists|k: int| 0 <= k < i && (cs@[k] == ',' || cs@[k] == '"' || cs@[k] == '\n'),
        decreases n - i,
    {
        let c = cs[i];
        if c == ',' || c == '"' || c == '\n' {
            quote = true;
        }
        if c == '"' {
            push_char(&mut quoted, '"');
        }
        push_char(&mut quoted, c);
        assert(cs@.take(i + 1).drop_last() =~= cs@.take(i as int));
        assert(quoted@ =~= double_quotes(cs@.take(i + 1)));
        i = i + 1;
    }
    assert(cs@.take(n as int) =~= cs@);
    if quote {
        let mut out = String::new();
        push_char(&mut out, '"');
        push_str(&mut out, quoted.as_str());
        push_char(&mut out, '"');
        assert(out@ =~= seq!['"'] + double_quotes(v@) + seq!['"']);
        out
    } else {
        let mut out = String::new();
        push_str(&mut out, v);
        assert(out@ =~= v@);
        out
    }
}

// ---------------------------------------------------------------------------
// The ASCII map
// ---------------------------------------------------------------------------

/// Some world lies at sector (x, y).
pub open spec fn occupied(worlds: Seq<PlayerStarmapWorld>, x: int, y: int) -> bool {
    exists|i: int|
        0 <= i < worlds.len() && #[trigger] worlds[i].coords@[0] == x && worlds[i].coords@[1] == y
}

/// The columns of map page `page`: 18 sectors wide, the last one cut at the
/// map's width.
pub open spec fn page_start(page: int) -> int {
    1 + 18 * page
}

pub open spec fn page_end(page: int, width: int) -> int {
    if page_start(page) + 17 < width {
        page_start(page) + 17
    } else {
        width
    }
}

/// Column labels for sectors `start..stop`, each right-aligned in four.
pub open spec fn header_cells(start: int, stop: int) -> Seq<char>
    decreases stop - start,
{
    if stop <= start {
        Seq::empty()
    } else {
        header_cells(start, stop - 1) + align_right(pad2((stop - 1) as nat), 4)
    }
}

/// The label row above and below a page.
pub open spec fn header_row(start: int, end: int) -> Seq<char> {
    "   "@ + header_cells(start, end + 1)
}

/// `n` copies of `s`.
pub open spec fn repeat(s: Seq<char>, n: int) -> Seq<char>
    decreases n,
{
    if n <= 0 {
        Seq::empty()
    } else {
        repeat(s, n - 1) + s
    }
}

/// The ruled row between map rows; the bottom one is solid.
pub open spec fn border_row(start: int, end: int, final_row: bool) -> Seq<char> {
    "  -|"@ + repeat(if final_row { "---|"@ } else { "- -|"@ }, end - start + 1) + seq!['-']
}

/// Map cells of row `y` for sectors `start..stop`: `*` for a world, the
/// last cell of the page narrower.
pub open spec fn map_cells(
    worlds: Seq<PlayerStarmapWorld>,
    y: int,
    start: int,
    stop: int,
    end: int,
) -> Seq<char>
    decreases stop - start,
{
    if stop <= start {
        Seq::empty()
    } else {
        let x = stop - 1;
        map_cells(worlds, y, start, stop - 1, end) + seq![
            ' ',
            if occupied(worlds, x, y) { '*' } else { ' ' },
        ] + if x == end {
            seq![' ']
        } else {
            seq![' ', ' ']
        }
    }
}

/// Map row `y` of a page, labelled on both sides.
pub open spec fn map_row(worlds: Seq<PlayerStarmapWorld>, y: int, start: int, end: int) -> Seq<
    char,
> {
    pad2(y as nat) + " |"@ + map_cells(worlds, y, start, end + 1, end) + "| "@ + pad2(y as nat)
}

/// The top `k` map rows of a page whose top row is `top`, each followed by
/// its border, each on a new line.
pub open spec fn page_body(
    worlds: Seq<PlayerStarmapWorld>,
    top: int,
    k: int,
    start: int,
    end: int,
) -> Seq<char>
    decreases k,
{
    if k <= 0 {
        Seq::empty()
    } else {
        let y = top - k + 1;
        page_body(worlds, top, k - 1, start, end) + seq!['\n'] + map_row(worlds, y, start, end)
            + seq!['\n'] + border_row(start, end, y == 1)
    }
}

/// One map page: labels, the solid top border, the rows from the top down
/// with their borders, and the labels again.
pub open spec fn page_text(
    worlds: Seq<PlayerStarmapWorld>,
    height: int,
    start: int,
    end: int,
) -> Seq<char> {
    header_row(start, end) + seq!['\n'] + border_row(start, end, true) + page_body(
        worlds,
        height,
        height,
        start,
        end,
    ) + seq!['\n'] + header_row(start, end)
}

/// The first `n` pages, separated by a blank line, a form feed and a newline.
pub open spec fn map_pages(
    worlds: Seq<PlayerStarmapWorld>,
    width: int,
    height: int,
    n: int,
) -> Seq<char>
    decreases n,
{
    if n <= 0 {
        Seq::empty()
    } else if n == 1 {
        page_text(worlds, height, page_start(0), page_end(0, width))
    } else {
        map_pages(worlds, width, height, n - 1) + "\n\n\x0c\n"@ + page_text(
            worlds,
            height,
            page_start(n - 1),
            page_end(n - 1, width),
        )
    }
}

/// Number of map pages for a map `width` sectors wide.
pub open spec fn page_count(width: int) -> int {
    (width + 17) / 18
}

/// The whole ASCII map of a projection.
pub open spec fn ascii_map_text(p: PlayerStarmapProjection) -> Seq<char> {
    map_pages(p.worlds@, p.map_width as int, p.map_height as int, page_count(p.map_width as int))
}

/// Whether some world lies at (x, y).
fn world_at(worlds: &Vec<PlayerStarmapWorld>, x: usize, y: usize) -> (r: bool)
    ensures
        r == occupied(worlds@, x as int, y as int),
{
    let mut i: usize = 0;
    while i < worlds.len()
        invariant
            i <= worlds@.len(),
            forall|k: int|
                0 <= k < i ==> !(#[trigger] worlds@[k].coords@[0] == x && worlds@[k].coords@[1]
                    == y),
        decreases worlds@.len() - i,
    {
        if worlds[i].coords[0] as usize == x && worlds[i].coords[1] as usize == y {
            return true;
        }
        i = i + 1;
    }
    false
}

fn push_header_row(out: &mut String, start: usize, end: usize)
    requires
        1 <= start <= end <= 255,
    ensures
        final(out)@ == old(out)@ + header_row(start as int, end as int),
{
    push_str(out, "   ");
    let mut x: usize = start;
    while x <= end
        invariant
            start <= x <= end + 1,
            end <= 255,
            out@ == old(out)@ + "   "@ + header_cells(start as int, x as int),
        decreases end + 1 - x,
    {
        let mut cell = String::new();
        push_pad2(&mut cell, x as u32);
        push_align_right(out, cell.as_str(), 4);
        x = x + 1;
        assert(out@ =~= old(out)@ + "   "@ + header_cells(start as int, x as int));
    }
}

fn push_border_row(out: &mut String, start: usize, end: usize, final_row: bool)
    requires
        1 <= start <= end <= 255,
    ensures
        final(out)@ == old(out)@ + border_row(start as int, end as int, final_row),
{
    push_str(out, "  -|");
    let mut x: usize = start;
    while x <= end
        invariant
            start <= x <= end + 1,
            end <= 255,
            out@ == old(out)@ + "  -|"@ + repeat(
                if final_row { "---|"@ } else { "- -|"@ },
                x - start,
            ),
        decreases end + 1 - x,
    {
        if final_row {
            push_str(out, "---|");
        } else {
            push_str(out, "- -|");
        }
        x = x + 1;
        assert(out@ =~= old(out)@ + "  -|"@ + repeat(
            if final_row { "---|"@ } else { "- -|"@ },
            x - start,
        ));
    }
    push_char(out, '-');
    assert(final(out)@ =~= old(out)@ + border_row(start as int, end as int, final_row));
}

fn push_map_row(out: &mut String, worlds: &Vec<PlayerStarmapWorld>, y: usize, start: usize, end: usize)
    requires
        1 <= start <= end <= 255,
        y <= 255,
    ensures
        final(out)@ == old(out)@ + map_row(worlds@, y as int, start as int, end as int),
{
    push_pad2(out, y as u32);
    push_str(out, " |");
    let ghost mid = out@;
    let mut x: usize = start;
    while x <= end
        invariant
            start <= x <= end + 1,
            end <= 255,
            out@ == mid + map_cells(worlds@, y as int, start as int, x as int, end as int),
        decreases end + 1 - x,
    {
        let ch = if world_at(worlds, x, y) {
            '*'
        } else {
            ' '
        };
        push_char(out, ' ');
        push_char(out, ch);
        push_char(out, ' ');
        if x != end {
            push_char(out, ' ');
        }
        x = x + 1;
        assert(out@ =~= mid + map_cells(worlds@, y as int, start as int, x as int, end as int));
    }
    push_str(out, "| ");
    push_pad2(out, y as u32);
    assert(final(out)@ =~= old(out)@ + map_row(worlds@, y as int, start as int, end as int));
}

fn push_page(
    out: &mut String,
    worlds: &Vec<PlayerStarmapWorld>,
    height: usize,
    start: usize,
    end: usize,
)
    requires
        1 <= start <= end <= 255,
        height <= 255,
    ensures
        final(out)@ == old(out)@ + page_text(worlds@, height as int, start as int, end as int),
{
    push_header_row(out, start, end);
    push_char(out, '\n');
    push_border_row(out, start, end, true);
    let ghost mid = out@;
    let mut y: usize = height;
    while y >= 1
        invariant
            y <= height <= 255,
            1 <= start <= end <= 255,
            out@ == mid + page_body(worlds@, height as int, (height - y) as int, start as int, end as int),
        decreases y,
    {
        push_char(out, '\n');
        push_map_row(out, worlds, y, start, end);
        push_char(out, '\n');
        push_border_row(out, start, end, y == 1);
        y = y - 1;
        assert(out@ =~= mid + page_body(
            worlds@,
            height as int,
            (height - y) as int,
            start as int,
            end as int,
        ));
    }
    push_char(out, '\n');
    push_header_row(out, start, end);
    assert(final(out)@ =~= old(out)@ + page_text(worlds@, height as int, start as int, end as int));
}

impl PlayerStarmapProjection {
    /// The map as text: pages of 18 columns, each with column labels above
    /// and below, row labels on both sides, `*` where a world lies, and
    /// pages separated by a blank line and a form feed.
    pub fn render_ascii_map(&self) -> (r: String)
        ensures
            r@ == ascii_map_text(*self),
    {
        let width = self.map_width as usize;
        let height = self.map_height as usize;
        let mut out = String::new();
        let mut start_x: usize = 1;
        let mut page: usize = 0;
        while start_x <= width
            invariant
                start_x == page_start(page as int),
                width == self.map_width,
                height == self.map_height,
                page <= page_count(width as int),
                start_x <= width + 18,
                out@ == map_pages(self.worlds@, width as int, height as int, page as int),
            decreases width + 18 - start_x,
        {
            if page > 0 {
                push_str(&mut out, "\n\n\x0c\n");
            }
            let end_x = if start_x + 17 < width {
                start_x + 17
            } else {
                width
            };
            push_page(&mut out, &self.worlds, height, start_x, end_x);
            start_x = start_x + 18;
            page = page + 1;
            assert(out@ =~= map_pages(self.worlds@, width as int, height as int, page as int));
        }
        assert(page == page_count(width as int));
        out
    }
}

// ---------------------------------------------------------------------------
// The CSV grid
// ---------------------------------------------------------------------------

/// A comma after every item but the page's last.
pub open spec fn csv_sep(x: int, end: int) -> Seq<char> {
    if x != end {
        seq![',']
    } else {
        Seq::empty()
    }
}

/// Column labels of sectors `start..stop`, comma-separated.
pub open spec fn csv_header_cells(start: int, stop: int, end: int) -> Seq<char>
    decreases stop - start,
{
    if stop <= start {
        Seq::empty()
    } else {
        csv_header_cells(start, stop - 1, end) + pad2((stop - 1) as nat) + csv_sep(stop - 1, end)
    }
}

/// Cells of row `y` for sectors `start..stop`: `*` for a world, else empty.
pub open spec fn csv_cells(
    worlds: Seq<PlayerStarmapWorld>,
    y: int,
    start: int,
    stop: int,
    end: int,
) -> Seq<char>
    decreases stop - start,
{
    if stop <= start {
        Seq::empty()
    } else {
        csv_cells(worlds, y, start, stop - 1, end) + (if occupied(worlds, stop - 1, y) {
            seq!['*']
        } else {
            Seq::empty()
        }) + csv_sep(stop - 1, end)
    }
}

/// The top `k` rows of a CSV page whose top row is `top`.
pub open spec fn csv_body(
    worlds: Seq<PlayerStarmapWorld>,
    top: int,
    k: int,
    start: int,
    end: int,
) -> Seq<char>
    decreases k,
{
    if k <= 0 {
        Seq::empty()
    } else {
        let y = top - k + 1;
        csv_body(worlds, top, k - 1, start, end) + pad2(y as nat) + seq![','] + csv_cells(
            worlds,
            y,
            start,
            end + 1,
            end,
        ) + seq!['\n']
    }
}

/// One CSV page: the label line, the rows from the top down, and a blank
/// line unless it is the last page.
pub open spec fn csv_page(
    worlds: Seq<PlayerStarmapWorld>,
    width: int,
    height: int,
    start: int,
    end: int,
) -> Seq<char> {
    seq![','] + csv_header_cells(start, end + 1, end) + seq!['\n'] + csv_body(
        worlds,
        height,
        height,
        start,
        end,
    ) + if end != width {
        seq!['\n']
    } else {
        Seq::empty()
    }
}

/// The first `n` CSV pages.
pub open spec fn csv_pages(
    worlds: Seq<PlayerStarmapWorld>,
    width: int,
    height: int,
    n: int,
) -> Seq<char>
    decreases n,
{
    if n <= 0 {
        Seq::empty()
    } else {
        csv_pages(worlds, width, height, n - 1) + csv_page(
            worlds,
            width,
            height,
            page_start(n - 1),
            page_end(n - 1, width),
        )
    }
}

/// The whole CSV grid of a projection.
pub open spec fn csv_grid_text(p: PlayerStarmapProjection) -> Seq<char> {
    csv_pages(p.worlds@, p.map_width as int, p.map_height as int, page_count(p.map_width as int))
}

fn push_csv_page(
    out: &mut String,
    worlds: &Vec<PlayerStarmapWorld>,
    width: usize,
    height: usize,
    start: usize,
    end: usize,
)
    requires
        1 <= start <= end <= width <= 255,
        height <= 255,
    ensures
        final(out)@ == old(out)@ + csv_page(worlds@, width as int, height as int, start as int, end as int),
{
    push_char(out, ',');
    let ghost m0 = out@;
    let mut x: usize = start;
    while x <= end
        invariant
            start <= x <= end + 1,
            end <= 255,
            out@ == m0 + csv_header_cells(start as int, x as int, end as int),
        decreases end + 1 - x,
    {
        push_pad2(out, x as u32);
        if x != end {
            push_char(out, ',');
        }
        x = x + 1;
        assert(out@ =~= m0 + csv_header_cells(start as int, x as int, end as int));
    }
    push_char(out, '\n');
    let ghost m1 = out@;
    let mut y: usize = height;
    while y >= 1
        invariant
            y <= height <= 255,
            1 <= start <= end <= 255,
            out@ == m1 + csv_body(worlds@, height as int, (height - y) as int, start as int, end as int),
        decreases y,
    {
        let ghost m2 = out@;
        push_pad2(out, y as u32);
        push_char(out, ',');
        let ghost m3 = out@;
        let mut x: usize = start;
        while x <= end
            invariant
                start <= x <= end + 1,
                end <= 255,
                out@ == m3 + csv_cells(worlds@, y as int, start as int, x as int, end as int),
            decreases end + 1 - x,
        {
            if world_at(worlds, x, y) {
                push_char(out, '*');
            }
            if x != end {
                push_char(out, ',');
            }
            x = x + 1;
            assert(out@ =~= m3 + csv_cells(worlds@, y as int, start as int, x as int, end as int));
        }
        push_char(out, '\n');
        y = y - 1;
        assert(out@ =~= m1 + csv_body(
            worlds@,
            height as int,
            (height - y) as int,
            start as int,
            end as int,
        ));
    }
    if end != width {
        push_char(out, '\n');
    }
    assert(final(out)@ =~= old(out)@ + csv_page(
        worlds@,
        width as int,
        height as int,
        start as int,
        end as int,
    ));
}

impl PlayerStarmapProjection {
    /// The map as CSV: pages of 18 columns, each a label line and one line
    /// per row from the top down with `*` where a world lies; a blank line
    /// between pages.
    pub fn render_csv_export(&self) -> (r: String)
        ensures
            r@ == csv_grid_text(*self),
    {
        let width = self.map_width as usize;
        let height = self.map_height as usize;
        let mut out = String::new();
        let mut start_x: usize = 1;
        let mut page: usize = 0;
        while start_x <= width
            invariant
                start_x == page_start(page as int),
                width == self.map_width,
                height == self.map_height,
                page <= page_count(width as int),
                start_x <= width + 18,
                out@ == csv_pages(self.worlds@, width as int, height as int, page as int),
            decreases width + 18 - start_x,
        {
            let end_x = if start_x + 17 < width {
                start_x + 17
            } else {
                width
            };
            push_csv_page(&mut out, &self.worlds, width, height, start_x, end_x);
            start_x = start_x + 18;
            page = page + 1;
        }
        assert(page == page_count(width as int));
        out
    }
}

// ---------------------------------------------------------------------------
// Known worlds, in map order
// ---------------------------------------------------------------------------

/// A world the player knows something of: its name, owner, production,
/// armies or batteries.
pub open spec fn is_known(w: PlayerStarmapWorld) -> bool {
    w.known_name is Some || w.known_owner_empire_name is Some || w.known_potential_production is Some
        || w.known_armies is Some || w.known_ground_batteries is Some
}

/// Worlds are listed by row, then by column: `y * 256 + x`.
pub open spec fn map_key(w: PlayerStarmapWorld) -> int {
    w.coords@[1] as int * 256 + w.coords@[0] as int
}

/// Indices below `n` of the known worlds whose key is `k`, ascending.
pub open spec fn key_bucket(ws: Seq<PlayerStarmapWorld>, k: int, n: int) -> Seq<int>
    decreases n,
{
    if n <= 0 {
        Seq::empty()
    } else {
        key_bucket(ws, k, n - 1) + if is_known(ws[n - 1]) && map_key(ws[n - 1]) == k {
            seq![n - 1]
        } else {
            Seq::empty()
        }
    }
}

/// Indices of the known worlds whose key is below `k`, by key and, for
/// equal keys, in list order.
pub open spec fn known_below(ws: Seq<PlayerStarmapWorld>, k: int) -> Seq<int>
    decreases k,
{
    if k <= 0 {
        Seq::empty()
    } else {
        known_below(ws, k - 1) + key_bucket(ws, k - 1, ws.len() as int)
    }
}

/// The known worlds, sorted by row and column, equal sectors in list order.
pub open spec fn known_order(ws: Seq<PlayerStarmapWorld>) -> Seq<int> {
    known_below(ws, 65536)
}

/// Map order: by key, then by list position.
pub open spec fn map_order_before(ws: Seq<PlayerStarmapWorld>, a: int, b: int) -> bool {
    map_key(ws[a]) < map_key(ws[b]) || (map_key(ws[a]) == map_key(ws[b]) && a < b)
}

proof fn lemma_key_bucket(ws: Seq<PlayerStarmapWorld>, k: int, n: int)
    requires
        0 <= n <= ws.len(),
    ensures
        forall|j: int|
            0 <= j < key_bucket(ws, k, n).len() ==> 0 <= #[trigger] key_bucket(ws, k, n)[j] < n
                && is_known(ws[key_bucket(ws, k, n)[j]]) && map_key(ws[key_bucket(ws, k, n)[j]])
                == k,
        forall|a: int, b: int|
            0 <= a < b < key_bucket(ws, k, n).len() ==> #[trigger] key_bucket(ws, k, n)[a]
                < #[trigger] key_bucket(ws, k, n)[b],
        forall|i: int|
            0 <= i < n && is_known(#[trigger] ws[i]) && map_key(ws[i]) == k ==> key_bucket(
                ws,
                k,
                n,
            ).contains(i),
    decreases n,
{
    if n > 0 {
        lemma_key_bucket(ws, k, n - 1);
        let prev = key_bucket(ws, k, n - 1);
        let cur = key_bucket(ws, k, n);
        assert forall|i: int|
            0 <= i < n && is_known(#[trigger] ws[i]) && map_key(ws[i]) == k implies cur.contains(i) by {
            if i < n - 1 {
                assert(prev.contains(i));
                let t = choose|t: int| 0 <= t < prev.len() && prev[t] == i;
                assert(cur[t] == i);
            } else {
                assert(cur[cur.len() - 1] == i);
            }
        }
    }
}

proof fn lemma_known_below(ws: Seq<PlayerStarmapWorld>, k: int)
    requires
        k >= 0,
    ensures
        forall|j: int|
            0 <= j < known_below(ws, k).len() ==> 0 <= #[trigger] known_below(ws, k)[j] < ws.len()
                && is_known(ws[known_below(ws, k)[j]]) && map_key(ws[known_below(ws, k)[j]]) < k,
        forall|a: int, b: int|
            0 <= a < b < known_below(ws, k).len() ==> map_order_before(
                ws,
                #[trigger] known_below(ws, k)[a],
                #[trigger] known_below(ws, k)[b],
            ),
        forall|i: int|
            0 <= i < ws.len() && is_known(#[trigger] ws[i]) && map_key(ws[i]) < k ==> known_below(
                ws,
                k,
            ).contains(i),
    decreases k,
{
    if k > 0 {
        lemma_known_below(ws, k - 1);
        lemma_key_bucket(ws, k - 1, ws.len() as int);
        let prev = known_below(ws, k - 1);
        let bucket = key_bucket(ws, k - 1, ws.len() as int);
        let cur = known_below(ws, k);
        assert(cur == prev + bucket);
        assert forall|j: int| 0 <= j < cur.len() implies 0 <= #[trigger] cur[j] < ws.len()
            && is_known(ws[cur[j]]) && map_key(ws[cur[j]]) < k by {
            if j >= prev.len() {
                assert(cur[j] == bucket[j - prev.len()]);
            }
        }
        assert forall|a: int, b: int| 0 <= a < b < cur.len() implies map_order_before(
            ws,
            #[trigger] cur[a],
            #[trigger] cur[b],
        ) by {
            if b < prev.len() {
            } else if a < prev.len() {
                assert(cur[b] == bucket[b - prev.len()]);
            } else {
                assert(cur[a] == bucket[a - prev.len()]);
                assert(cur[b] == bucket[b - prev.len()]);
            }
        }
        assert forall|i: int|
            0 <= i < ws.len() && is_known(#[trigger] ws[i]) && map_key(ws[i]) < k implies cur.contains(i) by {
            if map_key(ws[i]) < k - 1 {
                let t = choose|t: int| 0 <= t < prev.len() && prev[t] == i;
                assert(cur[t] == i);
            } else {
                assert(bucket.contains(i));
                let t = choose|t: int| 0 <= t < bucket.len() && bucket[t] == i;
                assert(cur[prev.len() + t] == i);
            }
        }
    }
}

/// The world lists of the exports hold exactly the known worlds, each once,
/// ordered by row, then column, then position in the world list.
pub proof fn lemma_known_order(ws: Seq<PlayerStarmapWorld>)
    ensures
        forall|j: int|
            0 <= j < known_order(ws).len() ==> 0 <= #[trigger] known_order(ws)[j] < ws.len()
                && is_known(ws[known_order(ws)[j]]),
        forall|i: int| 0 <= i < ws.len() && is_known(#[trigger] ws[i]) ==> known_order(ws).contains(i),
        forall|a: int, b: int|
            0 <= a < b < known_order(ws).len() ==> map_order_before(
                ws,
                #[trigger] known_order(ws)[a],
                #[trigger] known_order(ws)[b],
            ),
{
    lemma_known_below(ws, 65536);
    assert forall|i: int| 0 <= i < ws.len() && is_known(#[trigger] ws[i]) implies known_order(
        ws,
    ).contains(i) by {
        assert(map_key(ws[i]) < 65536);
    }
}

/// The known worlds in map order (by row, then column; equal sectors in
/// list order).
fn known_world_order(worlds: &Vec<PlayerStarmapWorld>) -> (order: Vec<usize>)
    ensures
        order@.map_values(|i: usize| i as int) == known_order(worlds@),
        forall|j: int| 0 <= j < order@.len() ==> order@[j] < worlds@.len(),
{
    let n = worlds.len();
    let mut order: Vec<usize> = Vec::new();
    let mut k: u32 = 0;
    while k < 65536
        invariant
            k <= 65536,
            n == worlds@.len(),
            order@.map_values(|i: usize| i as int) == known_below(worlds@, k as int),
            forall|j: int| 0 <= j < order@.len() ==> order@[j] < n,
        decreases 65536 - k,
    {
        let ghost before = order@.map_values(|i: usize| i as int);
        let mut i: usize = 0;
        while i < n
            invariant
                i <= n == worlds@.len(),
                k < 65536,
                order@.map_values(|i: usize| i as int) == before + key_bucket(worlds@, k as int, i as int),
                forall|j: int| 0 <= j < order@.len() ==> order@[j] < n,
            decreases n - i,
        {
            let w = &worlds[i];
            let known = w.known_name.is_some() || w.known_owner_empire_name.is_some()
                || w.known_potential_production.is_some() || w.known_armies.is_some()
                || w.known_ground_batteries.is_some();
            let key = w.coords[1] as u32 * 256 + w.coords[0] as u32;
            let ghost prev = order@;
            if known && key == k {
                order.push(i);
                assert(order@.map_values(|i: usize| i as int) =~= prev.map_values(|i: usize| i as int).push(i as int));
            }
            i = i + 1;
            assert(order@.map_values(|i: usize| i as int) =~= before + key_bucket(worlds@, k as int, i as int));
        }
        k = k + 1;
    }
    order
}

// ---------------------------------------------------------------------------
// World details
// ---------------------------------------------------------------------------

/// A known text, or `dflt` when unknown.
pub open spec fn text_or(o: Option<String>, dflt: Seq<char>) -> Seq<char> {
    match o {
        Some(s) => s@,
        None => dflt,
    }
}

/// A known number in decimal, or `dflt` when unknown.
pub open spec fn number_or(o: Option<nat>, dflt: Seq<char>) -> Seq<char> {
    match o {
        Some(v) => decimal(v),
        None => dflt,
    }
}

pub open spec fn opt16(o: Option<u16>) -> Option<nat> {
    match o {
        Some(v) => Some(v as nat),
        None => None,
    }
}

pub open spec fn opt8(o: Option<u8>) -> Option<nat> {
    match o {
        Some(v) => Some(v as nat),
        None => None,
    }
}

pub open spec fn opt_text(o: Option<String>) -> Option<Seq<char>> {
    match o {
        Some(s) => Some(s@),
        None => None,
    }
}

/// Sector of a world list line: `"(xx,yy)  "`.
pub open spec fn detail_sector(w: PlayerStarmapWorld) -> Seq<char> {
    seq!['('] + pad2(w.coords@[0] as nat) + seq![','] + pad2(w.coords@[1] as nat) + ")  "@
}

/// Name and owner of a world list line, `UNKNOWN` where not known.
pub open spec fn detail_names(w: PlayerStarmapWorld) -> Seq<char> {
    align_left(text_or(w.known_name, "UNKNOWN"@), 14) + "  OWNER "@ + align_left(
        text_or(w.known_owner_empire_name, "UNKNOWN"@),
        20,
    )
}

/// Production, armies and batteries of a world list line, `-` where not
/// known.
pub open spec fn detail_counts(w: PlayerStarmapWorld) -> Seq<char> {
    "  PROD "@ + align_right(number_or(opt16(w.known_potential_production), "-"@), 3) + "  ARM "@
        + align_right(number_or(opt8(w.known_armies), "-"@), 3) + "  BAT "@ + align_right(
        number_or(opt8(w.known_ground_batteries), "-"@),
        3,
    )
}

/// One line of the text export's world list.
pub open spec fn detail_line(w: PlayerStarmapWorld) -> Seq<char> {
    detail_sector(w) + detail_names(w) + detail_counts(w) + seq!['\n']
}

/// Sector fields of a CSV world line.
pub open spec fn csv_sector(w: PlayerStarmapWorld) -> Seq<char> {
    pad2(w.coords@[0] as nat) + seq![','] + pad2(w.coords@[1] as nat) + seq![',']
}

/// Name, owner id and owner name fields of a CSV world line.
pub open spec fn csv_names(w: PlayerStarmapWorld) -> Seq<char> {
    csv_text(opt_text(w.known_name)) + seq![','] + number_or(
        opt8(w.known_owner_empire_id),
        Seq::empty(),
    ) + seq![','] + csv_text(opt_text(w.known_owner_empire_name)) + seq![',']
}

/// Production, armies and batteries fields of a CSV world line.
pub open spec fn csv_counts(w: PlayerStarmapWorld) -> Seq<char> {
    number_or(opt16(w.known_potential_production), Seq::empty()) + seq![','] + number_or(
        opt8(w.known_armies),
        Seq::empty(),
    ) + seq![','] + number_or(opt8(w.known_ground_batteries), Seq::empty())
}

/// One line of the CSV world list.
pub open spec fn csv_detail_line(w: PlayerStarmapWorld) -> Seq<char> {
    csv_sector(w) + csv_names(w) + csv_counts(w) + seq!['\n']
}

/// The text lines of the listed worlds, in order.
pub open spec fn detail_lines(ws: Seq<PlayerStarmapWorld>, order: Seq<int>) -> Seq<char>
    decreases order.len(),
{
    if order.len() == 0 {
        Seq::empty()
    } else {
        detail_lines(ws, order.drop_last()) + detail_line(ws[order.last()])
    }
}

/// The CSV lines of the listed worlds, in order.
pub open spec fn csv_detail_lines(ws: Seq<PlayerStarmapWorld>, order: Seq<int>) -> Seq<char>
    decreases order.len(),
{
    if order.len() == 0 {
        Seq::empty()
    } else {
        csv_detail_lines(ws, order.drop_last()) + csv_detail_line(ws[order.last()])
    }
}

/// The whole text export: a title line with year and empire, a blank line,
/// the ASCII map, and, when some world is known, a titled list of the known
/// worlds in map order.
pub open spec fn ascii_export_text(p: PlayerStarmapProjection) -> Seq<char> {
    let order = known_order(p.worlds@);
    "ESTERIAN CONQUEST STARMAP  YEAR "@ + decimal(p.year as nat) + "  EMPIRE "@ + decimal(
        p.viewer_empire_id as nat,
    ) + "\n\n"@ + ascii_map_text(p) + (if order.len() > 0 {
        "\n\nKNOWN WORLD DETAILS\n"@ + "-------------------\n"@
    } else {
        Seq::empty()
    }) + detail_lines(p.worlds@, order)
}

/// The CSV world list: a header line, then the known worlds in map order.
pub open spec fn csv_details_text(p: PlayerStarmapProjection) -> Seq<char> {
    "x,y,known_name,known_owner_empire_id,known_owner_empire_name,known_potential_production,known_armies,known_ground_batteries\n"@
        + csv_detail_lines(p.worlds@, known_order(p.worlds@))
}

fn as_text(o: &Option<String>) -> (r: Option<&str>)
    ensures
        match r {
            Some(s) => o matches Some(t) && s@ == t@,
            None => o is None,
        },
{
    match o {
        Some(s) => Some(s.as_str()),
        None => None,
    }
}

fn number_text(o: Option<u32>, dflt: &str) -> (r: String)
    ensures
        r@ == match o {
            Some(v) => decimal(v as nat),
            None => dflt@,
        },
{
    match o {
        Some(v) => crate::text::decimal_string(v),
        None => {
            let mut s = String::new();
            push_str(&mut s, dflt);
            s
        },
    }
}

fn widen16(o: Option<u16>) -> (r: Option<u32>)
    ensures
        match o {
            Some(v) => r == Some(v as u32),
            None => r is None,
        },
{
    match o {
        Some(v) => Some(v as u32),
        None => None,
    }
}

fn widen8(o: Option<u8>) -> (r: Option<u32>)
    ensures
        match o {
            Some(v) => r == Some(v as u32),
            None => r is None,
        },
{
    match o {
        Some(v) => Some(v as u32),
        None => None,
    }
}

fn push_detail_sector(out: &mut String, w: &PlayerStarmapWorld)
    ensures
        final(out)@ == old(out)@ + detail_sector(*w),
{
    push_char(out, '(');
    push_pad2(out, w.coords[0] as u32);
    push_char(out, ',');
    push_pad2(out, w.coords[1] as u32);
    push_str(out, ")  ");
    assert(final(out)@ =~= old(out)@ + detail_sector(*w));
}

fn push_detail_names(out: &mut String, w: &PlayerStarmapWorld)
    ensures
        final(out)@ == old(out)@ + detail_names(*w),
{
    let name = match as_text(&w.known_name) {
        Some(s) => s,
        None => "UNKNOWN",
    };
    push_align_left(out, name, 14);
    push_str(out, "  OWNER ");
    let owner = match as_text(&w.known_owner_empire_name) {
        Some(s) => s,
        None => "UNKNOWN",
    };
    push_align_left(out, owner, 20);
    assert(final(out)@ =~= old(out)@ + detail_names(*w));
}

fn push_detail_counts(out: &mut String, w: &PlayerStarmapWorld)
    ensures
        final(out)@ == old(out)@ + detail_counts(*w),
{
    push_str(out, "  PROD ");
    let prod = number_text(widen16(w.known_potential_production), "-");
    push_align_right(out, prod.as_str(), 3);
    push_str(out, "  ARM ");
    let armies = number_text(widen8(w.known_armies), "-");
    push_align_right(out, armies.as_str(), 3);
    push_str(out, "  BAT ");
    let batteries = number_text(widen8(w.known_ground_batteries), "-");
    push_align_right(out, batteries.as_str(), 3);
    assert(final(out)@ =~= old(out)@ + detail_counts(*w));
}

fn push_detail_line(out: &mut String, w: &PlayerStarmapWorld)
    ensures
        final(out)@ == old(out)@ + detail_line(*w),
{
    push_detail_sector(out, w);
    push_detail_names(out, w);
    push_detail_counts(out, w);
    push_char(out, '\n');
    assert(final(out)@ =~= old(out)@ + detail_line(*w));
}

fn push_csv_sector(out: &mut String, w: &PlayerStarmapWorld)
    ensures
        final(out)@ == old(out)@ + csv_sector(*w),
{
    push_pad2(out, w.coords[0] as u32);
    push_char(out, ',');
    push_pad2(out, w.coords[1] as u32);
    push_char(out, ',');
    assert(final(out)@ =~= old(out)@ + csv_sector(*w));
}

fn push_csv_names(out: &mut String, w: &PlayerStarmapWorld)
    ensures
        final(out)@ == old(out)@ + csv_names(*w),
{
    let name = csv_field(as_text(&w.known_name));
    push_str(out, name.as_str());
    push_char(out, ',');
    let owner_id = number_text(widen8(w.known_owner_empire_id), "");
    push_str(out, owner_id.as_str());
    push_char(out, ',');
    let owner = csv_field(as_text(&w.known_owner_empire_name));
    push_str(out, owner.as_str());
    push_char(out, ',');
    proof {
        reveal_strlit("");
    }
    assert(final(out)@ =~= old(out)@ + csv_names(*w));
}

fn push_csv_counts(out: &mut String, w: &PlayerStarmapWorld)
    ensures
        final(out)@ == old(out)@ + csv_counts(*w),
{
    let prod = number_text(widen16(w.known_potential_production), "");
    push_str(out, prod.as_str());
    push_char(out, ',');
    let armies = number_text(widen8(w.known_armies), "");
    push_str(out, armies.as_str());
    push_char(out, ',');
    let batteries = number_text(widen8(w.known_ground_batteries), "");
    push_str(out, batteries.as_str());
    proof {
        reveal_strlit("");
    }
    assert(final(out)@ =~= old(out)@ + csv_counts(*w));
}

fn push_csv_detail_line(out: &mut String, w: &PlayerStarmapWorld)
    ensures
        final(out)@ == old(out)@ + csv_detail_line(*w),
{
    push_csv_sector(out, w);
    push_csv_names(out, w);
    push_csv_counts(out, w);
    push_char(out, '\n');
    assert(final(out)@ =~= old(out)@ + csv_detail_line(*w));
}

impl PlayerStarmapProjection {
    /// The text export: title line, the ASCII map, and the known worlds in
    /// map order with name, owner, production, armies and batteries.
    pub fn render_ascii_export(&self) -> (r: String)
        ensures
            r@ == ascii_export_text(*self),
    {
        let mut out = String::new();
        push_str(&mut out, "ESTERIAN CONQUEST STARMAP  YEAR ");
        push_decimal(&mut out, self.year as u32);
        push_str(&mut out, "  EMPIRE ");
        push_decimal(&mut out, self.viewer_empire_id as u32);
        push_str(&mut out, "\n\n");
        let map = self.render_ascii_map();
        push_str(&mut out, map.as_str());
        let order = known_world_order(&self.worlds);
        let ghost ord = known_order(self.worlds@);
        if order.len() > 0 {
            push_str(&mut out, "\n\nKNOWN WORLD DETAILS\n");
            push_str(&mut out, "-------------------\n");
        }
        let ghost head = out@;
        let mut j: usize = 0;
        while j < order.len()
            invariant
                j <= order@.len() == ord.len(),
                order@.map_values(|i: usize| i as int) == ord,
                forall|t: int| 0 <= t < order@.len() ==> order@[t] < self.worlds@.len(),
                out@ == head + detail_lines(self.worlds@, ord.take(j as int)),
            decreases order@.len() - j,
        {
            assert(ord[j as int] == order@[j as int] as int);
            push_detail_line(&mut out, &self.worlds[order[j]]);
            assert(ord.take(j + 1).drop_last() =~= ord.take(j as int));
            j = j + 1;
        }
        assert(ord.take(j as int) =~= ord);
        assert(out@ =~= ascii_export_text(*self));
        out
    }

    /// The CSV world list: a header line, then one line per known world in
    /// map order.
    pub fn render_csv_details_export(&self) -> (r: String)
        ensures
            r@ == csv_details_text(*self),
    {
        let mut out = String::new();
        push_str(
            &mut out,
            "x,y,known_name,known_owner_empire_id,known_owner_empire_name,known_potential_production,known_armies,known_ground_batteries\n",
        );
        let order = known_world_order(&self.worlds);
        let ghost ord = known_order(self.worlds@);
        let ghost head = out@;
        let mut j: usize = 0;
        while j < order.len()
            invariant
                j <= order@.len() == ord.len(),
                order@.map_values(|i: usize| i as int) == ord,
                forall|t: int| 0 <= t < order@.len() ==> order@[t] < self.worlds@.len(),
                out@ == head + csv_detail_lines(self.worlds@, ord.take(j as int)),
            decreases order@.len() - j,
        {
            assert(ord[j as int] == order@[j as int] as int);
            push_csv_detail_line(&mut out, &self.worlds[order[j]]);
            assert(ord.take(j + 1).drop_last() =~= ord.take(j as int));
            j = j + 1;
        }
        assert(ord.take(j as int) =~= ord);
        out
    }
}

} // verus!
