use vstd::prelude::*;

verus! {

/// A rectangle of terminal cells: its top-left corner and its size.
#[derive(Clone, Copy, Debug, PartialEq, Eq, Structural)]
pub struct Region {
    pub x: u16,
    pub y: u16,
    pub width: u16,
    pub height: u16,
}

/// The character of a decimal digit `d < 10`.
pub open spec fn digit_char(d: nat) -> char {
    ((d + '0' as nat) as u32) as char
}

/// The decimal notation of `n`, most significant digit first, no leading zeros.
pub open spec fn decimal(n: nat) -> Seq<char>
    decreases n,
{
    if n < 10 {
        seq![digit_char(n)]
    } else {
        decimal(n / 10).push(digit_char(n % 10))
    }
}

/// The title of a frame of `height` rows and `width` columns: `"<height> x <width>"`.
pub open spec fn dimensions_title(height: nat, width: nat) -> Seq<char> {
    decimal(height) + seq![' ', 'x', ' '] + decimal(width)
}

fn digit_str(d: u16) -> (r: &'static str)
    requires
        d < 10,
    ensures
        r@ == seq![digit_char(d as nat)],
{
    proof {
        reveal_strlit("0");
        reveal_strlit("1");
        reveal_strlit("2");
        reveal_strlit("3");
        reveal_strlit("4");
        reveal_strlit("5");
        reveal_strlit("6");
        reveal_strlit("7");
        reveal_strlit("8");
        reveal_strlit("9");
    }
    let r = match d {
        0 => "0",
        1 => "1",
        2 => "2",
        3 => "3",
        4 => "4",
        5 => "5",
        6 => "6",
        7 => "7",
        8 => "8",
        _ => "9",
    };
    assert(r@ =~= seq![digit_char(d as nat)]);
    r
}

/// Appends the decimal notation of `n` to `s`.
pub fn push_decimal(s: &mut String, n: u16)
    ensures
        final(s)@ == old(s)@ + decimal(n as nat),
    decreases n,
{
    if n >= 10 {
        push_decimal(s, n / 10);
    }
    s.append(digit_str(n % 10));
    assert(final(s)@ =~= old(s)@ + decimal(n as nat));
}

/// The title shown in the panel of a frame: `"<height> x <width>"`.
pub fn dimensions_label(height: u16, width: u16) -> (r: String)
    ensures
        r@ == dimensions_title(height as nat, width as nat),
{
    let mut s = String::new();
    push_decimal(&mut s, height);
    proof {
        reveal_strlit(" x ");
    }
    s.append(" x ");
    push_decimal(&mut s, width);
    assert(s@ =~= dimensions_title(height as nat, width as nat));
    s
}

/// Share of the frame's height, in percent, taken by the top band.
pub const TOP_BAND_PERCENT: u16 = 50;

/// Rows of the middle band, which holds the titled panel.
pub const PANEL_ROWS: u16 = 1;

/// Fewest rows of the bottom band, which takes what is left.
pub const BOTTOM_BAND_MIN_ROWS: u16 = 0;

/// The row just below `area`, held at the largest `u16`.
pub open spec fn bottom_edge(area: Region) -> int {
    if area.y as int + area.height as int <= u16::MAX {
        area.y as int + area.height as int
    } else {
        u16::MAX as int
    }
}

/// Relies on ratatui's `Layout::split` (vertical by default) with the
/// constraints `Percentage`, `Length` and `Min`. Its solver holds these as
/// required: one rectangle per constraint; each at the area's column and of
/// its width; the first starting at the area's top row; the last stretched to
/// end at the area's bottom edge. How the rows are shared out beyond that is
/// left to the solver. The percentage is multiplied by the height in `u16`,
/// and a band whose right edge would pass the largest `u16` cannot be solved:
/// both panic, so both are excluded.
#[verifier::external_body]
fn split_bands(
    area: Region,
    top_percent: u16,
    middle_rows: u16,
    bottom_min_rows: u16,
) -> (r: Vec<Region>)
    requires
        top_percent as int * area.height as int <= u16::MAX,
        area.x as int + area.width as int <= u16::MAX,
    ensures
        r@.len() == 3,
        forall|i: int| 0 <= i < 3 ==> #[trigger] r@[i].x == area.x && r@[i].width == area.width,
        r@[0].y == area.y,
        r@[2].y + r@[2].height == bottom_edge(area),
{
    let rects = ratatui::layout::Layout::default().constraints([
        ratatui::layout::Constraint::Percentage(top_percent),
        ratatui::layout::Constraint::Length(middle_rows),
        ratatui::layout::Constraint::Min(bottom_min_rows),
    ]).split(
        ratatui::layout::Rect { x: area.x, y: area.y, width: area.width, height: area.height },
    );
    rects.iter().map(|b| Region { x: b.x, y: b.y, width: b.width, height: b.height }).collect()
}

/// Whether a frame of this size can be laid out: the top band's share of the
/// height is computed in `u16`, and the frame's right edge must fit in one.
pub open spec fn fits_layout(size: Region) -> bool {
    &&& TOP_BAND_PERCENT as int * size.height as int <= u16::MAX
    &&& size.x as int + size.width as int <= u16::MAX
}

/// Three bands stacked in `area`, top to bottom: all span its full width,
/// the first starts at its top row and the last ends at its bottom edge.
pub open spec fn is_band_split(area: Region, bands: Seq<Region>) -> bool {
    &&& bands.len() == 3
    &&& forall|i: int|
        0 <= i < 3 ==> #[trigger] bands[i].x == area.x && bands[i].width == area.width
    &&& bands[0].y == area.y
    &&& bands[2].y + bands[2].height == bottom_edge(area)
}

/// Splits a frame into its three bands, top to bottom: half of its height,
/// one row for the panel, the rest.
pub fn frame_regions(size: Region) -> (r: Vec<Region>)
    requires
        fits_layout(size),
    ensures
        is_band_split(size, r@),
{
    split_bands(size, TOP_BAND_PERCENT, PANEL_ROWS, BOTTOM_BAND_MIN_ROWS)
}

/// What a frame shows: a panel placed in `area`, titled `title`, centred.
#[derive(Debug, PartialEq, Eq)]
pub struct Panel {
    pub area: Region,
    pub title: String,
}

/// The panel of a frame of size `size` whose bands are `bands`: it stands in
/// the middle band and its title gives the frame's height and width.
pub fn panel_in(bands: &Vec<Region>, size: Region) -> (p: Panel)
    requires
        bands@.len() == 3,
    ensures
        p.area == bands@[1],
        p.title@ == dimensions_title(size.height as nat, size.width as nat),
{
    Panel { area: bands[1], title: dimensions_label(size.height, size.width) }
}

/// The panel drawn on a frame of size `size`: it stands in the middle of the
/// frame's three bands, spans the frame's full width, and is titled with the
/// frame's height and width.
pub fn frame_panel(size: Region) -> (p: Panel)
    requires
        fits_layout(size),
    ensures
        exists|bands: Seq<Region>| is_band_split(size, bands) && p.area == bands[1],
        p.area.x == size.x,
        p.area.width == size.width,
        p.title@ == dimensions_title(size.height as nat, size.width as nat),
{
    let bands = frame_regions(size);
    let p = panel_in(&bands, size);
    assert(bands@[1].x == size.x && bands@[1].width == size.width);
    p
}

} // verus!
