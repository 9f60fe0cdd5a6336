//! The scenery: time of day, ground style, background elements and stars.
use vstd::prelude::*;
use rand::rngs::ThreadRng;
use crate::clock::local_hour;
use crate::rng::{gen_range, pick, thread_rng};
use crate::text::{chars_of, push_char};

verus! {

/// Time of day, for the background.
#[derive(Debug, Clone, Copy, PartialEq, Eq, Structural)]
pub enum TimeOfDay {
    /// 6-11: sun rising.
    Morning,
    /// 12-17: full sun.
    Day,
    /// 18-20: sunset.
    Evening,
    /// 21-5: moon and stars.
    Night,
}

/// The time of day of an hour (0-23).
pub open spec fn time_of_hour(hour: int) -> TimeOfDay {
    if 6 <= hour <= 11 {
        TimeOfDay::Morning
    } else if 12 <= hour <= 17 {
        TimeOfDay::Day
    } else if 18 <= hour <= 20 {
        TimeOfDay::Evening
    } else {
        TimeOfDay::Night
    }
}

impl TimeOfDay {
    /// The time of day of an hour (0-23).
    pub fn from_hour(hour: u32) -> (t: TimeOfDay)
        ensures
            t == time_of_hour(hour as int),
    {
        if 6 <= hour && hour <= 11 {
            TimeOfDay::Morning
        } else if 12 <= hour && hour <= 17 {
            TimeOfDay::Day
        } else if 18 <= hour && hour <= 20 {
            TimeOfDay::Evening
        } else {
            TimeOfDay::Night
        }
    }

    /// The time of day now, by the local clock.
    pub fn current() -> (t: TimeOfDay)
        ensures
            exists|h: int| 0 <= h < 24 && t == time_of_hour(h),
    {
        let hour = local_hour();
        TimeOfDay::from_hour(hour)
    }
}

/// Ground styles, rotated weekly.
#[derive(Debug, Clone, Copy, PartialEq, Eq, Structural)]
pub enum GroundStyle {
    /// Sand, shells, waves.
    Beach,
    /// Grass, flowers.
    Garden,
    /// Pebbles, stones.
    Rocky,
    /// A simple meadow.
    Minimal,
}

/// The ground style with index `i` (0-3).
pub open spec fn style_of_index(i: int) -> GroundStyle {
    if i == 0 {
        GroundStyle::Beach
    } else if i == 1 {
        GroundStyle::Garden
    } else if i == 2 {
        GroundStyle::Rocky
    } else {
        GroundStyle::Minimal
    }
}

/// The characters that a style's ground is drawn from: for the beach, garden and
/// rocky styles those of their decoration chunks, so that each character comes
/// up as often as it appears in them; the minimal style has the dot alone.
pub open spec fn ground_text(style: GroundStyle) -> &'static str {
    match style {
        GroundStyle::Beach => "...........,,.::~~~~o..oo@''",
        GroundStyle::Garden => "...........,`.''^^^^^^**++vv()",
        GroundStyle::Rocky => ".........oo.ooO..OO::~~~~",
        GroundStyle::Minimal => ".",
    }
}

impl Default for GroundStyle {
    /// The beach.
    fn default() -> (s: GroundStyle)
        ensures
            s == GroundStyle::Beach,
    {
        GroundStyle::Beach
    }
}

impl GroundStyle {
    /// The style after this one, in the order beach, garden, rocky, minimal
    /// and round again.
    pub fn next(&self) -> (s: GroundStyle)
        ensures
            *self == style_of_index(0) ==> s == style_of_index(1),
            *self == style_of_index(1) ==> s == style_of_index(2),
            *self == style_of_index(2) ==> s == style_of_index(3),
            *self == style_of_index(3) ==> s == style_of_index(0),
    {
        match self {
            GroundStyle::Beach => GroundStyle::Garden,
            GroundStyle::Garden => GroundStyle::Rocky,
            GroundStyle::Rocky => GroundStyle::Minimal,
            GroundStyle::Minimal => GroundStyle::Beach,
        }
    }

    /// One of the four styles, at random.
    pub fn random(rng: &mut ThreadRng) -> (s: GroundStyle)
        ensures
            exists|i: int| 0 <= i < 4 && s == style_of_index(i),
    {
        let i = gen_range(rng, 0, 4);
        let s = if i == 0 {
            GroundStyle::Beach
        } else if i == 1 {
            GroundStyle::Garden
        } else if i == 2 {
            GroundStyle::Rocky
        } else {
            GroundStyle::Minimal
        };
        assert(s == style_of_index(i as int));
        s
    }

    /// The characters that this style's ground is drawn from.
    pub fn ground_chars(&self) -> (c: Vec<char>)
        ensures
            c@ == ground_text(*self)@,
            c@.len() > 0,
    {
        match self {
            GroundStyle::Beach => {
                proof { reveal_strlit("...........,,.::~~~~o..oo@''"); }
                chars_of("...........,,.::~~~~o..oo@''")
            },
            GroundStyle::Garden => {
                proof { reveal_strlit("...........,`.''^^^^^^**++vv()"); }
                chars_of("...........,`.''^^^^^^**++vv()")
            },
            GroundStyle::Rocky => {
                proof { reveal_strlit(".........oo.ooO..OO::~~~~"); }
                chars_of(".........oo.ooO..OO::~~~~")
            },
            GroundStyle::Minimal => {
                proof { reveal_strlit("."); }
                chars_of(".")
            },
        }
    }
}

/// A ground line of `width` cells, each a random character of the style.
fn ground_line_for(width: u16, style: GroundStyle, rng: &mut ThreadRng) -> (line: String)
    ensures
        line@.len() == width,
        forall|i: int| 0 <= i < width ==> ground_text(style)@.contains(#[trigger] line@[i]),
{
    let chars = style.ground_chars();
    let mut line = String::new();
    let mut i: u16 = 0;
    while i < width
        invariant
            i <= width,
            chars@ == ground_text(style)@,
            chars@.len() > 0,
            line@.len() == i,
            forall|k: int| 0 <= k < i ==> ground_text(style)@.contains(#[trigger] line@[k]),
        decreases width - i,
    {
        let c = match pick(chars.as_slice(), rng) {
            Some(c) => c,
            None => '.',
        };
        push_char(&mut line, c);
        i += 1;
    }
    line
}

/// A piece of background art placed at a cell.
#[derive(Debug, Clone)]
pub struct PositionedElement {
    pub x: u16,
    pub y: u16,
    pub content: Vec<String>,
}

/// The lines of a piece of art.
fn art(lines: &[&str]) -> (v: Vec<String>)
    ensures
        v@.len() == lines@.len(),
        forall|i: int| 0 <= i < lines@.len() ==> #[trigger] v@[i]@ == lines@[i]@,
{
    let mut v: Vec<String> = Vec::new();
    let mut i: usize = 0;
    while i < lines.len()
        invariant
            i <= lines@.len(),
            v@.len() == i,
            forall|k: int| 0 <= k < i ==> #[trigger] v@[k]@ == lines@[k]@,
        decreases lines@.len() - i,
    {
        v.push(String::from_str(lines[i]));
        i += 1;
    }
    v
}

/// The text of each line of a piece of art.
pub open spec fn lines_of(v: Seq<String>) -> Seq<Seq<char>> {
    v.map_values(|l: String| l@)
}

/// The lines of the sun.
pub open spec fn sun_lines() -> Seq<Seq<char>> {
    seq!["  \\*/  "@, "-- O --"@, "  /*\\  "@]
}

/// The lines of the small moon.
pub open spec fn moon_lines() -> Seq<Seq<char>> {
    seq!["  ,-,"@, " /.("@, " \\ {"@, "  `-`"@]
}

/// The lines of the small cloud.
pub open spec fn cloud_small_lines() -> Seq<Seq<char>> {
    seq!["  .--.  "@, " (    ) "@, "  `--'  "@]
}

/// The lines of the large cloud.
pub open spec fn cloud_large_lines() -> Seq<Seq<char>> {
    seq!["   .---.   "@, "  (     )  "@, " (       ) "@, "  `-----'  "@]
}

/// The sun.
pub fn sun_art() -> (v: Vec<String>)
    ensures
        lines_of(v@) == sun_lines(),
{
    let v = art(&["  \\*/  ", "-- O --", "  /*\\  "]);
    assert(lines_of(v@) =~= sun_lines());
    v
}

/// The small moon.
pub fn moon_art() -> (v: Vec<String>)
    ensures
        lines_of(v@) == moon_lines(),
{
    let v = art(&["  ,-,", " /.(", " \\ {", "  `-`"]);
    assert(lines_of(v@) =~= moon_lines());
    v
}

/// The small cloud (8 columns wide).
pub fn cloud_small_art() -> (v: Vec<String>)
    ensures
        lines_of(v@) == cloud_small_lines(),
{
    let v = art(&["  .--.  ", " (    ) ", "  `--'  "]);
    assert(lines_of(v@) =~= cloud_small_lines());
    v
}

/// The large cloud (11 columns wide).
pub fn cloud_large_art() -> (v: Vec<String>)
    ensures
        lines_of(v@) == cloud_large_lines(),
{
    let v = art(&["   .---.   ", "  (     )  ", " (       ) ", "  `-----'  "]);
    assert(lines_of(v@) =~= cloud_large_lines());
    v
}

/// Where the background elements may be: nothing on a screen under 20 columns or
/// 6 rows; otherwise first the sun (by day, in the middle third of the width, in
/// the top rows) or the moon (at night, in the second quarter of the width, on
/// the top row), then up to two clouds by day, one in the morning or evening and
/// none at night, each a small or a large cloud fully inside the width and in
/// the top third.
pub open spec fn background_ok(width: int, height: int, time: TimeOfDay, els: Seq<PositionedElement>) -> bool {
    if height < 6 || width < 20 {
        els.len() == 0
    } else {
        let max_clouds: int = match time {
            TimeOfDay::Day => 2,
            TimeOfDay::Morning | TimeOfDay::Evening => 1,
            TimeOfDay::Night => 0,
        };
        &&& 1 <= els.len() <= 1 + max_clouds
        &&& time != TimeOfDay::Night ==> width / 3 <= els[0].x < width * 2 / 3 && els[0].y < 2 && els[0].y < height / 4
            && lines_of(els[0].content@) == sun_lines()
        &&& time == TimeOfDay::Night ==> width / 4 <= els[0].x < width / 2 && els[0].y == 0
            && lines_of(els[0].content@) == moon_lines()
        &&& forall|i: int| 1 <= i < els.len() ==> #[trigger] cloud_ok(width, height, els[i])
    }
}

/// A cloud of the background: the small cloud, starting at least 8 columns
/// before the right edge, or the large one, at least 11 columns before it; in
/// the top third of the height.
pub open spec fn cloud_ok(width: int, height: int, c: PositionedElement) -> bool {
    &&& (lines_of(c.content@) == cloud_small_lines() && c.x < width - 8) || (lines_of(c.content@)
        == cloud_large_lines() && c.x < width - 11)
    &&& c.y < height / 3
}

/// Places the sun or moon and the clouds for a screen of the given size (see
/// `background_ok`); positions and the number of clouds are random.
fn background_for(width: u16, height: u16, time: TimeOfDay, rng: &mut ThreadRng) -> (els: Vec<PositionedElement>)
    requires
        height < 6 || width < 20 || time == TimeOfDay::Night || width <= 32767,
    ensures
        background_ok(width as int, height as int, time, els@),
{
    let mut elements: Vec<PositionedElement> = Vec::new();
    if height < 6 || width < 20 {
        return elements;
    }
    match time {
        TimeOfDay::Morning | TimeOfDay::Day | TimeOfDay::Evening => {
            let sun_x = gen_range(rng, (width / 3) as u64, (width * 2 / 3) as u64) as u16;
            let top: u16 = if 2 < height / 4 { 2 } else { height / 4 };
            let sun_y = gen_range(rng, 0, top as u64) as u16;
            elements.push(PositionedElement { x: sun_x, y: sun_y, content: sun_art() });
        },
        TimeOfDay::Night => {
            let moon_x = gen_range(rng, (width / 4) as u64, (width / 2) as u64) as u16;
            elements.push(PositionedElement { x: moon_x, y: 0, content: moon_art() });
        },
    }
    let cloud_count: u64 = match time {
        TimeOfDay::Day => gen_range(rng, 0, 3),
        TimeOfDay::Morning | TimeOfDay::Evening => gen_range(rng, 0, 2),
        TimeOfDay::Night => 0,
    };
    let mut n: u64 = 0;
    while n < cloud_count
        invariant
            n <= cloud_count,
            cloud_count <= match time {
                TimeOfDay::Day => 2u64,
                TimeOfDay::Morning | TimeOfDay::Evening => 1u64,
                TimeOfDay::Night => 0u64,
            },
            20 <= width,
            6 <= height,
            elements@.len() == 1 + n,
            time != TimeOfDay::Night ==> width / 3 <= elements@[0].x < width * 2 / 3 && elements@[0].y < 2
                && elements@[0].y < height / 4 && lines_of(elements@[0].content@) == sun_lines(),
            time == TimeOfDay::Night ==> width / 4 <= elements@[0].x < width / 2 && elements@[0].y == 0
                && lines_of(elements@[0].content@) == moon_lines(),
            forall|i: int| 1 <= i < elements@.len() ==> #[trigger] cloud_ok(width as int, height as int, elements@[i]),
        decreases cloud_count - n,
    {
        let small = gen_range(rng, 0, 2) == 0;
        let cloud = if small { cloud_small_art() } else { cloud_large_art() };
        let cloud_width: u16 = if small { 8 } else { 11 };
        let cloud_x = gen_range(rng, 0, (width - cloud_width) as u64) as u16;
        let cloud_y = gen_range(rng, 0, (height / 3) as u64) as u16;
        elements.push(PositionedElement { x: cloud_x, y: cloud_y, content: cloud });
        n += 1;
    }
    elements
}

/// The star characters.
pub open spec fn star_chars() -> Seq<char> {
    seq!['*', '+', '.', '*', '.', '+', '*']
}

/// A star in the night sky.
#[derive(Debug, Clone, Copy, PartialEq, Eq, Structural)]
pub struct Star {
    pub x: u16,
    pub y: u16,
    pub glyph: char,
}

/// Stars fit a screen: one per 40 cells, at most 30, anywhere across the width
/// and in the upper two thirds of the height (at least the top row).
pub open spec fn stars_ok(width: int, height: int, stars: Seq<Star>) -> bool {
    &&& stars.len() == if (width * height) / 40 < 30 { (width * height) / 40 } else { 30 }
    &&& forall|i: int| 0 <= i < stars.len() ==> {
        let s = #[trigger] stars[i];
        &&& s.x < width
        &&& s.y < if height * 2 / 3 > 1 { height * 2 / 3 } else { 1 }
        &&& star_chars().contains(s.glyph)
    }
}

/// Stars for the night sky at random places (see `stars_ok`).
fn stars_for(width: u16, height: u16, rng: &mut ThreadRng) -> (stars: Vec<Star>)
    requires
        height <= 32767,
    ensures
        stars_ok(width as int, height as int, stars@),
{
    let mut stars: Vec<Star> = Vec::new();
    assert((width as u32) * (height as u32) <= 65535u32 * 32767u32) by (nonlinear_arith)
        requires
            height <= 32767,
    ;
    let cells: u32 = (width as u32) * (height as u32);
    let mut star_count: u32 = cells / 40;
    if star_count > 30 {
        star_count = 30;
    }
    assert(width == 0 ==> cells == 0) by (nonlinear_arith)
        requires
            cells == width * height,
    ;
    let chars = ['*', '+', '.', '*', '.', '+', '*'];
    assert(chars@ =~= star_chars());
    let mut i: u32 = 0;
    while i < star_count
        invariant
            i <= star_count,
            star_count <= 30,
            star_count > 0 ==> width > 0,
            height <= 32767,
            chars@ == star_chars(),
            stars@.len() == i,
            forall|k: int| 0 <= k < stars@.len() ==> {
                let s = #[trigger] stars@[k];
                &&& s.x < width
                &&& s.y < if height * 2 / 3 > 1 { height * 2 / 3 } else { 1 }
                &&& star_chars().contains(s.glyph)
            },
        decreases star_count - i,
    {
        let max_y: u16 = if height * 2 / 3 > 1 { height * 2 / 3 } else { 1 };
        let x = gen_range(rng, 0, width as u64) as u16;
        let y = gen_range(rng, 0, max_y as u64) as u16;
        let c = match pick(chars.as_slice(), rng) {
            Some(c) => c,
            None => '*',
        };
        stars.push(Star { x, y, glyph: c });
        i += 1;
    }
    stars
}

/// The whole scenery: ground, sky and stars for a screen area.
#[derive(Debug)]
pub struct Environment {
    pub ground_style: GroundStyle,
    /// The ground line, one character per column.
    pub ground_line: String,
    /// Sun or moon and clouds.
    pub background_elements: Vec<PositionedElement>,
    /// Stars, at night only.
    pub stars: Vec<Star>,
    pub width: u16,
    pub height: u16,
    pub time_of_day: TimeOfDay,
}

/// The sky fits the screen and the time: the background elements, and stars
/// exactly at night.
pub open spec fn sky_ok(width: int, height: int, time: TimeOfDay, els: Seq<PositionedElement>, stars: Seq<Star>) -> bool {
    &&& background_ok(width, height, time, els)
    &&& time == TimeOfDay::Night ==> stars_ok(width, height, stars)
    &&& time != TimeOfDay::Night ==> stars.len() == 0
}

impl Environment {
    /// Scenery for a screen area and ground style at the present time of day;
    /// the ground, the positions and the clouds are random.
    pub fn generate(width: u16, height: u16, style: GroundStyle) -> (e: Environment)
        requires
            width <= 32767,
            height <= 32767,
        ensures
            e.ground_style == style,
            e.width == width,
            e.height == height,
            exists|h: int| 0 <= h < 24 && e.time_of_day == time_of_hour(h),
            e.ground_line@.len() == width,
            forall|i: int| 0 <= i < width ==> ground_text(style)@.contains(#[trigger] e.ground_line@[i]),
            sky_ok(width as int, height as int, e.time_of_day, e.background_elements@, e.stars@),
    {
        let mut rng = thread_rng();
        let time_of_day = TimeOfDay::current();
        let ground_line = Self::generate_ground_line(width, style, &mut rng);
        let background_elements = Self::generate_background(width, height, time_of_day, &mut rng);
        let stars = if time_of_day == TimeOfDay::Night {
            Self::generate_stars(width, height, &mut rng)
        } else {
            Vec::new()
        };
        Environment { ground_style: style, ground_line, background_elements, stars, width, height, time_of_day }
    }

    /// A ground line of `width` cells, each a random character of the style.
    pub fn generate_ground_line(width: u16, style: GroundStyle, rng: &mut ThreadRng) -> (line: String)
        ensures
            line@.len() == width,
            forall|i: int| 0 <= i < width ==> ground_text(style)@.contains(#[trigger] line@[i]),
    {
        ground_line_for(width, style, rng)
    }

    /// Places the sun or moon and the clouds (see `background_ok`).
    pub fn generate_background(width: u16, height: u16, time: TimeOfDay, rng: &mut ThreadRng) -> (els: Vec<PositionedElement>)
        requires
            height < 6 || width < 20 || time == TimeOfDay::Night || width <= 32767,
        ensures
            background_ok(width as int, height as int, time, els@),
    {
        background_for(width, height, time, rng)
    }

    /// Stars for the night sky (see `stars_ok`).
    pub fn generate_stars(width: u16, height: u16, rng: &mut ThreadRng) -> (stars: Vec<Star>)
        requires
            height <= 32767,
        ensures
            stars_ok(width as int, height as int, stars@),
    {
        stars_for(width, height, rng)
    }

    /// Moves the scenery to the time of day `new_time`: when it differs from the
    /// present one, the sky is laid out anew for it; otherwise nothing changes.
    pub fn update_time_to(&mut self, new_time: TimeOfDay, rng: &mut ThreadRng)
        requires
            old(self).width <= 32767,
            old(self).height <= 32767,
        ensures
            final(self).time_of_day == new_time,
            new_time == old(self).time_of_day ==> *final(self) == *old(self),
            new_time != old(self).time_of_day ==> sky_ok(
                final(self).width as int,
                final(self).height as int,
                new_time,
                final(self).background_elements@,
                final(self).stars@,
            ),
            final(self).width == old(self).width,
            final(self).height == old(self).height,
            final(self).ground_style == old(self).ground_style,
            final(self).ground_line@ == old(self).ground_line@,
    {
        if new_time != self.time_of_day {
            self.time_of_day = new_time;
            self.background_elements = Self::generate_background(self.width, self.height, new_time, rng);
            self.stars = if new_time == TimeOfDay::Night {
                Self::generate_stars(self.width, self.height, rng)
            } else {
                Vec::new()
            };
        }
    }

    /// Follows the clock: moves the scenery to the time of day of the present
    /// hour (see `update_time_to`).
    pub fn update_time(&mut self)
        requires
            old(self).width <= 32767,
            old(self).height <= 32767,
        ensures
            exists|h: int| 0 <= h < 24 && final(self).time_of_day == time_of_hour(h),
            final(self).time_of_day == old(self).time_of_day ==> *final(self) == *old(self),
            final(self).time_of_day != old(self).time_of_day ==> sky_ok(
                final(self).width as int,
                final(self).height as int,
                final(self).time_of_day,
                final(self).background_elements@,
                final(self).stars@,
            ),
            final(self).width == old(self).width,
            final(self).height == old(self).height,
            final(self).ground_style == old(self).ground_style,
            final(self).ground_line@ == old(self).ground_line@,
    {
        let new_time = TimeOfDay::current();
        let mut rng = thread_rng();
        self.update_time_to(new_time, &mut rng);
    }
}

} // verus!
