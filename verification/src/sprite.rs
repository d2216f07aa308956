//! The pixel-art pet: a body drawn once as a character grid, faces painted
//! over it, and the rendering of two pixel rows into one line of half blocks.

use vstd::prelude::*;

use crate::pet::{Mood, Reaction};
use crate::text::{chars_of, decimal, padded, push_decimal, push_padded, push_spaces, push_str, spaces};

verus! {

/// Sprite width in pixels, which is also the columns it takes.
pub const WIDTH: usize = 18;
/// Sprite height in pixels; two pixel rows make one line.
pub const SPRITE_HEIGHT: usize = 24;

/// Row `i` of the body art. Legend: `.` transparent, `k` outline, `d` dark
/// orange, `o` orange, `O` light orange, `c` cream belly, `C` cream highlight.
pub open spec fn body_row(i: int) -> Seq<char> {
    if i == 0 {
        "...kkk......kkk..."@
    } else if i == 1 {
        "...kok......kok..."@
    } else if i == 2 {
        "...kok......kok..."@
    } else if i == 3 {
        "..kkokk....kkokk.."@
    } else if i == 4 {
        "..koook....koook.."@
    } else if i == 5 {
        ".kkodokkkkkkodokk."@
    } else if i == 6 {
        ".koodOOkOokoodook."@
    } else if i == 7 {
        ".koOOOOOOOooooook."@
    } else if i == 8 {
        ".kkkkOOOOOOookkkk."@
    } else if i == 9 {
        "..kkOOOOOOooookk.."@
    } else if i == 10 {
        "..kOOOOOOoooddok.."@
    } else if i == 11 {
        "..kOOOOOoooddddk.."@
    } else if i == 12 {
        ".kkOOOOoooooddokk."@
    } else if i == 13 {
        "kkOOOOoCCccoooookk"@
    } else if i == 14 {
        "kooOOoCCCCccoooook"@
    } else if i == 15 {
        "koooooCCCCccoooook"@
    } else if i == 16 {
        "kkkoddCCCCccoookkk"@
    } else if i == 17 {
        "..koddcCCcccoook.."@
    } else if i == 18 {
        "..koddccccccoook.."@
    } else if i == 19 {
        "..kkooccccccookk.."@
    } else if i == 20 {
        "...kkooccccookk..."@
    } else if i == 21 {
        "...koooooooodk...."@
    } else if i == 22 {
        "...kookkookddk...."@
    } else {
        "...kkkkkkkkkkk...."@
    }
}

fn body_row_str(i: usize) -> (r: &'static str)
    requires
        i < SPRITE_HEIGHT,
    ensures
        r@ == body_row(i as int),
{
    match i {
        0 => "...kkk......kkk...",
        1 => "...kok......kok...",
        2 => "...kok......kok...",
        3 => "..kkokk....kkokk..",
        4 => "..koook....koook..",
        5 => ".kkodokkkkkkodokk.",
        6 => ".koodOOkOokoodook.",
        7 => ".koOOOOOOOooooook.",
        8 => ".kkkkOOOOOOookkkk.",
        9 => "..kkOOOOOOooookk..",
        10 => "..kOOOOOOoooddok..",
        11 => "..kOOOOOoooddddk..",
        12 => ".kkOOOOoooooddokk.",
        13 => "kkOOOOoCCccoooookk",
        14 => "kooOOoCCCCccoooook",
        15 => "koooooCCCCccoooook",
        16 => "kkkoddCCCCccoookkk",
        17 => "..koddcCCcccoook..",
        18 => "..koddccccccoook..",
        19 => "..kkooccccccookk..",
        20 => "...kkooccccookk...",
        21 => "...koooooooodk....",
        22 => "...kookkookddk....",
        _ => "...kkkkkkkkkkk....",
    }
}

/// Every body row is as wide as the sprite.
pub proof fn lemma_body_rows_width(i: int)
    requires
        0 <= i < SPRITE_HEIGHT,
    ensures
        body_row(i).len() == WIDTH,
{
    reveal_strlit("...kkk......kkk...");
    reveal_strlit("...kok......kok...");
    reveal_strlit("...kok......kok...");
    reveal_strlit("..kkokk....kkokk..");
    reveal_strlit("..koook....koook..");
    reveal_strlit(".kkodokkkkkkodokk.");
    reveal_strlit(".koodOOkOokoodook.");
    reveal_strlit(".koOOOOOOOooooook.");
    reveal_strlit(".kkkkOOOOOOookkkk.");
    reveal_strlit("..kkOOOOOOooookk..");
    reveal_strlit("..kOOOOOOoooddok..");
    reveal_strlit("..kOOOOOoooddddk..");
    reveal_strlit(".kkOOOOoooooddokk.");
    reveal_strlit("kkOOOOoCCccoooookk");
    reveal_strlit("kooOOoCCCCccoooook");
    reveal_strlit("koooooCCCCccoooook");
    reveal_strlit("kkkoddCCCCccoookkk");
    reveal_strlit("..koddcCCcccoook..");
    reveal_strlit("..koddccccccoook..");
    reveal_strlit("..kkooccccccookk..");
    reveal_strlit("...kkooccccookk...");
    reveal_strlit("...koooooooodk....");
    reveal_strlit("...kookkookddk....");
    reveal_strlit("...kkkkkkkkkkk....");
}

/// A character of the body art's legend: transparent, outline, the three
/// oranges, or the two creams.
pub open spec fn body_legend(c: char) -> bool {
    c == '.' || c == 'k' || c == 'd' || c == 'o' || c == 'O' || c == 'c' || c == 'C'
}

/// The body art uses only its legend, so every pixel that is not transparent
/// has a colour of its own (never the loud colour of an unknown character).
pub proof fn lemma_body_pixels_in_legend(i: int, j: int)
    requires
        0 <= i < SPRITE_HEIGHT,
        0 <= j < WIDTH,
    ensures
        body_legend(body_row(i)[j]),
        body_row(i)[j] != '.' ==> palette_of(body_row(i)[j]) is Some && palette_of(body_row(i)[j])
            != Some(Rgb { r: 255, g: 0, b: 255 }),
{
    lemma_body_rows_width(i);
    reveal_strlit("...kkk......kkk...");
    reveal_strlit("...kok......kok...");
    reveal_strlit("..kkokk....kkokk..");
    reveal_strlit("..koook....koook..");
    reveal_strlit(".kkodokkkkkkodokk.");
    reveal_strlit(".koodOOkOokoodook.");
    reveal_strlit(".koOOOOOOOooooook.");
    reveal_strlit(".kkkkOOOOOOookkkk.");
    reveal_strlit("..kkOOOOOOooookk..");
    reveal_strlit("..kOOOOOOoooddok..");
    reveal_strlit("..kOOOOOoooddddk..");
    reveal_strlit(".kkOOOOoooooddokk.");
    reveal_strlit("kkOOOOoCCccoooookk");
    reveal_strlit("kooOOoCCCCccoooook");
    reveal_strlit("koooooCCCCccoooook");
    reveal_strlit("kkkoddCCCCccoookkk");
    reveal_strlit("..koddcCCcccoook..");
    reveal_strlit("..koddccccccoook..");
    reveal_strlit("..kkooccccccookk..");
    reveal_strlit("...kkooccccookk...");
    reveal_strlit("...koooooooodk....");
    reveal_strlit("...kookkookddk....");
    reveal_strlit("...kkkkkkkkkkk....");
}

/// The rows of the body art.
pub fn body_rows() -> (rows: Vec<&'static str>)
    ensures
        rows@.len() == SPRITE_HEIGHT,
        forall|i: int| 0 <= i < SPRITE_HEIGHT ==> #[trigger] rows@[i]@ == body_row(i) && rows@[i]@.len() == WIDTH,
{
    let mut rows: Vec<&'static str> = Vec::new();
    let mut i: usize = 0;
    while i < SPRITE_HEIGHT
        invariant
            i <= SPRITE_HEIGHT,
            rows@.len() == i,
            forall|j: int| 0 <= j < i ==> #[trigger] rows@[j]@ == body_row(j) && rows@[j]@.len() == WIDTH,
        decreases SPRITE_HEIGHT - i,
    {
        proof {
            lemma_body_rows_width(i as int);
        }
        rows.push(body_row_str(i));
        i = i + 1;
    }
    rows
}

/// A grid's pixels, row by row.
pub open spec fn pixels(grid: Seq<Vec<char>>) -> Seq<Seq<char>> {
    grid.map_values(|row: Vec<char>| row@)
}

/// The body without a face.
pub open spec fn base_pixels() -> Seq<Seq<char>> {
    Seq::new(SPRITE_HEIGHT as nat, |i: int| body_row(i))
}

/// The grid has the sprite's shape.
pub open spec fn sprite_shaped(g: Seq<Seq<char>>) -> bool {
    &&& g.len() == SPRITE_HEIGHT
    &&& forall|i: int| 0 <= i < SPRITE_HEIGHT ==> #[trigger] g[i].len() == WIDTH
}

/// `g` with pixel (`row`, `col`) painted `c`.
pub open spec fn painted(g: Seq<Seq<char>>, row: int, col: int, c: char) -> Seq<Seq<char>> {
    g.update(row, g[row].update(col, c))
}

pub fn base_grid() -> (grid: Vec<Vec<char>>)
    ensures
        pixels(grid@) == base_pixels(),
        sprite_shaped(pixels(grid@)),
{
    let mut grid: Vec<Vec<char>> = Vec::new();
    let mut i: usize = 0;
    while i < SPRITE_HEIGHT
        invariant
            i <= SPRITE_HEIGHT,
            grid@.len() == i,
            forall|j: int| 0 <= j < i ==> #[trigger] grid@[j]@ == body_row(j),
        decreases SPRITE_HEIGHT - i,
    {
        grid.push(chars_of(body_row_str(i)));
        i = i + 1;
    }
    assert(pixels(grid@) =~= base_pixels());
    assert forall|i: int| 0 <= i < SPRITE_HEIGHT implies #[trigger] pixels(grid@)[i].len() == WIDTH by {
        lemma_body_rows_width(i);
    }
    grid
}

fn copy_row(row: &Vec<char>) -> (r: Vec<char>)
    ensures
        r@ == row@,
{
    let mut r: Vec<char> = Vec::new();
    let mut i: usize = 0;
    while i < row.len()
        invariant
            i <= row.len(),
            r@ == row@.take(i as int),
        decreases row.len() - i,
    {
        r.push(row[i]);
        i = i + 1;
        assert(r@ =~= row@.take(i as int));
    }
    assert(row@.take(i as int) =~= row@);
    r
}

fn paint(grid: &mut Vec<Vec<char>>, row: usize, col: usize, c: char)
    requires
        sprite_shaped(pixels(old(grid)@)),
        row < SPRITE_HEIGHT,
        col < WIDTH,
    ensures
        pixels(final(grid)@) == painted(pixels(old(grid)@), row as int, col as int, c),
        sprite_shaped(pixels(final(grid)@)),
{
    assert(pixels(grid@)[row as int] == grid@[row as int]@);
    let mut r = copy_row(&grid[row]);
    r.set(col, c);
    grid.set(row, r);
    assert(pixels(grid@) =~= painted(pixels(old(grid)@), row as int, col as int, c));
}

/// Visible emotional states, from the pet's mood and current reaction.
#[derive(Debug, Clone, Copy, PartialEq, Eq, Structural)]
pub enum Expression {
    Neutral,
    Happy,
    Excited,
    Curious,
    Confused,
    Wincing,
    Anxious,
    Sad,
    Sleepy,
}

/// A reaction to the diff decides the face; a calm pet shows its mood.
pub open spec fn expression_of(mood: Mood, reaction: Reaction) -> Expression {
    match reaction {
        Reaction::Excited => Expression::Excited,
        Reaction::Curious => Expression::Curious,
        Reaction::Confused => Expression::Confused,
        Reaction::Wincing => Expression::Wincing,
        Reaction::Nodding => Expression::Happy,
        Reaction::Calm => match mood {
            Mood::Thriving => Expression::Happy,
            Mood::Content => Expression::Happy,
            Mood::Neutral => Expression::Neutral,
            Mood::Anxious => Expression::Anxious,
            Mood::Sulking => Expression::Sad,
        },
    }
}

impl Expression {
    pub fn from_mood_reaction(mood: Mood, reaction: Reaction) -> (e: Self)
        ensures
            e == expression_of(mood, reaction),
    {
        match reaction {
            Reaction::Excited => Expression::Excited,
            Reaction::Curious => Expression::Curious,
            Reaction::Confused => Expression::Confused,
            Reaction::Wincing => Expression::Wincing,
            Reaction::Nodding => Expression::Happy,
            Reaction::Calm => match mood {
                Mood::Thriving => Expression::Happy,
                Mood::Content => Expression::Happy,
                Mood::Neutral => Expression::Neutral,
                Mood::Anxious => Expression::Anxious,
                Mood::Sulking => Expression::Sad,
            },
        }
    }
}

/// The expressions that the stdout preview shows, each with its label.
pub fn preview_expressions() -> (r: Vec<(&'static str, Expression)>)
    ensures
        r@.len() == 9,
        r@[0].0@ == "neutral"@ && r@[0].1 == Expression::Neutral,
        r@[1].0@ == "happy"@ && r@[1].1 == Expression::Happy,
        r@[2].0@ == "excited"@ && r@[2].1 == Expression::Excited,
        r@[3].0@ == "curious"@ && r@[3].1 == Expression::Curious,
        r@[4].0@ == "confused"@ && r@[4].1 == Expression::Confused,
        r@[5].0@ == "wincing"@ && r@[5].1 == Expression::Wincing,
        r@[6].0@ == "anxious"@ && r@[6].1 == Expression::Anxious,
        r@[7].0@ == "sad"@ && r@[7].1 == Expression::Sad,
        r@[8].0@ == "sleepy"@ && r@[8].1 == Expression::Sleepy,
{
    let mut r: Vec<(&'static str, Expression)> = Vec::new();
    r.push(("neutral", Expression::Neutral));
    r.push(("happy", Expression::Happy));
    r.push(("excited", Expression::Excited));
    r.push(("curious", Expression::Curious));
    r.push(("confused", Expression::Confused));
    r.push(("wincing", Expression::Wincing));
    r.push(("anxious", Expression::Anxious));
    r.push(("sad", Expression::Sad));
    r.push(("sleepy", Expression::Sleepy));
    r
}

/// A reaction to a diff always wins over the mood.
pub proof fn lemma_reaction_wins(mood: Mood, other: Mood, reaction: Reaction)
    requires
        !(reaction is Calm),
    ensures
        expression_of(mood, reaction) == expression_of(other, reaction),
{
}

#[derive(Debug, Clone, Copy, PartialEq, Eq, Structural)]
pub enum Eyes {
    Open,
    Wide,
    Happy,
    Sad,
    Closed,
}

#[derive(Debug, Clone, Copy, PartialEq, Eq, Structural)]
pub enum Mouth {
    Neutral,
    Smile,
    Open,
    Frown,
}

pub const EYE_ROW_TOP: usize = 9;
pub const EYE_ROW_BOTTOM: usize = 10;
pub const LEFT_EYE: usize = 5;
pub const RIGHT_EYE: usize = 11;
pub const MOUTH_ROW: usize = 13;

pub open spec fn eyes_of(expr: Expression) -> Eyes {
    match expr {
        Expression::Neutral => Eyes::Open,
        Expression::Happy => Eyes::Happy,
        Expression::Excited => Eyes::Wide,
        Expression::Curious => Eyes::Wide,
        Expression::Confused => Eyes::Open,
        Expression::Wincing => Eyes::Closed,
        Expression::Anxious => Eyes::Wide,
        Expression::Sad => Eyes::Sad,
        Expression::Sleepy => Eyes::Closed,
    }
}

pub fn eyes_for(expr: Expression) -> (e: Eyes)
    ensures
        e == eyes_of(expr),
{
    match expr {
        Expression::Neutral => Eyes::Open,
        Expression::Happy => Eyes::Happy,
        Expression::Excited => Eyes::Wide,
        Expression::Curious => Eyes::Wide,
        Expression::Confused => Eyes::Open,
        Expression::Wincing => Eyes::Closed,
        Expression::Anxious => Eyes::Wide,
        Expression::Sad => Eyes::Sad,
        Expression::Sleepy => Eyes::Closed,
    }
}

pub open spec fn mouth_of(expr: Expression) -> Mouth {
    match expr {
        Expression::Neutral | Expression::Sleepy => Mouth::Neutral,
        Expression::Happy => Mouth::Smile,
        Expression::Excited => Mouth::Open,
        Expression::Curious | Expression::Confused | Expression::Anxious => Mouth::Neutral,
        Expression::Wincing | Expression::Sad => Mouth::Frown,
    }
}

pub fn mouth_for(expr: Expression) -> (m: Mouth)
    ensures
        m == mouth_of(expr),
{
    match expr {
        Expression::Neutral | Expression::Sleepy => Mouth::Neutral,
        Expression::Happy => Mouth::Smile,
        Expression::Excited => Mouth::Open,
        Expression::Curious | Expression::Confused | Expression::Anxious => Mouth::Neutral,
        Expression::Wincing | Expression::Sad => Mouth::Frown,
    }
}

/// The eye whose left pixel is at `col`, painted with its white highlight
/// toward the creature's outer edge.
pub open spec fn eye_painted(g: Seq<Seq<char>>, col: int, eyes: Eyes, mirror: bool) -> Seq<Seq<char>> {
    let outer = if mirror { col + 1 } else { col };
    let inner = if mirror { col } else { col + 1 };
    let top = EYE_ROW_TOP as int;
    let bottom = EYE_ROW_BOTTOM as int;
    match eyes {
        Eyes::Open => painted(
            painted(painted(painted(g, top, outer, 'w'), top, inner, 'e'), bottom, outer, 'e'),
            bottom,
            inner,
            'e',
        ),
        Eyes::Wide => painted(
            painted(
                painted(
                    painted(painted(painted(g, top - 1, outer, 'e'), top - 1, inner, 'e'), top, outer, 'w'),
                    top,
                    inner,
                    'e',
                ),
                bottom,
                outer,
                'e',
            ),
            bottom,
            inner,
            'e',
        ),
        Eyes::Happy => painted(painted(g, bottom, outer, 'e'), top, inner, 'e'),
        Eyes::Sad => painted(painted(g, top, outer, 'e'), bottom, inner, 'e'),
        Eyes::Closed => painted(painted(g, bottom, outer, 'e'), bottom, inner, 'e'),
    }
}

pub fn draw_eye(grid: &mut Vec<Vec<char>>, col: usize, eyes: Eyes, mirror: bool)
    requires
        sprite_shaped(pixels(old(grid)@)),
        col + 1 < WIDTH,
    ensures
        sprite_shaped(pixels(final(grid)@)),
        pixels(final(grid)@) == eye_painted(pixels(old(grid)@), col as int, eyes, mirror),
{
    let outer = if mirror { col + 1 } else { col };
    let inner = if mirror { col } else { col + 1 };
    match eyes {
        Eyes::Open => {
            paint(grid, EYE_ROW_TOP, outer, 'w');
            paint(grid, EYE_ROW_TOP, inner, 'e');
            paint(grid, EYE_ROW_BOTTOM, outer, 'e');
            paint(grid, EYE_ROW_BOTTOM, inner, 'e');
        },
        Eyes::Wide => {
            paint(grid, EYE_ROW_TOP - 1, outer, 'e');
            paint(grid, EYE_ROW_TOP - 1, inner, 'e');
            paint(grid, EYE_ROW_TOP, outer, 'w');
            paint(grid, EYE_ROW_TOP, inner, 'e');
            paint(grid, EYE_ROW_BOTTOM, outer, 'e');
            paint(grid, EYE_ROW_BOTTOM, inner, 'e');
        },
        Eyes::Happy => {
            paint(grid, EYE_ROW_BOTTOM, outer, 'e');
            paint(grid, EYE_ROW_TOP, inner, 'e');
        },
        Eyes::Sad => {
            paint(grid, EYE_ROW_TOP, outer, 'e');
            paint(grid, EYE_ROW_BOTTOM, inner, 'e');
        },
        Eyes::Closed => {
            paint(grid, EYE_ROW_BOTTOM, outer, 'e');
            paint(grid, EYE_ROW_BOTTOM, inner, 'e');
        },
    }
}

pub open spec fn mouth_painted(g: Seq<Seq<char>>, mouth: Mouth) -> Seq<Seq<char>> {
    let r = MOUTH_ROW as int;
    let a = 8int;
    let b = 9int;
    match mouth {
        Mouth::Neutral => painted(painted(g, r, a, 'm'), r, b, 'm'),
        Mouth::Smile => painted(
            painted(painted(painted(g, r, a - 1, 'm'), r + 1, a, 'm'), r + 1, b, 'm'),
            r,
            b + 1,
            'm',
        ),
        Mouth::Open => painted(
            painted(painted(painted(g, r, a, 'm'), r, b, 'm'), r + 1, a, 'p'),
            r + 1,
            b,
            'p',
        ),
        Mouth::Frown => painted(
            painted(painted(painted(g, r + 1, a - 1, 'm'), r, a, 'm'), r, b, 'm'),
            r + 1,
            b + 1,
            'm',
        ),
    }
}

pub fn draw_mouth(grid: &mut Vec<Vec<char>>, mouth: Mouth)
    requires
        sprite_shaped(pixels(old(grid)@)),
    ensures
        sprite_shaped(pixels(final(grid)@)),
        pixels(final(grid)@) == mouth_painted(pixels(old(grid)@), mouth),
{
    let a: usize = 8;
    let b: usize = 9;
    match mouth {
        Mouth::Neutral => {
            paint(grid, MOUTH_ROW, a, 'm');
            paint(grid, MOUTH_ROW, b, 'm');
        },
        Mouth::Smile => {
            paint(grid, MOUTH_ROW, a - 1, 'm');
            paint(grid, MOUTH_ROW + 1, a, 'm');
            paint(grid, MOUTH_ROW + 1, b, 'm');
            paint(grid, MOUTH_ROW, b + 1, 'm');
        },
        Mouth::Open => {
            paint(grid, MOUTH_ROW, a, 'm');
            paint(grid, MOUTH_ROW, b, 'm');
            paint(grid, MOUTH_ROW + 1, a, 'p');
            paint(grid, MOUTH_ROW + 1, b, 'p');
        },
        Mouth::Frown => {
            paint(grid, MOUTH_ROW + 1, a - 1, 'm');
            paint(grid, MOUTH_ROW, a, 'm');
            paint(grid, MOUTH_ROW, b, 'm');
            paint(grid, MOUTH_ROW + 1, b + 1, 'm');
        },
    }
}

pub open spec fn blushes(expr: Expression) -> bool {
    expr is Happy || expr is Excited
}

pub fn has_blush(expr: Expression) -> (r: bool)
    ensures
        r == blushes(expr),
{
    match expr {
        Expression::Happy | Expression::Excited => true,
        _ => false,
    }
}

pub open spec fn blush_painted(g: Seq<Seq<char>>) -> Seq<Seq<char>> {
    painted(
        painted(g, EYE_ROW_BOTTOM + 1, LEFT_EYE - 1, 'p'),
        EYE_ROW_BOTTOM + 1,
        RIGHT_EYE + 1,
        'p',
    )
}

pub fn draw_blush(grid: &mut Vec<Vec<char>>)
    requires
        sprite_shaped(pixels(old(grid)@)),
    ensures
        sprite_shaped(pixels(final(grid)@)),
        pixels(final(grid)@) == blush_painted(pixels(old(grid)@)),
{
    paint(grid, EYE_ROW_BOTTOM + 1, LEFT_EYE - 1, 'p');
    paint(grid, EYE_ROW_BOTTOM + 1, RIGHT_EYE + 1, 'p');
}

/// The pixels of an expression, optionally with its eyes blinked shut: the
/// eyes first, then the blush, then the mouth.
pub open spec fn expression_pixels(expr: Expression, blink: bool) -> Seq<Seq<char>> {
    let eyes = if blink { Eyes::Closed } else { eyes_of(expr) };
    let g1 = eye_painted(base_pixels(), LEFT_EYE as int, eyes, false);
    let g2 = eye_painted(g1, RIGHT_EYE as int, eyes, true);
    let g3 = if blushes(expr) { blush_painted(g2) } else { g2 };
    mouth_painted(g3, mouth_of(expr))
}

pub fn expression_grid(expr: Expression, blink: bool) -> (grid: Vec<Vec<char>>)
    ensures
        sprite_shaped(pixels(grid@)),
        pixels(grid@) == expression_pixels(expr, blink),
{
    let mut grid = base_grid();
    let eyes = if blink { Eyes::Closed } else { eyes_for(expr) };
    draw_eye(&mut grid, LEFT_EYE, eyes, false);
    draw_eye(&mut grid, RIGHT_EYE, eyes, true);
    if has_blush(expr) {
        draw_blush(&mut grid);
    }
    draw_mouth(&mut grid, mouth_for(expr));
    grid
}

/// Pixels where the eyes are drawn: the row above the eyes and the two eye
/// rows, at both eyes' columns.
pub open spec fn is_eye_pixel(row: int, col: int) -> bool {
    &&& EYE_ROW_TOP - 1 <= row <= EYE_ROW_BOTTOM
    &&& (col == LEFT_EYE || col == LEFT_EYE + 1 || col == RIGHT_EYE || col == RIGHT_EYE + 1)
}

/// The body with both eyes closed and nothing else painted.
pub open spec fn closed_eye_pixels() -> Seq<Seq<char>> {
    eye_painted(
        eye_painted(base_pixels(), LEFT_EYE as int, Eyes::Closed, false),
        RIGHT_EYE as int,
        Eyes::Closed,
        true,
    )
}

/// A blink closes the eyes whatever the expression: every eye pixel of a
/// blinking face is that of closed eyes.
pub proof fn lemma_blink_closes_eyes(expr: Expression, row: int, col: int)
    requires
        is_eye_pixel(row, col),
    ensures
        expression_pixels(expr, true)[row][col] == closed_eye_pixels()[row][col],
{
    assert forall|i: int| 0 <= i < SPRITE_HEIGHT implies #[trigger] base_pixels()[i].len() == WIDTH by {
        lemma_body_rows_width(i);
    }
    let g2 = closed_eye_pixels();
    assert(g2[row].len() == WIDTH);
    let g3 = if blushes(expr) { blush_painted(g2) } else { g2 };
    assert(g3[row][col] == g2[row][col]);
    assert(expression_pixels(expr, true)[row][col] == g3[row][col]);
}

/// An RGB colour.
#[derive(Debug, Clone, Copy, PartialEq, Eq, Structural)]
pub struct Rgb {
    pub r: u8,
    pub g: u8,
    pub b: u8,
}

/// The colour of a legend character; transparent pixels have none, and an
/// unknown character shows loud magenta.
pub open spec fn palette_of(ch: char) -> Option<Rgb> {
    if ch == '.' || ch == ' ' {
        None
    } else if ch == 'k' {
        Some(Rgb { r: 40, g: 22, b: 16 })
    } else if ch == 'd' {
        Some(Rgb { r: 150, g: 70, b: 35 })
    } else if ch == 'o' {
        Some(Rgb { r: 212, g: 105, b: 55 })
    } else if ch == 'O' {
        Some(Rgb { r: 240, g: 150, b: 95 })
    } else if ch == 'c' {
        Some(Rgb { r: 242, g: 214, b: 175 })
    } else if ch == 'C' {
        Some(Rgb { r: 250, g: 232, b: 205 })
    } else if ch == 'p' {
        Some(Rgb { r: 228, g: 132, b: 112 })
    } else if ch == 'e' {
        Some(Rgb { r: 28, g: 18, b: 14 })
    } else if ch == 'w' {
        Some(Rgb { r: 250, g: 250, b: 250 })
    } else if ch == 'm' {
        Some(Rgb { r: 120, g: 55, b: 32 })
    } else {
        Some(Rgb { r: 255, g: 0, b: 255 })
    }
}

pub fn palette(ch: char) -> (c: Option<Rgb>)
    ensures
        c == palette_of(ch),
{
    if ch == '.' || ch == ' ' {
        None
    } else if ch == 'k' {
        Some(Rgb { r: 40, g: 22, b: 16 })
    } else if ch == 'd' {
        Some(Rgb { r: 150, g: 70, b: 35 })
    } else if ch == 'o' {
        Some(Rgb { r: 212, g: 105, b: 55 })
    } else if ch == 'O' {
        Some(Rgb { r: 240, g: 150, b: 95 })
    } else if ch == 'c' {
        Some(Rgb { r: 242, g: 214, b: 175 })
    } else if ch == 'C' {
        Some(Rgb { r: 250, g: 232, b: 205 })
    } else if ch == 'p' {
        Some(Rgb { r: 228, g: 132, b: 112 })
    } else if ch == 'e' {
        Some(Rgb { r: 28, g: 18, b: 14 })
    } else if ch == 'w' {
        Some(Rgb { r: 250, g: 250, b: 250 })
    } else if ch == 'm' {
        Some(Rgb { r: 120, g: 55, b: 32 })
    } else {
        Some(Rgb { r: 255, g: 0, b: 255 })
    }
}

/// The glyph of a terminal cell that shows two pixels.
#[derive(Debug, Clone, Copy, PartialEq, Eq, Structural)]
pub enum HalfBlock {
    /// `▀`: the upper pixel in the foreground, the lower one in the background.
    Upper,
    /// `▄`: only the lower pixel, in the foreground.
    Lower,
    /// A blank cell.
    Blank,
}

/// One terminal cell of the sprite.
#[derive(Debug, Clone, Copy, PartialEq, Eq, Structural)]
pub struct SpriteCell {
    pub glyph: HalfBlock,
    pub fg: Option<Rgb>,
    pub bg: Option<Rgb>,
}

/// The cell for an upper and a lower pixel; transparent pixels show the
/// terminal's background.
pub open spec fn cell_of(top: Option<Rgb>, bottom: Option<Rgb>) -> SpriteCell {
    match (top, bottom) {
        (Some(t), Some(b)) => SpriteCell { glyph: HalfBlock::Upper, fg: Some(t), bg: Some(b) },
        (Some(t), None) => SpriteCell { glyph: HalfBlock::Upper, fg: Some(t), bg: None },
        (None, Some(b)) => SpriteCell { glyph: HalfBlock::Lower, fg: Some(b), bg: None },
        (None, None) => SpriteCell { glyph: HalfBlock::Blank, fg: None, bg: None },
    }
}

pub fn half_block(top: Option<Rgb>, bottom: Option<Rgb>) -> (c: SpriteCell)
    ensures
        c == cell_of(top, bottom),
{
    match (top, bottom) {
        (Some(t), Some(b)) => SpriteCell { glyph: HalfBlock::Upper, fg: Some(t), bg: Some(b) },
        (Some(t), None) => SpriteCell { glyph: HalfBlock::Upper, fg: Some(t), bg: None },
        (None, Some(b)) => SpriteCell { glyph: HalfBlock::Lower, fg: Some(b), bg: None },
        (None, None) => SpriteCell { glyph: HalfBlock::Blank, fg: None, bg: None },
    }
}

/// The colour of pixel (`row`, `col`), none outside the grid.
pub open spec fn colour_at(g: Seq<Seq<char>>, row: int, col: int) -> Option<Rgb> {
    if 0 <= row < g.len() && 0 <= col < g[row].len() {
        palette_of(g[row][col])
    } else {
        None
    }
}

fn colour_in(grid: &Vec<Vec<char>>, row: usize, col: usize) -> (c: Option<Rgb>)
    ensures
        c == colour_at(pixels(grid@), row as int, col as int),
{
    if row < grid.len() && col < grid[row].len() {
        palette(grid[row][col])
    } else {
        None
    }
}

/// Lines of cells for a pixel grid, two pixel rows per line, the sprite's
/// width per line.
pub fn render_cells(grid: &Vec<Vec<char>>) -> (lines: Vec<Vec<SpriteCell>>)
    requires
        grid.len() < usize::MAX - 1,
    ensures
        lines@.len() == (grid@.len() + 1) / 2,
        forall|l: int| 0 <= l < lines@.len() ==> #[trigger] lines@[l]@.len() == WIDTH,
        forall|l: int, c: int|
            0 <= l < lines@.len() && 0 <= c < WIDTH ==> #[trigger] lines@[l]@[c] == cell_of(
                colour_at(pixels(grid@), 2 * l, c),
                colour_at(pixels(grid@), 2 * l + 1, c),
            ),
{
    let mut lines: Vec<Vec<SpriteCell>> = Vec::new();
    let mut row: usize = 0;
    while row < grid.len()
        invariant
            grid.len() < usize::MAX - 1,
            row <= grid.len() + 1,
            row == 2 * lines@.len(),
            lines@.len() <= (grid@.len() + 1) / 2,
            row < grid.len() ==> lines@.len() < (grid@.len() + 1) / 2,
            row >= grid.len() ==> lines@.len() == (grid@.len() + 1) / 2,
            forall|l: int| 0 <= l < lines@.len() ==> #[trigger] lines@[l]@.len() == WIDTH,
            forall|l: int, c: int|
                0 <= l < lines@.len() && 0 <= c < WIDTH ==> #[trigger] lines@[l]@[c] == cell_of(
                    colour_at(pixels(grid@), 2 * l, c),
                    colour_at(pixels(grid@), 2 * l + 1, c),
                ),
        decreases grid.len() + 1 - row,
    {
        let mut cells: Vec<SpriteCell> = Vec::new();
        let mut col: usize = 0;
        while col < WIDTH
            invariant
                col <= WIDTH,
                row < grid.len() < usize::MAX - 1,
                cells@.len() == col,
                forall|c: int| 0 <= c < col ==> #[trigger] cells@[c] == cell_of(
                    colour_at(pixels(grid@), row as int, c),
                    colour_at(pixels(grid@), row + 1, c),
                ),
            decreases WIDTH - col,
        {
            cells.push(half_block(colour_in(grid, row, col), colour_in(grid, row + 1, col)));
            col = col + 1;
        }
        lines.push(cells);
        row = row + 2;
    }
    lines
}

/// Emotion particles drawn above the head.
#[derive(Debug, Clone, Copy, PartialEq, Eq, Structural)]
pub enum Particle {
    Empty,
    Sparkles,
    Hearts,
    Question,
    Swirl,
    Sweat,
    Sleep,
}

pub open spec fn particle_of(expr: Expression) -> Particle {
    match expr {
        Expression::Excited => Particle::Sparkles,
        Expression::Happy => Particle::Hearts,
        Expression::Curious => Particle::Question,
        Expression::Confused => Particle::Swirl,
        Expression::Wincing | Expression::Anxious => Particle::Sweat,
        Expression::Sad | Expression::Sleepy => Particle::Sleep,
        Expression::Neutral => Particle::Empty,
    }
}

impl Particle {
    pub fn for_expression(expr: Expression) -> (p: Self)
        ensures
            p == particle_of(expr),
    {
        match expr {
            Expression::Excited => Particle::Sparkles,
            Expression::Happy => Particle::Hearts,
            Expression::Curious => Particle::Question,
            Expression::Confused => Particle::Swirl,
            Expression::Wincing | Expression::Anxious => Particle::Sweat,
            Expression::Sad | Expression::Sleepy => Particle::Sleep,
            Expression::Neutral => Particle::Empty,
        }
    }
}

/// A particle's glyph row for each of its two animation phases, and its colour.
pub open spec fn particle_art(particle: Particle, phase: int) -> Option<(Seq<char>, Rgb)> {
    let even = phase % 2 == 0;
    match particle {
        Particle::Empty => None,
        Particle::Sparkles => Some((if even { "  \u{2726}      \u{2727}  "@ } else { "    \u{2727}  \u{2726}    "@ }, Rgb { r: 250, g: 220, b: 90 })),
        Particle::Hearts => Some((if even { "    \u{2665}      "@ } else { "       \u{2665}   "@ }, Rgb { r: 235, g: 90, b: 110 })),
        Particle::Question => Some(("        ?  "@, Rgb { r: 180, g: 200, b: 240 })),
        Particle::Swirl => Some((if even { "       @   "@ } else { "       ?   "@ }, Rgb { r: 190, g: 160, b: 220 })),
        Particle::Sweat => Some((if even { "          ,"@ } else { "          '"@ }, Rgb { r: 130, g: 190, b: 230 })),
        Particle::Sleep => Some((if even { "       z   "@ } else { "      z    "@ }, Rgb { r: 170, g: 180, b: 200 })),
    }
}

/// The glyph row of a particle at an animation phase, and its colour.
pub fn particle_glyph(particle: Particle, phase: usize) -> (r: Option<(&'static str, Rgb)>)
    ensures
        match particle_art(particle, phase as int) {
            Some((text, colour)) => r matches Some((s, c)) && s@ == text && c == colour,
            None => r is None,
        },
{
    let even = phase % 2 == 0;
    match particle {
        Particle::Empty => None,
        Particle::Sparkles => Some((if even { "  \u{2726}      \u{2727}  " } else { "    \u{2727}  \u{2726}    " }, Rgb { r: 250, g: 220, b: 90 })),
        Particle::Hearts => Some((if even { "    \u{2665}      " } else { "       \u{2665}   " }, Rgb { r: 235, g: 90, b: 110 })),
        Particle::Question => Some(("        ?  ", Rgb { r: 180, g: 200, b: 240 })),
        Particle::Swirl => Some((if even { "       @   " } else { "       ?   " }, Rgb { r: 190, g: 160, b: 220 })),
        Particle::Sweat => Some((if even { "          ," } else { "          '" }, Rgb { r: 130, g: 190, b: 230 })),
        Particle::Sleep => Some((if even { "       z   " } else { "      z    " }, Rgb { r: 170, g: 180, b: 200 })),
    }
}

/// An ANSI foreground (`38`) or background (`48`) colour code for `c`.
pub open spec fn colour_code(layer: Seq<char>, c: Rgb) -> Seq<char> {
    layer + ";2;"@ + decimal(c.r as nat) + ";"@ + decimal(c.g as nat) + ";"@ + decimal(c.b as nat)
}

/// The ANSI text of one sprite cell.
pub open spec fn ansi_cell_text(top: Option<Rgb>, bottom: Option<Rgb>) -> Seq<char> {
    match (top, bottom) {
        (Some(t), Some(b)) => "\x1b["@ + colour_code("38"@, t) + ";"@ + colour_code("48"@, b) + "m\u{2580}\x1b[0m"@,
        (Some(t), None) => "\x1b["@ + colour_code("38"@, t) + "m\u{2580}\x1b[0m"@,
        (None, Some(b)) => "\x1b["@ + colour_code("38"@, b) + "m\u{2584}\x1b[0m"@,
        (None, None) => " "@,
    }
}

fn push_colour_code(out: &mut String, layer: &str, c: Rgb)
    ensures
        final(out)@ == old(out)@ + colour_code(layer@, c),
{
    push_str(out, layer);
    push_str(out, ";2;");
    push_decimal(out, c.r as u64);
    push_str(out, ";");
    push_decimal(out, c.g as u64);
    push_str(out, ";");
    push_decimal(out, c.b as u64);
    assert(final(out)@ =~= old(out)@ + colour_code(layer@, c));
}

fn push_ansi_cell(out: &mut String, top: Option<Rgb>, bottom: Option<Rgb>)
    ensures
        final(out)@ == old(out)@ + ansi_cell_text(top, bottom),
{
    let ghost start = out@;
    match (top, bottom) {
        (Some(t), Some(b)) => {
            push_str(out, "\x1b[");
            push_colour_code(out, "38", t);
            push_str(out, ";");
            push_colour_code(out, "48", b);
            push_str(out, "m\u{2580}\x1b[0m");
        },
        (Some(t), None) => {
            push_str(out, "\x1b[");
            push_colour_code(out, "38", t);
            push_str(out, "m\u{2580}\x1b[0m");
        },
        (None, Some(b)) => {
            push_str(out, "\x1b[");
            push_colour_code(out, "38", b);
            push_str(out, "m\u{2584}\x1b[0m");
        },
        (None, None) => {
            push_str(out, " ");
        },
    }
    assert(out@ =~= start + ansi_cell_text(top, bottom));
}

/// The ANSI text of the first `n` cells of the line that starts at pixel row `row`.
pub open spec fn ansi_row_text(g: Seq<Seq<char>>, row: int, n: nat) -> Seq<char>
    decreases n,
{
    if n == 0 {
        Seq::empty()
    } else {
        ansi_row_text(g, row, (n - 1) as nat) + ansi_cell_text(
            colour_at(g, row, n - 1),
            colour_at(g, row + 1, n - 1),
        )
    }
}

/// The particle line above the head: the glyphs of the expression's
/// particles for the phase, padded to the sprite's width, and their colour;
/// blank without particles.
pub fn particle_line(expr: Expression, phase: usize) -> (r: (String, Option<Rgb>))
    ensures
        match particle_art(particle_of(expr), phase as int) {
            None => r.0@ == spaces(WIDTH as nat) && r.1 is None,
            Some((glyph, c)) => r.0@ == padded(glyph, WIDTH as nat) && r.1 == Some(c),
        },
{
    let mut text = String::new();
    match particle_glyph(Particle::for_expression(expr), phase) {
        None => {
            push_spaces(&mut text, WIDTH);
            (text, None)
        },
        Some((glyph, c)) => {
            push_padded(&mut text, glyph, WIDTH);
            (text, Some(c))
        },
    }
}

/// The particle line of a preview.
pub open spec fn particle_preview_text(expr: Expression, phase: int) -> Seq<char> {
    match particle_art(particle_of(expr), phase) {
        None => spaces(WIDTH as nat),
        Some((glyph, c)) => "\x1b["@ + colour_code("38"@, c) + "m"@ + padded(glyph, WIDTH as nat) + "\x1b[0m"@,
    }
}

/// A frame as ANSI text: the particle line, then one line per two pixel rows.
pub open spec fn preview_text(expr: Expression, blink: bool, phase: int) -> Seq<Seq<char>> {
    let g = expression_pixels(expr, blink);
    seq![particle_preview_text(expr, phase)] + Seq::new(
        (SPRITE_HEIGHT / 2) as nat,
        |l: int| ansi_row_text(g, 2 * l, WIDTH as nat),
    )
}

/// A frame rendered as raw ANSI lines for previews outside the full-screen view.
pub fn preview_lines(expr: Expression, blink: bool, particle_phase: usize) -> (out: Vec<String>)
    ensures
        out@.len() == 1 + SPRITE_HEIGHT / 2,
        forall|i: int| 0 <= i < out@.len() ==> #[trigger] out@[i]@ == preview_text(expr, blink, particle_phase as int)[i],
{
    let mut out: Vec<String> = Vec::new();
    let particle = Particle::for_expression(expr);
    let mut first = String::new();
    match particle_glyph(particle, particle_phase) {
        None => {
            push_spaces(&mut first, WIDTH);
        },
        Some((glyph, c)) => {
            push_str(&mut first, "\x1b[");
            push_colour_code(&mut first, "38", c);
            push_str(&mut first, "m");
            push_padded(&mut first, glyph, WIDTH);
            push_str(&mut first, "\x1b[0m");
        },
    }
    assert(first@ =~= particle_preview_text(expr, particle_phase as int));
    out.push(first);
    let grid = expression_grid(expr, blink);
    let ghost g = pixels(grid@);
    let mut row: usize = 0;
    while row < grid.len()
        invariant
            g == pixels(grid@),
            g == expression_pixels(expr, blink),
            sprite_shaped(g),
            row % 2 == 0,
            row <= SPRITE_HEIGHT,
            out@.len() == 1 + row / 2,
            forall|i: int| 0 <= i < out@.len() ==> #[trigger] out@[i]@ == preview_text(expr, blink, particle_phase as int)[i],
        decreases SPRITE_HEIGHT - row,
    {
        let mut line = String::new();
        let mut col: usize = 0;
        while col < WIDTH
            invariant
                col <= WIDTH,
                row < grid.len(),
                grid.len() == SPRITE_HEIGHT,
                g == pixels(grid@),
                line@ == ansi_row_text(g, row as int, col as nat),
            decreases WIDTH - col,
        {
            push_ansi_cell(&mut line, colour_in(&grid, row, col), colour_in(&grid, row + 1, col));
            col = col + 1;
        }
        let ghost l = row / 2;
        assert(preview_text(expr, blink, particle_phase as int)[1 + l] == ansi_row_text(g, 2 * l, WIDTH as nat));
        out.push(line);
        row = row + 2;
    }
    out
}

} // verus!
