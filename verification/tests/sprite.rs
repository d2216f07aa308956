use commitchi::pet::{Mood, Reaction};
use commitchi::sprite::{
    body_rows, draw_blush, draw_eye, draw_mouth, expression_grid, eyes_for, half_block,
    has_blush, mouth_for, palette, particle_glyph, particle_line, preview_expressions, preview_lines, render_cells, base_grid,
    Expression, Eyes, HalfBlock, Mouth, Particle, Rgb, SpriteCell, EYE_ROW_BOTTOM, EYE_ROW_TOP,
    LEFT_EYE, MOUTH_ROW, RIGHT_EYE, SPRITE_HEIGHT, WIDTH,
};

#[test]
fn body_rows_are_uniform_width() {
    for (index, row) in body_rows().iter().enumerate() {
        assert_eq!(
            row.chars().count(),
            WIDTH,
            "BODY row {index} is not {WIDTH} wide: {row:?}"
        );
    }
    assert_eq!(SPRITE_HEIGHT % 2, 0, "sprite height must be even");
}

#[test]
fn every_body_pixel_has_a_palette_entry() {
    for row in body_rows() {
        for ch in row.chars() {
            if ch == '.' {
                continue;
            }
            assert_ne!(
                palette(ch),
                Some(Rgb { r: 255, g: 0, b: 255 }),
                "unknown legend char {ch:?}"
            );
        }
    }
}

#[test]
fn frame_has_expected_line_count() {
    // one particle line plus half the (even) sprite height.
    let lines = preview_lines(Expression::Neutral, false, 0);
    assert_eq!(lines.len(), 1 + SPRITE_HEIGHT / 2);
    let cells = render_cells(&expression_grid(Expression::Neutral, false));
    assert_eq!(1 + cells.len(), 1 + SPRITE_HEIGHT / 2);
}

#[test]
fn expression_mapping_prioritises_reactions() {
    assert_eq!(
        Expression::from_mood_reaction(Mood::Sulking, Reaction::Excited),
        Expression::Excited
    );
    assert_eq!(
        Expression::from_mood_reaction(Mood::Thriving, Reaction::Calm),
        Expression::Happy
    );
    assert_eq!(
        Expression::from_mood_reaction(Mood::Neutral, Reaction::Calm),
        Expression::Neutral
    );
}

#[test]
fn blink_closes_eyes_regardless_of_expression() {
    let open = expression_grid(Expression::Excited, false);
    let blinked = expression_grid(Expression::Excited, true);
    assert_ne!(open, blinked);
}

#[test]
fn blinking_grids_agree_on_the_eyes() {
    // Law: with the eyes closed, every expression shows the same eye pixels.
    let a = expression_grid(Expression::Excited, true);
    let b = expression_grid(Expression::Sad, true);
    for row in [EYE_ROW_TOP, EYE_ROW_BOTTOM] {
        for col in [LEFT_EYE, LEFT_EYE + 1, RIGHT_EYE, RIGHT_EYE + 1] {
            assert_eq!(a[row][col], b[row][col]);
        }
    }
}

#[test]
fn grids_have_the_sprite_shape() {
    let grid = base_grid();
    assert_eq!(grid.len(), SPRITE_HEIGHT);
    assert!(grid.iter().all(|row| row.len() == WIDTH));
    let face = expression_grid(Expression::Happy, false);
    assert_eq!(face.len(), SPRITE_HEIGHT);
    assert!(face.iter().all(|row| row.len() == WIDTH));
}

#[test]
fn nodding_shows_a_happy_face() {
    assert_eq!(
        Expression::from_mood_reaction(Mood::Sulking, Reaction::Nodding),
        Expression::Happy
    );
    assert_eq!(
        Expression::from_mood_reaction(Mood::Anxious, Reaction::Calm),
        Expression::Anxious
    );
    assert_eq!(
        Expression::from_mood_reaction(Mood::Sulking, Reaction::Calm),
        Expression::Sad
    );
}

#[test]
fn faces_pick_eyes_mouth_and_blush() {
    assert_eq!(eyes_for(Expression::Happy), Eyes::Happy);
    assert_eq!(eyes_for(Expression::Sleepy), Eyes::Closed);
    assert_eq!(mouth_for(Expression::Excited), Mouth::Open);
    assert_eq!(mouth_for(Expression::Sad), Mouth::Frown);
    assert!(has_blush(Expression::Happy));
    assert!(!has_blush(Expression::Sad));
}

#[test]
fn drawing_changes_only_the_face() {
    let base = base_grid();
    let mut grid = base_grid();
    draw_eye(&mut grid, LEFT_EYE, Eyes::Closed, false);
    draw_mouth(&mut grid, Mouth::Open);
    draw_blush(&mut grid);
    assert_eq!(grid.len(), base.len());
    for (r, row) in grid.iter().enumerate() {
        assert_eq!(row.len(), base[r].len());
    }
    assert_eq!(grid[0], base[0]);
    assert_eq!(grid[SPRITE_HEIGHT - 1], base[SPRITE_HEIGHT - 1]);
    assert_ne!(grid[MOUTH_ROW], base[MOUTH_ROW]);
}

#[test]
fn half_blocks_follow_the_pixels() {
    let a = Rgb { r: 1, g: 2, b: 3 };
    let b = Rgb { r: 4, g: 5, b: 6 };
    assert_eq!(
        half_block(Some(a), Some(b)),
        SpriteCell { glyph: HalfBlock::Upper, fg: Some(a), bg: Some(b) }
    );
    assert_eq!(
        half_block(None, Some(b)),
        SpriteCell { glyph: HalfBlock::Lower, fg: Some(b), bg: None }
    );
    assert_eq!(
        half_block(None, None),
        SpriteCell { glyph: HalfBlock::Blank, fg: None, bg: None }
    );
}

#[test]
fn render_cells_pairs_pixel_rows() {
    let grid = vec![vec!['k'; WIDTH], vec!['.'; WIDTH], vec!['w'; WIDTH]];
    let cells = render_cells(&grid);
    assert_eq!(cells.len(), 2);
    assert_eq!(cells[0][0].glyph, HalfBlock::Upper);
    assert_eq!(cells[0][0].fg, palette('k'));
    assert_eq!(cells[0][0].bg, None);
    assert_eq!(cells[1][3].fg, palette('w'));
}

#[test]
fn palette_colours() {
    assert_eq!(palette('.'), None);
    assert_eq!(palette('k'), Some(Rgb { r: 40, g: 22, b: 16 }));
    assert_eq!(palette('?'), Some(Rgb { r: 255, g: 0, b: 255 }));
}

#[test]
fn particles_follow_the_expression() {
    assert_eq!(Particle::for_expression(Expression::Neutral), Particle::Empty);
    assert_eq!(Particle::for_expression(Expression::Happy), Particle::Hearts);
    assert_eq!(particle_glyph(Particle::Empty, 0), None);
    let (even, _) = particle_glyph(Particle::Sleep, 0).expect("glyph");
    let (odd, _) = particle_glyph(Particle::Sleep, 1).expect("glyph");
    assert_eq!(even, "       z   ");
    assert_eq!(odd, "      z    ");
}

#[test]
fn preview_without_particles_starts_with_blank_line() {
    let lines = preview_lines(Expression::Neutral, false, 0);
    assert_eq!(lines[0], " ".repeat(WIDTH));
    let happy = preview_lines(Expression::Happy, false, 0);
    assert!(happy[0].starts_with("\x1b[38;2;235;90;110m"));
}

#[test]
fn preview_lists_every_expression() {
    let all = preview_expressions();
    assert_eq!(all.len(), 9);
    assert_eq!(all[0], ("neutral", Expression::Neutral));
    assert_eq!(all[8], ("sleepy", Expression::Sleepy));
}

#[test]
fn particle_lines_are_padded_to_the_sprite_width() {
    let (blank, none) = particle_line(Expression::Neutral, 3);
    assert_eq!(blank, " ".repeat(WIDTH));
    assert_eq!(none, None);
    let (sleepy, colour) = particle_line(Expression::Sleepy, 1);
    assert_eq!(sleepy, format!("{:<width$}", "      z    ", width = WIDTH));
    assert_eq!(sleepy.chars().count(), WIDTH);
    assert_eq!(colour, Some(Rgb { r: 170, g: 180, b: 200 }));
}
