//! Textures, images and animations, cutting a sprite sheet into
//! animations, scaling a pixel grid, and the character a pixel is drawn with.
use rand::Rng;
use std::time::{Duration, Instant};
use vstd::prelude::*;

verus! {

/// `std::time::Instant`, a point in time; its value is not looked at here.
#[verifier::external_type_specification]
#[verifier::external_body]
pub struct ExInstant(std::time::Instant);

/// A color: red, green and blue, and its opacity, an `f32` from 0 (fully
/// transparent) to 1 (opaque) kept by its bit pattern (`f32::to_bits`).
#[derive(Clone, Copy, Debug, PartialEq, Eq, Structural)]
pub struct Color {
    pub r: u8,
    pub g: u8,
    pub b: u8,
    pub a_bits: u32,
}

impl Default for Color {
    /// Transparent black (all channels 0, opacity 0.0).
    fn default() -> (c: Color)
        ensures
            c == transparent_black(),
    {
        Color { r: 0, g: 0, b: 0, a_bits: 0 }
    }
}

/// Transparent black: all channels 0 and opacity 0.0 (whose bit pattern is 0).
pub open spec fn transparent_black() -> Color {
    Color { r: 0, g: 0, b: 0, a_bits: 0 }
}

/// A grid of pixels, row by row.
#[derive(Clone)]
pub struct Texture {
    pub pixels: Vec<Vec<Color>>,
}

/// The pixels of a grid, row by row.
pub open spec fn grid_view(pixels: Seq<Vec<Color>>) -> Seq<Seq<Color>> {
    pixels.map_values(|row: Vec<Color>| row@)
}

impl View for Texture {
    type V = Seq<Seq<Color>>;

    open spec fn view(&self) -> Seq<Seq<Color>> {
        grid_view(self.pixels@)
    }
}

/// A rectangle drawn with a texture; its size is that of the texture.
#[derive(Clone)]
pub struct Image {
    pub texture: Texture,
}

/// A sequence of images shown one after the other, each for `frame_time`.
pub struct Animation {
    pub frames: Vec<Image>,
    pub current_frame: usize,
    pub frame_time: Duration,
    pub current_frame_start_time: Instant,
    pub loop_animation: bool,
    pub finished: bool,
}

/// What the parameters of a scene say about how pixels are drawn.
#[derive(Clone, Copy)]
pub struct SceneParams {
    pub background_color: Color,
    pub is_random_chars: bool,
    pub character: char,
}

/// The duration of `ms` milliseconds, as `Duration::from_millis` makes it.
pub uninterp spec fn millis_duration(ms: u64) -> Duration;

/// Whether a duration is at least as long as another, as `Duration`'s `>=` says.
pub uninterp spec fn duration_at_least_spec(a: Duration, b: Duration) -> bool;

/// `Duration::from_millis`: the duration of `ms` milliseconds.
#[verifier::external_body]
fn duration_from_millis(ms: u64) -> (d: Duration)
    ensures
        d == millis_duration(ms),
{
    Duration::from_millis(ms)
}

/// `Duration`'s `>=`: whether `a` is at least as long as `b`. Every
/// duration is at least as long as the zero duration (`from_millis(0)`).
#[verifier::external_body]
fn duration_at_least(a: &Duration, b: &Duration) -> (r: bool)
    ensures
        r == duration_at_least_spec(*a, *b),
        *b == millis_duration(0) ==> r,
{
    *a >= *b
}

/// `Instant::now`: the current time. Two calls may give different times.
#[verifier::external_body]
fn instant_now() -> Instant {
    Instant::now()
}

/// `Instant::elapsed`: the time since `start`, which depends on when it is called.
#[verifier::external_body]
fn instant_elapsed(start: &Instant) -> Duration {
    start.elapsed()
}

/// `rand::thread_rng().gen_range(low..high)`: a random byte from `low` up
/// to, not including, `high`.
#[verifier::external_body]
fn random_byte_in(low: u8, high: u8) -> (b: u8)
    requires
        low < high,
    ensures
        low <= b < high,
{
    rand::thread_rng().gen_range(low..high)
}

/// The frame and whether the animation is finished after its frame time
/// has passed: the next frame, or, past the last frame, the first one if the
/// animation loops and otherwise the animation is finished (and the frame
/// stays one past the last).
pub open spec fn next_frame_of(current_frame: int, frame_count: int, loop_animation: bool) -> (int, bool) {
    let next = current_frame + 1;
    if next >= frame_count {
        if loop_animation { (0, false) } else { (next, true) }
    } else {
        (next, false)
    }
}

/// Moves an animation on by one frame: see `next_frame_of`. The frames, the
/// frame time, the start time of the frame and whether it loops stay.
pub fn step_animation_frame(animation: &mut Animation)
    requires
        old(animation).current_frame < usize::MAX,
    ensures
        final(animation).frames == old(animation).frames,
        final(animation).frame_time == old(animation).frame_time,
        final(animation).current_frame_start_time == old(animation).current_frame_start_time,
        final(animation).loop_animation == old(animation).loop_animation,
        final(animation).current_frame == next_frame_of(
            old(animation).current_frame as int,
            old(animation).frames.len() as int,
            old(animation).loop_animation,
        ).0,
        final(animation).finished == (old(animation).finished || next_frame_of(
            old(animation).current_frame as int,
            old(animation).frames.len() as int,
            old(animation).loop_animation,
        ).1),
{
    animation.current_frame = animation.current_frame + 1;
    if animation.current_frame >= animation.frames.len() {
        if animation.loop_animation {
            animation.current_frame = 0;
        } else {
            animation.finished = true;
        }
    }
}

/// Moves an animation that is not finished on by one frame if `elapsed`,
/// the time since its current frame started, is at least its frame time
/// (as `step_animation_frame` says), and says whether it did; otherwise
/// nothing changes.
pub fn advance_animation(animation: &mut Animation, elapsed: &Duration) -> (moved: bool)
    requires
        !old(animation).finished && duration_at_least_spec(*elapsed, old(animation).frame_time)
            ==> old(animation).current_frame < usize::MAX,
    ensures
        moved == (!old(animation).finished && duration_at_least_spec(*elapsed, old(animation).frame_time)),
        !old(animation).finished && old(animation).frame_time == millis_duration(0) ==> moved,
        !moved ==> *final(animation) == *old(animation),
        moved ==> ({
            let n = next_frame_of(
                old(animation).current_frame as int,
                old(animation).frames.len() as int,
                old(animation).loop_animation,
            );
            &&& final(animation).frames == old(animation).frames
            &&& final(animation).frame_time == old(animation).frame_time
            &&& final(animation).current_frame_start_time == old(animation).current_frame_start_time
            &&& final(animation).loop_animation == old(animation).loop_animation
            &&& final(animation).current_frame == n.0
            &&& final(animation).finished == n.1
        }),
{
    if !animation.finished && duration_at_least(elapsed, &animation.frame_time) {
        step_animation_frame(animation);
        true
    } else {
        false
    }
}

/// Moves an animation that is not finished on by one frame once its frame
/// time has passed since the current frame started; the new frame starts
/// now. Whether the time has passed depends on the clock: either nothing
/// changes, or the animation moves on as `advance_animation` says and
/// only the start time of the frame changes besides. With a frame time of
/// zero it always moves on.
pub fn update_animation(animation: &mut Animation)
    requires
        !old(animation).finished ==> old(animation).current_frame < usize::MAX,
    ensures
        final(animation).frames == old(animation).frames,
        final(animation).frame_time == old(animation).frame_time,
        final(animation).loop_animation == old(animation).loop_animation,
        old(animation).finished ==> *final(animation) == *old(animation),
        *final(animation) == *old(animation) || ({
            let n = next_frame_of(
                old(animation).current_frame as int,
                old(animation).frames.len() as int,
                old(animation).loop_animation,
            );
            &&& !old(animation).finished
            &&& final(animation).current_frame == n.0
            &&& final(animation).finished == n.1
        }),
        !old(animation).finished && old(animation).frame_time == millis_duration(0) ==> ({
            let n = next_frame_of(
                old(animation).current_frame as int,
                old(animation).frames.len() as int,
                old(animation).loop_animation,
            );
            &&& final(animation).current_frame == n.0
            &&& final(animation).finished == n.1
        }),
{
    if !animation.finished {
        let elapsed = instant_elapsed(&animation.current_frame_start_time);
        if advance_animation(animation, &elapsed) {
            animation.current_frame_start_time = instant_now();
        }
    }
}

/// The character a pixel is drawn with: a random printable ASCII character
/// from `!` (33) to `}` (125) if the scene asks for random characters, and
/// otherwise the scene's character.
pub fn pixel_character(params: &SceneParams) -> (c: char)
    ensures
        params.is_random_chars ==> 33 <= c as u32 && c as u32 <= 125,
        !params.is_random_chars ==> c == params.character,
{
    if params.is_random_chars {
        let b = random_byte_in(33, 126);
        b as char
    } else {
        params.character
    }
}

/// The cell in row `row` and column `col` of a grid of pixels cut into
/// cells of `cell_width` by `cell_height` pixels.
pub open spec fn cell_of(pixels: Seq<Seq<Color>>, cell_width: int, cell_height: int, row: int, col: int) -> Seq<Seq<Color>> {
    Seq::new(
        cell_height as nat,
        |y: int| Seq::new(cell_width as nat, |x: int| pixels[row * cell_height + y][col * cell_width + x]),
    )
}

/// The width of a cell of a sprite sheet cut into `columns` columns: the
/// width of the first row (taken as a `u32`) divided by the number of columns.
pub open spec fn sheet_cell_width(texture: Texture, columns: u32) -> int {
    (texture.pixels@[0].len() as u32) as int / columns as int
}

/// The height of a cell of a sprite sheet cut into `rows` rows.
pub open spec fn sheet_cell_height(texture: Texture, rows: u32) -> int {
    (texture.pixels@.len() as u32) as int / rows as int
}

proof fn lemma_cell_index_bound(i: int, c: int, n: int, k: int)
    by (nonlinear_arith)
    requires
        0 <= i < n,
        0 <= k < c,
    ensures
        i * c + k < n * c,
        0 <= i * c,
{
}

proof fn lemma_cells_fit(w: int, n: int)
    by (nonlinear_arith)
    requires
        0 <= w,
        0 < n,
    ensures
        n * (w / n) <= w,
{
}

/// Cuts a sprite sheet into animations: the sheet is a grid of
/// `number_of_cells_vertical` rows of `number_of_cells_horizontal` cells,
/// and each row of cells becomes one looping animation whose frames are the
/// cells of the row, from left to right, each shown for
/// `frame_duration_ms` milliseconds. The animations start now, at their
/// first frame.
pub fn load_spritesheet(
    number_of_cells_horizontal: u32,
    number_of_cells_vertical: u32,
    frame_duration_ms: u64,
    texture: &Texture,
) -> (sheets: Vec<Animation>)
    requires
        number_of_cells_horizontal > 0,
        number_of_cells_vertical > 0,
        texture.pixels.len() > 0,
        forall|r: int|
            0 <= r < number_of_cells_vertical * sheet_cell_height(*texture, number_of_cells_vertical)
                ==> #[trigger] texture.pixels@[r].len() >= number_of_cells_horizontal * sheet_cell_width(
                *texture,
                number_of_cells_horizontal,
            ),
    ensures
        sheets.len() == number_of_cells_vertical,
        forall|i: int|
            0 <= i < sheets.len() ==> {
                &&& (#[trigger] sheets@[i]).frames.len() == number_of_cells_horizontal
                &&& sheets@[i].current_frame == 0
                &&& sheets@[i].frame_time == millis_duration(frame_duration_ms)
                &&& sheets@[i].loop_animation
                &&& !sheets@[i].finished
            },
        forall|i: int, j: int|
            0 <= i < number_of_cells_vertical && 0 <= j < number_of_cells_horizontal
                ==> (#[trigger] sheets@[i].frames@[j]).texture@ == cell_of(
                texture@,
                sheet_cell_width(*texture, number_of_cells_horizontal),
                sheet_cell_height(*texture, number_of_cells_vertical),
                i,
                j,
            ),
{
    let texture_width = texture.pixels[0].len();
    let texture_height = texture.pixels.len();
    let cell_width: u32 = (texture_width as u32) / number_of_cells_horizontal;
    let cell_height: u32 = (texture_height as u32) / number_of_cells_vertical;
    let ghost cw = cell_width as int;
    let ghost ch = cell_height as int;
    let ghost pix = texture@;
    proof {
        lemma_cells_fit((texture_width as u32) as int, number_of_cells_horizontal as int);
        lemma_cells_fit((texture_height as u32) as int, number_of_cells_vertical as int);
        assert(cw == sheet_cell_width(*texture, number_of_cells_horizontal));
        assert(ch == sheet_cell_height(*texture, number_of_cells_vertical));
    }
    let mut sheets: Vec<Animation> = Vec::new();
    let mut vertical_cell_index: u32 = 0;
    while vertical_cell_index < number_of_cells_vertical
        invariant
            0 <= vertical_cell_index <= number_of_cells_vertical,
            sheets.len() == vertical_cell_index,
            number_of_cells_horizontal > 0,
            number_of_cells_vertical > 0,
            cw == cell_width,
            ch == cell_height,
            pix == texture@,
            number_of_cells_horizontal * cw <= texture_width as u32,
            number_of_cells_vertical * ch <= texture_height as u32,
            texture_height == texture.pixels.len(),
            forall|r: int|
                0 <= r < number_of_cells_vertical * ch ==> #[trigger] texture.pixels@[r].len()
                    >= number_of_cells_horizontal * cw,
            forall|i: int|
                0 <= i < sheets.len() ==> {
                    &&& (#[trigger] sheets@[i]).frames.len() == number_of_cells_horizontal
                    &&& sheets@[i].current_frame == 0
                    &&& sheets@[i].frame_time == millis_duration(frame_duration_ms)
                    &&& sheets@[i].loop_animation
                    &&& !sheets@[i].finished
                },
            forall|i: int, j: int|
                0 <= i < vertical_cell_index && 0 <= j < number_of_cells_horizontal
                    ==> (#[trigger] sheets@[i].frames@[j]).texture@ == cell_of(pix, cw, ch, i, j),
        decreases number_of_cells_vertical - vertical_cell_index,
    {
        let mut frames: Vec<Image> = Vec::new();
        let mut horizontal_cell_index: u32 = 0;
        while horizontal_cell_index < number_of_cells_horizontal
            invariant
                0 <= vertical_cell_index < number_of_cells_vertical,
                0 <= horizontal_cell_index <= number_of_cells_horizontal,
                frames.len() == horizontal_cell_index,
                cw == cell_width,
                ch == cell_height,
                pix == texture@,
                number_of_cells_horizontal * cw <= texture_width as u32,
                number_of_cells_vertical * ch <= texture_height as u32,
                texture_height == texture.pixels.len(),
                forall|r: int|
                    0 <= r < number_of_cells_vertical * ch ==> #[trigger] texture.pixels@[r].len()
                        >= number_of_cells_horizontal * cw,
                forall|j: int|
                    0 <= j < horizontal_cell_index ==> (#[trigger] frames@[j]).texture@ == cell_of(
                        pix,
                        cw,
                        ch,
                        vertical_cell_index as int,
                        j,
                    ),
            decreases number_of_cells_horizontal - horizontal_cell_index,
        {
            let mut pixels: Vec<Vec<Color>> = Vec::new();
            let mut y: u32 = 0;
            while y < cell_height
                invariant
                    0 <= vertical_cell_index < number_of_cells_vertical,
                    0 <= horizontal_cell_index < number_of_cells_horizontal,
                    0 <= y <= cell_height,
                    pixels.len() == y,
                    cw == cell_width,
                    ch == cell_height,
                    pix == texture@,
                    number_of_cells_horizontal * cw <= texture_width as u32,
                    number_of_cells_vertical * ch <= texture_height as u32,
                    texture_height == texture.pixels.len(),
                    forall|r: int|
                        0 <= r < number_of_cells_vertical * ch ==> #[trigger] texture.pixels@[r].len()
                            >= number_of_cells_horizontal * cw,
                    forall|yy: int|
                        0 <= yy < y ==> (#[trigger] pixels@[yy])@ == cell_of(
                            pix,
                            cw,
                            ch,
                            vertical_cell_index as int,
                            horizontal_cell_index as int,
                        )[yy],
                decreases cell_height - y,
            {
                proof {
                    lemma_cell_index_bound(vertical_cell_index as int, ch, number_of_cells_vertical as int, y as int);
                }
                let source_row: u32 = y + vertical_cell_index * cell_height;
                let mut row: Vec<Color> = Vec::new();
                let mut x: u32 = 0;
                while x < cell_width
                    invariant
                        0 <= vertical_cell_index < number_of_cells_vertical,
                        0 <= horizontal_cell_index < number_of_cells_horizontal,
                        0 <= y < cell_height,
                        0 <= x <= cell_width,
                        row.len() == x,
                        cw == cell_width,
                        ch == cell_height,
                        pix == texture@,
                        source_row == vertical_cell_index * ch + y,
                        source_row < number_of_cells_vertical * ch,
                        number_of_cells_horizontal * cw <= texture_width as u32,
                        number_of_cells_vertical * ch <= texture_height as u32,
                        texture_height == texture.pixels.len(),
                        texture.pixels@[source_row as int].len() >= number_of_cells_horizontal * cw,
                        forall|xx: int|
                            0 <= xx < x ==> #[trigger] row@[xx] == pix[source_row as int][horizontal_cell_index * cw + xx],
                    decreases cell_width - x,
                {
                    proof {
                        lemma_cell_index_bound(horizontal_cell_index as int, cw, number_of_cells_horizontal as int, x as int);
                    }
                    let source_column: u32 = x + horizontal_cell_index * cell_width;
                    let pixel = texture.pixels[source_row as usize][source_column as usize];
                    row.push(pixel);
                    x = x + 1;
                }
                proof {
                    assert(row@ =~= cell_of(pix, cw, ch, vertical_cell_index as int, horizontal_cell_index as int)[y as int]);
                }
                pixels.push(row);
                y = y + 1;
            }
            proof {
                assert(grid_view(pixels@) =~= cell_of(pix, cw, ch, vertical_cell_index as int, horizontal_cell_index as int));
            }
            frames.push(Image { texture: Texture { pixels } });
            horizontal_cell_index = horizontal_cell_index + 1;
        }
        let animation = Animation {
            frames,
            current_frame: 0,
            frame_time: duration_from_millis(frame_duration_ms),
            current_frame_start_time: instant_now(),
            loop_animation: true,
            finished: false,
        };
        sheets.push(animation);
        vertical_cell_index = vertical_cell_index + 1;
    }
    sheets
}

/// The pixel of a grid scaled up by `scale` at row `row` and column
/// `column`: the pixel of the grid that covers it, or transparent black
/// where the grid has none.
pub open spec fn scaled_pixel(grid: Seq<Seq<Color>>, scale: int, row: int, column: int) -> Color {
    if row / scale < grid.len() && column / scale < grid[row / scale].len() {
        grid[row / scale][column / scale]
    } else {
        transparent_black()
    }
}

/// Scales a pixel grid up by `pixel_scale` for a screen of `width` by
/// `height` pixels before scaling: each pixel becomes a square of
/// `pixel_scale` by `pixel_scale` pixels. The result has `height *
/// pixel_scale` rows of `width * pixel_scale` pixels; where the grid has
/// no pixel, it is transparent black.
pub fn scale_pixel_grid(pixel_grid: &Vec<Vec<Color>>, width: u32, height: u32, pixel_scale: u16) -> (scaled: Vec<Vec<Color>>)
    requires
        pixel_scale > 0,
        width * pixel_scale <= u32::MAX,
        height * pixel_scale <= u32::MAX,
        pixel_grid.len() <= height,
        forall|r: int| 0 <= r < pixel_grid.len() ==> #[trigger] pixel_grid@[r].len() <= width,
    ensures
        scaled.len() == height * pixel_scale,
        forall|r: int| 0 <= r < scaled.len() ==> #[trigger] scaled@[r].len() == width * pixel_scale,
        forall|r: int, c: int|
            0 <= r < scaled.len() && 0 <= c < scaled@[r].len() ==> #[trigger] scaled@[r]@[c]
                == scaled_pixel(grid_view(pixel_grid@), pixel_scale as int, r, c),
{
    let scale: u32 = pixel_scale as u32;
    let rows: u32 = height * scale;
    let columns: u32 = width * scale;
    let ghost grid = grid_view(pixel_grid@);
    let mut scaled: Vec<Vec<Color>> = Vec::new();
    let mut r: u32 = 0;
    while r < rows
        invariant
            0 <= r <= rows,
            scale == pixel_scale,
            scale > 0,
            rows == height * scale,
            columns == width * scale,
            grid == grid_view(pixel_grid@),
            scaled.len() == r,
            forall|rr: int| 0 <= rr < r ==> #[trigger] scaled@[rr].len() == columns,
            forall|rr: int, c: int|
                0 <= rr < r && 0 <= c < columns ==> #[trigger] scaled@[rr]@[c] == scaled_pixel(grid, scale as int, rr, c),
        decreases rows - r,
    {
        let grid_row: u32 = r / scale;
        let mut row: Vec<Color> = Vec::new();
        let mut c: u32 = 0;
        while c < columns
            invariant
                0 <= r < rows,
                0 <= c <= columns,
                scale > 0,
                grid_row == r / scale,
                grid == grid_view(pixel_grid@),
                row.len() == c,
                forall|cc: int| 0 <= cc < c ==> #[trigger] row@[cc] == scaled_pixel(grid, scale as int, r as int, cc),
            decreases columns - c,
        {
            let grid_column: u32 = c / scale;
            let pixel = if (grid_row as usize) < pixel_grid.len() && (grid_column as usize) < pixel_grid[grid_row as usize].len() {
                pixel_grid[grid_row as usize][grid_column as usize]
            } else {
                Color { r: 0, g: 0, b: 0, a_bits: 0 }
            };
            row.push(pixel);
            c = c + 1;
        }
        scaled.push(row);
        r = r + 1;
    }
    scaled
}

/// Scaling a grid up turns each of its pixels into a square of `scale` by
/// `scale` pixels of the same color.
pub proof fn law_scaled_pixel_square(grid: Seq<Seq<Color>>, scale: int, row: int, column: int, i: int, j: int)
    requires
        scale > 0,
        0 <= row < grid.len(),
        0 <= column < grid[row].len(),
        0 <= i < scale,
        0 <= j < scale,
    ensures
        scaled_pixel(grid, scale, row * scale + i, column * scale + j) == grid[row][column],
{
    vstd::arithmetic::div_mod::lemma_fundamental_div_mod_converse(row * scale + i, scale, row, i);
    vstd::arithmetic::div_mod::lemma_fundamental_div_mod_converse(column * scale + j, scale, column, j);
}

/// A looping animation goes round its frames: from a frame in range, its
/// next frame is in range, and after the last frame comes the first one.
pub proof fn law_looping_animation_stays_in_range(current_frame: int, frame_count: int)
    requires
        0 <= current_frame < frame_count,
    ensures
        0 <= next_frame_of(current_frame, frame_count, true).0 < frame_count,
        !next_frame_of(current_frame, frame_count, true).1,
        current_frame == frame_count - 1 ==> next_frame_of(current_frame, frame_count, true).0 == 0,
        current_frame < frame_count - 1 ==> next_frame_of(current_frame, frame_count, true).0 == current_frame + 1,
{
}

/// An animation that does not loop finishes after its last frame.
pub proof fn law_animation_without_loop_finishes(frame_count: int)
    requires
        frame_count > 0,
    ensures
        next_frame_of(frame_count - 1, frame_count, false) == (frame_count, true),
{
}

} // verus!
