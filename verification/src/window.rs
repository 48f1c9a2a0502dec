//! The panel's window: its settings, its visibility, and the layout of a
//! frame.

use vstd::prelude::*;
use vstd::string::*;
use crate::anchor::{anchor_of, Anchor, Point};
use crate::command::{Command, Event};
use crate::config;
use crate::config::{
    integer_setting, or_default, outcome, real_setting, require, required, text_setting, unwrap_or,
    Value,
};
use crate::draw::{low_bits, DrawConfig};
use crate::error::{Error, ErrorView};
use crate::grid::{
    is_placement, is_placement_series, is_step, lemma_blocks_never_overlap, min_nat, Block, Grid,
};
use crate::visibility::{action_for, is_stop, next_state, step, Action, Visibility};

verus! {

/// Configuration for a window.
#[derive(Debug, PartialEq, Eq)]
pub struct Config {
    pub grid_width: u32,
    pub grid_height: u32,
    pub grid_size: u32,
    pub font_path: String,
    pub font_size: u32,
    /// The time for which the window stays visible, in seconds as written;
    /// three seconds if it is not set.
    pub show_duration_sec: Option<String>,
    pub anchor: Anchor,
    pub edge_distance: u32,
}

/// The anchor that a setting names; the top right corner if it is not set.
pub open spec fn anchor_setting(written: Option<String>) -> Result<Anchor, ErrorView> {
    match written {
        None => Ok(Anchor::TopRight),
        Some(token) => match anchor_of(token@) {
            Some(anchor) => Ok(anchor),
            None => Err(ErrorView::ConfigError("Uncrecognized anchor: "@ + token@)),
        },
    }
}

/// The window settings of a dictionary, and what is left of the dictionary
/// once they were read. Each setting is read in turn and taken out; the
/// first that has the wrong kind of value, or is missing though it must be
/// there, is the error, and what comes after it is not read. An unknown
/// anchor is reported last. Unless set, the grid is 15 by 10 cells of 17
/// pixels, the font size 16, the anchor the top right corner and the edge
/// distance 50 pixels; only the font path must be there. A number is cut to
/// 32 bits.
pub open spec fn window_settings(map: Map<Seq<char>, Value>) -> (
    Result<Config, ErrorView>,
    Map<Seq<char>, Value>,
) {
    let m1 = map.remove("grid-width"@);
    let m2 = m1.remove("grid-height"@);
    let m3 = m2.remove("grid-size"@);
    let m4 = m3.remove("show-duration-sec"@);
    let m5 = m4.remove("font-path"@);
    let m6 = m5.remove("font-size"@);
    let m7 = m6.remove("anchor"@);
    let m8 = m7.remove("edge-distance"@);
    let grid_width = or_default(integer_setting(map, "grid-width"@, "as_i64"@), 15i64);
    let grid_height = or_default(integer_setting(m1, "grid-height"@, "as_i64"@), 10i64);
    let grid_size = or_default(integer_setting(m2, "grid-size"@, "into_i64"@), 17i64);
    let show_duration = real_setting(m3, "show-duration-sec"@, "as_f64"@);
    let font_path = required(text_setting(m4, "font-path"@, "into_string"@), "font-path"@);
    let font_size = or_default(integer_setting(m5, "font-size"@, "as_i64"@), 16i64);
    let anchor_name = text_setting(m6, "anchor"@, "into_string"@);
    let edge_distance = or_default(integer_setting(m7, "edge-distance"@, "into_i64"@), 50i64);
    if grid_width is Err {
        (Err(grid_width->Err_0), m1)
    } else if grid_height is Err {
        (Err(grid_height->Err_0), m2)
    } else if grid_size is Err {
        (Err(grid_size->Err_0), m3)
    } else if show_duration is Err {
        (Err(show_duration->Err_0), m4)
    } else if font_path is Err {
        (Err(font_path->Err_0), m5)
    } else if font_size is Err {
        (Err(font_size->Err_0), m6)
    } else if anchor_name is Err {
        (Err(anchor_name->Err_0), m7)
    } else if edge_distance is Err {
        (Err(edge_distance->Err_0), m8)
    } else {
        (
            match anchor_setting(anchor_name->Ok_0) {
                Err(e) => Err(e),
                Ok(anchor) => Ok(
                    Config {
                        grid_width: grid_width->Ok_0 as u32,
                        grid_height: grid_height->Ok_0 as u32,
                        grid_size: grid_size->Ok_0 as u32,
                        font_path: font_path->Ok_0,
                        font_size: font_size->Ok_0 as u32,
                        show_duration_sec: show_duration->Ok_0,
                        anchor,
                        edge_distance: edge_distance->Ok_0 as u32,
                    },
                ),
            },
            m8,
        )
    }
}

impl Config {
    /// Reads the window settings from a dictionary and takes them out.
    pub fn parse(yaml_object: &mut config::Config) -> (r: Result<Config, Error>)
        ensures
            (outcome(r), final(yaml_object)@) == window_settings(old(yaml_object)@),
    {
        let grid_width = unwrap_or(yaml_object.take_i64("grid-width", "as_i64"), 15)?;
        let grid_height = unwrap_or(yaml_object.take_i64("grid-height", "as_i64"), 10)?;
        let grid_size = unwrap_or(yaml_object.take_i64("grid-size", "into_i64"), 17)?;
        let show_duration_sec = yaml_object.take_real("show-duration-sec", "as_f64")?;
        let font_path = require(yaml_object.take_string("font-path", "into_string"), "font-path")?;
        let font_size = unwrap_or(yaml_object.take_i64("font-size", "as_i64"), 16)?;
        let anchor_name = yaml_object.take_string("anchor", "into_string")?;
        let edge_distance = unwrap_or(yaml_object.take_i64("edge-distance", "into_i64"), 50)?;
        let anchor = match anchor_name {
            None => Anchor::TopRight,
            Some(token) => Anchor::from_str(token.as_str())?,
        };
        Ok(
            Config {
                grid_width: low_bits(grid_width),
                grid_height: low_bits(grid_height),
                grid_size: low_bits(grid_size),
                font_path,
                font_size: low_bits(font_size),
                show_duration_sec,
                anchor,
                edge_distance: low_bits(edge_distance),
            },
        )
    }
}

/// The number of cells of the given size that it takes to cover a number of
/// pixels. Cells without size cover nothing: no pixels then take no cell,
/// and any pixel takes as many cells as can be counted.
pub open spec fn cells_for(pixels: u32, cell_size: u32) -> nat {
    if cell_size == 0 {
        if pixels == 0 {
            0
        } else {
            u32::MAX as nat
        }
    } else {
        ((pixels + cell_size - 1) / (cell_size as int)) as nat
    }
}

/// Cells of a positive size cover the pixels, and one cell fewer does not.
pub proof fn lemma_cells_cover(pixels: u32, cell_size: u32)
    requires
        cell_size > 0,
    ensures
        cells_for(pixels, cell_size) * cell_size >= pixels,
        cells_for(pixels, cell_size) > 0 ==> (cells_for(pixels, cell_size) - 1) * cell_size
            < pixels,
        cells_for(pixels, cell_size) <= pixels,
{
    let c = cell_size as int;
    let q = (pixels + c - 1) / c;
    assert((pixels + c - 1) == c * q + (pixels + c - 1) % c) by (nonlinear_arith)
        requires
            c > 0,
            q == (pixels + c - 1) / c,
    ;
    assert(0 <= (pixels + c - 1) % c < c);
    assert(q * c == c * q) by (nonlinear_arith);
    assert((q - 1) * c == q * c - c) by (nonlinear_arith);
    assert(q >= 0) by (nonlinear_arith)
        requires
            c > 0,
            pixels + c - 1 >= 0,
            q == (pixels + c - 1) / c,
    ;
    assert(q <= pixels) by (nonlinear_arith)
        requires
            c >= 1,
            q >= 0,
            q * c <= pixels + c - 1,
    ;
}

/// Where an item goes in a frame.
#[derive(Clone, Copy, Debug, PartialEq, Eq, Structural)]
pub struct Placement {
    /// The cells that the item was given.
    pub block: Block,
    /// The pixel at which the block starts.
    pub x: u64,
    pub y: u64,
    /// The size in pixels of the cells that cover the item.
    pub width: u64,
    pub height: u64,
    /// How far into the block the item is drawn.
    pub x_offset: u64,
    pub y_offset: u64,
}

/// How far into its cells an item is moved to stand in their middle.
pub open spec fn centre_offset(centre: bool, cells: nat, cell_size: u32, pixels: u32) -> int {
    if centre && cells * cell_size >= pixels {
        (cells * cell_size - pixels) / 2
    } else {
        0
    }
}

/// An item of a frame: its text, and the size in pixels that the text takes
/// when drawn.
pub struct FrameItem {
    pub text: String,
    pub draw_config: DrawConfig,
    pub width: u32,
    pub height: u32,
}

/// The window where the panel is displayed.
pub struct Window {
    config: Config,
    show_duration: u64,
    state: Visibility,
    grid: Grid,
}

impl Window {
    /// The window's settings.
    pub closed spec fn config(&self) -> Config {
        self.config
    }

    /// The time for which the window stays visible after a `Show`.
    pub closed spec fn show_duration(&self) -> u64 {
        self.show_duration
    }

    /// Whether the window is visible, and since when.
    pub closed spec fn visibility(&self) -> Visibility {
        self.state
    }

    /// The filled width of each row of the frame that is being laid out.
    pub closed spec fn rows(&self) -> Seq<nat> {
        self.grid.rows()
    }

    /// The grid is the one that the settings ask for, and no row is filled
    /// beyond its width.
    pub closed spec fn wf(&self) -> bool {
        &&& self.grid.wf()
        &&& self.grid.width() == self.config.grid_width
        &&& self.grid.height() == self.config.grid_height
    }

    /// A hidden window with an empty grid. `show_duration` is the time for
    /// which the window stays visible, in the unit in which the times of
    /// commands are given.
    pub fn start(config: Config, show_duration: u64) -> (window: Window)
        ensures
            window.wf(),
            window.config() == config,
            window.show_duration() == show_duration,
            window.visibility() == Visibility::Hidden,
            window.rows() == Seq::<nat>::empty(),
    {
        let grid = Grid::new(config.grid_width, config.grid_height);
        Window { config, show_duration, state: Visibility::Hidden, grid }
    }

    /// The window's settings.
    pub fn settings(&self) -> (config: &Config)
        ensures
            *config == self.config(),
    {
        &self.config
    }

    /// Whether the window is visible, and since when.
    pub fn state(&self) -> (state: Visibility)
        ensures
            state == self.visibility(),
    {
        self.state
    }

    /// The grid of the frame that is being laid out.
    pub fn grid(&self) -> (grid: &Grid)
        ensures
            grid.rows() == self.rows(),
            self.wf() ==> grid.wf() && grid.width() == self.config().grid_width && grid.height()
                == self.config().grid_height,
    {
        &self.grid
    }

    /// The size of the window in pixels: as many cells of the configured
    /// size as the grid has.
    pub fn pixel_size(&self) -> (size: (u64, u64))
        ensures
            size.0 == self.config().grid_width * self.config().grid_size,
            size.1 == self.config().grid_height * self.config().grid_size,
    {
        let w: u64 = self.config.grid_width as u64;
        let h: u64 = self.config.grid_height as u64;
        let s: u64 = self.config.grid_size as u64;
        assert(w * s <= 0xffff_ffff * 0xffff_ffff) by (nonlinear_arith)
            requires
                w <= 0xffff_ffff,
                s <= 0xffff_ffff,
        ;
        assert(h * s <= 0xffff_ffff * 0xffff_ffff) by (nonlinear_arith)
            requires
                h <= 0xffff_ffff,
                s <= 0xffff_ffff,
        ;
        (w * s, h * s)
    }

    /// Whether the loop has to wait for a command before the next frame: it
    /// has while the window is hidden, when nothing changes on screen.
    pub fn must_wait(&self) -> (wait: bool)
        ensures
            wait == (self.visibility() == Visibility::Hidden),
    {
        match self.state {
            Visibility::Hidden => true,
            _ => false,
        }
    }

    /// Whether the event ends the loop.
    pub fn handle_event(&self, event: Event) -> (quit: bool)
        ensures
            quit == is_stop(Command::Event(event)),
    {
        crate::visibility::handle_event(event)
    }

    /// Handles a command at time `now`, and says what the loop has to do.
    pub fn handle_command(&mut self, command: Command, now: u64) -> (action: Action)
        requires
            old(self).wf(),
        ensures
            final(self).wf(),
            final(self).config() == old(self).config(),
            final(self).show_duration() == old(self).show_duration(),
            final(self).rows() == old(self).rows(),
            final(self).visibility() == next_state(
                old(self).visibility(),
                command,
                now,
                old(self).show_duration(),
            ),
            action == action_for(old(self).visibility(), command, now, old(self).show_duration()),
    {
        let (state, action) = step(self.state, command, now, self.show_duration);
        self.state = state;
        action
    }

    /// Where the window goes on a screen of the given size.
    pub fn get_window_location(
        &self,
        screen_width: u32,
        screen_height: u32,
        window_width: u32,
        window_height: u32,
    ) -> (p: Point)
        ensures
            p.x == self.config().anchor.x_for(
                self.config().edge_distance as int,
                screen_width as int,
                window_width as int,
            ),
            p.y == self.config().anchor.y_for(
                self.config().edge_distance as int,
                screen_height as int,
                window_height as int,
            ),
    {
        self.config.anchor.location(
            self.config.edge_distance,
            screen_width,
            screen_height,
            window_width,
            window_height,
        )
    }

    /// Starts a frame: the grid is empty again.
    pub fn clear(&mut self)
        ensures
            final(self).wf(),
            final(self).config() == old(self).config(),
            final(self).show_duration() == old(self).show_duration(),
            final(self).visibility() == old(self).visibility(),
            final(self).rows() == Seq::<nat>::empty(),
    {
        self.grid = Grid::new(self.config.grid_width, self.config.grid_height);
    }
}

/// What drawing an item of the given size in pixels gives: the item is
/// given the cells that cover it, as far as the grid reaches, and is drawn
/// in their middle where the settings ask for that.
pub open spec fn is_drawn(
    config: Config,
    draw_config: DrawConfig,
    width: u32,
    height: u32,
    p: Placement,
) -> bool {
    let wide = cells_for(width, config.grid_size);
    let high = cells_for(height, config.grid_size);
    &&& p.block.width == min_nat(wide, config.grid_width as nat)
    &&& p.block.height == min_nat(high, config.grid_height as nat)
    &&& p.x == p.block.col * config.grid_size
    &&& p.y == p.block.row * config.grid_size
    &&& p.width == wide * config.grid_size
    &&& p.height == high * config.grid_size
    &&& p.x_offset == centre_offset(
        draw_config.horizontal_centre_align,
        wide,
        config.grid_size,
        width,
    )
    &&& p.y_offset == centre_offset(
        draw_config.vertical_centre_align,
        high,
        config.grid_size,
        height,
    )
}

/// The blocks of the items of a frame; an item that was left out has none.
pub open spec fn blocks_of(placements: Seq<Option<Placement>>) -> Seq<Option<Block>> {
    Seq::new(
        placements.len(),
        |i: int|
            match placements[i] {
                Some(p) => Some(p.block),
                None => None,
            },
    )
}

/// The product of two 32-bit numbers.
fn times(a: u32, b: u32) -> (r: u64)
    ensures
        r == a * b,
{
    assert(a * b <= 0xffff_ffff * 0xffff_ffff) by (nonlinear_arith)
        requires
            a <= 0xffff_ffff,
            b <= 0xffff_ffff,
    ;
    a as u64 * b as u64
}

/// How far into its cells an item is moved to stand in their middle.
fn offset(centre: bool, cells: u32, cell_size: u32, pixels: u32) -> (r: u64)
    ensures
        r == centre_offset(centre, cells as nat, cell_size, pixels),
{
    let covered: u64 = times(cells, cell_size);
    if centre && covered >= pixels as u64 {
        (covered - pixels as u64) / 2
    } else {
        0
    }
}

impl Window {
    /// Gives an item of the given size in pixels its place in the frame.
    pub fn draw(&mut self, draw_config: &DrawConfig, width: u32, height: u32) -> (p: Placement)
        requires
            old(self).wf(),
            old(self).rows().len() + old(self).config().grid_height <= u32::MAX,
        ensures
            final(self).wf(),
            final(self).config() == old(self).config(),
            final(self).show_duration() == old(self).show_duration(),
            final(self).visibility() == old(self).visibility(),
            is_drawn(old(self).config(), *draw_config, width, height, p),
            is_step(
                old(self).rows(),
                old(self).config().grid_width as nat,
                Some(p.block),
                final(self).rows(),
            ),
            final(self).rows().len() <= old(self).rows().len() + old(self).config().grid_height,
    {
        let grid_size: u32 = self.config.grid_size;
        let wide: u32 = cells(width, grid_size);
        let high: u32 = cells(height, grid_size);
        let ghost before = self.grid.rows();
        let (col, row) = self.grid.find_space(wide, high);
        let block = Block {
            col,
            row,
            width: if wide < self.config.grid_width {
                wide
            } else {
                self.config.grid_width
            },
            height: if high < self.config.grid_height {
                high
            } else {
                self.config.grid_height
            },
        };
        proof {
            lemma_placement_length(
                before,
                self.config.grid_width as nat,
                block.width as nat,
                block.height as nat,
                col as nat,
                row as nat,
                self.grid.rows(),
            );
        }
        Placement {
            block,
            x: times(col, grid_size),
            y: times(row, grid_size),
            width: times(wide, grid_size),
            height: times(high, grid_size),
            x_offset: offset(draw_config.horizontal_centre_align, wide, grid_size, width),
            y_offset: offset(draw_config.vertical_centre_align, high, grid_size, height),
        }
    }

    /// Lays out a frame: the grid is emptied, and every item with a text
    /// is given its place, in the order of the items. An item without text
    /// is left out.
    pub fn draw_items(&mut self, items: &Vec<FrameItem>) -> (placements: Vec<Option<Placement>>)
        requires
            old(self).wf(),
            items.len() * old(self).config().grid_height <= u32::MAX,
        ensures
            final(self).wf(),
            final(self).config() == old(self).config(),
            final(self).show_duration() == old(self).show_duration(),
            final(self).visibility() == old(self).visibility(),
            placements.len() == items.len(),
            forall|i: int|
                0 <= i < items.len() ==> ((#[trigger] placements[i]) is None <==> items[i].text@.len()
                    == 0),
            forall|i: int|
                0 <= i < items.len() && (#[trigger] placements[i]) is Some ==> is_drawn(
                    old(self).config(),
                    items[i].draw_config,
                    items[i].width,
                    items[i].height,
                    placements[i]->Some_0,
                ),
            exists|states: Seq<Seq<nat>>|
                #![trigger is_placement_series(old(self).config().grid_width as nat, states, blocks_of(placements@))]
                {
                    &&& is_placement_series(
                        old(self).config().grid_width as nat,
                        states,
                        blocks_of(placements@),
                    )
                    &&& states[0] == Seq::<nat>::empty()
                    &&& states[items.len() as int] == final(self).rows()
                },
            forall|i: int, j: int|
                0 <= i < j < items.len() && (#[trigger] placements[i]) is Some && (
                #[trigger] placements[j]) is Some ==> !placements[i]->Some_0.block.overlaps(
                    placements[j]->Some_0.block,
                ),
    {
        self.clear();
        let ghost grid_width = self.config.grid_width as nat;
        let ghost grid_height = self.config.grid_height as nat;
        let ghost mut states: Seq<Seq<nat>> = seq![Seq::<nat>::empty()];
        let mut placements: Vec<Option<Placement>> = Vec::new();
        let n: usize = items.len();
        let mut i: usize = 0;
        while i < n
            invariant
                i <= n,
                n == items.len(),
                self.wf(),
                self.config() == old(self).config(),
                self.show_duration() == old(self).show_duration(),
                self.visibility() == old(self).visibility(),
                grid_width == self.config().grid_width,
                grid_height == self.config().grid_height,
                n * grid_height <= u32::MAX,
                self.rows().len() <= i * grid_height,
                placements.len() == i,
                states.len() == i + 1,
                states[0] == Seq::<nat>::empty(),
                states[i as int] == self.rows(),
                is_placement_series(grid_width, states, blocks_of(placements@)),
                forall|k: int|
                    0 <= k < i ==> ((#[trigger] placements[k]) is None <==> items[k].text@.len()
                        == 0),
                forall|k: int|
                    0 <= k < i && (#[trigger] placements[k]) is Some ==> is_drawn(
                        self.config(),
                        items[k].draw_config,
                        items[k].width,
                        items[k].height,
                        placements[k]->Some_0,
                    ),
            decreases n - i,
        {
            let ghost old_states = states;
            let ghost old_blocks = blocks_of(placements@);
            assert(i * grid_height + grid_height <= n * grid_height) by (nonlinear_arith)
                requires
                    i < n,
                    grid_height >= 0,
            ;
            let item = &items[i];
            let placed: Option<Placement> = if item.text.as_str().unicode_len() == 0 {
                None
            } else {
                Some(self.draw(&item.draw_config, item.width, item.height))
            };
            placements.push(placed);
            proof {
                states = states.push(self.rows());
                let blocks = blocks_of(placements@);
                assert forall|k: int| 0 <= k < blocks.len() implies is_step(
                    #[trigger] states[k],
                    grid_width,
                    blocks[k],
                    states[k + 1],
                ) by {
                    if k < i {
                        assert(states[k] == old_states[k]);
                        assert(states[k + 1] == old_states[k + 1]);
                        assert(blocks[k] == old_blocks[k]);
                        assert(is_step(old_states[k], grid_width, old_blocks[k], old_states[k + 1]));
                    }
                }
                assert((i + 1) * grid_height == i * grid_height + grid_height) by (nonlinear_arith);
            }
            i += 1;
        }
        proof {
            lemma_blocks_never_overlap(grid_width, states, blocks_of(placements@));
            assert forall|a: int, b: int|
                0 <= a < b < items.len() && (#[trigger] placements[a]) is Some && (
                #[trigger] placements[b]) is Some implies !placements[a]->Some_0.block.overlaps(
                placements[b]->Some_0.block,
            ) by {
                let blocks = blocks_of(placements@);
                assert(blocks[a] is Some && blocks[b] is Some);
            }
            assert(is_placement_series(grid_width, states, blocks_of(placements@)));
        }
        placements
    }
}

/// The commands of one round of the loop, in the order in which they are
/// handled: the command that the loop waited for, if it had to wait; then
/// the events of the windowing system; then what the channel holds.
pub open spec fn round_commands(
    waited: Option<Command>,
    events: Seq<Event>,
    queued: Seq<Command>,
) -> Seq<Command> {
    (match waited {
        Some(command) => seq![command],
        None => Seq::empty(),
    }) + Seq::new(events.len(), |i: int| Command::Event(events[i])) + queued
}

/// Puts the commands of one round of the loop in the order in which they
/// are handled.
pub fn get_commands(waited: Option<Command>, events: &Vec<Event>, queued: &Vec<Command>) -> (r:
    Vec<Command>)
    ensures
        r@ == round_commands(waited, events@, queued@),
{
    let mut result: Vec<Command> = Vec::new();
    match waited {
        Some(command) => {
            result.push(command);
        },
        None => {},
    }
    let ghost head = result@;
    let mut i: usize = 0;
    while i < events.len()
        invariant
            i <= events.len(),
            result@ == head + Seq::new(i as nat, |k: int| Command::Event(events@[k])),
        decreases events.len() - i,
    {
        result.push(Command::Event(events[i]));
        i += 1;
        assert(result@ =~= head + Seq::new(i as nat, |k: int| Command::Event(events@[k])));
    }
    let ghost middle = result@;
    let mut j: usize = 0;
    while j < queued.len()
        invariant
            j <= queued.len(),
            result@ == middle + queued@.take(j as int),
        decreases queued.len() - j,
    {
        result.push(queued[j]);
        j += 1;
        assert(result@ =~= middle + queued@.take(j as int));
    }
    assert(queued@.take(queued.len() as int) =~= queued@);
    result
}

/// What handling a round of commands gives: the state at its end and what
/// is to be done, command by command. The round ends with the first
/// command that ends the loop; what follows it is not handled.
pub open spec fn round(
    state: Visibility,
    commands: Seq<Command>,
    now: u64,
    show_duration: u64,
) -> (Visibility, Seq<Action>)
    decreases commands.len(),
{
    if commands.len() == 0 {
        (state, Seq::empty())
    } else {
        let next = next_state(state, commands[0], now, show_duration);
        let action = action_for(state, commands[0], now, show_duration);
        if next == Visibility::Stopped {
            (next, seq![action])
        } else {
            let rest = round(next, commands.skip(1), now, show_duration);
            (rest.0, seq![action] + rest.1)
        }
    }
}

impl Window {
    /// Handles the commands of one round at time `now`, in order, up to
    /// and including the first that ends the loop. Returns what is to be
    /// done for each command that was handled.
    pub fn window_loop(&mut self, commands: &Vec<Command>, now: u64) -> (actions: Vec<Action>)
        requires
            old(self).wf(),
        ensures
            final(self).wf(),
            final(self).config() == old(self).config(),
            final(self).show_duration() == old(self).show_duration(),
            final(self).rows() == old(self).rows(),
            (final(self).visibility(), actions@) == round(
                old(self).visibility(),
                commands@,
                now,
                old(self).show_duration(),
            ),
    {
        let mut actions: Vec<Action> = Vec::new();
        let n: usize = commands.len();
        let mut i: usize = 0;
        proof {
            let whole = round(self.visibility(), commands@, now, self.show_duration());
            assert(commands@.skip(0) =~= commands@);
            assert(actions@ + whole.1 =~= whole.1);
        }
        while i < n
            invariant
                i <= n,
                n == commands@.len(),
                self.wf(),
                self.config() == old(self).config(),
                self.show_duration() == old(self).show_duration(),
                self.rows() == old(self).rows(),
                round(old(self).visibility(), commands@, now, self.show_duration()) == (
                    round(self.visibility(), commands@.skip(i as int), now, self.show_duration()).0,
                    actions@ + round(
                        self.visibility(),
                        commands@.skip(i as int),
                        now,
                        self.show_duration(),
                    ).1,
                ),
            decreases n - i,
        {
            let ghost rest = commands@.skip(i as int);
            assert(rest[0] == commands@[i as int]);
            assert(rest.skip(1) =~= commands@.skip(i + 1));
            let ghost before = actions@;
            let ghost state = self.visibility();
            let action = self.handle_command(commands[i], now);
            actions.push(action);
            if self.has_stopped() {
                assert(actions@ =~= before + seq![action]);
                return actions;
            }
            assert(actions@ + round(
                self.visibility(),
                commands@.skip(i + 1),
                now,
                self.show_duration(),
            ).1 =~= before + (seq![action] + round(
                self.visibility(),
                commands@.skip(i + 1),
                now,
                self.show_duration(),
            ).1));
            i += 1;
        }
        assert(commands@.skip(n as int) =~= Seq::<Command>::empty());
        assert(actions@ + Seq::<Action>::empty() =~= actions@);
        actions
    }

    /// Whether the loop has ended.
    fn has_stopped(&self) -> (stopped: bool)
        ensures
            stopped == (self.visibility() == Visibility::Stopped),
    {
        match self.state {
            Visibility::Stopped => true,
            _ => false,
        }
    }
}

/// A placement adds no more rows than the block is high.
proof fn lemma_placement_length(
    before: Seq<nat>,
    grid_width: nat,
    width: nat,
    height: nat,
    col: nat,
    row: nat,
    after: Seq<nat>,
)
    requires
        is_placement(before, grid_width, width, height, col, row, after),
    ensures
        after.len() <= before.len() + height,
{
}

/// The number of cells of the given size that it takes to cover a number of
/// pixels.
pub fn cells(pixels: u32, cell_size: u32) -> (n: u32)
    ensures
        n == cells_for(pixels, cell_size),
{
    if cell_size == 0 {
        if pixels == 0 {
            0
        } else {
            u32::MAX
        }
    } else {
        proof {
            lemma_cells_cover(pixels, cell_size);
        }
        let n: u64 = (pixels as u64 + cell_size as u64 - 1) / (cell_size as u64);
        n as u32
    }
}

} // verus!
