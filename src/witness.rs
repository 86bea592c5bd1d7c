//! Witness values: the sole means of mutating a [`Game`].
//!
//! Each kind of interaction that the game can expect is represented by a
//! witness type that cannot be cloned or minted outside this module. Methods
//! that advance the game take a witness by value and hand back the witness for
//! the interaction expected next, so an update that does not fit the current
//! state cannot be expressed.
//!
//! Resolving a player action against the world happens outside this library;
//! its outcome is handed in here, and a committed turn then recomputes what
//! the player perceives.
use vstd::prelude::*;
use crate::geometry::{Coord, Size};
use crate::components::{Item, Tile};
use crate::visibility::{fresh_grid, updated, GridModel, Omniscient, VisibilityGrid};
use crate::world::{is_wall_tile, tile_of, World, WorldModel};

verus! {

/// Why an action was refused, as a message for the player.
#[derive(Clone, Debug, PartialEq, Eq)]
pub enum ActionError {
    Message(String),
}

/// What an action asks of the game's flow after it took effect.
#[derive(Clone, Debug, PartialEq, Eq)]
pub enum ControlFlow {
    Prompt(String),
    Sleep,
    Win,
    GameOver,
}

/// What a frame tick asks of the game's flow.
#[derive(Clone, Debug, PartialEq, Eq)]
pub enum TickOutput {
    Prompt(String),
}

/// Game settings.
#[derive(Clone, Copy, Debug, PartialEq, Eq, Structural)]
pub struct Config {
    pub omniscient: bool,
    pub debug: bool,
}

/// How hard it is raining.
#[derive(Clone, Copy, Debug, PartialEq, Eq, Structural)]
pub enum RainLevel {
    Light,
    Medium,
    Heavy,
}

/// The player's situation as the simulation last reported it.
#[derive(Clone, Copy, Debug, PartialEq, Eq, Structural)]
pub struct Status {
    pub rain_level: RainLevel,
    pub player_lantern: bool,
    pub pushing: bool,
    pub player_item: Option<Item>,
    pub motivation: i32,
}

/// Prevents witnesses being minted other than in the approved ways. Neither
/// this type nor any witness is `Clone` or `Copy`.
#[derive(Debug)]
struct Private;

/// The game is running, expecting inputs that move or act with the player
/// character.
#[derive(Debug)]
pub struct Running(Private);

/// The game is waiting to hear whether the player character goes to sleep.
#[derive(Debug)]
pub struct Sleep(Private);

/// The game is showing a message and waits for it to be dismissed.
#[derive(Debug)]
pub struct Prompt {
    message: String,
    private: Private,
}

/// The interaction the game expects next.
#[derive(Debug)]
pub enum Witness {
    Running(Running),
    Sleep(Sleep),
    Prompt(Prompt),
    GameOver,
    Win,
}

impl View for Prompt {
    type V = Seq<char>;

    closed spec fn view(&self) -> Seq<char> {
        self.message@
    }
}

/// The witness that a control flow request leads to: no request keeps the game
/// running.
pub open spec fn follows(cf: Option<ControlFlow>, w: Witness) -> bool {
    match cf {
        None => w is Running,
        Some(ControlFlow::Prompt(m)) => w matches Witness::Prompt(p) && p@ == m@,
        Some(ControlFlow::Sleep) => w is Sleep,
        Some(ControlFlow::Win) => w is Win,
        Some(ControlFlow::GameOver) => w is GameOver,
    }
}

/// The witness after an action's outcome: a refused action keeps the game
/// running.
pub open spec fn follows_result(cfr: Result<Option<ControlFlow>, ActionError>, w: Witness) -> bool {
    match cfr {
        Ok(cf) => follows(cf, w),
        Err(_) => w is Running,
    }
}

/// The error part of an action's outcome.
pub open spec fn error_of(cfr: Result<Option<ControlFlow>, ActionError>) -> Result<(), ActionError> {
    match cfr {
        Ok(_) => Ok(()),
        Err(e) => Err(e),
    }
}

/// A game in progress: the world as last resolved, where the player stands,
/// and what the player perceives of it.
pub struct Game {
    world: World,
    visibility_grid: VisibilityGrid,
    player_coord: Coord,
    status: Status,
}

pub ghost struct GameModel {
    pub world: WorldModel,
    pub grid: GridModel,
    pub player_coord: Coord,
    pub status: Status,
}

impl GameModel {
    pub open spec fn wf(self) -> bool {
        &&& self.world.wf()
        &&& self.grid.wf()
        &&& self.world.size == self.grid.size
    }

    /// One committed turn: perception is recomputed from where the player stands.
    pub open spec fn committed(self, config: Config) -> GameModel {
        GameModel { grid: updated(self.grid, self.world, Some(self.player_coord), config.omniscient), ..self }
    }
}

impl View for Game {
    type V = GameModel;

    closed spec fn view(&self) -> GameModel {
        GameModel {
            world: self.world@,
            grid: self.visibility_grid@,
            player_coord: self.player_coord,
            status: self.status,
        }
    }
}

/// Wraps a `Game`, and can only be made from a `Running`, serving as proof that
/// the wrapped game is in the state that witness represents.
pub struct RunningGame(Game);

impl View for RunningGame {
    type V = GameModel;

    closed spec fn view(&self) -> GameModel {
        self.0@
    }
}

/// Starts a game in the given world with the player at the given position; the
/// player's first view of it is computed at once.
pub fn new_game(config: &Config, world: World, player_coord: Coord, status: Status) -> (r: (Game, Running))
    requires
        world.wf(),
    ensures
        r.0@.wf(),
        r.0@ == (GameModel {
            world: world@,
            grid: updated(fresh_grid(world@.size), world@, Some(player_coord), config.omniscient),
            player_coord,
            status,
        }),
{
    let grid = VisibilityGrid::new(world.size());
    let mut game = Game { world, visibility_grid: grid, player_coord, status };
    game.update_visibility(config);
    (game, Running(Private))
}

impl Game {
    /// Recomputes what the player perceives, once per committed turn.
    fn update_visibility(&mut self, config: &Config)
        requires
            old(self)@.wf(),
            old(self)@.grid.generation < u64::MAX,
        ensures
            final(self)@.wf(),
            final(self)@ == old(self)@.committed(*config),
    {
        let omniscient = if config.omniscient {
            Some(Omniscient)
        } else {
            None
        };
        self.visibility_grid.update(Some(self.player_coord), &self.world, omniscient);
    }

    /// Takes in the world as the simulation resolved it, with the player's new
    /// position. Perception changes only when a turn is committed.
    pub fn set_world(&mut self, world: World, player_coord: Coord)
        requires
            old(self)@.wf(),
            world.wf(),
            world@.size == old(self)@.world.size,
        ensures
            final(self)@.wf(),
            final(self)@ == (GameModel { world: world@, player_coord, ..old(self)@ }),
    {
        self.world = world;
        self.player_coord = player_coord;
    }

    /// Takes in the player's situation as the simulation reports it.
    pub fn set_status(&mut self, status: Status)
        ensures
            final(self)@ == (GameModel { status, ..old(self)@ }),
    {
        self.status = status;
    }

    pub fn rain_level(&self) -> (r: RainLevel)
        ensures
            r == self@.status.rain_level,
    {
        self.status.rain_level
    }

    pub fn player_lantern(&self) -> (b: bool)
        ensures
            b == self@.status.player_lantern,
    {
        self.status.player_lantern
    }

    pub fn pushing(&self) -> (b: bool)
        ensures
            b == self@.status.pushing,
    {
        self.status.pushing
    }

    pub fn player_item(&self) -> (i: Option<Item>)
        ensures
            i == self@.status.player_item,
    {
        self.status.player_item
    }

    pub fn motivation(&self) -> (m: i32)
        ensures
            m == self@.status.motivation,
    {
        self.status.motivation
    }

    pub fn visibility_grid(&self) -> (g: &VisibilityGrid)
        ensures
            g@ == self@.grid,
    {
        &self.visibility_grid
    }

    pub fn world_size(&self) -> (s: Size)
        ensures
            s == self@.world.size,
    {
        self.world.size()
    }

    pub fn player_coord(&self) -> (c: Coord)
        ensures
            c == self@.player_coord,
    {
        self.player_coord
    }

    /// Whether a wall, window or door stands at the coordinate.
    pub fn contains_wall(&self, coord: Coord) -> (b: bool)
        requires
            self@.wf(),
        ensures
            b == (self@.world.layers_at(coord).feature matches Some(et) && is_wall_tile(et.tile)),
    {
        self.world.is_wall_at_coord(coord)
    }

    /// Whether rain is hidden at the coordinate.
    pub fn should_hide_rain(&self, coord: Coord) -> (b: bool)
        requires
            self@.wf(),
        ensures
            b == (tile_of(self@.world.layers_at(coord).floor) == Some(Tile::Floor)
                && !(coord.y < i32::MAX && tile_of(self@.world.layers_at(Coord { x: coord.x, y: (coord.y + 1) as i32 }).floor) == Some(Tile::Ground))),
    {
        self.world.should_hide_rain(coord)
    }
}

impl Running {
    pub fn running_game(self, game: Game) -> (r: RunningGame)
        ensures
            r@ == game@,
    {
        RunningGame(game)
    }

    /// Wraps `self` in `Witness::Running`.
    pub fn into_witness(self) -> (w: Witness)
        ensures
            w is Running,
    {
        Witness::Running(self)
    }

    fn into_prompt_witness(self, message: String) -> (w: Witness)
        ensures
            w matches Witness::Prompt(p) && p@ == message@,
    {
        Witness::Prompt(Prompt { message, private: self.0 })
    }

    fn handle_control_flow(self, cf: Option<ControlFlow>) -> (w: Witness)
        ensures
            follows(cf, w),
    {
        match cf {
            None => self.into_witness(),
            Some(control_flow) => match control_flow {
                ControlFlow::Prompt(message) => self.into_prompt_witness(message),
                ControlFlow::Sleep => Witness::Sleep(Sleep(self.0)),
                ControlFlow::Win => Witness::Win,
                ControlFlow::GameOver => Witness::GameOver,
            },
        }
    }

    fn handle_control_flow_result(self, cfr: Result<Option<ControlFlow>, ActionError>) -> (r: (Witness, Result<(), ActionError>))
        ensures
            follows_result(cfr, r.0),
            r.1 == error_of(cfr),
    {
        match cfr {
            Ok(maybe_control_flow) => (self.handle_control_flow(maybe_control_flow), Ok(())),
            Err(e) => (self.into_witness(), Err(e)),
        }
    }

    /// An action whose outcome the simulation decided: a refused action leaves
    /// the game as it was; an accepted one commits a turn.
    fn act(self, game: &mut Game, config: &Config, outcome: Result<Option<ControlFlow>, ActionError>) -> (r: (Witness, Result<(), ActionError>))
        requires
            old(game)@.wf(),
            old(game)@.grid.generation < u64::MAX,
        ensures
            final(game)@.wf(),
            final(game)@ == (if outcome is Ok { old(game)@.committed(*config) } else { old(game)@ }),
            follows_result(outcome, r.0),
            r.1 == error_of(outcome),
    {
        if outcome.is_ok() {
            game.update_visibility(config);
        }
        self.handle_control_flow_result(outcome)
    }

    /// Called once per frame with what the frame's tick asked for.
    pub fn tick(self, output: Option<TickOutput>) -> (w: Witness)
        ensures
            match output {
                None => w is Running,
                Some(TickOutput::Prompt(m)) => w matches Witness::Prompt(p) && p@ == m@,
            },
    {
        match output {
            None => self.into_witness(),
            Some(TickOutput::Prompt(message)) => self.into_prompt_witness(message),
        }
    }

    /// The player digs; `outcome` is what the simulation made of it.
    pub fn player_dig(self, game: &mut Game, config: &Config, outcome: Result<Option<ControlFlow>, ActionError>) -> (r: (Witness, Result<(), ActionError>))
        requires
            old(game)@.wf(),
            old(game)@.grid.generation < u64::MAX,
        ensures
            final(game)@.wf(),
            final(game)@ == (if outcome is Ok { old(game)@.committed(*config) } else { old(game)@ }),
            follows_result(outcome, r.0),
            r.1 == error_of(outcome),
    {
        self.act(game, config, outcome)
    }

    /// The player starts or stops pushing; `outcome` is what the simulation made of it.
    pub fn player_toggle_pushing(self, game: &mut Game, config: &Config, outcome: Result<Option<ControlFlow>, ActionError>) -> (r: (Witness, Result<(), ActionError>))
        requires
            old(game)@.wf(),
            old(game)@.grid.generation < u64::MAX,
        ensures
            final(game)@.wf(),
            final(game)@ == (if outcome is Ok { old(game)@.committed(*config) } else { old(game)@ }),
            follows_result(outcome, r.0),
            r.1 == error_of(outcome),
    {
        self.act(game, config, outcome)
    }

    /// The player lights or puts out the lantern; `outcome` is what the simulation made of it.
    pub fn player_toggle_lantern(self, game: &mut Game, config: &Config, outcome: Result<Option<ControlFlow>, ActionError>) -> (r: (Witness, Result<(), ActionError>))
        requires
            old(game)@.wf(),
            old(game)@.grid.generation < u64::MAX,
        ensures
            final(game)@.wf(),
            final(game)@ == (if outcome is Ok { old(game)@.committed(*config) } else { old(game)@ }),
            follows_result(outcome, r.0),
            r.1 == error_of(outcome),
    {
        self.act(game, config, outcome)
    }

    /// The player picks something up; `outcome` is what the simulation made of it.
    pub fn player_get(self, game: &mut Game, config: &Config, outcome: Result<Option<ControlFlow>, ActionError>) -> (r: (Witness, Result<(), ActionError>))
        requires
            old(game)@.wf(),
            old(game)@.grid.generation < u64::MAX,
        ensures
            final(game)@.wf(),
            final(game)@ == (if outcome is Ok { old(game)@.committed(*config) } else { old(game)@ }),
            follows_result(outcome, r.0),
            r.1 == error_of(outcome),
    {
        self.act(game, config, outcome)
    }

    /// The player waits a turn, which always commits; `cf` is what the
    /// simulation asked for after it.
    pub fn player_wait(self, game: &mut Game, config: &Config, cf: Option<ControlFlow>) -> (w: Witness)
        requires
            old(game)@.wf(),
            old(game)@.grid.generation < u64::MAX,
        ensures
            final(game)@.wf(),
            final(game)@ == old(game)@.committed(*config),
            follows(cf, w),
    {
        game.update_visibility(config);
        self.handle_control_flow(cf)
    }

    /// The player waits for a long time, which always commits; `cf` is what the
    /// simulation asked for after it.
    pub fn player_wait_long(self, game: &mut Game, config: &Config, cf: Option<ControlFlow>) -> (w: Witness)
        requires
            old(game)@.wf(),
            old(game)@.grid.generation < u64::MAX,
        ensures
            final(game)@.wf(),
            final(game)@ == old(game)@.committed(*config),
            follows(cf, w),
    {
        game.update_visibility(config);
        self.handle_control_flow(cf)
    }
}

impl Sleep {
    /// The player decided not to sleep.
    pub fn cancel(self) -> (w: Witness)
        ensures
            w is Running,
    {
        Witness::Running(Running(self.0))
    }

    /// The player sleeps, which commits a turn. The game is won if `won` says
    /// so; otherwise the player wakes to `message`.
    pub fn commit(self, game: &mut Game, config: &Config, won: bool, message: String) -> (w: Witness)
        requires
            old(game)@.wf(),
            old(game)@.grid.generation < u64::MAX,
        ensures
            final(game)@.wf(),
            final(game)@ == old(game)@.committed(*config),
            won ==> w is Win,
            !won ==> (w matches Witness::Prompt(p) && p@ == message@),
    {
        game.update_visibility(config);
        if won {
            Witness::Win
        } else {
            Witness::Prompt(Prompt { message, private: self.0 })
        }
    }
}

impl Prompt {
    pub fn into_witness(self) -> (w: Witness)
        ensures
            w matches Witness::Prompt(p) && p@ == self@,
    {
        Witness::Prompt(self)
    }

    /// The message was dismissed; the game runs on.
    pub fn running(self) -> (w: Witness)
        ensures
            w is Running,
    {
        Running(self.private).into_witness()
    }

    pub fn message(&self) -> (m: &str)
        ensures
            m@ == self@,
    {
        self.message.as_str()
    }
}

impl RunningGame {
    pub fn into_game(self) -> (r: (Game, Running))
        ensures
            r.0@ == self@,
    {
        (self.0, Running(Private))
    }
}

} // verus!
