use rainforest::{
    ActionError, CellVisibility, Colour, Config, ControlFlow, Coord, Game, Item, Light, RainLevel, Rational, Running,
    Size, Status, TickOutput, Witness, World,
};

const CALM: Status = Status {
    rain_level: RainLevel::Light,
    player_lantern: false,
    pushing: false,
    player_item: None,
    motivation: 50,
};

fn new_game(config: &Config, world: World, player_coord: Coord) -> (Game, Running) {
    rainforest::new_game(config, world, player_coord, CALM)
}

const PLAIN: Config = Config { omniscient: false, debug: false };

fn small_world() -> World {
    let mut world = World::new(Size::new(7, 7));
    world.add_light(
        Coord::new(3, 3),
        Light {
            colour: Colour::new_grey(185),
            vision_distance_squared: 200,
            diminish: Rational { numerator: 1, denominator: 50 },
        },
    );
    world
}

fn expect_running(w: Witness) -> Running {
    match w {
        Witness::Running(r) => r,
        _ => panic!("expected the game to be running"),
    }
}

#[test]
fn new_game_sees_from_the_start() {
    let (game, _running) = new_game(&PLAIN, small_world(), Coord::new(3, 3));
    assert_eq!(game.visibility_grid().count(), 1);
    assert_eq!(game.player_coord(), Coord::new(3, 3));
    assert_eq!(game.world_size(), Size::new(7, 7));
    assert!(game.visibility_grid().is_coord_currently_visible(Coord::new(3, 4)));
}

#[test]
fn omniscient_config_reveals_the_map() {
    let config = Config { omniscient: true, debug: false };
    let mut world = small_world();
    world.spawn_wall(Coord::new(3, 4));
    let (game, _running) = new_game(&config, world, Coord::new(3, 3));
    assert_eq!(
        game.visibility_grid().cell_visibility(Coord::new(3, 6)),
        CellVisibility::CurrentlyVisibleWithLightColour(Some(Colour::new_grey(255)))
    );
}

#[test]
fn accepted_action_commits_a_turn() {
    let (mut game, running) = new_game(&PLAIN, small_world(), Coord::new(3, 3));
    let (w, r) = running.player_dig(&mut game, &PLAIN, Ok(None));
    assert!(r.is_ok());
    assert_eq!(game.visibility_grid().count(), 2);
    let running = expect_running(w);
    let (w, r) = running.player_get(&mut game, &PLAIN, Ok(Some(ControlFlow::Win)));
    assert!(r.is_ok());
    assert!(matches!(w, Witness::Win));
    assert_eq!(game.visibility_grid().count(), 3);
}

#[test]
fn refused_action_keeps_the_game_as_it_was() {
    let (mut game, running) = new_game(&PLAIN, small_world(), Coord::new(3, 3));
    let err = ActionError::Message("You can't dig here.".to_string());
    let (w, r) = running.player_toggle_lantern(&mut game, &PLAIN, Err(err.clone()));
    assert_eq!(r, Err(err));
    assert_eq!(game.visibility_grid().count(), 1);
    let running = expect_running(w);
    let (w, r) = running.player_toggle_pushing(&mut game, &PLAIN, Ok(Some(ControlFlow::GameOver)));
    assert!(r.is_ok());
    assert!(matches!(w, Witness::GameOver));
}

#[test]
fn control_flow_leads_to_the_matching_witness() {
    let (mut game, running) = new_game(&PLAIN, small_world(), Coord::new(3, 3));
    let w = running.player_wait(&mut game, &PLAIN, Some(ControlFlow::Prompt("Hello".to_string())));
    let prompt = match w {
        Witness::Prompt(p) => p,
        _ => panic!("expected a prompt"),
    };
    assert_eq!(prompt.message(), "Hello");
    let running = expect_running(prompt.running());
    let w = running.player_wait_long(&mut game, &PLAIN, Some(ControlFlow::Sleep));
    let sleep = match w {
        Witness::Sleep(s) => s,
        _ => panic!("expected sleep"),
    };
    assert_eq!(game.visibility_grid().count(), 3);
    let running = expect_running(sleep.cancel());
    let w = running.player_wait(&mut game, &PLAIN, None);
    assert!(matches!(w, Witness::Running(_)));
}

#[test]
fn sleeping_commits_a_turn_and_may_win() {
    let (mut game, running) = new_game(&PLAIN, small_world(), Coord::new(3, 3));
    let sleep = match running.player_wait(&mut game, &PLAIN, Some(ControlFlow::Sleep)) {
        Witness::Sleep(s) => s,
        _ => panic!("expected sleep"),
    };
    match sleep.commit(&mut game, &PLAIN, false, "You wake up.".to_string()) {
        Witness::Prompt(p) => assert_eq!(p.message(), "You wake up."),
        _ => panic!("expected a prompt"),
    }
    assert_eq!(game.visibility_grid().count(), 3);
    let (mut game, running) = new_game(&PLAIN, small_world(), Coord::new(3, 3));
    let sleep = match running.player_wait(&mut game, &PLAIN, Some(ControlFlow::Sleep)) {
        Witness::Sleep(s) => s,
        _ => panic!("expected sleep"),
    };
    assert!(matches!(sleep.commit(&mut game, &PLAIN, true, String::new()), Witness::Win));
}

#[test]
fn tick_passes_prompts_on() {
    let (game, running) = new_game(&PLAIN, small_world(), Coord::new(3, 3));
    let running = expect_running(running.tick(None));
    match running.tick(Some(TickOutput::Prompt("Rain".to_string()))) {
        Witness::Prompt(p) => {
            assert_eq!(p.message(), "Rain");
            assert!(matches!(p.into_witness(), Witness::Prompt(_)));
        }
        _ => panic!("expected a prompt"),
    }
    assert_eq!(game.visibility_grid().count(), 1);
}

#[test]
fn running_game_round_trip() {
    let (mut game, running) = new_game(&PLAIN, small_world(), Coord::new(3, 3));
    let mut world = small_world();
    world.spawn_wall(Coord::new(1, 1));
    game.set_world(world, Coord::new(2, 2));
    let stored = running.running_game(game);
    let (game, running) = stored.into_game();
    assert_eq!(game.player_coord(), Coord::new(2, 2));
    assert!(matches!(running.into_witness(), Witness::Running(_)));
    assert!(game.contains_wall(Coord::new(0, 0)) == false);
    assert!(!game.should_hide_rain(Coord::new(0, 0)));
}

#[test]
fn status_is_reported_as_handed_in() {
    let (mut game, _running) = new_game(&PLAIN, small_world(), Coord::new(3, 3));
    assert_eq!(game.rain_level(), RainLevel::Light);
    assert!(!game.player_lantern());
    assert!(!game.pushing());
    assert_eq!(game.player_item(), None);
    assert_eq!(game.motivation(), 50);
    game.set_status(Status {
        rain_level: RainLevel::Heavy,
        player_lantern: true,
        pushing: true,
        player_item: Some(Item::Tea),
        motivation: -3,
    });
    assert_eq!(game.rain_level(), RainLevel::Heavy);
    assert!(game.player_lantern());
    assert!(game.pushing());
    assert_eq!(game.player_item(), Some(Item::Tea));
    assert_eq!(game.motivation(), -3);
    assert_eq!(game.visibility_grid().count(), 1);
}
