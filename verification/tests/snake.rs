use keylights::snake::{Snake, State, MAX_DRAWS};
use keylights::{
    Cell, Color, Command, Direction, Key, KeyColor, KeyEvent, RandomSource, StandardKey,
    ThreadSource,
};

/// A source that hands out the given bytes, over and over.
struct Script {
    bytes: Vec<u8>,
    at: usize,
}

impl Script {
    fn new(bytes: &[u8]) -> Script {
        Script { bytes: bytes.to_vec(), at: 0 }
    }
}

impl RandomSource for Script {
    fn next_u8(&mut self) -> u8 {
        let b = self.bytes[self.at % self.bytes.len()];
        self.at += 1;
        b
    }
}

/// A small generator of bytes and choices, the same in every run.
struct Lcg(u64);

impl Lcg {
    fn next(&mut self) -> u64 {
        self.0 = self.0.wrapping_mul(6364136223846793005).wrapping_add(1442695040888963407);
        self.0 >> 33
    }
}

impl RandomSource for Lcg {
    fn next_u8(&mut self) -> u8 {
        (self.next() & 0xff) as u8
    }
}

fn press(k: StandardKey) -> KeyEvent {
    KeyEvent::KeyPressed(Key::Standard(k))
}

fn std_key(k: StandardKey, red: u8, green: u8, blue: u8) -> KeyColor {
    KeyColor::new(Key::Standard(k), Color::new(red, green, blue))
}

fn head(k: StandardKey) -> KeyColor {
    std_key(k, 0xe9, 0x1e, 0x63)
}

fn food(k: StandardKey) -> KeyColor {
    std_key(k, 0, 255, 0)
}

fn keys_of(cmd: &Command) -> Vec<KeyColor> {
    match cmd {
        Command::SetKeys(v) => v.clone(),
        Command::SetAll(_) => panic!("a list of keys was expected"),
    }
}

fn all_of(cmd: &Command) -> Color {
    match cmd {
        Command::SetAll(c) => *c,
        Command::SetKeys(_) => panic!("one colour for all keys was expected"),
    }
}

fn started(draws: &[u8]) -> (Snake, Script) {
    let mut source = Script::new(draws);
    let mut snake = Snake::new();
    snake.init(&mut source);
    (snake, source)
}

fn turn(snake: &mut Snake, source: &mut Script, k: StandardKey) {
    assert!(snake.accept_key(&press(k)));
    let cmds = snake.handle_key(&press(k), source);
    assert!(cmds.is_empty());
}

fn tick(snake: &mut Snake, source: &mut Script) -> Vec<Command> {
    assert!(snake.can_tick());
    snake.handle_time(source)
}

fn assert_sound(snake: &Snake) {
    let body = snake.body();
    let food = snake.food();
    assert!(body.len() >= 3);
    assert!(food.0 < 13 && food.1 < 4);
    assert!(!body.contains(&food));
    for (i, c) in body.iter().enumerate() {
        assert!(c.0 < 13 && c.1 < 4);
        assert!(!body[..i].contains(c));
    }
    assert!(snake.pending_directions().len() <= 2);
}

#[test]
fn snake_new_is_not_started() {
    let snake = Snake::new();
    assert!(snake.body().is_empty());
    assert_eq!(snake.food(), (0, 0));
    assert_eq!(snake.state(), State::Running);
    assert!(snake.pending_directions().is_empty());
    assert_eq!(snake.last_direction(), Direction::Right);
    assert!(!snake.can_tick());
}

#[test]
fn snake_init_seeds_the_start() {
    let mut source = Script::new(&[5, 0]);
    let mut snake = Snake::new();
    let cmds = snake.init(&mut source);
    assert_eq!(snake.body(), vec![(3, 2), (2, 2), (1, 2)]);
    assert_eq!(snake.food(), (5, 0));
    assert_eq!(snake.state(), State::Running);
    assert!(snake.pending_directions().is_empty());
    assert_eq!(snake.last_direction(), Direction::Right);
    assert_eq!(cmds.len(), 2);
    assert_eq!(all_of(&cmds[0]), Color::new(0, 0, 0));
    assert_eq!(
        keys_of(&cmds[1]),
        vec![
            std_key(StandardKey::S, 0, 0, 255),
            std_key(StandardKey::A, 0, 0, 203),
            head(StandardKey::D),
            food(StandardKey::_5),
        ]
    );
    assert_eq!(snake.to_key_colors(), keys_of(&cmds[1]));
    assert_sound(&snake);
}

#[test]
fn snake_init_starts_over_from_any_state() {
    let (mut snake, mut source) = started(&[5, 0, 6, 3]);
    turn(&mut snake, &mut source, StandardKey::Up);
    tick(&mut snake, &mut source);
    turn(&mut snake, &mut source, StandardKey::Left);
    snake.init(&mut source);
    assert_eq!(snake.body(), vec![(3, 2), (2, 2), (1, 2)]);
    assert_eq!(snake.food(), (6, 3));
    assert!(snake.pending_directions().is_empty());
    assert_eq!(snake.last_direction(), Direction::Right);
}

#[test]
fn snake_food_draw_is_taken_modulo_the_field() {
    let (snake, _) = started(&[200, 201]);
    assert_eq!(snake.food(), (5, 1));
    let (snake, _) = started(&[255, 255]);
    assert_eq!(snake.food(), (8, 3));
    let (snake, _) = started(&[13, 4]);
    assert_eq!(snake.food(), (0, 0));
    assert_eq!(snake.food_from_draw(200, 201), Some((5, 1)));
    assert_eq!(snake.food_from_draw(3, 2), None);
    assert_eq!(snake.food_from_draw(16, 6), None);
    assert_eq!(snake.food_from_draw(16, 7), Some((3, 3)));
}

#[test]
fn snake_food_draw_skips_the_snake() {
    let (snake, source) = started(&[3, 2, 15, 6, 1, 2, 7, 3, 9, 9]);
    assert_eq!(snake.food(), (7, 3));
    assert_eq!(source.at, 8);
}

#[test]
fn snake_food_falls_back_to_the_first_free_cell() {
    let (snake, source) = started(&[3, 2]);
    assert_eq!(snake.food(), (0, 0));
    assert_eq!(source.at, 2 * MAX_DRAWS as usize);
    assert_eq!(snake.first_free_cell(), Some((0, 0)));
    assert_sound(&snake);
}

#[test]
fn snake_occupies_its_cells() {
    let (snake, _) = started(&[5, 0]);
    assert!(snake.occupies((3, 2)));
    assert!(snake.occupies((2, 2)));
    assert!(snake.occupies((1, 2)));
    assert!(!snake.occupies((0, 2)));
    assert!(!snake.occupies((4, 2)));
    assert!(!snake.occupies((5, 0)));
    assert!(!snake.occupies((2, 1)));
}

#[test]
fn snake_first_tick_moves_right() {
    let (mut snake, mut source) = started(&[5, 0]);
    let cmds = tick(&mut snake, &mut source);
    assert_eq!(snake.body(), vec![(4, 2), (3, 2), (2, 2)]);
    assert_eq!(snake.food(), (5, 0));
    assert_eq!(snake.state(), State::Running);
    assert_eq!(snake.last_direction(), Direction::Right);
    assert_eq!(cmds.len(), 1);
    assert_eq!(
        keys_of(&cmds[0]),
        vec![
            std_key(StandardKey::D, 0, 0, 255),
            std_key(StandardKey::S, 0, 0, 203),
            head(StandardKey::F),
            food(StandardKey::_5),
            std_key(StandardKey::A, 0, 0, 0),
        ]
    );
    assert_sound(&snake);
}

#[test]
fn snake_eats_and_grows() {
    let (mut snake, mut source) = started(&[4, 2, 9, 1]);
    assert_eq!(snake.food(), (4, 2));
    let cmds = tick(&mut snake, &mut source);
    assert_eq!(snake.body(), vec![(4, 2), (3, 2), (2, 2), (1, 2)]);
    assert_eq!(snake.food(), (9, 1));
    assert_eq!(snake.state(), State::Running);
    assert_eq!(cmds.len(), 1);
    assert_eq!(
        keys_of(&cmds[0]),
        vec![
            std_key(StandardKey::D, 0, 0, 255),
            std_key(StandardKey::S, 0, 0, 216),
            std_key(StandardKey::A, 0, 0, 177),
            head(StandardKey::F),
            food(StandardKey::O),
        ]
    );
    assert_sound(&snake);
}

#[test]
fn snake_new_food_avoids_the_grown_snake() {
    // The first draw after the meal hits the new head, the second the old
    // tail, which stays when the snake eats.
    let (mut snake, mut source) = started(&[4, 2, 4, 2, 1, 2, 0, 3]);
    tick(&mut snake, &mut source);
    assert_eq!(snake.body(), vec![(4, 2), (3, 2), (2, 2), (1, 2)]);
    assert_eq!(snake.food(), (0, 3));
}

#[test]
fn snake_wraps_around_every_edge() {
    // Left, out of the first column.
    let (mut snake, mut source) = started(&[10, 0]);
    turn(&mut snake, &mut source, StandardKey::Up);
    tick(&mut snake, &mut source);
    turn(&mut snake, &mut source, StandardKey::Left);
    for _ in 0..3 {
        tick(&mut snake, &mut source);
    }
    assert_eq!(snake.body(), vec![(0, 1), (1, 1), (2, 1)]);
    tick(&mut snake, &mut source);
    assert_eq!(snake.body(), vec![(12, 1), (0, 1), (1, 1)]);
    assert_eq!(snake.state(), State::Running);

    // Right, out of the last column.
    let (mut snake, mut source) = started(&[10, 0]);
    for _ in 0..9 {
        tick(&mut snake, &mut source);
    }
    assert_eq!(snake.body(), vec![(12, 2), (11, 2), (10, 2)]);
    tick(&mut snake, &mut source);
    assert_eq!(snake.body(), vec![(0, 2), (12, 2), (11, 2)]);

    // Up, out of the first row.
    let (mut snake, mut source) = started(&[10, 0]);
    turn(&mut snake, &mut source, StandardKey::Up);
    for _ in 0..2 {
        tick(&mut snake, &mut source);
    }
    assert_eq!(snake.body(), vec![(3, 0), (3, 1), (3, 2)]);
    tick(&mut snake, &mut source);
    assert_eq!(snake.body(), vec![(3, 3), (3, 0), (3, 1)]);

    // Down, out of the last row.
    let (mut snake, mut source) = started(&[10, 0]);
    turn(&mut snake, &mut source, StandardKey::Down);
    tick(&mut snake, &mut source);
    assert_eq!(snake.body(), vec![(3, 3), (3, 2), (2, 2)]);
    tick(&mut snake, &mut source);
    assert_eq!(snake.body(), vec![(3, 0), (3, 3), (3, 2)]);
    assert_eq!(snake.state(), State::Running);
}

#[test]
fn snake_reversal_hits_the_neck_not_the_tail() {
    let (mut snake, mut source) = started(&[5, 0]);
    turn(&mut snake, &mut source, StandardKey::Left);
    let cmds = tick(&mut snake, &mut source);
    assert_eq!(snake.state(), State::Stop);
    // The snake is where it was, tail and all.
    assert_eq!(snake.body(), vec![(3, 2), (2, 2), (1, 2)]);
    assert_eq!(snake.food(), (5, 0));
    assert_eq!(snake.last_direction(), Direction::Left);
    assert!(snake.pending_directions().is_empty());
    assert_eq!(cmds.len(), 3);
    assert_eq!(all_of(&cmds[0]), Color::new(255, 0, 0));
    assert_eq!(
        keys_of(&cmds[1]),
        vec![
            std_key(StandardKey::S, 0, 0, 255),
            std_key(StandardKey::A, 0, 0, 203),
            head(StandardKey::D),
            food(StandardKey::_5),
        ]
    );
    // The crash is marked on the neck, the cell (2, 2), not on the cell
    // that the tail gave up, (1, 2).
    assert_eq!(
        keys_of(&cmds[2]),
        vec![std_key(StandardKey::NumReturn, 0, 0, 255), std_key(StandardKey::S, 255, 165, 0)]
    );
}

#[test]
fn snake_head_may_follow_the_tail() {
    let (mut snake, mut source) = started(&[4, 2, 9, 1]);
    tick(&mut snake, &mut source);
    turn(&mut snake, &mut source, StandardKey::Up);
    let cmds = tick(&mut snake, &mut source);
    assert_eq!(snake.body(), vec![(4, 1), (4, 2), (3, 2), (2, 2)]);
    assert_eq!(keys_of(&cmds[0]).last(), Some(&std_key(StandardKey::A, 0, 0, 0)));
    turn(&mut snake, &mut source, StandardKey::Left);
    let cmds = tick(&mut snake, &mut source);
    assert_eq!(snake.body(), vec![(3, 1), (4, 1), (4, 2), (3, 2)]);
    assert_eq!(keys_of(&cmds[0]).last(), Some(&std_key(StandardKey::S, 0, 0, 0)));
    // The next step down leads to (3, 2), where the tip of the tail is.
    turn(&mut snake, &mut source, StandardKey::Down);
    let cmds = tick(&mut snake, &mut source);
    assert_eq!(snake.state(), State::Running);
    assert_eq!(snake.body(), vec![(3, 2), (3, 1), (4, 1), (4, 2)]);
    assert_eq!(cmds.len(), 1);
    // No cell was left behind: the head took the one that the tail gave up.
    assert_eq!(
        keys_of(&cmds[0]),
        vec![
            std_key(StandardKey::E, 0, 0, 255),
            std_key(StandardKey::R, 0, 0, 216),
            std_key(StandardKey::F, 0, 0, 177),
            head(StandardKey::D),
            food(StandardKey::O),
        ]
    );
    assert_sound(&snake);
}

#[test]
fn snake_dies_on_its_own_body() {
    // Five cells long, the snake turns in on itself.
    let (mut snake, mut source) = started(&[4, 2, 5, 2, 9, 0]);
    tick(&mut snake, &mut source);
    tick(&mut snake, &mut source);
    assert_eq!(snake.body(), vec![(5, 2), (4, 2), (3, 2), (2, 2), (1, 2)]);
    assert_eq!(snake.food(), (9, 0));
    turn(&mut snake, &mut source, StandardKey::Up);
    tick(&mut snake, &mut source);
    turn(&mut snake, &mut source, StandardKey::Left);
    tick(&mut snake, &mut source);
    assert_eq!(snake.body(), vec![(4, 1), (5, 1), (5, 2), (4, 2), (3, 2)]);
    turn(&mut snake, &mut source, StandardKey::Down);
    let cmds = tick(&mut snake, &mut source);
    assert_eq!(snake.state(), State::Stop);
    assert_eq!(snake.body(), vec![(4, 1), (5, 1), (5, 2), (4, 2), (3, 2)]);
    assert_eq!(snake.last_direction(), Direction::Down);
    assert_eq!(cmds.len(), 3);
    assert_eq!(all_of(&cmds[0]), Color::new(255, 0, 0));
    assert_eq!(
        keys_of(&cmds[1]),
        vec![
            std_key(StandardKey::T, 0, 0, 255),
            std_key(StandardKey::G, 0, 0, 224),
            std_key(StandardKey::F, 0, 0, 193),
            std_key(StandardKey::D, 0, 0, 162),
            head(StandardKey::R),
            food(StandardKey::_9),
        ]
    );
    assert_eq!(
        keys_of(&cmds[2]),
        vec![std_key(StandardKey::NumReturn, 0, 0, 255), std_key(StandardKey::F, 255, 165, 0)]
    );
}

#[test]
fn snake_death_and_restart() {
    let (mut snake, mut source) = started(&[5, 0, 11, 3]);
    turn(&mut snake, &mut source, StandardKey::Left);
    tick(&mut snake, &mut source);
    assert_eq!(snake.state(), State::Stop);

    // Nothing but the restart key is taken now.
    for k in [StandardKey::Up, StandardKey::Down, StandardKey::Left, StandardKey::Right] {
        assert!(!snake.accept_key(&press(k)));
    }
    assert!(!snake.accept_key(&press(StandardKey::Return)));
    assert!(!snake.accept_key(&KeyEvent::KeyReleased(Key::Standard(StandardKey::NumReturn))));
    assert!(!snake.accept_key(&KeyEvent::KeyPressed(Key::Gaming(1))));
    assert!(snake.accept_key(&press(StandardKey::NumReturn)));

    // A tick changes nothing.
    let cmds = tick(&mut snake, &mut source);
    assert!(cmds.is_empty());
    assert_eq!(snake.state(), State::Stop);
    assert_eq!(snake.body(), vec![(3, 2), (2, 2), (1, 2)]);
    assert_eq!(snake.last_direction(), Direction::Left);

    // The restart key starts a new game.
    let cmds = snake.handle_key(&press(StandardKey::NumReturn), &mut source);
    assert_eq!(snake.state(), State::Running);
    assert_eq!(snake.body(), vec![(3, 2), (2, 2), (1, 2)]);
    assert_eq!(snake.food(), (11, 3));
    assert_eq!(snake.last_direction(), Direction::Right);
    assert!(snake.pending_directions().is_empty());
    assert_eq!(cmds.len(), 2);
    assert_eq!(all_of(&cmds[0]), Color::new(0, 0, 0));
    assert_eq!(
        keys_of(&cmds[1]),
        vec![
            std_key(StandardKey::S, 0, 0, 255),
            std_key(StandardKey::A, 0, 0, 203),
            head(StandardKey::D),
            food(StandardKey::Minus),
        ]
    );
    assert!(snake.accept_key(&press(StandardKey::Up)));
    assert!(!snake.accept_key(&press(StandardKey::NumReturn)));
}

#[test]
fn snake_accepts_arrow_presses_while_running() {
    let (snake, _) = started(&[5, 0]);
    for k in [StandardKey::Up, StandardKey::Down, StandardKey::Left, StandardKey::Right] {
        assert!(snake.accept_key(&press(k)));
        assert!(!snake.accept_key(&KeyEvent::KeyReleased(Key::Standard(k))));
    }
    assert!(!snake.accept_key(&press(StandardKey::NumReturn)));
    assert!(!snake.accept_key(&press(StandardKey::W)));
    assert!(!snake.accept_key(&press(StandardKey::Space)));
    assert!(!snake.accept_key(&KeyEvent::KeyPressed(Key::Logo(1))));
    assert_eq!(Snake::turn(&press(StandardKey::Up)), Some(Direction::Up));
    assert_eq!(Snake::turn(&press(StandardKey::Down)), Some(Direction::Down));
    assert_eq!(Snake::turn(&press(StandardKey::Left)), Some(Direction::Left));
    assert_eq!(Snake::turn(&press(StandardKey::Right)), Some(Direction::Right));
    assert_eq!(Snake::turn(&press(StandardKey::A)), None);
}

#[test]
fn snake_queue_keeps_the_two_newest_turns() {
    let (mut snake, mut source) = started(&[5, 0]);
    turn(&mut snake, &mut source, StandardKey::Up);
    assert_eq!(snake.pending_directions(), vec![Direction::Up]);
    turn(&mut snake, &mut source, StandardKey::Down);
    assert_eq!(snake.pending_directions(), vec![Direction::Up, Direction::Down]);
    turn(&mut snake, &mut source, StandardKey::Left);
    assert_eq!(snake.pending_directions(), vec![Direction::Down, Direction::Left]);
    turn(&mut snake, &mut source, StandardKey::Right);
    assert_eq!(snake.pending_directions(), vec![Direction::Left, Direction::Right]);
    // Nothing moved yet.
    assert_eq!(snake.body(), vec![(3, 2), (2, 2), (1, 2)]);
    assert_eq!(snake.last_direction(), Direction::Right);
}

#[test]
fn snake_takes_one_turn_per_tick_oldest_first() {
    let (mut snake, mut source) = started(&[5, 0]);
    turn(&mut snake, &mut source, StandardKey::Up);
    turn(&mut snake, &mut source, StandardKey::Right);
    tick(&mut snake, &mut source);
    assert_eq!(snake.last_direction(), Direction::Up);
    assert_eq!(snake.pending_directions(), vec![Direction::Right]);
    assert_eq!(snake.body(), vec![(3, 1), (3, 2), (2, 2)]);
    tick(&mut snake, &mut source);
    assert_eq!(snake.last_direction(), Direction::Right);
    assert!(snake.pending_directions().is_empty());
    assert_eq!(snake.body(), vec![(4, 1), (3, 1), (3, 2)]);
    // With no turn waiting the snake goes straight on.
    tick(&mut snake, &mut source);
    assert_eq!(snake.last_direction(), Direction::Right);
    assert_eq!(snake.body(), vec![(5, 1), (4, 1), (3, 1)]);
}

#[test]
fn snake_food_is_never_on_the_snake() {
    let arrows = [StandardKey::Up, StandardKey::Down, StandardKey::Left, StandardKey::Right];
    for seed in 0..40u64 {
        let mut rng = Lcg(seed);
        let mut source = Lcg(seed ^ 0x9e37_79b9);
        let mut snake = Snake::new();
        snake.init(&mut source);
        assert_sound(&snake);
        for _ in 0..600 {
            if snake.state() == State::Stop {
                assert!(snake.accept_key(&press(StandardKey::NumReturn)));
                snake.handle_key(&press(StandardKey::NumReturn), &mut source);
                assert_eq!(snake.body(), vec![(3, 2), (2, 2), (1, 2)]);
            } else {
                for _ in 0..rng.next() % 3 {
                    let k = arrows[(rng.next() % 4) as usize];
                    assert!(snake.accept_key(&press(k)));
                    snake.handle_key(&press(k), &mut source);
                }
                if !snake.can_tick() {
                    snake.init(&mut source);
                }
                let long: Vec<Cell> = snake.body();
                snake.handle_time(&mut source);
                assert!(snake.body().len() == long.len() || snake.body().len() == long.len() + 1);
            }
            assert_sound(&snake);
        }
    }
}

#[test]
fn snake_grows_through_a_long_game() {
    // The food is always put right in front of the head: the snake eats
    // with every step along the third row.
    let mut draws: Vec<u8> = Vec::new();
    for x in 4..13u8 {
        draws.push(x);
        draws.push(2);
    }
    draws.push(0);
    draws.push(0);
    let (mut snake, mut source) = started(&draws);
    for n in 0..9usize {
        assert_eq!(snake.body().len(), 3 + n);
        tick(&mut snake, &mut source);
        assert_sound(&snake);
    }
    assert_eq!(snake.body().len(), 12);
    assert_eq!(snake.body()[0], (12, 2));
    assert_eq!(snake.food(), (0, 0));
    // The blue fades from the neck to the tail.
    let colors = snake.to_key_colors();
    assert_eq!(colors.len(), 13);
    for i in 0..11usize {
        assert_eq!(colors[i].color.red, 0);
        assert_eq!(colors[i].color.green, 0);
        assert_eq!(colors[i].color.blue as usize, 100 + 155 * (12 - i) / 12);
        let by_floats = 100 + ((155.0 / 12.0) * ((12 - i) as f64)) as u8;
        assert!((colors[i].color.blue as i16 - by_floats as i16).abs() <= 1);
    }
}

#[test]
fn snake_plays_with_the_random_numbers_of_the_thread() {
    let mut source = ThreadSource::new();
    let mut snake = Snake::new();
    snake.init(&mut source);
    assert_sound(&snake);
    for _ in 0..200 {
        if snake.state() == State::Stop {
            snake.handle_key(&press(StandardKey::NumReturn), &mut source);
        } else if snake.can_tick() {
            snake.handle_time(&mut source);
        }
        assert_sound(&snake);
    }
}

#[test]
fn thread_source_hands_out_different_bytes() {
    let mut source = ThreadSource::new();
    let first = source.next_u8();
    let mut differs = false;
    for _ in 0..1000 {
        if source.next_u8() != first {
            differs = true;
        }
    }
    assert!(differs);
}

#[test]
fn snake_cannot_eat_the_last_free_cell() {
    // The way of the snake: along the third row to its end, down, back
    // along the fourth row, down into the first row, along it, down, and
    // back along the second row. Food lies on every cell of the way.
    let mut way: Vec<Cell> = Vec::new();
    for x in 4..13u8 {
        way.push((x, 2));
    }
    for x in (0..13u8).rev() {
        way.push((x, 3));
    }
    for x in 0..13u8 {
        way.push((x, 0));
    }
    for x in (0..13u8).rev() {
        way.push((x, 1));
    }
    assert_eq!(way.len(), 48);
    let mut draws: Vec<u8> = Vec::new();
    for c in way.iter() {
        draws.push(c.0);
        draws.push(c.1);
    }
    draws.push(0);
    draws.push(2);
    let (mut snake, mut source) = started(&draws);
    for (n, c) in way.iter().enumerate() {
        assert_eq!(snake.food(), *c);
        let at = snake.body()[0];
        let key = if c.1 != at.1 {
            StandardKey::Down
        } else if (at.0 + 1) % 13 == c.0 {
            StandardKey::Right
        } else {
            StandardKey::Left
        };
        turn(&mut snake, &mut source, key);
        tick(&mut snake, &mut source);
        assert_eq!(snake.state(), State::Running);
        assert_eq!(snake.body().len(), 4 + n);
        assert_eq!(snake.body()[0], *c);
        assert_sound(&snake);
    }
    // One cell is left, and the food lies on it.
    assert_eq!(snake.body().len(), 51);
    assert_eq!(snake.food(), (0, 2));
    assert_eq!(snake.first_free_cell(), Some((0, 2)));
    // Straight on the snake would run into itself: that step can be taken.
    assert!(snake.can_tick());
    // Down it would eat and fill the field: that step cannot.
    turn(&mut snake, &mut source, StandardKey::Down);
    assert!(!snake.can_tick());
}
