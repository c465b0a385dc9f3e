use keylights::heatmap::{Heatmap, HeatmapHandler};
use keylights::{Color, Command, Key, KeyColor, KeyEvent, MediaKey, StandardKey};

fn universe() -> Vec<Key> {
    vec![
        Key::Standard(StandardKey::A),
        Key::Standard(StandardKey::B),
        Key::Media(MediaKey::Mute),
        Key::Logo(1),
        Key::Standard(StandardKey::Esc),
        Key::Gaming(3),
        Key::Logo(2),
        Key::Media(MediaKey::PlayPause),
        Key::Standard(StandardKey::A),
    ]
}

fn counted() -> Vec<Key> {
    vec![
        Key::Standard(StandardKey::A),
        Key::Standard(StandardKey::B),
        Key::Standard(StandardKey::Esc),
        Key::Gaming(3),
    ]
}

fn press(h: &mut Heatmap, key: Key, times: u64) {
    for _ in 0..times {
        assert!(h.count(&key).is_some());
        h.increment(&key);
    }
}

fn keys_of(cmd: &Command) -> Vec<KeyColor> {
    match cmd {
        Command::SetKeys(v) => v.clone(),
        Command::SetAll(_) => panic!("a list of keys was expected"),
    }
}

const BLACK: Color = Color { red: 0, green: 0, blue: 0 };
const BLUE: Color = Color { red: 0, green: 0, blue: 255 };
const RED: Color = Color { red: 255, green: 0, blue: 0 };

#[test]
fn heatmap_counts_the_keys_with_a_light_of_their_own() {
    let h = Heatmap::new(&universe());
    for key in counted() {
        assert_eq!(h.count(&key), Some(0));
    }
    assert_eq!(h.count(&Key::Media(MediaKey::Mute)), None);
    assert_eq!(h.count(&Key::Media(MediaKey::PlayPause)), None);
    assert_eq!(h.count(&Key::Logo(1)), None);
    assert_eq!(h.count(&Key::Logo(2)), None);
    assert_eq!(h.count(&Key::Standard(StandardKey::C)), None);
    assert_eq!(h.index_of(&Key::Standard(StandardKey::A)), Some(0));
    assert_eq!(h.index_of(&Key::Gaming(3)), Some(3));
    assert_eq!(h.index_of(&Key::Logo(1)), None);
}

#[test]
fn heatmap_starts_all_black() {
    let h = Heatmap::new(&universe());
    let colors = h.colors();
    let expected: Vec<KeyColor> = counted().into_iter().map(|k| KeyColor::new(k, BLACK)).collect();
    assert_eq!(colors, expected);
    assert_eq!(h.max_count(), 0);
}

#[test]
fn heatmap_of_no_keys_has_no_counters() {
    let h = Heatmap::new(&Vec::new());
    assert_eq!(h.max_count(), 0);
    assert_eq!(h.count(&Key::Standard(StandardKey::A)), None);
    let only_media = Heatmap::new(&vec![Key::Media(MediaKey::Stop), Key::Logo(0)]);
    assert_eq!(only_media.index_of(&Key::Media(MediaKey::Stop)), None);
}

#[test]
fn heatmap_increment_adds_one_to_one_key() {
    let mut h = Heatmap::new(&universe());
    h.increment(&Key::Standard(StandardKey::B));
    assert_eq!(h.count(&Key::Standard(StandardKey::B)), Some(1));
    assert_eq!(h.count(&Key::Standard(StandardKey::A)), Some(0));
    assert_eq!(h.count(&Key::Standard(StandardKey::Esc)), Some(0));
    assert_eq!(h.count(&Key::Gaming(3)), Some(0));
    h.increment(&Key::Standard(StandardKey::B));
    h.increment(&Key::Gaming(3));
    assert_eq!(h.count(&Key::Standard(StandardKey::B)), Some(2));
    assert_eq!(h.count(&Key::Gaming(3)), Some(1));
    assert_eq!(h.max_count(), 2);
}

#[test]
fn heatmap_one_key_pressed_is_red_and_the_rest_black() {
    for times in [1u64, 2, 17, 1000] {
        let mut h = Heatmap::new(&universe());
        press(&mut h, Key::Standard(StandardKey::Esc), times);
        let colors = h.colors();
        assert_eq!(
            colors,
            vec![
                KeyColor::new(Key::Standard(StandardKey::A), BLACK),
                KeyColor::new(Key::Standard(StandardKey::B), BLACK),
                KeyColor::new(Key::Standard(StandardKey::Esc), RED),
                KeyColor::new(Key::Gaming(3), BLACK),
            ]
        );
    }
}

#[test]
fn heatmap_colors_are_measured_against_the_most_pressed_key() {
    let mut h = Heatmap::new(&universe());
    press(&mut h, Key::Standard(StandardKey::A), 3);
    press(&mut h, Key::Standard(StandardKey::B), 1);
    press(&mut h, Key::Standard(StandardKey::Esc), 2);
    assert_eq!(h.max_count(), 3);
    assert_eq!(
        h.colors(),
        vec![
            KeyColor::new(Key::Standard(StandardKey::A), RED),
            KeyColor::new(Key::Standard(StandardKey::B), Color::new(0, 170, 255)),
            KeyColor::new(Key::Standard(StandardKey::Esc), Color::new(85, 255, 0)),
            KeyColor::new(Key::Gaming(3), BLACK),
        ]
    );
    press(&mut h, Key::Gaming(3), 7);
    assert_eq!(
        h.colors(),
        vec![
            KeyColor::new(Key::Standard(StandardKey::A), Color::new(0, 255, 219)),
            KeyColor::new(Key::Standard(StandardKey::B), Color::new(0, 0, 182)),
            KeyColor::new(Key::Standard(StandardKey::Esc), Color::new(0, 109, 255)),
            KeyColor::new(Key::Gaming(3), RED),
        ]
    );
}

#[test]
fn heatmap_clear_puts_the_counts_back() {
    let mut h = Heatmap::new(&universe());
    press(&mut h, Key::Standard(StandardKey::A), 3);
    press(&mut h, Key::Gaming(3), 1);
    h.clear();
    for key in counted() {
        assert_eq!(h.count(&key), Some(0));
    }
}

#[test]
fn heatmap_handler_takes_presses_of_lit_keys_only() {
    let h = HeatmapHandler::new(&universe());
    assert!(h.accept_key(&KeyEvent::KeyPressed(Key::Standard(StandardKey::A))));
    assert!(h.accept_key(&KeyEvent::KeyPressed(Key::Gaming(3))));
    assert!(h.accept_key(&KeyEvent::KeyPressed(Key::Logo(1))));
    assert!(!h.accept_key(&KeyEvent::KeyPressed(Key::Media(MediaKey::Mute))));
    assert!(!h.accept_key(&KeyEvent::KeyPressed(Key::Media(MediaKey::VolumeUp))));
    assert!(!h.accept_key(&KeyEvent::KeyReleased(Key::Standard(StandardKey::A))));
    assert!(!h.accept_key(&KeyEvent::KeyReleased(Key::Media(MediaKey::Mute))));
}

#[test]
fn heatmap_handler_counts_only_what_has_a_counter() {
    let h = HeatmapHandler::new(&universe());
    assert!(h.can_count(&KeyEvent::KeyPressed(Key::Standard(StandardKey::A))));
    assert!(!h.can_count(&KeyEvent::KeyPressed(Key::Logo(1))));
    assert!(!h.can_count(&KeyEvent::KeyPressed(Key::Media(MediaKey::Mute))));
    assert!(!h.can_count(&KeyEvent::KeyPressed(Key::Standard(StandardKey::F12))));
    assert!(!h.can_count(&KeyEvent::KeyReleased(Key::Standard(StandardKey::A))));
}

#[test]
fn heatmap_media_key_changes_no_counter() {
    let mut h = HeatmapHandler::new(&universe());
    let a = KeyEvent::KeyPressed(Key::Standard(StandardKey::A));
    assert!(h.accept_key(&a));
    h.handle_key(&a);
    let before: Vec<Option<u64>> = counted().iter().map(|k| h.heatmap().count(k)).collect();
    for m in [
        MediaKey::NoKey,
        MediaKey::Forward,
        MediaKey::Backward,
        MediaKey::Stop,
        MediaKey::PlayPause,
        MediaKey::VolumeUp,
        MediaKey::VolumeDown,
        MediaKey::Mute,
    ] {
        let evt = KeyEvent::KeyPressed(Key::Media(m));
        if h.accept_key(&evt) {
            h.handle_key(&evt);
        }
    }
    let after: Vec<Option<u64>> = counted().iter().map(|k| h.heatmap().count(k)).collect();
    assert_eq!(before, after);
    assert_eq!(before, vec![Some(1), Some(0), Some(0), Some(0)]);
}

#[test]
fn heatmap_handler_shows_every_key_after_a_press() {
    let mut h = HeatmapHandler::new(&universe());
    let cmds = h.init();
    assert_eq!(cmds.len(), 1);
    assert!(matches!(cmds[0], Command::SetAll(c) if c == BLACK));
    let cmds = h.handle_key(&KeyEvent::KeyPressed(Key::Standard(StandardKey::B)));
    assert_eq!(cmds.len(), 1);
    assert_eq!(
        keys_of(&cmds[0]),
        vec![
            KeyColor::new(Key::Standard(StandardKey::A), BLACK),
            KeyColor::new(Key::Standard(StandardKey::B), RED),
            KeyColor::new(Key::Standard(StandardKey::Esc), BLACK),
            KeyColor::new(Key::Gaming(3), BLACK),
        ]
    );
    h.handle_key(&KeyEvent::KeyPressed(Key::Standard(StandardKey::B)));
    let cmds = h.handle_key(&KeyEvent::KeyPressed(Key::Standard(StandardKey::A)));
    assert_eq!(
        keys_of(&cmds[0]),
        vec![
            KeyColor::new(Key::Standard(StandardKey::A), Color::new(0, 255, 128)),
            KeyColor::new(Key::Standard(StandardKey::B), RED),
            KeyColor::new(Key::Standard(StandardKey::Esc), BLACK),
            KeyColor::new(Key::Gaming(3), BLACK),
        ]
    );
}

#[test]
fn heatmap_handler_init_starts_over() {
    let mut h = HeatmapHandler::new(&universe());
    h.handle_key(&KeyEvent::KeyPressed(Key::Standard(StandardKey::B)));
    h.init();
    assert_eq!(h.heatmap().count(&Key::Standard(StandardKey::B)), Some(0));
    assert_eq!(h.heatmap().max_count(), 0);
}

#[test]
fn heatmap_handler_blinks_the_logos() {
    let mut h = HeatmapHandler::new(&universe());
    assert!(!h.logos());
    let cmds = h.handle_time();
    assert_eq!(cmds.len(), 1);
    assert_eq!(
        keys_of(&cmds[0]),
        vec![KeyColor::new(Key::Logo(1), BLUE), KeyColor::new(Key::Logo(2), BLUE)]
    );
    assert!(h.logos());
    let cmds = h.handle_time();
    assert_eq!(
        keys_of(&cmds[0]),
        vec![KeyColor::new(Key::Logo(1), BLACK), KeyColor::new(Key::Logo(2), BLACK)]
    );
    assert!(!h.logos());
    let cmds = h.handle_time();
    assert_eq!(
        keys_of(&cmds[0]),
        vec![KeyColor::new(Key::Logo(1), BLUE), KeyColor::new(Key::Logo(2), BLUE)]
    );
    assert_eq!(h.heatmap().max_count(), 0);
}
