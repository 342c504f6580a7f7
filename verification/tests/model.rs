use crossterm::event::{Event, KeyCode, KeyEvent, KeyEventKind, KeyModifiers, MouseEvent};
use crossterm::event::{MouseButton, MouseEventKind};
use modtagger::messages::{translate, try_message, Message, MoveDirection};
use modtagger::form::FormSpec;
use modtagger::keys::Key;
use modtagger::model::{Mode, Model, Persistent};
use modtagger::mods::app_mod::Mod;
use modtagger::mods::game::{ModDependencies, ModMetaData};
use modtagger::mods::tag::Tag;
use modtagger::mods::OrderedVec;
use ratatui::style::Color;

const SWATCH: Color = Color::Rgb(16, 32, 48);

fn press(code: KeyCode) -> Event {
    Event::Key(KeyEvent::new(code, KeyModifiers::NONE))
}

fn key(c: char) -> Event {
    press(KeyCode::Char(c))
}

fn ctrl(c: char) -> Event {
    Event::Key(KeyEvent::new(KeyCode::Char(c), KeyModifiers::CONTROL))
}

fn game_mod(id: &str) -> Mod {
    Mod::new(ModMetaData {
        name: id.to_uppercase(),
        supported_versions: vec![],
        mod_dependencies_by_version: ModDependencies::default(),
        load_after: vec![],
        description: String::new(),
        package_id: id.to_string(),
    })
}

fn tag(name: &str, score: u64) -> Tag {
    Tag { name: name.to_string(), score, color: Color::White }
}

fn catalogue(mods: &[&str], tags: &[(&str, u64)]) -> Persistent {
    let mods: Vec<Mod> = mods.iter().map(|id| game_mod(id)).collect();
    let tags: Vec<Tag> = tags.iter().map(|(name, score)| tag(name, *score)).collect();
    Persistent { mods: mods.into(), tags: tags.into() }
}

fn five_mods() -> Model {
    Model::new(catalogue(&["a", "b", "c", "d", "e"], &[("Core", 0), ("Quality", 5)]), SWATCH)
}

/// Hands one event to the model and does all that follows from it.
fn feed(model: &mut Model, ev: Event) -> usize {
    let mut steps = 0;
    let mut msg = try_message(model, ev);
    while let Some(m) = msg {
        msg = model.update(m, SWATCH);
        steps += 1;
        assert!(steps <= 3, "a chain of messages ends");
    }
    steps
}

fn feed_text(model: &mut Model, text: &str) {
    for c in text.chars() {
        feed(model, key(c));
    }
}

fn mod_ids(model: &Model) -> Vec<String> {
    model.mods().iter().map(|m| m.metadata.package_id.clone()).collect()
}

fn tag_names(tags: &OrderedVec<Tag>) -> Vec<String> {
    tags.iter().map(|t| t.name.clone()).collect()
}

fn assert_cursors_in_range(model: &Model) {
    if let Some(i) = model.item_cursor() {
        assert!(i < model.mods().len());
    }
    if let Some(i) = model.tag_cursor() {
        assert!(i < model.tags().len());
    }
}

#[test]
fn new_session_selects_the_first_of_each_list() {
    let model = five_mods();
    assert_eq!(model.mode(), Mode::Normal);
    assert_eq!(model.item_cursor(), Some(0));
    assert_eq!(model.tag_cursor(), Some(0));
    assert_eq!(model.movement_delta(), "");
    assert!(!model.should_close());
    assert_eq!(model.form().index(), 0);
    assert_eq!(model.form().value(), "");
    assert_eq!(model.form().selected_color(), SWATCH);
    assert_eq!(mod_ids(&model), vec!["a", "b", "c", "d", "e"]);
    assert_eq!(tag_names(model.tags()), vec!["Core", "Quality"]);
}

#[test]
fn new_session_on_empty_lists_selects_nothing() {
    let model = Model::new(Persistent::default(), SWATCH);
    assert_eq!(model.item_cursor(), None);
    assert_eq!(model.tag_cursor(), None);
    let only_mods = Model::new(catalogue(&["a"], &[]), SWATCH);
    assert_eq!(only_mods.item_cursor(), Some(0));
    assert_eq!(only_mods.tag_cursor(), None);
}

#[test]
fn new_session_sorts_nothing_by_itself_but_from_does() {
    let model = Model::new(catalogue(&["c", "a", "b"], &[("z", 1), ("y", 0)]), SWATCH);
    assert_eq!(mod_ids(&model), vec!["a", "b", "c"]);
    assert_eq!(tag_names(model.tags()), vec!["y", "z"]);
}

#[test]
fn scenario_three_then_down_moves_three_and_clears_the_count() {
    let mut model = five_mods();
    assert_eq!(feed(&mut model, key('3')), 1);
    assert_eq!(model.movement_delta(), "3");
    assert_eq!(model.item_cursor(), Some(0));
    assert_eq!(feed(&mut model, key('j')), 2);
    assert_eq!(model.item_cursor(), Some(3));
    assert_eq!(model.movement_delta(), "");
    feed(&mut model, press(KeyCode::Up));
    assert_eq!(model.item_cursor(), Some(2));
    feed(&mut model, press(KeyCode::Down));
    assert_eq!(model.item_cursor(), Some(3));
}

#[test]
fn movement_stops_at_the_first_and_the_last_item() {
    let mut model = five_mods();
    feed(&mut model, key('k'));
    assert_eq!(model.item_cursor(), Some(0));
    feed_text(&mut model, "99l");
    assert_eq!(model.item_cursor(), Some(4));
    feed(&mut model, press(KeyCode::Right));
    assert_eq!(model.item_cursor(), Some(4));
    feed_text(&mut model, "2h");
    assert_eq!(model.item_cursor(), Some(2));
    feed_text(&mut model, "7");
    feed(&mut model, press(KeyCode::Left));
    assert_eq!(model.item_cursor(), Some(0));
    feed_text(&mut model, "18446744073709551615j");
    assert_eq!(model.item_cursor(), Some(4));
}

#[test]
fn movement_by_a_count_that_is_no_number_takes_one_step() {
    let mut model = five_mods();
    assert!(model.update(Message::AppendMovement('x'), SWATCH).is_none());
    assert_eq!(model.movement_delta(), "x");
    let follow = model.update(Message::MoveDirection(MoveDirection::Down), SWATCH);
    assert!(matches!(follow, Some(Message::ClearCommand)));
    assert_eq!(model.item_cursor(), Some(1));
    assert_eq!(model.movement_delta(), "x");
    assert!(model.update(Message::ClearCommand, SWATCH).is_none());
    assert_eq!(model.movement_delta(), "");
    feed_text(&mut model, "99999999999999999999999j");
    assert_eq!(model.item_cursor(), Some(2));
    feed_text(&mut model, "0j");
    assert_eq!(model.item_cursor(), Some(2));
}

#[test]
fn movement_of_an_unset_selection_does_nothing() {
    let mut model = Model::new(Persistent::default(), SWATCH);
    feed_text(&mut model, "3j");
    assert_eq!(model.item_cursor(), None);
    assert_eq!(model.movement_delta(), "");
    feed(&mut model, key('i'));
    feed(&mut model, key('j'));
    assert_eq!(model.tag_cursor(), None);
}

#[test]
fn movement_in_other_modes_moves_nothing() {
    let mut model = five_mods();
    feed(&mut model, key('t'));
    assert_eq!(model.mode(), Mode::ShowTags);
    let follow = model.update(Message::MoveDirection(MoveDirection::Down), SWATCH);
    assert!(matches!(follow, Some(Message::ClearCommand)));
    assert_eq!(model.item_cursor(), Some(0));
    assert_eq!(model.tag_cursor(), Some(0));
}

#[test]
fn escape_in_normal_mode_clears_the_count() {
    let mut model = five_mods();
    feed_text(&mut model, "12");
    assert_eq!(model.movement_delta(), "12");
    feed(&mut model, press(KeyCode::Esc));
    assert_eq!(model.movement_delta(), "");
    assert_eq!(model.mode(), Mode::Normal);
}

#[test]
fn keys_without_a_meaning_do_nothing() {
    let mut model = five_mods();
    assert_eq!(feed(&mut model, key('?')), 0);
    assert_eq!(feed(&mut model, key('x')), 0);
    assert_eq!(feed(&mut model, press(KeyCode::Enter)), 0);
    assert_eq!(feed(&mut model, press(KeyCode::F(1))), 0);
    assert_eq!(model.mode(), Mode::Normal);
    assert_eq!(model.item_cursor(), Some(0));
    assert!(!model.should_close());
}

#[test]
fn events_that_are_no_press_ask_for_nothing() {
    let model = five_mods();
    let release =
        Event::Key(KeyEvent::new_with_kind(KeyCode::Char('q'), KeyModifiers::NONE, KeyEventKind::Release));
    let repeat =
        Event::Key(KeyEvent::new_with_kind(KeyCode::Char('j'), KeyModifiers::NONE, KeyEventKind::Repeat));
    let mouse = Event::Mouse(MouseEvent {
        kind: MouseEventKind::Down(MouseButton::Left),
        column: 1,
        row: 1,
        modifiers: KeyModifiers::NONE,
    });
    assert!(try_message(&model, release).is_none());
    assert!(try_message(&model, repeat).is_none());
    assert!(try_message(&model, mouse).is_none());
    assert!(try_message(&model, Event::Resize(80, 24)).is_none());
    assert!(try_message(&model, Event::FocusLost).is_none());
}

#[test]
fn quit_ends_the_session() {
    let mut model = five_mods();
    assert_eq!(feed(&mut model, key('q')), 1);
    assert!(model.should_close());
}

#[test]
fn normal_mode_keys() {
    let model = five_mods();
    assert!(matches!(try_message(&model, press(KeyCode::Esc)), Some(Message::ClearCommand)));
    assert!(matches!(try_message(&model, key('0')), Some(Message::AppendMovement('0'))));
    assert!(matches!(try_message(&model, key('9')), Some(Message::AppendMovement('9'))));
    assert!(matches!(try_message(&model, key('q')), Some(Message::Exit)));
    assert!(matches!(try_message(&model, key('T')), Some(Message::ChangeMode(Mode::CreateTag))));
    assert!(matches!(try_message(&model, key('t')), Some(Message::ChangeMode(Mode::ShowTags))));
    assert!(matches!(try_message(&model, key('i')), Some(Message::ChangeMode(Mode::Insert))));
    for (ev, direction) in [
        (key('k'), MoveDirection::Up),
        (press(KeyCode::Up), MoveDirection::Up),
        (key('j'), MoveDirection::Down),
        (press(KeyCode::Down), MoveDirection::Down),
        (key('h'), MoveDirection::Left),
        (press(KeyCode::Left), MoveDirection::Left),
        (key('l'), MoveDirection::Right),
        (press(KeyCode::Right), MoveDirection::Right),
    ] {
        match try_message(&model, ev) {
            Some(Message::MoveDirection(d)) => assert_eq!(d, direction),
            other => panic!("a movement, not {:?}", other),
        }
    }
    assert!(try_message(&model, press(KeyCode::Tab)).is_none());
    assert!(try_message(&model, press(KeyCode::Insert)).is_none());
    assert!(try_message(&model, key('٣')).is_none());
}

#[test]
fn translate_takes_the_key_as_given() {
    let ev = || Event::FocusGained;
    assert!(matches!(
        translate(Mode::Normal, Some(Key::Char('3')), ev()),
        Some(Message::AppendMovement('3'))
    ));
    assert!(translate(Mode::Normal, None, ev()).is_none());
    assert!(translate(Mode::Normal, Some(Key::Other), ev()).is_none());
    assert!(matches!(
        translate(Mode::CreateTag, Some(Key::Other), ev()),
        Some(Message::PropagateEvent(Event::FocusGained))
    ));
    assert!(matches!(translate(Mode::CreateTag, Some(Key::Tab), ev()), Some(Message::NextField)));
    assert!(matches!(translate(Mode::Insert, Some(Key::Enter), ev()), Some(Message::InsertTag)));
    assert!(translate(Mode::ShowTags, Some(Key::Enter), ev()).is_none());
}

#[test]
fn show_tags_mode_only_leaves_on_escape() {
    let mut model = five_mods();
    feed_text(&mut model, "4");
    assert_eq!(feed(&mut model, key('t')), 2);
    assert_eq!(model.mode(), Mode::ShowTags);
    assert_eq!(model.movement_delta(), "");
    for ev in [key('j'), key('q'), key('3'), press(KeyCode::Enter), key('i'), key('T')] {
        assert_eq!(feed(&mut model, ev), 0);
    }
    assert_eq!(model.mode(), Mode::ShowTags);
    assert_eq!(model.item_cursor(), Some(0));
    assert!(!model.should_close());
    feed(&mut model, press(KeyCode::Esc));
    assert_eq!(model.mode(), Mode::Normal);
}

#[test]
fn create_tag_mode_keys() {
    let mut model = five_mods();
    feed(&mut model, key('T'));
    assert_eq!(model.mode(), Mode::CreateTag);
    assert!(matches!(try_message(&model, press(KeyCode::Enter)), Some(Message::NextField)));
    assert!(matches!(try_message(&model, press(KeyCode::Tab)), Some(Message::NextField)));
    assert!(matches!(try_message(&model, press(KeyCode::Insert)), Some(Message::NextField)));
    assert!(matches!(
        try_message(&model, press(KeyCode::Esc)),
        Some(Message::ChangeMode(Mode::Normal))
    ));
    assert!(matches!(try_message(&model, key('q')), Some(Message::PropagateEvent(_))));
    assert!(matches!(try_message(&model, key('3')), Some(Message::PropagateEvent(_))));
    assert!(matches!(try_message(&model, press(KeyCode::Up)), Some(Message::PropagateEvent(_))));
    assert!(matches!(try_message(&model, press(KeyCode::F(5))), Some(Message::PropagateEvent(_))));
}

#[test]
fn scenario_create_tag_alpha_ten_red() {
    let mut model = five_mods();
    feed(&mut model, key('T'));
    assert_eq!(model.mode(), Mode::CreateTag);
    feed_text(&mut model, "Alpha");
    feed(&mut model, press(KeyCode::Enter));
    assert_eq!(model.form().index(), 1);
    feed_text(&mut model, "10");
    feed(&mut model, press(KeyCode::Enter));
    assert_eq!(model.form().index(), 2);
    assert_eq!(model.form().value(), "#102030");
    feed(&mut model, ctrl('u'));
    assert_eq!(model.form().value(), "");
    feed_text(&mut model, "#ff0000");
    assert_eq!(model.mode(), Mode::CreateTag);
    assert_eq!(feed(&mut model, press(KeyCode::Enter)), 3);
    assert_eq!(model.mode(), Mode::Normal);
    assert_eq!(tag_names(model.tags()), vec!["Core", "Quality", "Alpha"]);
    let made = model.tags().get_by_name("Alpha").unwrap();
    assert_eq!(made.score, 10);
    assert_eq!(made.color, Color::Rgb(255, 0, 0));
    assert_eq!(model.tag_cursor(), Some(0));
}

#[test]
fn create_tag_with_the_swatch_as_its_colour() {
    let mut model = Model::new(catalogue(&["a"], &[]), SWATCH);
    feed(&mut model, key('T'));
    feed_text(&mut model, "Mid");
    feed(&mut model, press(KeyCode::Tab));
    feed_text(&mut model, "3");
    feed(&mut model, press(KeyCode::Tab));
    feed(&mut model, press(KeyCode::Tab));
    assert_eq!(model.mode(), Mode::Normal);
    let made = model.tags().get_by_name("Mid").unwrap();
    assert_eq!(made.score, 3);
    assert_eq!(made.color, SWATCH);
    assert_eq!(model.tag_cursor(), None);
}

#[test]
fn create_tag_of_a_known_name_patches_the_tag() {
    let mut model = five_mods();
    feed(&mut model, key('T'));
    feed_text(&mut model, "Core");
    feed(&mut model, press(KeyCode::Enter));
    feed_text(&mut model, "3");
    feed(&mut model, press(KeyCode::Enter));
    feed(&mut model, ctrl('u'));
    feed_text(&mut model, "red");
    feed(&mut model, press(KeyCode::Enter));
    assert_eq!(model.mode(), Mode::Normal);
    assert_eq!(tag_names(model.tags()), vec!["Core", "Quality"]);
    let patched = model.tags().get_by_name("Core").unwrap();
    assert_eq!(patched.score, 3);
    assert_eq!(patched.color, Color::Red);
}

#[test]
fn invalid_fields_keep_the_form_where_it_is() {
    let mut model = five_mods();
    feed(&mut model, key('T'));
    assert_eq!(feed(&mut model, press(KeyCode::Enter)), 1);
    assert_eq!(model.form().index(), 0);
    assert_eq!(model.mode(), Mode::CreateTag);
    feed_text(&mut model, "Alpha");
    feed(&mut model, press(KeyCode::Enter));
    feed_text(&mut model, "x");
    feed(&mut model, press(KeyCode::Enter));
    assert_eq!(model.form().index(), 1);
    assert_eq!(model.form().value(), "x");
    assert_eq!(tag_names(model.tags()), vec!["Core", "Quality"]);
}

#[test]
fn escape_discards_the_form_and_entering_again_starts_anew() {
    let mut model = five_mods();
    feed(&mut model, key('T'));
    feed_text(&mut model, "Alpha");
    feed(&mut model, press(KeyCode::Enter));
    feed_text(&mut model, "1");
    assert_eq!(feed(&mut model, press(KeyCode::Esc)), 2);
    assert_eq!(model.mode(), Mode::Normal);
    assert_eq!(tag_names(model.tags()), vec!["Core", "Quality"]);
    let red = Color::Rgb(200, 0, 0);
    let follow = model.update(Message::ChangeMode(Mode::CreateTag), red);
    assert!(matches!(follow, Some(Message::ClearCommand)));
    assert_eq!(model.mode(), Mode::CreateTag);
    assert_eq!(model.form().index(), 0);
    assert_eq!(model.form().value(), "");
    assert_eq!(model.form().selected_color(), red);
    assert_eq!(model.form().fields().read_key(0), None);
    assert_eq!(model.form().fields().read_key(1), None);
}

#[test]
fn propagated_events_reach_the_form() {
    let mut model = five_mods();
    feed(&mut model, key('T'));
    assert!(model.update(Message::PropagateEvent(key('A')), SWATCH).is_none());
    assert_eq!(model.form().value(), "A");
    let follow = model.update(Message::PropagateEvent(press(KeyCode::Enter)), SWATCH);
    assert!(follow.is_none());
    assert_eq!(model.form().index(), 1);
    assert!(model.update(Message::PropagateEvent(key('2')), SWATCH).is_none());
    assert!(model.update(Message::NextField, SWATCH).is_none());
    assert_eq!(model.form().index(), 2);
    let follow = model.update(Message::PropagateEvent(press(KeyCode::Enter)), SWATCH);
    assert!(matches!(follow, Some(Message::ChangeMode(Mode::Normal))));
    assert_eq!(tag_names(model.tags()), vec!["Core", "A", "Quality"]);
    assert_eq!(model.mode(), Mode::CreateTag);
    let follow = model.update(Message::ChangeMode(Mode::Normal), SWATCH);
    assert!(matches!(follow, Some(Message::ClearCommand)));
    assert_eq!(model.mode(), Mode::Normal);
}

#[test]
fn insert_mode_keys() {
    let mut model = five_mods();
    feed(&mut model, key('i'));
    assert_eq!(model.mode(), Mode::Insert);
    assert!(matches!(try_message(&model, press(KeyCode::Enter)), Some(Message::InsertTag)));
    assert!(matches!(try_message(&model, key('5')), Some(Message::AppendMovement('5'))));
    assert!(matches!(
        try_message(&model, key('j')),
        Some(Message::MoveDirection(MoveDirection::Down))
    ));
    assert!(matches!(
        try_message(&model, press(KeyCode::Left)),
        Some(Message::MoveDirection(MoveDirection::Left))
    ));
    assert!(matches!(try_message(&model, key('q')), Some(Message::ChangeMode(Mode::Normal))));
    assert!(matches!(
        try_message(&model, press(KeyCode::Esc)),
        Some(Message::ChangeMode(Mode::Normal))
    ));
    assert!(try_message(&model, key('t')).is_none());
    assert!(try_message(&model, press(KeyCode::Tab)).is_none());
    feed(&mut model, key('q'));
    assert_eq!(model.mode(), Mode::Normal);
    assert!(!model.should_close());
}

#[test]
fn insert_mode_moves_the_tag_selection() {
    let mut model = Model::new(
        catalogue(&["a", "b"], &[("t0", 0), ("t1", 1), ("t2", 2), ("t3", 3)]),
        SWATCH,
    );
    feed(&mut model, key('i'));
    feed_text(&mut model, "2j");
    assert_eq!(model.tag_cursor(), Some(2));
    assert_eq!(model.item_cursor(), Some(0));
    feed_text(&mut model, "5j");
    assert_eq!(model.tag_cursor(), Some(3));
    feed(&mut model, key('k'));
    assert_eq!(model.tag_cursor(), Some(2));
    feed_text(&mut model, "9h");
    assert_eq!(model.tag_cursor(), Some(0));
}

#[test]
fn insert_attaches_the_selected_tag_and_sorts_the_mods() {
    let mut model = five_mods();
    feed_text(&mut model, "2j");
    assert_eq!(model.item_cursor(), Some(2));
    feed(&mut model, key('i'));
    feed(&mut model, key('j'));
    assert_eq!(model.tag_cursor(), Some(1));
    assert_eq!(feed(&mut model, press(KeyCode::Enter)), 3);
    assert_eq!(model.mode(), Mode::Normal);
    assert_eq!(model.tag_cursor(), Some(0));
    assert_eq!(model.item_cursor(), Some(2));
    assert_eq!(mod_ids(&model), vec!["c", "a", "b", "d", "e"]);
    assert_eq!(tag_names(model.mods().get(0).unwrap().tags()), vec!["Quality"]);
    feed(&mut model, key('i'));
    feed(&mut model, press(KeyCode::Enter));
    assert_eq!(mod_ids(&model), vec!["b", "c", "a", "d", "e"]);
    assert_eq!(tag_names(model.mods().get(0).unwrap().tags()), vec!["Core"]);
    assert_eq!(tag_names(model.tags()), vec!["Core", "Quality"]);
}

#[test]
fn changing_the_mode_clears_the_count() {
    let mut model = five_mods();
    feed_text(&mut model, "42");
    feed(&mut model, key('i'));
    assert_eq!(model.movement_delta(), "");
    feed_text(&mut model, "7");
    feed(&mut model, press(KeyCode::Esc));
    assert_eq!(model.movement_delta(), "");
    assert_eq!(model.mode(), Mode::Normal);
}

#[test]
fn selections_stay_in_range_whatever_is_typed() {
    let mut model = Model::new(catalogue(&["a", "b", "c"], &[("Core", 0)]), SWATCH);
    let keys = "3jT9kiT jjX\n5\t#\nqi2j\njk99ltq7hi\nT\n\n\nlq";
    let mut state: u32 = 12345;
    for round in 0..400 {
        state = state.wrapping_mul(1664525).wrapping_add(1013904223);
        let pick = (state >> 16) as usize % (keys.len() + 4);
        let ev = match keys.chars().nth(pick) {
            Some('\n') => press(KeyCode::Enter),
            Some('\t') => press(KeyCode::Tab),
            Some('q') if round % 3 != 0 => press(KeyCode::Esc),
            Some(c) => key(c),
            None => press([KeyCode::Up, KeyCode::Down, KeyCode::Esc, KeyCode::Backspace][pick - keys.len()]),
        };
        let unset = model.item_cursor().is_none() || model.tag_cursor().is_none();
        if unset && matches!(try_message(&model, ev.clone()), Some(Message::InsertTag)) {
            continue;
        }
        feed(&mut model, ev);
        assert_cursors_in_range(&model);
        assert_eq!(model.mods().len(), 3);
    }
}

#[test]
fn result_hands_the_catalogue_back() {
    let mut model = five_mods();
    feed(&mut model, key('i'));
    feed(&mut model, press(KeyCode::Enter));
    let kept = model.result();
    assert_eq!(kept.mods.len(), 5);
    assert_eq!(kept.tags.len(), 2);
    assert_eq!(kept.mods.get(0).unwrap().tags().len(), 1);
    let empty = Persistent::default();
    assert!(empty.mods.is_empty());
    assert!(empty.tags.is_empty());
}

#[test]
fn mode_names() {
    assert_eq!(Mode::Normal.str_repr(), " NORMAL ");
    assert_eq!(Mode::CreateTag.str_repr(), " CREATE TAG ");
    assert_eq!(Mode::ShowTags.str_repr(), " LISTING TAG ");
    assert_eq!(Mode::Insert.str_repr(), " INSERT ");
}
