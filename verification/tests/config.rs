use control_surface::config::{ButtonEntry, ConfigError, IndicatorEntry, ModeTable};
use control_surface::debounce::{Monitor, Phase};
use control_surface::dispatcher::Dispatcher;
use control_surface::event::Mode;

fn button(id: u8, mode: Mode) -> ButtonEntry {
    ButtonEntry { id, mode }
}

fn indicator(mode: Mode, button: Option<u8>) -> IndicatorEntry {
    IndicatorEntry { mode, button }
}

#[test]
fn paired_table_is_valid() {
    let table = ModeTable {
        buttons: vec![
            button(0, Mode::Momentary),
            button(1, Mode::Momentary),
            button(2, Mode::Scene { group: 0 }),
            button(3, Mode::Scene { group: 0 }),
        ],
        indicators: vec![
            indicator(Mode::Momentary, Some(0)),
            indicator(Mode::Momentary, Some(1)),
            indicator(Mode::Scene { group: 0 }, Some(2)),
            indicator(Mode::Scene { group: 0 }, Some(3)),
        ],
    };
    assert_eq!(table.validate(), Ok(()));
}

#[test]
fn empty_table_is_valid() {
    let table = ModeTable { buttons: vec![], indicators: vec![] };
    assert_eq!(table.validate(), Ok(()));
    assert_eq!(table.monitors(), Ok(vec![]));
    let d = Dispatcher::new(table).unwrap();
    assert_eq!(d.len(), 0);
}

#[test]
fn unbalanced_counts_are_accepted() {
    let table = ModeTable {
        buttons: vec![button(0, Mode::Momentary)],
        indicators: vec![
            indicator(Mode::Momentary, Some(0)),
            indicator(Mode::Scene { group: 4 }, None),
            indicator(Mode::Scene { group: 4 }, None),
            indicator(Mode::Momentary, Some(200)),
        ],
    };
    assert_eq!(table.validate(), Ok(()));
}

#[test]
fn repeated_button_id_is_refused() {
    let table = ModeTable {
        buttons: vec![
            button(1, Mode::Momentary),
            button(2, Mode::Momentary),
            button(3, Mode::Momentary),
            button(2, Mode::Momentary),
            button(1, Mode::Momentary),
        ],
        indicators: vec![],
    };
    assert_eq!(table.validate(), Err(ConfigError::DuplicateButton { id: 2 }));
}

#[test]
fn button_bound_twice_is_refused() {
    let table = ModeTable {
        buttons: vec![button(5, Mode::Momentary)],
        indicators: vec![
            indicator(Mode::Momentary, Some(5)),
            indicator(Mode::Momentary, None),
            indicator(Mode::Scene { group: 0 }, None),
            indicator(Mode::Scene { group: 0 }, Some(5)),
        ],
    };
    assert_eq!(table.validate(), Err(ConfigError::DuplicateBinding { button: 5 }));
    assert_eq!(
        Dispatcher::new(table).unwrap_err(),
        ConfigError::DuplicateBinding { button: 5 }
    );
}

#[test]
fn scene_group_without_indicator_is_refused() {
    let table = ModeTable {
        buttons: vec![button(0, Mode::Scene { group: 1 }), button(1, Mode::Scene { group: 2 })],
        indicators: vec![
            indicator(Mode::Scene { group: 1 }, Some(0)),
            indicator(Mode::Momentary, Some(1)),
        ],
    };
    assert_eq!(table.validate(), Err(ConfigError::EmptyGroup { group: 2 }));
}

#[test]
fn faults_are_reported_in_order() {
    let table = ModeTable {
        buttons: vec![
            button(0, Mode::Scene { group: 9 }),
            button(0, Mode::Momentary),
        ],
        indicators: vec![
            indicator(Mode::Momentary, Some(3)),
            indicator(Mode::Momentary, Some(3)),
        ],
    };
    assert_eq!(table.validate(), Err(ConfigError::DuplicateButton { id: 0 }));
    let table = ModeTable {
        buttons: vec![button(0, Mode::Scene { group: 9 })],
        indicators: vec![
            indicator(Mode::Momentary, Some(3)),
            indicator(Mode::Momentary, Some(3)),
        ],
    };
    assert_eq!(table.validate(), Err(ConfigError::DuplicateBinding { button: 3 }));
}

#[test]
fn unbound_indicators_are_no_duplicates() {
    let table = ModeTable {
        buttons: vec![],
        indicators: vec![
            indicator(Mode::Momentary, None),
            indicator(Mode::Momentary, None),
        ],
    };
    assert_eq!(table.validate(), Ok(()));
}

#[test]
fn monitors_follow_the_button_entries() {
    let table = ModeTable {
        buttons: vec![button(4, Mode::Momentary), button(6, Mode::Scene { group: 0 })],
        indicators: vec![indicator(Mode::Scene { group: 0 }, Some(6))],
    };
    let monitors = table.monitors().unwrap();
    assert_eq!(
        monitors,
        vec![
            Monitor { button: 4, mode: Mode::Momentary, phase: Phase::ArmedForPress },
            Monitor { button: 6, mode: Mode::Scene { group: 0 }, phase: Phase::ArmedForPress },
        ]
    );
}

#[test]
fn monitors_of_a_faulty_table_are_refused() {
    let table = ModeTable {
        buttons: vec![button(4, Mode::Momentary), button(4, Mode::Scene { group: 0 })],
        indicators: vec![indicator(Mode::Scene { group: 0 }, Some(4))],
    };
    assert_eq!(table.monitors(), Err(ConfigError::DuplicateButton { id: 4 }));
}
