use rwt::menu::{is_back_command, is_simple_command, menu_choice, unit_selection, MenuChoice};
use rwt::observations::{ObservationAction, ObservationData, ObservationMenu};

#[test]
fn menu_letters() {
    assert!(matches!(menu_choice('F'), MenuChoice::Forecast));
    assert!(matches!(menu_choice('a'), MenuChoice::Alerts));
    assert!(matches!(menu_choice('l'), MenuChoice::Location));
    assert!(matches!(menu_choice('O'), MenuChoice::Observations));
    assert!(matches!(menu_choice('u'), MenuChoice::Units));
    assert!(matches!(menu_choice('Q'), MenuChoice::Quit));
    assert!(matches!(menu_choice('z'), MenuChoice::Nothing));
}

#[test]
fn back_and_simple_commands() {
    assert!(is_back_command("B"));
    assert!(is_back_command("b"));
    assert!(!is_back_command("bb"));
    assert!(is_simple_command("s"));
    assert!(!is_simple_command(""));
}

#[test]
fn units_selected() {
    assert_eq!(unit_selection("m", "us"), (String::from("si"), String::from("UNIT TYPE : Metric\n")));
    assert_eq!(
        unit_selection("Mi", "us"),
        (String::from("us"), String::from("UNIT TYPE : Metric\nUNIT TYPE : Imperial\n"))
    );
    assert_eq!(unit_selection("xm", "si"), (String::from("si"), String::new()));
    assert_eq!(unit_selection("", "si"), (String::from("si"), String::new()));
}

fn station(id: &str, name: &str) -> ObservationData {
    ObservationData { id: id.chars().collect(), name: name.chars().collect() }
}

#[test]
fn station_menu_steps() {
    let stations = vec![station("KNYC", "Central Park"), station("KLGA", "LaGuardia Airport")];
    let mut m = ObservationMenu::new();
    match m.step(&stations, "S") {
        ObservationAction::Show { station, listing } => {
            assert_eq!(station, None);
            assert_eq!(
                listing,
                "<ID: KNYC | Central Park > <ID: KLGA | LaGuardia Airport > \n"
            );
        }
        ObservationAction::Back => panic!("unexpected back"),
    }
    assert_eq!(m.count, 4 + 12 + 12 + 4 + 17 + 12);
    match m.step(&stations, " klga ") {
        ObservationAction::Show { station, listing } => {
            assert_eq!(station, Some(1));
            assert_eq!(listing, "\n");
        }
        ObservationAction::Back => panic!("unexpected back"),
    }
    assert!(m.station_found);
    // a station was shown: an unknown input lists nothing until `S`
    match m.step(&stations, "zzz") {
        ObservationAction::Show { station, listing } => {
            assert_eq!(station, None);
            assert_eq!(listing, "\n");
        }
        ObservationAction::Back => panic!("unexpected back"),
    }
    // the running line count passed the limit: the next listing starts a new line
    match m.step(&stations, "s") {
        ObservationAction::Show { station, listing } => {
            assert_eq!(station, None);
            assert_eq!(
                listing,
                "\n<ID: KNYC | Central Park > <ID: KLGA | LaGuardia Airport > \n"
            );
        }
        ObservationAction::Back => panic!("unexpected back"),
    }
    assert!(matches!(m.step(&stations, "B"), ObservationAction::Back));
}
