use possu_web::calendar::{Day, Month, Year};
use possu_web::select_option::{decimal_text, SelectOption};

#[test]
fn associated_function_selected_returns_struct_with_selected_set_as_expected() {
    for expected in [true, false] {
        let test = SelectOption::default().selected(expected);
        assert_eq!(test.selected, expected);
    }
}

#[test]
fn associated_function_disabled_returns_struct_with_disabled_set_as_expected() {
    for expected in [true, false] {
        let test = SelectOption::default().disabled(expected);
        assert_eq!(test.disabled, expected);
    }
}

#[test]
fn constructor_from_exists_for_str_borrow() {
    let input: &str = "test";
    let expected = SelectOption {
        value: String::from(input),
        inner_html: String::from(input),
        ..Default::default()
    };
    let test = SelectOption::from_text(input);
    assert_eq!(test, expected);
}

#[test]
fn constructor_from_exists_for_string_borrow() {
    let input: String = String::from("test");
    let expected = SelectOption {
        value: input.to_owned(),
        inner_html: input.to_owned(),
        ..Default::default()
    };
    let test = SelectOption::from_text(&input);
    assert_eq!(test, expected);
}

#[test]
fn constructor_from_exists_for_year() {
    let input: Year = 1990;
    let expected = SelectOption {
        value: input.to_string(),
        inner_html: input.to_string(),
        ..Default::default()
    };
    let test = SelectOption::from_year(input);
    assert_eq!(test, expected);
}

#[test]
fn constructor_from_exists_for_month() {
    let input: Month = Month::November;
    let expected = SelectOption {
        value: String::from("11"),
        inner_html: String::from("November"),
        ..Default::default()
    };
    let test = SelectOption::from_month(input);
    assert_eq!(test, expected);
}

#[test]
fn constructor_from_exists_for_day() {
    let input: Day = 12;
    let expected = SelectOption {
        value: input.to_string(),
        inner_html: input.to_string(),
        ..Default::default()
    };
    let test = SelectOption::from_day(input);
    assert_eq!(test, expected);
}

#[test]
fn decimal_text_matches_std_formatting() {
    for n in [0i64, 7, 10, 99, 2024, -1, -45, -262143, i64::MAX, i64::MIN] {
        assert_eq!(decimal_text(n), n.to_string());
    }
}

#[test]
fn month_names_are_english() {
    let names = [
        "January",
        "February",
        "March",
        "April",
        "May",
        "June",
        "July",
        "August",
        "September",
        "October",
        "November",
        "December",
    ];
    for (i, name) in names.iter().enumerate() {
        let month = Month::from_u32(i as u32 + 1);
        assert_eq!(month.name(), *name);
        assert_eq!(month.number(), i as u32 + 1);
    }
}
