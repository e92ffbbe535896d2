use card_prompt::deck::{Action, Data, Selector};
use card_prompt::game::Intermediate;
use card_prompt::session::generate_random_string;
use card_prompt::text::{i32_to_string, u32_to_string};

#[test]
fn decimal_rendering_of_small_numbers() {
    assert_eq!(u32_to_string(0), "0");
    assert_eq!(u32_to_string(7), "7");
    assert_eq!(u32_to_string(10), "10");
    assert_eq!(u32_to_string(90210), "90210");
}

#[test]
fn decimal_rendering_of_signed_numbers() {
    assert_eq!(i32_to_string(0), "0");
    assert_eq!(i32_to_string(-1), "-1");
    assert_eq!(i32_to_string(-123), "-123");
    assert_eq!(i32_to_string(i32::MAX), "2147483647");
    assert_eq!(i32_to_string(i32::MIN), "-2147483648");
}

#[test]
fn data_get_ident_covers_each_variant() {
    assert_eq!(
        Data::String { string: "s".to_string() }.get_ident(),
        Some("s".to_string())
    );
    assert_eq!(
        Data::StateRefrence { ident: "st".to_string() }.get_ident(),
        Some("st".to_string())
    );
    assert_eq!(
        Data::TableRefrence { ident: "tb".to_string() }.get_ident(),
        Some("tb".to_string())
    );
    assert_eq!(
        Data::ActionRefrence { ident: "ac".to_string() }.get_ident(),
        Some("ac".to_string())
    );
    assert_eq!(Data::Integer { integer: 3 }.get_ident(), None);
    assert_eq!(Data::Combinator { buff: Vec::new() }.get_ident(), None);
}

#[test]
fn action_get_ident_covers_each_variant() {
    let upd = Action::UpdateState {
        ident: "u".to_string(),
        state: "s".to_string(),
        value: Data::Integer { integer: 1 },
        add: true,
        selector: Selector::NoPlayer,
    };
    assert_eq!(upd.get_ident(), "u");
    let opt = Action::Option {
        ident: "o".to_string(),
        display: "d".to_string(),
        actions: vec!["u".to_string()],
    };
    assert_eq!(opt.get_ident(), "o");
    let gt = Action::GetFromTable {
        ident: "g".to_string(),
        table: "t".to_string(),
        tags: Vec::new(),
    };
    assert_eq!(gt.get_ident(), "g");
    let gs = Action::GetFromState {
        ident: "h".to_string(),
        state: "s".to_string(),
        selector: Selector::Current,
    };
    assert_eq!(gs.get_ident(), "h");
}

#[test]
fn intermediate_to_string_only_for_values() {
    assert_eq!(
        Intermediate::Value("v".to_string()).to_string(),
        Some("v".to_string())
    );
    let act = Action::GetFromTable {
        ident: "g".to_string(),
        table: "t".to_string(),
        tags: Vec::new(),
    };
    assert_eq!(Intermediate::Action(act).to_string(), None);
}

#[test]
fn random_strings_have_length_and_charset() {
    for len in [0usize, 1, 6, 20] {
        let s = generate_random_string(len);
        assert_eq!(s.len(), len);
        assert!(s
            .chars()
            .all(|c| c.is_ascii_lowercase() || c.is_ascii_digit()));
    }
}
