use libreadymade::keyboard::{valid_component, xorg_config, Keyboard, KeyboardError};

#[test]
fn writes_layout_and_variant_in_localed_compatible_xorg_format() {
    assert_eq!(
        xorg_config("br", Some("nodeadkeys")),
        "Section \"InputClass\"\n\
         \tIdentifier \"system-keyboard\"\n\
         \tMatchIsKeyboard \"on\"\n\
         \tOption \"XkbLayout\" \"br\"\n\
         \tOption \"XkbVariant\" \"nodeadkeys\"\n\
         EndSection\n"
    );
}

#[test]
fn rejects_values_that_could_escape_the_xorg_configuration() {
    assert!(valid_component("intl"));
    assert!(valid_component("mac_nodeadkeys"));
    assert!(!valid_component("br\"\nEndSection"));
    assert!(!valid_component(""));
}

#[test]
fn missing_variant_is_written_empty() {
    assert_eq!(
        xorg_config("us", None),
        "Section \"InputClass\"\n\
         \tIdentifier \"system-keyboard\"\n\
         \tMatchIsKeyboard \"on\"\n\
         \tOption \"XkbLayout\" \"us\"\n\
         \tOption \"XkbVariant\" \"\"\n\
         EndSection\n"
    );
}

#[test]
fn component_characters_are_ascii_alphanumerics_underscore_and_dash() {
    assert!(valid_component("de-CH_2"));
    assert!(!valid_component("de ch"));
    assert!(!valid_component("a\\b"));
    assert!(!valid_component("dé"));
    assert!(!valid_component("a.b"));
}

#[test]
fn keyboard_configuration_is_written_for_valid_names() {
    let keyboard = Keyboard { layout: "br".to_string(), variant: Some("nodeadkeys".to_string()) };
    assert_eq!(keyboard.xorg_keyboard_conf().unwrap(), xorg_config("br", Some("nodeadkeys")));
    let no_variant = Keyboard { layout: "fr".to_string(), variant: None };
    assert_eq!(no_variant.xorg_keyboard_conf().unwrap(), xorg_config("fr", None));
}

#[test]
fn keyboard_configuration_refuses_an_invalid_layout_or_variant() {
    let bad_layout = Keyboard { layout: "br\"".to_string(), variant: None };
    assert_eq!(bad_layout.xorg_keyboard_conf().unwrap_err(), KeyboardError::InvalidLayoutOrVariant);
    let bad_variant = Keyboard { layout: "br".to_string(), variant: Some(String::new()) };
    assert_eq!(bad_variant.xorg_keyboard_conf().unwrap_err(), KeyboardError::InvalidLayoutOrVariant);
}
