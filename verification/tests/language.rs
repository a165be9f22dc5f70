use libreadymade::language::locale_conf;

#[test]
fn writes_a_utf8_locale_and_gettext_language() {
    assert_eq!(
        locale_conf("pt_BR"),
        "LANG=pt_BR.UTF-8\nLANGUAGE=pt_BR\nLC_MESSAGES=pt_BR.UTF-8\n"
    );
}

#[test]
fn does_not_duplicate_an_existing_utf8_suffix() {
    assert_eq!(
        locale_conf("en_US.UTF-8"),
        "LANG=en_US.UTF-8\nLANGUAGE=en_US\nLC_MESSAGES=en_US.UTF-8\n"
    );
}

#[test]
fn lower_case_utf8_suffix_is_normalised() {
    assert_eq!(
        locale_conf("de_DE.utf8"),
        "LANG=de_DE.UTF-8\nLANGUAGE=de_DE\nLC_MESSAGES=de_DE.UTF-8\n"
    );
}

#[test]
fn suffixed_and_bare_language_give_the_same_configuration() {
    assert_eq!(locale_conf("ja_JP"), locale_conf("ja_JP.UTF-8"));
    assert_eq!(locale_conf("ja_JP"), locale_conf("ja_JP.utf8"));
}

#[test]
fn only_one_suffix_is_removed() {
    assert_eq!(
        locale_conf("C.UTF-8.UTF-8"),
        "LANG=C.UTF-8.UTF-8\nLANGUAGE=C.UTF-8\nLC_MESSAGES=C.UTF-8.UTF-8\n"
    );
    assert_eq!(locale_conf(""), "LANG=.UTF-8\nLANGUAGE=\nLC_MESSAGES=.UTF-8\n");
}
