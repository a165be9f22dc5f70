use libreadymade::containers_conf::{containers_conf, toml_escape};

#[test]
fn escapes_backslashes_and_quotes() {
    assert_eq!(toml_escape(r#"a\b"c"#), r#"a\\b\"c"#);
    assert_eq!(toml_escape("/mnt/target/var/tmp"), "/mnt/target/var/tmp");
    assert_eq!(toml_escape(""), "");
    assert_eq!(toml_escape(r#"\""#), r#"\\\""#);
}

#[test]
fn escaping_is_reversible() {
    let inputs = [r#"\"#, r#"\\"#, r#"""#, r#"\""#, "plain", "é\\ü\""];
    for a in inputs {
        for b in inputs {
            if a != b {
                assert_ne!(toml_escape(a), toml_escape(b));
            }
        }
    }
}

#[test]
fn stages_image_copies_in_the_given_directory() {
    assert_eq!(
        containers_conf("/run/readymade/var/tmp"),
        "[engine]\nimage_copy_tmp_dir = \"/run/readymade/var/tmp\"\n"
    );
    assert_eq!(
        containers_conf("/mnt/\"x\"/var/tmp"),
        "[engine]\nimage_copy_tmp_dir = \"/mnt/\\\"x\\\"/var/tmp\"\n"
    );
}
