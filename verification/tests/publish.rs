use astro_relay::config::{listen_port, update_host};
use astro_relay::publish::{is_bare_filename, Outcome, UpdateHost, MAX_UPLOAD_BYTES};

fn host(token: Option<&str>) -> UpdateHost {
    update_host(None, token.map(|t| t.to_string()))
}

#[test]
fn the_token_opens_the_host() {
    let host = host(Some("opensesame"));
    assert!(host.authorized(Some(b"Bearer opensesame")));
    let verdict = host.publish_update("latest.json", Some(b"Bearer opensesame"));
    assert_eq!(verdict, Ok("updates/latest.json".to_string()));
}

#[test]
fn anything_else_does_not() {
    let host = host(Some("opensesame"));
    for header in vec![
        &b"opensesame"[..],
        b"bearer opensesame",
        b"Bearer opensesam",
        b"Bearer opensesame ",
        b"Bearer  opensesame",
        b"Bearer opensesame\xff",
        b"Bearer opensesame\n",
        b"",
    ] {
        assert!(!host.authorized(Some(header)));
        let verdict = host.publish_update("latest.json", Some(header));
        assert_eq!(verdict, Err(Outcome::Unauthorized));
    }
    assert_eq!(host.publish_update("latest.json", None), Err(Outcome::Unauthorized));
}

#[test]
fn without_a_token_nobody_can_publish() {
    let host = host(None);
    assert_eq!(host.publish_update("latest.json", Some(b"Bearer ")), Err(Outcome::Unauthorized));
    assert_eq!(host.publish_update("latest.json", None), Err(Outcome::Unauthorized));
}

#[test]
fn a_token_of_spaces_and_tabs_can_be_shown() {
    assert!(host(Some("a\tb c")).authorized(Some(b"Bearer a\tb c")));
}

#[test]
fn a_token_that_no_header_can_show_opens_nothing() {
    let host = host(Some("caf\u{e9}"));
    assert!(!host.authorized(Some("Bearer caf\u{e9}".as_bytes())));
    assert!(!host.authorized(Some(b"Bearer caf\xe9")));
}

#[test]
fn only_bare_filenames_are_taken() {
    let host = host(Some("t"));
    for name in vec!["../secret", "a/b", "a\\b", "..", "x..y", "/etc/passwd", "v1..json"] {
        assert!(!is_bare_filename(name));
        let verdict = host.publish_update(name, Some(b"Bearer t"));
        assert_eq!(verdict, Err(Outcome::InvalidFilename));
    }
    for name in vec!["latest.json", "astro_1.2.3_x64.msi.sig", ".hidden", "a.b.c", "", "caf\u{e9}"] {
        assert!(is_bare_filename(name));
        let path = format!("updates/{}", name);
        assert_eq!(host.publish_update(name, Some(b"Bearer t")), Ok(path));
    }
}

#[test]
fn a_file_lands_in_the_updates_directory() {
    for (dir, path) in vec![
        ("updates", "updates/a.msi"),
        ("updates/", "updates/a.msi"),
        ("/srv/releases", "/srv/releases/a.msi"),
        ("/", "/a.msi"),
        ("", "a.msi"),
        ("mises \u{e0} jour", "mises \u{e0} jour/a.msi"),
    ] {
        let host = update_host(Some(dir.to_string()), Some("t".to_string()));
        let verdict = host.publish_update("a.msi", Some(b"Bearer t"));
        assert_eq!(verdict, Ok(path.to_string()));
        let joined = std::path::PathBuf::from(dir).join("a.msi");
        assert_eq!(joined, std::path::PathBuf::from(path));
    }
}

#[test]
fn the_token_is_asked_for_before_the_name() {
    let verdict = host(Some("t")).publish_update("../secret", Some(b"Bearer wrong"));
    assert_eq!(verdict, Err(Outcome::Unauthorized));
}

#[test]
fn every_outcome_has_its_answer() {
    assert_eq!(Outcome::of_write(true), Outcome::Saved);
    assert_eq!(Outcome::of_write(false), Outcome::NotSaved);
    assert_eq!(Outcome::Unauthorized.status(), 401);
    assert_eq!(Outcome::Unauthorized.body(), "unauthorized");
    assert_eq!(Outcome::InvalidFilename.status(), 400);
    assert_eq!(Outcome::InvalidFilename.body(), "invalid filename");
    assert_eq!(Outcome::Saved.status(), 200);
    assert_eq!(Outcome::Saved.body(), "ok");
    assert_eq!(Outcome::NotSaved.status(), 500);
    assert_eq!(Outcome::NotSaved.body(), "failed to save file");
    assert_eq!(MAX_UPLOAD_BYTES, 209_715_200);
}

#[test]
fn the_port_comes_from_the_environment_or_is_the_default() {
    let port = |text: &str| listen_port(Some(text.to_string()));
    assert_eq!(listen_port(None), 7878);
    assert_eq!(port("10000"), 10000);
    assert_eq!(port("0"), 0);
    assert_eq!(port("65535"), 65535);
    assert_eq!(port("+80"), 80);
    assert_eq!(port("00080"), 80);
    assert_eq!(port("000000000000000000000000065535"), 65535);
    for text in vec!["", "+", "-1", "-0", "65536", "655350", "99999999999999999999", "80 ", " 80", "8_0", "http", "++80", "\u{664}"] {
        assert_eq!(port(text), 7878);
    }
}

#[test]
fn the_updates_directory_has_a_default() {
    let host = update_host(None, None);
    assert_eq!(host.updates_dir, "updates");
    assert_eq!(host.upload_token, None);
    let host = update_host(Some("/srv/releases".to_string()), Some("t".to_string()));
    assert_eq!(host.updates_dir, "/srv/releases");
    assert_eq!(host.upload_token, Some("t".to_string()));
}
