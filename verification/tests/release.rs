use llm_sidecar::release::{
    holder_in, holder_or_error, kill_args, lsof_args, port_holder, ReleaseError, KILL_PROGRAM,
    LISTING_PROGRAM, RELEASE_PAUSE_MILLIS,
};

#[test]
fn programs_and_pause() {
    assert_eq!(LISTING_PROGRAM, "lsof");
    assert_eq!(KILL_PROGRAM, "kill");
    assert_eq!(RELEASE_PAUSE_MILLIS, 500);
}

#[test]
fn the_listing_is_asked_for_one_port() {
    assert_eq!(lsof_args(1234), vec!["-i", ":1234", "-t"]);
    assert_eq!(lsof_args(80), vec!["-i", ":80", "-t"]);
}

#[test]
fn the_process_is_killed_by_force() {
    assert_eq!(kill_args("4711"), vec!["-9", "4711"]);
}

#[test]
fn the_holder_is_the_listing_without_white_space() {
    assert_eq!(port_holder(b"4711\n"), Some("4711".to_string()));
    assert_eq!(port_holder(b"  4711 \r\n\t"), Some("4711".to_string()));
    assert_eq!(port_holder(b"12\n34\n"), Some("12\n34".to_string()));
    assert_eq!(holder_in("\u{a0}\u{2003}77\u{3000}\u{85}"), Some("77".to_string()));
    assert_eq!(holder_in("7 7"), Some("7 7".to_string()));
    assert_eq!(holder_in("\u{200b}1"), Some("\u{200b}1".to_string()));
}

#[test]
fn an_empty_listing_names_nobody() {
    assert_eq!(port_holder(b""), None);
    assert_eq!(port_holder(b"\n"), None);
    assert_eq!(port_holder(b" \t\r\n "), None);
    assert_eq!(holder_in(""), None);
    assert_eq!(holder_in("\u{2028}\u{2029}\u{1680}\u{202f}\u{205f}"), None);
}

#[test]
fn a_listing_that_is_no_utf8_is_decoded_leniently() {
    assert_eq!(port_holder(&[b' ', 0xff, b'\n']), Some("\u{fffd}".to_string()));
}

#[test]
fn no_holder_is_an_error_that_names_the_port() {
    assert_eq!(holder_or_error(1234, b"99\n"), Ok("99".to_string()));
    let error = holder_or_error(1234, b"\n").unwrap_err();
    assert_eq!(error, ReleaseError::NoProcess(1234));
    assert_eq!(error.message(), "No process found using port 1234");
}

#[test]
fn release_error_messages() {
    assert_eq!(
        ReleaseError::ListingFailed("not installed".to_string()).message(),
        "Failed to execute lsof: not installed"
    );
    assert_eq!(
        ReleaseError::KillFailed("4711".to_string(), "denied".to_string()).message(),
        "Failed to kill process 4711: denied"
    );
}
