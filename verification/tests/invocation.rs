use payload_dumper::invocation::classify;
use payload_dumper::invocation::InputKind;
use payload_dumper::invocation::Invocation;
use payload_dumper::invocation::EXIT_NO_SUCH_FILE;
use payload_dumper::invocation::EXIT_SUCCESS;
use payload_dumper::invocation::EXIT_USAGE;

fn line(words: &[&str]) -> Vec<String> {
    words.iter().map(|w| w.to_string()).collect()
}

#[test]
fn exit_codes() {
    assert_eq!(EXIT_SUCCESS, 0);
    assert_eq!(EXIT_USAGE, 1);
    assert_eq!(EXIT_NO_SUCH_FILE, 2);
}

#[test]
fn no_argument_is_a_usage_error() {
    assert_eq!(Invocation::parse(&line(&["dumper"])).unwrap_err(), 1);
    assert_eq!(Invocation::parse(&line(&[])).unwrap_err(), 1);
}

#[test]
fn more_than_two_arguments_are_a_usage_error() {
    assert_eq!(Invocation::parse(&line(&["dumper", "-l", "a.zip", "b.zip"])).unwrap_err(), 1);
    assert_eq!(
        Invocation::parse(&line(&["dumper", "-l", "-l", "a.zip", "b.zip"])).unwrap_err(),
        1
    );
}

#[test]
fn one_argument_is_the_input() {
    let invocation = Invocation::parse(&line(&["dumper", "payload.bin"])).unwrap();
    assert!(!invocation.show_ops);
    assert_eq!(invocation.input, "payload.bin");
    assert_eq!(invocation.kind, InputKind::LocalPayload);
}

#[test]
fn flag_before_the_input_keeps_the_operations() {
    let invocation = Invocation::parse(&line(&["dumper", "-l", "ota.zip"])).unwrap();
    assert!(invocation.show_ops);
    assert_eq!(invocation.input, "ota.zip");
    assert_eq!(invocation.kind, InputKind::LocalZip);
}

#[test]
fn another_word_before_the_input_is_passed_over() {
    let invocation = Invocation::parse(&line(&["dumper", "-x", "ota.zip"])).unwrap();
    assert!(!invocation.show_ops);
    assert_eq!(invocation.input, "ota.zip");
    let invocation = Invocation::parse(&line(&["dumper", "-ll", "ota.zip"])).unwrap();
    assert!(!invocation.show_ops);
    let invocation = Invocation::parse(&line(&["dumper", "-L", "ota.zip"])).unwrap();
    assert!(!invocation.show_ops);
    let invocation = Invocation::parse(&line(&["dumper", "", "ota.zip"])).unwrap();
    assert!(!invocation.show_ops);
}

#[test]
fn lone_flag_is_also_the_input() {
    let invocation = Invocation::parse(&line(&["dumper", "-l"])).unwrap();
    assert!(invocation.show_ops);
    assert_eq!(invocation.input, "-l");
    assert_eq!(invocation.kind, InputKind::LocalPayload);
}

#[test]
fn urls_are_remote() {
    assert_eq!(classify("http://example.org/ota.zip"), InputKind::Remote);
    assert_eq!(classify("https://example.org/ota.zip"), InputKind::Remote);
    assert_eq!(classify("https://example.org/payload.bin"), InputKind::Remote);
    assert_eq!(classify("http://"), InputKind::Remote);
    assert_eq!(classify("https://"), InputKind::Remote);
}

#[test]
fn near_urls_are_local() {
    assert_eq!(classify("http:/example.org/ota.zip"), InputKind::LocalZip);
    assert_eq!(classify("HTTP://example.org/ota.zip"), InputKind::LocalZip);
    assert_eq!(classify("ftp://example.org/ota"), InputKind::LocalPayload);
    assert_eq!(classify("https:/"), InputKind::LocalPayload);
    assert_eq!(classify("http:/"), InputKind::LocalPayload);
    assert_eq!(classify("xhttp://example.org"), InputKind::LocalPayload);
}

#[test]
fn paths_ending_in_zip_are_containers() {
    assert_eq!(classify("ota.zip"), InputKind::LocalZip);
    assert_eq!(classify("/tmp/some dir/ota.zip"), InputKind::LocalZip);
    assert_eq!(classify(".zip"), InputKind::LocalZip);
    assert_eq!(classify("données.zip"), InputKind::LocalZip);
}

#[test]
fn other_paths_are_payloads() {
    assert_eq!(classify("payload.bin"), InputKind::LocalPayload);
    assert_eq!(classify("ota.ZIP"), InputKind::LocalPayload);
    assert_eq!(classify("ota.zip.part"), InputKind::LocalPayload);
    assert_eq!(classify("zip"), InputKind::LocalPayload);
    assert_eq!(classify(""), InputKind::LocalPayload);
    assert_eq!(classify("a"), InputKind::LocalPayload);
}
