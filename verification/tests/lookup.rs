use bin::lookup::{FOUND, NOT_FOUND};
use bin::{bin_path, Error, Lookup};

/// A lookup that ended with `FOUND` where `found` is set, else with
/// `NOT_FOUND`.
fn exited(found: bool, output: &[u8]) -> Lookup {
    let code = if found { FOUND } else { NOT_FOUND };
    Lookup::Exited { code: Some(code), output: output.to_vec() }
}

fn ended(code: Option<i32>, output: &[u8]) -> Lookup {
    Lookup::Exited { code, output: output.to_vec() }
}

fn failed() -> Result<Option<Vec<u8>>, Error> {
    Err(Error::PathResolutionFailed(b"tool".to_vec()))
}

#[test]
fn found_path_is_the_output_without_its_line_feed() {
    let result = bin_path(&b"which".to_vec(), &exited(true, b"/usr/bin/which\n"));
    assert_eq!(result, Ok(Some(b"/usr/bin/which".to_vec())));
}

#[test]
fn last_byte_goes_whatever_it_is() {
    let result = bin_path(&b"tool".to_vec(), &exited(true, b"/opt/tool"));
    assert_eq!(result, Ok(Some(b"/opt/too".to_vec())));
}

#[test]
fn lone_line_feed_gives_an_empty_path() {
    let result = bin_path(&b"tool".to_vec(), &exited(true, b"\n"));
    assert_eq!(result, Ok(Some(Vec::new())));
}

#[test]
fn not_found_code_means_not_found() {
    assert_eq!(bin_path(&b"nonexistent".to_vec(), &exited(false, b"")), Ok(None));
}

#[test]
fn not_found_code_means_not_found_whatever_was_written() {
    assert_eq!(bin_path(&b"nonexistent".to_vec(), &exited(false, b"no such thing\n")), Ok(None));
    assert_eq!(bin_path(&b"nonexistent".to_vec(), &exited(false, &[0xff, 0xff])), Ok(None));
}

#[test]
fn lookup_that_could_not_run_is_a_failure() {
    let result = bin_path(&b"tool".to_vec(), &Lookup::Unavailable);
    assert_eq!(result, Err(Error::PathResolutionFailed(b"tool".to_vec())));
}

#[test]
fn output_that_is_no_text_is_a_failure() {
    let result = bin_path(&b"tool".to_vec(), &exited(true, &[b'/', 0xff, 0xfe, b'\n']));
    assert_eq!(result, Err(Error::PathResolutionFailed(b"tool".to_vec())));
}

#[test]
fn output_cut_inside_a_character_is_a_failure() {
    // "é" is two bytes; the first alone is no text.
    let result = bin_path(&b"tool".to_vec(), &exited(true, &[b'/', 0xc3, b'\n']));
    assert_eq!(result, Err(Error::PathResolutionFailed(b"tool".to_vec())));
}

#[test]
fn output_with_characters_beyond_ascii_is_text() {
    let output = "/opt/café/tool\n".as_bytes();
    let result = bin_path(&b"tool".to_vec(), &exited(true, output));
    assert_eq!(result, Ok(Some("/opt/café/tool".as_bytes().to_vec())));
}

#[test]
fn text_is_judged_after_the_last_byte_is_dropped() {
    // The bytes are text only once the stray last byte is gone.
    let result = bin_path(&b"tool".to_vec(), &exited(true, &[b'/', b'a', 0xff]));
    assert_eq!(result, Ok(Some(b"/a".to_vec())));
}

#[test]
fn empty_output_with_the_found_code_is_a_failure() {
    let result = bin_path(&b"tool".to_vec(), &exited(true, b""));
    assert_eq!(result, Err(Error::PathResolutionFailed(b"tool".to_vec())));
}

#[test]
fn the_two_codes_are_those_of_which() {
    assert_eq!(FOUND, 0);
    assert_eq!(NOT_FOUND, 1);
}

#[test]
fn usage_error_of_the_command_is_a_failure_and_not_not_found() {
    let result = bin_path(&b"tool".to_vec(), &ended(Some(2), b""));
    assert_eq!(result, failed());
    assert_ne!(result, Ok(None));
}

#[test]
fn command_killed_by_a_signal_is_a_failure() {
    assert_eq!(bin_path(&b"tool".to_vec(), &ended(None, b"")), failed());
    assert_eq!(bin_path(&b"tool".to_vec(), &ended(None, b"/bin/tool\n")), failed());
}

#[test]
fn every_other_exit_code_is_a_failure() {
    for code in [-1, 2, 3, 126, 127, 128, 137, 255, i32::MIN, i32::MAX] {
        assert_eq!(bin_path(&b"tool".to_vec(), &ended(Some(code), b"")), failed(), "code {}", code);
    }
}

#[test]
fn failed_exit_is_a_failure_whatever_was_written() {
    assert_eq!(bin_path(&b"tool".to_vec(), &ended(Some(2), b"/bin/tool\n")), failed());
    assert_eq!(bin_path(&b"tool".to_vec(), &ended(Some(127), &[0xff])), failed());
}

#[test]
fn only_the_found_code_gives_a_path() {
    for code in -3..130 {
        let result = bin_path(&b"tool".to_vec(), &ended(Some(code), b"/bin/tool\n"));
        let expected = match code {
            0 => Ok(Some(b"/bin/tool".to_vec())),
            1 => Ok(None),
            _ => failed(),
        };
        assert_eq!(result, expected, "code {}", code);
    }
}
