use jobshell::parse::{classify, parse_line, parse_redirects, split_stage, CommandKind, ParseError};

fn stages_as_strings(line: &str) -> (Vec<String>, bool) {
    let p = parse_line(line.as_bytes());
    let stages = p
        .stages
        .iter()
        .map(|s| String::from_utf8(s.clone()).unwrap())
        .collect();
    (stages, p.background)
}

#[test]
fn splits_pipeline_stages_in_order() {
    let (stages, background) = stages_as_strings("cat notes.txt | grep fn | wc -l");
    assert_eq!(stages, vec!["cat notes.txt", "grep fn", "wc -l"]);
    assert!(!background);
}

#[test]
fn single_stage_line() {
    let (stages, background) = stages_as_strings("ls -l");
    assert_eq!(stages, vec!["ls -l"]);
    assert!(!background);
}

#[test]
fn trailing_ampersand_sets_background_and_is_stripped() {
    let (stages, background) = stages_as_strings("sleep 5 &\n");
    assert_eq!(stages, vec!["sleep 5"]);
    assert!(background);
}

#[test]
fn ampersand_without_space_is_stripped() {
    let (stages, background) = stages_as_strings("sleep 5&");
    assert_eq!(stages, vec!["sleep 5"]);
    assert!(background);
}

#[test]
fn blank_line_has_no_stages() {
    let (stages, background) = stages_as_strings("   \n");
    assert!(stages.is_empty());
    assert!(!background);
}

#[test]
fn empty_line_has_no_stages() {
    let (stages, background) = stages_as_strings("");
    assert!(stages.is_empty());
    assert!(!background);
}

#[test]
fn trailing_whitespace_is_trimmed_before_ampersand_check() {
    let (stages, background) = stages_as_strings("ls &   ");
    assert_eq!(stages, vec!["ls"]);
    assert!(background);
}

#[test]
fn split_stage_takes_first_token_as_command() {
    let w = split_stage(b"grep -n main src");
    assert_eq!(w.cmd, b"grep".to_vec());
    assert_eq!(w.args, vec![b"-n".to_vec(), b"main".to_vec(), b"src".to_vec()]);
}

#[test]
fn split_stage_of_blank_text_is_empty() {
    let w = split_stage(b"   ");
    assert!(w.cmd.is_empty());
    assert!(w.args.is_empty());
}

#[test]
fn split_stage_absorbs_repeated_spaces() {
    let w = split_stage(b"  echo   a  b ");
    assert_eq!(w.cmd, b"echo".to_vec());
    assert_eq!(w.args, vec![b"a".to_vec(), b"b".to_vec()]);
}

#[test]
fn classify_recognizes_each_builtin() {
    assert_eq!(classify(b""), CommandKind::Empty);
    assert_eq!(classify(b"exit"), CommandKind::Exit);
    assert_eq!(classify(b"fg"), CommandKind::Fg);
    assert_eq!(classify(b"bg"), CommandKind::Bg);
    assert_eq!(classify(b"jobs"), CommandKind::Jobs);
    assert_eq!(classify(b"cd"), CommandKind::Cd);
    assert_eq!(classify(b"ls"), CommandKind::External);
    assert_eq!(classify(b"exitt"), CommandKind::External);
    assert_eq!(classify(b"cdd"), CommandKind::External);
}

#[test]
fn output_redirect_is_split_from_command_token() {
    let rd = parse_redirects(b"sort>out.txt").unwrap();
    assert_eq!(rd.cmd, b"sort".to_vec());
    assert_eq!(rd.output, Some(b"out.txt".to_vec()));
    assert_eq!(rd.input, None);
    assert_eq!(rd.error, None);
}

#[test]
fn input_redirect_is_split_from_command_token() {
    let rd = parse_redirects(b"sort<in.txt").unwrap();
    assert_eq!(rd.cmd, b"sort".to_vec());
    assert_eq!(rd.input, Some(b"in.txt".to_vec()));
    assert_eq!(rd.output, None);
    assert_eq!(rd.error, None);
}

#[test]
fn error_redirect_is_detected_first() {
    let rd = parse_redirects(b"make2>err.log").unwrap();
    assert_eq!(rd.cmd, b"make".to_vec());
    assert_eq!(rd.error, Some(b"err.log".to_vec()));
    assert_eq!(rd.output, None);
    assert_eq!(rd.input, None);
}

#[test]
fn error_redirect_suppresses_output_detection() {
    // With "2>" present, the remaining ">" is not treated as an output
    // redirection.
    let rd = parse_redirects(b"a>b2>c").unwrap();
    assert_eq!(rd.error, Some(b"c".to_vec()));
    assert_eq!(rd.cmd, b"a>b".to_vec());
    assert_eq!(rd.output, None);
}

#[test]
fn input_and_output_redirects_combine() {
    let rd = parse_redirects(b"sort<in.txt>out.txt").unwrap();
    assert_eq!(rd.cmd, b"sort".to_vec());
    assert_eq!(rd.input, Some(b"in.txt".to_vec()));
    assert_eq!(rd.output, Some(b"out.txt".to_vec()));
    assert_eq!(rd.error, None);
}

#[test]
fn input_redirect_combines_with_error_redirect() {
    let rd = parse_redirects(b"run<data2>err").unwrap();
    assert_eq!(rd.cmd, b"run".to_vec());
    assert_eq!(rd.input, Some(b"data".to_vec()));
    assert_eq!(rd.error, Some(b"err".to_vec()));
    assert_eq!(rd.output, None);
}

#[test]
fn plain_command_has_no_redirects() {
    let rd = parse_redirects(b"ls").unwrap();
    assert_eq!(rd.cmd, b"ls".to_vec());
    assert_eq!(rd.input, None);
    assert_eq!(rd.output, None);
    assert_eq!(rd.error, None);
}

#[test]
fn output_marker_without_target_is_an_error() {
    assert!(matches!(parse_redirects(b"sort>"), Err(ParseError::MissingRedirectTarget)));
}

#[test]
fn input_marker_without_target_is_an_error() {
    assert!(matches!(parse_redirects(b"sort<"), Err(ParseError::MissingRedirectTarget)));
}

#[test]
fn error_marker_without_target_is_an_error() {
    assert!(matches!(parse_redirects(b"make2>"), Err(ParseError::MissingRedirectTarget)));
}
