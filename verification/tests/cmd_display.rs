//! Rendering of commands.

use procpilot::os::OsText;
use procpilot::CmdDisplay;

fn os(s: &str) -> OsText {
    OsText::from_str(s)
}

fn cd(program: &str, args: &[&str], secret: bool) -> CmdDisplay {
    CmdDisplay::new(os(program), args.iter().map(|s| os(s)).collect(), secret)
}

#[test]
fn simple_command() {
    let d = cd("git", &["status"], false);
    assert_eq!(d.to_string(), "git status");
    assert!(!d.is_pipeline());
}

#[test]
fn no_args() {
    let d = cd("ls", &[], false);
    assert_eq!(d.to_string(), "ls");
}

#[test]
fn args_with_spaces_are_quoted() {
    let d = cd("git", &["commit", "-m", "fix bug"], false);
    assert_eq!(d.to_string(), "git commit -m 'fix bug'");
}

#[test]
fn empty_arg_quoted() {
    let d = cd("echo", &[""], false);
    assert_eq!(d.to_string(), "echo ''");
}

#[test]
fn embedded_single_quote_escaped() {
    let d = cd("echo", &["it's fine"], false);
    assert_eq!(d.to_string(), "echo 'it'\\''s fine'");
}

#[test]
fn safe_chars_unquoted() {
    let d = cd("git", &["log", "-r", "trunk()..@", "--no-graph"], false);
    assert_eq!(d.to_string(), "git log -r 'trunk()..@' --no-graph");
}

#[test]
fn paths_unquoted() {
    let d = cd("cat", &["/tmp/file.txt", "/usr/bin/foo"], false);
    assert_eq!(d.to_string(), "cat /tmp/file.txt /usr/bin/foo");
}

#[test]
fn secret_redacts_args() {
    let d = cd("docker", &["login", "-p", "hunter2"], true);
    assert_eq!(d.to_string(), "docker <secret>");
}

#[test]
fn secret_preserves_program() {
    let d = cd("docker", &["login", "-p", "hunter2"], true);
    assert_eq!(d.program(), &os("docker"));
    assert!(d.is_secret());
    assert_eq!(d.raw_args().len(), 3);
}

#[test]
fn special_chars_quoted() {
    let d = cd("sh", &["-c", "echo foo > bar"], false);
    assert_eq!(d.to_string(), "sh -c 'echo foo > bar'");
}

#[test]
fn debug_impl_works() {
    let d = cd("git", &["status"], false);
    let dbg = d.debug();
    assert!(dbg.contains("git"));
    assert!(dbg.contains("status"));
}

#[test]
fn debug_respects_secret_flag() {
    let d = cd("docker", &["login", "-p", "hunter2"], true);
    let dbg = d.debug();
    assert!(!dbg.contains("hunter2"), "secret leaked in Debug: {dbg}");
    assert!(dbg.contains("<secret>"));
}

#[test]
fn pipeline_renders_with_separator() {
    let mut d = cd("git", &["log"], false);
    d.push_stage(os("grep"), vec![os("foo")]);
    d.push_stage(os("head"), vec![os("-5")]);
    assert_eq!(d.to_string(), "git log | grep foo | head -5");
    assert!(d.is_pipeline());
    assert_eq!(d.stages().len(), 3);
}

#[test]
fn pipeline_with_secret_redacts_every_stage() {
    let mut d = cd("docker", &["login", "-p", "hunter2"], true);
    d.push_stage(os("jq"), vec![os(".token")]);
    let rendered = d.to_string();
    assert!(!rendered.contains("hunter2"));
    assert!(!rendered.contains(".token"));
    assert!(rendered.contains("docker <secret>"));
    assert!(rendered.contains("jq <secret>"));
}

#[test]
fn debug_renderings_are_exact() {
    let mut d = cd("git", &["it's", "a\"b"], false);
    d.push_stage(os("head"), vec![]);
    assert_eq!(
        d.debug(),
        "CmdDisplay { stages: [StageDisplay { program: \"git\", args: [\"it's\", \"a\\\"b\"] }, \
         StageDisplay { program: \"head\", args: [] }], secret: false }"
    );
    let hidden = cd("git", &["status"], true);
    assert_eq!(hidden.debug(), "CmdDisplay { stages: \"<secret>\", secret: true }");
}

#[test]
fn text_that_is_not_utf8_is_replaced_in_the_rendering() {
    let d = CmdDisplay::new(os("cat"), vec![OsText::from_bytes(vec![b'a', 0xff, b'b'])], false);
    assert_eq!(d.to_string(), "cat 'a\u{fffd}b'");
    assert_eq!(
        d.debug(),
        "CmdDisplay { stages: [StageDisplay { program: \"cat\", args: [\"a\\xFFb\"] }], \
         secret: false }"
    );
}

#[test]
fn a_shell_reads_a_quoted_argument_back() {
    // What a shell makes of the rendered word, for a few awkward arguments.
    for arg in ["", "'", "''", "a'b'c", "\\", "$(x)", "a b", "plain-1.2/x"] {
        let word = cd("p", &[arg], false).to_string()[2..].to_owned();
        let mut read = String::new();
        let mut quoted = false;
        let mut chars = word.chars();
        while let Some(c) = chars.next() {
            match c {
                '\'' => quoted = !quoted,
                '\\' if !quoted => read.push(chars.next().unwrap()),
                c => read.push(c),
            }
        }
        assert!(!quoted);
        assert_eq!(read, arg);
    }
}

#[test]
fn secret_renderings_do_not_depend_on_arguments() {
    let a = cd("docker", &["login", "-p", "hunter2"], true);
    let b = cd("docker", &["logout"], true);
    assert_eq!(a.to_string(), b.to_string());
    assert_eq!(a.debug(), b.debug());
}

#[test]
fn a_stage_extends_the_rendering() {
    let mut d = cd("a", &["x y"], false);
    let before = d.to_string();
    d.push_stage(os("b"), vec![os("z")]);
    assert_eq!(d.to_string(), format!("{before} | b z"));
    let copy = d.clone();
    assert_eq!(copy.to_string(), d.to_string());
    assert_eq!(copy.stages()[1].program(), &os("b"));
    assert_eq!(copy.stages()[1].raw_args(), &[os("z")]);
}

#[test]
fn utf8_text_survives_decoding() {
    for s in ["", "plain", "héllo 😀", "\u{fffd}"] {
        assert_eq!(os(s).to_string_lossy(), s);
    }
}

#[test]
fn different_commands_render_differently() {
    let mut seen: Vec<String> = Vec::new();
    let mut add = |d: CmdDisplay| seen.push(d.to_string());
    for args in [
        &[][..],
        &[""],
        &["a b"],
        &["a", "b"],
        &["'a b'"],
        &["a'", "'b"],
        &["|", "p"],
        &["| p"],
        &["a", "|"],
        &["\\'"],
        &["a", ""],
    ] {
        add(cd("p", args, false));
    }
    let mut piped = cd("p", &[], false);
    piped.push_stage(os("p"), vec![]);
    add(piped);
    add(cd("p | p", &[], false));
    for i in 0..seen.len() {
        for j in 0..i {
            assert_ne!(seen[i], seen[j]);
        }
    }
    assert_eq!(cd("p", &["x y"], false).to_string(), cd("p", &["x y"], false).to_string());
}
