use dsh_shell::dsh::{
    dsh_url, url_port, web_command, ChildStdio, CREATE_NO_WINDOW, DEFAULT_PORT, GLOBAL_BIN_JS, LOOPBACK_HOST,
};

fn reference_url_port(url: &str) -> u16 {
    url.rsplit(':').next().and_then(|p| p.parse().ok()).unwrap_or(3080)
}

#[test]
fn url_port_reads_the_port_after_the_last_colon() {
    assert_eq!(url_port("http://127.0.0.1:3085"), 3085);
    assert_eq!(url_port("a:b:7"), 7);
    assert_eq!(url_port("8080"), 8080);
    assert_eq!(url_port("host:+42"), 42);
    assert_eq!(url_port("host:0042"), 42);
    assert_eq!(url_port("host:65535"), 65535);
    assert_eq!(url_port("host:0"), 0);
}

#[test]
fn url_port_falls_back_to_the_default_port() {
    assert_eq!(DEFAULT_PORT, 3080);
    assert_eq!(url_port("http://127.0.0.1"), DEFAULT_PORT);
    assert_eq!(url_port(""), DEFAULT_PORT);
    assert_eq!(url_port("host:"), DEFAULT_PORT);
    assert_eq!(url_port("host:65536"), DEFAULT_PORT);
    assert_eq!(url_port("host:-1"), DEFAULT_PORT);
    assert_eq!(url_port("host: 42"), DEFAULT_PORT);
    assert_eq!(url_port("host:42/"), DEFAULT_PORT);
    assert_eq!(url_port("ü:٣"), DEFAULT_PORT);
}

#[test]
fn url_port_matches_rsplit_and_parse() {
    let cases = [
        "http://127.0.0.1:3080", "http://[::1]:9000", "::", ":", "x:+", "x:++1", "x:1:", "no colon",
        "http://127.0.0.1:3080/", "tcp://h:99999", "h:65535", "h:00000000000000000000003",
    ];
    for c in cases {
        assert_eq!(url_port(c), reference_url_port(c), "input {:?}", c);
    }
}

#[test]
fn dsh_url_names_the_loopback_port() {
    assert_eq!(dsh_url(3080), "http://127.0.0.1:3080");
    assert_eq!(dsh_url(0), "http://127.0.0.1:0");
    assert_eq!(dsh_url(65535), "http://127.0.0.1:65535");
}

#[test]
fn url_port_reads_back_dsh_url() {
    for p in [0u16, 1, 80, 3080, 3089, 9999, 10000, 65535] {
        assert_eq!(url_port(&dsh_url(p)), p);
    }
    for p in (0u16..=65535).step_by(97) {
        assert_eq!(url_port(&dsh_url(p)), p);
    }
}

#[test]
fn web_command_prefers_the_global_entry_script() {
    let cmd = web_command(3081, "C:\\work", Some("C:\\npm\\dsh\\lib\\bin.js".to_string()), true);
    assert_eq!(cmd.program, "node");
    assert_eq!(cmd.args, vec!["C:\\npm\\dsh\\lib\\bin.js", "web", "--host", "127.0.0.1", "--port", "3081"]);
    assert_eq!(cmd.creation_flags, Some(CREATE_NO_WINDOW));
    assert_eq!(cmd.current_dir, "C:\\work");
    assert_eq!(cmd.stdio, ChildStdio::PipedOutputNullInput);
    assert_eq!(CREATE_NO_WINDOW, 0x0800_0000);

    let cmd = web_command(3080, "/home/a/proj", Some("/usr/lib/dsh/bin.js".to_string()), false);
    assert_eq!(cmd.program, "node");
    assert_eq!(cmd.args, vec!["/usr/lib/dsh/bin.js", "web", "--host", "127.0.0.1", "--port", "3080"]);
    assert_eq!(cmd.creation_flags, None);
    assert_eq!(cmd.current_dir, "/home/a/proj");
    assert_eq!(cmd.stdio, ChildStdio::PipedOutputNullInput);
}

#[test]
fn web_command_falls_back_to_npx() {
    let cmd = web_command(3082, "C:\\work", None, true);
    assert_eq!(cmd.program, "cmd");
    assert_eq!(
        cmd.args,
        vec!["/c", "npx", "-y", "@deepseek-ai/dsh", "web", "--host", "127.0.0.1", "--port", "3082"]
    );
    assert_eq!(cmd.creation_flags, Some(CREATE_NO_WINDOW));
    assert_eq!(cmd.current_dir, "C:\\work");
    assert_eq!(cmd.stdio, ChildStdio::Inherited);

    let cmd = web_command(3080, "/home/a/proj", None, false);
    assert_eq!(cmd.program, "npx");
    assert_eq!(cmd.args, vec!["-y", "@deepseek-ai/dsh", "web", "--host", "127.0.0.1", "--port", "3080"]);
    assert_eq!(cmd.creation_flags, None);
    assert_eq!(cmd.current_dir, "/home/a/proj");
    assert_eq!(cmd.stdio, ChildStdio::PipedOutputNullInput);
}

#[test]
fn launch_locations_are_fixed() {
    assert_eq!(GLOBAL_BIN_JS, "npm/node_modules/@deepseek-ai/dsh/lib/bin.js");
    assert_eq!(LOOPBACK_HOST, "127.0.0.1");
}
