use tabox::isolate::{build_box_options, IsolateSandbox, NonZeroQuantity, SandboxDirectory};

fn as_strs(options: &[String]) -> Vec<&str> {
    options.iter().map(|s| s.as_str()).collect()
}

#[test]
fn test_to_representation() {
    assert_eq!(NonZeroQuantity::Value(5).to_representation(), 5);
    assert_eq!(NonZeroQuantity::Unlimited.to_representation(), 0);
}

#[test]
fn test_default_box_options() {
    let options = build_box_options(IsolateSandbox::default());
    assert_eq!(as_strs(&options), vec!["--fsize=0", "--processes", "--run"]);
}

#[test]
fn test_full_box_options() {
    let config = IsolateSandbox {
        box_id: Some(3),
        use_cgroups: true,
        chdir: Some("/work".to_string()),
        visible_dirs: vec![
            SandboxDirectory {
                src: "/host".to_string(),
                dst: Some("/inside".to_string()),
                options: vec!["rw".to_string(), "dev".to_string()],
            },
            SandboxDirectory { src: "/plain".to_string(), dst: None, options: vec![] },
        ],
        preserve_env: false,
        inherit_env: vec!["PATH".to_string()],
        set_env: vec![("VAR".to_string(), "1".to_string())],
        max_file_size: NonZeroQuantity::Value(64),
        stack_space: NonZeroQuantity::Value(8 * 1024 * 1024),
        address_space: NonZeroQuantity::Value(256 * 1024 * 1024),
        stdin_file: Some("/in".to_string()),
        stdout_file: Some("/out".to_string()),
        stderr_file: Some("/err".to_string()),
        timeout: NonZeroQuantity::Value(2000),
        verbosity: 2,
        wallclock_timeout_ms: NonZeroQuantity::Value(4000),
        extra_timeout_ms: NonZeroQuantity::Value(500),
        max_processes: 4,
    };
    let options = build_box_options(config);
    assert_eq!(
        as_strs(&options),
        vec![
            "--box-id=3",
            "--cg",
            "--cg-timing",
            "--chdir=/work",
            "--dir=/host=/inside:rw,dev",
            "--dir=/plain=/plain",
            "--env=PATH",
            "--env=VAR=1",
            "-f 64",
            "--fsize=64",
            "--stdin=/in",
            "--stack=8192",
            "--cg-mem=262144",
            "--stdout=/out",
            "--processes=4",
            "--stderr=/err",
            "--time=2000",
            "--verbose",
            "--verbose",
            "--wall-time=4000",
            "--extra-time=500",
            "--run",
        ]
    );
}

#[test]
fn test_box_options_without_cgroups() {
    let config = IsolateSandbox {
        address_space: NonZeroQuantity::Value(1024 * 1024),
        max_processes: 4,
        ..IsolateSandbox::default()
    };
    let options = build_box_options(config);
    // without control groups the memory option is plain, and more than
    // one process cannot be granted
    assert_eq!(
        as_strs(&options),
        vec!["--fsize=0", "--mem=1024", "--processes", "--run"]
    );
}
