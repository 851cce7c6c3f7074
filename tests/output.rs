use rxec::config::{
    format_of_extension, load_config, template_format, Cli, Conf, PartialConf, TemplateError,
    TemplateFormat,
};
use rxec::output::{decimal, log_path, output_dir, output_dir_name};

fn conf() -> Conf {
    Conf {
        cmd: vec!["echo".to_string()],
        args: vec!["".to_string()],
        cwd: ".".to_string(),
        timeout: None,
        interval: 0,
        parallel: Some(2),
        number: 1,
        output: None,
        threads: None,
    }
}

#[test]
fn decimal_digits() {
    assert_eq!(decimal(0), "0");
    assert_eq!(decimal(7), "7");
    assert_eq!(decimal(120), "120");
    assert_eq!(decimal(u32::MAX), "4294967295");
}

#[test]
fn log_path_layout() {
    assert_eq!(log_path("out", "a", 12), "out/a-12.log");
    assert_eq!(log_path("out", "", 1), "out/-1.log");
}

#[test]
fn output_dir_name_uses_prefix_or_command() {
    assert_eq!(output_dir_name(&Some("p".to_string()), &"echo".to_string(), "-1"), "p-1");
    assert_eq!(output_dir_name(&None, &"echo".to_string(), "-1"), "echo-1");
}

#[test]
fn output_dir_has_stamp() {
    let d = output_dir(&None, &"echo".to_string());
    assert!(d.starts_with("echo-"));
    assert_eq!(d.len(), "echo".len() + 15);
    assert!(d[5..].chars().all(|c| c.is_ascii_digit()));
}

#[test]
fn command_line_wins_over_file() {
    let mut c = conf();
    c.timeout = Some(3);
    let cli = Cli { cmd: None, conf: c, config: "rxec.toml".to_string() };
    let file = PartialConf {
        cmd: Some(vec!["ls".to_string()]),
        timeout: Some(9),
        parallel: Some(5),
        output: Some("out".to_string()),
        threads: Some(2),
        ..Default::default()
    };
    let r = load_config(cli, file);
    assert_eq!(r.cmd, vec!["echo".to_string()]);
    assert_eq!(r.timeout, Some(3));
    assert_eq!(r.parallel, Some(2));
    assert_eq!(r.output, Some("out".to_string()));
    assert_eq!(r.threads, Some(2));
}

#[test]
fn template_formats() {
    assert_eq!(template_format("rxec.toml"), Ok(TemplateFormat::Toml));
    assert_eq!(template_format("a/b.yml"), Ok(TemplateFormat::Yaml));
    assert_eq!(template_format("c.yaml"), Ok(TemplateFormat::Yaml));
    assert_eq!(template_format("c.json5"), Ok(TemplateFormat::Json5));
    assert_eq!(template_format("c.json"), Err(TemplateError::UnsupportedExtension));
    assert_eq!(template_format("rxec"), Err(TemplateError::MissingExtension));
    assert_eq!(template_format(".toml"), Err(TemplateError::MissingExtension));
    assert_eq!(format_of_extension(&Some("toml".to_string())), Ok(TemplateFormat::Toml));
    assert_eq!(format_of_extension(&None), Err(TemplateError::MissingExtension));
}
