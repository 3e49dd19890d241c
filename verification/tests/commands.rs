use deploybot::commands::{
  self, deploy, first_text_option, handle, logs, ping, totp, CommandKind, CommandOption,
  Dispatch, HandleError, OptionKind, Reply,
};
use deploybot::config::cloudflare::{
  CfError, CfErrors, CreateDeployment, DeploymentResult, Logs, LogsResult, LogsResultData,
};
use deploybot::config::totp::Totp;

fn option(name: &str, value: Option<&str>) -> CommandOption {
  CommandOption { name: name.to_string(), value: value.map(str::to_string) }
}

fn apps() -> Vec<Totp> {
  vec![
    Totp::new("github".to_string(), "GitHub".to_string(), b"12345678901234567890".to_vec()),
    Totp::new("aws".to_string(), "AWS root".to_string(), vec![1; 4]),
  ]
}

#[test]
fn four_commands_are_declared() {
  let specs = commands::register();
  let names: Vec<&str> = specs.iter().map(|c| c.name.as_str()).collect();
  assert_eq!(names, vec!["ping", "deploy", "logs", "totp"]);
  assert_eq!(specs[0].description, "A ping command");
  assert!(specs[0].options.is_empty());
  assert_eq!(specs[1].description, "Deploy frontend to Cloudflare");
  assert_eq!(specs[1].options[0].name, "branch");
  assert_eq!(specs[1].options[0].description, "Branch");
  assert_eq!(specs[1].options[0].kind, OptionKind::String);
  assert!(!specs[1].options[0].required);
  assert_eq!(specs[2].description, "Fetch Cloudflare logs");
  assert_eq!(specs[2].options[0].name, "deployment_id");
  assert_eq!(specs[2].options[0].description, "Deployment ID");
  assert!(specs[2].options[0].required);
  assert_eq!(specs[3].description, "TOTP command");
  assert_eq!(specs[3].options[0].name, "app");
  assert_eq!(specs[3].options[0].description, "App Name");
  assert!(!specs[3].options[0].required);
}

#[test]
fn declared_commands_are_dispatched() {
  for (spec, kind) in commands::register().iter().zip([
    CommandKind::Ping,
    CommandKind::Deploy,
    CommandKind::Logs,
    CommandKind::Totp,
  ]) {
    assert_eq!(handle(true, &spec.name), Dispatch::Run(kind));
  }
}

#[test]
fn denied_interaction_runs_nothing() {
  assert_eq!(handle(false, &"ping".to_string()), Dispatch::Respond("**Access Denied!**".to_string()));
  assert_eq!(handle(false, &"nope".to_string()), Dispatch::Respond("**Access Denied!**".to_string()));
}

#[test]
fn unknown_command_is_not_implemented() {
  assert_eq!(handle(true, &"nope".to_string()), Dispatch::Respond("Not Implemented!".to_string()));
  assert_eq!(handle(true, &"Ping".to_string()), Dispatch::Respond("Not Implemented!".to_string()));
}

#[test]
fn first_option_value() {
  assert_eq!(first_text_option(&vec![]), None);
  assert_eq!(first_text_option(&vec![option("branch", Some("main"))]), Some("main".to_string()));
  assert_eq!(first_text_option(&vec![option("branch", None), option("x", Some("y"))]), None);
}

#[test]
fn ping_answers_pong() {
  assert_eq!(ping::run(), Reply::Text("Pong!".to_string()));
}

fn deployment(success: bool) -> CreateDeployment {
  CreateDeployment {
    success,
    errors: CfErrors(if success {
      vec![]
    } else {
      vec![CfError { code: 8000000, message: "oops".to_string() }]
    }),
    result: DeploymentResult { id: "abc123".to_string(), url: "https://abc123.site.pages.dev/".to_string() },
  }
}

#[test]
fn deployment_embed_when_sent() {
  let e = deploy::deployment_embed(&deployment(true));
  assert_eq!(e.title, "Deployment request sent!");
  assert_eq!(e.url, "https://abc123.site.pages.dev/");
  assert_eq!(e.color, 0x3498DB);
  assert_eq!(e.fields.len(), 1);
  assert_eq!((e.fields[0].name.as_str(), e.fields[0].value.as_str(), e.fields[0].inline), ("ID", "abc123", false));
}

#[test]
fn deployment_embed_when_failed() {
  let e = deploy::deployment_embed(&deployment(false));
  assert_eq!(e.title, "Deployment request failed!");
  assert_eq!(e.color, 0xE74C3C);
  assert_eq!(e.fields.len(), 2);
  assert_eq!(e.fields[0].value, "abc123");
  assert_eq!((e.fields[1].name.as_str(), e.fields[1].value.as_str(), e.fields[1].inline), ("Error", "Code 8000000: oops\n", false));
}

#[test]
fn deployment_request_takes_the_branch() {
  let cf = deploybot::config::cloudflare::Cloudflare::new("k".to_string(), "a".to_string(), "p".to_string());
  assert_eq!(deploy::deployment_request(&cf, &vec![option("branch", Some("dev"))]).branch, Some("dev".to_string()));
  assert_eq!(deploy::deployment_request(&cf, &vec![]).branch, None);
}

#[test]
fn logs_needs_a_deployment_id() {
  assert_eq!(logs::deployment_id(&vec![option("deployment_id", Some("d1"))]).unwrap(), "d1");
  let err = logs::deployment_id(&vec![]).unwrap_err();
  assert!(matches!(&err, HandleError::OptionNF(name) if name == "deployment_id"));
  assert_eq!(err.to_string(), "Option not found: deployment_id");
}

#[test]
fn logs_reply_is_a_file_or_the_errors() {
  let ok = Logs {
    success: true,
    errors: CfErrors(vec![]),
    result: LogsResult { data: vec![LogsResultData { line: "hello".to_string(), ts: "t0".to_string() }] },
  };
  assert_eq!(
    logs::reply("d1", &ok),
    Reply::File { filename: "d1.log".to_string(), data: "t0  hello\n".to_string() }
  );
  let failed = Logs {
    success: false,
    errors: CfErrors(vec![CfError { code: 10, message: "no".to_string() }]),
    result: LogsResult { data: vec![] },
  };
  assert_eq!(logs::reply("d1", &failed), Reply::Text("Failed to get logs:\nCode 10: no\n".to_string()));
}

#[test]
fn totp_selects_the_first_app_by_name() {
  let mut list = apps();
  list.push(Totp::new("github".to_string(), "second".to_string(), vec![]));
  assert_eq!(totp::select(&list, &vec![option("app", Some("github"))]), totp::Selection::App(0));
  assert_eq!(totp::select(&list, &vec![option("app", Some("aws"))]), totp::Selection::App(1));
  assert_eq!(totp::select(&list, &vec![option("app", Some("gitlab"))]), totp::Selection::NotFound);
  assert_eq!(totp::select(&list, &vec![]), totp::Selection::List);
}

#[test]
fn totp_answers() {
  let list = apps();
  let code = totp::run(&list, &vec![option("app", Some("github"))]).unwrap();
  assert!(matches!(&code, Reply::Text(c) if c.len() == 6 && c.chars().all(|c| c.is_ascii_digit())));
  assert_eq!(
    totp::run(&list, &vec![option("app", Some("gitlab"))]).unwrap(),
    Reply::Text("App not found!".to_string())
  );
  let err = totp::run(&list, &vec![option("app", Some("aws"))]).unwrap_err();
  assert!(matches!(err, HandleError::Totp(deploybot::config::totp::TotpError::SecretSize(32))));
}

#[test]
fn totp_lists_apps_as_markdown() {
  let expected = "```\n| Name   | Description |\n|--------|-------------|\n| github | GitHub      |\n| aws    | AWS root    |\n```";
  assert_eq!(totp::apps_list(&apps()), expected);
  assert_eq!(totp::run(&apps(), &vec![]).unwrap(), Reply::Text(expected.to_string()));
}
