use deploybot::config::cloudflare::{
  CfError, CfErrors, Cloudflare, HttpMethod, LogsResult, LogsResultData,
};
use deploybot::config::restrict::{AccessStep, Allow, Restrict};
use deploybot::config::totp::{decode_secret, Totp, TotpError};
use deploybot::text::u64_to_decimal;

fn rule(channels: Option<Vec<u64>>, roles: Option<Vec<u64>>, users: Option<Vec<u64>>) -> Allow {
  Allow { channels, roles, users }
}

fn rfc_secret() -> Vec<u8> {
  b"12345678901234567890".to_vec()
}

#[test]
fn decimal_writes_numbers() {
  assert_eq!(u64_to_decimal(0), "0");
  assert_eq!(u64_to_decimal(7), "7");
  assert_eq!(u64_to_decimal(10), "10");
  assert_eq!(u64_to_decimal(1000), "1000");
  assert_eq!(u64_to_decimal(u64::MAX), "18446744073709551615");
}

#[test]
fn command_without_rule_is_open() {
  let restrict = Restrict::new();
  let check = restrict.allowed(&"deploy".to_string(), 1, 2);
  assert_eq!(check.next_step(), AccessStep::Decided(true));
}

#[test]
fn listed_user_or_channel_may_run() {
  let mut restrict = Restrict::new();
  restrict.insert(
    "deploy".to_string(),
    rule(Some(vec![20]), Some(vec![30]), Some(vec![10])),
  );
  assert_eq!(restrict.allowed(&"deploy".to_string(), 10, 99).next_step(), AccessStep::Decided(true));
  assert_eq!(restrict.allowed(&"deploy".to_string(), 99, 20).next_step(), AccessStep::Decided(true));
  assert_eq!(restrict.allowed(&"deploy".to_string(), 99, 99).next_step(), AccessStep::HasRole(30));
  // other commands stay open
  assert_eq!(restrict.allowed(&"ping".to_string(), 99, 99).next_step(), AccessStep::Decided(true));
}

#[test]
fn roles_are_asked_in_order_until_one_is_held() {
  let mut restrict = Restrict::new();
  restrict.insert("logs".to_string(), rule(None, Some(vec![5, 6, 7]), None));
  let mut check = restrict.allowed(&"logs".to_string(), 1, 2);
  assert_eq!(check.next_step(), AccessStep::HasRole(5));
  check.record(false);
  assert_eq!(check.next_step(), AccessStep::HasRole(6));
  check.record(true);
  assert_eq!(check.next_step(), AccessStep::Decided(true));
}

#[test]
fn no_role_held_denies() {
  let mut restrict = Restrict::new();
  restrict.insert("logs".to_string(), rule(None, Some(vec![5, 6]), None));
  let mut check = restrict.allowed(&"logs".to_string(), 1, 2);
  check.record(false);
  check.record(false);
  assert_eq!(check.next_step(), AccessStep::Decided(false));
}

#[test]
fn empty_rule_denies_everyone() {
  let mut restrict = Restrict::new();
  restrict.insert("totp".to_string(), rule(None, None, None));
  assert_eq!(restrict.allowed(&"totp".to_string(), 1, 2).next_step(), AccessStep::Decided(false));
}

#[test]
fn insert_replaces_the_rule() {
  let mut restrict = Restrict::new();
  restrict.insert("deploy".to_string(), rule(None, None, Some(vec![1])));
  restrict.insert("logs".to_string(), rule(None, None, Some(vec![3])));
  restrict.insert("deploy".to_string(), rule(None, None, Some(vec![2])));
  assert_eq!(restrict.get(&"deploy".to_string()).unwrap().users, Some(vec![2]));
  assert_eq!(restrict.get(&"logs".to_string()).unwrap().users, Some(vec![3]));
  assert!(restrict.get(&"ping".to_string()).is_none());
  assert_eq!(restrict.allowed(&"deploy".to_string(), 1, 0).next_step(), AccessStep::Decided(false));
  assert_eq!(restrict.allowed(&"deploy".to_string(), 2, 0).next_step(), AccessStep::Decided(true));
}

#[test]
fn secret_decodes_base32_ignoring_spaces() {
  assert_eq!(decode_secret("JBSW Y3DP EHPK 3PXP").unwrap(), b"Hello!\xde\xad\xbe\xef".to_vec());
  assert_eq!(decode_secret("JBSWY3DPEHPK3PXP").unwrap(), b"Hello!\xde\xad\xbe\xef".to_vec());
  assert_eq!(decode_secret("").unwrap(), Vec::<u8>::new());
}

#[test]
fn secret_that_is_not_base32_is_refused() {
  assert!(decode_secret("not base32!").is_err());
}

#[test]
fn totp_codes_follow_rfc_6238() {
  let totp = Totp::new("app".to_string(), "desc".to_string(), rfc_secret());
  assert_eq!(totp.generate_totp_at(59).unwrap(), "287082");
  assert_eq!(totp.generate_totp_at(1111111109).unwrap(), "081804");
  assert_eq!(totp.generate_totp_at(1234567890).unwrap(), "005924");
  assert_eq!(totp.generate_totp_at(2000000000).unwrap(), "279037");
}

#[test]
fn totp_code_now_has_six_digits() {
  let totp = Totp::new("app".to_string(), "desc".to_string(), rfc_secret());
  let code = totp.generate_totp().unwrap();
  assert_eq!(code.len(), 6);
  assert!(code.chars().all(|c| c.is_ascii_digit()));
}

#[test]
fn short_secret_is_refused() {
  let totp = Totp::new("app".to_string(), "desc".to_string(), vec![1; 10]);
  assert!(matches!(totp.generate_totp_at(59), Err(TotpError::SecretSize(80))));
  assert!(matches!(totp.generate_totp(), Err(TotpError::SecretSize(80))));
  let exact = Totp::new("app".to_string(), "desc".to_string(), vec![1; 16]);
  assert!(exact.generate_totp_at(59).is_ok());
}

#[test]
fn totp_error_texts() {
  assert_eq!(
    TotpError::SecretSize(80).to_string(),
    "The length of the shared secret MUST be at least 128 bits. 80 bits is not enough"
  );
  assert_eq!(
    TotpError::DigitsNumber(5).to_string(),
    "Implementations MUST extract a 6-digit code at a minimum and possibly 7 and 8-digit code. 5 digits is not allowed"
  );
  let err = std::time::UNIX_EPOCH.duration_since(std::time::SystemTime::now()).unwrap_err();
  assert!(!TotpError::SystemTime(err).to_string().is_empty());
}

#[test]
fn deployment_request_url() {
  let cf = Cloudflare::new("KEY".to_string(), "acc".to_string(), "site".to_string());
  let req = cf.create_deployment_request(Some("main".to_string()));
  assert_eq!(req.method, HttpMethod::Post);
  assert_eq!(
    req.url,
    "https://api.cloudflare.com/client/v4/accounts/acc/pages/projects/site/deployments"
  );
  assert_eq!(req.bearer_token, "KEY");
  assert_eq!(req.branch, Some("main".to_string()));
  assert_eq!(cf.create_deployment_request(None).branch, None);
}

#[test]
fn logs_request_url() {
  let cf = Cloudflare::new("KEY".to_string(), "acc".to_string(), "site".to_string());
  let req = cf.get_logs_request("d3ad");
  assert_eq!(req.method, HttpMethod::Get);
  assert_eq!(
    req.url,
    "https://api.cloudflare.com/client/v4/accounts/acc/pages/projects/site/deployments/d3ad/history/logs"
  );
  assert_eq!(req.bearer_token, "KEY");
  assert_eq!(req.branch, None);
}

#[test]
fn cf_errors_text() {
  let errors = CfErrors(vec![
    CfError { code: 8000007, message: "Project not found".to_string() },
    CfError { code: 0, message: "x".to_string() },
  ]);
  assert_eq!(errors.to_string(), "Code 8000007: Project not found\nCode 0: x\n");
  assert_eq!(CfErrors(vec![]).to_string(), "");
}

#[test]
fn logs_text() {
  let logs = LogsResult {
    data: vec![
      LogsResultData { line: "Cloning".to_string(), ts: "2023-01-01T00:00:00Z".to_string() },
      LogsResultData { line: "Done".to_string(), ts: "2023-01-01T00:00:05Z".to_string() },
    ],
  };
  assert_eq!(
    logs.to_string(),
    "2023-01-01T00:00:00Z  Cloning\n2023-01-01T00:00:05Z  Done\n"
  );
  assert_eq!(LogsResult { data: vec![] }.to_string(), "");
}

#[test]
fn codes_are_constant_within_a_step() {
  let totp = Totp::new("app".to_string(), "desc".to_string(), rfc_secret());
  assert_eq!(totp.generate_totp_at(30).unwrap(), totp.generate_totp_at(59).unwrap());
  assert_eq!(totp.generate_totp_at(1111111080).unwrap(), totp.generate_totp_at(1111111109).unwrap());
  assert_ne!(totp.generate_totp_at(59).unwrap(), totp.generate_totp_at(60).unwrap());
}
