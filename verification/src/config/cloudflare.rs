//! The Cloudflare Pages API as the bot uses it: the requests it sends, the
//! replies it reads back, and how those replies are written out.

use vstd::prelude::*;
use crate::text::{decimal, push_decimal};

verus! {

/// The Cloudflare account and Pages project that the bot deploys.
pub struct Cloudflare {
    api_key: String,
    account_id: String,
    project_name: String,
}

/// The HTTP method of a request.
#[derive(Debug, PartialEq, Eq)]
pub enum HttpMethod {
    Get,
    Post,
}

/// A request to the Cloudflare API, authenticated with a bearer token.
pub struct ApiRequest {
    pub method: HttpMethod,
    pub url: String,
    pub bearer_token: String,
    /// The branch to deploy, sent as the form field `branch` when present.
    pub branch: Option<String>,
}

/// Where the API of one account lives.
pub open spec fn accounts_url(account_id: Seq<char>) -> Seq<char> {
    "https://api.cloudflare.com/client/v4/accounts/"@ + account_id
}

/// The deployments of a Pages project.
pub open spec fn deployments_url(account_id: Seq<char>, project_name: Seq<char>) -> Seq<char> {
    accounts_url(account_id) + "/pages/projects/"@ + project_name + "/deployments"@
}

/// The log history of one deployment of a Pages project.
pub open spec fn logs_url(
    account_id: Seq<char>,
    project_name: Seq<char>,
    deployment_id: Seq<char>,
) -> Seq<char> {
    deployments_url(account_id, project_name) + "/"@ + deployment_id + "/history/logs"@
}

impl Cloudflare {
    /// The API token.
    pub closed spec fn api_key_text(&self) -> Seq<char> {
        self.api_key@
    }

    /// The account id.
    pub closed spec fn account(&self) -> Seq<char> {
        self.account_id@
    }

    /// The project name.
    pub closed spec fn project(&self) -> Seq<char> {
        self.project_name@
    }

    pub fn new(api_key: String, account_id: String, project_name: String) -> (c: Cloudflare)
        ensures
            c.api_key_text() == api_key@,
            c.account() == account_id@,
            c.project() == project_name@,
    {
        Cloudflare { api_key, account_id, project_name }
    }

    fn deployments_url(&self) -> (url: String)
        ensures
            url@ == deployments_url(self.account(), self.project()),
    {
        let mut url = String::from_str("https://api.cloudflare.com/client/v4/accounts/");
        url.append(self.account_id.as_str());
        url.append("/pages/projects/");
        url.append(self.project_name.as_str());
        url.append("/deployments");
        url
    }

    /// The request that starts a deployment of the project, of `branch`
    /// when one is given.
    pub fn create_deployment_request(&self, branch: Option<String>) -> (req: ApiRequest)
        ensures
            req.method == HttpMethod::Post,
            req.url@ == deployments_url(self.account(), self.project()),
            req.bearer_token@ == self.api_key_text(),
            req.branch == branch,
    {
        ApiRequest {
            method: HttpMethod::Post,
            url: self.deployments_url(),
            bearer_token: self.api_key.clone(),
            branch,
        }
    }

    /// The request that fetches the logs of deployment `deployment_id`.
    pub fn get_logs_request(&self, deployment_id: &str) -> (req: ApiRequest)
        ensures
            req.method == HttpMethod::Get,
            req.url@ == logs_url(self.account(), self.project(), deployment_id@),
            req.bearer_token@ == self.api_key_text(),
            req.branch is None,
    {
        let mut url = self.deployments_url();
        url.append("/");
        url.append(deployment_id);
        url.append("/history/logs");
        ApiRequest { method: HttpMethod::Get, url, bearer_token: self.api_key.clone(), branch: None }
    }
}

/// One error that the API reported.
pub struct CfError {
    pub code: u64,
    pub message: String,
}

/// The errors that the API reported with a reply.
pub struct CfErrors(pub Vec<CfError>);

/// How one error is written out: "Code <code>: <message>" and a line break.
pub open spec fn cf_error_line(e: CfError) -> Seq<char> {
    "Code "@ + decimal(e.code as nat) + ": "@ + e.message@ + "\n"@
}

/// How a list of errors is written out: one line per error, in order.
pub open spec fn cf_errors_text(errors: Seq<CfError>) -> Seq<char>
    decreases errors.len(),
{
    if errors.len() == 0 {
        Seq::empty()
    } else {
        cf_errors_text(errors.drop_last()) + cf_error_line(errors.last())
    }
}

/// Every error adds its own line after those before it: "Code ", the code
/// in decimal, ": ", the message and a line break.
pub proof fn lemma_cf_errors_text_push(errors: Seq<CfError>, e: CfError)
    ensures
        cf_errors_text(errors.push(e)) == cf_errors_text(errors) + "Code "@ + decimal(e.code as nat)
            + ": "@ + e.message@ + "\n"@,
{
    assert(errors.push(e).drop_last() =~= errors);
    assert(cf_errors_text(errors) + "Code "@ + decimal(e.code as nat) + ": "@ + e.message@ + "\n"@
        =~= cf_errors_text(errors) + cf_error_line(e));
}

/// No errors, no text; and the text of two runs of errors is the text of
/// the first followed by the text of the second.
pub proof fn lemma_cf_errors_text_concat(a: Seq<CfError>, b: Seq<CfError>)
    ensures
        cf_errors_text(Seq::<CfError>::empty()) == Seq::<char>::empty(),
        cf_errors_text(a + b) == cf_errors_text(a) + cf_errors_text(b),
    decreases b.len(),
{
    if b.len() == 0 {
        assert(a + b =~= a);
        assert(cf_errors_text(a) + cf_errors_text(b) =~= cf_errors_text(a));
    } else {
        lemma_cf_errors_text_concat(a, b.drop_last());
        assert((a + b).drop_last() =~= a + b.drop_last());
        assert((a + b).last() == b.last());
        assert(cf_errors_text(a + b) =~= cf_errors_text(a) + cf_errors_text(b));
    }
}

impl CfErrors {
    /// The errors written out, one line each.
    pub fn to_string(&self) -> (s: String)
        ensures
            s@ == cf_errors_text(self.0@),
    {
        let mut s = String::new();
        let mut i: usize = 0;
        while i < self.0.len()
            invariant
                i <= self.0@.len(),
                s@ == cf_errors_text(self.0@.take(i as int)),
            decreases self.0@.len() - i,
        {
            let e = &self.0[i];
            s.append("Code ");
            push_decimal(&mut s, e.code);
            s.append(": ");
            s.append(e.message.as_str());
            s.append("\n");
            proof {
                let t = self.0@.take(i + 1);
                assert(t.drop_last() =~= self.0@.take(i as int));
                assert(t.last() == self.0@[i as int]);
            }
            i = i + 1;
        }
        proof {
            assert(self.0@.take(self.0@.len() as int) =~= self.0@);
        }
        s
    }
}

/// The reply to a deployment request.
pub struct CreateDeployment {
    pub success: bool,
    pub errors: CfErrors,
    pub result: DeploymentResult,
}

/// The deployment that a request started.
pub struct DeploymentResult {
    pub id: String,
    pub url: String,
}

/// The reply to a request for the logs of a deployment.
pub struct Logs {
    pub success: bool,
    pub errors: CfErrors,
    pub result: LogsResult,
}

/// The log lines of a deployment.
pub struct LogsResult {
    pub data: Vec<LogsResultData>,
}

/// One log line and when it was written.
pub struct LogsResultData {
    pub line: String,
    pub ts: String,
}

/// How one log line is written out: its time stamp, two spaces, the line
/// and a line break.
pub open spec fn log_line(d: LogsResultData) -> Seq<char> {
    d.ts@ + "  "@ + d.line@ + "\n"@
}

/// How the log lines are written out, one after another.
pub open spec fn logs_text(data: Seq<LogsResultData>) -> Seq<char>
    decreases data.len(),
{
    if data.len() == 0 {
        Seq::empty()
    } else {
        logs_text(data.drop_last()) + log_line(data.last())
    }
}

/// Every log entry adds its own line after those before it: the time stamp,
/// two spaces, the line and a line break.
pub proof fn lemma_logs_text_push(data: Seq<LogsResultData>, d: LogsResultData)
    ensures
        logs_text(data.push(d)) == logs_text(data) + d.ts@ + "  "@ + d.line@ + "\n"@,
{
    assert(data.push(d).drop_last() =~= data);
    assert(d.ts@ + "  "@ + d.line@ + "\n"@ =~= log_line(d));
    assert(logs_text(data) + d.ts@ + "  "@ + d.line@ + "\n"@ =~= logs_text(data) + log_line(d));
}

/// No entries, no text; and the text of two runs of entries is the text of
/// the first followed by the text of the second.
pub proof fn lemma_logs_text_concat(a: Seq<LogsResultData>, b: Seq<LogsResultData>)
    ensures
        logs_text(Seq::<LogsResultData>::empty()) == Seq::<char>::empty(),
        logs_text(a + b) == logs_text(a) + logs_text(b),
    decreases b.len(),
{
    if b.len() == 0 {
        assert(a + b =~= a);
        assert(logs_text(a) + logs_text(b) =~= logs_text(a));
    } else {
        lemma_logs_text_concat(a, b.drop_last());
        assert((a + b).drop_last() =~= a + b.drop_last());
        assert((a + b).last() == b.last());
        assert(logs_text(a + b) =~= logs_text(a) + logs_text(b));
    }
}

impl LogsResult {
    /// The log lines written out, one line each.
    pub fn to_string(&self) -> (s: String)
        ensures
            s@ == logs_text(self.data@),
    {
        let mut s = String::new();
        let mut i: usize = 0;
        while i < self.data.len()
            invariant
                i <= self.data@.len(),
                s@ == logs_text(self.data@.take(i as int)),
            decreases self.data@.len() - i,
        {
            let d = &self.data[i];
            s.append(d.ts.as_str());
            s.append("  ");
            s.append(d.line.as_str());
            s.append("\n");
            proof {
                let t = self.data@.take(i + 1);
                assert(t.drop_last() =~= self.data@.take(i as int));
                assert(t.last() == self.data@[i as int]);
            }
            i = i + 1;
        }
        proof {
            assert(self.data@.take(self.data@.len() as int) =~= self.data@);
        }
        s
    }
}

} // verus!
