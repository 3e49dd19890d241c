//! `/logs <deployment_id>`: fetches the logs of a deployment and answers
//! with them as a file, or with the errors that Cloudflare reported.

use vstd::prelude::*;
use crate::commands::{
    CommandOption, CommandSpec, HandleError, OptionKind, OptionSpec, Reply, first_text,
    first_text_option, is_string_option, is_text,
};
use crate::config::cloudflare::{cf_errors_text, logs_text, Logs};

verus! {

pub const NAME: &'static str = "logs";

pub const DESCRIPTION: &'static str = "Fetch Cloudflare logs";

/// The name of the option that names the deployment.
pub const DEPLOYMENT_ID: &'static str = "deployment_id";

/// `c` declares `/logs`: one required string option, the deployment id.
pub open spec fn declares(c: CommandSpec) -> bool {
    &&& c.name@ == NAME@
    &&& c.description@ == DESCRIPTION@
    &&& c.options@.len() == 1
    &&& is_string_option(c.options@[0], DEPLOYMENT_ID@, "Deployment ID"@, true)
}

/// The declaration of `/logs`.
pub fn register() -> (c: CommandSpec)
    ensures
        declares(c),
{
    let mut options = Vec::new();
    options.push(
        OptionSpec {
            kind: OptionKind::String,
            name: String::from_str(DEPLOYMENT_ID),
            description: String::from_str("Deployment ID"),
            required: true,
        },
    );
    CommandSpec { name: String::from_str(NAME), description: String::from_str(DESCRIPTION), options }
}

/// The deployment whose logs an interaction for `/logs` asks for: the
/// string value of its first option; an error naming the option when there
/// is none.
pub fn deployment_id(options: &Vec<CommandOption>) -> (res: Result<String, HandleError>)
    ensures
        match res {
            Ok(id) => first_text(options@) == Some(id@),
            Err(e) => first_text(options@) is None && (e matches HandleError::OptionNF(name) && name@
                == DEPLOYMENT_ID@),
        },
{
    match first_text_option(options) {
        Some(id) => Ok(id),
        None => Err(HandleError::OptionNF(String::from_str(DEPLOYMENT_ID))),
    }
}

/// The answer to `/logs` for deployment `deployment_id`, once Cloudflare
/// replied `resp`: the log lines as the file "<deployment_id>.log", or the
/// errors that Cloudflare reported.
pub fn reply(deployment_id: &str, resp: &Logs) -> (r: Reply)
    ensures
        resp.success ==> (r matches Reply::File { filename, data } && filename@ == deployment_id@
            + ".log"@ && data@ == logs_text(resp.result.data@)),
        !resp.success ==> is_text(r, "Failed to get logs:\n"@ + cf_errors_text(resp.errors.0@)),
{
    if resp.success {
        let mut filename = String::from_str(deployment_id);
        filename.append(".log");
        Reply::File { filename, data: resp.result.to_string() }
    } else {
        let mut text = String::from_str("Failed to get logs:\n");
        let errors = resp.errors.to_string();
        text.append(errors.as_str());
        Reply::Text(text)
    }
}

} // verus!
