//! `/deploy [branch]`: starts a deployment of the Pages project and answers
//! with an embed that says whether it started.

use vstd::prelude::*;
use crate::commands::{
    CommandOption, CommandSpec, Embed, EmbedField, OptionKind, OptionSpec, first_text,
    first_text_option, is_field, is_string_option,
};
use crate::config::cloudflare::{ApiRequest, Cloudflare, CreateDeployment, cf_errors_text, deployments_url, HttpMethod};

verus! {

pub const NAME: &'static str = "deploy";

pub const DESCRIPTION: &'static str = "Deploy frontend to Cloudflare";

/// The colour of the embed of a deployment that started.
pub const BLUE: u32 = 0x3498DB;

/// The colour of the embed of a deployment that did not start.
pub const RED: u32 = 0xE74C3C;

/// `c` declares `/deploy`: one optional string option, the branch.
pub open spec fn declares(c: CommandSpec) -> bool {
    &&& c.name@ == NAME@
    &&& c.description@ == DESCRIPTION@
    &&& c.options@.len() == 1
    &&& is_string_option(c.options@[0], "branch"@, "Branch"@, false)
}

/// The declaration of `/deploy`.
pub fn register() -> (c: CommandSpec)
    ensures
        declares(c),
{
    let mut options = Vec::new();
    options.push(
        OptionSpec {
            kind: OptionKind::String,
            name: String::from_str("branch"),
            description: String::from_str("Branch"),
            required: false,
        },
    );
    CommandSpec { name: String::from_str(NAME), description: String::from_str(DESCRIPTION), options }
}

/// The request that an interaction for `/deploy` sends: a deployment of the
/// branch that its first option names, if it names one.
pub fn deployment_request(cloudflare: &Cloudflare, options: &Vec<CommandOption>) -> (req: ApiRequest)
    ensures
        req.method == HttpMethod::Post,
        req.url@ == deployments_url(cloudflare.account(), cloudflare.project()),
        req.bearer_token@ == cloudflare.api_key_text(),
        match req.branch {
            Some(b) => first_text(options@) == Some(b@),
            None => first_text(options@) is None,
        },
{
    cloudflare.create_deployment_request(first_text_option(options))
}

/// `e` is the embed that answers `/deploy` once Cloudflare replied `resp`:
/// titled by whether the deployment started, linking to the deployment,
/// blue or red, with the deployment's id and, when it did not start, the
/// errors that Cloudflare reported.
pub open spec fn is_deployment_embed(e: Embed, resp: CreateDeployment) -> bool {
    &&& e.url@ == resp.result.url@
    &&& resp.success ==> {
        &&& e.title@ == "Deployment request sent!"@
        &&& e.color == BLUE
        &&& e.fields@.len() == 1
        &&& is_field(e.fields@[0], "ID"@, resp.result.id@, false)
    }
    &&& !resp.success ==> {
        &&& e.title@ == "Deployment request failed!"@
        &&& e.color == RED
        &&& e.fields@.len() == 2
        &&& is_field(e.fields@[0], "ID"@, resp.result.id@, false)
        &&& is_field(e.fields@[1], "Error"@, cf_errors_text(resp.errors.0@), false)
    }
}

/// The embed that answers `/deploy`, once Cloudflare replied `resp`.
pub fn deployment_embed(resp: &CreateDeployment) -> (e: Embed)
    ensures
        is_deployment_embed(e, *resp),
{
    let mut fields = Vec::new();
    fields.push(EmbedField { name: String::from_str("ID"), value: resp.result.id.clone(), inline: false });
    if resp.success {
        Embed {
            title: String::from_str("Deployment request sent!"),
            url: resp.result.url.clone(),
            color: BLUE,
            fields,
        }
    } else {
        fields.push(
            EmbedField { name: String::from_str("Error"), value: resp.errors.to_string(), inline: false },
        );
        Embed {
            title: String::from_str("Deployment request failed!"),
            url: resp.result.url.clone(),
            color: RED,
            fields,
        }
    }
}

} // verus!
