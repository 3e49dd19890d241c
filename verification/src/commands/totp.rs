//! `/totp [app]`: answers with the current code of an application, or,
//! without an application, with the list of applications as a Markdown
//! table.

use vstd::prelude::*;
use crate::commands::{
    CommandOption, CommandSpec, HandleError, OptionKind, OptionSpec, Reply, first_text,
    first_text_option, is_string_option, is_text,
};
use crate::config::totp::{Totp, TotpError, TOTP_DIGITS, is_code, totp_code};

verus! {

pub const NAME: &'static str = "totp";

pub const DESCRIPTION: &'static str = "TOTP command";

/// The answer when no application has the name asked for.
pub const APP_NOT_FOUND: &'static str = "App not found!";

/// `c` declares `/totp`: one optional string option, the application.
pub open spec fn declares(c: CommandSpec) -> bool {
    &&& c.name@ == NAME@
    &&& c.description@ == DESCRIPTION@
    &&& c.options@.len() == 1
    &&& is_string_option(c.options@[0], "app"@, "App Name"@, false)
}

/// The declaration of `/totp`.
pub fn register() -> (c: CommandSpec)
    ensures
        declares(c),
{
    let mut options = Vec::new();
    options.push(
        OptionSpec {
            kind: OptionKind::String,
            name: String::from_str("app"),
            description: String::from_str("App Name"),
            required: false,
        },
    );
    CommandSpec { name: String::from_str(NAME), description: String::from_str(DESCRIPTION), options }
}

/// The text that `tabled` renders for a table whose rows (the first of them
/// the header) hold these cells, in the Markdown style.
pub uninterp spec fn markdown_table(rows: Seq<Seq<Seq<char>>>) -> Seq<char>;

/// `tabled::Table::from_iter(rows)` with `Style::markdown()`, written out
/// with `to_string`: the first row is the header.
#[verifier::external_body]
fn render_markdown_table(rows: Vec<Vec<String>>) -> (table: String)
    ensures
        table@ == markdown_table(rows.deep_view()),
{
    let mut table = tabled::Table::from_iter(rows);
    table.with(tabled::settings::Style::markdown());
    table.to_string()
}

/// The rows of the table of applications: the header "Name", "Description",
/// then the name and description of each application, in order.
pub open spec fn table_rows(totps: Seq<Totp>) -> Seq<Seq<Seq<char>>> {
    seq![seq!["Name"@, "Description"@]] + Seq::new(
        totps.len(),
        |i: int| seq![totps[i].app_name(), totps[i].description()],
    )
}

/// The table has its header, then one row per application, in order: the
/// application's name and description.
pub proof fn lemma_table_rows(totps: Seq<Totp>)
    ensures
        table_rows(totps).len() == totps.len() + 1,
        table_rows(totps)[0] == seq!["Name"@, "Description"@],
        forall|i: int| 0 <= i < totps.len() ==> #[trigger] table_rows(totps)[i + 1] == seq![
            totps[i].app_name(),
            totps[i].description(),
        ],
{
}

/// The list of applications: their table, in a Markdown code block.
pub open spec fn apps_list_text(totps: Seq<Totp>) -> Seq<char> {
    "```\n"@ + markdown_table(table_rows(totps)) + "\n```"@
}

/// The list of applications, as `/totp` without an application answers.
pub fn apps_list(totps: &Vec<Totp>) -> (text: String)
    ensures
        text@ == apps_list_text(totps@),
{
    let mut rows: Vec<Vec<String>> = Vec::new();
    let header = vec![String::from_str("Name"), String::from_str("Description")];
    rows.push(header);
    proof {
        assert(header.deep_view() =~= seq!["Name"@, "Description"@]);
        assert(rows.deep_view() =~= seq![header.deep_view()]);
        assert(table_rows(totps@).take(1) =~= seq![seq!["Name"@, "Description"@]]);
    }
    let mut i: usize = 0;
    while i < totps.len()
        invariant
            i <= totps@.len(),
            rows.deep_view() == table_rows(totps@).take(i + 1),
        decreases totps@.len() - i,
    {
        let t = &totps[i];
        let row = vec![t.name().clone(), t.desc().clone()];
        let ghost before = rows.deep_view();
        rows.push(row);
        proof {
            assert(row.deep_view() =~= seq![totps@[i as int].app_name(), totps@[i as int].description()]);
            assert(rows.deep_view() =~= before.push(row.deep_view()));
            assert(table_rows(totps@).take(i + 2) =~= table_rows(totps@).take(i + 1).push(
                table_rows(totps@)[i + 1],
            ));
        }
        i = i + 1;
    }
    proof {
        assert(table_rows(totps@).take(totps@.len() + 1 as int) =~= table_rows(totps@));
    }
    let table = render_markdown_table(rows);
    let mut text = String::from_str("```\n");
    text.append(table.as_str());
    text.append("\n```");
    text
}

/// What `/totp` answers about.
#[derive(Debug, PartialEq, Eq)]
pub enum Selection {
    /// The application at this position.
    App(usize),
    /// No application has the name asked for.
    NotFound,
    /// No application was asked for: the list of them.
    List,
}

/// `i` is the first position of an application named `name`.
pub open spec fn is_first_app(totps: Seq<Totp>, name: Seq<char>, i: int) -> bool {
    &&& 0 <= i < totps.len()
    &&& totps[i].app_name() == name
    &&& forall|j: int| 0 <= j < i ==> #[trigger] totps[j].app_name() != name
}

/// `s` is what an interaction for `/totp` with these options answers about.
pub open spec fn is_selection(s: Selection, totps: Seq<Totp>, options: Seq<CommandOption>) -> bool {
    match first_text(options) {
        None => s is List,
        Some(name) => match s {
            Selection::App(i) => is_first_app(totps, name, i as int),
            Selection::NotFound => forall|j: int| 0 <= j < totps.len() ==> #[trigger] totps[j].app_name() != name,
            Selection::List => false,
        },
    }
}

/// Decides what an interaction for `/totp` answers about: the first
/// application named by its first option, or the list of applications when
/// it names none.
pub fn select(totps: &Vec<Totp>, options: &Vec<CommandOption>) -> (s: Selection)
    ensures
        is_selection(s, totps@, options@),
{
    match first_text_option(options) {
        None => Selection::List,
        Some(name) => {
            let mut i: usize = 0;
            while i < totps.len()
                invariant
                    first_text(options@) == Some(name@),
                    i <= totps@.len(),
                    forall|j: int| 0 <= j < i ==> #[trigger] totps@[j].app_name() != name@,
                decreases totps@.len() - i,
            {
                if *totps[i].name() == name {
                    return Selection::App(i);
                }
                i = i + 1;
            }
            Selection::NotFound
        },
    }
}

/// The answer to an interaction for `/totp` with these options.
pub fn run(totps: &Vec<Totp>, options: &Vec<CommandOption>) -> (res: Result<Reply, HandleError>)
    ensures
        match first_text(options@) {
            None => (res matches Ok(r) && is_text(r, apps_list_text(totps@))),
            Some(name) => {
                &&& (forall|j: int| 0 <= j < totps@.len() ==> #[trigger] totps@[j].app_name() != name)
                    ==> (res matches Ok(r) && is_text(r, APP_NOT_FOUND@))
                &&& forall|i: int| is_first_app(totps@, name, i) ==> {
                    let secret = totps@[i].secret_bytes();
                    &&& res matches Ok(r) ==> (r matches Reply::Text(code) && is_code(code@, TOTP_DIGITS as nat)
                        && exists|t: u64| code@ == #[trigger] totp_code(secret, t))
                    &&& res matches Err(e) ==> (e matches HandleError::Totp(te) && (
                        (secret.len() < 16 && te == TotpError::SecretSize((secret.len() * 8) as usize))
                        || (secret.len() >= 16 && te is SystemTime)))
                    &&& secret.len() < 16 ==> res is Err
                }
            },
        },
{
    match select(totps, options) {
        Selection::List => Ok(Reply::Text(apps_list(totps))),
        Selection::NotFound => Ok(Reply::Text(String::from_str(APP_NOT_FOUND))),
        Selection::App(i) => match totps[i].generate_totp() {
            Ok(code) => Ok(Reply::Text(code)),
            Err(e) => Err(HandleError::Totp(e)),
        },
    }
}

} // verus!
