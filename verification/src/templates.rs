//! The fixed parts of the generated sources. What varies is put between them; the
//! layout is the formatter's.
use vstd::prelude::*;

verus! {

/// The `--filter` and `--jmespath` flags of `list`. The latter is not named `--query`:
/// several resources have a filter of that name.
pub const LIST_FILTER_FLAGS: &'static str = r##"
#[doc = r" Filter results server-side, KEY=VALUE (repeatable). See"]
#[doc = r" --help's error on an unknown key for the valid keys."]
#[arg(long = "filter", value_name = "KEY=VALUE")]
pub filter: Vec<String>,
#[doc = r" Reshape/narrow the already-fetched result with a JMESPath"]
#[doc = r" expression (https://jmespath.org), client-side -- e.g."]
#[doc = r" [].name or [?blocked==`true`]. Applied after fetching,"]
#[doc = r" before rendering in --format. (Named distinctly from"]
#[doc = r" --filter's own `query` key, several resources' own"]
#[doc = r" full-text search field.)"]
#[arg(long)]
pub jmespath: Option<String>,
"##;

/// The `--limit` flag of `list`, which exists on the client only.
pub const LIST_LIMIT_FLAG: &'static str = r##"
#[doc = r" Stop after this many items (across however many pages that"]
#[doc = r" takes), instead of fetching the complete result"]
#[arg(long)]
pub limit: Option<i64>,
"##;

/// The help text of `--fields`.
pub const FIELDS_HELP: &'static str =
    "Only fetch these fields from the server (comma-separated), instead of \
    the complete object -- avoids over-fetching. Table output always does \
    this already (using its own display columns); for json/toon/tsv, which \
    fetch the complete object by default, this narrows what they get too.";

/// The three ways to give a request body.
pub const BODY_FLAGS: &'static str = r##"
#[doc = r" Request body as inline JSON. Use --generate-skeleton for a"]
#[doc = r" template, or --request-file to read it from a file."]
#[arg(long)]
pub request: Option<String>,
#[doc = r" Read the request body from a JSON or YAML file (e.g. a"]
#[doc = r" filled-in --generate-skeleton template)."]
#[arg(long, value_name = "PATH")]
pub request_file: Option<std::path::PathBuf>,
#[doc = r" Print a fillable request-body template and exit, instead of"]
#[doc = r" sending a request (json or yaml; default json)."]
#[arg(long, value_enum, num_args = 0..=1, default_missing_value = "json", value_name = "FORMAT")]
pub generate_skeleton: Option<crate::request::SkeletonFormat>,
"##;

/// Behind the name of the group of flags of which exactly one is given.
pub const BODY_GROUP_TAIL: &'static str =
    ").required(true).args([\"request\", \"request_file\", \"generate_skeleton\"])))]\n";

/// The ambient `--project` scope of `list`: an explicit filter wins over it.
pub const PROJECT_SCOPE: &'static str = r##"
if let Some(project) = project {
    if !query_params.iter().any(|(k, _)| k == "project_uuid") {
        query_params.push(("project_uuid".to_string(), project.to_string()));
    }
}
"##;

pub const LIST_QUERY: &'static str = r##"
let mut query_params: Vec<(String, String)> = crate::filter::parse_filters(&args.filter, FILTER_SPEC)?;
"##;

/// From the fields to fetch up to the path of the streamed request.
pub const LIST_STREAM: &'static str = r##"
match &args.fields {
    Some(fields) => {
        for f in fields {
            query_params.push(("field".to_string(), f.clone()));
        }
    }
    None => {
        if matches!(format, crate::output::OutputFormat::Table) {
            for f in COLUMNS {
                query_params.push(("field".to_string(), (*f).to_string()));
            }
        }
    }
}
if matches!(format, crate::output::OutputFormat::Ndjson) && args.jmespath.is_none() {
    crate::pagination::fetch_all_streaming(
        base_url,
        token,
"##;

/// From the path of the streamed request up to the path of the other one.
pub const LIST_FETCH: &'static str = r##",
        &query_params,
        args.limit,
        |item| crate::output::print_ndjson_line(&item),
    )
    .await?;
} else {
    let result = crate::pagination::fetch_all(base_url, token, "##;

pub const LIST_PRINT: &'static str = r##", &query_params, args.limit).await?;
    let display_columns: Vec<&str> = match &args.fields {
        Some(fields) => fields.iter().map(String::as_str).collect(),
        None => COLUMNS.to_vec(),
    };
    let result: serde_json::Value = serde_json::Value::Array(result);
    let result = match &args.jmespath {
        Some(expr) => crate::query::apply(result, expr)?,
        None => result,
    };
    crate::output::print_result(&result, &display_columns, format)?;
}
"##;

pub const CALL: &'static str = "let result = crate::http::call_one(base_url, token, ";

pub const PRINT_RESULT: &'static str = "crate::output::print_result(&result, COLUMNS, format)?;\n";

/// From the template constant up to the type of the request body.
pub const BODY_LOAD: &'static str = r##", fmt)?;
    return Ok(());
}
let body = crate::request::load_body(args.request.as_deref(), args.request_file.as_deref())?;
serde_json::from_str::<"##;

pub const BODY_VALIDATE: &'static str = r##">(&body)
    .with_context(|| "the request body is not valid JSON for this resource's request schema".to_string())?;
"##;

pub const DRY_RUN: &'static str = "if dry_run { return crate::output::print_dry_run(";

/// From the HTTP method of `delete` up to the first use of the uuid.
pub const DELETE_REPORT: &'static str = r##", &path, None).await?;
match format {
    crate::output::OutputFormat::Json | crate::output::OutputFormat::Ndjson => {
        println!("{}", serde_json::json!({"deleted": true, "uuid": args."##;

pub const DELETE_TABLE: &'static str = r##"}));
    }
    crate::output::OutputFormat::Table => {
        println!("Deleted {}", args."##;

pub const DELETE_TSV: &'static str = r##");
    }
    crate::output::OutputFormat::Tsv => {
        println!("true\t{}", args."##;

pub const DELETE_TOON: &'static str = r##");
    }
    crate::output::OutputFormat::Toon => {
        println!(
            "{}",
            serde_toon::to_string(
                &serde_json::json!({"deleted": true, "uuid": args."##;

pub const DELETE_TAIL: &'static str = r##"}),
            )?
        );
    }
}
"##;

pub const PROVISION_ARM: &'static str = r##"::Provision(args) => {
    if let Some(fmt) = args.generate_skeleton {
        crate::request::print_skeleton(PROVISION_SKELETON, fmt)?;
        return Ok(());
    }
    let body = crate::request::load_body(args.request.as_deref(), args.request_file.as_deref())?;
    crate::order::provision(base_url, token, &body, project, dry_run, !args.no_wait, args.timeout, format).await?;
}
"##;

pub const TERMINATE_ARM: &'static str = r##"::Terminate(args) => {
    crate::order::terminate(base_url, token, &args.uuid, args.request.as_deref(), dry_run, !args.no_wait, args.timeout, format).await?;
}
"##;

pub const PROVISION_FIELDS: &'static str = r##" {
    #[doc = r" The marketplace order body as inline JSON. Use"]
    #[doc = r" --generate-skeleton for a template (offering/project plus"]
    #[doc = r" this resource's typed attributes), or --request-file to"]
    #[doc = r" read it from a file."]
    #[arg(long)]
    pub request: Option<String>,
    #[doc = r" Read the order body from a JSON or YAML file."]
    #[arg(long, value_name = "PATH")]
    pub request_file: Option<std::path::PathBuf>,
    #[doc = r" Print a fillable order template and exit, instead of"]
    #[doc = r" submitting (json or yaml; default json)."]
    #[arg(long, value_enum, num_args = 0..=1, default_missing_value = "json", value_name = "FORMAT")]
    pub generate_skeleton: Option<crate::request::SkeletonFormat>,
    #[doc = r" Submit the order and return immediately, without polling"]
    #[doc = r" it to completion."]
    #[arg(long)]
    pub no_wait: bool,
    #[doc = r" Seconds to wait for the order to reach a terminal state"]
    #[doc = r" before giving up (ignored with --no-wait)."]
    #[arg(long, default_value_t = 600)]
    pub timeout: u64,
}
"##;

pub const TERMINATE_FIELDS: &'static str = r##" {
    #[doc = r" The marketplace resource UUID (a resource's"]
    #[doc = r" `marketplace_resource_uuid` field, from get/list) -- not"]
    #[doc = r" the plugin resource's own UUID."]
    pub uuid: String,
    #[doc = r" Optional termination attributes as inline JSON, e.g."]
    #[doc = r#" '{"delete_volumes": true}'."#]
    #[arg(long)]
    pub request: Option<String>,
    #[doc = r" Submit the termination and return immediately, without"]
    #[doc = r" polling the order to completion."]
    #[arg(long)]
    pub no_wait: bool,
    #[doc = r" Seconds to wait for the termination order before giving"]
    #[doc = r" up (ignored with --no-wait)."]
    #[arg(long, default_value_t = 600)]
    pub timeout: u64,
}
"##;

pub const MODULE_HEAD: &'static str = r##"
#![doc = r" Generated by waldur-cli-generator from `commands.toml`. Do not edit by hand;"]
#![doc = r" see that repo's README for how to regenerate."]
#![allow(clippy::too_many_arguments)]
"##;

pub const RUN_HEAD: &'static str = r##"
pub async fn run(
    _client: &waldur_client::HttpClient,
    base_url: &str,
    token: Option<&str>,
"##;

pub const RUN_BODY: &'static str = r##",
    format: crate::output::OutputFormat,
) -> anyhow::Result<()> {
    match command {
"##;

pub const RUN_TAIL: &'static str = "} Ok(()) }\n";

pub const CLI_HEAD: &'static str = r##"
#![doc = r" Generated by waldur-cli-generator from `commands.toml`. Do not edit by hand."]
#[derive(clap::Subcommand, Debug)]
pub enum GroupCommand {
"##;

pub const RUN_RESOURCE: &'static str =
    "::run(client, base_url, token, project, dry_run, cmd, format).await }\n";

pub const DISPATCH_HEAD: &'static str = r##"
pub async fn dispatch(
    client: &waldur_client::HttpClient,
    base_url: &str,
    token: Option<&str>,
    project: Option<&str>,
    dry_run: bool,
    command: GroupCommand,
    format: crate::output::OutputFormat,
) -> anyhow::Result<()> {
    match command {
"##;

} // verus!
