//! What can go wrong while an OpenAPI schema is read.
use crate::text;
use crate::text::debug_quoted;
use vstd::prelude::*;
use vstd::string::*;

verus! {

/// An error in reading an OpenAPI schema. `S` is how a text is held: a `String` in a
/// value, a sequence of characters in a contract.
#[derive(Debug)]
pub enum SchemaError<S = String> {
    /// A parameter reference that does not point into `components.parameters`.
    UnsupportedParameterRef { reference: S },
    /// A parameter reference to a name that does not exist.
    UnknownParameter { reference: S },
    /// No operation has this id.
    OperationNotFound { operation_id: S },
    /// An operation has a second path parameter.
    MultiplePathParams { operation_id: S },
    /// Extracting a discovered action failed.
    DiscoveringAction { name: S, path: S, cause: Box<SchemaError<S>> },
    /// The schema whose values are wanted does not exist.
    EnumNotFound { schema: S },
    /// The schema whose values are wanted is no enumeration.
    NoEnumValues { schema: S },
    /// A request-body schema does not exist.
    SchemaNotFound { schema: S },
    /// The attributes schema of an offering type does not exist.
    NoAttributesSchema { schema: S, offering_type: Option<S>, cause: Box<SchemaError<S>> },
    /// The order envelope has no object for a template.
    OrderNotAnObject,
}

impl SchemaError<String> {
    /// The error with its texts as sequences of characters.
    pub open spec fn model(self) -> SchemaError<Seq<char>>
        decreases self,
    {
        match self {
            SchemaError::UnsupportedParameterRef { reference } => {
                SchemaError::UnsupportedParameterRef { reference: reference@ }
            },
            SchemaError::UnknownParameter { reference } => {
                SchemaError::UnknownParameter { reference: reference@ }
            },
            SchemaError::OperationNotFound { operation_id } => {
                SchemaError::OperationNotFound { operation_id: operation_id@ }
            },
            SchemaError::MultiplePathParams { operation_id } => {
                SchemaError::MultiplePathParams { operation_id: operation_id@ }
            },
            SchemaError::DiscoveringAction { name, path, cause } => {
                SchemaError::DiscoveringAction {
                    name: name@,
                    path: path@,
                    cause: Box::new(cause.model()),
                }
            },
            SchemaError::EnumNotFound { schema } => SchemaError::EnumNotFound { schema: schema@ },
            SchemaError::NoEnumValues { schema } => SchemaError::NoEnumValues { schema: schema@ },
            SchemaError::SchemaNotFound { schema } => {
                SchemaError::SchemaNotFound { schema: schema@ }
            },
            SchemaError::NoAttributesSchema { schema, offering_type, cause } => {
                SchemaError::NoAttributesSchema {
                    schema: schema@,
                    offering_type: text::opt_text(offering_type),
                    cause: Box::new(cause.model()),
                }
            },
            SchemaError::OrderNotAnObject => SchemaError::OrderNotAnObject,
        }
    }

    /// The error in words; what caused it has words of its own.
    pub fn message(&self) -> (message: String)
        ensures
            message@ == schema_error_text(self.model()),
    {
        match self {
            SchemaError::UnsupportedParameterRef { reference } => {
                "unsupported parameter $ref shape: `".to_string().concat(
                    reference.as_str(),
                ).concat("`")
            },
            SchemaError::UnknownParameter { reference } => {
                "$ref `".to_string().concat(reference.as_str()).concat(
                    "` does not resolve to a known parameter",
                )
            },
            SchemaError::OperationNotFound { operation_id } => {
                "operationId `".to_string().concat(operation_id.as_str()).concat(
                    "` not found in OpenAPI schema",
                )
            },
            SchemaError::MultiplePathParams { operation_id } => {
                "operation `".to_string().concat(operation_id.as_str()).concat(
                    MULTIPLE_PATH_PARAMS,
                )
            },
            SchemaError::DiscoveringAction { name, path, .. } => {
                "discovering action `".to_string().concat(name.as_str()).concat("` at `").concat(
                    path.as_str(),
                ).concat("`")
            },
            SchemaError::EnumNotFound { schema } => {
                "schema `".to_string().concat(schema.as_str()).concat(
                    "` not found in OpenAPI schema",
                )
            },
            SchemaError::NoEnumValues { schema } => {
                "schema `".to_string().concat(schema.as_str()).concat("` has no `enum` values")
            },
            SchemaError::SchemaNotFound { schema } => {
                "schema `".to_string().concat(schema.as_str()).concat("` not found")
            },
            SchemaError::NoAttributesSchema { schema, offering_type, .. } => {
                "no attributes schema `".to_string().concat(schema.as_str()).concat(
                    "` for offering type `",
                ).concat(debug_option(offering_type).as_str()).concat("`")
            },
            SchemaError::OrderNotAnObject => {
                "OrderCreateRequest skeleton is not a JSON object".to_string()
            },
        }
    }
}

/// How a second path parameter is reported.
pub const MULTIPLE_PATH_PARAMS: &'static str = "` has more than one `in: path` parameter -- \
    this generator only supports a single path parameter per operation";

/// An optional text in the `Debug` format.
pub open spec fn debug_option_text(value: Option<Seq<char>>) -> Seq<char> {
    match value {
        Some(s) => "Some("@ + text::debug_format(s) + ")"@,
        None => "None"@,
    }
}

fn debug_option(value: &Option<String>) -> (shown: String)
    ensures
        shown@ == debug_option_text(text::opt_text(*value)),
{
    match value {
        Some(s) => "Some(".to_string().concat(debug_quoted(s.as_str()).as_str()).concat(")"),
        None => "None".to_string(),
    }
}

/// A schema error in words.
pub open spec fn schema_error_text(error: SchemaError<Seq<char>>) -> Seq<char> {
    match error {
        SchemaError::UnsupportedParameterRef { reference } => {
            "unsupported parameter $ref shape: `"@ + reference + "`"@
        },
        SchemaError::UnknownParameter { reference } => {
            "$ref `"@ + reference + "` does not resolve to a known parameter"@
        },
        SchemaError::OperationNotFound { operation_id } => {
            "operationId `"@ + operation_id + "` not found in OpenAPI schema"@
        },
        SchemaError::MultiplePathParams { operation_id } => {
            "operation `"@ + operation_id + MULTIPLE_PATH_PARAMS@
        },
        SchemaError::DiscoveringAction { name, path, .. } => {
            "discovering action `"@ + name + "` at `"@ + path + "`"@
        },
        SchemaError::EnumNotFound { schema } => {
            "schema `"@ + schema + "` not found in OpenAPI schema"@
        },
        SchemaError::NoEnumValues { schema } => {
            "schema `"@ + schema + "` has no `enum` values"@
        },
        SchemaError::SchemaNotFound { schema } => "schema `"@ + schema + "` not found"@,
        SchemaError::NoAttributesSchema { schema, offering_type, .. } => {
            "no attributes schema `"@ + schema + "` for offering type `"@ + debug_option_text(
                offering_type,
            ) + "`"@
        },
        SchemaError::OrderNotAnObject => "OrderCreateRequest skeleton is not a JSON object"@,
    }
}

/// The operation of a manifest verb was not extracted.
#[derive(Debug)]
pub struct NotExtracted<S = String> {
    pub operation_id: S,
    pub group: S,
    pub resource: S,
    pub verb: S,
}

impl NotExtracted<String> {
    pub open spec fn model(self) -> NotExtracted<Seq<char>> {
        NotExtracted {
            operation_id: self.operation_id@,
            group: self.group@,
            resource: self.resource@,
            verb: self.verb@,
        }
    }

    /// The error in words, behind the name of the step that needed the operation.
    pub fn message(&self, step: &str) -> (message: String)
        ensures
            message@ == not_extracted_text(self.model(), step@),
    {
        step.to_string().concat(": operation `").concat(self.operation_id.as_str()).concat(
            "` (group `",
        ).concat(self.group.as_str()).concat("`, resource `").concat(
            self.resource.as_str(),
        ).concat("`, verb `").concat(self.verb.as_str()).concat("`) not extracted")
    }
}

/// A missing operation in words.
pub open spec fn not_extracted_text(error: NotExtracted<Seq<char>>, step: Seq<char>) -> Seq<char> {
    step + ": operation `"@ + error.operation_id + "` (group `"@ + error.group + "`, resource `"@
        + error.resource + "`, verb `"@ + error.verb + "`) not extracted"@
}

} // verus!
