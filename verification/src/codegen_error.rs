//! What can go wrong while command sources are generated.
use vstd::prelude::*;
use vstd::string::*;

verus! {

/// An error in generating sources. `S` is how a text is held: a `String` in a value, a
/// sequence of characters in a contract.
#[derive(Debug)]
pub enum CodegenError<S = String> {
    /// A name that has to become an identifier is none.
    NotAnIdentifier { name: S },
    /// A required filter has a type without a filter kind.
    UnmappedFilter { param: S },
    /// What happened in one verb of a resource.
    InVerb { resource: S, verb: S, operation: S, cause: Box<CodegenError<S>> },
    /// An operation uses an HTTP verb that has no method.
    UnknownHttpVerb { operation: S, http_verb: S },
    /// A path does not have the operation's path parameter in it.
    NoPathPlaceholder { operation: S, path: S, param: S },
    /// The operation of a verb was not extracted.
    NotExtracted { operation: S, resource: S, verb: S },
    /// A verb other than `list` has query parameters; `params` is the list of them.
    QueryOnVerb { resource: S, verb: S, operation: S, params: S },
    /// A verb with a request body has no request body schema.
    NoRequestBody { resource: S, verb: S, operation: S },
    /// A request body schema has no template.
    NoSkeleton { body_type: S },
    /// A request body schema does not name a type; `reason` is what the parser says.
    InvalidTypeName { body_type: S, reason: S },
    /// A request body schema names a type with syntax that cannot be printed.
    UnprintableType { body_type: S },
    /// A resource with an order has no order template.
    NoOrderSkeleton { resource: S },
    /// What happened in one resource.
    InResource { group: S, resource: S, cause: Box<CodegenError<S>> },
    /// The source of a resource is no Rust; `tokens` are those of the source, `reason` is
    /// what the parser says.
    InvalidResourceSource { group: S, resource: S, tokens: S, reason: S },
    /// The source of `cli.rs` is no Rust.
    InvalidCliSource { tokens: S, reason: S },
}

/// The words of each error that do not depend on its texts.
pub const UNMAPPED_FILTER: &'static str = "` has a type this generator can't map to a --filter value \
    (not a string/bool/i64 shape) -- either extend classify_param() \
    in schema.rs, or drop this method from commands.toml";

pub const QUERY_ON_VERB: &'static str = " -- this generator only supports query filters on `list`, extend \
    codegen.rs if a non-list verb genuinely needs one";

pub const NO_REQUEST_BODY: &'static str = "): no request body schema \
    to build a --generate-skeleton template from";

pub const UNKNOWN_HTTP_VERB: &'static str = "`, which this generator doesn't know how to map";

impl CodegenError<String> {
    /// The error with its texts as sequences of characters.
    pub open spec fn model(self) -> CodegenError<Seq<char>>
        decreases self,
    {
        match self {
            CodegenError::NotAnIdentifier { name } => CodegenError::NotAnIdentifier { name: name@ },
            CodegenError::UnmappedFilter { param } => CodegenError::UnmappedFilter { param: param@ },
            CodegenError::InVerb { resource, verb, operation, cause } => CodegenError::InVerb {
                resource: resource@,
                verb: verb@,
                operation: operation@,
                cause: Box::new(cause.model()),
            },
            CodegenError::UnknownHttpVerb { operation, http_verb } => {
                CodegenError::UnknownHttpVerb { operation: operation@, http_verb: http_verb@ }
            },
            CodegenError::NoPathPlaceholder { operation, path, param } => {
                CodegenError::NoPathPlaceholder {
                    operation: operation@,
                    path: path@,
                    param: param@,
                }
            },
            CodegenError::NotExtracted { operation, resource, verb } => {
                CodegenError::NotExtracted {
                    operation: operation@,
                    resource: resource@,
                    verb: verb@,
                }
            },
            CodegenError::QueryOnVerb { resource, verb, operation, params } => {
                CodegenError::QueryOnVerb {
                    resource: resource@,
                    verb: verb@,
                    operation: operation@,
                    params: params@,
                }
            },
            CodegenError::NoRequestBody { resource, verb, operation } => {
                CodegenError::NoRequestBody {
                    resource: resource@,
                    verb: verb@,
                    operation: operation@,
                }
            },
            CodegenError::NoSkeleton { body_type } => {
                CodegenError::NoSkeleton { body_type: body_type@ }
            },
            CodegenError::InvalidTypeName { body_type, reason } => {
                CodegenError::InvalidTypeName { body_type: body_type@, reason: reason@ }
            },
            CodegenError::UnprintableType { body_type } => {
                CodegenError::UnprintableType { body_type: body_type@ }
            },
            CodegenError::NoOrderSkeleton { resource } => {
                CodegenError::NoOrderSkeleton { resource: resource@ }
            },
            CodegenError::InResource { group, resource, cause } => CodegenError::InResource {
                group: group@,
                resource: resource@,
                cause: Box::new(cause.model()),
            },
            CodegenError::InvalidResourceSource { group, resource, tokens, reason } => {
                CodegenError::InvalidResourceSource {
                    group: group@,
                    resource: resource@,
                    tokens: tokens@,
                    reason: reason@,
                }
            },
            CodegenError::InvalidCliSource { tokens, reason } => {
                CodegenError::InvalidCliSource { tokens: tokens@, reason: reason@ }
            },
        }
    }

    /// The error in words; what caused it has words of its own.
    pub fn message(&self) -> (message: String)
        ensures
            message@ == codegen_error_text(self.model()),
    {
        match self {
            CodegenError::NotAnIdentifier { name } => {
                "`".to_string().concat(name.as_str()).concat("` is not a valid identifier")
            },
            CodegenError::UnmappedFilter { param } => {
                "parameter `".to_string().concat(param.as_str()).concat(UNMAPPED_FILTER)
            },
            CodegenError::InVerb { resource, verb, operation, .. } => {
                "in resource `".to_string().concat(resource.as_str()).concat("`, verb `").concat(
                    verb.as_str(),
                ).concat("` (").concat(operation.as_str()).concat(")")
            },
            CodegenError::UnknownHttpVerb { operation, http_verb } => {
                "operation `".to_string().concat(operation.as_str()).concat(
                    "` uses HTTP verb `",
                ).concat(http_verb.as_str()).concat(UNKNOWN_HTTP_VERB)
            },
            CodegenError::NoPathPlaceholder { operation, path, param } => {
                "operation `".to_string().concat(operation.as_str()).concat("`: path `").concat(
                    path.as_str(),
                ).concat("` doesn't contain its own path param `{").concat(param.as_str()).concat(
                    "}`",
                )
            },
            CodegenError::NotExtracted { operation, resource, verb } => {
                "internal error: operation `".to_string().concat(operation.as_str()).concat(
                    "` (resource `",
                ).concat(resource.as_str()).concat("`, verb `").concat(verb.as_str()).concat(
                    "`) was not extracted",
                )
            },
            CodegenError::QueryOnVerb { resource, verb, operation, params } => {
                "resource `".to_string().concat(resource.as_str()).concat("`, verb `").concat(
                    verb.as_str(),
                ).concat("` (").concat(operation.as_str()).concat(
                    ") has query parameter(s) ",
                ).concat(params.as_str()).concat(QUERY_ON_VERB)
            },
            CodegenError::NoRequestBody { resource, verb, operation } => {
                "resource `".to_string().concat(resource.as_str()).concat("`, verb `").concat(
                    verb.as_str(),
                ).concat("` (").concat(operation.as_str()).concat(NO_REQUEST_BODY)
            },
            CodegenError::NoSkeleton { body_type } => {
                "internal error: no skeleton built for request type `".to_string().concat(
                    body_type.as_str(),
                ).concat("`")
            },
            CodegenError::InvalidTypeName { body_type, .. } => {
                "invalid generated type name `".to_string().concat(body_type.as_str()).concat("`")
            },
            CodegenError::UnprintableType { body_type } => {
                "generated type name `".to_string().concat(body_type.as_str()).concat(
                    "` has syntax that cannot be printed",
                )
            },
            CodegenError::NoOrderSkeleton { resource } => {
                "internal error: no order skeleton built for resource `".to_string().concat(
                    resource.as_str(),
                ).concat("`")
            },
            CodegenError::InResource { group, resource, .. } => {
                "generating group `".to_string().concat(group.as_str()).concat(
                    "` resource `",
                ).concat(resource.as_str()).concat("`")
            },
            CodegenError::InvalidResourceSource { group, resource, tokens, .. } => {
                "generated code for group `".to_string().concat(group.as_str()).concat(
                    "` resource `",
                ).concat(resource.as_str()).concat("` is not valid Rust:\n").concat(
                    tokens.as_str(),
                )
            },
            CodegenError::InvalidCliSource { tokens, .. } => {
                "generated cli.rs is not valid Rust:\n".to_string().concat(tokens.as_str())
            },
        }
    }
}

/// A generation error in words.
pub open spec fn codegen_error_text(error: CodegenError<Seq<char>>) -> Seq<char> {
    match error {
        CodegenError::NotAnIdentifier { name } => "`"@ + name + "` is not a valid identifier"@,
        CodegenError::UnmappedFilter { param } => "parameter `"@ + param + UNMAPPED_FILTER@,
        CodegenError::InVerb { resource, verb, operation, .. } => {
            "in resource `"@ + resource + "`, verb `"@ + verb + "` ("@ + operation + ")"@
        },
        CodegenError::UnknownHttpVerb { operation, http_verb } => {
            "operation `"@ + operation + "` uses HTTP verb `"@ + http_verb + UNKNOWN_HTTP_VERB@
        },
        CodegenError::NoPathPlaceholder { operation, path, param } => {
            "operation `"@ + operation + "`: path `"@ + path
                + "` doesn't contain its own path param `{"@ + param + "}`"@
        },
        CodegenError::NotExtracted { operation, resource, verb } => {
            "internal error: operation `"@ + operation + "` (resource `"@ + resource + "`, verb `"@
                + verb + "`) was not extracted"@
        },
        CodegenError::QueryOnVerb { resource, verb, operation, params } => {
            "resource `"@ + resource + "`, verb `"@ + verb + "` ("@ + operation
                + ") has query parameter(s) "@ + params + QUERY_ON_VERB@
        },
        CodegenError::NoRequestBody { resource, verb, operation } => {
            "resource `"@ + resource + "`, verb `"@ + verb + "` ("@ + operation + NO_REQUEST_BODY@
        },
        CodegenError::NoSkeleton { body_type } => {
            "internal error: no skeleton built for request type `"@ + body_type + "`"@
        },
        CodegenError::InvalidTypeName { body_type, .. } => {
            "invalid generated type name `"@ + body_type + "`"@
        },
        CodegenError::UnprintableType { body_type } => {
            "generated type name `"@ + body_type + "` has syntax that cannot be printed"@
        },
        CodegenError::NoOrderSkeleton { resource } => {
            "internal error: no order skeleton built for resource `"@ + resource + "`"@
        },
        CodegenError::InResource { group, resource, .. } => {
            "generating group `"@ + group + "` resource `"@ + resource + "`"@
        },
        CodegenError::InvalidResourceSource { group, resource, tokens, .. } => {
            "generated code for group `"@ + group + "` resource `"@ + resource
                + "` is not valid Rust:\n"@ + tokens
        },
        CodegenError::InvalidCliSource { tokens, .. } => {
            "generated cli.rs is not valid Rust:\n"@ + tokens
        },
    }
}

} // verus!
