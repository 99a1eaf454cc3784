//! `Runtime` domain.
use vstd::prelude::*;

use crate::chrome::opt_view;
use crate::json::Json;
use crate::text::{chars_are, chars_of, str_from};

verus! {

/// Parameters of `Runtime.evaluate`.
#[derive(Debug)]
pub struct EvaluateParams {
    /// Expression to evaluate.
    pub expression: String,
    /// Return the value by value instead of as a remote object.
    pub return_by_value: Option<bool>,
    /// Await a returned promise.
    pub await_promise: Option<bool>,
    /// Evaluate in a specific execution context.
    pub context_id: Option<i64>,
    /// Treat the evaluation as user-initiated.
    pub user_gesture: Option<bool>,
}

/// Response of `Runtime.evaluate` and `Runtime.callFunctionOn`.
#[derive(Debug)]
pub struct EvaluateResult {
    /// The resulting remote object.
    pub result: RemoteObject,
    /// Populated when evaluation threw.
    pub exception_details: Option<ExceptionDetails>,
}

/// A CDP remote object reference.
#[derive(Debug)]
pub struct RemoteObject {
    /// JSON type name (`object`, `string`, `number`, ...).
    pub object_type: String,
    /// Subtype (`null`, `array`, `node`, ...).
    pub subtype: Option<String>,
    /// Class name for objects.
    pub class_name: Option<String>,
    /// The value when returned by value.
    pub value: Option<Json>,
    /// String description.
    pub description: Option<String>,
    /// Handle for further operations.
    pub object_id: Option<String>,
}

/// Details about a thrown exception.
#[derive(Debug)]
pub struct ExceptionDetails {
    /// The exception message.
    pub text: String,
    /// The thrown value.
    pub exception: Option<RemoteObject>,
    /// Line number.
    pub line_number: i64,
    /// Column number.
    pub column_number: i64,
}

/// Parameters of `Runtime.callFunctionOn`.
#[derive(Debug)]
pub struct CallFunctionOnParams {
    /// The function source, e.g. `function(a){ return a + 1; }`.
    pub function_declaration: String,
    /// The object to bind as `this`.
    pub object_id: Option<String>,
    /// Arguments passed to the function.
    pub arguments: Vec<CallArgument>,
    /// Return by value.
    pub return_by_value: Option<bool>,
    /// Await a returned promise.
    pub await_promise: Option<bool>,
    /// Treat as user-initiated.
    pub user_gesture: Option<bool>,
}

/// An argument to `Runtime.callFunctionOn`.
#[derive(Debug)]
pub struct CallArgument {
    /// The primitive value.
    pub value: Option<Json>,
    /// A remote object handle.
    pub object_id: Option<String>,
}

/// Auxiliary data attached to an execution context.
#[derive(Debug)]
pub struct ExecutionContextAuxData {
    /// The frame this context belongs to.
    pub frame_id: Option<String>,
    /// Whether this is the frame's default context.
    pub is_default: bool,
    /// The context type (`default`, `isolated`, ...).
    pub context_type: Option<String>,
}

/// An execution context.
#[derive(Debug)]
pub struct ExecutionContextDescription {
    /// The unique context id.
    pub id: i64,
    /// The context origin.
    pub origin: String,
    /// The context name.
    pub name: String,
    /// Auxiliary data.
    pub aux_data: Option<ExecutionContextAuxData>,
}

/// Parameters of the `Runtime.executionContextCreated` event.
#[derive(Debug)]
pub struct ExecutionContextCreatedParams {
    /// The created context.
    pub context: ExecutionContextDescription,
}

/// Parameters of the `Runtime.executionContextDestroyed` event.
#[derive(Debug)]
pub struct ExecutionContextDestroyedParams {
    /// The destroyed context id.
    pub execution_context_id: i64,
}


impl RemoteObject {
    /// Whether the result represents JavaScript `null` or `undefined`: a
    /// `null` subtype, the `undefined` type, or an object with neither a
    /// handle nor a value.
    pub fn is_nullish(&self) -> (r: bool)
        ensures
            r == (opt_view(self.subtype) == Some("null"@) || self.object_type@ == "undefined"@ || (
            self.object_type@ == "object"@ && self.object_id is None && self.value is None)),
    {
        let null_subtype = match &self.subtype {
            Some(s) => {
                let v = chars_of(s.as_str());
                chars_are(&v, "null")
            },
            None => false,
        };
        let t = chars_of(self.object_type.as_str());
        null_subtype || chars_are(&t, "undefined") || (chars_are(&t, "object") && self.object_id.is_none()
            && self.value.is_none())
    }
}

impl ExceptionDetails {
    /// A human-readable description of the exception: the thrown value's
    /// description when it has one, else the exception text.
    pub fn message(&self) -> (r: String)
        ensures
            r@ == match self.exception {
                Some(e) => match e.description {
                    Some(d) => d@,
                    None => self.text@,
                },
                None => self.text@,
            },
    {
        if let Some(exception) = &self.exception {
            if let Some(description) = &exception.description {
                return description.clone();
            }
        }
        self.text.clone()
    }
}

impl CallArgument {
    /// Create a by-value argument.
    pub fn value(value: Json) -> (r: CallArgument)
        ensures
            r.value == Some(value),
            r.object_id is None,
    {
        CallArgument { value: Some(value), object_id: None }
    }

    /// Create a by-reference argument.
    pub fn object_id(object_id: &str) -> (r: CallArgument)
        ensures
            r.value is None,
            opt_view(r.object_id) == Some(object_id@),
    {
        CallArgument { value: None, object_id: Some(str_from(object_id)) }
    }
}

}
