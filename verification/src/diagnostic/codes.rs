//! The error codes of diagnostics.
use vstd::prelude::*;

verus! {

// Syntax errors (E01xx)
pub const PARSE_ERROR: &'static str = "E0101";

// Type errors (E02xx)
pub const TYPE_MISMATCH: &'static str = "E0201";
pub const UNDEFINED_VARIABLE: &'static str = "E0202";
pub const UNDEFINED_FUNCTION: &'static str = "E0203";
pub const ARGUMENT_COUNT: &'static str = "E0204";
pub const ARGUMENT_TYPE: &'static str = "E0205";
pub const RETURN_TYPE: &'static str = "E0206";
pub const CONDITION_NOT_BOOL: &'static str = "E0207";
pub const CANNOT_INDEX: &'static str = "E0208";
pub const NO_SUCH_FIELD: &'static str = "E0209";
pub const UNKNOWN_STRUCT: &'static str = "E0210";
pub const NONE_REQUIRES_TYPE: &'static str = "E0211";
pub const MATCH_PATTERN_TYPE: &'static str = "E0212";
pub const MATCH_BLOCK_NO_VALUE: &'static str = "E0213";

// Verification errors (E03xx)
pub const CONTRACT_VIOLATED: &'static str = "E0301";
pub const UNSUPPORTED_POSTCONDITION: &'static str = "E0302";
pub const SMT_TIMEOUT: &'static str = "E0303";
pub const SMT_UNAVAILABLE: &'static str = "E0304";

// Ownership errors (E04xx)
pub const USE_AFTER_MOVE: &'static str = "E0401";

// Shell errors (E05xx)
pub const UNKNOWN_AGENT: &'static str = "E0501";
pub const UNKNOWN_MESSAGE: &'static str = "E0502";
pub const MESSAGE_ARG_COUNT: &'static str = "E0503";
pub const MESSAGE_ARG_TYPE: &'static str = "E0504";
pub const MESSAGE_MISSING_ARG: &'static str = "E0505";

// View errors (E06xx)
pub const UNKNOWN_STATE_FIELD: &'static str = "E0601";
pub const UNKNOWN_VIEW_AGENT: &'static str = "E0602";

} // verus!
