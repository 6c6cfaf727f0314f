//! Backend dispatch. The library renders the textual representation itself;
//! the native-code backends are external collaborators that consume the
//! linked stream, so no artifact is produced here for their identifiers.

use vstd::prelude::*;
use vstd::string::StrSliceExecFns;
use vstd::string::StringExecFns;

use crate::compiler_string::{new_string_representation_compiler, render_program, render_program_spec};
use crate::linker::LinkerContext;
use crate::strutil::str_eq;

verus! {

/// Compiles the linked program with the named backend. For the textual
/// backend the artifact is returned as its output path (the source path
/// with `.cfc` appended) and its contents; any other backend is an external
/// collaborator and yields nothing here.
pub fn compile(id: &str, input_path: &str, ctx: &LinkerContext) -> (r: Option<(String, String)>)
    ensures
        match r {
            Some(p) => id@ == "string"@ && p.0@ == input_path@ + ".cfc"@ && p.1@
                == render_program_spec(ctx.result.deep_view(), 0),
            None => id@ != "string"@,
        },
{
    if str_eq(id, "string") {
        let backend = new_string_representation_compiler(input_path);
        let text = backend.render(ctx);
        Some((backend.file_path, text))
    } else {
        None
    }
}

} // verus!
