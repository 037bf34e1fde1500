//! Build-time templating of linker scripts.
//!
//! A template is rendered against a context of conditional-compilation flags
//! gathered from the build environment, so that one script source can serve
//! every feature and target combination. The caller reads the template text
//! and writes the rendered artifact; everything in between — normalizing the
//! flags, the `contains` helper, the render itself — is here.

pub mod context;
pub mod render;

pub use context::{CfgView, LinkerTemplateContext, TemplateContextCfg};
pub use render::{contains, render, TemplateError};

use vstd::prelude::*;
use vstd::string::StringExecFns;

use render::render_of;

verus! {

/// What one registration produces: the rendered script, the file name it is
/// to be written under, and whether the caller is to link it immediately
/// rather than leave its inclusion to a downstream script.
pub struct TemplateArtifact {
    pub file_name: String,
    pub contents: String,
    pub link_immediately: bool,
}

/// The output file name: `name_out`, with the crate name and an underscore
/// in front when a prefix is given.
pub open spec fn spec_output_name(crate_prefix: Option<Seq<char>>, name_out: Seq<char>) -> Seq<
    char,
> {
    match crate_prefix {
        Some(prefix) => prefix + "_"@ + name_out,
        None => name_out,
    }
}

/// The view of an optional prefix.
pub open spec fn opt_str_view(s: Option<&str>) -> Option<Seq<char>> {
    match s {
        None => None,
        Some(p) => Some(p@),
    }
}

fn output_file_name(crate_prefix: Option<&str>, name_out: &str) -> (r: String)
    ensures
        r@ == spec_output_name(opt_str_view(crate_prefix), name_out@),
{
    match crate_prefix {
        Some(prefix) => String::from_str(prefix).concat("_").concat(name_out),
        None => String::from_str(name_out),
    }
}

fn template_artifact(
    template_text: &str,
    context: &LinkerTemplateContext,
    crate_prefix: Option<&str>,
    name_out: &str,
    link_immediately: bool,
) -> (r: Result<TemplateArtifact, TemplateError>)
    ensures
        (match render_of(template_text@, context@) {
            Ok(text) => r is Ok && r->Ok_0.contents@ == text && r->Ok_0.file_name@
                == spec_output_name(opt_str_view(crate_prefix), name_out@)
                && r->Ok_0.link_immediately == link_immediately,
            Err(e) => r == Result::<TemplateArtifact, TemplateError>::Err(e),
        }),
{
    match render::render(template_text, context) {
        Ok(contents) => Ok(
            TemplateArtifact {
                file_name: output_file_name(crate_prefix, name_out),
                contents,
                link_immediately,
            },
        ),
        Err(e) => Err(e),
    }
}

/// Prepare a templated linker script for registration on the link search
/// path: render `template_text` against `context` and name the output
/// `<crate_name>_<name_out>`. The script is not marked for immediate
/// linking, so the application controls the order in which scripts are
/// combined by including it from its own script.
pub fn register_template(
    template_text: &str,
    context: &LinkerTemplateContext,
    crate_name: &str,
    name_out: &str,
) -> (r: Result<TemplateArtifact, TemplateError>)
    ensures
        (match render_of(template_text@, context@) {
            Ok(text) => r is Ok && r->Ok_0.contents@ == text && r->Ok_0.file_name@ == crate_name@
                + "_"@ + name_out@ && r->Ok_0.link_immediately == false,
            Err(e) => r == Result::<TemplateArtifact, TemplateError>::Err(e),
        }),
{
    template_artifact(template_text, context, Some(crate_name), name_out, false)
}

/// Like [`register_template`], but without the crate name prefixed to the
/// output name, and marked for immediate linking.
pub fn register_template_without_prefix(
    template_text: &str,
    context: &LinkerTemplateContext,
    name_out: &str,
) -> (r: Result<TemplateArtifact, TemplateError>)
    ensures
        (match render_of(template_text@, context@) {
            Ok(text) => r is Ok && r->Ok_0.contents@ == text && r->Ok_0.file_name@ == name_out@
                && r->Ok_0.link_immediately == true,
            Err(e) => r == Result::<TemplateArtifact, TemplateError>::Err(e),
        }),
{
    template_artifact(template_text, context, None, name_out, true)
}

/// Like [`register_template`], but marked for immediate linking, which
/// removes the need to include the script downstream — and with it the
/// ability to control the linker-script order.
pub fn include_template(
    template_text: &str,
    context: &LinkerTemplateContext,
    crate_name: &str,
    name_out: &str,
) -> (r: Result<TemplateArtifact, TemplateError>)
    ensures
        (match render_of(template_text@, context@) {
            Ok(text) => r is Ok && r->Ok_0.contents@ == text && r->Ok_0.file_name@ == crate_name@
                + "_"@ + name_out@ && r->Ok_0.link_immediately == true,
            Err(e) => r == Result::<TemplateArtifact, TemplateError>::Err(e),
        }),
{
    template_artifact(template_text, context, Some(crate_name), name_out, true)
}

} // verus!
