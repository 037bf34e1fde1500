//! The template renderer: one engine configuration (whitespace stripping and
//! the `contains` helper) and a pure render operation over it.

use crate::context::{CfgView, LinkerTemplateContext, TemplateContextCfg};
use vstd::prelude::*;

verus! {

/// Why a render failed. `Parse`: the template text is not syntactically
/// valid. `Render`: evaluating the template against the context raised an
/// error inside the engine. Either way no output is produced.
#[derive(Clone, Copy, Debug, PartialEq, Eq, Structural)]
pub enum TemplateError {
    Parse,
    Render,
}

/// Whether a flag value holds `candidate`: a single value by exact equality,
/// a multi-value when any element equals `candidate` exactly.
pub open spec fn cfg_contains(cfg: CfgView, candidate: Seq<char>) -> bool {
    match cfg {
        CfgView::Single(value) => value == candidate,
        CfgView::Multi(values) => values.contains(candidate),
    }
}

/// `cfg_contains` lifted to a possibly absent flag: an absent flag holds
/// nothing.
pub open spec fn opt_cfg_contains(cfg: Option<CfgView>, candidate: Seq<char>) -> bool {
    match cfg {
        None => false,
        Some(c) => cfg_contains(c, candidate),
    }
}

/// The view of a flag lookup's result.
pub open spec fn opt_cfg_view(cfg: Option<&TemplateContextCfg>) -> Option<CfgView> {
    match cfg {
        None => None,
        Some(c) => Some(c@),
    }
}

/// Membership test over a flag that may be absent, single-valued or
/// multi-valued, so a template need not branch on the flag's shape: false for
/// an absent flag, exact string equality against a single value, and exact
/// per-element equality against a multi-value.
pub fn contains(maybe_cfg: Option<&TemplateContextCfg>, value: &String) -> (r: bool)
    ensures
        r == opt_cfg_contains(opt_cfg_view(maybe_cfg), value@),
{
    match maybe_cfg {
        None => false,
        Some(TemplateContextCfg::Value(existing)) => *existing == *value,
        Some(TemplateContextCfg::List(items)) => {
            let mut i: usize = 0;
            while i < items.len()
                invariant
                    0 <= i <= items.len(),
                    items.deep_view().len() == items.len(),
                    opt_cfg_view(maybe_cfg) == Some(CfgView::Multi(items.deep_view())),
                    forall|k: int| 0 <= k < i ==> items.deep_view()[k] != value@,
                decreases items.len() - i,
            {
                if items[i] == *value {
                    proof {
                        assert(items.deep_view()[i as int] == value@);
                        assert(items.deep_view().contains(value@));
                    }
                    return true;
                }
                i = i + 1;
            }
            proof {
                assert forall|k: int| 0 <= k < items.deep_view().len() implies items.deep_view()[k]
                    != value@ by {}
            }
            false
        },
    }
}

/// A single-valued flag holds exactly its own value: `candidate` is in it
/// if and only if `candidate` equals the value.
pub proof fn lemma_contains_single(value: Seq<char>, candidate: Seq<char>)
    ensures
        opt_cfg_contains(Some(CfgView::Single(value)), candidate) <==> value == candidate,
{
}

/// A multi-valued flag holds exactly its elements: `candidate` is in it if
/// and only if some element equals `candidate`.
pub proof fn lemma_contains_multi(values: Seq<Seq<char>>, candidate: Seq<char>)
    ensures
        opt_cfg_contains(Some(CfgView::Multi(values)), candidate) <==> values.contains(candidate),
{
}

/// An absent flag holds nothing, whatever the candidate.
pub proof fn lemma_contains_absent(candidate: Seq<char>)
    ensures
        !opt_cfg_contains(None, candidate),
{
}

#[verifier::external_type_specification]
#[verifier::external_body]
pub struct ExValue(minijinja::value::Value);

#[verifier::external_type_specification]
#[verifier::external_body]
pub struct ExError(minijinja::Error);

/// What one render of `template` against the flags `cfg` produces: the
/// rendered text, or the kind of failure. Rendering is deterministic in the
/// pair, so the result carries a name.
pub uninterp spec fn render_of(template: Seq<char>, cfg: Map<Seq<char>, CfgView>) -> Result<
    Seq<char>,
    TemplateError,
>;

/// Relies on minijinja::value::Value's accessors (is_undefined, is_none,
/// as_str, kind, try_iter): reads the engine value a template handed to the
/// `contains` helper back into a flag value, `None` for an absent flag, or an
/// engine error when the value is neither a string nor a list of strings.
#[verifier::external_body]
fn value_to_cfg(v: &minijinja::value::Value) -> Result<
    Option<TemplateContextCfg>,
    minijinja::Error,
> {
    if v.is_undefined() || v.is_none() {
        return Ok(None);
    }
    if let Some(s) = v.as_str() {
        return Ok(Some(TemplateContextCfg::Value(s.to_string())));
    }
    if v.kind() != minijinja::value::ValueKind::Seq {
        return Err(shape_error());
    }
    let as_string = |item: minijinja::value::Value| item.as_str().map(str::to_string).ok_or_else(shape_error);
    let items = v.try_iter()?.map(as_string).collect::<Result<Vec<String>, minijinja::Error>>()?;
    Ok(Some(TemplateContextCfg::List(items)))
}

/// Relies on minijinja::Error::new: an invalid-operation error for a helper
/// argument of the wrong shape.
#[verifier::external_body]
fn shape_error() -> minijinja::Error {
    minijinja::Error::new(
        minijinja::ErrorKind::InvalidOperation,
        "expected a string or a list of strings",
    )
}

/// Relies on minijinja::value::Value's FromIterator: the context as the
/// engine sees it, one `cfg` entry mapping each flag name to its value. The
/// entries pass through a key-sorted map, so a later entry wins on a repeated
/// name and the engine value depends on the name-to-value mapping alone, not
/// on the order the entries were gathered in.
#[verifier::external_body]
fn context_to_value(context: &LinkerTemplateContext) -> minijinja::value::Value {
    let flag_value = |flag: &TemplateContextCfg| match flag {
        TemplateContextCfg::Value(s) => minijinja::value::Value::from(s.clone()),
        TemplateContextCfg::List(items) => items.iter().cloned().collect(),
    };
    let mut cfg = std::collections::BTreeMap::new();
    for entry in context.cfg.iter() {
        cfg.insert(entry.0.clone(), flag_value(&entry.1));
    }
    let cfg_value: minijinja::value::Value = cfg.into_iter().collect();
    [("cfg", cfg_value)].into_iter().collect()
}

/// Relies on minijinja::Environment: `render_str` parses and renders in one
/// step, deterministically in the template text and the context value;
/// `set_lstrip_blocks` and `set_trim_blocks` fix the whitespace conventions;
/// `add_function` registers the `contains` helper, whose work is done by the
/// verified `contains`; a template that cannot be parsed is reported with
/// `ErrorKind::SyntaxError`, any other failure arises while rendering.
#[verifier::external_body]
fn engine_render(template: &str, context: &LinkerTemplateContext) -> (r: Result<
    String,
    TemplateError,
>)
    ensures
        (match render_of(template@, context@) {
            Ok(text) => r is Ok && r->Ok_0@ == text,
            Err(e) => r == Result::<String, TemplateError>::Err(e),
        }),
{
    let mut env = minijinja::Environment::new();
    env.set_lstrip_blocks(true);
    env.set_trim_blocks(true);
    let helper = |flag: minijinja::value::Value, candidate: String| -> Result<bool, minijinja::Error> {
        Ok(contains(value_to_cfg(&flag)?.as_ref(), &candidate))
    };
    env.add_function("contains", helper);
    match env.render_str(template, context_to_value(context)) {
        Ok(text) => Ok(text),
        Err(e) if e.kind() == minijinja::ErrorKind::SyntaxError => Err(TemplateError::Parse),
        Err(_) => Err(TemplateError::Render),
    }
}

/// Render `template_text` against `context`. The engine strips the leading
/// whitespace before a control tag and the newline after it, and exposes the
/// `contains` helper to the template. A failure produces no output: the
/// result is exactly what `render_of` gives for the pair, so two renders of
/// the same pair agree.
pub fn render(template_text: &str, context: &LinkerTemplateContext) -> (r: Result<
    String,
    TemplateError,
>)
    ensures
        (match render_of(template_text@, context@) {
            Ok(text) => r is Ok && r->Ok_0@ == text,
            Err(e) => r == Result::<String, TemplateError>::Err(e),
        }),
{
    engine_render(template_text, context)
}

/// Rendering is a pure function of the `(template, context)` pair: two
/// results of the same pair are byte-identical, output and failure alike.
pub proof fn lemma_render_deterministic(
    template: Seq<char>,
    cfg: Map<Seq<char>, CfgView>,
    r1: Result<Seq<char>, TemplateError>,
    r2: Result<Seq<char>, TemplateError>,
)
    requires
        r1 == render_of(template, cfg),
        r2 == render_of(template, cfg),
    ensures
        r1 == r2,
{
}

} // verus!
