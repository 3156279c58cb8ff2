//! The template engine that renders a memory in a custom layout.
//!
//! The engine is the `tera` crate. A compiled template and the errors of the
//! engine are carried as they are; the bindings that a template is rendered
//! with are a map from names to texts.

use vstd::prelude::*;

verus! {

/// `tera::Tera`, a set of compiled templates.
#[verifier::external_type_specification]
#[verifier::external_body]
pub struct ExTera(tera::Tera);

/// `tera::Context`, the bindings of a rendering.
#[verifier::external_type_specification]
#[verifier::external_body]
pub struct ExContext(tera::Context);

/// `tera::Error`.
#[verifier::external_type_specification]
#[verifier::external_body]
pub struct ExTeraError(tera::Error);

/// The texts that a context binds, by name.
pub uninterp spec fn context_entries(c: tera::Context) -> Map<Seq<char>, Seq<char>>;

/// The bindings of a context that binds nothing.
pub open spec fn no_entries() -> Map<Seq<char>, Seq<char>> {
    Map::empty()
}

/// The names of the templates that an engine holds.
pub uninterp spec fn engine_names(engine: tera::Tera) -> Set<Seq<char>>;

/// The names of an engine that holds no template.
pub open spec fn no_names() -> Set<Seq<char>> {
    Set::empty()
}

/// Whether an engine that holds no template yet accepts `source` as the
/// template `name`, as `Tera::add_raw_template` decides it: the source is
/// parsed, and what it extends or imports is looked for in the engine.
pub uninterp spec fn template_accepted(name: Seq<char>, source: Seq<char>) -> bool;

/// `Tera::default`: an engine without templates.
#[verifier::external_body]
pub(crate) fn new_engine() -> (engine: tera::Tera)
    ensures
        engine_names(engine) == no_names(),
{
    tera::Tera::default()
}

/// `Tera::add_raw_template`: compiles `source` and keeps it under `name`,
/// or reports why it cannot. Whether an engine without templates accepts
/// the source depends on the name and the source alone. Nothing is said of
/// an engine that has refused a source.
#[verifier::external_body]
pub(crate) fn add_template(engine: &mut tera::Tera, name: &str, source: &str) -> (r: Result<
    (),
    tera::Error,
>)
    ensures
        engine_names(*old(engine)) == no_names() ==> (r is Ok <==> template_accepted(
            name@,
            source@,
        )),
        r is Ok ==> engine_names(*final(engine)) == engine_names(*old(engine)).insert(name@),
{
    engine.add_raw_template(name, source)
}

/// `Context::new`: a context that binds nothing.
#[verifier::external_body]
pub(crate) fn new_context() -> (c: tera::Context)
    ensures
        context_entries(c) == no_entries(),
{
    tera::Context::new()
}

/// `Context::insert` with a text: binds `key` to `value`, in place of what
/// it was bound to before.
#[verifier::external_body]
pub(crate) fn context_insert(c: &mut tera::Context, key: &str, value: &str)
    ensures
        context_entries(*final(c)) == context_entries(*old(c)).insert(key@, value@),
{
    c.insert(key, value)
}

/// `Tera::render`: the text of the template `name` under the bindings, or
/// the engine's failure. The text may depend on more than the bindings: a
/// template can ask the engine for the time or for a random number.
#[verifier::external_body]
pub(crate) fn render_template(engine: &tera::Tera, name: &str, context: &tera::Context) -> Result<
    String,
    tera::Error,
> {
    engine.render(name, context)
}

/// The message of a `tera::Error`, as its `Display` prints it.
#[verifier::external_body]
pub(crate) fn template_error_text(e: &tera::Error) -> String {
    e.to_string()
}

} // verus!
