use vstd::prelude::*;

verus! {

use crate::types::ValueRepr;

#[verifier::external_type_specification]
#[verifier::external_body]
pub struct ExTera(tera::Tera);

#[verifier::external_type_specification]
#[verifier::external_body]
pub struct ExTeraContext(tera::Context);

/// Relies on `tera::Tera::default`: a fresh renderer holding no templates.
#[verifier::external_body]
pub(crate) fn renderer_new() -> tera::Tera {
    tera::Tera::default()
}

/// Relies on `tera::Tera::autoescape_on`: an empty suffix list switches
/// autoescaping off everywhere — outcome values are data, not markup.
#[verifier::external_body]
pub(crate) fn renderer_disable_autoescape(t: &mut tera::Tera) {
    t.autoescape_on(Vec::new());
}

/// Relies on `tera::Context::new`: an empty render context.
#[verifier::external_body]
pub(crate) fn render_context_new() -> tera::Context {
    tera::Context::new()
}

/// Relies on `tera::Context::insert`: binds `key` to the given value for
/// rendering, replacing an earlier binding of the same key.  A number's or a
/// structured payload's text is read back into a tree by
/// `serde_json::from_str` on the way in; one that is not well-formed is bound
/// as plain text instead.
#[verifier::external_body]
pub(crate) fn render_context_insert(c: &mut tera::Context, key: &str, value: &crate::types::Value) {
    let v = match value {
        crate::types::Value::Null => serde_json::Value::Null,
        crate::types::Value::Bool(b) => serde_json::Value::Bool(*b),
        crate::types::Value::Str(s) => serde_json::Value::String(s.clone()),
        crate::types::Value::Number(s) | crate::types::Value::Structured(s) => serde_json::from_str(s).unwrap_or(serde_json::Value::String(s.clone())),
    };
    c.insert(key, &v);
}

/// The combined record handed to the render service: a tera context kept
/// beside the mathematical record of the bindings made through it.  Later
/// bindings replace earlier ones, as `Context::insert` does.
pub struct RenderRecord {
    ctx: tera::Context,
    model: Ghost<Map<Seq<char>, ValueRepr>>,
}

impl View for RenderRecord {
    type V = Map<Seq<char>, ValueRepr>;

    closed spec fn view(&self) -> Map<Seq<char>, ValueRepr> {
        self.model@
    }
}

impl RenderRecord {
    /// An empty record.
    pub(crate) fn new() -> (r: RenderRecord)
        ensures
            r@ == Map::<Seq<char>, ValueRepr>::empty(),
    {
        RenderRecord {
            ctx: render_context_new(),
            model: Ghost(Map::empty()),
        }
    }

    /// Binds `key` to `value`, replacing an earlier binding of the key.
    pub(crate) fn bind(&mut self, key: &str, value: &crate::types::Value)
        ensures
            final(self)@ == old(self)@.insert(key@, value@),
    {
        render_context_insert(&mut self.ctx, key, value);
        proof {
            self.model@ = self.model@.insert(key@, value@);
        }
    }

    /// The tera context holding the bindings.
    pub(crate) fn context(&self) -> &tera::Context {
        &self.ctx
    }
}

/// Relies on `tera::Tera::render_str`: renders a one-off template against the
/// context; a failure (an unknown placeholder among them) comes back as its
/// message.  Nothing is assumed of the rendered text: templates can reach
/// tera's built-in functions, whose results the time or the process's
/// environment may steer.
#[verifier::external_body]
pub(crate) fn render_template(t: &mut tera::Tera, template: &str, c: &tera::Context) -> Result<
    String,
    String,
> {
    t.render_str(template, c).map_err(|e| e.to_string())
}

} // verus!
