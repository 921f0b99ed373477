use vstd::prelude::*;

verus! {

/// Builder for the desktop command layer that exposes the pipeline's
/// operations to a UI. The command layer itself is I/O glue and lives
/// with the embedding application; the builder carries what the library
/// decides, starting with the plugin's name.
#[derive(Debug, Clone, Copy, PartialEq, Eq, Structural)]
pub struct GachaPluginBuilder {}

impl GachaPluginBuilder {
    pub fn new() -> (r: GachaPluginBuilder)
        ensures
            r == (GachaPluginBuilder {  }),
    {
        GachaPluginBuilder {  }
    }

    /// The name the plugin registers under.
    pub fn plugin_name(&self) -> (r: &'static str)
        ensures
            r@ == "gacha"@,
    {
        "gacha"
    }
}

impl Default for GachaPluginBuilder {
    fn default() -> (r: GachaPluginBuilder)
        ensures
            r == (GachaPluginBuilder {  }),
    {
        GachaPluginBuilder {  }
    }
}

} // verus!
