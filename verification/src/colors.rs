//! Optional ANSI coloring of the monitor's output fields.

use vstd::prelude::*;
use vstd::string::StringExecFns;

verus! {

/// What a colored field looks like: the text between the color's escape
/// code and the reset code when coloring is on, the bare text otherwise.
pub open spec fn wrapped_spec(enabled: bool, code: Seq<char>, s: Seq<char>) -> Seq<char> {
    if enabled {
        "\x1b["@ + code + "m"@ + s + "\x1b[0m"@
    } else {
        s
    }
}

/// Renders output fields with ANSI colors, or verbatim when disabled.
pub struct Colors {
    pub enabled: bool,
}

impl Colors {
    /// A renderer with coloring switched on or off.
    pub fn new(enabled: bool) -> (c: Colors)
        ensures
            c.enabled == enabled,
    {
        Colors { enabled }
    }

    /// The text wrapped in the given ANSI code, or verbatim when disabled.
    pub fn wrap(&self, s: &str, code: &str) -> (r: String)
        ensures
            r@ == wrapped_spec(self.enabled, code@, s@),
    {
        if !self.enabled {
            return s.to_owned();
        }
        let mut out = String::new();
        out.append("\x1b[");
        out.append(code);
        out.append("m");
        out.append(s);
        out.append("\x1b[0m");
        out
    }

    /// An epoch index, in cyan.
    pub fn epoch(&self, v: &str) -> (r: String)
        ensures
            r@ == wrapped_spec(self.enabled, "36"@, v@),
    {
        self.wrap(v, "36")
    }

    /// A slot range bound, in yellow.
    pub fn range(&self, v: &str) -> (r: String)
        ensures
            r@ == wrapped_spec(self.enabled, "33"@, v@),
    {
        self.wrap(v, "33")
    }

    /// The author's key, in magenta.
    pub fn author(&self, v: &str) -> (r: String)
        ensures
            r@ == wrapped_spec(self.enabled, "35"@, v@),
    {
        self.wrap(v, "35")
    }

    /// A slot number, in blue.
    pub fn slot(&self, v: &str) -> (r: String)
        ensures
            r@ == wrapped_spec(self.enabled, "34"@, v@),
    {
        self.wrap(v, "34")
    }

    /// A timestamp, in green.
    pub fn time(&self, v: &str) -> (r: String)
        ensures
            r@ == wrapped_spec(self.enabled, "32"@, v@),
    {
        self.wrap(v, "32")
    }

    /// Secondary text, dimmed.
    pub fn dim(&self, v: &str) -> (r: String)
        ensures
            r@ == wrapped_spec(self.enabled, "90"@, v@),
    {
        self.wrap(v, "90")
    }
}

} // verus!
