//! Key symbols: layout-independent identifiers of logical keys.

use vstd::prelude::*;

verus! {

/// The character that XKB assigns to the key symbol with code `raw`, if any.
///
/// This is the table lookup of `xkeysym::Keysym::key_char`; the library only
/// carries its result along, so nothing is stated of its values.
pub uninterp spec fn keysym_char(raw: u32) -> Option<char>;

/// Calls `xkeysym::Keysym::key_char` on the key symbol with code `raw`.
///
/// Trusted: the lookup reads nothing but the code and a constant table, returns
/// for every code, and its result is what [`keysym_char`] names.
#[verifier::external_body]
fn xkb_key_char(raw: u32) -> (c: Option<char>)
    ensures
        c == keysym_char(raw),
{
    xkeysym::Keysym::new(raw).key_char()
}

/// One logical key, identified by its XKB key-symbol code.
///
/// Two keys are the same key exactly when their codes are equal.
#[derive(Debug, Clone, Copy, PartialEq, Eq, Structural)]
pub struct Keysym(pub u32);

impl Keysym {
    /// The character this key would type, as far as XKB knows one.
    pub open spec fn spec_key_char(&self) -> Option<char> {
        keysym_char(self.0)
    }

    /// The bit pattern with exactly the bits that this key's code lacks.
    pub open spec fn spec_complement(self) -> Keysym {
        Keysym(!self.0)
    }

    /// The character this key would type; `None` for keys without one, such as
    /// modifiers.
    #[verifier::when_used_as_spec(spec_key_char)]
    pub fn key_char(&self) -> (c: Option<char>)
        ensures
            c == self.spec_key_char(),
    {
        xkb_key_char(self.0)
    }

    /// Flips every bit of the code, so that intersecting a mask with the result
    /// clears this key from the mask.
    #[verifier::when_used_as_spec(spec_complement)]
    pub fn complement(self) -> (r: Keysym)
        ensures
            r == self.spec_complement(),
    {
        Keysym(!self.0)
    }
}

impl From<u32> for Keysym {
    /// The key with the code `raw`.
    fn from(raw: u32) -> (key: Keysym) {
        Keysym(raw)
    }
}

impl vstd::std_specs::convert::FromSpecImpl<u32> for Keysym {
    open spec fn obeys_from_spec() -> bool {
        true
    }

    open spec fn from_spec(raw: u32) -> Keysym {
        Keysym(raw)
    }
}

} // verus!
