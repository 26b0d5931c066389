//! Where the first code generator puts the code of the client: the place in the
//! exported table that the current item has, and the settings with which
//! its values are written and read.
use vstd::prelude::*;
use crate::builder::{Builder, InitVar};
use crate::ir::{Expr, expr_text};
use crate::mir_serdes::grew;
use crate::serdes::{Des, Ser, des_s, ser_s};
use crate::shared::ApiCheck;
use crate::types::Type;

verus! {

/// The settings of the client, and the path of the current item.
pub struct Client {
    pub apicheck: ApiCheck,
    pub location: String,
}

impl Client {
    /// The same settings, one table further down: at `location` within
    /// the current path.
    pub fn push_location(&self, location: &str) -> (r: Client)
        ensures
            r.apicheck == self.apicheck,
            r.location@ == self.location@ + "."@ + location@,
    {
        let mut path = self.location.clone();
        path.append(".");
        path.append(location);
        Client { apicheck: self.apicheck, location: path }
    }

    /// The path of the function `name` of the current item.
    pub fn function(&self, name: &str) -> (r: String)
        ensures
            r@ == self.location@ + "."@ + name@,
    {
        let mut path = self.location.clone();
        path.append(".");
        path.append(name);
        path
    }
}

/// Writes `from`, a value of type `ty`, with the checks that the settings
/// ask for.
pub fn ser(c: &Client, b: &mut Builder, ty: &Type, from: Expr)
    ensures
        grew(old(b).em(), final(b).em(), ser_s(Ser { apicheck: c.apicheck }, *ty, expr_text(from), old(b).reg())),
{
    let s = Ser { apicheck: c.apicheck };
    crate::serdes::ser(s, b, ty, from)
}

/// Reads a value of type `ty`, unchecked, into a new variable.
pub fn des(c: &Client, b: &mut Builder, ty: &Type) -> (v: InitVar)
    ensures
        grew(old(b).em(), final(b).em(), des_s(Des { check: false }, *ty, old(b).reg()).0),
        v.id() == des_s(Des { check: false }, *ty, old(b).reg()).1,
{
    let d = Des { check: false };
    crate::serdes::des(d, b, ty)
}

} // verus!
