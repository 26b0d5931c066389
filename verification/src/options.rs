//! Options of the configuration: the ones a table sets, and the ones in
//! effect after falling back to the enclosing tables and the defaults.
use vstd::prelude::*;
use crate::shared::{ApiCheck, Casing};

verus! {

/// Options in effect.
#[derive(Clone, Copy, PartialEq, Eq, Structural, Debug)]
pub struct Options {
    pub apicheck: ApiCheck,
    pub casing: Casing,
}

impl Default for Options {
    fn default() -> (r: Options)
        ensures
            r == (Options { apicheck: ApiCheck::Basic, casing: Casing::Lower }),
    {
        Options { apicheck: ApiCheck::Basic, casing: Casing::Lower }
    }
}

/// Options as a table sets them; an unset one falls back.
#[derive(Clone, Copy, PartialEq, Eq, Structural, Debug)]
pub struct Partial {
    pub apicheck: Option<ApiCheck>,
    pub casing: Option<Casing>,
}

impl Default for Partial {
    fn default() -> (r: Partial)
        ensures
            r == (Partial { apicheck: None, casing: None }),
    {
        Partial { apicheck: None, casing: None }
    }
}

impl Partial {
    /// Each option set here, else the one of `parent`.
    pub open spec fn spec_resolve(self, parent: Options) -> Options {
        Options {
            apicheck: match self.apicheck {
                Some(a) => a,
                None => parent.apicheck,
            },
            casing: match self.casing {
                Some(c) => c,
                None => parent.casing,
            },
        }
    }

    /// Each option set here, else the one of `parent`.
    pub fn resolve(&self, parent: &Options) -> (r: Options)
        ensures
            r == self.spec_resolve(*parent),
    {
        Options {
            apicheck: match self.apicheck {
                Some(a) => a,
                None => parent.apicheck,
            },
            casing: match self.casing {
                Some(c) => c,
                None => parent.casing,
            },
        }
    }
}

/// The options of a table with the chain of its enclosing tables. The
/// options in effect are worked out the first time they are asked for and
/// kept from then on: a later change of parent does not change them.
pub struct Node {
    partial: Partial,
    parent: Option<Box<Node>>,
    resolved: Option<Options>,
}

impl Node {
    /// The options in effect as kept by an earlier resolution, if any.
    pub closed spec fn kept(&self) -> Option<Options> {
        self.resolved
    }

    /// The options the table itself sets.
    pub closed spec fn spec_partial(&self) -> Partial {
        self.partial
    }

    /// The node to fall back to, if any.
    pub closed spec fn spec_parent(&self) -> Option<Node> {
        match self.parent {
            Some(p) => Some(*p),
            None => None,
        }
    }

    /// The options the table itself sets.
    pub fn partial(&self) -> (r: &Partial)
        ensures
            *r == self.spec_partial(),
    {
        &self.partial
    }

    /// The options in effect: the kept ones once there are any; else the
    /// own ones, falling back to those in effect for the parent, else to the
    /// defaults.
    pub closed spec fn spec_resolved(self) -> Options
        decreases self,
    {
        match self.kept() {
            Some(o) => o,
            None => {
                let parent = match self.parent {
                    Some(p) => (*p).spec_resolved(),
                    None => Options { apicheck: ApiCheck::Basic, casing: Casing::Lower },
                };
                self.partial.spec_resolve(parent)
            },
        }
    }

    /// A node without a parent, not resolved yet.
    pub fn from(partial: Partial) -> (r: Node)
        ensures
            r.spec_partial() == partial,
            r.spec_parent() is None,
            r.kept() is None,
    {
        Node { partial, parent: None, resolved: None }
    }

    /// The options in effect. The first call works them out (resolving the
    /// parents on the way) and keeps them; every later call returns the kept
    /// options.
    pub fn resolved(&mut self) -> (r: Options)
        ensures
            r == old(self).spec_resolved(),
            final(self).kept() == Some(r),
            final(self).spec_resolved() == r,
            final(self).spec_partial() == old(self).spec_partial(),
            old(self).kept() is Some ==> old(self).kept() == Some(r),
        decreases *old(self),
    {
        match self.resolved {
            Some(o) => o,
            None => {
                let parent = match self.parent.take() {
                    Some(mut p) => {
                        let o = (&mut *p).resolved();
                        self.parent = Some(p);
                        o
                    },
                    None => Options::default(),
                };
                let r = self.partial.resolve(&parent);
                self.resolved = Some(r);
                r
            },
        }
    }

    /// A node keeps the options of its first resolution. On a node not
    /// resolved yet, an option the table sets is the one in effect for it; an
    /// option it leaves unset is the one in effect for its parent, or the
    /// default at the top.
    pub proof fn lemma_resolution(self)
        ensures
            self.kept() matches Some(o) ==> self.spec_resolved() == o,
            self.kept() is None ==> self.spec_resolved() == self.spec_partial().spec_resolve(
                match self.spec_parent() {
                    Some(p) => p.spec_resolved(),
                    None => Options { apicheck: ApiCheck::Basic, casing: Casing::Lower },
                },
            ),
    {
    }

    /// Makes `parent` the node to fall back to. Options already kept stay
    /// as they are.
    pub fn set_parent(&mut self, parent: Node)
        ensures
            final(self).spec_partial() == old(self).spec_partial(),
            final(self).spec_parent() == Some(parent),
            final(self).kept() == old(self).kept(),
            old(self).kept() is Some ==> final(self).spec_resolved() == old(self).spec_resolved(),
    {
        self.parent = Some(Box::new(parent));
    }
}

} // verus!
