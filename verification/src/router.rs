//! The route table: an ordered list of path-to-view pairs, with lookup.
//!
//! The application registers exactly one route, `/`, dispatching to the
//! home view. Paths are unique within a well-formed table, and lookup is
//! proved to return the first (hence only) entry whose path equals the
//! request path.

use vstd::prelude::*;
use crate::view::ViewId;

verus! {

/// One entry of the route table: a path and the view it dispatches to.
pub struct RouteEntry {
    pub path: String,
    pub view: ViewId,
}

/// The route table.
pub struct RouteTable {
    pub entries: Vec<RouteEntry>,
}

/// First-match lookup over a list of entries.
pub open spec fn lookup_in(es: Seq<RouteEntry>, path: Seq<char>) -> Option<ViewId>
    decreases es.len(),
{
    if es.len() == 0 {
        Option::None
    } else if es[0].path@ == path {
        Option::Some(es[0].view)
    } else {
        lookup_in(es.drop_first(), path)
    }
}

impl RouteTable {
    /// Well-formed: path strings are unique within the table.
    pub open spec fn wf(self) -> bool {
        forall|i: int, j: int|
            0 <= i < j < self.entries@.len() ==> self.entries@[i].path@ != self.entries@[j].path@
    }

    /// The view registered for a path, if any.
    pub open spec fn route_for(self, path: Seq<char>) -> Option<ViewId> {
        lookup_in(self.entries@, path)
    }

    /// Look a path up in the table.
    pub fn lookup(&self, path: &str) -> (r: Option<ViewId>)
        ensures
            r == self.route_for(path@),
    {
        let wanted = String::from_str(path);
        let mut i: usize = 0;
        proof {
            assert(self.entries@.subrange(0, self.entries@.len() as int) =~= self.entries@);
        }
        while i < self.entries.len()
            invariant
                i <= self.entries@.len(),
                wanted@ == path@,
                lookup_in(self.entries@.subrange(i as int, self.entries@.len() as int), path@)
                    == lookup_in(self.entries@, path@),
            decreases self.entries@.len() - i,
        {
            let ghost suffix = self.entries@.subrange(i as int, self.entries@.len() as int);
            proof {
                assert(suffix[0] == self.entries@[i as int]);
                assert(suffix.drop_first() =~= self.entries@.subrange(
                    i + 1,
                    self.entries@.len() as int,
                ));
            }
            if self.entries[i].path == wanted {
                return Option::Some(self.entries[i].view);
            }
            i = i + 1;
        }
        proof {
            assert(self.entries@.subrange(self.entries@.len() as int, self.entries@.len() as int)
                =~= Seq::<RouteEntry>::empty());
        }
        Option::None
    }
}

proof fn lemma_lookup_in_found(es: Seq<RouteEntry>, p: Seq<char>, i: int)
    requires
        0 <= i < es.len(),
        es[i].path@ == p,
        forall|a: int, b: int| 0 <= a < b < es.len() ==> es[a].path@ != es[b].path@,
    ensures
        lookup_in(es, p) == Option::Some(es[i].view),
    decreases i,
{
    if i > 0 {
        assert(es[0].path@ != es[i].path@);
        assert(es.drop_first()[i - 1] == es[i]);
        assert(forall|a: int, b: int|
            0 <= a < b < es.drop_first().len() ==> es.drop_first()[a].path@
                != es.drop_first()[b].path@);
        lemma_lookup_in_found(es.drop_first(), p, i - 1);
    }
}

/// Law: in a well-formed table paths are unique, so lookup finds exactly
/// the entry that holds the path, wherever in the table it stands.
pub proof fn lemma_route_unique(t: RouteTable, p: Seq<char>, i: int)
    requires
        t.wf(),
        0 <= i < t.entries@.len(),
        t.entries@[i].path@ == p,
    ensures
        t.route_for(p) == Option::Some(t.entries@[i].view),
{
    lemma_lookup_in_found(t.entries@, p, i);
}

/// The application's route table: one entry, `/`, dispatching to the home
/// view. Any other path has no route.
pub fn app_routes() -> (t: RouteTable)
    ensures
        t.wf(),
        t.entries@.len() == 1,
        t.entries@[0].path@ == "/"@,
        t.entries@[0].view == ViewId::Home,
        forall|p: Seq<char>|
            t.route_for(p) == (if p == "/"@ {
                Option::Some(ViewId::Home)
            } else {
                Option::<ViewId>::None
            }),
{
    let mut entries: Vec<RouteEntry> = Vec::new();
    entries.push(RouteEntry { path: String::from_str("/"), view: ViewId::Home });
    let t = RouteTable { entries };
    proof {
        assert forall|p: Seq<char>|
            t.route_for(p) == (if p == "/"@ {
                Option::Some(ViewId::Home)
            } else {
                Option::<ViewId>::None
            }) by {
            assert(t.entries@[0].path@ == "/"@);
            assert(t.entries@.drop_first() =~= Seq::<RouteEntry>::empty());
            assert(lookup_in(Seq::<RouteEntry>::empty(), p) == Option::<ViewId>::None);
        }
    }
    t
}

} // verus!
