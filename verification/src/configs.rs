//! The levels of privilege that a server knows.

use vstd::prelude::*;
use vstd::string::*;

verus! {

/// A named level of privilege; the lower the level, the more it may do.
#[derive(Debug)]
pub struct Priviledge {
    name: String,
    level: u8,
}

/// A level of privilege as contracts see it.
pub struct PriviledgeView {
    pub name: Seq<char>,
    pub level: u8,
}

impl View for Priviledge {
    type V = PriviledgeView;

    closed spec fn view(&self) -> PriviledgeView {
        PriviledgeView { name: self.name@, level: self.level }
    }
}

/// The levels of privilege that a server knows.
#[derive(Debug)]
pub struct ServerConfig {
    priviledges: Vec<Priviledge>,
}

impl View for ServerConfig {
    type V = Seq<PriviledgeView>;

    closed spec fn view(&self) -> Seq<PriviledgeView> {
        self.priviledges@.map_values(|priviledge: Priviledge| priviledge@)
    }
}

impl ServerConfig {
    /// The levels with their names, in their order.
    pub fn levels(&self) -> (res: Vec<(String, u8)>)
        ensures
            res.len() == self@.len(),
            forall|i: int|
                0 <= i < res.len() ==> (#[trigger] res[i]).0@ == self@[i].name && res[i].1
                    == self@[i].level,
    {
        let mut res: Vec<(String, u8)> = Vec::new();
        let mut i: usize = 0;
        while i < self.priviledges.len()
            invariant
                i <= self.priviledges.len(),
                res.len() == i,
                forall|j: int|
                    0 <= j < i ==> (#[trigger] res[j]).0@ == self.priviledges[j]@.name && res[j].1
                        == self.priviledges[j]@.level,
            decreases self.priviledges.len() - i,
        {
            res.push((self.priviledges[i].name.clone(), self.priviledges[i].level));
            i += 1;
        }
        res
    }
}

impl Default for ServerConfig {
    /// The one level `admin`, which is level 0.
    fn default() -> (res: Self)
        ensures
            res@ == seq![PriviledgeView { name: "admin"@, level: 0 }],
    {
        let mut priveledges: Vec<Priviledge> = Vec::new();
        priveledges.push(Priviledge { name: String::from_str("admin"), level: 0 });
        let res = Self { priviledges: priveledges };
        assert(res@ =~= seq![PriviledgeView { name: "admin"@, level: 0 }]);
        res
    }
}

} // verus!
