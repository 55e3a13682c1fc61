//! Definitions ("spells"): named search contexts with a provider command,
//! optional search tuning and a list of invokable actions.

use vstd::prelude::*;

use crate::config::SearchConfig;
use crate::strutil::str_eq;

verus! {

/// One invokable behavior of a definition: run an external command, or
/// push a new search context onto the navigation stack.
pub enum Action {
    Cmd { name: Option<String>, condition: Option<String>, cmd: String },
    Spell { name: Option<String>, condition: Option<String>, spell: String },
}

/// Clones an optional string, keeping its value.
fn clone_opt_string(o: &Option<String>) -> (r: Option<String>)
    ensures
        r == *o,
{
    match o {
        Some(s) => Some(s.clone()),
        None => None,
    }
}

impl Clone for Action {
    fn clone(&self) -> (r: Self)
        ensures
            r == *self,
    {
        match self {
            Action::Cmd { name, condition, cmd } => Action::Cmd {
                name: clone_opt_string(name),
                condition: clone_opt_string(condition),
                cmd: cmd.clone(),
            },
            Action::Spell { name, condition, spell } => Action::Spell {
                name: clone_opt_string(name),
                condition: clone_opt_string(condition),
                spell: spell.clone(),
            },
        }
    }
}

/// A named, configured search context. Loaded once from an external source
/// and read-only thereafter.
pub struct Spell {
    pub name: String,
    pub id: String,
    pub enabled: bool,
    pub provider: String,
    pub alias: Option<String>,
    pub is_streaming: Option<bool>,
    pub preview: Option<String>,
    pub search: Option<SearchConfig>,
    pub actions: Vec<Action>,
}

/// Field-wise agreement of two definitions; the action lists agree as
/// sequences.
pub open spec fn spell_like(a: Spell, b: Spell) -> bool {
    &&& a.name == b.name
    &&& a.id == b.id
    &&& a.enabled == b.enabled
    &&& a.provider == b.provider
    &&& a.alias == b.alias
    &&& a.is_streaming == b.is_streaming
    &&& a.preview == b.preview
    &&& a.search == b.search
    &&& a.actions@ == b.actions@
}

impl Clone for Spell {
    fn clone(&self) -> (r: Self)
        ensures
            spell_like(r, *self),
    {
        let r = Spell {
            name: self.name.clone(),
            id: self.id.clone(),
            enabled: self.enabled,
            provider: self.provider.clone(),
            alias: clone_opt_string(&self.alias),
            is_streaming: match self.is_streaming {
                Some(b) => Some(b),
                None => None,
            },
            preview: clone_opt_string(&self.preview),
            search: match self.search {
                Some(c) => Some(c),
                None => None,
            },
            actions: self.actions.clone(),
        };
        proof {
            assert(r.actions@ =~= self.actions@);
        }
        r
    }
}

/// Every definition in the list carries a distinct id.
pub open spec fn spells_unique(spells: Seq<Spell>) -> bool {
    forall|i: int, j: int|
        0 <= i < j < spells.len() ==> spells[i].id@ != spells[j].id@
}

/// The first definition with the given id.
pub open spec fn find_spell(spells: Seq<Spell>, id: Seq<char>) -> Option<Spell>
    decreases spells.len(),
{
    if spells.len() == 0 {
        None
    } else if spells[0].id@ == id {
        Some(spells[0])
    } else {
        find_spell(spells.drop_first(), id)
    }
}

/// Looks a definition up by id, handing back a field-wise copy.
pub fn lookup_spell(spells: &Vec<Spell>, id: &str) -> (r: Option<Spell>)
    ensures
        r is Some <==> find_spell(spells@, id@) is Some,
        r matches Some(s) ==> find_spell(spells@, id@) matches Some(f) && spell_like(s, f),
{
    let n = spells.len();
    let mut i: usize = 0;
    proof {
        assert(spells@.skip(0) =~= spells@);
    }
    while i < n
        invariant
            0 <= i <= n,
            n == spells@.len(),
            find_spell(spells@, id@) == find_spell(spells@.skip(i as int), id@),
        decreases n - i,
    {
        proof {
            let rest = spells@.skip(i as int);
            assert(rest[0] == spells@[i as int]);
            assert(rest.drop_first() =~= spells@.skip(i + 1));
        }
        if str_eq(spells[i].id.as_str(), id) {
            return Some(spells[i].clone());
        }
        i += 1;
    }
    proof {
        assert(spells@.skip(n as int).len() == 0);
    }
    None
}

} // verus!
