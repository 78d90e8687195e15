//! The registry store: the alias-to-template mapping, its construction and
//! mutation, and its persistence as a TOML document holding one `commands`
//! table. Reading and writing the artifact file is the caller's business; the
//! store works on the artifact's text.

use vstd::prelude::*;

use crate::mapping::{
    assoc_map, distinct_keys, lemma_assoc_map_contains, lemma_assoc_map_index,
    lemma_assoc_map_is_empty, lemma_assoc_map_push, lemma_assoc_map_remove,
};
use crate::text::str_eq;
use std::collections::BTreeMap;

verus! {

/// A failure of the persistence layer. An absent artifact is not a failure:
/// it stands for an empty registry.
#[derive(Debug)]
pub enum StoreError {
    /// The artifact's text is not a TOML document of the registry's shape.
    Deserialization(String),
    /// The registry could not be rendered as a TOML document.
    Serialization(String),
}

impl StoreError {
    /// The human-readable description the error carries.
    pub fn message(&self) -> (r: String)
        ensures
            (match self {
                StoreError::Deserialization(m) => r@ == m@,
                StoreError::Serialization(m) => r@ == m@,
            }),
    {
        match self {
            StoreError::Deserialization(m) => m.clone(),
            StoreError::Serialization(m) => m.clone(),
        }
    }
}

/// Each parsed table as the mapping its entry list denotes.
pub open spec fn tables_entries(ts: Seq<(Seq<char>, Seq<(Seq<char>, Seq<char>)>)>) -> Seq<
    (Seq<char>, Map<Seq<char>, Seq<char>>),
> {
    ts.map_values(|t: (Seq<char>, Seq<(Seq<char>, Seq<char>)>)| (t.0, assoc_map(t.1)))
}

/// The nested tables a parsed document denotes: table name to a mapping of
/// string keys to string values.
pub open spec fn tables_map(ts: Seq<(Seq<char>, Seq<(Seq<char>, Seq<char>)>)>) -> Map<
    Seq<char>,
    Map<Seq<char>, Seq<char>>,
> {
    assoc_map(tables_entries(ts))
}

/// What each position of the mapped table list holds.
proof fn lemma_tables_entries(ts: Seq<(Seq<char>, Seq<(Seq<char>, Seq<char>)>)>)
    ensures
        tables_entries(ts).len() == ts.len(),
        forall|i: int|
            0 <= i < ts.len() ==> #[trigger] tables_entries(ts)[i] == (ts[i].0, assoc_map(
                ts[i].1,
            )),
{
}

/// The document shape under which a registry mapping is persisted: a single
/// `commands` table.
pub open spec fn registry_tables(m: Map<Seq<char>, Seq<char>>) -> Map<
    Seq<char>,
    Map<Seq<char>, Seq<char>>,
> {
    Map::empty().insert("commands"@, m)
}

/// What `toml::from_str` makes of a text: `None` when it is not a TOML
/// document whose top level consists of tables of string values, else those
/// tables as a mapping.
pub uninterp spec fn toml_tables_of(s: Seq<char>) -> Option<
    Map<Seq<char>, Map<Seq<char>, Seq<char>>>,
>;

/// Relies on `toml::from_str`: parses the text as a TOML document whose top
/// level consists of tables of string values. The keys of a parsed table are
/// distinct, a table being a map.
#[verifier::external_body]
fn toml_parse_tables(s: &str) -> (r: Result<Vec<(String, Vec<(String, String)>)>, String>)
    ensures
        r is Ok <==> toml_tables_of(s@) is Some,
        (match r {
            Ok(v) => {
                &&& distinct_keys(v.deep_view())
                &&& forall|i: int|
                    0 <= i < v.deep_view().len() ==> distinct_keys(v.deep_view()[i].1)
                &&& toml_tables_of(s@) == Some(tables_map(v.deep_view()))
            },
            Err(_) => true,
        }),
{
    match toml::from_str::<BTreeMap<String, BTreeMap<String, String>>>(s) {
        Ok(m) => Ok(m.into_iter().map(|(k, t)| (k, t.into_iter().collect())).collect()),
        Err(e) => Err(e.to_string()),
    }
}

/// Relies on `toml::to_string`: renders the tables as a TOML document, and on
/// `toml::from_str` parsing that document back to the same tables. Rendering
/// succeeds: by `to_string`'s documentation it fails only for maps with
/// non-string keys, failing `Serialize` impls, or unsupported datatypes, none
/// of which nested maps of strings can exhibit.
#[verifier::external_body]
fn toml_render_tables(tables: &Vec<(String, Vec<(String, String)>)>) -> (r: Result<String, String>)
    requires
        distinct_keys(tables.deep_view()),
        forall|i: int|
            0 <= i < tables.deep_view().len() ==> distinct_keys(tables.deep_view()[i].1),
    ensures
        (match r {
            Ok(s) => toml_tables_of(s@) == Some(tables_map(tables.deep_view())),
            Err(_) => false,
        }),
{
    let doc: BTreeMap<String, BTreeMap<String, String>> = tables
        .iter()
        .map(|(k, es)| (k.clone(), es.iter().cloned().collect()))
        .collect();
    match toml::to_string(&doc) {
        Ok(s) => Ok(s),
        Err(e) => Err(e.to_string()),
    }
}

/// The persistent registry: a mapping from alias names to command templates.
pub struct ZenConfig {
    commands: Vec<(String, String)>,
}

impl View for ZenConfig {
    type V = Map<Seq<char>, Seq<char>>;

    open spec fn view(&self) -> Map<Seq<char>, Seq<char>> {
        assoc_map(self.entries())
    }
}

/// A copy of the entries, pair by pair.
fn clone_entries(entries: &Vec<(String, String)>) -> (r: Vec<(String, String)>)
    ensures
        r.deep_view() == entries.deep_view(),
{
    let mut r: Vec<(String, String)> = Vec::new();
    let mut i: usize = 0;
    while i < entries.len()
        invariant
            i <= entries.len(),
            r.deep_view() == entries.deep_view().take(i as int),
        decreases entries.len() - i,
    {
        let k = entries[i].0.clone();
        let v = entries[i].1.clone();
        let ghost pre = r.deep_view();
        r.push((k, v));
        proof {
            assert(forall|j: int| 0 <= j < pre.len() ==> r@[j].deep_view() == pre[j]);
            assert(r@[pre.len() as int].deep_view() == (k@, v@));
            assert(r.deep_view() =~~= entries.deep_view().take(i + 1));
        }
        i += 1;
    }
    proof {
        assert(entries.deep_view().take(entries.len() as int) =~~= entries.deep_view());
    }
    r
}

impl ZenConfig {
    /// The entries as the list holds them.
    pub closed spec fn entries(&self) -> Seq<(Seq<char>, Seq<char>)> {
        self.commands.deep_view()
    }

    /// Each alias appears at most once, so the list denotes its mapping
    /// faithfully.
    pub open spec fn wf(&self) -> bool {
        distinct_keys(self.entries())
    }

    /// An empty registry.
    pub fn new() -> (r: ZenConfig)
        ensures
            r.wf(),
            r@ == Map::<Seq<char>, Seq<char>>::empty(),
            r.entries().len() == 0,
    {
        let c = ZenConfig { commands: Vec::new() };
        proof {
            assert(c.commands.deep_view() =~= Seq::<(Seq<char>, Seq<char>)>::empty());
        }
        c
    }

    /// The position of the entry carrying `alias`, if one does.
    fn index_of(&self, alias: &str) -> (r: Option<usize>)
        ensures
            (match r {
                Some(i) => i < self.entries().len() && self.entries()[i as int].0 == alias@,
                None => forall|j: int|
                    0 <= j < self.entries().len() ==> self.entries()[j].0 != alias@,
            }),
    {
        let mut i: usize = 0;
        while i < self.commands.len()
            invariant
                i <= self.commands.len(),
                forall|j: int| 0 <= j < i ==> self.commands.deep_view()[j].0 != alias@,
            decreases self.commands.len() - i,
        {
            if str_eq(self.commands[i].0.as_str(), alias) {
                return Some(i);
            }
            i += 1;
        }
        None
    }

    /// Inserts or overwrites the template bound to `alias`.
    pub fn add_command(&mut self, alias: String, command: String)
        requires
            old(self).wf(),
        ensures
            final(self).wf(),
            final(self)@ == old(self)@.insert(alias@, command@),
    {
        let ghost ka = alias@;
        let ghost kc = command@;
        let _existed = self.remove_command(alias.as_str());
        let ghost mid = self.commands.deep_view();
        self.commands.push((alias, command));
        proof {
            assert(self.commands.deep_view() =~= mid.push((ka, kc)));
            lemma_assoc_map_push(mid, ka, kc);
            lemma_assoc_map_contains(mid, ka);
            assert forall|p: int, q: int|
                0 <= p < q < self.commands.deep_view().len() implies self.commands.deep_view()[p].0
                != self.commands.deep_view()[q].0 by {
                if q == mid.len() {
                    assert(mid[p].0 != ka);
                } else {
                    assert(mid[p].0 != mid[q].0);
                }
            }
            assert(old(self)@.remove(ka).insert(ka, kc) =~= old(self)@.insert(ka, kc));
        }
    }

    /// The template bound to `alias`, if any.
    pub fn get_command(&self, alias: &str) -> (r: Option<String>)
        requires
            self.wf(),
        ensures
            (match r {
                Some(c) => self@.contains_key(alias@) && c@ == self@[alias@],
                None => !self@.contains_key(alias@),
            }),
    {
        match self.index_of(alias) {
            Some(i) => {
                proof {
                    lemma_assoc_map_index(self.commands.deep_view(), i as int);
                }
                Some(self.commands[i].1.clone())
            },
            None => {
                proof {
                    lemma_assoc_map_contains(self.commands.deep_view(), alias@);
                    if self@.contains_key(alias@) {
                        let j = choose|j: int|
                            0 <= j < self.entries().len() && self.entries()[j].0 == alias@;
                        assert(false);
                    }
                }
                None
            },
        }
    }

    /// Deletes the binding for `alias` if one exists; reports whether it did.
    pub fn remove_command(&mut self, alias: &str) -> (r: bool)
        requires
            old(self).wf(),
        ensures
            final(self).wf(),
            r == old(self)@.contains_key(alias@),
            final(self)@ == old(self)@.remove(alias@),
    {
        match self.index_of(alias) {
            Some(i) => {
                proof {
                    lemma_assoc_map_index(self.commands.deep_view(), i as int);
                    lemma_assoc_map_remove(self.commands.deep_view(), i as int);
                    old(self).commands.deep_view().remove_ensures(i as int);
                }
                let ghost pre = self.commands.deep_view();
                self.commands.remove(i);
                proof {
                    assert(self.commands.deep_view() =~= pre.remove(i as int));
                    assert forall|p: int, q: int|
                        0 <= p < q < self.commands.deep_view().len() implies self.commands
                        .deep_view()[p].0 != self.commands.deep_view()[q].0 by {
                        let pp = if p < i { p } else { p + 1 };
                        let qq = if q < i { q } else { q + 1 };
                        assert(pre[pp].0 != pre[qq].0);
                    }
                }
                true
            },
            None => {
                proof {
                    lemma_assoc_map_contains(self.commands.deep_view(), alias@);
                    if self@.contains_key(alias@) {
                        let j = choose|j: int|
                            0 <= j < self.entries().len() && self.entries()[j].0 == alias@;
                        assert(false);
                    }
                    assert(self@.remove(alias@) =~= self@);
                }
                false
            },
        }
    }

    /// Whether no alias is registered.
    pub fn is_empty(&self) -> (r: bool)
        ensures
            r == (self@ == Map::<Seq<char>, Seq<char>>::empty()),
    {
        let r = self.commands.len() == 0;
        proof {
            lemma_assoc_map_is_empty(self.commands.deep_view());
        }
        r
    }

    /// The registered pairs of alias and template, in the store's order.
    pub fn available_aliases(&self) -> (r: Vec<(String, String)>)
        ensures
            r.deep_view() == self.entries(),
            assoc_map(r.deep_view()) == self@,
    {
        clone_entries(&self.commands)
    }

    /// Reconstructs a registry from the persisted artifact's text, or an
    /// empty registry when no artifact exists.
    #[verifier::loop_isolation(false)]
    pub fn load(artifact: Option<&str>) -> (r: Result<ZenConfig, StoreError>)
        ensures
            (match r {
                Ok(c) => {
                    &&& c.wf()
                    &&& (match artifact {
                        None => c@ == Map::<Seq<char>, Seq<char>>::empty(),
                        Some(s) => toml_tables_of(s@) matches Some(ts) && ts.contains_key(
                            "commands"@,
                        ) && c@ == ts["commands"@],
                    })
                },
                Err(e) => {
                    &&& e is Deserialization
                    &&& (match artifact {
                        None => false,
                        Some(s) => toml_tables_of(s@) is None || (toml_tables_of(s@)
                            matches Some(ts) && !ts.contains_key("commands"@)),
                    })
                },
            }),
    {
        let s = match artifact {
            None => {
                return Ok(ZenConfig::new());
            },
            Some(s) => s,
        };
        let tables = match toml_parse_tables(s) {
            Ok(t) => t,
            Err(m) => {
                return Err(StoreError::Deserialization(m));
            },
        };
        let ghost dv = tables.deep_view();
        let ghost mapped = tables_entries(dv);
        proof {
            lemma_tables_entries(dv);
        }
        let mut i: usize = 0;
        while i < tables.len()
            invariant
                i <= tables.len(),
                forall|j: int| 0 <= j < i ==> dv[j].0 != "commands"@,
            decreases tables.len() - i,
        {
            if str_eq(tables[i].0.as_str(), "commands") {
                let cfg = ZenConfig { commands: clone_entries(&tables[i].1) };
                proof {
                    assert forall|p: int, q: int|
                        0 <= p < q < mapped.len() implies mapped[p].0 != mapped[q].0 by {
                        assert(dv[p].0 != dv[q].0);
                    }
                    lemma_assoc_map_index(mapped, i as int);
                    assert(mapped[i as int] == (dv[i as int].0, assoc_map(dv[i as int].1)));
                }
                return Ok(cfg);
            }
            i += 1;
        }
        proof {
            lemma_assoc_map_contains(mapped, "commands"@);
            if tables_map(dv).contains_key("commands"@) {
                let j = choose|j: int| 0 <= j < mapped.len() && mapped[j].0 == "commands"@;
                assert(dv[j].0 == "commands"@);
                assert(false);
            }
        }
        Err(StoreError::Deserialization("the document holds no commands table".to_owned()))
    }

    /// Renders the registry as the artifact text to persist. Rendering a
    /// registry of strings is owed to succeed.
    pub fn save(&self) -> (r: Result<String, StoreError>)
        requires
            self.wf(),
        ensures
            (match r {
                Ok(s) => toml_tables_of(s@) == Some(registry_tables(self@)),
                Err(_) => false,
            }),
    {
        let mut tables: Vec<(String, Vec<(String, String)>)> = Vec::new();
        let name: String = "commands".to_owned();
        tables.push((name, clone_entries(&self.commands)));
        proof {
            let dv = tables.deep_view();
            assert(dv =~~= seq![("commands"@, self.commands.deep_view())]);
            let mapped = tables_entries(dv);
            lemma_tables_entries(dv);
            assert(mapped =~~= seq![("commands"@, self@)]);
            assert(mapped.last() == ("commands"@, self@));
            lemma_assoc_map_is_empty(mapped.drop_last());
            assert(assoc_map(mapped) == assoc_map(mapped.drop_last()).insert(
                mapped.last().0,
                mapped.last().1,
            ));
            assert(tables_map(dv) =~~= registry_tables(self@));
        }
        match toml_render_tables(&tables) {
            Ok(s) => Ok(s),
            Err(m) => Err(StoreError::Serialization(m)),
        }
    }
}

/// Round-trip law: an artifact that `save` produced for a mapping is read
/// back, by `load`'s contract, to the very same mapping — keys and values
/// preserved, order nowhere asserted.
pub proof fn lemma_save_load_round_trip(
    m: Map<Seq<char>, Seq<char>>,
    saved: Seq<char>,
    loaded: Map<Seq<char>, Seq<char>>,
)
    requires
        toml_tables_of(saved) == Some(registry_tables(m)),
        toml_tables_of(saved) matches Some(ts) && ts.contains_key("commands"@) && loaded
            == ts["commands"@],
    ensures
        loaded == m,
{
}

/// Binding an alias that was not registered and then removing it restores the
/// original mapping; on an empty registry, emptiness.
pub proof fn lemma_add_then_remove(m: Map<Seq<char>, Seq<char>>, alias: Seq<char>, template: Seq<char>)
    requires
        !m.contains_key(alias),
    ensures
        m.insert(alias, template).remove(alias) == m,
{
    assert(m.insert(alias, template).remove(alias) =~= m);
}

} // verus!
