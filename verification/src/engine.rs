//! The alias engine: the facade over the registry store, the substitution
//! engine and the executor's decision logic. Mutating operations hand back
//! the artifact text to persist; resolving an alias never spawns anything by
//! itself — the caller runs the invocation it is handed.

use vstd::prelude::*;

use crate::config::{registry_tables, toml_tables_of, StoreError, ZenConfig};
use crate::mapping::{assoc_map, distinct_keys};
use crate::shell::{
    build_invocation, invocation_args, shell_path, wants_interactive, ShellConfig, ShellInvocation,
};
use crate::substitution::{subst, substitute};

verus! {

/// The outcome of removing an alias: it existed and the new artifact text
/// must be persisted, or nothing was bound and there is nothing to save.
pub enum RemoveOutcome {
    Removed(String),
    NotPresent,
}

/// The alias engine. It owns one registry exclusively for the duration of a
/// single invocation; durability lives in the artifact text alone.
pub struct Zen {
    config: ZenConfig,
}

impl View for Zen {
    type V = Map<Seq<char>, Seq<char>>;

    closed spec fn view(&self) -> Map<Seq<char>, Seq<char>> {
        self.config@
    }
}

impl Zen {
    /// The owned registry is well-formed.
    pub closed spec fn wf(&self) -> bool {
        self.config.wf()
    }

    /// An engine over an empty registry.
    pub fn new() -> (r: Zen)
        ensures
            r.wf(),
            r@ == Map::<Seq<char>, Seq<char>>::empty(),
    {
        Zen { config: ZenConfig::new() }
    }

    /// An engine over the registry the artifact text describes; an absent
    /// artifact yields an empty registry, a malformed one a load error.
    pub fn load(artifact: Option<&str>) -> (r: Result<Zen, StoreError>)
        ensures
            (match r {
                Ok(z) => {
                    &&& z.wf()
                    &&& (match artifact {
                        None => z@ == Map::<Seq<char>, Seq<char>>::empty(),
                        Some(s) => toml_tables_of(s@) matches Some(ts) && ts.contains_key(
                            "commands"@,
                        ) && z@ == ts["commands"@],
                    })
                },
                Err(e) => {
                    &&& e is Deserialization
                    &&& (match artifact {
                        None => false,
                        Some(s) => toml_tables_of(s@) is None || (toml_tables_of(s@)
                            matches Some(ts) && !ts.contains_key("commands"@)),
                    })
                },
            }),
    {
        match ZenConfig::load(artifact) {
            Ok(config) => Ok(Zen { config }),
            Err(e) => Err(e),
        }
    }

    /// Binds `alias` to `command` and renders the artifact text that persists
    /// the new registry; rendering a registry of strings is owed to succeed.
    pub fn register_alias(&mut self, alias: String, command: String) -> (r: Result<
        String,
        StoreError,
    >)
        requires
            old(self).wf(),
        ensures
            final(self).wf(),
            final(self)@ == old(self)@.insert(alias@, command@),
            (match r {
                Ok(art) => toml_tables_of(art@) == Some(registry_tables(final(self)@)),
                Err(_) => false,
            }),
    {
        self.config.add_command(alias, command);
        self.config.save()
    }

    /// Unbinds `alias` if it is bound. When it was, the new artifact text is
    /// handed back for persisting; when it was not, nothing changes and
    /// nothing is to be saved. Rendering the artifact is owed to succeed.
    pub fn discard_alias(&mut self, alias: &str) -> (r: Result<RemoveOutcome, StoreError>)
        requires
            old(self).wf(),
        ensures
            final(self).wf(),
            (match r {
                Ok(RemoveOutcome::NotPresent) => !old(self)@.contains_key(alias@) && final(self)@
                    == old(self)@,
                Ok(RemoveOutcome::Removed(art)) => old(self)@.contains_key(alias@) && final(self)@
                    == old(self)@.remove(alias@) && toml_tables_of(art@) == Some(
                    registry_tables(final(self)@),
                ),
                Err(_) => false,
            }),
    {
        if self.config.remove_command(alias) {
            match self.config.save() {
                Ok(art) => Ok(RemoveOutcome::Removed(art)),
                Err(e) => Err(e),
            }
        } else {
            proof {
                assert(old(self)@.remove(alias@) =~= old(self)@);
            }
            Ok(RemoveOutcome::NotPresent)
        }
    }

    /// The command line for `alias` with the arguments substituted in, or
    /// nothing when no such alias is registered.
    pub fn resolve_alias(&self, alias: &str, args: &Vec<String>) -> (r: Option<String>)
        requires
            self.wf(),
        ensures
            (match r {
                Some(c) => self@.contains_key(alias@) && c@ == subst(
                    self@[alias@],
                    args.deep_view(),
                ),
                None => !self@.contains_key(alias@),
            }),
    {
        match self.config.get_command(alias) {
            Some(template) => Some(substitute(template.as_str(), args)),
            None => None,
        }
    }

    /// The full shell invocation that would run `alias` with the arguments
    /// substituted in, or nothing — and so nothing to spawn — when no such
    /// alias is registered.
    pub fn resolve_invocation(&self, alias: &str, args: &Vec<String>, cfg: &ShellConfig) -> (r:
        Option<ShellInvocation>)
        requires
            self.wf(),
        ensures
            (match r {
                Some(inv) => {
                    &&& self@.contains_key(alias@)
                    &&& inv.program@ == shell_path(*cfg)
                    &&& inv.args.deep_view() == invocation_args(
                        wants_interactive(*cfg),
                        subst(self@[alias@], args.deep_view()),
                    )
                },
                None => !self@.contains_key(alias@),
            }),
    {
        match self.resolve_alias(alias, args) {
            Some(command) => Some(build_invocation(cfg, command)),
            None => None,
        }
    }

    /// The registered pairs of alias and template; no order is promised.
    pub fn available_aliases(&self) -> (r: Vec<(String, String)>)
        requires
            self.wf(),
        ensures
            distinct_keys(r.deep_view()),
            assoc_map(r.deep_view()) == self@,
    {
        self.config.available_aliases()
    }

    /// Whether no alias is registered.
    pub fn is_empty(&self) -> (r: bool)
        ensures
            r == (self@ == Map::<Seq<char>, Seq<char>>::empty()),
    {
        self.config.is_empty()
    }

    /// Substitutes the arguments into a command template, placeholders first,
    /// leftover arguments appended.
    pub fn substitute_parameters(&self, template: &str, args: &Vec<String>) -> (r: String)
        ensures
            r@ == subst(template@, args.deep_view()),
    {
        substitute(template, args)
    }
}

} // verus!
