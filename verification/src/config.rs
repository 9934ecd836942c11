//! The context assembler: owns the final render context and merges the
//! converted configuration with the environment snapshot.

use vstd::prelude::*;
use crate::node::SourceNode;
use crate::value::Value;
use crate::value::ValueView;
use crate::value::distinct_keys;
use crate::value::entries_view;
use crate::value::lemma_obj_insert;
use crate::value::obj_insert;
use crate::value::obj_insert_entries;
use crate::value::obj_lookup;
use crate::convert::convert;
use crate::convert::convert_node;
use crate::convert::lemma_convert_pairs_distinct;
use crate::error::Error;
use crate::error::ErrorView;
use crate::loader::load;
use crate::loader::yaml_documents;

verus! {

/// The view of an environment snapshot: each variable's name and value.
pub open spec fn str_pairs_view(s: Seq<(String, String)>) -> Seq<(Seq<char>, Seq<char>)> {
    Seq::new(s.len(), |i: int| (s[i].0@, s[i].1@))
}

/// The object the environment snapshot becomes: every variable's value as a
/// string, folded left to right with last-write-wins on repeated names.
pub open spec fn env_object(
    vars: Seq<(Seq<char>, Seq<char>)>,
    acc: Seq<(Seq<char>, ValueView)>,
) -> Seq<(Seq<char>, ValueView)>
    decreases vars.len(),
{
    if vars.len() == 0 {
        acc
    } else {
        env_object(
            vars.subrange(1, vars.len() as int),
            obj_insert(acc, vars[0].0, ValueView::Str(vars[0].1)),
        )
    }
}

/// The assembled render context: an object-rooted generic value, built from
/// a converted configuration file (or empty), then handed the environment
/// snapshot under the reserved `Env` key, and finally consumed by the
/// render boundary.
#[derive(Debug, PartialEq)]
pub struct Config {
    entries: Vec<(String, Value)>,
}

impl View for Config {
    type V = Seq<(Seq<char>, ValueView)>;

    closed spec fn view(&self) -> Seq<(Seq<char>, ValueView)> {
        entries_view(self.entries@)
    }
}

impl Config {
    /// The context's invariant: its root object's keys are pairwise
    /// distinct.
    pub open spec fn wf(&self) -> bool {
        distinct_keys(self@)
    }

    /// An empty context, for a run without a configuration file.
    pub fn new() -> (c: Config)
        ensures
            c@ == Seq::<(Seq<char>, ValueView)>::empty(),
            c.wf(),
    {
        let c = Config { entries: Vec::new() };
        proof {
            assert(c@ =~= Seq::<(Seq<char>, ValueView)>::empty());
        }
        c
    }

    /// Converts a validated root mapping into a context. The converted
    /// root is always an object, so the wrapping cannot fail beyond the
    /// conversion itself.
    pub fn from_root(root: SourceNode) -> (r: Result<Config, Error>)
        requires
            root@ is Mapping,
        ensures
            match convert_node(root@) {
                Ok(v) => r matches Ok(c) && ValueView::Object(c@) == v && c.wf(),
                Err(e) => r matches Err(err) && err@ == e,
            },
    {
        let ghost rootv = root@;
        match convert(root) {
            Err(e) => Err(e),
            Ok(val) => match val {
                Value::Object(entries) => {
                    proof {
                        lemma_convert_pairs_distinct(rootv->Mapping_0, Seq::empty());
                    }
                    Ok(Config { entries })
                },
                _ => vstd::pervasive::unreached(),
            },
        }
    }

    /// Loads and converts a whole configuration file: one YAML document,
    /// mapping-rooted, with string keys and supported values throughout.
    pub fn from_text(text: &str) -> (r: Result<Config, Error>)
        ensures
            match yaml_documents(text@) {
                Err(msg) => r matches Err(e) && e@ == ErrorView::InvalidSyntax(msg),
                Ok(docs) => {
                    if docs.len() == 0 {
                        r matches Err(e) && e@ == ErrorView::Empty
                    } else if docs.len() > 1 {
                        r matches Err(e) && e@ == ErrorView::MultipleDocuments(docs.len() as int)
                    } else if !(docs[0] is Mapping) {
                        r matches Err(e) && e@ == ErrorView::RootNotMapping(docs[0])
                    } else {
                        match convert_node(docs[0]) {
                            Ok(v) => r matches Ok(c) && ValueView::Object(c@) == v && c.wf(),
                            Err(e) => r matches Err(err) && err@ == e,
                        }
                    }
                },
            },
    {
        match load(text) {
            Err(e) => Err(e),
            Ok(root) => Config::from_root(root),
        }
    }

    /// Inserts one field at the context's root, replacing any field of the
    /// same name.
    pub fn insert(&mut self, key: String, value: Value)
        ensures
            final(self)@ == obj_insert(old(self)@, key@, value@),
            old(self).wf() ==> final(self).wf(),
    {
        proof {
            lemma_obj_insert(old(self)@, key@, value@);
        }
        let mut entries = Vec::new();
        core::mem::swap(&mut entries, &mut self.entries);
        self.entries = obj_insert_entries(entries, key, value);
    }

    /// Builds the `Env` object from the environment snapshot and inserts it
    /// at the root, overwriting any `Env` field the configuration file
    /// defined.
    pub fn inject_env(&mut self, vars: Vec<(String, String)>)
        ensures
            final(self)@ == obj_insert(
                old(self)@,
                "Env"@,
                ValueView::Object(env_object(str_pairs_view(vars@), Seq::empty())),
            ),
            old(self).wf() ==> final(self).wf(),
    {
        let mut env_entries: Vec<(String, Value)> = Vec::new();
        proof {
            assert(entries_view(env_entries@) =~= Seq::<(Seq<char>, ValueView)>::empty());
        }
        let env = env_to_entries(vars, env_entries);
        let key = String::from_str("Env");
        self.insert(key, Value::Object(env));
    }

    /// Consumes the context, yielding the root object handed to the
    /// renderer.
    pub fn into_value(self) -> (v: Value)
        ensures
            v@ == ValueView::Object(self@),
    {
        Value::Object(self.entries)
    }
}

impl Default for Config {
    fn default() -> (c: Config)
        ensures
            c@ == Seq::<(Seq<char>, ValueView)>::empty(),
            c.wf(),
    {
        Config::new()
    }
}

/// Turns the environment snapshot into object entries, one string field per
/// variable, left to right with last-write-wins on repeated names.
fn env_to_entries(vars: Vec<(String, String)>, acc: Vec<(String, Value)>) -> (r: Vec<
    (String, Value),
>)
    ensures
        entries_view(r@) == env_object(str_pairs_view(vars@), entries_view(acc@)),
    decreases vars.len(),
{
    let ghost v0 = str_pairs_view(vars@);
    if vars.len() == 0 {
        acc
    } else {
        let mut rest = vars;
        let (name, value) = rest.remove(0);
        proof {
            assert(v0[0] == (name@, value@));
            assert(str_pairs_view(rest@) =~= v0.subrange(1, v0.len() as int));
        }
        let next = obj_insert_entries(acc, name, Value::Str(value));
        env_to_entries(rest, next)
    }
}

/// The reserved key always carries the environment snapshot: after the
/// assembler injects the environment, the context's `Env` field is exactly
/// the snapshot object — whatever the configuration file held under `Env` is
/// discarded, not merged — and every other field keeps its binding.
pub proof fn lemma_env_precedence(
    entries: Seq<(Seq<char>, ValueView)>,
    env: Seq<(Seq<char>, ValueView)>,
)
    ensures
        obj_lookup(obj_insert(entries, "Env"@, ValueView::Object(env)), "Env"@) == Some(
            ValueView::Object(env),
        ),
        forall|k: Seq<char>| k != "Env"@ ==> #[trigger] obj_lookup(
            obj_insert(entries, "Env"@, ValueView::Object(env)),
            k,
        ) == obj_lookup(entries, k),
{
    lemma_obj_insert(entries, "Env"@, ValueView::Object(env));
}

/// A run without a configuration file yields exactly the one-field context
/// `{Env: <environment snapshot>}`.
pub proof fn lemma_context_without_config(env: Seq<(Seq<char>, ValueView)>)
    ensures
        obj_insert(Seq::empty(), "Env"@, ValueView::Object(env)) =~= seq![
            ("Env"@, ValueView::Object(env)),
        ],
{
}

} // verus!
