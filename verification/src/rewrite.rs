use vstd::prelude::*;
use vstd::string::StringExecFns;
use crate::value::{TomlValue, TomlTable, Model, tab_model, vmodel, mhas, midx, keys_unique, m_wf,
    lemma_tab_model, lemma_m_wf_tab, lemma_midx_unique, tab_lookup};

verus! {

/// The key under which a dependency specification declares a local path.
pub open spec fn path_key() -> Seq<char> {
    "path"@
}

/// The key under which a build description holds its dependency table.
pub open spec fn deps_key() -> Seq<char> {
    "dependencies"@
}

/// The relative path from the nested build context back to the project root:
/// the context sits two directories below it.
pub open spec fn parent_prefix() -> Seq<char> {
    "../../"@
}

/// How one dependency specification is rewritten for the nested build
/// context: a table whose `path` entry holds a string has that string
/// prefixed with the way back to the project root; any other value is kept.
pub open spec fn rewrite_dep(v: Model) -> Model {
    match v {
        Model::Tab(t) => Model::Tab(
            Seq::new(
                t.len(),
                |i: int|
                    if t[i].0 == path_key() && t[i].1 is Str {
                        (t[i].0, Model::Str(parent_prefix() + t[i].1->Str_0))
                    } else {
                        t[i]
                    },
            ),
        ),
        _ => v,
    }
}

/// The rewritten dependency table: every specification rewritten, with the
/// dependency names and their order kept.
pub open spec fn rewrite_model(deps: Seq<(Seq<char>, Model)>) -> Seq<(Seq<char>, Model)> {
    Seq::new(deps.len(), |i: int| (deps[i].0, rewrite_dep(deps[i].1)))
}

/// Whether a dependency specification is a table holding a `path` entry.
pub open spec fn dep_has_path(v: Model) -> bool {
    v is Tab && mhas(v->Tab_0, path_key())
}

/// Whether rewriting changes a specification: a table with a string under
/// `path`.
pub open spec fn dep_rewritable(v: Model) -> bool {
    v is Tab && exists|i: int|
        0 <= i < v->Tab_0.len() && v->Tab_0[i].0 == path_key() && #[trigger] v->Tab_0[i].1 is Str
}

/// A specification that is not a table holding a string under `path` is
/// passed through unchanged.
pub proof fn lemma_rewrite_untouched(v: Model)
    requires
        !dep_rewritable(v),
    ensures
        rewrite_dep(v) == v,
{
    match v {
        Model::Tab(t) => {
            let f = |i: int|
                if t[i].0 == path_key() && t[i].1 is Str {
                    (t[i].0, Model::Str(parent_prefix() + t[i].1->Str_0))
                } else {
                    t[i]
                };
            assert forall|i: int| 0 <= i < t.len() implies Seq::new(t.len(), f)[i] == t[i] by {
                if t[i].0 == path_key() && t[i].1 is Str {
                    assert(dep_rewritable(v));
                }
            }
            assert(Seq::new(t.len(), f) =~= t);
        },
        _ => {},
    }
}

/// Rewriting a dependency table with no `path` entries returns it unchanged.
pub proof fn lemma_rewrite_no_paths(deps: Seq<(Seq<char>, Model)>)
    requires
        forall|i: int| 0 <= i < deps.len() ==> !dep_has_path(#[trigger] deps[i].1),
    ensures
        rewrite_model(deps) == deps,
{
    assert forall|i: int| 0 <= i < deps.len() implies rewrite_model(deps)[i] == deps[i] by {
        if dep_rewritable(deps[i].1) {
            let t = deps[i].1->Tab_0;
            let w = choose|w: int|
                0 <= w < t.len() && t[w].0 == path_key() && #[trigger] t[w].1 is Str;
            assert(mhas(t, path_key()));
        }
        lemma_rewrite_untouched(deps[i].1);
    }
    assert(rewrite_model(deps) =~= deps);
}

/// Rewriting never changes the set of dependency names.
pub proof fn lemma_rewrite_keys(deps: Seq<(Seq<char>, Model)>)
    ensures
        rewrite_model(deps).len() == deps.len(),
        forall|i: int| 0 <= i < deps.len() ==> #[trigger] rewrite_model(deps)[i].0 == deps[i].0,
{
}

/// Rewriting keeps a dependency specification well-formed.
pub proof fn lemma_rewrite_dep_wf(v: Model)
    requires
        m_wf(v),
    ensures
        m_wf(rewrite_dep(v)),
{
    match v {
        Model::Tab(t) => {
            let nm = rewrite_dep(v)->Tab_0;
            assert(nm.len() == t.len());
            assert(forall|i: int| 0 <= i < t.len() ==> #[trigger] nm[i].0 == t[i].0);
            crate::value::lemma_mtab_wf(t);
            crate::value::lemma_mtab_wf(nm);
            assert forall|i: int| 0 <= i < nm.len() implies m_wf(#[trigger] nm[i].1) by {
                if t[i].0 == path_key() && t[i].1 is Str {
                    assert(nm[i].1 is Str);
                } else {
                    assert(nm[i].1 == t[i].1);
                }
            }
        },
        _ => {},
    }
}

/// Rewriting keeps a dependency table well-formed.
pub proof fn lemma_rewrite_wf(deps: Seq<(Seq<char>, Model)>)
    requires
        m_wf(Model::Tab(deps)),
    ensures
        m_wf(Model::Tab(rewrite_model(deps))),
{
    let nm = rewrite_model(deps);
    assert(forall|i: int| 0 <= i < deps.len() ==> #[trigger] nm[i].0 == deps[i].0);
    crate::value::lemma_mtab_wf(deps);
    crate::value::lemma_mtab_wf(nm);
    assert forall|i: int| 0 <= i < nm.len() implies m_wf(#[trigger] nm[i].1) by {
        lemma_rewrite_dep_wf(deps[i].1);
    }
}

/// Rewrites one dependency specification as `rewrite_dep` says.
pub fn rewrite_one(v: TomlValue) -> (r: TomlValue)
    requires
        m_wf(vmodel(v)),
    ensures
        vmodel(r) == rewrite_dep(vmodel(v)),
{
    match v {
        TomlValue::Tab(mut u) => {
            let ghost orig = u.entries@;
            let ghost um = tab_model(orig);
            proof {
                lemma_tab_model(orig);
            }
            let pk = "path".to_owned();
            match tab_lookup(&u.entries, &pk) {
                None => {
                    proof {
                        assert forall|t: int| 0 <= t < um.len() implies #[trigger] um[t].0
                            != path_key() by {
                            if um[t].0 == path_key() {
                                assert(mhas(um, path_key()));
                            }
                        }
                        let f = |i: int|
                            if um[i].0 == path_key() && um[i].1 is Str {
                                (um[i].0, Model::Str(parent_prefix() + um[i].1->Str_0))
                            } else {
                                um[i]
                            };
                        assert(Seq::new(um.len(), f) =~= um);
                    }
                    TomlValue::Tab(u)
                },
                Some(j) => {
                    proof {
                        lemma_m_wf_tab(um, j as int);
                    }
                    let (key, oldv) = u.entries.remove(j);
                    match oldv {
                        TomlValue::Str(s) => {
                            let ns = "../../".to_owned().concat(s.as_str());
                            u.entries.insert(j, (key, TomlValue::Str(ns)));
                            proof {
                                assert(u.entries@ =~= orig.update(
                                    j as int,
                                    (key, TomlValue::Str(ns)),
                                ));
                                lemma_tab_model(u.entries@);
                                let nm = tab_model(u.entries@);
                                let f = |i: int|
                                    if um[i].0 == path_key() && um[i].1 is Str {
                                        (um[i].0, Model::Str(parent_prefix() + um[i].1->Str_0))
                                    } else {
                                        um[i]
                                    };
                                assert forall|t: int| 0 <= t < um.len() implies nm[t] == f(t) by {
                                    if t != j {
                                        assert(um[t].0 != um[j as int].0);
                                    }
                                }
                                assert(nm =~= Seq::new(um.len(), f));
                            }
                            TomlValue::Tab(u)
                        },
                        other => {
                            u.entries.insert(j, (key, other));
                            proof {
                                assert(u.entries@ =~= orig);
                                let f = |i: int|
                                    if um[i].0 == path_key() && um[i].1 is Str {
                                        (um[i].0, Model::Str(parent_prefix() + um[i].1->Str_0))
                                    } else {
                                        um[i]
                                    };
                                assert forall|t: int| 0 <= t < um.len() implies f(t) == um[t] by {
                                    if t != j {
                                        assert(um[t].0 != um[j as int].0);
                                    }
                                }
                                assert(Seq::new(um.len(), f) =~= um);
                            }
                            TomlValue::Tab(u)
                        },
                    }
                },
            }
        },
        other => other,
    }
}

/// Rewrites a dependency table for the nested build context.
pub fn rewrite_deps(deps: TomlTable) -> (r: TomlTable)
    requires
        m_wf(Model::Tab(deps@)),
    ensures
        r@ == rewrite_model(deps@),
{
    let ghost dm = tab_model(deps.entries@);
    proof {
        lemma_tab_model(deps.entries@);
    }
    let mut rest = deps.entries;
    let ghost orig = rest@;
    let mut out: Vec<(String, TomlValue)> = Vec::new();
    while rest.len() > 0
        invariant
            out@.len() + rest@.len() == orig.len(),
            rest@ == orig.subrange(out@.len() as int, orig.len() as int),
            dm == tab_model(orig),
            m_wf(Model::Tab(dm)),
            dm.len() == orig.len(),
            forall|t: int| 0 <= t < orig.len() ==> #[trigger] dm[t] == (
                orig[t].0@,
                vmodel(orig[t].1),
            ),
            forall|t: int|
                0 <= t < out@.len() ==> #[trigger] out@[t].0@ == dm[t].0 && vmodel(out@[t].1)
                    == rewrite_dep(dm[t].1),
        decreases rest@.len(),
    {
        let ghost i = out@.len() as int;
        proof {
            assert(rest@[0] == orig[i]);
            lemma_m_wf_tab(dm, i);
        }
        let (k, v) = rest.remove(0);
        let nv = rewrite_one(v);
        out.push((k, nv));
        proof {
            assert(rest@ =~= orig.subrange(out@.len() as int, orig.len() as int));
        }
    }
    proof {
        lemma_tab_model(out@);
        assert(tab_model(out@) =~= rewrite_model(dm));
    }
    TomlTable { entries: out }
}

/// The merged build description: its `dependencies` entry overwritten
/// wholesale with `deps` and every other entry kept; the entry is appended
/// when the description lacks one.
pub open spec fn merge_model(doc: Seq<(Seq<char>, Model)>, deps: Seq<(Seq<char>, Model)>) -> Seq<
    (Seq<char>, Model),
> {
    if mhas(doc, deps_key()) {
        doc.update(midx(doc, deps_key()), (deps_key(), Model::Tab(deps)))
    } else {
        doc.push((deps_key(), Model::Tab(deps)))
    }
}

/// Overwrites the `dependencies` entry of a build description with `deps`.
pub fn merge(doc: TomlTable, deps: TomlTable) -> (r: TomlTable)
    requires
        keys_unique(doc@),
    ensures
        r@ == merge_model(doc@, deps@),
{
    let ghost docm = tab_model(doc.entries@);
    proof {
        lemma_tab_model(doc.entries@);
    }
    let dk = "dependencies".to_owned();
    let mut d = doc;
    let ghost orig = d.entries@;
    match tab_lookup(&d.entries, &dk) {
        Some(j) => {
            proof {
                lemma_midx_unique(docm, j as int);
            }
            let (key, _old) = d.entries.remove(j);
            d.entries.insert(j, (key, TomlValue::Tab(deps)));
            proof {
                assert(d.entries@ =~= orig.update(j as int, (key, TomlValue::Tab(deps))));
                lemma_tab_model(d.entries@);
                assert(key@ == deps_key());
                assert(mhas(docm, deps_key()));
                assert(midx(docm, deps_key()) == j as int);
                assert(tab_model(d.entries@) =~= merge_model(docm, deps@));
            }
        },
        None => {
            d.entries.push((dk, TomlValue::Tab(deps)));
            proof {
                lemma_tab_model(d.entries@);
                assert(tab_model(d.entries@) =~= merge_model(docm, deps@));
            }
        },
    }
    d
}

} // verus!
