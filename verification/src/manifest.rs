use vstd::prelude::*;
use crate::Error;
use crate::codec::{toml_doc, parse_toml};
use crate::rewrite::{deps_key, path_key, rewrite_model, rewrite_deps, lemma_rewrite_wf};
use crate::value::{TomlValue, TomlTable, Model, tab_model, mhas, mget, m_wf, tab_equiv,
    lemma_tab_model, lemma_m_wf_tab, lemma_midx_unique, tab_lookup, val_eq};

verus! {

/// The key of the optional script configuration section.
pub open spec fn pargo_key() -> Seq<char> {
    "pargo"@
}

/// The script source read when the configuration names none.
pub open spec fn default_script() -> Seq<char> {
    "pargo.rs"@
}

/// A project manifest as this library reads it: its dependency table, and
/// its optional script configuration section.
pub struct Registry {
    pub dependencies: TomlTable,
    pub pargo: Option<TomlTable>,
}

/// Whether a parsed document can serve as a manifest: a table holding a
/// table under `dependencies`, and under `pargo`, where present, a table.
pub open spec fn registry_ok(doc: Model) -> bool {
    &&& doc is Tab
    &&& mhas(doc->Tab_0, deps_key())
    &&& mget(doc->Tab_0, deps_key()) is Tab
    &&& (mhas(doc->Tab_0, pargo_key()) ==> mget(doc->Tab_0, pargo_key()) is Tab)
}

/// The dependency table of a manifest document.
pub open spec fn reg_deps(doc: Model) -> Seq<(Seq<char>, Model)> {
    mget(doc->Tab_0, deps_key())->Tab_0
}

/// The script configuration section of a manifest document, where present.
pub open spec fn reg_pargo(doc: Model) -> Option<Model> {
    if mhas(doc->Tab_0, pargo_key()) {
        Some(mget(doc->Tab_0, pargo_key()))
    } else {
        None
    }
}

/// The model of an optional script configuration section.
pub open spec fn pargo_model(p: Option<TomlTable>) -> Option<Model> {
    match p {
        None => None,
        Some(t) => Some(Model::Tab(t@)),
    }
}

/// Reads a parsed document as a manifest, or rejects it as malformed.
pub fn registry_of(doc: TomlValue) -> (r: Result<Registry, Error>)
    requires
        m_wf(doc@),
    ensures
        (r is Ok) == registry_ok(doc@),
        r matches Ok(reg) ==> {
            &&& Model::Tab(reg.dependencies@) == mget(doc@->Tab_0, deps_key())
            &&& m_wf(Model::Tab(reg.dependencies@))
            &&& pargo_model(reg.pargo) == reg_pargo(doc@)
            &&& (reg.pargo matches Some(p) ==> m_wf(Model::Tab(p@)))
        },
        r matches Err(e) ==> e == Error::Parse,
{
    let mut t = match doc {
        TomlValue::Tab(t) => t,
        _ => {
            return Err(Error::Parse);
        },
    };
    let ghost orig = t.entries@;
    let ghost dm = tab_model(orig);
    proof {
        lemma_tab_model(orig);
        reveal_strlit("dependencies");
        reveal_strlit("pargo");
        assert(deps_key().len() == 12);
        assert(pargo_key().len() == 5);
        assert(deps_key() != pargo_key());
    }
    let dk = "dependencies".to_owned();
    let pk = "pargo".to_owned();
    let jd = match tab_lookup(&t.entries, &dk) {
        Some(j) => j,
        None => {
            return Err(Error::Parse);
        },
    };
    let jp = tab_lookup(&t.entries, &pk);
    proof {
        lemma_m_wf_tab(dm, jd as int);
        lemma_midx_unique(dm, jd as int);
    }
    let (deps_val, pargo_val): (TomlValue, Option<TomlValue>) = match jp {
        None => {
            let (_k, v) = t.entries.remove(jd);
            (v, None)
        },
        Some(jp) => {
            proof {
                lemma_m_wf_tab(dm, jp as int);
                lemma_midx_unique(dm, jp as int);
            }
            if jd < jp {
                let (_kp, vp) = t.entries.remove(jp);
                let (_kd, vd) = t.entries.remove(jd);
                proof {
                    assert(orig.remove(jp as int)[jd as int] == orig[jd as int]);
                }
                (vd, Some(vp))
            } else {
                let (_kd, vd) = t.entries.remove(jd);
                let (_kp, vp) = t.entries.remove(jp);
                proof {
                    assert(orig.remove(jd as int)[jp as int] == orig[jp as int]);
                }
                (vd, Some(vp))
            }
        },
    };
    let deps = match deps_val {
        TomlValue::Tab(d) => d,
        _ => {
            return Err(Error::Parse);
        },
    };
    let pargo = match pargo_val {
        None => None,
        Some(TomlValue::Tab(p)) => Some(p),
        Some(_) => {
            return Err(Error::Parse);
        },
    };
    Ok(Registry { dependencies: deps, pargo })
}

/// The script path that a manifest declares: the string under `path` in the
/// script configuration section, or the default where the section is
/// absent; a section without a string under `path` is malformed.
pub open spec fn script_path_of(pargo: Option<Model>) -> Option<Seq<char>> {
    match pargo {
        None => Some(default_script()),
        Some(p) => if p is Tab && mhas(p->Tab_0, path_key()) && mget(p->Tab_0, path_key()) is Str {
            Some(mget(p->Tab_0, path_key())->Str_0)
        } else {
            None
        },
    }
}

/// Resolves the declared script path of a manifest.
pub fn script_path(reg: &Registry) -> (r: Result<String, Error>)
    requires
        reg.pargo matches Some(t) ==> m_wf(Model::Tab(t@)),
    ensures
        (r is Ok) == (script_path_of(pargo_model(reg.pargo)) is Some),
        r matches Ok(s) ==> Some(s@) == script_path_of(pargo_model(reg.pargo)),
        r matches Err(e) ==> e == Error::Parse,
{
    match &reg.pargo {
        None => Ok("pargo.rs".to_owned()),
        Some(t) => {
            let ghost tm = tab_model(t.entries@);
            proof {
                lemma_tab_model(t.entries@);
            }
            let pk = "path".to_owned();
            match tab_lookup(&t.entries, &pk) {
                None => Err(Error::Parse),
                Some(j) => {
                    proof {
                        lemma_m_wf_tab(tm, j as int);
                        lemma_midx_unique(tm, j as int);
                    }
                    match &t.entries[j].1 {
                        TomlValue::Str(s) => Ok(s.clone()),
                        _ => Err(Error::Parse),
                    }
                },
            }
        },
    }
}

/// Whether these bytes parse as a document that can serve as a manifest.
pub open spec fn parses_as_registry(bytes: Seq<u8>) -> bool {
    toml_doc(bytes) matches Some(d) && registry_ok(d)
}

/// The dependency table declared by manifest bytes.
pub open spec fn manifest_deps(bytes: Seq<u8>) -> Seq<(Seq<char>, Model)> {
    reg_deps(toml_doc(bytes)->Some_0)
}

/// Manifest staleness: whether the project manifest's dependency table,
/// rewritten for the nested build context, differs from the dependency
/// table the nested build description currently holds. A pure read:
/// repeated calls on unchanged bytes return the same answer. Either
/// document failing to parse as a manifest is fatal.
pub fn manifest_stale(manifest: &Vec<u8>, nested: &Vec<u8>) -> (r: Result<bool, Error>)
    ensures
        (r is Ok) == (parses_as_registry(manifest@) && parses_as_registry(nested@)),
        r matches Ok(stale) ==> stale == !tab_equiv(
            rewrite_model(manifest_deps(manifest@)),
            manifest_deps(nested@),
        ),
        r matches Err(e) ==> e == Error::Parse,
{
    let root_doc = match parse_toml(manifest.as_slice()) {
        Some(d) => d,
        None => {
            return Err(Error::Parse);
        },
    };
    let nested_doc = match parse_toml(nested.as_slice()) {
        Some(d) => d,
        None => {
            return Err(Error::Parse);
        },
    };
    let root_reg = match registry_of(root_doc) {
        Ok(reg) => reg,
        Err(e) => {
            return Err(e);
        },
    };
    let nested_reg = match registry_of(nested_doc) {
        Ok(reg) => reg,
        Err(e) => {
            return Err(e);
        },
    };
    proof {
        lemma_rewrite_wf(tab_model(root_reg.dependencies.entries@));
    }
    let rewritten = rewrite_deps(root_reg.dependencies);
    let a = TomlValue::Tab(rewritten);
    let b = TomlValue::Tab(nested_reg.dependencies);
    let same = val_eq(&a, &b);
    Ok(!same)
}

} // verus!
