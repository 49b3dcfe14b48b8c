use vstd::prelude::*;

verus! {

/// An executable TOML value. Floats and datetimes are carried as their
/// displayed text, so that documents holding them survive a load/store
/// round trip; the staleness logic itself only reads strings and tables.
pub enum TomlValue {
    Str(String),
    Int(i64),
    Bool(bool),
    Flo(String),
    Date(String),
    Arr(Vec<TomlValue>),
    Tab(TomlTable),
}

/// A TOML table: an association list of key/value entries.
/// Well-formed tables (see `m_wf`) have pairwise-distinct keys.
pub struct TomlTable {
    pub entries: Vec<(String, TomlValue)>,
}

/// The mathematical model of a TOML value.
pub enum Model {
    Str(Seq<char>),
    Int(int),
    Bool(bool),
    Flo(Seq<char>),
    Date(Seq<char>),
    Arr(Seq<Model>),
    Tab(Seq<(Seq<char>, Model)>),
}

pub open spec fn vmodel(v: TomlValue) -> Model
    decreases v,
{
    match v {
        TomlValue::Str(s) => Model::Str(s@),
        TomlValue::Int(i) => Model::Int(i as int),
        TomlValue::Bool(b) => Model::Bool(b),
        TomlValue::Flo(s) => Model::Flo(s@),
        TomlValue::Date(s) => Model::Date(s@),
        TomlValue::Arr(a) => Model::Arr(arr_model(a@)),
        TomlValue::Tab(t) => Model::Tab(tab_model(t.entries@)),
    }
}

pub open spec fn arr_model(s: Seq<TomlValue>) -> Seq<Model>
    decreases s,
{
    if s.len() == 0 {
        Seq::empty()
    } else {
        seq![vmodel(s[0])] + arr_model(s.subrange(1, s.len() as int))
    }
}

pub open spec fn tab_model(s: Seq<(String, TomlValue)>) -> Seq<(Seq<char>, Model)>
    decreases s,
{
    if s.len() == 0 {
        Seq::empty()
    } else {
        seq![(s[0].0@, vmodel(s[0].1))] + tab_model(s.subrange(1, s.len() as int))
    }
}

/// Whether the table model `s` holds an entry under key `k`.
pub open spec fn mhas(s: Seq<(Seq<char>, Model)>, k: Seq<char>) -> bool {
    exists|i: int| 0 <= i < s.len() && s[i].0 == k
}

/// An index of the entry under key `k`; under `keys_unique` it is the only one.
pub open spec fn midx(s: Seq<(Seq<char>, Model)>, k: Seq<char>) -> int {
    choose|i: int| 0 <= i < s.len() && s[i].0 == k
}

/// The value stored under key `k`.
pub open spec fn mget(s: Seq<(Seq<char>, Model)>, k: Seq<char>) -> Model {
    s[midx(s, k)].1
}

pub open spec fn keys_unique(s: Seq<(Seq<char>, Model)>) -> bool {
    forall|i: int, j: int| 0 <= i < j < s.len() ==> s[i].0 != s[j].0
}

/// Well-formedness: every table in the value has pairwise-distinct keys.
pub open spec fn m_wf(v: Model) -> bool
    decreases v,
{
    match v {
        Model::Arr(a) => marr_wf(a),
        Model::Tab(t) => keys_unique(t) && mtab_wf(t),
        _ => true,
    }
}

pub open spec fn marr_wf(a: Seq<Model>) -> bool
    decreases a,
{
    a.len() == 0 || (m_wf(a[0]) && marr_wf(a.subrange(1, a.len() as int)))
}

pub open spec fn mtab_wf(t: Seq<(Seq<char>, Model)>) -> bool
    decreases t,
{
    t.len() == 0 || (m_wf(t[0].1) && mtab_wf(t.subrange(1, t.len() as int)))
}

/// `marr_wf` holds exactly when every element is well-formed.
pub proof fn lemma_marr_wf(a: Seq<Model>)
    ensures
        marr_wf(a) <==> (forall|i: int| 0 <= i < a.len() ==> m_wf(#[trigger] a[i])),
    decreases a.len(),
{
    if a.len() > 0 {
        lemma_marr_wf(a.subrange(1, a.len() as int));
        if marr_wf(a) {
            assert forall|i: int| 0 <= i < a.len() implies m_wf(#[trigger] a[i]) by {
                if i > 0 {
                    assert(a.subrange(1, a.len() as int)[i - 1] == a[i]);
                }
            }
        } else {
            if m_wf(a[0]) {
                let j = choose|j: int|
                    0 <= j < a.subrange(1, a.len() as int).len() && !m_wf(
                        #[trigger] a.subrange(1, a.len() as int)[j],
                    );
                assert(a.subrange(1, a.len() as int)[j] == a[j + 1]);
            }
        }
    }
}

/// `mtab_wf` holds exactly when every entry's value is well-formed.
pub proof fn lemma_mtab_wf(t: Seq<(Seq<char>, Model)>)
    ensures
        mtab_wf(t) <==> (forall|i: int| 0 <= i < t.len() ==> m_wf(#[trigger] t[i].1)),
    decreases t.len(),
{
    if t.len() > 0 {
        lemma_mtab_wf(t.subrange(1, t.len() as int));
        if mtab_wf(t) {
            assert forall|i: int| 0 <= i < t.len() implies m_wf(#[trigger] t[i].1) by {
                if i > 0 {
                    assert(t.subrange(1, t.len() as int)[i - 1] == t[i]);
                }
            }
        } else {
            if m_wf(t[0].1) {
                let j = choose|j: int|
                    0 <= j < t.subrange(1, t.len() as int).len() && !m_wf(
                        #[trigger] t.subrange(1, t.len() as int)[j].1,
                    );
                assert(t.subrange(1, t.len() as int)[j] == t[j + 1]);
            }
        }
    }
}

/// Structural equality of values, with tables compared key by key,
/// independent of entry order.
pub open spec fn equiv(a: Model, b: Model) -> bool
    decreases a,
{
    match (a, b) {
        (Model::Str(x), Model::Str(y)) => x == y,
        (Model::Int(x), Model::Int(y)) => x == y,
        (Model::Bool(x), Model::Bool(y)) => x == y,
        (Model::Flo(x), Model::Flo(y)) => x == y,
        (Model::Date(x), Model::Date(y)) => x == y,
        (Model::Arr(x), Model::Arr(y)) => {
            &&& x.len() == y.len()
            &&& forall|i: int| 0 <= i < x.len() ==> equiv(#[trigger] x[i], y[i])
        },
        (Model::Tab(x), Model::Tab(y)) => tab_equiv(x, y),
        _ => false,
    }
}

/// Order-independent table equality: the same keys, and under every shared
/// key equivalent values.
pub open spec fn tab_equiv(x: Seq<(Seq<char>, Model)>, y: Seq<(Seq<char>, Model)>) -> bool
    decreases x,
{
    &&& (forall|k: Seq<char>| mhas(x, k) <==> mhas(y, k))
    &&& (forall|i: int|
        0 <= i < x.len() && mhas(y, #[trigger] x[i].0) ==> equiv(x[i].1, mget(y, x[i].0)))
}

/// Elements of a well-formed array are well-formed.
pub proof fn lemma_m_wf_arr(m: Seq<Model>, i: int)
    requires
        m_wf(Model::Arr(m)),
        0 <= i < m.len(),
    ensures
        m_wf(m[i]),
{
    lemma_marr_wf(m);
}

/// Values of a well-formed table are well-formed, and its keys are distinct.
pub proof fn lemma_m_wf_tab(m: Seq<(Seq<char>, Model)>, i: int)
    requires
        m_wf(Model::Tab(m)),
        0 <= i < m.len(),
    ensures
        keys_unique(m),
        m_wf(m[i].1),
{
    lemma_mtab_wf(m);
}

/// The table model is the entrywise image of the entry sequence.
pub proof fn lemma_tab_model(s: Seq<(String, TomlValue)>)
    ensures
        tab_model(s).len() == s.len(),
        forall|i: int| 0 <= i < s.len() ==> #[trigger] tab_model(s)[i] == (s[i].0@, vmodel(s[i].1)),
    decreases s.len(),
{
    if s.len() > 0 {
        lemma_tab_model(s.subrange(1, s.len() as int));
    }
}

/// The array model is the elementwise image of the element sequence.
pub proof fn lemma_arr_model(s: Seq<TomlValue>)
    ensures
        arr_model(s).len() == s.len(),
        forall|i: int| 0 <= i < s.len() ==> #[trigger] arr_model(s)[i] == vmodel(s[i]),
    decreases s.len(),
{
    if s.len() > 0 {
        lemma_arr_model(s.subrange(1, s.len() as int));
    }
}

/// Under distinct keys, an entry holding key `k` stands at `midx`.
pub proof fn lemma_midx_unique(s: Seq<(Seq<char>, Model)>, j: int)
    requires
        keys_unique(s),
        0 <= j < s.len(),
    ensures
        mhas(s, s[j].0),
        midx(s, s[j].0) == j,
{
    let k = s[j].0;
    assert(mhas(s, k));
    let i = midx(s, k);
    if i != j {
        if i < j {
            assert(s[i].0 != s[j].0);
        } else {
            assert(s[j].0 != s[i].0);
        }
    }
}

/// On well-formed values, `equiv` is reflexive: a table is never stale
/// against itself.
pub proof fn lemma_equiv_reflexive(a: Model)
    requires
        m_wf(a),
    ensures
        equiv(a, a),
    decreases a,
{
    match a {
        Model::Arr(x) => {
            lemma_marr_wf(x);
            assert forall|i: int| 0 <= i < x.len() implies equiv(#[trigger] x[i], x[i]) by {
                assert(decreases_to!(a => x));
                assert(decreases_to!(x => x[i]));
                lemma_equiv_reflexive(x[i]);
            }
        },
        Model::Tab(t) => {
            lemma_mtab_wf(t);
            assert forall|i: int|
                0 <= i < t.len() && mhas(t, #[trigger] t[i].0) implies equiv(
                t[i].1,
                mget(t, t[i].0),
            ) by {
                lemma_midx_unique(t, i);
                assert(decreases_to!(a => t));
                assert(decreases_to!(t => t[i]));
                assert(decreases_to!(t[i] => t[i].1));
                lemma_equiv_reflexive(t[i].1);
            }
            assert(tab_equiv(t, t));
        },
        _ => {},
    }
}

/// On well-formed values, `equiv` is symmetric: either table is stale
/// against the other, or neither is.
pub proof fn lemma_equiv_symmetric(a: Model, b: Model)
    requires
        m_wf(a),
        m_wf(b),
        equiv(a, b),
    ensures
        equiv(b, a),
    decreases a,
{
    match (a, b) {
        (Model::Arr(x), Model::Arr(y)) => {
            lemma_marr_wf(x);
            lemma_marr_wf(y);
            assert forall|i: int| 0 <= i < y.len() implies equiv(#[trigger] y[i], x[i]) by {
                assert(equiv(x[i], y[i]));
                assert(decreases_to!(a => x));
                assert(decreases_to!(x => x[i]));
                lemma_equiv_symmetric(x[i], y[i]);
            }
        },
        (Model::Tab(x), Model::Tab(y)) => {
            lemma_mtab_wf(x);
            lemma_mtab_wf(y);
            assert(tab_equiv(x, y));
            assert forall|j: int|
                0 <= j < y.len() && mhas(x, #[trigger] y[j].0) implies equiv(
                y[j].1,
                mget(x, y[j].0),
            ) by {
                let k = y[j].0;
                let i = midx(x, k);
                assert(0 <= i < x.len() && x[i].0 == k);
                assert(mhas(y, x[i].0));
                assert(equiv(x[i].1, mget(y, x[i].0)));
                lemma_midx_unique(y, j);
                assert(mget(y, k) == y[j].1);
                lemma_m_wf_tab(x, i);
                lemma_m_wf_tab(y, j);
                assert(decreases_to!(a => x));
                assert(decreases_to!(x => x[i]));
                assert(decreases_to!(x[i] => x[i].1));
                lemma_equiv_symmetric(x[i].1, y[j].1);
            }
            assert(tab_equiv(y, x));
        },
        _ => {},
    }
}

/// Finds an entry of `s` whose key equals `k`.
pub fn tab_lookup(s: &Vec<(String, TomlValue)>, k: &String) -> (r: Option<usize>)
    ensures
        match r {
            Some(j) => j < s@.len() && s@[j as int].0@ == k@,
            None => !mhas(tab_model(s@), k@),
        },
{
    proof {
        lemma_tab_model(s@);
    }
    let n = s.len();
    let mut i: usize = 0;
    while i < n
        invariant
            n == s@.len(),
            i <= n,
            forall|t: int| 0 <= t < i ==> s@[t].0@ != k@,
        decreases n - i,
    {
        if s[i].0 == *k {
            return Some(i);
        }
        i += 1;
    }
    proof {
        assert forall|t: int| 0 <= t < tab_model(s@).len() implies #[trigger] tab_model(
            s@,
        )[t].0 != k@ by {}
    }
    None
}

/// Decides `equiv` on well-formed values.
pub fn val_eq(a: &TomlValue, b: &TomlValue) -> (r: bool)
    requires
        m_wf(a@),
        m_wf(b@),
    ensures
        r == equiv(a@, b@),
    decreases *a,
{
    match (a, b) {
        (TomlValue::Str(x), TomlValue::Str(y)) => *x == *y,
        (TomlValue::Int(x), TomlValue::Int(y)) => *x == *y,
        (TomlValue::Bool(x), TomlValue::Bool(y)) => *x == *y,
        (TomlValue::Flo(x), TomlValue::Flo(y)) => *x == *y,
        (TomlValue::Date(x), TomlValue::Date(y)) => *x == *y,
        (TomlValue::Arr(x), TomlValue::Arr(y)) => {
            proof {
                lemma_arr_model(x@);
                lemma_arr_model(y@);
            }
            if x.len() != y.len() {
                return false;
            }
            let n = x.len();
            let mut i: usize = 0;
            while i < n
                invariant
                    n == x@.len(),
                    y@.len() == x@.len(),
                    i <= n,
                    m_wf(a@),
                    m_wf(b@),
                    *a == TomlValue::Arr(*x),
                    *b == TomlValue::Arr(*y),
                    arr_model(x@).len() == x@.len(),
                    arr_model(y@).len() == y@.len(),
                    forall|t: int| 0 <= t < x@.len() ==> #[trigger] arr_model(x@)[t] == vmodel(
                        x@[t],
                    ),
                    forall|t: int| 0 <= t < y@.len() ==> #[trigger] arr_model(y@)[t] == vmodel(
                        y@[t],
                    ),
                    forall|t: int|
                        0 <= t < i ==> equiv(#[trigger] arr_model(x@)[t], arr_model(y@)[t]),
                decreases n - i,
            {
                proof {
                    assert(decreases_to!(*a => *x));
                    assert(decreases_to!(*x => x@));
                    assert(decreases_to!(x@ => x@[i as int]));
                    assert(vmodel(x@[i as int]) == arr_model(x@)[i as int]);
                    assert(vmodel(y@[i as int]) == arr_model(y@)[i as int]);
                    assert(a@ == Model::Arr(arr_model(x@)));
                    assert(b@ == Model::Arr(arr_model(y@)));
                    lemma_m_wf_arr(arr_model(x@), i as int);
                    lemma_m_wf_arr(arr_model(y@), i as int);
                    assert(m_wf(vmodel(x@[i as int])));
                    assert(m_wf(vmodel(y@[i as int])));
                }
                if !val_eq(&x[i], &y[i]) {
                    return false;
                }
                i += 1;
            }
            true
        },
        (TomlValue::Tab(x), TomlValue::Tab(y)) => {
            let xs = &x.entries;
            let ys = &y.entries;
            let ghost xm = tab_model(xs@);
            let ghost ym = tab_model(ys@);
            proof {
                lemma_tab_model(xs@);
                lemma_tab_model(ys@);
            }
            let n = xs.len();
            let mut i: usize = 0;
            while i < n
                invariant
                    n == xs@.len(),
                    i <= n,
                    m_wf(a@),
                    m_wf(b@),
                    *a == TomlValue::Tab(*x),
                    *b == TomlValue::Tab(*y),
                    xs == x.entries,
                    ys == y.entries,
                    xm == tab_model(xs@),
                    ym == tab_model(ys@),
                    xm.len() == xs@.len(),
                    ym.len() == ys@.len(),
                    forall|t: int| 0 <= t < xs@.len() ==> #[trigger] xm[t] == (
                        xs@[t].0@,
                        vmodel(xs@[t].1),
                    ),
                    forall|t: int| 0 <= t < ys@.len() ==> #[trigger] ym[t] == (
                        ys@[t].0@,
                        vmodel(ys@[t].1),
                    ),
                    forall|t: int|
                        0 <= t < i ==> mhas(ym, #[trigger] xm[t].0) && equiv(
                            xm[t].1,
                            mget(ym, xm[t].0),
                        ),
                decreases n - i,
            {
                match tab_lookup(ys, &xs[i].0) {
                    None => {
                        proof {
                            assert(xm[i as int].0 == xs@[i as int].0@);
                            assert(mhas(xm, xm[i as int].0));
                            assert(!mhas(ym, xm[i as int].0));
                            assert(!tab_equiv(xm, ym));
                        }
                        return false;
                    },
                    Some(j) => {
                        proof {
                            lemma_m_wf_tab(xm, i as int);
                            lemma_m_wf_tab(ym, j as int);
                            lemma_midx_unique(ym, j as int);
                            assert(xm[i as int].0 == xs@[i as int].0@);
                            assert(ym[j as int].0 == ys@[j as int].0@);
                            assert(mhas(ym, xm[i as int].0));
                            assert(midx(ym, xm[i as int].0) == j as int);
                            assert(mget(ym, xm[i as int].0) == vmodel(ys@[j as int].1));
                            assert(m_wf(vmodel(xs@[i as int].1)));
                            assert(m_wf(vmodel(ys@[j as int].1)));
                            assert(decreases_to!(*a => *x));
                            assert(decreases_to!(*x => x.entries));
                            assert(decreases_to!(x.entries => xs@));
                            assert(decreases_to!(xs@ => xs@[i as int]));
                            assert(decreases_to!(xs@[i as int] => xs@[i as int].1));
                        }
                        if !val_eq(&xs[i].1, &ys[j].1) {
                            proof {
                                assert(!equiv(xm[i as int].1, mget(ym, xm[i as int].0)));
                                assert(!tab_equiv(xm, ym));
                            }
                            return false;
                        }
                    },
                }
                i += 1;
            }
            let m = ys.len();
            let mut j2: usize = 0;
            while j2 < m
                invariant
                    m == ys@.len(),
                    j2 <= m,
                    *a == TomlValue::Tab(*x),
                    *b == TomlValue::Tab(*y),
                    xs == x.entries,
                    ys == y.entries,
                    xm == tab_model(xs@),
                    ym == tab_model(ys@),
                    xm.len() == xs@.len(),
                    ym.len() == ys@.len(),
                    forall|t: int| 0 <= t < xs@.len() ==> #[trigger] xm[t] == (
                        xs@[t].0@,
                        vmodel(xs@[t].1),
                    ),
                    forall|t: int| 0 <= t < ys@.len() ==> #[trigger] ym[t] == (
                        ys@[t].0@,
                        vmodel(ys@[t].1),
                    ),
                    forall|t: int|
                        0 <= t < xm.len() ==> mhas(ym, #[trigger] xm[t].0) && equiv(
                            xm[t].1,
                            mget(ym, xm[t].0),
                        ),
                    forall|t: int| 0 <= t < j2 ==> mhas(xm, #[trigger] ym[t].0),
                decreases m - j2,
            {
                match tab_lookup(xs, &ys[j2].0) {
                    None => {
                        proof {
                            assert(ym[j2 as int].0 == ys@[j2 as int].0@);
                            assert(mhas(ym, ym[j2 as int].0));
                            assert(!mhas(xm, ym[j2 as int].0));
                            assert(!tab_equiv(xm, ym));
                        }
                        return false;
                    },
                    Some(w) => {
                        proof {
                            assert(xm[w as int].0 == xs@[w as int].0@);
                            assert(xm[w as int].0 == ym[j2 as int].0);
                            assert(mhas(xm, ym[j2 as int].0));
                        }
                    },
                }
                j2 += 1;
            }
            proof {
                assert forall|k: Seq<char>| mhas(xm, k) implies mhas(ym, k) by {
                    let t = choose|t: int| 0 <= t < xm.len() && xm[t].0 == k;
                    assert(mhas(ym, xm[t].0));
                }
                assert forall|k: Seq<char>| mhas(ym, k) implies mhas(xm, k) by {
                    let t = choose|t: int| 0 <= t < ym.len() && ym[t].0 == k;
                    assert(mhas(xm, ym[t].0));
                }
                assert(tab_equiv(xm, ym));
            }
            true
        },
        _ => false,
    }
}

impl View for TomlValue {
    type V = Model;

    open spec fn view(&self) -> Model {
        vmodel(*self)
    }
}

impl View for TomlTable {
    type V = Seq<(Seq<char>, Model)>;

    open spec fn view(&self) -> Seq<(Seq<char>, Model)> {
        tab_model(self.entries@)
    }
}

} // verus!
