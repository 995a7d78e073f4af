use vstd::prelude::*;

verus! {

// ---------------------------------------------------------------------------
// Environments of the interpreter. Every environment lives in one store and
// is named by its index there, so that closures can share an environment
// and see each other's assignments. An environment knows the environment it
// was built in, which always stands before it in the store.
// ---------------------------------------------------------------------------

/// What a list of bindings means: a later binding of a name replaces an
/// earlier one.
pub open spec fn values_map<V>(s: Seq<(String, V)>) -> Map<Seq<char>, V>
    decreases s.len(),
{
    if s.len() == 0 {
        Map::empty()
    } else {
        values_map(s.drop_last()).insert(s.last().0@, s.last().1)
    }
}

pub proof fn lemma_values_prefix<V>(s: Seq<(String, V)>, j: int, k: Seq<char>)
    requires
        0 <= j <= s.len(),
        forall|i: int| j <= i < s.len() ==> #[trigger] s[i].0@ != k,
    ensures
        values_map(s).contains_key(k) == values_map(s.subrange(0, j)).contains_key(k),
        values_map(s).contains_key(k) ==> values_map(s)[k] == values_map(s.subrange(0, j))[k],
    decreases s.len() - j,
{
    if j < s.len() {
        let s1 = s.drop_last();
        assert(s1.subrange(0, j) =~= s.subrange(0, j));
        lemma_values_prefix(s1, j, k);
    } else {
        assert(s.subrange(0, j) =~= s);
    }
}

/// The mathematical value of one environment: the environment it was built
/// in, and its names with their values.
pub struct EnvInnerV<V> {
    pub parent: Option<usize>,
    pub values: Map<Seq<char>, V>,
}

/// One environment: the names defined in it, and the environment it was
/// built in.
pub struct EnvInner<V> {
    parent: Option<usize>,
    values: Vec<(String, V)>,
}

impl<V> View for EnvInner<V> {
    type V = EnvInnerV<V>;

    closed spec fn view(&self) -> EnvInnerV<V> {
        EnvInnerV { parent: self.parent, values: values_map(self.values@) }
    }
}

impl<V> EnvInner<V> {
    /// An environment with no names and no enclosing environment.
    pub fn new() -> (r: Self)
        ensures
            r@.parent == None::<usize>,
            r@.values == Map::<Seq<char>, V>::empty(),
    {
        EnvInner { parent: None, values: Vec::new() }
    }

    /// An environment with no names, built in `parent`.
    pub fn build(parent: usize) -> (r: Self)
        ensures
            r@.parent == Some(parent),
            r@.values == Map::<Seq<char>, V>::empty(),
    {
        EnvInner { parent: Some(parent), values: Vec::new() }
    }

    /// Binds `name` to `val`, whether it was bound or not.
    pub fn define(&mut self, name: String, val: V)
        ensures
            final(self)@.parent == old(self)@.parent,
            final(self)@.values == old(self)@.values.insert(name@, val),
    {
        bind(&mut self.values, name, val);
    }

    /// Rebinds `name` to `val` where it is bound; says whether it was.
    pub fn assign(&mut self, name: String, val: V) -> (r: bool)
        ensures
            r == old(self)@.values.contains_key(name@),
            final(self)@.parent == old(self)@.parent,
            final(self)@.values == (if r {
                old(self)@.values.insert(name@, val)
            } else {
                old(self)@.values
            }),
    {
        if self.get(&name).is_some() {
            self.define(name, val);
            true
        } else {
            false
        }
    }

    /// The value bound to `name`, if it is.
    pub fn get(&self, name: &String) -> (r: Option<&V>)
        ensures
            r == (if self@.values.contains_key(name@) {
                Some(&self@.values[name@])
            } else {
                None
            }),
    {
        lookup(&self.values, name)
    }
}

/// The index of the environment `hops` steps out from environment `id`.
pub open spec fn ancestor<V>(envs: Seq<EnvInnerV<V>>, id: int, hops: nat) -> Option<int>
    decreases hops,
{
    if hops == 0 {
        Some(id)
    } else if 0 <= id < envs.len() {
        match envs[id].parent {
            Some(p) => ancestor(envs, p as int, (hops - 1) as nat),
            None => None,
        }
    } else {
        None
    }
}

/// Every environment is built in one that stands before it.
pub open spec fn envs_wf<V>(envs: Seq<EnvInnerV<V>>) -> bool {
    forall|i: int|
        0 <= i < envs.len() ==> match #[trigger] envs[i].parent {
            Some(p) => p < i,
            None => true,
        }
}

pub proof fn lemma_ancestor_in_store<V>(envs: Seq<EnvInnerV<V>>, id: int, hops: nat)
    requires
        envs_wf(envs),
        0 <= id < envs.len(),
    ensures
        ancestor(envs, id, hops) matches Some(a) ==> 0 <= a <= id,
    decreases hops,
{
    if hops > 0 {
        if let Some(p) = envs[id].parent {
            lemma_ancestor_in_store(envs, p as int, (hops - 1) as nat);
        }
    }
}

/// The store of all environments; the first is the global one.
pub struct Environments<V> {
    frames: Vec<EnvInner<V>>,
}

impl<V> View for Environments<V> {
    type V = Seq<EnvInnerV<V>>;

    closed spec fn view(&self) -> Seq<EnvInnerV<V>> {
        self.frames@.map_values(|f: EnvInner<V>| f@)
    }
}

/// A handle on an environment of the store.
#[derive(Clone, Copy, Debug, PartialEq, Eq, Structural)]
pub struct LocalEnvironment {
    pub id: usize,
}

/// A handle on the global environment.
#[derive(Clone, Copy, Debug, PartialEq, Eq, Structural)]
pub struct GlobalEnvironment {
    pub id: usize,
}

impl<V> Environments<V> {
    /// A store that holds the global environment only.
    pub fn new() -> (r: Self)
        ensures
            r@.len() == 1,
            r@[0].parent == None::<usize>,
            r@[0].values == Map::<Seq<char>, V>::empty(),
            envs_wf(r@),
    {
        let mut frames = Vec::new();
        frames.push(EnvInner::new());
        let r = Environments { frames };
        assert(r@[0] == r.frames@[0]@);
        r
    }

    pub fn len(&self) -> (r: usize)
        ensures
            r == self@.len(),
    {
        self.frames.len()
    }

    fn add(&mut self, env: EnvInner<V>) -> (r: usize)
        requires
            envs_wf(old(self)@),
            env@.parent matches Some(p) ==> p < old(self)@.len(),
        ensures
            r == old(self)@.len(),
            final(self)@ == old(self)@.push(env@),
            envs_wf(final(self)@),
    {
        let r = self.frames.len();
        let ghost e = env@;
        self.frames.push(env);
        assert(self@ =~= old(self)@.push(e));
        r
    }

    /// Takes the environment at `id` out of the store, leaving an empty one.
    fn take(&mut self, id: usize) -> (r: EnvInner<V>)
        requires
            id < old(self)@.len(),
        ensures
            r@ == old(self)@[id as int],
            final(self)@ == old(self)@.update(id as int, EnvInnerV { parent: None, values: Map::empty() }),
            final(self).frames@.len() == old(self).frames@.len(),
    {
        let mut e = EnvInner::new();
        let ghost ev = e@;
        self.frames.set_and_swap(id, &mut e);
        assert(self@ =~= old(self)@.update(id as int, ev));
        e
    }

    fn put(&mut self, id: usize, env: EnvInner<V>)
        requires
            id < old(self).frames@.len(),
        ensures
            final(self).frames@ == old(self).frames@.update(id as int, env),
            final(self)@ == old(self)@.update(id as int, env@),
    {
        let ghost e = env@;
        self.frames.set(id, env);
        assert(self@ =~= old(self)@.update(id as int, e));
    }
}

impl LocalEnvironment {
    /// A new environment with no enclosing one.
    pub fn new<V>(envs: &mut Environments<V>) -> (r: Self)
        requires
            envs_wf(old(envs)@),
        ensures
            r.id == old(envs)@.len(),
            final(envs)@ == old(envs)@.push(EnvInnerV { parent: None, values: Map::empty() }),
            envs_wf(final(envs)@),
    {
        let id = envs.add(EnvInner::new());
        LocalEnvironment { id }
    }

    /// A new environment built in `parent`.
    pub fn build<V>(envs: &mut Environments<V>, parent: LocalEnvironment) -> (r: Self)
        requires
            envs_wf(old(envs)@),
            parent.id < old(envs)@.len(),
        ensures
            r.id == old(envs)@.len(),
            final(envs)@ == old(envs)@.push(EnvInnerV { parent: Some(parent.id), values: Map::empty() }),
            envs_wf(final(envs)@),
    {
        let id = envs.add(EnvInner::build(parent.id));
        LocalEnvironment { id }
    }

    /// The environment `hops` steps out from this one.
    pub fn ancestor<V>(&self, envs: &Environments<V>, hops: usize) -> (r: Option<Self>)
        requires
            envs_wf(envs@),
            self.id < envs@.len(),
        ensures
            match r {
                Some(x) => ancestor(envs@, self.id as int, hops as nat) == Some(x.id as int) && x.id <= self.id,
                None => ancestor(envs@, self.id as int, hops as nat) == None::<int>,
            },
    {
        let mut cur = self.id;
        let mut h = hops;
        while h > 0
            invariant
                envs_wf(envs@),
                cur <= self.id,
                self.id < envs@.len(),
                ancestor(envs@, self.id as int, hops as nat) == ancestor(envs@, cur as int, h as nat),
            decreases h,
        {
            assert(envs@[cur as int] == envs.frames@[cur as int]@);
            match envs.frames[cur].parent {
                Some(p) => {
                    assert(envs@[cur as int].parent == Some(p));
                    cur = p;
                    h -= 1;
                },
                None => {
                    return None;
                },
            }
        }
        Some(LocalEnvironment { id: cur })
    }

    /// The value of `name` in the environment `hops` steps out.
    #[allow(non_snake_case)]
    pub fn getAt<'a, V>(&self, envs: &'a Environments<V>, name: &String, hops: usize) -> (r: Option<&'a V>)
        requires
            envs_wf(envs@),
            self.id < envs@.len(),
        ensures
            deref(r) == lookup_at(envs@, self.id as int, name@, hops as nat),
    {
        match self.ancestor(envs, hops) {
            Some(a) => {
                assert(envs@[a.id as int] == envs.frames@[a.id as int]@);
                envs.frames[a.id].get(name)
            },
            None => None,
        }
    }

    /// Rebinds `name` in the environment `hops` steps out, where it is
    /// bound there; says whether it was.
    #[allow(non_snake_case)]
    pub fn assignAt<V>(&self, envs: &mut Environments<V>, name: String, val: V, hops: usize) -> (r: bool)
        requires
            envs_wf(old(envs)@),
            self.id < old(envs)@.len(),
        ensures
            envs_wf(final(envs)@),
            r == (lookup_at(old(envs)@, self.id as int, name@, hops as nat) is Some),
            final(envs)@ == assign_at(old(envs)@, self.id as int, name@, val, hops as nat),
    {
        match self.ancestor(envs, hops) {
            Some(a) => {
                let ghost before = envs@;
                let mut e = envs.take(a.id);
                let r = e.assign(name, val);
                envs.put(a.id, e);
                proof {
                    if !r {
                        assert(envs@ =~= before);
                    } else {
                        assert(envs@ =~= before.update(a.id as int, EnvInnerV { parent: before[a.id as int].parent, values: before[a.id as int].values.insert(name@, val) }));
                    }
                    assert(envs_wf(envs@)) by {
                        assert forall|i: int| 0 <= i < envs@.len() implies match #[trigger] envs@[i].parent {
                            Some(p) => p < i,
                            None => true,
                        } by {
                            assert(envs@[i].parent == before[i].parent);
                        }
                    }
                }
                r
            },
            None => false,
        }
    }

    /// Binds `name` in the environment `hops` steps out, if there is one.
    #[allow(non_snake_case)]
    pub fn defineAt<V>(&self, envs: &mut Environments<V>, name: String, val: V, hops: usize)
        requires
            envs_wf(old(envs)@),
            self.id < old(envs)@.len(),
        ensures
            envs_wf(final(envs)@),
            final(envs)@ == define_at(old(envs)@, self.id as int, name@, val, hops as nat),
    {
        match self.ancestor(envs, hops) {
            Some(a) => {
                let ghost before = envs@;
                let mut e = envs.take(a.id);
                e.define(name, val);
                envs.put(a.id, e);
                proof {
                    assert(envs@ =~= before.update(a.id as int, EnvInnerV { parent: before[a.id as int].parent, values: before[a.id as int].values.insert(name@, val) }));
                    assert(envs_wf(envs@)) by {
                        assert forall|i: int| 0 <= i < envs@.len() implies match #[trigger] envs@[i].parent {
                            Some(p) => p < i,
                            None => true,
                        } by {
                            assert(envs@[i].parent == before[i].parent);
                        }
                    }
                }
            },
            None => {},
        }
    }
}

/// The store after `name` is bound to `val` in the environment `hops`
/// steps out from `id`.
pub open spec fn define_at<V>(envs: Seq<EnvInnerV<V>>, id: int, name: Seq<char>, val: V, hops: nat) -> Seq<EnvInnerV<V>> {
    match ancestor(envs, id, hops) {
        Some(a) => envs.update(a, EnvInnerV { parent: envs[a].parent, values: envs[a].values.insert(name, val) }),
        None => envs,
    }
}

/// The store after an assignment of `name` in the environment `hops` steps
/// out from `id`: a rebinding where the name is bound there, else nothing.
pub open spec fn assign_at<V>(envs: Seq<EnvInnerV<V>>, id: int, name: Seq<char>, val: V, hops: nat) -> Seq<EnvInnerV<V>> {
    if lookup_at(envs, id, name, hops) is Some {
        define_at(envs, id, name, val, hops)
    } else {
        envs
    }
}

/// The value a reference points to, if there is one.
pub open spec fn deref<V>(r: Option<&V>) -> Option<V> {
    match r {
        Some(x) => Some(*x),
        None => None,
    }
}

/// What a read of `name` gives in the environment `hops` steps out from
/// `id`: nothing where there is no such environment or the name is not
/// bound there.
pub open spec fn lookup_at<V>(envs: Seq<EnvInnerV<V>>, id: int, name: Seq<char>, hops: nat) -> Option<V> {
    match ancestor(envs, id, hops) {
        Some(a) => if 0 <= a < envs.len() && envs[a].values.contains_key(name) {
            Some(envs[a].values[name])
        } else {
            None
        },
        None => None,
    }
}

impl GlobalEnvironment {
    /// The global environment of a store, which is its first.
    pub fn new() -> (r: Self)
        ensures
            r.id == 0,
    {
        GlobalEnvironment { id: 0 }
    }

    /// Rebinds a global where it is bound; says whether it was.
    pub fn assign<V>(&self, envs: &mut Environments<V>, name: String, val: V) -> (r: bool)
        requires
            envs_wf(old(envs)@),
            self.id < old(envs)@.len(),
        ensures
            envs_wf(final(envs)@),
            r == (lookup_at(old(envs)@, self.id as int, name@, 0) is Some),
            final(envs)@ == assign_at(old(envs)@, self.id as int, name@, val, 0),
    {
        let local = LocalEnvironment { id: self.id };
        local.assignAt(envs, name, val, 0)
    }

    /// The value of a global, if it is bound.
    pub fn get<'a, V>(&self, envs: &'a Environments<V>, name: &String) -> (r: Option<&'a V>)
        requires
            envs_wf(envs@),
            self.id < envs@.len(),
        ensures
            deref(r) == lookup_at(envs@, self.id as int, name@, 0),
    {
        let local = LocalEnvironment { id: self.id };
        local.getAt(envs, name, 0)
    }

    /// Binds a global, whether it was bound or not.
    pub fn define<V>(&self, envs: &mut Environments<V>, name: String, val: V)
        requires
            envs_wf(old(envs)@),
            self.id < old(envs)@.len(),
        ensures
            envs_wf(final(envs)@),
            final(envs)@ == define_at(old(envs)@, self.id as int, name@, val, 0),
    {
        let local = LocalEnvironment { id: self.id };
        local.defineAt(envs, name, val, 0)
    }
}

impl LocalEnvironment {
    /// The handle on the global environment, as an ordinary environment.
    pub fn from_global(g: GlobalEnvironment) -> (r: Self)
        ensures
            r.id == g.id,
    {
        LocalEnvironment { id: g.id }
    }
}

// ---------------------------------------------------------------------------
// Laws of the store.
// ---------------------------------------------------------------------------

/// Binding a name changes no environment's enclosing environment.
pub proof fn law_define_keeps_ancestors<V>(
    envs: Seq<EnvInnerV<V>>,
    id: int,
    name: Seq<char>,
    val: V,
    hops: nat,
    id2: int,
    hops2: nat,
)
    requires
        envs_wf(envs),
        0 <= id < envs.len(),
    ensures
        ancestor(define_at(envs, id, name, val, hops), id2, hops2) == ancestor(envs, id2, hops2),
    decreases hops2,
{
    lemma_ancestor_in_store(envs, id, hops);
    if hops2 > 0 && 0 <= id2 < envs.len() {
        if let Some(p) = envs[id2].parent {
            law_define_keeps_ancestors(envs, id, name, val, hops, p as int, (hops2 - 1) as nat);
        }
    }
}

/// A read gives back what a definition at the same place wrote.
pub proof fn law_read_after_define<V>(envs: Seq<EnvInnerV<V>>, id: int, name: Seq<char>, val: V, hops: nat)
    requires
        envs_wf(envs),
        0 <= id < envs.len(),
        ancestor(envs, id, hops) is Some,
    ensures
        lookup_at(define_at(envs, id, name, val, hops), id, name, hops) == Some(val),
{
    lemma_ancestor_in_store(envs, id, hops);
    law_define_keeps_ancestors(envs, id, name, val, hops, id, hops);
}

/// A definition changes no read of another name, nor any read that lands in
/// another environment.
pub proof fn law_define_is_local<V>(
    envs: Seq<EnvInnerV<V>>,
    id: int,
    name: Seq<char>,
    val: V,
    hops: nat,
    id2: int,
    name2: Seq<char>,
    hops2: nat,
)
    requires
        envs_wf(envs),
        0 <= id < envs.len(),
        name2 != name || ancestor(envs, id2, hops2) != ancestor(envs, id, hops),
    ensures
        lookup_at(define_at(envs, id, name, val, hops), id2, name2, hops2) == lookup_at(envs, id2, name2, hops2),
{
    lemma_ancestor_in_store(envs, id, hops);
    law_define_keeps_ancestors(envs, id, name, val, hops, id2, hops2);
}

/// An assignment succeeds exactly where the name is bound, and is then read
/// back; where it fails the store is unchanged.
pub proof fn law_read_after_assign<V>(envs: Seq<EnvInnerV<V>>, id: int, name: Seq<char>, val: V, hops: nat)
    requires
        envs_wf(envs),
        0 <= id < envs.len(),
    ensures
        lookup_at(envs, id, name, hops) is Some ==> lookup_at(assign_at(envs, id, name, val, hops), id, name, hops) == Some(val),
        lookup_at(envs, id, name, hops) is None ==> assign_at(envs, id, name, val, hops) == envs,
{
    if lookup_at(envs, id, name, hops) is Some {
        law_read_after_define(envs, id, name, val, hops);
    }
}

/// In an environment built in `parent`, a read one step further out is a
/// read in `parent`.
pub proof fn law_build_reads_parent<V>(envs: Seq<EnvInnerV<V>>, parent: usize, name: Seq<char>, hops: nat)
    requires
        envs_wf(envs),
        0 <= parent < envs.len(),
    ensures
        lookup_at(
            envs.push(EnvInnerV { parent: Some(parent), values: Map::empty() }),
            envs.len() as int,
            name,
            hops + 1,
        ) == lookup_at(envs, parent as int, name, hops),
{
    let e2 = envs.push(EnvInnerV { parent: Some(parent), values: Map::empty() });
    lemma_ancestor_push(envs, EnvInnerV { parent: Some(parent), values: Map::empty() }, parent as int, hops);
    lemma_ancestor_in_store(envs, parent as int, hops);
    assert(e2[envs.len() as int].parent == Some(parent));
    assert(ancestor(e2, envs.len() as int, hops + 1) == ancestor(e2, parent as int, hops));
}

/// Adding an environment to the store leaves the ancestors of those already
/// in it as they were.
pub proof fn lemma_ancestor_push<V>(envs: Seq<EnvInnerV<V>>, e: EnvInnerV<V>, id: int, hops: nat)
    requires
        envs_wf(envs),
        0 <= id < envs.len(),
    ensures
        ancestor(envs.push(e), id, hops) == ancestor(envs, id, hops),
    decreases hops,
{
    if hops > 0 {
        assert(envs.push(e)[id] == envs[id]);
        if let Some(p) = envs[id].parent {
            lemma_ancestor_push(envs, e, p as int, (hops - 1) as nat);
        }
    }
}

/// The index of the last binding of `name`, if there is one.
pub fn position<V>(s: &Vec<(String, V)>, name: &String) -> (r: Option<usize>)
    ensures
        match r {
            Some(j) => j < s@.len() && s@[j as int].0@ == name@ && forall|i: int| j < i < s@.len() ==> #[trigger] s@[i].0@ != name@,
            None => forall|i: int| 0 <= i < s@.len() ==> #[trigger] s@[i].0@ != name@,
        },
{
    let n = s.len();
    let mut j = n;
    while j > 0
        invariant
            j <= n,
            n == s@.len(),
            forall|i: int| j <= i < n ==> #[trigger] s@[i].0@ != name@,
        decreases j,
    {
        if s[j - 1].0 == *name {
            return Some(j - 1);
        }
        j -= 1;
    }
    None
}

/// The value that a list of bindings gives `name`, if any.
pub fn lookup<'a, V>(s: &'a Vec<(String, V)>, name: &String) -> (r: Option<&'a V>)
    ensures
        deref(r) == (if values_map(s@).contains_key(name@) {
            Some(values_map(s@)[name@])
        } else {
            None
        }),
{
    match position(s, name) {
        Some(j) => {
            proof {
                lemma_values_prefix(s@, j + 1, name@);
                assert(s@.subrange(0, j + 1).drop_last() =~= s@.subrange(0, j as int));
            }
            Some(&s[j].1)
        },
        None => {
            proof {
                lemma_values_prefix(s@, 0, name@);
            }
            None
        },
    }
}

/// Replacing the last binding of a name rebinds the name.
proof fn lemma_values_update<V>(s: Seq<(String, V)>, j: int, name: String, v: V)
    requires
        0 <= j < s.len(),
        s[j].0@ == name@,
        forall|i: int| j < i < s.len() ==> #[trigger] s[i].0@ != name@,
    ensures
        values_map(s.update(j, (name, v))) == values_map(s).insert(name@, v),
    decreases s.len(),
{
    let t = s.update(j, (name, v));
    if j == s.len() - 1 {
        assert(t.drop_last() =~= s.drop_last());
        assert(values_map(t) =~= values_map(s).insert(name@, v));
    } else {
        assert(t.drop_last() =~= s.drop_last().update(j, (name, v)));
        lemma_values_update(s.drop_last(), j, name, v);
        assert(s.last().0@ != name@);
        assert(values_map(t) =~= values_map(s).insert(name@, v));
    }
}

/// Binds `name` to `v`: in place where it is bound, else at the end.
pub fn bind<V>(s: &mut Vec<(String, V)>, name: String, v: V)
    ensures
        values_map(final(s)@) == values_map(old(s)@).insert(name@, v),
{
    match position(s, &name) {
        Some(j) => {
            proof {
                lemma_values_update(old(s)@, j as int, name, v);
            }
            s.set(j, (name, v));
        },
        None => {
            let ghost before = s@;
            s.push((name, v));
            assert(s@.drop_last() =~= before);
        },
    }
}

/// Going `a` steps out and then `b` more is going `a + b` steps out.
pub proof fn law_ancestor_steps_add<V>(envs: Seq<EnvInnerV<V>>, id: int, a: nat, b: nat)
    ensures
        ancestor(envs, id, a + b) == (match ancestor(envs, id, a) {
            Some(mid) => ancestor(envs, mid, b),
            None => None,
        }),
    decreases a,
{
    if a > 0 && 0 <= id < envs.len() {
        if let Some(p) = envs[id].parent {
            law_ancestor_steps_add(envs, p as int, (a - 1) as nat, b);
            assert((a + b - 1) as nat == ((a - 1) as nat + b) as nat);
        }
    }
}

} // verus!
