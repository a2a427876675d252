use vstd::prelude::*;
use vstd::string::StringExecFns;

verus! {

/// A distributable unit: a named, versioned bundle of source files and the names
/// of the components it needs.
#[derive(Debug, Clone)]
pub struct ComponentInfo {
    pub name: String,
    pub description: String,
    pub version: String,
    pub files: Vec<String>,
    pub dependencies: Vec<String>,
}

/// Failures of catalog construction and lookup.
#[derive(Debug, Clone, PartialEq, Eq)]
pub enum RegistryError {
    /// No component has this name.
    NotFound(String),
    /// Two entries of a table share this name.
    DuplicateComponent(String),
    /// `component` names a dependency that the table does not define.
    UnknownDependency { component: String, dependency: String },
    /// This component lies on a dependency cycle, or depends on one.
    CyclicDependency(String),
}

impl RegistryError {
    /// This is the lookup failure for `name`.
    pub open spec fn is_not_found(&self, name: Seq<char>) -> bool {
        match self {
            RegistryError::NotFound(n) => n@ == name,
            _ => false,
        }
    }
}

/// The views of a sequence of strings.
pub open spec fn strs(v: Seq<String>) -> Seq<Seq<char>> {
    v.map_values(|s: String| s@)
}

impl ComponentInfo {
    pub open spec fn dep_names(&self) -> Seq<Seq<char>> {
        strs(self.dependencies@)
    }

    pub open spec fn file_names(&self) -> Seq<Seq<char>> {
        strs(self.files@)
    }
}

/// Some entry of `reg` is named `name`.
pub open spec fn has_component(reg: Seq<ComponentInfo>, name: Seq<char>) -> bool {
    exists|i: int| 0 <= i < reg.len() && #[trigger] reg[i].name@ == name
}

/// Some entry before position `end` is named `name`.
pub open spec fn defined_before(reg: Seq<ComponentInfo>, name: Seq<char>, end: int) -> bool {
    exists|j: int| 0 <= j < end && #[trigger] reg[j].name@ == name
}

/// The position of the entry named `name` (meaningful when there is one).
pub open spec fn index_of(reg: Seq<ComponentInfo>, name: Seq<char>) -> int {
    choose|i: int| 0 <= i < reg.len() && #[trigger] reg[i].name@ == name
}

pub open spec fn names_unique(reg: Seq<ComponentInfo>) -> bool {
    forall|i: int, j: int|
        0 <= i < reg.len() && 0 <= j < reg.len() && i != j ==> #[trigger] reg[i].name@
            != #[trigger] reg[j].name@
}

/// Every dependency of every entry names an entry stored before it: the table is
/// closed and dependencies-first, hence free of cycles.
pub open spec fn deps_precede(reg: Seq<ComponentInfo>) -> bool {
    forall|i: int, k: int|
        0 <= i < reg.len() && 0 <= k < reg[i].dependencies.len() ==> defined_before(
            reg,
            #[trigger] reg[i].dependencies@[k]@,
            i,
        )
}

pub open spec fn catalog_wf(reg: Seq<ComponentInfo>) -> bool {
    names_unique(reg) && deps_precede(reg)
}

/// Entry `i` declares the entry `j` as a dependency.
pub open spec fn depends_on(reg: Seq<ComponentInfo>, i: int, j: int) -> bool {
    reg[i].dep_names().contains(reg[j].name@)
}

/// A set of positions that holds the dependencies of each of its members.
pub open spec fn dep_closed(reg: Seq<ComponentInfo>, s: Set<int>) -> bool {
    forall|i: int, j: int|
        0 <= i < reg.len() && 0 <= j < reg.len() && #[trigger] s.contains(i) && #[trigger] depends_on(
            reg,
            i,
            j,
        ) ==> s.contains(j)
}

/// Entry `j` belongs to the closure of entry `root`: every set of positions that
/// holds `root` and the dependencies of its members holds `j`.
pub open spec fn in_closure(reg: Seq<ComponentInfo>, root: int, j: int) -> bool {
    forall|s: Set<int>| #[trigger] dep_closed(reg, s) && s.contains(root) ==> s.contains(j)
}

/// The positions of the closure of `root` below `end`, ascending.
pub open spec fn closure_upto(reg: Seq<ComponentInfo>, root: int, end: int) -> Seq<int>
    decreases end,
{
    if end <= 0 {
        Seq::empty()
    } else if in_closure(reg, root, end - 1) {
        closure_upto(reg, root, end - 1).push(end - 1)
    } else {
        closure_upto(reg, root, end - 1)
    }
}

/// The names of the closure of `root`, dependencies first, in catalog order.
pub open spec fn resolution(reg: Seq<ComponentInfo>, root: int) -> Seq<Seq<char>> {
    closure_upto(reg, root, reg.len() as int).map_values(|j: int| reg[j].name@)
}

/// What resolving `name` yields: its closure, or nothing when no entry has that name.
pub open spec fn resolve_spec(reg: Seq<ComponentInfo>, name: Seq<char>) -> Option<Seq<Seq<char>>> {
    if has_component(reg, name) {
        Some(resolution(reg, index_of(reg, name)))
    } else {
        None
    }
}

/// The names that catalog listings leave out: shared helpers installed only as
/// dependencies.
pub open spec fn is_reserved(name: Seq<char>) -> bool {
    name == "traits"@ || name == "prelude"@
}

/// Lexicographic order on names, by character code point.
pub open spec fn name_le(a: Seq<char>, b: Seq<char>) -> bool
    decreases a.len(),
{
    if a.len() == 0 {
        true
    } else if b.len() == 0 {
        false
    } else if a[0] != b[0] {
        (a[0] as u32) < (b[0] as u32)
    } else {
        name_le(a.drop_first(), b.drop_first())
    }
}

/// The names of the built-in catalog, in stored order.
pub open spec fn builtin_names() -> Seq<Seq<char>> {
    seq![
        "traits"@,
        "prelude"@,
        "button"@,
        "input"@,
        "checkbox"@,
        "card"@,
        "dialog"@,
        "badge"@,
    ]
}

proof fn lemma_builtin_names_distinct()
    ensures
        forall|a: int, b: int|
            0 <= a < 8 && 0 <= b < 8 && a != b ==> #[trigger] builtin_names()[a]
                != #[trigger] builtin_names()[b],
{
    reveal_strlit("traits");
    reveal_strlit("prelude");
    reveal_strlit("button");
    reveal_strlit("input");
    reveal_strlit("checkbox");
    reveal_strlit("card");
    reveal_strlit("dialog");
    reveal_strlit("badge");
    let n = builtin_names();
    assert(n[0].len() == 6 && n[0][0] == 't');
    assert(n[1].len() == 7 && n[1][0] == 'p');
    assert(n[2].len() == 6 && n[2][0] == 'b');
    assert(n[3].len() == 5 && n[3][0] == 'i');
    assert(n[4].len() == 8 && n[4][0] == 'c');
    assert(n[5].len() == 4 && n[5][0] == 'c');
    assert(n[6].len() == 6 && n[6][0] == 'd');
    assert(n[7].len() == 5 && n[7][0] == 'b');
    assert forall|a: int, b: int| 0 <= a < 8 && 0 <= b < 8 && a != b implies #[trigger] n[a] != #[trigger] n[b] by {
        if n[a] == n[b] {
            assert(n[a][0] == n[b][0]);
        }
    }
}

fn entry(name: &str, description: &str, file: &str, dependency: Option<&str>) -> (c:
    ComponentInfo)
    ensures
        c.name@ == name@,
        c.description@ == description@,
        c.version@ == "0.1.0"@,
        c.file_names() == seq![file@],
        c.dep_names() == match dependency {
            Some(d) => seq![d@],
            None => Seq::<Seq<char>>::empty(),
        },
{
    let mut files: Vec<String> = Vec::new();
    files.push(file.to_owned());
    let mut dependencies: Vec<String> = Vec::new();
    if let Some(d) = dependency {
        dependencies.push(d.to_owned());
    }
    let c = ComponentInfo {
        name: name.to_owned(),
        description: description.to_owned(),
        version: "0.1.0".to_owned(),
        files,
        dependencies,
    };
    proof {
        assert(c.file_names() =~= seq![file@]);
        assert(c.dep_names() =~= match dependency {
            Some(d) => seq![d@],
            None => Seq::<Seq<char>>::empty(),
        });
    }
    c
}

fn is_reserved_name(name: &String) -> (r: bool)
    ensures
        r == is_reserved(name@),
{
    let traits = String::from_str("traits");
    let prelude = String::from_str("prelude");
    *name == traits || *name == prelude
}

/// Relies on `slice::sort_by` with `str`'s ordering of the names: the vector ends
/// up a permutation of itself, ordered by name. `str` orders lexicographically by
/// UTF-8 bytes, which orders code points as their numbers do.
#[verifier::external_body]
fn sort_by_name(v: &mut Vec<&ComponentInfo>)
    ensures
        final(v)@.to_multiset() == old(v)@.to_multiset(),
        forall|i: int, j: int|
            0 <= i < j < final(v)@.len() ==> name_le(
                #[trigger] final(v)@[i].name@,
                #[trigger] final(v)@[j].name@,
            ),
{
    v.sort_by(|a, b| a.name.cmp(&b.name));
}

/// The component catalog, stored dependencies-first.
#[derive(Debug)]
pub struct Registry {
    components: Vec<ComponentInfo>,
}

impl View for Registry {
    type V = Seq<ComponentInfo>;

    closed spec fn view(&self) -> Seq<ComponentInfo> {
        self.components@
    }
}

impl Registry {
    pub open spec fn wf(&self) -> bool {
        catalog_wf(self@)
    }

    /// The position of the entry named `name`.
    fn find(&self, name: &String) -> (r: Option<usize>)
        requires
            self.wf(),
        ensures
            match r {
                Some(i) => i < self@.len() && self@[i as int].name@ == name@ && has_component(
                    self@,
                    name@,
                ) && i == index_of(self@, name@),
                None => !has_component(self@, name@),
            },
    {
        let r = position_of(&self.components, name);
        if let Some(i) = r {
            proof {
                lemma_index_of_unique(self@, name@, i as int);
            }
        }
        r
    }

    /// A catalog of the given entries, stored dependencies-first. Fails when two
    /// entries share a name, then when a dependency names no entry, then when the
    /// dependencies form a cycle.
    pub fn from_components(table: Vec<ComponentInfo>) -> (r: Result<Registry, RegistryError>)
        ensures
            r is Ok <==> (names_unique(table@) && deps_defined(table@) && acyclic(table@)),
            match r {
                Ok(reg) => {
                    &&& reg.wf()
                    &&& forall|c: ComponentInfo| #[trigger] reg@.contains(c) <==> table@.contains(c)
                },
                Err(RegistryError::DuplicateComponent(n)) => exists|i: int, j: int|
                    0 <= i < j < table@.len() && #[trigger] table@[i].name@ == n@
                        && #[trigger] table@[j].name@ == n@,
                Err(RegistryError::UnknownDependency { component, dependency }) => {
                    &&& names_unique(table@)
                    &&& has_component(table@, component@)
                    &&& table@[index_of(table@, component@)].dep_names().contains(dependency@)
                    &&& !has_component(table@, dependency@)
                },
                Err(RegistryError::CyclicDependency(n)) => {
                    &&& names_unique(table@)
                    &&& deps_defined(table@)
                    &&& !acyclic(table@)
                    &&& has_component(table@, n@)
                },
                Err(RegistryError::NotFound(_)) => false,
            },
    {
        let ghost t = table@;
        let n = table.len();
        // names
        let mut i: usize = 0;
        while i < n
            invariant
                n == t.len(),
                t == table@,
                i <= n,
                forall|a: int, b: int|
                    0 <= a < i && 0 <= b < i && a != b ==> #[trigger] t[a].name@ != #[trigger] t[b].name@,
            decreases n - i,
        {
            let mut j: usize = 0;
            while j < i
                invariant
                    n == t.len(),
                    t == table@,
                    j <= i < n,
                    forall|a: int, b: int|
                        0 <= a < i && 0 <= b < i && a != b ==> #[trigger] t[a].name@ != #[trigger] t[b].name@,
                    forall|b: int| 0 <= b < j ==> #[trigger] t[b].name@ != t[i as int].name@,
                decreases i - j,
            {
                if table[j].name == table[i].name {
                    return Err(RegistryError::DuplicateComponent(table[i].name.clone()));
                }
                j = j + 1;
            }
            i = i + 1;
        }
        assert(names_unique(t));
        // dependencies
        let mut i: usize = 0;
        while i < n
            invariant
                n == t.len(),
                t == table@,
                i <= n,
                names_unique(t),
                forall|a: int, k: int|
                    0 <= a < i && 0 <= k < t[a].dependencies.len() ==> has_component(
                        t,
                        #[trigger] t[a].dependencies@[k]@,
                    ),
            decreases n - i,
        {
            let mut k: usize = 0;
            while k < table[i].dependencies.len()
                invariant
                    n == t.len(),
                    t == table@,
                    i < n,
                    names_unique(t),
                    k <= t[i as int].dependencies.len(),
                    forall|a: int, k2: int|
                        0 <= a < i && 0 <= k2 < t[a].dependencies.len() ==> has_component(
                            t,
                            #[trigger] t[a].dependencies@[k2]@,
                        ),
                    forall|k2: int|
                        0 <= k2 < k ==> has_component(t, #[trigger] t[i as int].dependencies@[k2]@),
                decreases t[i as int].dependencies.len() - k,
            {
                if position_of(&table, &table[i].dependencies[k]).is_none() {
                    proof {
                        lemma_index_of_unique(t, t[i as int].name@, i as int);
                        assert(t[i as int].dep_names()[k as int] == t[i as int].dependencies@[k as int]@);
                    }
                    return Err(
                        RegistryError::UnknownDependency {
                            component: table[i].name.clone(),
                            dependency: table[i].dependencies[k].clone(),
                        },
                    );
                }
                k = k + 1;
            }
            i = i + 1;
        }
        assert(deps_defined(t));
        // dependencies-first order
        let mut placed: Vec<bool> = Vec::new();
        let mut i: usize = 0;
        while i < n
            invariant
                i <= n,
                placed.len() == i,
                forall|q: int| 0 <= q < i ==> !#[trigger] placed@[q],
            decreases n - i,
        {
            placed.push(false);
            i = i + 1;
        }
        let mut order: Vec<usize> = Vec::new();
        loop
            invariant
                n == t.len(),
                t == table@,
                names_unique(t),
                deps_defined(t),
                placed.len() == n,
                order@.no_duplicates(),
                forall|p: int| 0 <= p < order.len() ==> #[trigger] order@[p] < n && placed@[order@[p] as int],
                forall|q: int| 0 <= q < n && #[trigger] placed@[q] ==> order@.contains(q as usize),
                forall|p: int, k: int|
                    0 <= p < order.len() && 0 <= k < t[order@[p] as int].dependencies.len()
                        ==> #[trigger] order@.take(p).contains(
                        index_of(t, t[order@[p] as int].dependencies@[k]@) as usize,
                    ),
            ensures
                placed.len() == n,
                order@.no_duplicates(),
                forall|p: int| 0 <= p < order.len() ==> #[trigger] order@[p] < n,
                forall|q: int| 0 <= q < n ==> #[trigger] placed@[q],
                forall|q: int| 0 <= q < n && #[trigger] placed@[q] ==> order@.contains(q as usize),
                forall|p: int, k: int|
                    0 <= p < order.len() && 0 <= k < t[order@[p] as int].dependencies.len()
                        ==> #[trigger] order@.take(p).contains(
                        index_of(t, t[order@[p] as int].dependencies@[k]@) as usize,
                    ),
            decreases n - order.len(),
        {
            let mut i: usize = 0;
            let mut unplaced: Option<usize> = None;
            let mut next: Option<usize> = None;
            while i < n && next.is_none()
                invariant
                    n == t.len(),
                    t == table@,
                    names_unique(t),
                    deps_defined(t),
                    placed.len() == n,
                    i <= n,
                    match next {
                        Some(x) => x < n && !placed@[x as int] && deps_placed(t, placed@, x as int),
                        None => forall|q: int|
                            0 <= q < i && !#[trigger] placed@[q] ==> !deps_placed(t, placed@, q),
                    },
                    match unplaced {
                        Some(u) => u < n && !placed@[u as int],
                        None => forall|q: int| 0 <= q < i ==> #[trigger] placed@[q],
                    },
                decreases n - i,
            {
                if !placed[i] {
                    unplaced = Some(i);
                    if deps_all_placed(&table, &placed, i) {
                        next = Some(i);
                    }
                }
                i = i + 1;
            }
            match next {
                Some(q) => {
                    proof {
                        lemma_distinct_bound(order@, n as int, q as int);
                    }
                    let ghost prev = order@;
                    order.push(q);
                    placed.set(q, true);
                    proof {
                        assert(order@.take(prev.len() as int) =~= prev);
                        assert forall|p: int, k: int|
                            0 <= p < order.len() && 0 <= k < t[order@[p] as int].dependencies.len()
                                implies #[trigger] order@.take(p).contains(
                                index_of(t, t[order@[p] as int].dependencies@[k]@) as usize,
                            ) by {
                            if p < prev.len() {
                                assert(order@.take(p) =~= prev.take(p));
                            } else {
                                let d = index_of(t, t[q as int].dependencies@[k]@);
                                assert(has_component(t, t[q as int].dependencies@[k]@));
                                assert(placed@[d]);
                            }
                        }
                        assert forall|qq: int| 0 <= qq < n && #[trigger] placed@[qq] implies order@.contains(qq as usize) by {
                            if qq != q {
                                assert(prev.contains(qq as usize));
                                let p = choose|p: int| 0 <= p < prev.len() && prev[p] == qq as usize;
                                assert(order@[p] == qq as usize);
                            } else {
                                assert(order@[prev.len() as int] == q);
                            }
                        }
                    }
                },
                None => {
                    match unplaced {
                        Some(u) => {
                            proof {
                                lemma_stuck_not_acyclic(t, placed@, u as int);
                                assert(t[u as int].name@ == t[u as int].name@);
                            }
                            return Err(RegistryError::CyclicDependency(table[u].name.clone()));
                        },
                        None => {
                            break;
                        },
                    }
                },
            }
        }
        // move the entries into that order
        let mut slots: Vec<Option<ComponentInfo>> = Vec::new();
        let mut rest = table;
        while rest.len() > 0
            invariant
                n == t.len(),
                rest.len() <= n,
                rest@ == t.take(rest.len() as int),
                slots.len() + rest.len() == n,
                forall|k: int| 0 <= k < slots.len() ==> #[trigger] slots@[k] == Some(t[n - 1 - k]),
            decreases rest.len(),
        {
            let ghost before = rest@;
            match rest.pop() {
                Some(c) => {
                    slots.push(Some(c));
                    proof {
                        assert(rest@ =~= t.take(rest.len() as int));
                    }
                },
                None => {},
            }
        }
        let mut components: Vec<ComponentInfo> = Vec::new();
        let mut p: usize = 0;
        while p < order.len()
            invariant
                n == t.len(),
                order@.no_duplicates(),
                forall|p2: int| 0 <= p2 < order.len() ==> #[trigger] order@[p2] < n,
                p <= order.len(),
                slots.len() == n,
                components.len() == p,
                forall|p2: int| 0 <= p2 < p ==> #[trigger] components@[p2] == t[order@[p2] as int],
                forall|q: int|
                    0 <= q < n ==> #[trigger] slots@[n - 1 - q] == if order@.take(p as int).contains(
                        q as usize,
                    ) {
                        None
                    } else {
                        Some(t[q])
                    },
            decreases order.len() - p,
        {
            let q = order[p];
            let ghost before = slots@;
            slots.push(None);
            let item = slots.swap_remove(n - 1 - q);
            proof {
                assert(!order@.take(p as int).contains(q)) by {
                    if order@.take(p as int).contains(q) {
                        let p2 = choose|p2: int| 0 <= p2 < p && order@.take(p as int)[p2] == q;
                        assert(order@[p2] == order@[p as int]);
                    }
                }
                assert(order@.take(p + 1) =~= order@.take(p as int).push(q));
                assert forall|qq: int| 0 <= qq < n implies #[trigger] slots@[n - 1 - qq] == if order@.take(p + 1).contains(
                        qq as usize,
                    ) {
                        None
                    } else {
                        Some(t[qq])
                    } by {
                    if qq != q {
                        assert(order@.take(p + 1).contains(qq as usize) <==> order@.take(p as int).contains(qq as usize));
                    } else {
                        assert(order@.take(p + 1)[p as int] == q);
                    }
                }
            }
            match item {
                Some(c) => {
                    components.push(c);
                },
                None => {
                    proof {
                        assert(before[n - 1 - q] == Some(t[q as int]));
                    }
                },
            }
            p = p + 1;
        }
        let reg = Registry { components };
        proof {
            let out = reg@;
            assert forall|a: int, b: int|
                0 <= a < out.len() && 0 <= b < out.len() && a != b implies #[trigger] out[a].name@
                != #[trigger] out[b].name@ by {
                assert(order@[a] != order@[b]);
            }
            assert forall|pp: int, k: int|
                0 <= pp < out.len() && 0 <= k < out[pp].dependencies.len() implies defined_before(
                out,
                #[trigger] out[pp].dependencies@[k]@,
                pp,
            ) by {
                let d = t[order@[pp] as int].dependencies@[k]@;
                assert(has_component(t, d));
                assert(order@.take(pp).contains(index_of(t, d) as usize));
                let p2 = choose|p2: int| 0 <= p2 < pp && order@.take(pp)[p2] == index_of(t, d) as usize;
                assert(out[p2].name@ == d);
            }
            assert forall|c: ComponentInfo| #[trigger] out.contains(c) <==> t.contains(c) by {
                if out.contains(c) {
                    let pp = choose|pp: int| 0 <= pp < out.len() && out[pp] == c;
                    assert(t[order@[pp] as int] == c);
                }
                if t.contains(c) {
                    let q = choose|q: int| 0 <= q < t.len() && t[q] == c;
                    assert(placed@[q]);
                    assert(order@.contains(q as usize));
                    let pp = choose|pp: int| 0 <= pp < order.len() && order@[pp] == q as usize;
                    assert(out[pp] == c);
                }
            }
            lemma_ordered_is_acyclic(t, out);
        }
        Ok(reg)
    }

    /// How many entries the catalog holds.
    pub fn len(&self) -> (r: usize)
        ensures
            r == self@.len(),
    {
        self.components.len()
    }

    /// The entry at position `i` of the stored order.
    pub fn component_at(&self, i: usize) -> (r: &ComponentInfo)
        requires
            i < self@.len(),
        ensures
            *r == self@[i as int],
    {
        &self.components[i]
    }

    /// The position of the entry named `name`.
    pub fn position(&self, name: &str) -> (r: Option<usize>)
        requires
            self.wf(),
        ensures
            match r {
                Some(i) => has_component(self@, name@) && i == index_of(self@, name@) && i
                    < self@.len(),
                None => !has_component(self@, name@),
            },
    {
        let key = name.to_owned();
        self.find(&key)
    }

    /// The entry named `name`.
    pub fn get_component(&self, name: &str) -> (r: Result<&ComponentInfo, RegistryError>)
        requires
            self.wf(),
        ensures
            match r {
                Ok(c) => has_component(self@, name@) && *c == self@[index_of(self@, name@)],
                Err(e) => !has_component(self@, name@) && e.is_not_found(name@),
            },
    {
        let key = name.to_owned();
        match self.find(&key) {
            Some(i) => Ok(&self.components[i]),
            None => Err(RegistryError::NotFound(key)),
        }
    }

    /// The built-in catalog: the components that the component source tree holds,
    /// stored dependencies-first.
    pub fn new() -> (r: Self)
        ensures
            r.wf(),
            r@.len() == 8,
            r@.map_values(|c: ComponentInfo| c.name@) == builtin_names(),
            forall|i: int| 0 <= i < 8 ==> #[trigger] r@[i].version@ == "0.1.0"@,
            forall|i: int|
                0 <= i < 8 ==> #[trigger] r@[i].file_names() == seq![r@[i].name@ + ".rs"@],
            forall|i: int|
                0 <= i < 8 ==> #[trigger] r@[i].dep_names() == if 2 <= i < 5 {
                    seq!["traits"@]
                } else {
                    Seq::empty()
                },
    {
        proof {
            reveal_strlit("traits");
            reveal_strlit("prelude");
            reveal_strlit("button");
            reveal_strlit("input");
            reveal_strlit("checkbox");
            reveal_strlit("card");
            reveal_strlit("dialog");
            reveal_strlit("badge");
            reveal_strlit("traits.rs");
            reveal_strlit("prelude.rs");
            reveal_strlit("button.rs");
            reveal_strlit("input.rs");
            reveal_strlit("checkbox.rs");
            reveal_strlit("card.rs");
            reveal_strlit("dialog.rs");
            reveal_strlit("badge.rs");
            reveal_strlit(".rs");
        }
        let mut components: Vec<ComponentInfo> = Vec::new();
        components.push(entry("traits", "Common traits used by components", "traits.rs", None));
        components.push(entry("prelude", "Common imports and utilities", "prelude.rs", None));
        components.push(
            entry(
                "button",
                "A customizable button component with multiple variants",
                "button.rs",
                Some("traits"),
            ),
        );
        components.push(
            entry("input", "Text input with validation support", "input.rs", Some("traits")),
        );
        components.push(
            entry("checkbox", "Checkbox input component", "checkbox.rs", Some("traits")),
        );
        components.push(
            entry("card", "Card container with header, content, and footer", "card.rs", None),
        );
        components.push(entry("dialog", "Modal dialog with overlay", "dialog.rs", None));
        components.push(entry("badge", "Badge component for labels and tags", "badge.rs", None));
        let r = Registry { components };
        proof {
            let reg = r@;
            assert(reg.map_values(|c: ComponentInfo| c.name@) =~= builtin_names());
            lemma_builtin_names_distinct();
            assert forall|i: int, j: int|
                0 <= i < reg.len() && 0 <= j < reg.len() && i != j implies #[trigger] reg[i].name@
                != #[trigger] reg[j].name@ by {
                assert(reg[i].name@ == builtin_names()[i]);
                assert(reg[j].name@ == builtin_names()[j]);
            }
            assert forall|i: int| 0 <= i < 8 implies #[trigger] r@[i].dep_names() == if 2 <= i < 5 {
                    seq!["traits"@]
                } else {
                    Seq::empty()
                } by {
                assert(i == 0 || i == 1 || i == 2 || i == 3 || i == 4 || i == 5 || i == 6 || i == 7);
            }
            assert forall|i: int, k: int|
                0 <= i < reg.len() && 0 <= k < reg[i].dependencies.len() implies defined_before(
                reg,
                #[trigger] reg[i].dependencies@[k]@,
                i,
            ) by {
                assert(reg[i].dep_names()[k] == reg[i].dependencies@[k]@);
                assert(reg[i].dep_names().len() > 0);
                assert(2 <= i < 5);
                assert(reg[i].dep_names() == seq!["traits"@]);
                assert(reg[0].name@ == "traits"@);
                assert(reg[0].name@ == reg[i].dependencies@[k]@);
            }
            assert forall|i: int| 0 <= i < 8 implies #[trigger] r@[i].file_names() == seq![r@[i].name@ + ".rs"@] by {
                assert(i == 0 || i == 1 || i == 2 || i == 3 || i == 4 || i == 5 || i == 6 || i == 7);
                assert("traits"@ + ".rs"@ =~= "traits.rs"@);
                assert("prelude"@ + ".rs"@ =~= "prelude.rs"@);
                assert("button"@ + ".rs"@ =~= "button.rs"@);
                assert("input"@ + ".rs"@ =~= "input.rs"@);
                assert("checkbox"@ + ".rs"@ =~= "checkbox.rs"@);
                assert("card"@ + ".rs"@ =~= "card.rs"@);
                assert("dialog"@ + ".rs"@ =~= "dialog.rs"@);
                assert("badge"@ + ".rs"@ =~= "badge.rs"@);
            }
            assert forall|i: int| 0 <= i < 8 implies #[trigger] r@[i].version@ == "0.1.0"@ by {
                assert(i == 0 || i == 1 || i == 2 || i == 3 || i == 4 || i == 5 || i == 6 || i == 7);
            }
        }
        r
    }

    /// The components offered to users, by name ascending: every entry but the
    /// shared helpers, each once.
    pub fn list_components(&self) -> (r: Vec<&ComponentInfo>)
        requires
            self.wf(),
        ensures
            forall|c: &ComponentInfo|
                #[trigger] r@.contains(c) <==> (self@.contains(*c) && !is_reserved(c.name@)),
            r@.no_duplicates(),
            forall|i: int, j: int|
                0 <= i < j < r@.len() ==> name_le(#[trigger] r@[i].name@, #[trigger] r@[j].name@),
    {
        let ghost reg = self@;
        let mut listed: Vec<&ComponentInfo> = Vec::new();
        let ghost mut idx: Seq<int> = Seq::empty();
        let mut i: usize = 0;
        while i < self.components.len()
            invariant
                self.wf(),
                reg == self@,
                reg == self.components@,
                i <= reg.len(),
                idx.len() == listed@.len(),
                forall|k: int| 0 <= k < idx.len() ==> 0 <= #[trigger] idx[k] < i,
                forall|a: int, b: int| 0 <= a < b < idx.len() ==> #[trigger] idx[a] < #[trigger] idx[b],
                forall|k: int|
                    0 <= k < idx.len() ==> #[trigger] listed@[k] == reg[idx[k]] && !is_reserved(
                        reg[idx[k]].name@,
                    ),
                forall|j: int|
                    0 <= j < i && !is_reserved(reg[j].name@) ==> #[trigger] listed@.contains(&reg[j]),
            decreases reg.len() - i,
        {
            let ghost prev = listed@;
            if !is_reserved_name(&self.components[i].name) {
                listed.push(&self.components[i]);
                proof {
                    idx = idx.push(i as int);
                    assert(listed@[idx.len() - 1] == reg[i as int]);
                    assert forall|j: int|
                        0 <= j <= i && !is_reserved(reg[j].name@) implies #[trigger] listed@.contains(&reg[j]) by {
                        if j < i {
                            assert(prev.contains(&reg[j]));
                            let k = choose|k: int| 0 <= k < prev.len() && prev[k] == reg[j];
                            assert(listed@[k] == reg[j]);
                        } else {
                            assert(listed@[listed@.len() - 1] == reg[j]);
                        }
                    }
                }
            }
            i = i + 1;
        }
        proof {
            assert forall|a: int, b: int|
                0 <= a < listed@.len() && 0 <= b < listed@.len() && a != b implies listed@[a]
                != listed@[b] by {
                if a < b {
                    assert(idx[a] < idx[b]);
                } else {
                    assert(idx[b] < idx[a]);
                }
                assert(reg[idx[a]].name@ != reg[idx[b]].name@);
            }
            assert(listed@.no_duplicates());
            listed@.lemma_multiset_has_no_duplicates();
            assert forall|c: &ComponentInfo| #[trigger] listed@.contains(c) implies (self@.contains(*c) && !is_reserved(c.name@)) by {
                let k = choose|k: int| 0 <= k < listed@.len() && listed@[k] == c;
                assert(reg[idx[k]] == *c);
            }
            assert forall|c: &ComponentInfo| self@.contains(*c) && !is_reserved(c.name@) implies #[trigger] listed@.contains(c) by {
                let j = choose|j: int| 0 <= j < reg.len() && reg[j] == *c;
                assert(listed@.contains(&reg[j]));
            }
        }
        let ghost before = listed@;
        sort_by_name(&mut listed);
        proof {
            broadcast use vstd::seq_lib::group_to_multiset_ensures;
            assert forall|x: &ComponentInfo| listed@.to_multiset().contains(x) implies listed@.to_multiset().count(x) == 1 by {
                assert(before.to_multiset().count(x) == 1);
            }
            listed@.lemma_multiset_has_no_duplicates_conv();
            assert forall|c: &ComponentInfo| #[trigger] listed@.contains(c) <==> before.contains(c) by {
                assert(listed@.contains(c) <==> listed@.to_multiset().count(c) > 0);
                assert(before.contains(c) <==> before.to_multiset().count(c) > 0);
            }
        }
        listed
    }

    /// The closure of `component_name`: the component and everything it depends on,
    /// directly or through other components, each once, dependencies first and the
    /// component itself last.
    ///
    /// The catalog is stored dependencies-first, so one sweep from the component
    /// towards the front of the catalog marks the whole closure.
    pub fn resolve_dependencies(&self, component_name: &str) -> (r: Result<
        Vec<String>,
        RegistryError,
    >)
        requires
            self.wf(),
        ensures
            match r {
                Ok(v) => resolve_spec(self@, component_name@) == Some(strs(v@)),
                Err(e) => resolve_spec(self@, component_name@) is None && e.is_not_found(
                    component_name@,
                ),
            },
    {
        let key = component_name.to_owned();
        let root = match self.find(&key) {
            Some(i) => i,
            None => {
                return Err(RegistryError::NotFound(key));
            },
        };
        let n = self.components.len();
        let ghost reg = self@;
        let mut marks: Vec<bool> = Vec::new();
        let mut t: usize = 0;
        while t < n
            invariant
                t <= n,
                marks.len() == t,
                forall|j: int| 0 <= j < t ==> !#[trigger] marks@[j],
            decreases n - t,
        {
            marks.push(false);
            t = t + 1;
        }
        marks.set(root, true);
        proof {
            lemma_root_in_closure(reg, root as int);
        }
        let mut i: usize = root + 1;
        while i > 0
            invariant
                self.wf(),
                reg == self@,
                reg == self.components@,
                n == reg.len(),
                marks.len() == n,
                root < n,
                i <= root + 1,
                marks@[root as int],
                forall|j: int| 0 <= j < n && #[trigger] marks@[j] ==> in_closure(reg, root as int, j),
                forall|p: int, j: int|
                    i <= p < n && 0 <= j < n && #[trigger] marks@[p] && #[trigger] depends_on(
                        reg,
                        p,
                        j,
                    ) ==> marks@[j],
            decreases i,
        {
            i = i - 1;
            if marks[i] {
                let deps = &self.components[i].dependencies;
                let mut k: usize = 0;
                while k < deps.len()
                    invariant
                        self.wf(),
                        reg == self@,
                        reg == self.components@,
                        n == reg.len(),
                        marks.len() == n,
                        i < n,
                        root < n,
                        marks@[root as int],
                        marks@[i as int],
                        *deps == reg[i as int].dependencies,
                        k <= deps.len(),
                        forall|j: int|
                            0 <= j < n && #[trigger] marks@[j] ==> in_closure(reg, root as int, j),
                        forall|p: int, j: int|
                            i < p < n && 0 <= j < n && #[trigger] marks@[p] && #[trigger] depends_on(
                                reg,
                                p,
                                j,
                            ) ==> marks@[j],
                        forall|kk: int, j: int|
                            0 <= kk < k && 0 <= j < n && #[trigger] reg[j].name@
                                == #[trigger] deps@[kk]@ ==> marks@[j],
                    decreases deps.len() - k,
                {
                    proof {
                        assert(defined_before(reg, reg[i as int].dependencies@[k as int]@, i as int));
                    }
                    let j = match self.find(&deps[k]) {
                        Some(j) => j,
                        None => {
                            proof {
                                let w = choose|w: int|
                                    0 <= w < i && #[trigger] reg[w].name@ == deps@[k as int]@;
                                assert(has_component(reg, deps@[k as int]@)) by {
                                    assert(reg[w].name@ == deps@[k as int]@);
                                }
                            }
                            k = k + 1;
                            continue;
                        },
                    };
                    proof {
                        assert(reg[i as int].dep_names()[k as int] == reg[j as int].name@);
                        assert(depends_on(reg, i as int, j as int));
                        lemma_closure_dep(reg, root as int, i as int, j as int);
                    }
                    marks.set(j, true);
                    k = k + 1;
                }
                proof {
                    assert forall|j: int| 0 <= j < n && #[trigger] depends_on(reg, i as int, j) implies marks@[j] by {
                        let kk = choose|kk: int|
                            0 <= kk < reg[i as int].dep_names().len()
                                && #[trigger] reg[i as int].dep_names()[kk] == reg[j].name@;
                        assert(reg[j].name@ == deps@[kk]@);
                    }
                }
            }
        }
        proof {
            let s = Set::new(|x: int| 0 <= x < n && marks@[x]);
            assert(dep_closed(reg, s));
            assert forall|j: int| 0 <= j < n && in_closure(reg, root as int, j) implies #[trigger] marks@[j] by {
                assert(s.contains(root as int));
            }
        }
        let mut out: Vec<String> = Vec::new();
        let mut t: usize = 0;
        while t < n
            invariant
                t <= n,
                n == reg.len(),
                reg == self.components@,
                marks.len() == n,
                forall|j: int| 0 <= j < n ==> (#[trigger] marks@[j] <==> in_closure(reg, root as int, j)),
                strs(out@) == closure_upto(reg, root as int, t as int).map_values(|j: int| reg[j].name@),
            decreases n - t,
        {
            let ghost before = out@;
            if marks[t] {
                out.push(self.components[t].name.clone());
                proof {
                    assert(strs(out@) =~= strs(before).push(reg[t as int].name@));
                    assert(closure_upto(reg, root as int, t + 1) == closure_upto(reg, root as int, t as int).push(t as int));
                    assert(closure_upto(reg, root as int, t as int).push(t as int).map_values(|j: int| reg[j].name@)
                        =~= closure_upto(reg, root as int, t as int).map_values(|j: int| reg[j].name@).push(reg[t as int].name@));
                }
            }
            t = t + 1;
        }
        proof {
            lemma_index_of_unique(reg, key@, root as int);
        }
        Ok(out)
    }
}

pub(crate) proof fn lemma_root_in_closure(reg: Seq<ComponentInfo>, root: int)
    ensures
        in_closure(reg, root, root),
{
}

proof fn lemma_closure_dep(reg: Seq<ComponentInfo>, root: int, i: int, j: int)
    requires
        0 <= i < reg.len(),
        0 <= j < reg.len(),
        in_closure(reg, root, i),
        depends_on(reg, i, j),
    ensures
        in_closure(reg, root, j),
{
    assert forall|s: Set<int>| #[trigger] dep_closed(reg, s) && s.contains(root) implies s.contains(j) by {
        assert(s.contains(i));
    }
}

pub(crate) proof fn lemma_index_of_unique(reg: Seq<ComponentInfo>, name: Seq<char>, i: int)
    requires
        names_unique(reg),
        0 <= i < reg.len(),
        reg[i].name@ == name,
    ensures
        has_component(reg, name),
        index_of(reg, name) == i,
{
    assert(has_component(reg, name));
    let k = index_of(reg, name);
    assert(reg[k].name@ == name);
}

/// The dependencies that the entry named `name` declares.
pub open spec fn deps_of(reg: Seq<ComponentInfo>, name: Seq<char>) -> Seq<Seq<char>> {
    reg[index_of(reg, name)].dep_names()
}

/// Every dependency of every entry names an entry of `t`.
pub open spec fn deps_defined(t: Seq<ComponentInfo>) -> bool {
    forall|i: int, k: int|
        0 <= i < t.len() && 0 <= k < t[i].dependencies.len() ==> has_component(
            t,
            #[trigger] t[i].dependencies@[k]@,
        )
}

/// `rank` grows along every declared dependency: each component ranks above all it
/// depends on.
pub open spec fn ranked(t: Seq<ComponentInfo>, rank: spec_fn(Seq<char>) -> nat) -> bool {
    forall|i: int, k: int|
        0 <= i < t.len() && 0 <= k < t[i].dependencies.len() ==> rank(
            #[trigger] t[i].dependencies@[k]@,
        ) < rank(t[i].name@)
}

/// No chain of declared dependencies leads back to where it started.
pub open spec fn acyclic(t: Seq<ComponentInfo>) -> bool {
    exists|rank: spec_fn(Seq<char>) -> nat| ranked(t, rank)
}

/// Every dependency of entry `q` is marked in `placed`.
pub open spec fn deps_placed(t: Seq<ComponentInfo>, placed: Seq<bool>, q: int) -> bool {
    forall|k: int|
        0 <= k < t[q].dependencies.len() ==> placed[index_of(
            t,
            #[trigger] t[q].dependencies@[k]@,
        )]
}

/// The position of the first entry of `v` named `name`.
fn position_of(v: &Vec<ComponentInfo>, name: &String) -> (r: Option<usize>)
    ensures
        match r {
            Some(i) => i < v@.len() && v@[i as int].name@ == name@,
            None => !has_component(v@, name@),
        },
{
    let mut i: usize = 0;
    while i < v.len()
        invariant
            i <= v.len(),
            forall|j: int| 0 <= j < i ==> #[trigger] v@[j].name@ != name@,
        decreases v.len() - i,
    {
        if v[i].name == *name {
            return Some(i);
        }
        i = i + 1;
    }
    None
}

fn deps_all_placed(t: &Vec<ComponentInfo>, placed: &Vec<bool>, q: usize) -> (r: bool)
    requires
        names_unique(t@),
        deps_defined(t@),
        placed@.len() == t@.len(),
        q < t@.len(),
    ensures
        r == deps_placed(t@, placed@, q as int),
{
    let deps = &t[q].dependencies;
    let mut k: usize = 0;
    while k < deps.len()
        invariant
            names_unique(t@),
            deps_defined(t@),
            placed@.len() == t@.len(),
            q < t@.len(),
            *deps == t@[q as int].dependencies,
            k <= deps.len(),
            forall|k2: int|
                0 <= k2 < k ==> placed@[index_of(t@, #[trigger] t@[q as int].dependencies@[k2]@)],
        decreases deps.len() - k,
    {
        match position_of(t, &deps[k]) {
            Some(j) => {
                proof {
                    lemma_index_of_unique(t@, deps@[k as int]@, j as int);
                }
                if !placed[j] {
                    return false;
                }
            },
            None => {
                proof {
                    assert(has_component(t@, t@[q as int].dependencies@[k as int]@));
                }
                return false;
            },
        }
        k = k + 1;
    }
    true
}

proof fn lemma_distinct_bound(s: Seq<usize>, n: int, missing: int)
    requires
        s.no_duplicates(),
        0 <= missing < n,
        forall|k: int| 0 <= k < s.len() ==> #[trigger] s[k] < n && s[k] != missing,
    ensures
        s.len() < n,
{
    let w = s.map_values(|x: usize| x as int);
    assert(w.no_duplicates()) by {
        assert forall|a: int, b: int| 0 <= a < w.len() && 0 <= b < w.len() && a != b implies w[a] != w[b] by {
            assert(s[a] != s[b]);
        }
    }
    let range = vstd::set_lib::set_int_range(0, n).remove(missing);
    vstd::set_lib::lemma_int_range(0, n);
    assert(w.to_set().subset_of(range)) by {
        assert forall|x: int| #[trigger] w.to_set().contains(x) implies range.contains(x) by {
            assert(w.contains(x));
            let k = choose|k: int| 0 <= k < w.len() && w[k] == x;
            assert(s[k] < n);
        }
    }
    w.unique_seq_to_set();
    vstd::set_lib::lemma_len_subset(w.to_set(), range);
}

proof fn lemma_stuck_not_acyclic(t: Seq<ComponentInfo>, placed: Seq<bool>, u: int)
    requires
        names_unique(t),
        deps_defined(t),
        placed.len() == t.len(),
        0 <= u < t.len(),
        !placed[u],
        forall|q: int| 0 <= q < t.len() && !#[trigger] placed[q] ==> !deps_placed(t, placed, q),
    ensures
        !acyclic(t),
{
    if acyclic(t) {
        let rank = choose|rank: spec_fn(Seq<char>) -> nat| ranked(t, rank);
        let m = lemma_lowest_unplaced(t, placed, rank, t.len() as int, u);
        let k = choose|k: int|
            0 <= k < t[m].dependencies.len() && !placed[index_of(
                t,
                #[trigger] t[m].dependencies@[k]@,
            )];
        let d = t[m].dependencies@[k]@;
        assert(has_component(t, d));
        let j = index_of(t, d);
        assert(t[j].name@ == d);
        assert(rank(d) < rank(t[m].name@));
    }
}

proof fn lemma_lowest_unplaced(
    t: Seq<ComponentInfo>,
    placed: Seq<bool>,
    rank: spec_fn(Seq<char>) -> nat,
    end: int,
    u: int,
) -> (m: int)
    requires
        placed.len() == t.len(),
        0 <= u < end <= t.len(),
        !placed[u],
    ensures
        0 <= m < end,
        !placed[m],
        forall|q: int| 0 <= q < end && !placed[q] ==> rank(t[m].name@) <= rank(#[trigger] t[q].name@),
    decreases end,
{
    if end == u + 1 {
        if exists|q: int| 0 <= q < u && !placed[q] {
            let q = choose|q: int| 0 <= q < u && !placed[q];
            let m0 = lemma_lowest_unplaced(t, placed, rank, u, q);
            if rank(t[m0].name@) <= rank(t[u].name@) {
                m0
            } else {
                u
            }
        } else {
            u
        }
    } else {
        let m0 = lemma_lowest_unplaced(t, placed, rank, end - 1, u);
        if !placed[end - 1] && rank(t[end - 1].name@) < rank(t[m0].name@) {
            end - 1
        } else {
            m0
        }
    }
}

proof fn lemma_ordered_is_acyclic(t: Seq<ComponentInfo>, out: Seq<ComponentInfo>)
    requires
        catalog_wf(out),
        forall|c: ComponentInfo| #[trigger] out.contains(c) <==> t.contains(c),
    ensures
        acyclic(t),
{
    let rank = |s: Seq<char>| if has_component(out, s) {
        index_of(out, s) as nat
    } else {
        0nat
    };
    assert forall|i: int, k: int|
        0 <= i < t.len() && 0 <= k < t[i].dependencies.len() implies rank(
        #[trigger] t[i].dependencies@[k]@,
    ) < rank(t[i].name@) by {
        assert(t.contains(t[i]));
        assert(out.contains(t[i]));
        let p = choose|p: int| 0 <= p < out.len() && out[p] == t[i];
        lemma_index_of_unique(out, t[i].name@, p);
        let d = t[i].dependencies@[k]@;
        assert(out[p].dependencies@[k]@ == d);
        assert(defined_before(out, d, p));
        let j = choose|j: int| 0 <= j < p && #[trigger] out[j].name@ == d;
        lemma_index_of_unique(out, d, j);
    }
    assert(ranked(t, rank));
}

/// Every dependency of each member of `r` occurs in `r` before that member.
pub open spec fn dependencies_first(reg: Seq<ComponentInfo>, r: Seq<Seq<char>>) -> bool {
    forall|k: int, m: int|
        0 <= k < r.len() && 0 <= m < deps_of(reg, r[k]).len() ==> r.take(k).contains(
            #[trigger] deps_of(reg, r[k])[m],
        )
}

proof fn lemma_dep_before(reg: Seq<ComponentInfo>, i: int, j: int)
    requires
        catalog_wf(reg),
        0 <= i < reg.len(),
        0 <= j < reg.len(),
        depends_on(reg, i, j),
    ensures
        j < i,
{
    let k = choose|k: int|
        0 <= k < reg[i].dep_names().len() && #[trigger] reg[i].dep_names()[k] == reg[j].name@;
    assert(defined_before(reg, reg[i].dependencies@[k]@, i));
    let w = choose|w: int| 0 <= w < i && #[trigger] reg[w].name@ == reg[i].dependencies@[k]@;
    assert(reg[w].name@ == reg[j].name@);
}

proof fn lemma_closure_bounded(reg: Seq<ComponentInfo>, root: int, j: int)
    requires
        catalog_wf(reg),
        0 <= root < reg.len(),
        in_closure(reg, root, j),
    ensures
        j <= root,
{
    let s = Set::new(|x: int| x <= root);
    assert forall|a: int, b: int|
        0 <= a < reg.len() && 0 <= b < reg.len() && #[trigger] s.contains(a) && #[trigger] depends_on(
            reg,
            a,
            b,
        ) implies s.contains(b) by {
        lemma_dep_before(reg, a, b);
    }
    assert(dep_closed(reg, s));
    assert(s.contains(root));
}

pub(crate) proof fn lemma_closure_upto(reg: Seq<ComponentInfo>, root: int, end: int)
    requires
        0 <= end <= reg.len(),
    ensures
        forall|k: int|
            0 <= k < closure_upto(reg, root, end).len() ==> 0 <= #[trigger] closure_upto(
                reg,
                root,
                end,
            )[k] < end && in_closure(reg, root, closure_upto(reg, root, end)[k]),
        forall|a: int, b: int|
            0 <= a < b < closure_upto(reg, root, end).len() ==> #[trigger] closure_upto(
                reg,
                root,
                end,
            )[a] < #[trigger] closure_upto(reg, root, end)[b],
        forall|j: int|
            0 <= j < end && in_closure(reg, root, j) ==> #[trigger] closure_upto(
                reg,
                root,
                end,
            ).contains(j),
    decreases end,
{
    if end > 0 {
        lemma_closure_upto(reg, root, end - 1);
        let prev = closure_upto(reg, root, end - 1);
        if in_closure(reg, root, end - 1) {
            let cur = prev.push(end - 1);
            assert(closure_upto(reg, root, end) == cur);
            assert forall|j: int| 0 <= j < end && in_closure(reg, root, j) implies #[trigger] cur.contains(j) by {
                if j < end - 1 {
                    assert(prev.contains(j));
                    let k = choose|k: int| 0 <= k < prev.len() && prev[k] == j;
                    assert(cur[k] == j);
                } else {
                    assert(cur[prev.len() as int] == j);
                }
            }
        } else {
            assert(closure_upto(reg, root, end) == prev);
        }
    }
}

proof fn lemma_member_dep_earlier(reg: Seq<ComponentInfo>, name: Seq<char>, k: int, m: int)
    requires
        catalog_wf(reg),
        has_component(reg, name),
        0 <= k < resolve_spec(reg, name)->Some_0.len(),
        0 <= m < deps_of(reg, resolve_spec(reg, name)->Some_0[k]).len(),
    ensures
        resolve_spec(reg, name)->Some_0.take(k).contains(
            deps_of(reg, resolve_spec(reg, name)->Some_0[k])[m],
        ),
{
    let n = reg.len() as int;
    let root = index_of(reg, name);
    assert(reg[root].name@ == name);
    let cu = closure_upto(reg, root, n);
    let r = resolve_spec(reg, name)->Some_0;
    assert(r == cu.map_values(|j: int| reg[j].name@));
    lemma_closure_upto(reg, root, n);
    let i = cu[k];
    assert(r[k] == reg[i].name@);
    lemma_index_of_unique(reg, r[k], i);
    let d = reg[i].dep_names()[m];
    assert(defined_before(reg, reg[i].dependencies@[m]@, i));
    let j = choose|j: int| 0 <= j < i && #[trigger] reg[j].name@ == reg[i].dependencies@[m]@;
    assert(depends_on(reg, i, j));
    lemma_closure_dep(reg, root, i, j);
    assert(cu.contains(j));
    let k2 = choose|k2: int| 0 <= k2 < cu.len() && cu[k2] == j;
    if k2 >= k {
        if k2 > k {
            assert(cu[k] < cu[k2]);
        }
    }
    assert(deps_of(reg, r[k]) == reg[i].dep_names());
    assert(r[k2] == reg[j].name@);
    assert(r[k2] == d);
    assert(r.take(k)[k2] == d);
}

/// Resolution names the component once, as its last element, and puts every
/// dependency of each member before that member.
pub proof fn lemma_resolution_dependencies_first(reg: Seq<ComponentInfo>, name: Seq<char>)
    requires
        catalog_wf(reg),
        has_component(reg, name),
    ensures
        ({
            let r = resolve_spec(reg, name)->Some_0;
            &&& r.len() > 0
            &&& r.last() == name
            &&& forall|k: int| 0 <= k < r.len() - 1 ==> #[trigger] r[k] != name
            &&& dependencies_first(reg, r)
        }),
{
    let n = reg.len() as int;
    let root = index_of(reg, name);
    assert(reg[root].name@ == name);
    let cu = closure_upto(reg, root, n);
    let r = resolve_spec(reg, name)->Some_0;
    assert(r == cu.map_values(|j: int| reg[j].name@));
    lemma_closure_upto(reg, root, n);
    lemma_root_in_closure(reg, root);
    assert(cu.contains(root));
    let k0 = choose|k0: int| 0 <= k0 < cu.len() && cu[k0] == root;
    if k0 < cu.len() - 1 {
        lemma_closure_bounded(reg, root, cu[cu.len() - 1]);
        assert(cu[k0] < cu[cu.len() - 1]);
    }
    assert(cu.last() == root);
    assert(r.len() > 0);
    assert(r.last() == name);
    assert forall|k: int| 0 <= k < r.len() - 1 implies #[trigger] r[k] != name by {
        assert(cu[k] < cu[cu.len() - 1]);
        assert(reg[cu[k]].name@ != reg[root].name@);
    }
    assert forall|k: int, m: int|
        0 <= k < r.len() && 0 <= m < deps_of(reg, r[k]).len() implies r.take(k).contains(
        #[trigger] deps_of(reg, r[k])[m],
    ) by {
        lemma_member_dep_earlier(reg, name, k, m);
    }
    assert(dependencies_first(reg, r));
}

/// Resolution depends on the catalog and the name alone: two resolutions of one
/// name in one catalog agree.
pub proof fn lemma_resolution_deterministic(
    reg: Seq<ComponentInfo>,
    name: Seq<char>,
    first: Option<Seq<Seq<char>>>,
    second: Option<Seq<Seq<char>>>,
)
    requires
        first == resolve_spec(reg, name),
        second == resolve_spec(reg, name),
    ensures
        first == second,
{
}

} // verus!
