use vstd::prelude::*;

use crate::config::{now_rfc3339, record_names, Config, InstalledComponent};
use crate::registry::{
    catalog_wf, closure_upto, has_component, index_of, lemma_closure_upto, lemma_index_of_unique,
    strs, ComponentInfo, Registry,
};

verus! {

/// What staging does with one file of a component.
#[derive(Debug, Clone, Copy, PartialEq, Eq, Structural)]
pub enum FileAction {
    /// Copy the source file over the destination.
    CopyFile,
    /// The source tree lacks the file: warn and go on.
    MissingSource,
    /// The destination already holds the file and overwriting was not asked for;
    /// `warn` when the file belongs to the requested component itself.
    KeepExisting { warn: bool },
}

/// The decision for one file: the request it serves (a position in the requested
/// names), the component (a catalog position), the file (a position in that
/// component's file list), and the action.
#[derive(Debug, Clone, Copy, PartialEq, Eq, Structural)]
pub struct FileStep {
    pub request: usize,
    pub component: usize,
    pub file: usize,
    pub action: FileAction,
}

/// What an install decided.
#[derive(Debug, Clone)]
pub struct InstallReport {
    /// Every file decision, in the order made.
    pub steps: Vec<FileStep>,
    /// Positions in the requested names of those the catalog lacks.
    pub not_found: Vec<usize>,
    /// Catalog positions of components staged while not recorded in the manifest,
    /// each once.
    pub added: Vec<usize>,
    /// Catalog positions of the requested components that got a manifest record.
    pub recorded: Vec<usize>,
}

/// The state that an install threads through its decisions: the destination files,
/// the recorded names, and the report so far.
pub struct Plan {
    pub dest: Seq<Seq<char>>,
    pub installed: Seq<Seq<char>>,
    pub steps: Seq<FileStep>,
    pub not_found: Seq<usize>,
    pub added: Seq<usize>,
    pub recorded: Seq<usize>,
}

/// The decision for `file`, given the source files, the destination files, the
/// overwrite flag, and whether to warn about a kept file.
pub open spec fn file_action(
    src: Seq<Seq<char>>,
    dest: Seq<Seq<char>>,
    file: Seq<char>,
    force: bool,
    warn: bool,
) -> FileAction {
    if !src.contains(file) {
        FileAction::MissingSource
    } else if dest.contains(file) && !force {
        FileAction::KeepExisting { warn }
    } else {
        FileAction::CopyFile
    }
}

/// Staging the first `count` files of component `comp` for request `req`.
pub open spec fn stage_files(
    reg: Seq<ComponentInfo>,
    src: Seq<Seq<char>>,
    force: bool,
    req: usize,
    root: usize,
    comp: usize,
    st: Plan,
    count: int,
) -> Plan
    decreases count,
{
    if count <= 0 {
        st
    } else {
        let prev = stage_files(reg, src, force, req, root, comp, st, count - 1);
        let file = reg[comp as int].file_names()[count - 1];
        let a = file_action(src, prev.dest, file, force, comp == root);
        Plan {
            dest: if a == FileAction::CopyFile {
                prev.dest.push(file)
            } else {
                prev.dest
            },
            steps: prev.steps.push(FileStep { request: req, component: comp, file: (count - 1) as usize, action: a }),
            ..prev
        }
    }
}

/// Staging every file of component `comp`, then noting it as added when the
/// manifest does not record it.
pub open spec fn stage_component(
    reg: Seq<ComponentInfo>,
    src: Seq<Seq<char>>,
    force: bool,
    req: usize,
    root: usize,
    comp: usize,
    st: Plan,
) -> Plan {
    let s = stage_files(reg, src, force, req, root, comp, st, reg[comp as int].files.len() as int);
    if !s.installed.contains(reg[comp as int].name@) && !s.added.contains(comp) {
        Plan { added: s.added.push(comp), ..s }
    } else {
        s
    }
}

/// Staging the first `count` components of the closure `cl`.
pub open spec fn stage_closure(
    reg: Seq<ComponentInfo>,
    src: Seq<Seq<char>>,
    force: bool,
    req: usize,
    root: usize,
    cl: Seq<int>,
    st: Plan,
    count: int,
) -> Plan
    decreases count,
{
    if count <= 0 {
        st
    } else {
        stage_component(
            reg,
            src,
            force,
            req,
            root,
            cl[count - 1] as usize,
            stage_closure(reg, src, force, req, root, cl, st, count - 1),
        )
    }
}

/// Serving request `r`: a name the catalog lacks is reported; otherwise its
/// closure is staged, dependencies first, and the component is recorded unless
/// the manifest already has it.
pub open spec fn plan_request(
    reg: Seq<ComponentInfo>,
    src: Seq<Seq<char>>,
    force: bool,
    requested: Seq<Seq<char>>,
    r: int,
    st: Plan,
) -> Plan {
    let name = requested[r];
    if !has_component(reg, name) {
        Plan { not_found: st.not_found.push(r as usize), ..st }
    } else {
        let root = index_of(reg, name);
        let cl = closure_upto(reg, root, reg.len() as int);
        let s = stage_closure(reg, src, force, r as usize, root as usize, cl, st, cl.len() as int);
        if !s.installed.contains(name) {
            Plan { installed: s.installed.push(name), recorded: s.recorded.push(root as usize), ..s }
        } else {
            s
        }
    }
}

/// Serving the first `count` requests, in order.
pub open spec fn plan_upto(
    reg: Seq<ComponentInfo>,
    src: Seq<Seq<char>>,
    force: bool,
    requested: Seq<Seq<char>>,
    st: Plan,
    count: int,
) -> Plan
    decreases count,
{
    if count <= 0 {
        st
    } else {
        plan_request(reg, src, force, requested, count - 1, plan_upto(reg, src, force, requested, st, count - 1))
    }
}

/// The whole install: every request served against the source files `src`, the
/// destination files `dest` and the recorded names `installed`.
pub open spec fn install_plan(
    reg: Seq<ComponentInfo>,
    src: Seq<Seq<char>>,
    dest: Seq<Seq<char>>,
    installed: Seq<Seq<char>>,
    force: bool,
    requested: Seq<Seq<char>>,
) -> Plan {
    plan_upto(
        reg,
        src,
        force,
        requested,
        Plan {
            dest,
            installed,
            steps: Seq::empty(),
            not_found: Seq::empty(),
            added: Seq::empty(),
            recorded: Seq::empty(),
        },
        requested.len() as int,
    )
}

/// The outcome that an install owes, whatever time stamps its records: the report
/// and the manifest's records follow the plan, and nothing else of the manifest
/// changes.
pub open spec fn install_done(
    reg: Seq<ComponentInfo>,
    before: Config,
    after: Config,
    r: InstallReport,
    requested: Seq<Seq<char>>,
    sources: Seq<Seq<char>>,
    existing: Seq<Seq<char>>,
    force: bool,
) -> bool {
    let p = install_plan(reg, sources, existing, record_names(before.components@), force, requested);
    let n = before.components@.len();
    &&& r.steps@ == p.steps
    &&& r.not_found@ == p.not_found
    &&& r.added@ == p.added
    &&& r.recorded@ == p.recorded
    &&& record_names(after.components@) == p.installed
    &&& after.components@.len() == n + p.recorded.len()
    &&& after.components@.take(n as int) == before.components@
    &&& forall|k: int|
        0 <= k < p.recorded.len() ==> (#[trigger] after.components@[n + k]).version@ == reg[p.recorded[k] as int].version@
    &&& after.component_path == before.component_path
    &&& after.utils_path == before.utils_path
    &&& after.gpui_version == before.gpui_version
    &&& after.style == before.style
}

/// Every record that an install appended is stamped `at`.
pub open spec fn stamped(before: Config, after: Config, at: Seq<char>) -> bool {
    forall|k: int|
        before.components@.len() <= k < after.components@.len() ==> (#[trigger] after.components@[k]).installed_at@ == at
}

impl Plan {
    pub open spec fn of(
        dest: Seq<String>,
        records: Seq<InstalledComponent>,
        steps: Seq<FileStep>,
        not_found: Seq<usize>,
        added: Seq<usize>,
        recorded: Seq<usize>,
    ) -> Plan {
        Plan { dest: strs(dest), installed: record_names(records), steps, not_found, added, recorded }
    }
}

/// Decides an install of `requested` from the catalog into a project whose
/// manifest is `config`: `sources` are the files present in the component source
/// tree and `existing` those already at the destination, both relative to their
/// roots. Each requested name is served on its own, in order; staging of every
/// file of its closure is decided, dependencies first, against the destination as
/// the earlier copies leave it; and each requested component that the manifest
/// does not record gets a record stamped `installed_at`.
pub fn install_at(
    registry: &Registry,
    config: &mut Config,
    requested: &Vec<String>,
    sources: &Vec<String>,
    existing: &Vec<String>,
    force: bool,
    installed_at: &String,
) -> (r: InstallReport)
    requires
        registry.wf(),
    ensures
        install_done(
            registry@,
            *old(config),
            *final(config),
            r,
            strs(requested@),
            strs(sources@),
            strs(existing@),
            force,
        ),
        stamped(*old(config), *final(config), installed_at@),
{
    let ghost reg = registry@;
    let ghost src = strs(sources@);
    let ghost req = strs(requested@);
    let ghost cfg0 = *config;
    let ghost n0 = config.components@.len();
    let ghost init = Plan {
        dest: strs(existing@),
        installed: record_names(config.components@),
        steps: Seq::empty(),
        not_found: Seq::empty(),
        added: Seq::empty(),
        recorded: Seq::empty(),
    };
    let mut dest = copy_strings(existing);
    let mut steps: Vec<FileStep> = Vec::new();
    let mut not_found: Vec<usize> = Vec::new();
    let mut added: Vec<usize> = Vec::new();
    let mut recorded: Vec<usize> = Vec::new();
    let mut i: usize = 0;
    while i < requested.len()
        invariant
            registry.wf(),
            reg == registry@,
            src == strs(sources@),
            req == strs(requested@),
            i <= requested.len(),
            Plan::of(dest@, config.components@, steps@, not_found@, added@, recorded@) == plan_upto(
                reg,
                src,
                force,
                req,
                init,
                i as int,
            ),
            config.components@.len() == n0 + recorded@.len(),
            config.components@.take(n0 as int) == cfg0.components@,
            forall|k: int|
                0 <= k < recorded@.len() ==> (#[trigger] config.components@[n0 + k]).version@
                    == reg[recorded@[k] as int].version@ && recorded@[k] < reg.len(),
            forall|k: int|
                n0 <= k < config.components@.len() ==> (#[trigger] config.components@[k]).installed_at@
                    == installed_at@,
            config.component_path == cfg0.component_path,
            config.utils_path == cfg0.utils_path,
            config.gpui_version == cfg0.gpui_version,
            config.style == cfg0.style,
        decreases requested.len() - i,
    {
        let ghost st_req = Plan::of(dest@, config.components@, steps@, not_found@, added@, recorded@);
        let name = &requested[i];
        match registry.position(name.as_str()) {
            None => {
                not_found.push(i);
            },
            Some(root) => {
                let ghost cu = closure_upto(reg, root as int, reg.len() as int);
                let closure = match registry.resolve_dependencies(name.as_str()) {
                    Ok(v) => v,
                    Err(_) => Vec::new(),
                };
                proof {
                    lemma_closure_upto(reg, root as int, reg.len() as int);
                    assert(strs(closure@) == cu.map_values(|j: int| reg[j].name@));
                    assert(strs(closure@).len() == closure@.len());
                    assert(closure@.len() == cu.len());
                }
                let mut c: usize = 0;
                while c < closure.len()
                    invariant
                        registry.wf(),
                        reg == registry@,
                        src == strs(sources@),
                        req == strs(requested@),
                        i < requested.len(),
                        root < reg.len(),
                        root as int == index_of(reg, req[i as int]),
                        has_component(reg, req[i as int]),
                        cu == closure_upto(reg, root as int, reg.len() as int),
                        strs(closure@) == cu.map_values(|j: int| reg[j].name@),
                        closure@.len() == cu.len(),
                        forall|k: int| 0 <= k < cu.len() ==> 0 <= #[trigger] cu[k] < reg.len(),
                        c <= closure.len(),
                        Plan::of(dest@, config.components@, steps@, not_found@, added@, recorded@)
                            == stage_closure(reg, src, force, i, root, cu, st_req, c as int),
                        config.components@.len() == n0 + recorded@.len(),
                        config.components@.take(n0 as int) == cfg0.components@,
                        forall|k: int|
                            0 <= k < recorded@.len() ==> (#[trigger] config.components@[n0 + k]).version@
                                == reg[recorded@[k] as int].version@ && recorded@[k] < reg.len(),
                        forall|k: int|
                            n0 <= k < config.components@.len() ==> (#[trigger] config.components@[k]).installed_at@
                                == installed_at@,
                        config.component_path == cfg0.component_path,
                        config.utils_path == cfg0.utils_path,
                        config.gpui_version == cfg0.gpui_version,
                        config.style == cfg0.style,
                    decreases closure.len() - c,
                {
                    let ghost st_comp = Plan::of(dest@, config.components@, steps@, not_found@, added@, recorded@);
                    proof {
                        assert(strs(closure@)[c as int] == closure@[c as int]@);
                        assert(strs(closure@)[c as int] == reg[cu[c as int]].name@);
                        lemma_index_of_unique(reg, closure@[c as int]@, cu[c as int]);
                    }
                    let comp = match registry.position(closure[c].as_str()) {
                        Some(p) => p,
                        None => 0,
                    };
                    let info = registry.component_at(comp);
                    let mut f: usize = 0;
                    while f < info.files.len()
                        invariant
                            registry.wf(),
                            reg == registry@,
                            src == strs(sources@),
                            comp < reg.len(),
                            *info == reg[comp as int],
                            f <= info.files.len(),
                            Plan::of(dest@, config.components@, steps@, not_found@, added@, recorded@)
                                == stage_files(reg, src, force, i, root, comp, st_comp, f as int),
                        decreases info.files.len() - f,
                    {
                        let ghost prev_dest = dest@;
                        let ghost prev_steps = steps@;
                        let file = &info.files[f];
                        proof {
                            assert(reg[comp as int].file_names()[f as int] == file@);
                        }
                        let action = if !contains_string(sources, file) {
                            FileAction::MissingSource
                        } else if contains_string(&dest, file) && !force {
                            FileAction::KeepExisting { warn: comp == root }
                        } else {
                            FileAction::CopyFile
                        };
                        if action == FileAction::CopyFile {
                            let copy = file.clone();
                            dest.push(copy);
                            proof {
                                assert(strs(dest@) =~= strs(prev_dest).push(file@));
                            }
                        }
                        steps.push(FileStep { request: i, component: comp, file: f, action });
                        f = f + 1;
                    }
                    if !config.is_installed(info.name.as_str()) && !contains_position(&added, comp) {
                        added.push(comp);
                    }
                    c = c + 1;
                }
                if !config.is_installed(name.as_str()) {
                    let info = registry.component_at(root);
                    let ghost prev = config.components@;
                    config.record_install(info.name.clone(), info.version.clone(), installed_at.clone());
                    recorded.push(root);
                    proof {
                        assert(config.components@ == prev.push(config.components@.last())) by {
                            assert(config.components@ =~= config.components@.drop_last().push(config.components@.last()));
                        }
                        assert(record_names(prev.push(config.components@.last())) =~= record_names(prev).push(req[i as int]));
                        assert(config.components@.take(n0 as int) =~= prev.take(n0 as int));
                    }
                }
            },
        }
        i = i + 1;
    }
    InstallReport { steps, not_found, added, recorded }
}

/// Decides an install as `install_at` does, stamping new records with the current
/// time.
pub fn install(
    registry: &Registry,
    config: &mut Config,
    requested: &Vec<String>,
    sources: &Vec<String>,
    existing: &Vec<String>,
    force: bool,
) -> (r: InstallReport)
    requires
        registry.wf(),
    ensures
        install_done(
            registry@,
            *old(config),
            *final(config),
            r,
            strs(requested@),
            strs(sources@),
            strs(existing@),
            force,
        ),
{
    let now = now_rfc3339();
    install_at(registry, config, requested, sources, existing, force, &now)
}

/// The name of the file that a step decides on.
pub open spec fn step_file(reg: Seq<ComponentInfo>, s: FileStep) -> Seq<char> {
    reg[s.component as int].file_names()[s.file as int]
}

/// A step names a real file of a catalog entry, warns of a missing source exactly
/// when the source tree lacks that file, and, when overwriting, copies exactly
/// when the source tree has it.
pub open spec fn step_faithful(
    reg: Seq<ComponentInfo>,
    src: Seq<Seq<char>>,
    force: bool,
    s: FileStep,
) -> bool {
    &&& s.component < reg.len()
    &&& s.file < reg[s.component as int].files.len()
    &&& (s.action == FileAction::MissingSource <==> !src.contains(step_file(reg, s)))
    &&& (force ==> (s.action == FileAction::CopyFile <==> src.contains(step_file(reg, s))))
}

/// Some step from position `from` on decides on file `f` of component `comp`.
pub open spec fn decided(steps: Seq<FileStep>, from: int, comp: int, f: int) -> bool {
    exists|j: int| from <= j < steps.len() && steps[j].component == comp && steps[j].file == f
}

/// Every source file of component `comp` is at the destination.
pub open spec fn sources_staged(
    reg: Seq<ComponentInfo>,
    src: Seq<Seq<char>>,
    dest: Seq<Seq<char>>,
    comp: int,
) -> bool {
    forall|f: int|
        0 <= f < reg[comp].files.len() && src.contains(#[trigger] reg[comp].file_names()[f])
            ==> dest.contains(reg[comp].file_names()[f])
}

proof fn lemma_stage_files(
    reg: Seq<ComponentInfo>,
    src: Seq<Seq<char>>,
    force: bool,
    req: usize,
    root: usize,
    comp: usize,
    st: Plan,
    count: int,
)
    requires
        comp < reg.len(),
        0 <= count <= reg[comp as int].files.len(),
    ensures
        ({
            let r = stage_files(reg, src, force, req, root, comp, st, count);
            &&& r.steps.len() == st.steps.len() + count
            &&& r.steps.take(st.steps.len() as int) == st.steps
            &&& forall|k: int|
                st.steps.len() <= k < r.steps.len() ==> step_faithful(reg, src, force, #[trigger] r.steps[k])
            &&& forall|f: int|
                0 <= f < count ==> (#[trigger] r.steps[st.steps.len() + f]).component == comp
                    && r.steps[st.steps.len() + f].file == f
            &&& forall|x: Seq<char>| st.dest.contains(x) ==> #[trigger] r.dest.contains(x)
            &&& forall|f: int|
                0 <= f < count && src.contains(#[trigger] reg[comp as int].file_names()[f])
                    ==> r.dest.contains(reg[comp as int].file_names()[f])
            &&& r.installed == st.installed
            &&& r.not_found == st.not_found
            &&& r.added == st.added
            &&& r.recorded == st.recorded
            &&& (!force && sources_staged(reg, src, st.dest, comp as int)) ==> {
                &&& r.dest == st.dest
                &&& forall|k: int|
                    st.steps.len() <= k < r.steps.len() ==> (#[trigger] r.steps[k]).action
                        != FileAction::CopyFile
            }
        }),
    decreases count,
{
    if count > 0 {
        lemma_stage_files(reg, src, force, req, root, comp, st, count - 1);
        let prev = stage_files(reg, src, force, req, root, comp, st, count - 1);
        let r = stage_files(reg, src, force, req, root, comp, st, count);
        let file = reg[comp as int].file_names()[count - 1];
        assert(r.steps == prev.steps.push(r.steps.last()));
        assert(r.steps.take(st.steps.len() as int) =~= prev.steps.take(st.steps.len() as int));
        let step = r.steps[r.steps.len() - 1];
        assert(step_file(reg, step) == file);
        assert forall|f: int|
            0 <= f < count && src.contains(#[trigger] reg[comp as int].file_names()[f])
                implies r.dest.contains(reg[comp as int].file_names()[f]) by {
            let x = reg[comp as int].file_names()[f];
            let a = file_action(src, prev.dest, file, force, comp == root);
            if f < count - 1 {
                assert(prev.dest.contains(x));
                let j = choose|j: int| 0 <= j < prev.dest.len() && prev.dest[j] == x;
                if a == FileAction::CopyFile {
                    assert(r.dest[j] == x);
                }
            } else if a == FileAction::CopyFile {
                assert(r.dest[r.dest.len() - 1] == file);
            } else {
                assert(prev.dest.contains(file));
            }
        }
        assert forall|x: Seq<char>| st.dest.contains(x) implies #[trigger] r.dest.contains(x) by {
            assert(prev.dest.contains(x));
            if r.dest != prev.dest {
                let j = choose|j: int| 0 <= j < prev.dest.len() && prev.dest[j] == x;
                assert(r.dest[j] == x);
            }
        }
        if !force && sources_staged(reg, src, st.dest, comp as int) {
            if src.contains(file) {
                assert(st.dest.contains(file));
                assert(prev.dest.contains(file));
            }
        }
    }
}

proof fn lemma_stage_closure(
    reg: Seq<ComponentInfo>,
    src: Seq<Seq<char>>,
    force: bool,
    req: usize,
    root: usize,
    cl: Seq<int>,
    st: Plan,
    count: int,
)
    requires
        reg.len() <= usize::MAX,
        0 <= count <= cl.len(),
        forall|k: int| 0 <= k < cl.len() ==> 0 <= #[trigger] cl[k] < reg.len(),
    ensures
        ({
            let r = stage_closure(reg, src, force, req, root, cl, st, count);
            &&& r.steps.len() >= st.steps.len()
            &&& r.steps.take(st.steps.len() as int) == st.steps
            &&& forall|k: int|
                st.steps.len() <= k < r.steps.len() ==> step_faithful(reg, src, force, #[trigger] r.steps[k])
            &&& forall|k: int, f: int|
                0 <= k < count && 0 <= f < reg[cl[k]].files.len() ==> #[trigger] decided(
                    r.steps,
                    st.steps.len() as int,
                    cl[k],
                    f,
                )
            &&& forall|x: Seq<char>| st.dest.contains(x) ==> #[trigger] r.dest.contains(x)
            &&& forall|k: int| 0 <= k < count ==> sources_staged(reg, src, r.dest, #[trigger] cl[k])
            &&& r.installed == st.installed
            &&& r.not_found == st.not_found
            &&& r.recorded == st.recorded
            &&& (!force && forall|k: int|
                0 <= k < count ==> sources_staged(reg, src, st.dest, #[trigger] cl[k])) ==> {
                &&& r.dest == st.dest
                &&& forall|k: int|
                    st.steps.len() <= k < r.steps.len() ==> (#[trigger] r.steps[k]).action
                        != FileAction::CopyFile
            }
        }),
    decreases count,
{
    if count > 0 {
        lemma_stage_closure(reg, src, force, req, root, cl, st, count - 1);
        let prev = stage_closure(reg, src, force, req, root, cl, st, count - 1);
        let comp = cl[count - 1] as usize;
        let nf = reg[comp as int].files.len() as int;
        lemma_stage_files(reg, src, force, req, root, comp, prev, nf);
        let mid = stage_files(reg, src, force, req, root, comp, prev, nf);
        let r = stage_closure(reg, src, force, req, root, cl, st, count);
        assert(r.steps == mid.steps);
        assert(r.dest == mid.dest);
        assert(r.steps.take(st.steps.len() as int) =~= mid.steps.take(prev.steps.len() as int).take(
            st.steps.len() as int,
        ));
        assert forall|k: int|
            st.steps.len() <= k < r.steps.len() implies step_faithful(reg, src, force, #[trigger] r.steps[k]) by {
            if k < prev.steps.len() {
                assert(r.steps[k] == mid.steps.take(prev.steps.len() as int)[k]);
            }
        }
        assert forall|k: int, f: int|
            0 <= k < count && 0 <= f < reg[cl[k]].files.len() implies #[trigger] decided(
            r.steps,
            st.steps.len() as int,
            cl[k],
            f,
        ) by {
            if k < count - 1 {
                assert(decided(prev.steps, st.steps.len() as int, cl[k], f));
                let j = choose|j: int|
                    st.steps.len() <= j < prev.steps.len() && prev.steps[j].component
                        == cl[k] && prev.steps[j].file == f;
                assert(r.steps[j] == mid.steps.take(prev.steps.len() as int)[j]);
            } else {
                assert(r.steps[prev.steps.len() + f].component == comp);
            }
        }
        assert forall|k: int| 0 <= k < count implies sources_staged(reg, src, r.dest, #[trigger] cl[k]) by {
            if k < count - 1 {
                assert(sources_staged(reg, src, prev.dest, cl[k]));
            }
        }
        if !force && forall|k: int| 0 <= k < count ==> sources_staged(reg, src, st.dest, #[trigger] cl[k]) {
            assert(sources_staged(reg, src, st.dest, cl[count - 1]));
            assert forall|k: int|
                st.steps.len() <= k < r.steps.len() implies (#[trigger] r.steps[k]).action
                    != FileAction::CopyFile by {
                if k < prev.steps.len() {
                    assert(r.steps[k] == mid.steps.take(prev.steps.len() as int)[k]);
                }
            }
        }
    }
}

proof fn lemma_plan_request(
    reg: Seq<ComponentInfo>,
    src: Seq<Seq<char>>,
    force: bool,
    requested: Seq<Seq<char>>,
    i: int,
    st: Plan,
)
    requires
        catalog_wf(reg),
        reg.len() <= usize::MAX,
        0 <= i < requested.len(),
    ensures
        ({
            let r = plan_request(reg, src, force, requested, i, st);
            &&& r.steps.len() >= st.steps.len()
            &&& r.steps.take(st.steps.len() as int) == st.steps
            &&& forall|k: int|
                st.steps.len() <= k < r.steps.len() ==> step_faithful(reg, src, force, #[trigger] r.steps[k])
        }),
{
    let name = requested[i];
    if has_component(reg, name) {
        let root = index_of(reg, name);
        let cl = closure_upto(reg, root, reg.len() as int);
        lemma_closure_upto(reg, root, reg.len() as int);
        lemma_stage_closure(reg, src, force, i as usize, root as usize, cl, st, cl.len() as int);
    } else {
        assert(st.steps.take(st.steps.len() as int) =~= st.steps);
    }
}

proof fn lemma_plan_upto(
    reg: Seq<ComponentInfo>,
    src: Seq<Seq<char>>,
    force: bool,
    requested: Seq<Seq<char>>,
    st: Plan,
    count: int,
)
    requires
        catalog_wf(reg),
        reg.len() <= usize::MAX,
        0 <= count <= requested.len(),
    ensures
        ({
            let r = plan_upto(reg, src, force, requested, st, count);
            &&& r.steps.len() >= st.steps.len()
            &&& r.steps.take(st.steps.len() as int) == st.steps
            &&& forall|k: int|
                st.steps.len() <= k < r.steps.len() ==> step_faithful(reg, src, force, #[trigger] r.steps[k])
        }),
    decreases count,
{
    if count == 0 {
        assert(st.steps.take(st.steps.len() as int) =~= st.steps);
    } else {
        lemma_plan_upto(reg, src, force, requested, st, count - 1);
        let prev = plan_upto(reg, src, force, requested, st, count - 1);
        lemma_plan_request(reg, src, force, requested, count - 1, prev);
        let r = plan_upto(reg, src, force, requested, st, count);
        assert(r.steps.take(st.steps.len() as int) =~= r.steps.take(prev.steps.len() as int).take(
            st.steps.len() as int,
        ));
        assert forall|k: int|
            st.steps.len() <= k < r.steps.len() implies step_faithful(reg, src, force, #[trigger] r.steps[k]) by {
            if k < prev.steps.len() {
                assert(r.steps[k] == r.steps.take(prev.steps.len() as int)[k]);
            }
        }
    }
}

/// Every file decision of an install names a real file of the catalog and warns of
/// a missing source exactly when the source tree lacks that file; when
/// overwriting, it copies exactly the files that the source tree has, whatever
/// the destination or the manifest holds.
pub proof fn lemma_install_steps_faithful(
    reg: Seq<ComponentInfo>,
    src: Seq<Seq<char>>,
    dest: Seq<Seq<char>>,
    installed: Seq<Seq<char>>,
    force: bool,
    requested: Seq<Seq<char>>,
)
    requires
        catalog_wf(reg),
        reg.len() <= usize::MAX,
    ensures
        forall|k: int|
            0 <= k < install_plan(reg, src, dest, installed, force, requested).steps.len()
                ==> step_faithful(
                reg,
                src,
                force,
                #[trigger] install_plan(reg, src, dest, installed, force, requested).steps[k],
            ),
{
    let init = Plan {
        dest,
        installed,
        steps: Seq::empty(),
        not_found: Seq::empty(),
        added: Seq::empty(),
        recorded: Seq::empty(),
    };
    lemma_plan_upto(reg, src, force, requested, init, requested.len() as int);
}

/// Installing a component that the manifest does not record, with a source tree
/// that may lack some of its files, records it all the same, and decides on every
/// file that it declares: a warning for each file the source tree lacks, and a
/// copy or a kept destination file for each of the others.
pub proof fn lemma_install_records_despite_missing_sources(
    reg: Seq<ComponentInfo>,
    src: Seq<Seq<char>>,
    dest: Seq<Seq<char>>,
    installed: Seq<Seq<char>>,
    force: bool,
    name: Seq<char>,
)
    requires
        catalog_wf(reg),
        reg.len() <= usize::MAX,
        has_component(reg, name),
        !installed.contains(name),
    ensures
        ({
            let p = install_plan(reg, src, dest, installed, force, seq![name]);
            let root = index_of(reg, name);
            &&& p.installed == installed.push(name)
            &&& p.recorded == seq![root as usize]
            &&& forall|f: int| 0 <= f < reg[root].files.len() ==> #[trigger] decided(p.steps, 0, root, f)
            &&& forall|k: int| 0 <= k < p.steps.len() ==> step_faithful(reg, src, force, #[trigger] p.steps[k])
        }),
{
    let requested = seq![name];
    let init = Plan {
        dest,
        installed,
        steps: Seq::empty(),
        not_found: Seq::empty(),
        added: Seq::empty(),
        recorded: Seq::empty(),
    };
    let root = index_of(reg, name);
    let cl = closure_upto(reg, root, reg.len() as int);
    lemma_closure_upto(reg, root, reg.len() as int);
    crate::registry::lemma_root_in_closure(reg, root);
    assert(cl.contains(root));
    let kr = choose|kr: int| 0 <= kr < cl.len() && cl[kr] == root;
    lemma_stage_closure(reg, src, force, 0, root as usize, cl, init, cl.len() as int);
    let s = stage_closure(reg, src, force, 0, root as usize, cl, init, cl.len() as int);
    assert(requested[0] == name);
    assert(plan_upto(reg, src, force, requested, init, 0) == init);
    assert(plan_upto(reg, src, force, requested, init, 1) == plan_request(reg, src, force, requested, 0, init));
    assert forall|f: int| 0 <= f < reg[root].files.len() implies #[trigger] decided(s.steps, 0, root, f) by {
        assert(0 <= kr < cl.len() && 0 <= f < reg[cl[kr]].files.len());
        assert(decided(s.steps, 0, cl[kr], f));
    }
    lemma_install_steps_faithful(reg, src, dest, installed, force, requested);
}

/// Installing a component into a manifest that records nothing, then installing it
/// again without overwriting, copies nothing the second time and leaves the
/// manifest with the one record of the first.
pub proof fn lemma_reinstall_is_idempotent(
    reg: Seq<ComponentInfo>,
    src: Seq<Seq<char>>,
    dest: Seq<Seq<char>>,
    force: bool,
    name: Seq<char>,
)
    requires
        catalog_wf(reg),
        reg.len() <= usize::MAX,
        has_component(reg, name),
    ensures
        ({
            let first = install_plan(reg, src, dest, Seq::empty(), force, seq![name]);
            let second = install_plan(reg, src, first.dest, first.installed, false, seq![name]);
            &&& first.installed == seq![name]
            &&& second.installed == seq![name]
            &&& second.recorded.len() == 0
            &&& second.dest == first.dest
            &&& forall|k: int|
                0 <= k < second.steps.len() ==> (#[trigger] second.steps[k]).action != FileAction::CopyFile
        }),
{
    let requested = seq![name];
    let root = index_of(reg, name);
    let cl = closure_upto(reg, root, reg.len() as int);
    lemma_closure_upto(reg, root, reg.len() as int);
    assert(requested[0] == name);
    let init1 = Plan {
        dest,
        installed: Seq::empty(),
        steps: Seq::empty(),
        not_found: Seq::empty(),
        added: Seq::empty(),
        recorded: Seq::empty(),
    };
    lemma_stage_closure(reg, src, force, 0, root as usize, cl, init1, cl.len() as int);
    assert(plan_upto(reg, src, force, requested, init1, 0) == init1);
    assert(plan_upto(reg, src, force, requested, init1, 1) == plan_request(reg, src, force, requested, 0, init1));
    let first = install_plan(reg, src, dest, Seq::empty(), force, requested);
    assert(first.installed =~= seq![name]);
    let init2 = Plan {
        dest: first.dest,
        installed: first.installed,
        steps: Seq::empty(),
        not_found: Seq::empty(),
        added: Seq::empty(),
        recorded: Seq::empty(),
    };
    lemma_stage_closure(reg, src, false, 0, root as usize, cl, init2, cl.len() as int);
    assert(plan_upto(reg, src, false, requested, init2, 0) == init2);
    assert(plan_upto(reg, src, false, requested, init2, 1) == plan_request(reg, src, false, requested, 0, init2));
    assert(first.installed.contains(name)) by {
        assert(first.installed[0] == name);
    }
}

fn contains_string(v: &Vec<String>, s: &String) -> (r: bool)
    ensures
        r == strs(v@).contains(s@),
{
    let mut i: usize = 0;
    while i < v.len()
        invariant
            i <= v.len(),
            forall|j: int| 0 <= j < i ==> #[trigger] v@[j]@ != s@,
        decreases v.len() - i,
    {
        if v[i] == *s {
            proof {
                assert(strs(v@)[i as int] == s@);
            }
            return true;
        }
        i = i + 1;
    }
    proof {
        if strs(v@).contains(s@) {
            let k = choose|k: int| 0 <= k < strs(v@).len() && strs(v@)[k] == s@;
            assert(v@[k]@ == s@);
        }
    }
    false
}

fn contains_position(v: &Vec<usize>, x: usize) -> (r: bool)
    ensures
        r == v@.contains(x),
{
    let mut i: usize = 0;
    while i < v.len()
        invariant
            i <= v.len(),
            forall|j: int| 0 <= j < i ==> #[trigger] v@[j] != x,
        decreases v.len() - i,
    {
        if v[i] == x {
            return true;
        }
        i = i + 1;
    }
    false
}

fn copy_strings(v: &Vec<String>) -> (r: Vec<String>)
    ensures
        strs(r@) == strs(v@),
{
    let mut out: Vec<String> = Vec::new();
    let mut i: usize = 0;
    while i < v.len()
        invariant
            i <= v.len(),
            strs(out@) == strs(v@.take(i as int)),
        decreases v.len() - i,
    {
        let ghost prev = out@;
        let c = v[i].clone();
        out.push(c);
        proof {
            assert(v@.take(i + 1) =~= v@.take(i as int).push(v@[i as int]));
            assert(strs(prev.push(c)) =~= strs(prev).push(c@));
            assert(strs(v@.take(i as int).push(v@[i as int])) =~= strs(v@.take(i as int)).push(
                v@[i as int]@,
            ));
        }
        i = i + 1;
    }
    proof {
        assert(v@.take(v@.len() as int) =~= v@);
    }
    out
}

} // verus!
