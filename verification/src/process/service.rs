//! Top-level discovery pipeline: normalise the request patterns, walk the
//! inspected processes, and turn raw module data into a structured
//! response. The Win32 enumeration itself is done by the caller, which
//! hands in one [`ProcessProbe`] per process of the snapshot.

use vstd::prelude::*;

use crate::cdb::cli::strings_view;
use crate::cdb::session::clone_opt_string;
use crate::platform::windows::modules::ModuleInfo;
use crate::platform::windows::process::ProcessInfo;
use crate::platform::windows::skip::{skip_kind, skip_message, SkipReason};
use crate::process::matcher::{
    first_hit, parse_all, strs_view, ModuleMatcher, PatternView,
};
use crate::process::model::{
    FindResult, ModuleMatch, ProcessListResult, ProcessMatch, ProcessSummary, SkippedProcess,
};
use crate::text::{lower_text, to_lowercase};

verus! {

/// Pseudo-PIDs always skipped by the discovery service: `0` is the System
/// Idle process, `4` the kernel `System` process. Neither has user-mode
/// modules to enumerate.
pub const SYSTEM_IDLE_PID: u32 = 0;

pub const SYSTEM_KERNEL_PID: u32 = 4;

/// One process of the snapshot with what inspecting it gave.
#[derive(Debug)]
pub struct ProcessProbe {
    pub info: ProcessInfo,
    /// Its modules, or why they could not be enumerated.
    pub modules: Result<Vec<ModuleInfo>, SkipReason>,
    /// Text of its executable's full path, when it could be queried.
    pub image_path: Option<String>,
}

/// Processes the service never inspects.
pub open spec fn pseudo_pid(pid: u32) -> bool {
    pid == SYSTEM_IDLE_PID || pid == SYSTEM_KERNEL_PID
}

/// Whether the process with this PID is skipped without inspection (the
/// caller need not enumerate its modules).
pub fn is_pseudo_pid(pid: u32) -> (r: bool)
    ensures
        r == pseudo_pid(pid),
{
    pid == SYSTEM_IDLE_PID || pid == SYSTEM_KERNEL_PID
}

/// A module that matched, with the original text of the first pattern it
/// matched.
pub struct HitSpec {
    pub module: ModuleInfo,
    pub pattern: Seq<char>,
}

/// A process expected among the matches.
pub struct ExpectedMatch {
    pub info: ProcessInfo,
    pub image_path: Option<String>,
    pub hits: Seq<HitSpec>,
}

/// A process expected among the skipped ones.
pub struct ExpectedSkip {
    pub info: ProcessInfo,
    pub reason: SkipReason,
}

/// The match of a module, if some pattern matches its lower-cased name or
/// path.
pub open spec fn hit_of(ps: Seq<PatternView>, m: ModuleInfo) -> Option<HitSpec> {
    match first_hit(ps, lower_text(m.name@), lower_text(m.path@)) {
        Some(i) => Some(HitSpec { module: m, pattern: ps[i].0 }),
        None => None,
    }
}

/// Matches of a module list, in order.
pub open spec fn module_hits(ps: Seq<PatternView>, mods: Seq<ModuleInfo>) -> Seq<HitSpec>
    decreases mods.len(),
{
    if mods.len() == 0 {
        Seq::empty()
    } else {
        match hit_of(ps, mods.last()) {
            Some(h) => module_hits(ps, mods.drop_last()).push(h),
            None => module_hits(ps, mods.drop_last()),
        }
    }
}

/// Processes reported as matches: inspected, enumerated, with at least
/// one matching module; in snapshot order.
pub open spec fn expected_matches(ps: Seq<PatternView>, probes: Seq<ProcessProbe>) -> Seq<
    ExpectedMatch,
>
    decreases probes.len(),
{
    if probes.len() == 0 {
        Seq::empty()
    } else {
        let prev = expected_matches(ps, probes.drop_last());
        let p = probes.last();
        if pseudo_pid(p.info.pid) {
            prev
        } else {
            match p.modules {
                Ok(mods) => {
                    let hits = module_hits(ps, mods@);
                    if hits.len() == 0 {
                        prev
                    } else {
                        prev.push(ExpectedMatch { info: p.info, image_path: p.image_path, hits })
                    }
                },
                Err(_) => prev,
            }
        }
    }
}

/// Processes reported as skipped: inspected but not enumerable; in
/// snapshot order.
pub open spec fn expected_skips(probes: Seq<ProcessProbe>) -> Seq<ExpectedSkip>
    decreases probes.len(),
{
    if probes.len() == 0 {
        Seq::empty()
    } else {
        let prev = expected_skips(probes.drop_last());
        let p = probes.last();
        if pseudo_pid(p.info.pid) {
            prev
        } else {
            match p.modules {
                Ok(_) => prev,
                Err(reason) => prev.push(ExpectedSkip { info: p.info, reason }),
            }
        }
    }
}

/// `mm` reports hit `h`.
pub open spec fn hit_ok(mm: ModuleMatch, h: HitSpec) -> bool {
    &&& mm.name == h.module.name
    &&& mm.path == h.module.path
    &&& mm.base == h.module.base
    &&& mm.size == h.module.size
    &&& mm.pattern@ == h.pattern
}

/// `ms` reports exactly the hits `hs`, in order.
pub open spec fn hits_ok(ms: Seq<ModuleMatch>, hs: Seq<HitSpec>) -> bool {
    ms.len() == hs.len() && forall|k: int| 0 <= k < ms.len() ==> #[trigger] hit_ok(ms[k], hs[k])
}

/// `pm` reports expected match `e`.
pub open spec fn match_ok(pm: ProcessMatch, e: ExpectedMatch) -> bool {
    &&& pm.pid == e.info.pid
    &&& pm.parent_pid == e.info.parent_pid
    &&& pm.image_name == e.info.image_name
    &&& pm.image_path == e.image_path
    &&& pm.threads == e.info.threads
    &&& hits_ok(pm.matched_modules@, e.hits)
    &&& pm.enumeration_status@ == "ok"@
}

/// `s` reports expected skip `e`.
pub open spec fn skip_ok(s: SkippedProcess, e: ExpectedSkip) -> bool {
    &&& s.pid == e.info.pid
    &&& s.image_name == e.info.image_name
    &&& s.reason@ == skip_message(e.reason)
    &&& s.kind@ == skip_kind(e.reason)
}

/// The find result for patterns `ps` over the probed snapshot.
pub open spec fn find_result_ok(r: FindResult, ps: Seq<PatternView>, probes: Seq<ProcessProbe>) -> bool {
    &&& r.total_processes == probes.len()
    &&& if ps.len() == 0 {
        r.matches@.len() == 0 && r.skipped_processes@.len() == 0
    } else {
        let em = expected_matches(ps, probes);
        let es = expected_skips(probes);
        &&& r.matches@.len() == em.len()
        &&& forall|i: int| 0 <= i < em.len() ==> #[trigger] match_ok(r.matches@[i], em[i])
        &&& r.skipped_processes@.len() == es.len()
        &&& forall|i: int| 0 <= i < es.len() ==> #[trigger] skip_ok(r.skipped_processes@[i], es[i])
    }
}

fn as_strs(patterns: &[String]) -> (r: Vec<&str>)
    ensures
        strs_view(r@) == strings_view(patterns@),
{
    let mut r: Vec<&str> = Vec::new();
    let n = patterns.len();
    for i in 0..n
        invariant
            n == patterns@.len(),
            strs_view(r@) == strings_view(patterns@.take(i as int)),
    {
        let ghost before = r@;
        r.push(patterns[i].as_str());
        assert(strs_view(r@) =~= strs_view(before).push(patterns@[i as int]@));
        assert(strings_view(patterns@.take(i + 1)) =~= strings_view(patterns@.take(i as int)).push(
            patterns@[i as int]@,
        ));
    }
    assert(patterns@.take(n as int) == patterns@);
    r
}

/// The modules of one process that match, each with its first pattern.
fn module_matches(matcher: &ModuleMatcher, mods: &Vec<ModuleInfo>) -> (r: Vec<ModuleMatch>)
    ensures
        hits_ok(r@, module_hits(matcher@, mods@)),
{
    let mut r: Vec<ModuleMatch> = Vec::new();
    let n = mods.len();
    for i in 0..n
        invariant
            n == mods@.len(),
            hits_ok(r@, module_hits(matcher@, mods@.take(i as int))),
    {
        let m = &mods[i];
        assert(mods@.take(i + 1).drop_last() == mods@.take(i as int));
        assert(mods@.take(i + 1).last() == *m);
        let name_lc = to_lowercase(m.name.as_str());
        let path_lc = to_lowercase(m.path.as_str());
        let ghost hs = module_hits(matcher@, mods@.take(i as int));
        if let Some(pat) = matcher.first_match(name_lc.as_str(), path_lc.as_str()) {
            let ghost before = r@;
            r.push(
                ModuleMatch {
                    name: m.name.clone(),
                    path: m.path.clone(),
                    base: m.base,
                    size: m.size,
                    pattern: pat.original.clone(),
                },
            );
            let ghost h = hit_of(matcher@, *m)->0;
            assert(module_hits(matcher@, mods@.take(i + 1)) == hs.push(h));
            assert forall|k: int| 0 <= k < r@.len() implies #[trigger] hit_ok(
                r@[k],
                hs.push(h)[k],
            ) by {
                if k < before.len() {
                    assert(r@[k] == before[k]);
                    assert(hit_ok(before[k], hs[k]));
                }
            }
        }
    }
    assert(mods@.take(n as int) == mods@);
    r
}

/// Return all processes of the snapshot that load any of the provided
/// module patterns, with the processes that could not be inspected.
pub fn find_processes_by_module(patterns: &[String], probes: &Vec<ProcessProbe>) -> (r: FindResult)
    ensures
        find_result_ok(r, parse_all(strings_view(patterns@)), probes@),
{
    let total = probes.len();
    let raw = as_strs(patterns);
    let matcher = ModuleMatcher::from_raw(raw.as_slice());
    let ghost ps = matcher@;
    if matcher.is_empty() {
        return FindResult {
            matches: Vec::new(),
            total_processes: total,
            skipped_processes: Vec::new(),
        };
    }
    let mut matches: Vec<ProcessMatch> = Vec::new();
    let mut skipped: Vec<SkippedProcess> = Vec::new();
    let mut i: usize = 0;
    while i < total
        invariant
            i <= total,
            total == probes@.len(),
            ps == matcher@,
            ps.len() > 0,
            matches@.len() == expected_matches(ps, probes@.take(i as int)).len(),
            forall|k: int|
                0 <= k < matches@.len() ==> #[trigger] match_ok(
                    matches@[k],
                    expected_matches(ps, probes@.take(i as int))[k],
                ),
            skipped@.len() == expected_skips(probes@.take(i as int)).len(),
            forall|k: int|
                0 <= k < skipped@.len() ==> #[trigger] skip_ok(
                    skipped@[k],
                    expected_skips(probes@.take(i as int))[k],
                ),
        decreases total - i,
    {
        let probe = &probes[i];
        assert(probes@.take(i + 1).drop_last() == probes@.take(i as int));
        assert(probes@.take(i + 1).last() == *probe);
        let ghost em = expected_matches(ps, probes@.take(i as int));
        let ghost es = expected_skips(probes@.take(i as int));
        if !is_pseudo_pid(probe.info.pid) {
            match &probe.modules {
                Err(reason) => {
                    let ghost before = skipped@;
                    skipped.push(
                        SkippedProcess {
                            pid: probe.info.pid,
                            image_name: probe.info.image_name.clone(),
                            reason: reason.to_string(),
                            kind: reason.kind().to_string(),
                        },
                    );
                    let ghost e = ExpectedSkip { info: probe.info, reason: *reason };
                    assert(expected_skips(probes@.take(i + 1)) == es.push(e));
                    assert forall|k: int| 0 <= k < skipped@.len() implies #[trigger] skip_ok(
                        skipped@[k],
                        es.push(e)[k],
                    ) by {
                        if k < before.len() {
                            assert(skipped@[k] == before[k]);
                            assert(skip_ok(before[k], es[k]));
                        }
                    }
                    assert(expected_matches(ps, probes@.take(i + 1)) == em);
                },
                Ok(mods) => {
                    let matched = module_matches(&matcher, mods);
                    assert(expected_skips(probes@.take(i + 1)) == es);
                    if matched.len() == 0 {
                        assert(expected_matches(ps, probes@.take(i + 1)) == em);
                    } else {
                        let ghost before = matches@;
                        matches.push(
                            ProcessMatch {
                                pid: probe.info.pid,
                                parent_pid: probe.info.parent_pid,
                                image_name: probe.info.image_name.clone(),
                                image_path: clone_opt_string(&probe.image_path),
                                threads: probe.info.threads,
                                matched_modules: matched,
                                enumeration_status: "ok".to_string(),
                            },
                        );
                        let ghost e = ExpectedMatch {
                            info: probe.info,
                            image_path: probe.image_path,
                            hits: module_hits(ps, mods@),
                        };
                        assert(expected_matches(ps, probes@.take(i + 1)) == em.push(e));
                        assert forall|k: int| 0 <= k < matches@.len() implies #[trigger] match_ok(
                            matches@[k],
                            em.push(e)[k],
                        ) by {
                            if k < before.len() {
                                assert(matches@[k] == before[k]);
                                assert(match_ok(before[k], em[k]));
                            }
                        }
                    }
                },
            }
        } else {
            assert(expected_matches(ps, probes@.take(i + 1)) == em);
            assert(expected_skips(probes@.take(i + 1)) == es);
        }
        i = i + 1;
    }
    assert(probes@.take(total as int) == probes@);
    assert(matcher@ == parse_all(strings_view(patterns@)));
    FindResult { matches, total_processes: total, skipped_processes: skipped }
}

/// `s` summarises process `p`.
pub open spec fn summary_ok(s: ProcessSummary, p: ProcessInfo) -> bool {
    s.pid == p.pid && s.image_name == p.image_name && s.parent_pid == p.parent_pid && s.threads
        == p.threads
}

/// Lightweight process listing: one summary per process of the snapshot,
/// in order.
pub fn list_processes(processes: &Vec<ProcessInfo>) -> (r: Vec<ProcessSummary>)
    ensures
        r@.len() == processes@.len(),
        forall|i: int| 0 <= i < r@.len() ==> #[trigger] summary_ok(r@[i], processes@[i]),
{
    let mut r: Vec<ProcessSummary> = Vec::new();
    let n = processes.len();
    for i in 0..n
        invariant
            n == processes@.len(),
            r@.len() == i,
            forall|k: int| 0 <= k < i ==> #[trigger] summary_ok(r@[k], processes@[k]),
    {
        let p = &processes[i];
        r.push(
            ProcessSummary {
                pid: p.pid,
                image_name: p.image_name.clone(),
                parent_pid: p.parent_pid,
                threads: p.threads,
            },
        );
    }
    r
}

/// The `process_list` response: the listing together with its size.
pub fn list_processes_result(processes: &Vec<ProcessInfo>) -> (r: ProcessListResult)
    ensures
        r.total_processes == processes@.len(),
        r.processes@.len() == processes@.len(),
        forall|i: int| 0 <= i < r.processes@.len() ==> #[trigger] summary_ok(r.processes@[i], processes@[i]),
{
    let list = list_processes(processes);
    let total = list.len();
    ProcessListResult { processes: list, total_processes: total }
}


/// A probed process is reported as a match: it was inspected (not a
/// pseudo-process), its modules were enumerated, and one of them matches.
pub open spec fn reported_as_match(ps: Seq<PatternView>, p: ProcessProbe) -> bool {
    !pseudo_pid(p.info.pid) && (p.modules matches Ok(mods) && exists|k: int|
        0 <= k < mods@.len() && #[trigger] hit_of(ps, mods@[k]) is Some)
}

/// A probed process is reported as skipped: it was inspected but its
/// modules could not be enumerated.
pub open spec fn reported_as_skip(p: ProcessProbe) -> bool {
    !pseudo_pid(p.info.pid) && p.modules is Err
}

/// Every module that matches is reported, in order, with the first
/// pattern it matches; no other module is.
pub proof fn law_module_hits_are_the_matching_modules(ps: Seq<PatternView>, mods: Seq<ModuleInfo>)
    ensures
        ({
            let f = mods.filter(|m: ModuleInfo| hit_of(ps, m) is Some);
            &&& module_hits(ps, mods).len() == f.len()
            &&& forall|i: int| 0 <= i < f.len() ==> #[trigger] module_hits(ps, mods)[i] == hit_of(
                ps,
                f[i],
            )->0
        }),
        module_hits(ps, mods).len() > 0 <==> exists|k: int|
            0 <= k < mods.len() && #[trigger] hit_of(ps, mods[k]) is Some,
    decreases mods.len(),
{
    reveal(Seq::filter);
    let f = mods.filter(|m: ModuleInfo| hit_of(ps, m) is Some);
    if mods.len() > 0 {
        law_module_hits_are_the_matching_modules(ps, mods.drop_last());
        let h = module_hits(ps, mods);
        let h0 = module_hits(ps, mods.drop_last());
        let f0 = mods.drop_last().filter(|m: ModuleInfo| hit_of(ps, m) is Some);
        assert forall|i: int| 0 <= i < f.len() implies #[trigger] h[i] == hit_of(ps, f[i])->0 by {
            if i < f0.len() {
                assert(f[i] == f0[i]);
                assert(h[i] == h0[i]);
            }
        }
        if h.len() > 0 {
            if h0.len() > 0 {
                let k = choose|k: int| 0 <= k < mods.drop_last().len() && #[trigger] hit_of(ps, mods.drop_last()[k]) is Some;
                assert(mods[k] == mods.drop_last()[k]);
            } else {
                assert(hit_of(ps, mods[mods.len() - 1]) is Some);
            }
        }
        if exists|k: int| 0 <= k < mods.len() && #[trigger] hit_of(ps, mods[k]) is Some {
            let k = choose|k: int| 0 <= k < mods.len() && #[trigger] hit_of(ps, mods[k]) is Some;
            if k < mods.len() - 1 {
                assert(mods.drop_last()[k] == mods[k]);
            }
        }
    }
}

/// Every inspected, enumerable process with a matching module is reported
/// as a match, and no other process is: the matches are exactly those
/// processes, in snapshot order, each with its own identity, image path
/// and matching modules, however many were found before it.
pub proof fn law_every_matching_process_is_reported(ps: Seq<PatternView>, probes: Seq<ProcessProbe>)
    ensures
        ({
            let f = probes.filter(|p: ProcessProbe| reported_as_match(ps, p));
            let em = expected_matches(ps, probes);
            &&& em.len() == f.len()
            &&& forall|i: int|
                0 <= i < f.len() ==> (#[trigger] em[i]).info == f[i].info && em[i].image_path
                    == f[i].image_path && em[i].hits == module_hits(ps, f[i].modules->Ok_0@)
        }),
    decreases probes.len(),
{
    reveal(Seq::filter);
    if probes.len() > 0 {
        let p = probes.last();
        law_every_matching_process_is_reported(ps, probes.drop_last());
        match p.modules {
            Ok(mods) => {
                law_module_hits_are_the_matching_modules(ps, mods@);
            },
            Err(_) => {},
        }
        let f = probes.filter(|p: ProcessProbe| reported_as_match(ps, p));
        let f0 = probes.drop_last().filter(|p: ProcessProbe| reported_as_match(ps, p));
        let em = expected_matches(ps, probes);
        let em0 = expected_matches(ps, probes.drop_last());
        assert forall|i: int| 0 <= i < f.len() implies (#[trigger] em[i]).info == f[i].info
            && em[i].image_path == f[i].image_path && em[i].hits == module_hits(ps, f[i].modules->Ok_0@) by {
            if i < f0.len() {
                assert(f[i] == f0[i]);
                assert(em[i] == em0[i]);
            }
        }
    }
}

/// Every inspected process whose modules could not be enumerated is
/// reported as skipped, with its reason, in snapshot order; no other
/// process is.
pub proof fn law_every_unreadable_process_is_skipped(probes: Seq<ProcessProbe>)
    ensures
        ({
            let f = probes.filter(|p: ProcessProbe| reported_as_skip(p));
            let es = expected_skips(probes);
            &&& es.len() == f.len()
            &&& forall|i: int|
                0 <= i < f.len() ==> (#[trigger] es[i]).info == f[i].info && f[i].modules
                    == Err::<Vec<ModuleInfo>, SkipReason>(es[i].reason)
        }),
    decreases probes.len(),
{
    reveal(Seq::filter);
    if probes.len() > 0 {
        law_every_unreadable_process_is_skipped(probes.drop_last());
        let f = probes.filter(|p: ProcessProbe| reported_as_skip(p));
        let f0 = probes.drop_last().filter(|p: ProcessProbe| reported_as_skip(p));
        let es = expected_skips(probes);
        let es0 = expected_skips(probes.drop_last());
        assert forall|i: int| 0 <= i < f.len() implies (#[trigger] es[i]).info == f[i].info
            && f[i].modules == Err::<Vec<ModuleInfo>, SkipReason>(es[i].reason) by {
            if i < f0.len() {
                assert(f[i] == f0[i]);
                assert(es[i] == es0[i]);
            }
        }
    }
}

} // verus!
