//! The push orchestrator.
//!
//! One run is a walk through the states `Start → Scanned → Filtered → Mapped
//! → Decided → {Sending → Sent | Skipped} → RecordUpdated`, with `Failed` as
//! the terminal state of any fatal step. The machine holds every decision of
//! a run; the surrounding binary performs the outside work between steps —
//! the filesystem walks, the confirmation prompt, the device-agent calls —
//! and reports each outcome back. The record store is touched in exactly one
//! place, `update_record`, and only after every transfer of the plan has
//! succeeded, or to record a first-run baseline.

use vstd::prelude::*;

use crate::SyncError;
use crate::records::RecordStore;
use crate::resolve::{base_name, clone_path, find_device_path, path_views, spec_base_name};
use crate::scan::{
    ScannedFile,
    ScannedFileView,
    file_views,
    lemma_first_run_selects_all,
    lemma_max_selected,
    max_mtime,
    select_new_files,
    spec_max_mtime,
    spec_select,
    spec_selected,
};

verus! {

/// One entry of the push plan: a changed build file (absolute path) and the
/// single device path it resolved to.
pub struct PlanEntry {
    pub build_file: Vec<u8>,
    pub device_path: Vec<u8>,
}

/// The mathematical content of a `PlanEntry`.
pub ghost struct PlanEntryView {
    pub build_file: Seq<u8>,
    pub device_path: Seq<u8>,
}

impl View for PlanEntry {
    type V = PlanEntryView;

    open spec fn view(&self) -> PlanEntryView {
        PlanEntryView { build_file: self.build_file@, device_path: self.device_path@ }
    }
}

/// The views of a sequence of plan entries, in order.
pub open spec fn plan_views(s: Seq<PlanEntry>) -> Seq<PlanEntryView> {
    s.map_values(|e: PlanEntry| e@)
}

/// The mirror paths that resolve a build file: those whose base name equals
/// the build file's base name.
pub open spec fn spec_matches(path: Seq<u8>, mirror: Seq<Seq<u8>>) -> Seq<Seq<u8>> {
    mirror.filter(|m: Seq<u8>| spec_base_name(m) == spec_base_name(path))
}

/// The push plan for the selected files: one entry per file that resolves to
/// exactly one device path, in selection order; files with no match are
/// dropped. (Meaningful when no file resolves ambiguously.)
pub open spec fn spec_plan(sel: Seq<ScannedFileView>, mirror: Seq<Seq<u8>>) -> Seq<PlanEntryView>
    decreases sel.len(),
{
    if sel.len() == 0 {
        Seq::empty()
    } else {
        let rest = spec_plan(sel.drop_last(), mirror);
        let ms = spec_matches(sel.last().path, mirror);
        if ms.len() == 1 {
            rest.push(PlanEntryView { build_file: sel.last().path, device_path: ms[0] })
        } else {
            rest
        }
    }
}

/// Whether no selected file resolves to more than one device path.
pub open spec fn spec_unambiguous(sel: Seq<ScannedFileView>, mirror: Seq<Seq<u8>>) -> bool {
    forall|i: int| 0 <= i < sel.len() ==> spec_matches(#[trigger] sel[i].path, mirror).len() <= 1
}

/// An empty selection plans nothing, so a non-empty plan proves the
/// selection was non-empty.
pub proof fn lemma_plan_len(sel: Seq<ScannedFileView>, mirror: Seq<Seq<u8>>)
    ensures
        spec_plan(sel, mirror).len() <= sel.len(),
    decreases sel.len(),
{
    if sel.len() > 0 {
        lemma_plan_len(sel.drop_last(), mirror);
    }
}

/// Resolve each selected file to its device path: files with exactly one
/// match make the plan, files with none are dropped, and a file with more
/// than one match is an error naming its base name — an ambiguity must never
/// be merged into one path.
pub fn build_plan(selected: &Vec<ScannedFile>, mirror: &Vec<Vec<u8>>) -> (r: Result<
    Vec<PlanEntry>,
    SyncError,
>)
    ensures
        r is Ok <==> spec_unambiguous(file_views(selected@), path_views(mirror@)),
        (r matches Ok(p) ==> plan_views(p@) == spec_plan(
            file_views(selected@),
            path_views(mirror@),
        )),
        (r matches Err(e) ==> e is AmbiguousDevicePath),
{
    let ghost selv = file_views(selected@);
    let ghost mirrorv = path_views(mirror@);
    let mut plan: Vec<PlanEntry> = Vec::new();
    let mut i: usize = 0;
    proof {
        assert(file_views(selected@.subrange(0, 0)) =~= Seq::<ScannedFileView>::empty());
        assert(plan_views(plan@) =~= Seq::<PlanEntryView>::empty());
    }
    while i < selected.len()
        invariant
            i <= selected@.len(),
            selv == file_views(selected@),
            mirrorv == path_views(mirror@),
            plan_views(plan@) == spec_plan(file_views(selected@.subrange(0, i as int)), mirrorv),
            spec_unambiguous(file_views(selected@.subrange(0, i as int)), mirrorv),
            plan@.len() > 0 ==> selected@.len() > 0,
        decreases selected@.len() - i,
    {
        proof {
            let next = file_views(selected@.subrange(0, i + 1 as int));
            assert(next.drop_last() =~= file_views(selected@.subrange(0, i as int)));
            assert(next.last() == selected@[i as int]@);
        }
        let name = base_name(&selected[i].path);
        let mut candidates = find_device_path(&name, mirror);
        proof {
            assert(path_views(candidates@) == spec_matches(selected@[i as int]@.path, mirrorv));
        }
        if candidates.len() > 1 {
            proof {
                assert(file_views(selected@)[i as int] == selected@[i as int]@);
                assert(spec_matches(file_views(selected@)[i as int].path, mirrorv).len() > 1);
            }
            return Err(SyncError::AmbiguousDevicePath(name));
        }
        if candidates.len() == 1 {
            let device_path = candidates.pop().unwrap();
            let build_file = clone_path(&selected[i].path);
            plan.push(PlanEntry { build_file, device_path });
            proof {
                assert(device_path@ == spec_matches(selected@[i as int]@.path, mirrorv)[0]);
                assert(plan_views(plan@.drop_last()) =~= plan_views(plan@).drop_last());
                assert(plan_views(plan@) =~= plan_views(plan@).drop_last().push(
                    plan@.last()@,
                ));
            }
        }
        proof {
            let nextsel = file_views(selected@.subrange(0, i + 1 as int));
            assert forall|k: int|
                0 <= k < nextsel.len() implies spec_matches(
                #[trigger] nextsel[k].path,
                mirrorv,
            ).len() <= 1 by {
                if k < i as int {
                    assert(nextsel[k] == file_views(selected@.subrange(0, i as int))[k]);
                }
            }
        }
        i = i + 1;
    }
    proof {
        assert(selected@.subrange(0, selected@.len() as int) =~= selected@);
    }
    Ok(plan)
}

/// Where a run stands.
pub enum RunState {
    /// Nothing has happened yet.
    Start,
    /// The build subtrees were walked.
    Scanned,
    /// The change detector ran against the device's watermark.
    Filtered,
    /// Every changed file was resolved to its device path.
    Mapped,
    /// The send decision fell.
    Decided,
    /// The device filesystem is remounted; transfers are under way.
    Sending,
    /// Every file of the plan was transferred.
    Sent,
    /// Nothing was sent, by decision.
    Skipped,
    /// The record store reflects the run's outcome. Terminal.
    RecordUpdated,
    /// A fatal step; the record store was never touched. Terminal.
    Failed,
}

/// The watermark a run commits: the newest modification time among the
/// selected files, or the minimal instant when nothing was selected (a
/// first-run baseline over an empty build tree).
pub open spec fn spec_commit_watermark(w: Option<i64>) -> i64 {
    match w {
        Option::Some(m) => m,
        Option::None => i64::MIN,
    }
}

/// One sync run for one device.
pub struct BuildFilePusher {
    /// The target device's connection key.
    pub connect_key: String,
    /// Force mode: re-select files modified exactly at the watermark.
    pub force: bool,
    /// Auto-confirm: send without prompting.
    pub push: bool,
    /// The per-device sync state, loaded at start, flushed by the caller
    /// after `update_record` where `mutated` says so.
    pub store: RecordStore,
    /// Every regular file of the scanned subtrees.
    pub files: Vec<ScannedFile>,
    /// Whether a record for this device existed when the run began.
    pub record_exists: bool,
    /// The device's watermark when the run began, if any.
    pub prior_watermark: Option<i64>,
    /// The files the change detector selected.
    pub selected: Vec<ScannedFile>,
    /// The newest modification time among the selected files.
    pub new_watermark: Option<i64>,
    /// The push plan: selected files with their resolved device paths.
    pub plan: Vec<PlanEntry>,
    /// The send decision.
    pub send: bool,
    /// How many plan entries were transferred so far.
    pub sent_count: usize,
    /// Whether `update_record` changed the store.
    pub mutated: bool,
    /// Where the run stands.
    pub state: RunState,
}

impl BuildFilePusher {
    /// What holds from the change detection on: the recorded prior state is
    /// the store's, the selection is the detector's, and the candidate
    /// watermark is the selection's maximum.
    pub open spec fn filtered_inv(self) -> bool {
        &&& self.record_exists == self.store.spec_contains(self.connect_key@)
        &&& self.prior_watermark == self.store.spec_watermark(self.connect_key@)
        &&& file_views(self.selected@) == spec_select(
            file_views(self.files@),
            self.prior_watermark,
            self.force,
        )
        &&& match self.new_watermark {
            Option::None => self.selected@.len() == 0,
            Option::Some(m) => self.selected@.len() > 0 && m as int == spec_max_mtime(
                file_views(self.selected@),
            ),
        }
    }

    /// What holds from the mapping on.
    pub open spec fn mapped_inv(self) -> bool {
        &&& self.filtered_inv()
        &&& (self.plan@.len() > 0 ==> self.selected@.len() > 0)
    }

    /// What holds from the decision on: sending requires a non-empty plan
    /// and a prior record — a first run never sends.
    pub open spec fn decided_inv(self) -> bool {
        &&& self.mapped_inv()
        &&& (self.send ==> self.plan@.len() > 0 && self.record_exists)
    }

    /// The machine's invariant, by state.
    pub open spec fn inv(self) -> bool {
        &&& self.store.wf()
        &&& match self.state {
            RunState::Start => true,
            RunState::Scanned => true,
            RunState::Filtered => self.filtered_inv(),
            RunState::Mapped => self.mapped_inv(),
            RunState::Decided => self.decided_inv(),
            RunState::Sending => self.decided_inv() && self.send && self.sent_count
                <= self.plan@.len(),
            RunState::Sent => self.decided_inv() && self.send,
            RunState::Skipped => self.decided_inv() && !self.send,
            RunState::RecordUpdated => true,
            RunState::Failed => true,
        }
    }

    /// A fresh run over a loaded store.
    pub fn new(connect_key: String, force: bool, push: bool, store: RecordStore) -> (r:
        BuildFilePusher)
        requires
            store.wf(),
        ensures
            r.inv(),
            r.state is Start,
            r.store == store,
            r.connect_key == connect_key,
            r.force == force,
            r.push == push,
    {
        BuildFilePusher {
            connect_key,
            force,
            push,
            store,
            files: Vec::new(),
            record_exists: false,
            prior_watermark: None,
            selected: Vec::new(),
            new_watermark: None,
            plan: Vec::new(),
            send: false,
            sent_count: 0,
            mutated: false,
            state: RunState::Start,
        }
    }

    /// Whether the loaded store holds a record for this device.
    pub fn record_entry_exists(&self, connect_key: &String) -> (r: bool)
        ensures
            r == self.store.spec_contains(connect_key@),
    {
        self.store.record_entry_exists(connect_key)
    }

    /// The loaded record for this device, or none.
    pub fn record_entry(&self, connect_key: &String) -> (r: Option<&crate::records::Record>)
        requires
            self.store.wf(),
        ensures
            match r {
                Option::Some(rec) => self.store.spec_contains(connect_key@) && rec.connectkey@
                    == connect_key@ && self.store.spec_watermark(connect_key@) == Some(
                    rec.watermark,
                ),
                Option::None => !self.store.spec_contains(connect_key@),
            },
    {
        self.store.record_entry(connect_key)
    }

    /// The position of this device's record in the store, for mutation
    /// through it, or none.
    pub fn record_entry_mut(&mut self, connect_key: &String) -> (r: Option<usize>)
        ensures
            *final(self) == *old(self),
            match r {
                Option::Some(i) => i < old(self).store.records@.len() && old(self).store.records@[
                    i as int
                ].connectkey@ == connect_key@,
                Option::None => !old(self).store.spec_contains(connect_key@),
            },
    {
        self.store.record_entry_mut(connect_key)
    }

    /// `Start → Scanned`: take the files the scanner found.
    pub fn on_scanned(&mut self, files: Vec<ScannedFile>)
        requires
            old(self).inv(),
            old(self).state is Start,
        ensures
            final(self).inv(),
            *final(self) == (BuildFilePusher { files, state: RunState::Scanned, ..*old(self) }),
    {
        self.files = files;
        self.state = RunState::Scanned;
    }

    /// `Scanned → Filtered`: run the change detector against this device's
    /// watermark (none on a first run, which selects every file).
    pub fn filter_changed(&mut self)
        requires
            old(self).inv(),
            old(self).state is Scanned,
        ensures
            final(self).inv(),
            final(self).state is Filtered,
            final(self).filtered_inv(),
            final(self).store == old(self).store,
            final(self).files == old(self).files,
            final(self).connect_key == old(self).connect_key,
            final(self).force == old(self).force,
            final(self).push == old(self).push,
    {
        let entry = self.store.record_entry(&self.connect_key);
        let w: Option<i64> = match entry {
            Option::Some(rec) => Some(rec.watermark),
            Option::None => None,
        };
        self.record_exists = match entry {
            Option::Some(_) => true,
            Option::None => false,
        };
        self.prior_watermark = w;
        self.selected = select_new_files(&self.files, w, self.force);
        self.new_watermark = max_mtime(&self.selected);
        self.state = RunState::Filtered;
    }

    /// `Filtered → Mapped`: resolve each selected file against the package
    /// mirror (`mirror` holds every mirror file's path relative to the
    /// mirror root). An ambiguous resolution is fatal: the run fails and the
    /// store stays untouched.
    pub fn map_to_device(&mut self, mirror: &Vec<Vec<u8>>) -> (r: Result<(), SyncError>)
        requires
            old(self).inv(),
            old(self).state is Filtered,
        ensures
            final(self).inv(),
            final(self).store == old(self).store,
            r is Ok <==> spec_unambiguous(file_views(old(self).selected@), path_views(mirror@)),
            (r is Ok ==> {
                &&& final(self).state is Mapped
                &&& plan_views(final(self).plan@) == spec_plan(
                    file_views(old(self).selected@),
                    path_views(mirror@),
                )
                &&& *final(self) == (BuildFilePusher {
                    plan: final(self).plan,
                    state: RunState::Mapped,
                    ..*old(self)
                })
            }),
            (r matches Err(e) ==> final(self).state is Failed && e is AmbiguousDevicePath),
    {
        let built = build_plan(&self.selected, mirror);
        match built {
            Result::Ok(plan) => {
                proof {
                    lemma_plan_len(file_views(self.selected@), path_views(mirror@));
                }
                self.plan = plan;
                self.state = RunState::Mapped;
                Ok(())
            },
            Result::Err(e) => {
                self.state = RunState::Failed;
                Err(e)
            },
        }
    }

    /// Whether the caller must ask for confirmation: only when there is
    /// something to send, a prior record exists, and auto-confirm is off. A
    /// first run never prompts.
    pub fn needs_prompt(&self) -> (r: bool)
        requires
            self.inv(),
            self.state is Mapped,
        ensures
            r == (self.plan@.len() > 0 && self.record_exists && !self.push),
    {
        self.plan.len() > 0 && self.record_exists && !self.push
    }

    /// `Mapped → Decided`: fix the send decision. `confirmed` is the
    /// operator's answer where one was asked; it is ignored under
    /// auto-confirm. Nothing is sent on an empty plan, and nothing is ever
    /// sent on a first run: a device with no prior record only gets a
    /// baseline recorded.
    pub fn decide(&mut self, confirmed: bool)
        requires
            old(self).inv(),
            old(self).state is Mapped,
        ensures
            final(self).inv(),
            *final(self) == (BuildFilePusher {
                send: final(self).send,
                state: RunState::Decided,
                ..*old(self)
            }),
            final(self).send == (old(self).plan@.len() > 0 && old(self).record_exists && (old(
                self,
            ).push || confirmed)),
            !old(self).record_exists ==> !final(self).send,
    {
        self.send = self.plan.len() > 0 && self.record_exists && (self.push || confirmed);
        self.state = RunState::Decided;
    }

    /// `Decided → Skipped`: proceed without the device agent.
    pub fn skip(&mut self)
        requires
            old(self).inv(),
            old(self).state is Decided,
            !old(self).send,
        ensures
            final(self).inv(),
            *final(self) == (BuildFilePusher { state: RunState::Skipped, ..*old(self) }),
    {
        self.state = RunState::Skipped;
    }

    /// `Decided → Sending | Failed`: the outcome of the remount call. A
    /// failed remount is fatal; the store stays untouched.
    pub fn on_remount(&mut self, ok: bool) -> (r: Result<(), SyncError>)
        requires
            old(self).inv(),
            old(self).state is Decided,
            old(self).send,
        ensures
            final(self).inv(),
            final(self).store == old(self).store,
            ok ==> r is Ok && (*final(self) == (BuildFilePusher {
                sent_count: 0,
                state: RunState::Sending,
                ..*old(self)
            })),
            !ok ==> final(self).state is Failed && r == Result::<(), SyncError>::Err(
                SyncError::RemountFailed,
            ),
    {
        if ok {
            self.sent_count = 0;
            self.state = RunState::Sending;
            Ok(())
        } else {
            self.state = RunState::Failed;
            Err(SyncError::RemountFailed)
        }
    }

    /// The next plan entry to transfer, or none when every entry went out.
    pub fn next_transfer(&self) -> (r: Option<&PlanEntry>)
        requires
            self.inv(),
            self.state is Sending,
        ensures
            match r {
                Option::Some(e) => self.sent_count < self.plan@.len() && e == self.plan@[
                    self.sent_count as int
                ],
                Option::None => self.sent_count == self.plan@.len(),
            },
    {
        if self.sent_count < self.plan.len() {
            Some(&self.plan[self.sent_count])
        } else {
            None
        }
    }

    /// The outcome of one file transfer. Any failure is fatal for the run:
    /// the store stays untouched, so the watermark is never advanced past a
    /// half-completed transfer. When the last entry went out the run stands
    /// at `Sent`.
    pub fn on_transfer(&mut self, ok: bool) -> (r: Result<(), SyncError>)
        requires
            old(self).inv(),
            old(self).state is Sending,
            old(self).sent_count < old(self).plan@.len(),
        ensures
            final(self).inv(),
            final(self).store == old(self).store,
            ok ==> r is Ok && (*final(self) == (BuildFilePusher {
                sent_count: (old(self).sent_count + 1) as usize,
                state: if old(self).sent_count + 1 == old(self).plan@.len() {
                    RunState::Sent
                } else {
                    RunState::Sending
                },
                ..*old(self)
            })),
            !ok ==> (*final(self) == (BuildFilePusher { state: RunState::Failed, ..*old(self) })) && (
            r matches Err(e) && e matches SyncError::TransferFailed(f) && f@ == old(self).plan@[
                old(self).sent_count as int
            ].build_file@),
    {
        if ok {
            let n: usize = self.plan.len();
            self.sent_count = self.sent_count + 1;
            if self.sent_count == n {
                self.state = RunState::Sent;
            }
            Ok(())
        } else {
            let failed = clone_path(&self.plan[self.sent_count].build_file);
            self.state = RunState::Failed;
            proof {
                assert(failed@ == self.plan@[self.sent_count as int].build_file@);
            }
            Err(SyncError::TransferFailed(failed))
        }
    }

    /// `{Sent | Skipped} → RecordUpdated`: advance and persist the watermark
    /// exactly when a send occurred or no prior record existed (the
    /// first-run baseline); otherwise leave the store untouched. The
    /// committed watermark is the newest modification time among the
    /// selected files — on a first run, among all scanned files — or the
    /// minimal instant when nothing was scanned. A device's recorded
    /// watermark never decreases.
    pub fn update_record(&mut self)
        requires
            old(self).inv(),
            old(self).state is Sent || old(self).state is Skipped,
        ensures
            final(self).inv(),
            final(self).state is RecordUpdated,
            final(self).mutated == (old(self).send || !old(self).record_exists),
            *final(self) == (BuildFilePusher {
                store: final(self).store,
                mutated: final(self).mutated,
                state: RunState::RecordUpdated,
                ..*old(self)
            }),
            !final(self).mutated ==> final(self).store == old(self).store,
            final(self).mutated ==> {
                &&& final(self).store.spec_contains(old(self).connect_key@)
                &&& final(self).store.spec_watermark(old(self).connect_key@) == Some(
                    spec_commit_watermark(old(self).new_watermark),
                )
                &&& forall|k: Seq<char>|
                    k != old(self).connect_key@ ==> #[trigger] final(self).store.spec_watermark(k)
                        == old(self).store.spec_watermark(k)
            },
            match (
                old(self).store.spec_watermark(old(self).connect_key@),
                final(self).store.spec_watermark(old(self).connect_key@),
            ) {
                (Option::Some(w0), Option::Some(w1)) => w0 <= w1 && (!old(self).force && old(
                    self,
                ).send ==> w0 < w1),
                (Option::Some(w0), Option::None) => false,
                _ => true,
            },
    {
        if self.send || !self.record_exists {
            proof {
                if self.send {
                    assert(self.selected@.len() > 0);
                    lemma_max_selected(
                        file_views(self.files@),
                        self.prior_watermark,
                        self.force,
                    );
                }
            }
            let m: i64 = match self.new_watermark {
                Option::Some(m) => m,
                Option::None => i64::MIN,
            };
            let key = self.connect_key.clone();
            self.store.upsert(&key, m);
            self.mutated = true;
        } else {
            self.mutated = false;
        }
        self.state = RunState::RecordUpdated;
    }
}

/// ASCII whitespace, as terminal input carries it.
pub open spec fn spec_is_space(b: u8) -> bool {
    b == 32 || b == 9 || b == 10 || b == 13
}

/// `s` without its leading whitespace.
pub open spec fn spec_trim_front(s: Seq<u8>) -> Seq<u8>
    decreases s.len(),
{
    if s.len() > 0 && spec_is_space(s[0]) {
        spec_trim_front(s.drop_first())
    } else {
        s
    }
}

/// `s` without its trailing whitespace.
pub open spec fn spec_trim_back(s: Seq<u8>) -> Seq<u8>
    decreases s.len(),
{
    if s.len() > 0 && spec_is_space(s.last()) {
        spec_trim_back(s.drop_last())
    } else {
        s
    }
}

/// `s` without its surrounding whitespace.
pub open spec fn spec_trim(s: Seq<u8>) -> Seq<u8> {
    spec_trim_back(spec_trim_front(s))
}

/// Whether a confirmation answer accepts: yes on `y`, `Y` or an empty line
/// (surrounding whitespace ignored), no on anything else.
pub open spec fn spec_confirmation(s: Seq<u8>) -> bool {
    spec_trim(s) == Seq::<u8>::empty() || spec_trim(s) == seq![121u8] || spec_trim(s)
        == seq![89u8]
}

/// Read the operator's answer from one line of terminal input: empty and
/// affirmative answers accept, anything else declines.
pub fn confirmation_accepted(line: &Vec<u8>) -> (r: bool)
    ensures
        r == spec_confirmation(line@),
{
    let n: usize = line.len();
    let mut lo: usize = 0;
    proof {
        assert(line@.subrange(0, n as int) =~= line@);
    }
    while lo < n && (line[lo] == 32 || line[lo] == 9 || line[lo] == 10 || line[lo] == 13)
        invariant
            n == line@.len(),
            lo <= n,
            spec_trim_front(line@) == spec_trim_front(line@.subrange(lo as int, n as int)),
        decreases n - lo,
    {
        proof {
            let cur = line@.subrange(lo as int, n as int);
            assert(cur.drop_first() =~= line@.subrange(lo + 1 as int, n as int));
        }
        lo = lo + 1;
    }
    proof {
        let cur = line@.subrange(lo as int, n as int);
        if lo < n {
            assert(cur[0] == line@[lo as int]);
        }
        assert(spec_trim_front(line@) == cur);
    }
    let mut hi: usize = n;
    while hi > lo && (line[hi - 1] == 32 || line[hi - 1] == 9 || line[hi - 1] == 10 || line[hi - 1]
        == 13)
        invariant
            n == line@.len(),
            lo <= hi <= n,
            spec_trim_front(line@) == line@.subrange(lo as int, n as int),
            spec_trim_back(line@.subrange(lo as int, n as int)) == spec_trim_back(
                line@.subrange(lo as int, hi as int),
            ),
        decreases hi,
    {
        proof {
            let cur = line@.subrange(lo as int, hi as int);
            assert(cur.last() == line@[hi - 1 as int]);
            assert(cur.drop_last() =~= line@.subrange(lo as int, hi - 1 as int));
        }
        hi = hi - 1;
    }
    proof {
        let cur = line@.subrange(lo as int, hi as int);
        if hi > lo {
            assert(cur.last() == line@[hi - 1 as int]);
        }
        assert(spec_trim(line@) == cur);
    }
    if hi == lo {
        proof {
            assert(spec_trim(line@) =~= Seq::<u8>::empty());
        }
        return true;
    }
    if hi - lo == 1 && (line[lo] == 121 || line[lo] == 89) {
        proof {
            let cur = line@.subrange(lo as int, hi as int);
            assert(cur.len() == 1);
            assert(cur[0] == line@[lo as int]);
            if line@[lo as int] == 121 {
                assert(cur =~= seq![121u8]);
            } else {
                assert(cur =~= seq![89u8]);
            }
        }
        return true;
    }
    proof {
        let cur = line@.subrange(lo as int, hi as int);
        assert(cur[0] == line@[lo as int]);
        if cur == Seq::<u8>::empty() {
            assert(false);
        }
        if cur == seq![121u8] {
            assert(cur.len() == 1 && cur[0] == 121u8);
        }
        if cur == seq![89u8] {
            assert(cur.len() == 1 && cur[0] == 89u8);
        }
    }
    false
}

/// First-run bootstrap: with no prior record the detector selected every
/// scanned file, so the candidate watermark is the newest modification time
/// among all scanned files — absent only when nothing was scanned.
pub proof fn lemma_first_run_watermark(m: BuildFilePusher)
    requires
        m.filtered_inv(),
        !m.record_exists,
    ensures
        match m.new_watermark {
            Option::None => m.files@.len() == 0,
            Option::Some(w) => m.files@.len() > 0 && w as int == spec_max_mtime(
                file_views(m.files@),
            ),
        },
{
    assert(m.prior_watermark is None);
    lemma_first_run_selects_all(file_views(m.files@), m.force);
    assert(file_views(m.selected@) == file_views(m.files@));
    assert(file_views(m.selected@).len() == m.selected@.len());
    assert(file_views(m.files@).len() == m.files@.len());
}

} // verus!
