//! The rendering pipeline's ledger.  The concurrent run itself (the
//! directory walk, the worker threads, the channels, the template
//! calls) lives outside the library; every decision and every count
//! is taken here, one reported event at a time, so the run's books
//! are verified whatever order the workers finish in.
//!
//! States per file: discovered, then filtered out or dispatched; a
//! dispatched file is parsed, then a parse failure is counted or a
//! render is requested; a requested render fails and is counted or
//! succeeds and joins the final collection, in arrival order.

use vstd::prelude::*;

use crate::droplet::{Droplet, DropletMetaView, DropletView, file_name_spec};
use crate::errors::{Errors, RenderError};

verus! {

/// What the scanner decides for one directory entry.
#[derive(Clone, Copy, Debug, PartialEq, Eq, Structural)]
pub enum ScanDecision {
    /// A directory: logged and skipped, never counted.
    Skip,
    /// A file without an accepted extension: counted as ignored.
    Ignore,
    /// A file with an accepted extension: one unit of concurrent
    /// parse work is dispatched for it.
    Dispatch,
}

/// The counts reported once every outcome is in.
#[derive(Clone, Copy, Debug, PartialEq, Eq, Structural)]
pub struct RunSummary {
    /// Entries whose extension was rejected.
    pub ignored: u64,
    /// Dispatched files that did not make it into the collection.
    pub failed: u64,
    /// Posts parsed and rendered.
    pub succeeded: u64,
    /// Everything scanned, directories excluded.
    pub total_scanned: u64,
}

/// The pipeline's state as plain numbers and the collected posts.
pub struct PipelineView {
    pub found: nat,
    pub ignored: nat,
    pub pending_parse: nat,
    pub pending_render: nat,
    pub parse_failed: nat,
    pub render_failed: nat,
    pub rendered: Seq<DropletView>,
}

/// The books balance: every found file is either still pending, a
/// counted failure, or in the collection.
pub open spec fn wf(st: PipelineView) -> bool {
    st.found == st.pending_parse + st.pending_render + st.parse_failed + st.render_failed
        + st.rendered.len()
}

/// One directory entry is scanned.
pub open spec fn scan_step(st: PipelineView, is_dir: bool, ext_accepted: bool) -> PipelineView {
    if is_dir {
        st
    } else if !ext_accepted {
        PipelineView { ignored: st.ignored + 1, ..st }
    } else {
        PipelineView { found: st.found + 1, pending_parse: st.pending_parse + 1, ..st }
    }
}

/// One parse outcome arrives: a success becomes a render request, a
/// failure is counted.
pub open spec fn parse_step(st: PipelineView, ok: bool) -> PipelineView {
    if ok {
        PipelineView {
            pending_parse: (st.pending_parse - 1) as nat,
            pending_render: st.pending_render + 1,
            ..st
        }
    } else {
        PipelineView {
            pending_parse: (st.pending_parse - 1) as nat,
            parse_failed: st.parse_failed + 1,
            ..st
        }
    }
}

/// The droplet as it joins the collection: its output path derived
/// from its title, everything else unchanged.
pub open spec fn rendered_form(d: DropletView) -> DropletView {
    DropletView { meta: DropletMetaView { path: Some(file_name_spec(d.title)), ..d.meta }, ..d }
}

/// One render outcome arrives: a success joins the collection with
/// its path finalized, a failure is counted.
pub open spec fn render_step(st: PipelineView, outcome: Option<DropletView>) -> PipelineView {
    match outcome {
        Some(d) => PipelineView {
            pending_render: (st.pending_render - 1) as nat,
            rendered: st.rendered.push(rendered_form(d)),
            ..st
        },
        None => PipelineView {
            pending_render: (st.pending_render - 1) as nat,
            render_failed: st.render_failed + 1,
            ..st
        },
    }
}

/// The state a fresh pipeline starts from.
pub open spec fn init_view() -> PipelineView {
    PipelineView {
        found: 0,
        ignored: 0,
        pending_parse: 0,
        pending_render: 0,
        parse_failed: 0,
        render_failed: 0,
        rendered: Seq::empty(),
    }
}

/// The scan folded over a list of directory entries, each given as
/// (`is_dir`, `ext_accepted`).
pub open spec fn run_scan(st: PipelineView, entries: Seq<(bool, bool)>) -> PipelineView
    decreases entries.len(),
{
    if entries.len() == 0 {
        st
    } else {
        run_scan(scan_step(st, entries[0].0, entries[0].1), entries.skip(1))
    }
}

/// How many entries are dispatched: files with an accepted extension.
pub open spec fn count_dispatched(entries: Seq<(bool, bool)>) -> nat
    decreases entries.len(),
{
    if entries.len() == 0 {
        0
    } else {
        (if !entries[0].0 && entries[0].1 {
            1nat
        } else {
            0nat
        }) + count_dispatched(entries.skip(1))
    }
}

/// How many entries are ignored: files without an accepted extension.
pub open spec fn count_ignored(entries: Seq<(bool, bool)>) -> nat
    decreases entries.len(),
{
    if entries.len() == 0 {
        0
    } else {
        (if !entries[0].0 && !entries[0].1 {
            1nat
        } else {
            0nat
        }) + count_ignored(entries.skip(1))
    }
}

/// The parse stage folded over its outcomes in arrival order.
pub open spec fn run_parse(st: PipelineView, outcomes: Seq<bool>) -> PipelineView
    decreases outcomes.len(),
{
    if outcomes.len() == 0 {
        st
    } else {
        run_parse(parse_step(st, outcomes[0]), outcomes.skip(1))
    }
}

/// How many outcomes in a list are successes.
pub open spec fn count_ok(outcomes: Seq<bool>) -> nat
    decreases outcomes.len(),
{
    if outcomes.len() == 0 {
        0
    } else {
        (if outcomes[0] {
            1nat
        } else {
            0nat
        }) + count_ok(outcomes.skip(1))
    }
}

/// The render stage folded over its outcomes in arrival order.
pub open spec fn run_render(st: PipelineView, outcomes: Seq<Option<DropletView>>) -> PipelineView
    decreases outcomes.len(),
{
    if outcomes.len() == 0 {
        st
    } else {
        run_render(render_step(st, outcomes[0]), outcomes.skip(1))
    }
}

/// How many render outcomes carry a droplet.
pub open spec fn count_rendered(outcomes: Seq<Option<DropletView>>) -> nat
    decreases outcomes.len(),
{
    if outcomes.len() == 0 {
        0
    } else {
        (if outcomes[0] is Some {
            1nat
        } else {
            0nat
        }) + count_rendered(outcomes.skip(1))
    }
}

/// The successful outcomes' droplets as they join the collection, in
/// arrival order.
pub open spec fn rendered_of(outcomes: Seq<Option<DropletView>>) -> Seq<DropletView>
    decreases outcomes.len(),
{
    if outcomes.len() == 0 {
        Seq::empty()
    } else {
        (match outcomes[0] {
            Some(d) => seq![rendered_form(d)],
            None => Seq::empty(),
        }) + rendered_of(outcomes.skip(1))
    }
}

/// There are no more successes than outcomes.
pub proof fn lemma_count_ok_le(outcomes: Seq<bool>)
    ensures
        count_ok(outcomes) <= outcomes.len(),
    decreases outcomes.len(),
{
    if outcomes.len() > 0 {
        lemma_count_ok_le(outcomes.skip(1));
    }
}

/// There are no more rendered posts than render outcomes.
pub proof fn lemma_count_rendered_le(outcomes: Seq<Option<DropletView>>)
    ensures
        count_rendered(outcomes) <= outcomes.len(),
        rendered_of(outcomes).len() == count_rendered(outcomes),
    decreases outcomes.len(),
{
    if outcomes.len() > 0 {
        lemma_count_rendered_le(outcomes.skip(1));
    }
}

/// Scanning adds exactly the dispatched count to the found files and
/// the pending parses, and exactly the rejected count to the ignored
/// files; it touches nothing else.
pub proof fn lemma_run_scan(st: PipelineView, entries: Seq<(bool, bool)>)
    ensures
        ({
            let f = run_scan(st, entries);
            f.found == st.found + count_dispatched(entries) && f.ignored == st.ignored
                + count_ignored(entries) && f.pending_parse == st.pending_parse + count_dispatched(
                entries,
            ) && f.pending_render == st.pending_render && f.parse_failed == st.parse_failed
                && f.render_failed == st.render_failed && f.rendered == st.rendered
        }),
    decreases entries.len(),
{
    if entries.len() > 0 {
        lemma_run_scan(scan_step(st, entries[0].0, entries[0].1), entries.skip(1));
    }
}

/// Taking any list of parse outcomes turns each success into a
/// pending render and each failure into a counted parse failure,
/// whatever order they arrive in; it touches nothing else.
pub proof fn lemma_run_parse(st: PipelineView, outcomes: Seq<bool>)
    requires
        outcomes.len() <= st.pending_parse,
    ensures
        ({
            let f = run_parse(st, outcomes);
            f.pending_parse == st.pending_parse - outcomes.len() && f.pending_render
                == st.pending_render + count_ok(outcomes) && f.parse_failed == st.parse_failed + (
            outcomes.len() - count_ok(outcomes)) && f.found == st.found && f.ignored == st.ignored
                && f.render_failed == st.render_failed && f.rendered == st.rendered
        }),
    decreases outcomes.len(),
{
    lemma_count_ok_le(outcomes);
    if outcomes.len() > 0 {
        lemma_count_ok_le(outcomes.skip(1));
        lemma_run_parse(parse_step(st, outcomes[0]), outcomes.skip(1));
    }
}

/// Taking any list of render outcomes appends each success to the
/// collection, with its path finalized, and counts each failure,
/// whatever order they arrive in; it touches nothing else.
pub proof fn lemma_run_render(st: PipelineView, outcomes: Seq<Option<DropletView>>)
    requires
        outcomes.len() <= st.pending_render,
    ensures
        ({
            let f = run_render(st, outcomes);
            f.pending_render == st.pending_render - outcomes.len() && f.rendered == st.rendered
                + rendered_of(outcomes) && f.render_failed == st.render_failed + (outcomes.len()
                - count_rendered(outcomes)) && f.found == st.found && f.ignored == st.ignored
                && f.pending_parse == st.pending_parse && f.parse_failed == st.parse_failed
        }),
    decreases outcomes.len(),
{
    lemma_count_rendered_le(outcomes);
    if outcomes.len() > 0 {
        lemma_count_rendered_le(outcomes.skip(1));
        lemma_run_render(render_step(st, outcomes[0]), outcomes.skip(1));
        assert(run_render(st, outcomes).rendered =~= st.rendered + rendered_of(outcomes));
    } else {
        assert(st.rendered + rendered_of(outcomes) =~= st.rendered);
    }
}

/// A whole run from a fresh pipeline: scan any mix of entries, then
/// take every parse outcome and every render outcome in any arrival
/// order.  The books then show one found file per dispatched entry,
/// one ignored file per rejected entry, exactly the successful
/// renders as the collection, and one failure per failed parse or
/// render, with nothing left pending.
pub proof fn lemma_run_counts(
    entries: Seq<(bool, bool)>,
    parses: Seq<bool>,
    renders: Seq<Option<DropletView>>,
)
    requires
        parses.len() == count_dispatched(entries),
        renders.len() == count_ok(parses),
    ensures
        ({
            let f = run_render(run_parse(run_scan(init_view(), entries), parses), renders);
            f.found == count_dispatched(entries) && f.ignored == count_ignored(entries)
                && f.rendered == rendered_of(renders) && f.rendered.len() == count_rendered(
                renders,
            ) && f.pending_parse == 0 && f.pending_render == 0 && f.parse_failed == parses.len()
                - count_ok(parses) && f.render_failed == renders.len() - count_rendered(renders)
                && wf(f) && f.found - f.rendered.len() == f.parse_failed + f.render_failed
        }),
{
    lemma_count_ok_le(parses);
    lemma_count_rendered_le(renders);
    let s1 = run_scan(init_view(), entries);
    lemma_run_scan(init_view(), entries);
    let s2 = run_parse(s1, parses);
    lemma_run_parse(s1, parses);
    lemma_run_render(s2, renders);
    assert(s1.rendered + rendered_of(renders) =~= rendered_of(renders));
}

/// Completion order cannot change the final counts: two runs over
/// the same entries whose outcome lists agree in length and in their
/// number of successes end with the same books, though the collected
/// posts may stand in a different order.
pub proof fn lemma_order_irrelevant(
    entries: Seq<(bool, bool)>,
    parses1: Seq<bool>,
    renders1: Seq<Option<DropletView>>,
    parses2: Seq<bool>,
    renders2: Seq<Option<DropletView>>,
)
    requires
        parses1.len() == count_dispatched(entries),
        renders1.len() == count_ok(parses1),
        parses2.len() == count_dispatched(entries),
        renders2.len() == count_ok(parses2),
        count_ok(parses1) == count_ok(parses2),
        count_rendered(renders1) == count_rendered(renders2),
    ensures
        ({
            let f1 = run_render(run_parse(run_scan(init_view(), entries), parses1), renders1);
            let f2 = run_render(run_parse(run_scan(init_view(), entries), parses2), renders2);
            f1.found == f2.found && f1.ignored == f2.ignored && f1.parse_failed == f2.parse_failed
                && f1.render_failed == f2.render_failed && f1.rendered.len() == f2.rendered.len()
        }),
{
    lemma_run_counts(entries, parses1, renders1);
    lemma_run_counts(entries, parses2, renders2);
}

/// The pipeline's ledger.
pub struct Pipeline {
    /// Non-directory files that passed the extension filter.
    pub found: u64,
    /// Entries whose extension was rejected.
    pub ignored: u64,
    /// Dispatched parses whose outcome has not arrived yet.
    pub pending_parse: u64,
    /// Requested renders whose outcome has not arrived yet.
    pub pending_render: u64,
    /// Parse outcomes that were failures.
    pub parse_failed: u64,
    /// Render outcomes that were failures.
    pub render_failed: u64,
    /// The successfully rendered posts, in arrival order.
    pub rendered: Vec<Droplet>,
}

impl View for Pipeline {
    type V = PipelineView;

    open spec fn view(&self) -> PipelineView {
        PipelineView {
            found: self.found as nat,
            ignored: self.ignored as nat,
            pending_parse: self.pending_parse as nat,
            pending_render: self.pending_render as nat,
            parse_failed: self.parse_failed as nat,
            render_failed: self.render_failed as nat,
            rendered: self.rendered@.map(|i: int, d: Droplet| d@),
        }
    }
}

impl Pipeline {
    /// A fresh ledger with nothing counted.
    pub fn new() -> (r: Pipeline)
        ensures
            r@ == init_view(),
    {
        let r = Pipeline {
            found: 0,
            ignored: 0,
            pending_parse: 0,
            pending_render: 0,
            parse_failed: 0,
            render_failed: 0,
            rendered: Vec::new(),
        };
        proof {
            assert(r@.rendered =~= init_view().rendered);
        }
        r
    }

    /// Decides one directory entry and keeps the synchronous counts:
    /// directories are skipped, files without an accepted extension
    /// are counted as ignored, and every other file is dispatched and
    /// counted as found.
    pub fn scan_entry(&mut self, is_dir: bool, ext_accepted: bool) -> (d: ScanDecision)
        requires
            old(self).found < u64::MAX,
            old(self).ignored < u64::MAX,
            old(self).pending_parse < u64::MAX,
        ensures
            final(self)@ == scan_step(old(self)@, is_dir, ext_accepted),
            d == (if is_dir {
                ScanDecision::Skip
            } else if !ext_accepted {
                ScanDecision::Ignore
            } else {
                ScanDecision::Dispatch
            }),
    {
        if is_dir {
            ScanDecision::Skip
        } else if !ext_accepted {
            self.ignored = self.ignored + 1;
            ScanDecision::Ignore
        } else {
            self.found = self.found + 1;
            self.pending_parse = self.pending_parse + 1;
            ScanDecision::Dispatch
        }
    }

    /// Takes one parse outcome off the aggregation channel.  An error
    /// is counted and dropped; a parsed droplet is handed back so
    /// that one unit of render work can be dispatched for it.
    pub fn on_parse_result(&mut self, r: Result<Droplet, Errors>) -> (next: Option<Droplet>)
        requires
            old(self).pending_parse > 0,
            old(self).pending_render < u64::MAX,
            old(self).parse_failed < u64::MAX,
        ensures
            final(self)@ == parse_step(old(self)@, r is Ok),
            next is Some <==> r is Ok,
            r is Ok ==> next->0 == r->Ok_0,
    {
        self.pending_parse = self.pending_parse - 1;
        match r {
            Ok(d) => {
                self.pending_render = self.pending_render + 1;
                Some(d)
            },
            Err(_) => {
                self.parse_failed = self.parse_failed + 1;
                None
            },
        }
    }

    /// Takes one render outcome off the output channel.  An error is
    /// counted; a rendered droplet has its output path finalized and
    /// joins the collection in arrival order.
    pub fn on_render_result(&mut self, r: Result<Droplet, RenderError>)
        requires
            old(self).pending_render > 0,
            old(self).render_failed < u64::MAX,
            old(self)@.rendered.len() < usize::MAX,
        ensures
            final(self)@ == render_step(
                old(self)@,
                if r is Ok {
                    Some(r->Ok_0@)
                } else {
                    None
                },
            ),
    {
        self.pending_render = self.pending_render - 1;
        match r {
            Ok(mut d) => {
                d.set_file_name();
                self.rendered.push(d);
                proof {
                    assert(self@.rendered =~= old(self)@.rendered.push(rendered_form(r->Ok_0@)));
                }
            },
            Err(_) => {
                self.render_failed = self.render_failed + 1;
            },
        }
    }

    /// The final counts: ignored as counted, succeeded as collected,
    /// failed as found minus succeeded, and the total scanned as
    /// found plus ignored.
    pub fn summary(&self) -> (s: RunSummary)
        requires
            wf(self@),
            self.found + self.ignored <= u64::MAX,
        ensures
            s.ignored == self.ignored,
            s.succeeded == self@.rendered.len(),
            s.failed == self@.found - self@.rendered.len(),
            s.total_scanned == self.found + self.ignored,
    {
        let succeeded = self.rendered.len() as u64;
        RunSummary {
            ignored: self.ignored,
            failed: self.found - succeeded,
            succeeded,
            total_scanned: self.found + self.ignored,
        }
    }

    /// Hands the collected posts over for the index render.
    pub fn into_rendered(self) -> (r: Vec<Droplet>)
        ensures
            r@.map(|i: int, d: Droplet| d@) == self@.rendered,
    {
        self.rendered
    }
}

} // verus!
