//! The decisions of the guidance-link trial.
//!
//! The trial walks the guidance corpus, reads each file and inspects each
//! link; those steps touch the file system and are driven from outside. What
//! is decided here, link by link, is how a link is classified, which counter
//! moves and which finding is recorded. A local link that stays inside the
//! repository needs three facts from the file system before it can be
//! settled: the repository that holds its source, the one that holds its
//! target, and whether the target exists.
use vstd::prelude::*;
use crate::link_findings::{
    is_link_finding, cross_repository_finding, cross_repository_view, missing_target_finding, missing_target_view,
    non_guidance_finding, non_guidance_view, unreadable_source_finding, unreadable_source_view,
    unsafe_path_finding, unsafe_path_view, unsupported_finding, unsupported_view,
};
use crate::markdown_links::{
    DestinationShape, LinkClass, ShapeView, class_category, class_is_blocking,
    classify_destination, decode_percent_escapes, is_blocking_category, lemma_blocking_category,
    destination_shape, display_relative_text, guidance_target_text, is_guidance_target,
    percent_decode,
};
use crate::model::{AuditFinding, FindingView, MarkdownLinkMetric, TrialStatus, finding_views};
use crate::paths::{FsPath, Part, join_parts, normalize_parts, parent_parts, parse_text, render_parts};
use crate::text::{replace_char, replaced, text_of};

verus! {

/// The counters of the link trial.
pub struct TallyView {
    pub links_checked: nat,
    pub broken_links: nat,
    pub skipped_links: nat,
    pub non_guidance_links: nat,
    pub cross_repository_links: nat,
    pub unsupported_dependency_links: nat,
    pub unsafe_path_links: nat,
    pub unreadable_links: nat,
}

/// The number of blocking findings the counters stand for.
pub open spec fn blocking_total(t: TallyView) -> nat {
    t.broken_links + t.non_guidance_links + t.unsupported_dependency_links + t.unsafe_path_links
        + t.unreadable_links
}

/// How many entries of `s` are `c`.
pub open spec fn count_class(s: Seq<LinkClass>, c: LinkClass) -> nat
    decreases s.len(),
{
    if s.len() == 0 {
        0
    } else {
        count_class(s.drop_last(), c) + if s.last() == c { 1nat } else { 0nat }
    }
}

/// How many entries of `s` are blocking classes.
pub open spec fn count_blocking(s: Seq<LinkClass>) -> nat
    decreases s.len(),
{
    if s.len() == 0 {
        0
    } else {
        count_blocking(s.drop_last()) + if crate::markdown_links::class_is_blocking(s.last()) {
            1nat
        } else {
            0nat
        }
    }
}

/// How many of the findings `fs` are filed under a blocking category.
pub open spec fn count_blocking_findings(fs: Seq<FindingView>) -> nat
    decreases fs.len(),
{
    if fs.len() == 0 {
        0
    } else {
        count_blocking_findings(fs.drop_last()) + if is_blocking_category(fs.last().category) {
            1nat
        } else {
            0nat
        }
    }
}

/// Findings filed under the categories of their classes: as many block by
/// category as block by class.
proof fn lemma_count_blocking_findings(fs: Seq<FindingView>, cs: Seq<LinkClass>)
    requires
        fs.len() == cs.len(),
        forall|i: int| 0 <= i < cs.len() ==> #[trigger] fs[i].category == class_category(cs[i]),
    ensures
        count_blocking_findings(fs) == count_blocking(cs),
    decreases fs.len(),
{
    if fs.len() > 0 {
        let k = fs.len() - 1;
        assert(fs[k].category == class_category(cs[k]));
        lemma_blocking_category(cs[k]);
        lemma_count_blocking_findings(fs.drop_last(), cs.drop_last());
    }
}

/// The result of the guidance-link trial.
pub struct MarkdownLinkResult {
    pub metric: MarkdownLinkMetric,
    pub findings: Vec<AuditFinding>,
}

/// What a link needs after its first inspection.
pub enum LinkStep {
    /// The link is classified and counted.
    Settled,
    /// The link is local and stays inside the repository; it resolves to
    /// this target, whose repository and existence decide the rest.
    NeedsTarget(FsPath),
}

/// Where a local destination resolves: the destination, percent-decoded,
/// joined to the directory of its source (or to the repository root when the
/// source has no parent), then lexically normalised.
pub open spec fn link_target(root: Seq<Part>, source: Seq<Part>, local: Seq<char>) -> Seq<Part> {
    let base = match parent_parts(source) {
        Some(p) => p,
        None => root,
    };
    normalize_parts(join_parts(base, parse_text(percent_decode(vstd::utf8::encode_utf8(local)))))
}

/// The repository-relative text of a target that lies under the root.
pub open spec fn relative_text(root: Seq<Part>, target: Seq<Part>) -> Seq<char> {
    let below = if root.is_prefix_of(target) { target.skip(root.len() as int) } else { target };
    replace_char(render_parts(below), '\\', '/')
}

/// The running state of the guidance-link trial.
pub struct LinkAudit {
    markdown_files: usize,
    links_checked: usize,
    broken_links: usize,
    skipped_links: usize,
    non_guidance_links: usize,
    cross_repository_links: usize,
    unsupported_dependency_links: usize,
    unsafe_path_links: usize,
    unreadable_links: usize,
    findings: Vec<AuditFinding>,
    classes: Vec<LinkClass>,
}

/// Every recorded class is one of the classes that produce findings.
proof fn lemma_count_split(s: Seq<LinkClass>)
    ensures
        s.len() == count_class(s, LinkClass::GuidanceTarget) + count_class(
            s,
            LinkClass::MissingTarget,
        ) + count_class(s, LinkClass::NonGuidanceTarget) + count_class(
            s,
            LinkClass::CrossRepository,
        ) + count_class(s, LinkClass::External) + count_class(s, LinkClass::FragmentOnly)
            + count_class(s, LinkClass::UnsupportedDependency) + count_class(
            s,
            LinkClass::UnsafePath,
        ) + count_class(s, LinkClass::UnreadableArtifact),
        count_blocking(s) == count_class(s, LinkClass::MissingTarget) + count_class(
            s,
            LinkClass::NonGuidanceTarget,
        ) + count_class(s, LinkClass::UnsupportedDependency) + count_class(
            s,
            LinkClass::UnsafePath,
        ) + count_class(s, LinkClass::UnreadableArtifact),
    decreases s.len(),
{
    if s.len() > 0 {
        lemma_count_split(s.drop_last());
    }
}

impl LinkAudit {
    /// The counters.
    pub closed spec fn tally(&self) -> TallyView {
        TallyView {
            links_checked: self.links_checked as nat,
            broken_links: self.broken_links as nat,
            skipped_links: self.skipped_links as nat,
            non_guidance_links: self.non_guidance_links as nat,
            cross_repository_links: self.cross_repository_links as nat,
            unsupported_dependency_links: self.unsupported_dependency_links as nat,
            unsafe_path_links: self.unsafe_path_links as nat,
            unreadable_links: self.unreadable_links as nat,
        }
    }

    /// The number of guidance Markdown files the trial covers.
    pub closed spec fn markdown_files(&self) -> nat {
        self.markdown_files as nat
    }

    /// The findings recorded so far, in order.
    pub closed spec fn findings(&self) -> Seq<FindingView> {
        finding_views(self.findings@)
    }

    /// The class of each recorded finding.
    pub closed spec fn classes(&self) -> Seq<LinkClass> {
        self.classes@
    }

    /// The number of links and unreadable sources accounted for.
    pub open spec fn events(&self) -> nat {
        self.tally().links_checked + self.tally().skipped_links + self.tally().unreadable_links
    }

    /// Each finding has the shape of a finding of its class, and each class
    /// blocks or is a link into another repository.
    closed spec fn aligned(&self) -> bool {
        let cs = self.classes@;
        let fs = self.findings();
        &&& cs.len() == fs.len()
        &&& forall|i: int|
            0 <= i < cs.len() ==> {
                &&& #[trigger] is_link_finding(fs[i], cs[i])
                &&& class_is_blocking(cs[i]) || cs[i] == LinkClass::CrossRepository
            }
    }

    /// The audit's invariant: each finding carries its class's category, and
    /// each counter of findings counts the findings of its class.
    pub closed spec fn wf(&self) -> bool {
        let cs = self.classes@;
        &&& self.aligned()
        &&& count_class(cs, LinkClass::MissingTarget) == self.broken_links
        &&& count_class(cs, LinkClass::NonGuidanceTarget) == self.non_guidance_links
        &&& count_class(cs, LinkClass::CrossRepository) == self.cross_repository_links
        &&& count_class(cs, LinkClass::UnsupportedDependency) == self.unsupported_dependency_links
        &&& count_class(cs, LinkClass::UnsafePath) == self.unsafe_path_links
        &&& count_class(cs, LinkClass::UnreadableArtifact) == self.unreadable_links
        &&& count_class(cs, LinkClass::GuidanceTarget) == 0
        &&& count_class(cs, LinkClass::External) == 0
        &&& count_class(cs, LinkClass::FragmentOnly) == 0
        &&& self.broken_links + self.non_guidance_links <= self.links_checked
        &&& self.cross_repository_links + self.unsupported_dependency_links + self.unsafe_path_links
            <= self.skipped_links
        &&& self.links_checked + self.skipped_links + self.unreadable_links <= usize::MAX
    }

    /// A trial over `markdown_files` guidance files, with nothing recorded.
    pub fn new(markdown_files: usize) -> (a: LinkAudit)
        ensures
            a.wf(),
            a.markdown_files() == markdown_files,
            a.tally() == (TallyView {
                links_checked: 0,
                broken_links: 0,
                skipped_links: 0,
                non_guidance_links: 0,
                cross_repository_links: 0,
                unsupported_dependency_links: 0,
                unsafe_path_links: 0,
                unreadable_links: 0,
            }),
            a.findings() == Seq::<FindingView>::empty(),
    {
        let a = LinkAudit {
            markdown_files,
            links_checked: 0,
            broken_links: 0,
            skipped_links: 0,
            non_guidance_links: 0,
            cross_repository_links: 0,
            unsupported_dependency_links: 0,
            unsafe_path_links: 0,
            unreadable_links: 0,
            findings: Vec::new(),
            classes: Vec::new(),
        };
        assert(a.findings() =~= Seq::<FindingView>::empty());
        a
    }

    /// Is there room to account for one more link or source?
    pub fn has_room(&self) -> (r: bool)
        requires
            self.wf(),
        ensures
            r == (self.events() < usize::MAX),
    {
        self.links_checked + self.skipped_links + self.unreadable_links < usize::MAX
    }

    /// Appends a finding of the given class.
    fn record(&mut self, f: AuditFinding, class: LinkClass)
        requires
            is_link_finding(f@, class),
            class_is_blocking(class) || class == LinkClass::CrossRepository,
            old(self).aligned(),
        ensures
            final(self).aligned(),
            forall|x: LinkClass| #[trigger] count_class(final(self).classes(), x) == count_class(
                old(self).classes(),
                x,
            ) + if x == class { 1nat } else { 0nat },
            final(self).findings() == old(self).findings().push(f@),
            final(self).classes() == old(self).classes().push(class),
            final(self).tally() == old(self).tally(),
            final(self).markdown_files() == old(self).markdown_files(),
    {
        let ghost before = self.findings@;
        let ghost old_classes = self.classes@;
        self.findings.push(f);
        self.classes.push(class);
        assert(finding_views(self.findings@) =~= finding_views(before).push(f@));
        assert(self.classes@.drop_last() =~= old_classes);
        assert forall|i: int| 0 <= i < self.classes@.len() implies {
            &&& #[trigger] is_link_finding(self.findings()[i], self.classes@[i])
            &&& class_is_blocking(self.classes@[i]) || self.classes@[i]
                == LinkClass::CrossRepository
        } by {
            if i < old_classes.len() {
                assert(is_link_finding(finding_views(before)[i], old_classes[i]));
                assert(self.findings()[i] == finding_views(before)[i]);
                assert(self.classes@[i] == old_classes[i]);
            }
        }
    }

    /// Accounts for a guidance source that could not be read.
    pub fn record_unreadable_source(&mut self, file: &str)
        requires
            old(self).wf(),
            old(self).events() < usize::MAX,
        ensures
            final(self).wf(),
            final(self).markdown_files() == old(self).markdown_files(),
            final(self).tally() == (TallyView {
                unreadable_links: old(self).tally().unreadable_links + 1,
                ..old(self).tally()
            }),
            final(self).findings() == old(self).findings().push(unreadable_source_view(file@)),
            final(self).classes() == old(self).classes().push(LinkClass::UnreadableArtifact),
    {
        let f = unreadable_source_finding(file);
        self.unreadable_links = self.unreadable_links + 1;
        self.record(f, LinkClass::UnreadableArtifact);
    }

    /// First inspection of a link found in `file` (whose path is
    /// `source_path`) on `line`: the destination's shape decides; a local
    /// destination is resolved against the source's directory, and one that
    /// leaves the repository root is recorded as unsafe.
    pub fn examine_link(
        &mut self,
        repo_root: &FsPath,
        source_path: &FsPath,
        file: &str,
        line: usize,
        destination: &str,
    ) -> (step: LinkStep)
        requires
            old(self).wf(),
            old(self).events() < usize::MAX,
        ensures
            final(self).wf(),
            final(self).markdown_files() == old(self).markdown_files(),
            match destination_shape(destination@) {
                ShapeView::External | ShapeView::FragmentOnly => {
                    &&& step is Settled
                    &&& final(self).tally() == (TallyView {
                        skipped_links: old(self).tally().skipped_links + 1,
                        ..old(self).tally()
                    })
                    &&& final(self).findings() == old(self).findings()
                    &&& final(self).classes() == old(self).classes()
                },
                ShapeView::Unsupported => {
                    &&& step is Settled
                    &&& final(self).tally() == (TallyView {
                        skipped_links: old(self).tally().skipped_links + 1,
                        unsupported_dependency_links: old(self).tally().unsupported_dependency_links
                            + 1,
                        ..old(self).tally()
                    })
                    &&& final(self).findings() == old(self).findings().push(
                        unsupported_view(file@, line, destination@),
                    )
                    &&& final(self).classes() == old(self).classes().push(
                        LinkClass::UnsupportedDependency,
                    )
                },
                ShapeView::Local(local) => {
                    let target = link_target(repo_root@, source_path@, local);
                    if repo_root@.is_prefix_of(target) {
                        &&& step matches LinkStep::NeedsTarget(t) && t@ == target
                        &&& final(self).tally() == old(self).tally()
                        &&& final(self).findings() == old(self).findings()
                        &&& final(self).classes() == old(self).classes()
                    } else {
                        &&& step is Settled
                        &&& final(self).tally() == (TallyView {
                            skipped_links: old(self).tally().skipped_links + 1,
                            unsafe_path_links: old(self).tally().unsafe_path_links + 1,
                            ..old(self).tally()
                        })
                        &&& final(self).findings() == old(self).findings().push(
                            unsafe_path_view(file@, line, destination@, target),
                        )
                        &&& final(self).classes() == old(self).classes().push(
                            LinkClass::UnsafePath,
                        )
                    }
                },
            },
    {
        match classify_destination(destination) {
            DestinationShape::External | DestinationShape::FragmentOnly => {
                self.skipped_links = self.skipped_links + 1;
                LinkStep::Settled
            },
            DestinationShape::Unsupported => {
                let f = unsupported_finding(file, line, destination);
                self.skipped_links = self.skipped_links + 1;
                self.unsupported_dependency_links = self.unsupported_dependency_links + 1;
                self.record(f, LinkClass::UnsupportedDependency);
                LinkStep::Settled
            },
            DestinationShape::Local(local) => {
                let local_text = text_of(local.as_slice());
                let decoded = decode_percent_escapes(local_text.as_str());
                let relative = FsPath::parse(decoded.as_str());
                let joined = match source_path.parent() {
                    Some(base) => base.join(&relative),
                    None => repo_root.join(&relative),
                };
                let target = joined.normalized();
                if !target.starts_with(repo_root) {
                    let f = unsafe_path_finding(file, line, destination, &target);
                    self.skipped_links = self.skipped_links + 1;
                    self.unsafe_path_links = self.unsafe_path_links + 1;
                    self.record(f, LinkClass::UnsafePath);
                    return LinkStep::Settled;
                }
                LinkStep::NeedsTarget(target)
            },
        }
    }

    /// Settles a local link inside the repository once the file system has
    /// told which repositories hold its source and target and whether the
    /// target exists: a link into another repository is recorded and skipped;
    /// otherwise it is checked, and a missing target or one outside the
    /// guidance corpus is recorded.
    pub fn settle_local_link(
        &mut self,
        repo_root: &FsPath,
        file: &str,
        line: usize,
        destination: &str,
        target_path: &FsPath,
        source_repository: &FsPath,
        target_repository: &FsPath,
        target_exists: bool,
    )
        requires
            old(self).wf(),
            old(self).events() < usize::MAX,
        ensures
            final(self).wf(),
            final(self).markdown_files() == old(self).markdown_files(),
            if target_repository@ != source_repository@ {
                &&& final(self).tally() == (TallyView {
                    skipped_links: old(self).tally().skipped_links + 1,
                    cross_repository_links: old(self).tally().cross_repository_links + 1,
                    ..old(self).tally()
                })
                &&& final(self).findings() == old(self).findings().push(
                    cross_repository_view(
                        file@,
                        line,
                        destination@,
                        display_relative_text(repo_root@, source_repository@),
                        display_relative_text(repo_root@, target_repository@),
                    ),
                )
                &&& final(self).classes() == old(self).classes().push(LinkClass::CrossRepository)
            } else if !target_exists {
                &&& final(self).tally() == (TallyView {
                    links_checked: old(self).tally().links_checked + 1,
                    broken_links: old(self).tally().broken_links + 1,
                    ..old(self).tally()
                })
                &&& final(self).findings() == old(self).findings().push(
                    missing_target_view(
                        file@,
                        line,
                        destination@,
                        display_relative_text(repo_root@, target_path@),
                    ),
                )
                &&& final(self).classes() == old(self).classes().push(LinkClass::MissingTarget)
            } else if guidance_target_text(relative_text(repo_root@, target_path@)) {
                &&& final(self).tally() == (TallyView {
                    links_checked: old(self).tally().links_checked + 1,
                    ..old(self).tally()
                })
                &&& final(self).findings() == old(self).findings()
                &&& final(self).classes() == old(self).classes()
            } else {
                &&& final(self).tally() == (TallyView {
                    links_checked: old(self).tally().links_checked + 1,
                    non_guidance_links: old(self).tally().non_guidance_links + 1,
                    ..old(self).tally()
                })
                &&& final(self).findings() == old(self).findings().push(
                    non_guidance_view(
                        file@,
                        line,
                        destination@,
                        relative_text(repo_root@, target_path@),
                    ),
                )
                &&& final(self).classes() == old(self).classes().push(
                    LinkClass::NonGuidanceTarget,
                )
            },
    {
        if !target_repository.same(source_repository) {
            let f = cross_repository_finding(
                file,
                line,
                destination,
                repo_root,
                source_repository,
                target_repository,
            );
            self.skipped_links = self.skipped_links + 1;
            self.cross_repository_links = self.cross_repository_links + 1;
            self.record(f, LinkClass::CrossRepository);
            return;
        }
        self.links_checked = self.links_checked + 1;
        if !target_exists {
            let f = missing_target_finding(file, line, destination, repo_root, target_path);
            self.broken_links = self.broken_links + 1;
            self.record(f, LinkClass::MissingTarget);
            return;
        }
        let below = match target_path.strip_prefix(repo_root) {
            Some(rest) => rest,
            None => target_path.duplicate(),
        };
        let rendered = below.render();
        let relative = text_of(replaced(rendered.as_slice(), '\\', '/').as_slice());
        if !is_guidance_target(relative.as_str()) {
            let f = non_guidance_finding(file, line, destination, relative.as_str());
            self.non_guidance_links = self.non_guidance_links + 1;
            self.record(f, LinkClass::NonGuidanceTarget);
        }
    }

    /// The trial's result: the metric built from the counters and the
    /// findings in the order they were recorded. The blocking count is the
    /// number of recorded findings whose class blocks, which is the number
    /// filed under a blocking category, and every other finding is a
    /// cross-repository one; each finding has the shape of a finding of its
    /// class; no more links are broken or lead outside the corpus than were
    /// checked.
    pub fn finish(self) -> (r: MarkdownLinkResult)
        requires
            self.wf(),
        ensures
            r.metric.status == TrialStatus::Collected,
            r.metric.markdown_files == self.markdown_files(),
            r.metric.links_checked == self.tally().links_checked,
            r.metric.broken_links == self.tally().broken_links,
            r.metric.skipped_links == self.tally().skipped_links,
            r.metric.non_guidance_links == self.tally().non_guidance_links,
            r.metric.cross_repository_links == self.tally().cross_repository_links,
            r.metric.unsupported_dependency_links == self.tally().unsupported_dependency_links,
            r.metric.unsafe_path_links == self.tally().unsafe_path_links,
            r.metric.unreadable_links == self.tally().unreadable_links,
            r.metric.blocking_findings == blocking_total(self.tally()),
            r.metric.details is None,
            finding_views(r.findings@) == self.findings(),
            r.metric.blocking_findings == count_blocking(self.classes()),
            r.findings@.len() == r.metric.blocking_findings + r.metric.cross_repository_links,
            r.metric.blocking_findings == count_blocking_findings(finding_views(r.findings@)),
            r.metric.broken_links + r.metric.non_guidance_links <= r.metric.links_checked,
            self.classes().len() == r.findings@.len(),
            forall|i: int|
                0 <= i < r.findings@.len() ==> is_link_finding(
                    #[trigger] finding_views(r.findings@)[i],
                    self.classes()[i],
                ),
            forall|i: int|
                0 <= i < r.findings@.len() ==> class_is_blocking(#[trigger] self.classes()[i])
                    || self.classes()[i] == LinkClass::CrossRepository,
    {
        proof {
            lemma_count_split(self.classes@);
            assert forall|i: int| 0 <= i < self.classes@.len() implies #[trigger] self.findings()[i].category
                == class_category(self.classes@[i]) by {
                assert(is_link_finding(self.findings()[i], self.classes@[i]));
            }
            lemma_count_blocking_findings(self.findings(), self.classes@);
        }
        let ghost fs = self.findings();
        let ghost cs = self.classes@;
        let blocking_findings = self.broken_links + self.non_guidance_links
            + self.unsupported_dependency_links + self.unsafe_path_links + self.unreadable_links;
        let r = MarkdownLinkResult {
            metric: MarkdownLinkMetric {
                status: TrialStatus::Collected,
                markdown_files: self.markdown_files,
                links_checked: self.links_checked,
                broken_links: self.broken_links,
                skipped_links: self.skipped_links,
                blocking_findings,
                non_guidance_links: self.non_guidance_links,
                cross_repository_links: self.cross_repository_links,
                unsupported_dependency_links: self.unsupported_dependency_links,
                unsafe_path_links: self.unsafe_path_links,
                unreadable_links: self.unreadable_links,
                details: None,
            },
            findings: self.findings,
        };
        proof {
            assert(finding_views(r.findings@) == fs);
            assert forall|i: int| 0 <= i < r.findings@.len() implies is_link_finding(
                #[trigger] finding_views(r.findings@)[i],
                cs[i],
            ) by {
                assert(is_link_finding(fs[i], cs[i]));
            }
            assert forall|i: int| 0 <= i < r.findings@.len() implies class_is_blocking(
                #[trigger] cs[i],
            ) || cs[i] == LinkClass::CrossRepository by {
                assert(is_link_finding(fs[i], cs[i]));
            }
        }
        r
    }
}

} // verus!
