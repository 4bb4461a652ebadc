use vstd::prelude::*;

pub mod attachment;
pub mod discovery;
pub mod globs;
pub mod order;
pub mod org;
pub mod paths;
pub mod sitemap;
pub mod text;

verus! {

/// What a project's build step does with the files it discovers:
/// copy them verbatim, or render them to HTML.
#[derive(Clone, Copy, Debug, PartialEq, Eq, Structural)]
pub enum PublishAction {
    ToHtml,
    Attachment,
}

impl Default for PublishAction {
    /// Copying is the default action for a project that declares none.
    fn default() -> (r: Self)
        ensures
            r == PublishAction::Attachment,
    {
        PublishAction::Attachment
    }
}

/// A publishing project: one source tree, one filter, one destination.
/// Paths come in as the library's own path model; the caller turns operating
/// system paths into it at the edge.
pub struct Project {
    pub name: String,
    pub description: Option<String>,
    pub base_directory: crate::paths::SysPath,
    pub base_extension: Option<String>,
    pub recursive: bool,
    pub publishing_directory: crate::paths::SysPath,
    pub exclude: Vec<String>,
    pub auto_sitemap: bool,
    pub sitemap_filename: Option<String>,
    pub sitemap_title: Option<String>,
    pub recent_first: bool,
    pub link_home: Option<String>,
    pub link_up: Option<String>,
    pub html_head: Option<String>,
    pub html_preamble: Option<String>,
    pub html_postamble: Option<String>,
    pub publish_action: PublishAction,
}

impl Project {
    /// The action the dispatcher must route this project to.
    pub fn action(&self) -> (r: PublishAction)
        ensures
            r == self.publish_action,
    {
        self.publish_action
    }
}

/// A site configuration: an ordered list of projects, built independently.
pub struct Site {
    pub projects: Vec<Project>,
}

/// The transformer a project's build runs: one variant per publish action,
/// matched exhaustively at dispatch.
pub enum ProjectBuild {
    Copy(crate::attachment::AttachmentsHandler),
    Render(crate::org::PublishBuilder),
}

/// Routes a project to its transformer: the copy handler for the attachment
/// action, the renderer for the to-html action, each bound to the project's
/// discovered file set.
pub fn builder_for_project(
    project: &Project,
    root: &crate::paths::SysPath,
    canonical_source: crate::paths::SysPath,
    listing: &Vec<crate::discovery::RawEntry>,
) -> (r: Result<ProjectBuild, DiscoveryError>)
    requires
        root.absolute,
    ensures
        r matches Ok(b) ==> (match b {
            ProjectBuild::Copy(h) => project.publish_action == PublishAction::Attachment
                && crate::discovery::settings_for(
                h.dir_settings,
                *project,
                root@,
                canonical_source,
                listing@,
            ),
            ProjectBuild::Render(p) => project.publish_action == PublishAction::ToHtml
                && crate::discovery::settings_for(
                p.dir_settings,
                *project,
                root@,
                canonical_source,
                listing@,
            ),
        }),
        r is Ok <==> crate::discovery::patterns_ok(
            crate::discovery::include_patterns(crate::text::opt_text(project.base_extension)),
        ) && crate::discovery::patterns_ok(
            crate::discovery::trimmed_patterns(project.exclude.deep_view()),
        ),
        r matches Err(e) ==> e is BadPattern,
{
    match project.action() {
        PublishAction::ToHtml => {
            match crate::org::PublishBuilder::from_project(project, root, canonical_source, listing) {
                Ok(b) => Ok(ProjectBuild::Render(b)),
                Err(e) => Err(e),
            }
        },
        PublishAction::Attachment => {
            match crate::attachment::AttachmentsHandler::from_project(
                project,
                root,
                canonical_source,
                listing,
            ) {
                Ok(h) => Ok(ProjectBuild::Copy(h)),
                Err(e) => Err(e),
            }
        },
    }
}

/// A glob pattern in the project description could not be used.
#[derive(Debug)]
pub enum DiscoveryError {
    /// The named pattern is not valid glob syntax.
    BadPattern { pattern: String },
    /// Reading a directory failed; the path names the directory.
    Io { path: String },
}

/// Containment or canonicalization failures for paths.
#[derive(Debug)]
pub enum PathError {
    /// An entry's canonical path does not lie under the canonical source root.
    Escape { entry: String, root: String },
    /// A path could not be resolved to an existing file or directory.
    NotFound { path: String },
}

/// Failures while rendering one document.
#[derive(Debug)]
pub enum RenderError {
    /// Reading or writing a file failed; the path names the file.
    Io { path: String },
}

/// Failures of the feed or sitemap aggregation step.
#[derive(Debug)]
pub enum AggregationError {
    /// A mutation or a second finalization was attempted on a finalized feed.
    ContractViolation,
    /// The feed channel could not be serialized.
    Serialize,
}

} // verus!
