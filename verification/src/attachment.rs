use vstd::prelude::*;

use crate::PathError;
use crate::DiscoveryError;
use crate::Project;
use crate::discovery::DirSettings;
use crate::discovery::RawEntry;
use crate::paths::PathModel;
use crate::paths::SysPath;
use crate::paths::lies_under;
use crate::paths::path_text;
use crate::paths::strip_prefix;

verus! {

/// One step of a copy plan: read `source`, make sure `dest_dir` exists,
/// write the bytes to `dest`.
pub struct CopyStep {
    pub source: SysPath,
    pub dest_dir: SysPath,
    pub dest: SysPath,
}

/// A relative path's parent: all components but the last.
pub open spec fn parent_parts(parts: Seq<Seq<char>>) -> Seq<Seq<char>> {
    if parts.len() == 0 {
        parts
    } else {
        parts.drop_last()
    }
}

/// The destination an entry is copied to: the publish root extended by the
/// entry's path relative to the canonical source root.
pub open spec fn copy_dest(publish: PathModel, rel: Seq<Seq<char>>) -> PathModel {
    PathModel { absolute: publish.absolute, parts: publish.parts + rel }
}

/// The transformer of the copy action: it mirrors the discovered files under
/// the publish root, byte for byte, preserving their relative structure.
pub struct AttachmentsHandler {
    pub dir_settings: DirSettings,
}

impl AttachmentsHandler {
    /// Builds the copy transformer for one project; the arguments are those
    /// of the file-set gathering it performs.
    pub fn from_project(
        project: &Project,
        root: &SysPath,
        canonical_source: SysPath,
        listing: &Vec<RawEntry>,
    ) -> (r: Result<AttachmentsHandler, DiscoveryError>)
        requires
            root.absolute,
        ensures
            r is Ok <==> crate::discovery::patterns_ok(
                crate::discovery::include_patterns(crate::text::opt_text(project.base_extension)),
            ) && crate::discovery::patterns_ok(
                crate::discovery::trimmed_patterns(project.exclude.deep_view()),
            ),
            r matches Ok(h) ==> crate::discovery::settings_for(
                h.dir_settings,
                *project,
                root@,
                canonical_source,
                listing@,
            ),
            r matches Err(e) ==> e is BadPattern,
    {
        match DirSettings::new_from_project(project, root, canonical_source, listing) {
            Ok(ds) => Ok(AttachmentsHandler { dir_settings: ds }),
            Err(e) => Err(e),
        }
    }

    /// Plans the copy of the whole file set. `canonicals` holds, entry by
    /// entry, the canonical path the caller resolved each discovered file to.
    /// The plan succeeds exactly when every canonical path lies under the
    /// canonical source root; one that escapes it fails the whole run with an
    /// error naming the escaping entry and the root, and no step of the plan
    /// is handed out, so not a byte is written for any entry.
    pub fn build(&self, canonicals: &Vec<SysPath>) -> (r: Result<Vec<CopyStep>, PathError>)
        requires
            canonicals@.len() == self.dir_settings.files@.len(),
        ensures
            r is Ok <==> (forall|i: int|
                0 <= i < canonicals@.len() ==> lies_under(
                    (#[trigger] canonicals@[i])@,
                    self.dir_settings.source_dir@,
                )),
            r matches Ok(plan) ==> {
                &&& plan@.len() == self.dir_settings.files@.len()
                &&& (forall|i: int|
                    0 <= i < plan@.len() ==> {
                        let rel = canonicals@[i]@.parts.skip(
                            self.dir_settings.source_dir@.parts.len() as int,
                        );
                        &&& (#[trigger] plan@[i]).source@ == self.dir_settings.files@[i].path@
                        &&& plan@[i].dest@ == copy_dest(self.dir_settings.publish_dir@, rel)
                        &&& plan@[i].dest_dir@.absolute == self.dir_settings.publish_dir@.absolute
                        &&& plan@[i].dest_dir@.parts == self.dir_settings.publish_dir@.parts
                            + parent_parts(rel)
                    })
            },
            r matches Err(e) ==> (e matches PathError::Escape { entry, root } && root@
                == path_text(self.dir_settings.source_dir@) && (exists|i: int|
                0 <= i < canonicals@.len() && !lies_under(
                    (#[trigger] canonicals@[i])@,
                    self.dir_settings.source_dir@,
                ) && entry@ == path_text(canonicals@[i]@))),
    {
        let mut plan: Vec<CopyStep> = Vec::new();
        let n = self.dir_settings.files.len();
        let mut i: usize = 0;
        while i < n
            invariant
                i <= n,
                n == self.dir_settings.files@.len(),
                canonicals@.len() == n,
                plan@.len() == i,
                forall|k: int|
                    0 <= k < i ==> lies_under(
                        (#[trigger] canonicals@[k])@,
                        self.dir_settings.source_dir@,
                    ),
                forall|k: int|
                    0 <= k < i ==> {
                        let rel = canonicals@[k]@.parts.skip(
                            self.dir_settings.source_dir@.parts.len() as int,
                        );
                        &&& (#[trigger] plan@[k]).source@ == self.dir_settings.files@[k].path@
                        &&& plan@[k].dest@ == copy_dest(self.dir_settings.publish_dir@, rel)
                        &&& plan@[k].dest_dir@.absolute == self.dir_settings.publish_dir@.absolute
                        &&& plan@[k].dest_dir@.parts == self.dir_settings.publish_dir@.parts
                            + parent_parts(rel)
                    },
            decreases n - i,
        {
            let entry_canonical = &canonicals[i];
            let rel = match strip_prefix(entry_canonical, &self.dir_settings.source_dir) {
                Some(rel) => rel,
                None => {
                    return Err(PathError::Escape {
                        entry: entry_canonical.to_text(),
                        root: self.dir_settings.source_dir.to_text(),
                    });
                },
            };
            let dest = self.dir_settings.publish_dir.join(&rel);
            let dest_dir = if rel.parts.len() == 0 {
                self.dir_settings.publish_dir.duplicate()
            } else {
                let parent = rel.prefix_path(rel.parts.len() - 1);
                self.dir_settings.publish_dir.join(&parent)
            };
            proof {
                let relv = rel@.parts;
                if relv.len() > 0 {
                    assert(relv.take(relv.len() - 1) =~= parent_parts(relv));
                }
                if relv.len() == 0 {
                    assert(self.dir_settings.publish_dir@.parts + relv
                        =~= self.dir_settings.publish_dir@.parts);
                    assert(self.dir_settings.publish_dir@.parts + parent_parts(relv)
                        =~= self.dir_settings.publish_dir@.parts);
                }
            }
            let source = (&self.dir_settings.files[i]).path.duplicate();
            plan.push(CopyStep { source, dest_dir, dest });
            i += 1;
        }
        Ok(plan)
    }
}

} // verus!
