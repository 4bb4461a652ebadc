use vstd::prelude::*;

use crate::DiscoveryError;
use crate::Project;
use crate::globs::builder_patterns;
use crate::globs::glob_new;
use crate::globs::glob_ok;
use crate::globs::globset_builder_add;
use crate::globs::globset_builder_build;
use crate::globs::globset_builder_new;
use crate::globs::globset_compile_ok;
use crate::globs::globset_is_match;
use crate::globs::globset_match;
use crate::globs::globset_patterns;
use crate::order::lemma_lex_trans;
use crate::order::lex_le;
use crate::order::lex_lt;
use crate::order::str_lex_lt;
use crate::paths::PathModel;
use crate::paths::SysPath;
use crate::paths::any_hidden;
use crate::paths::make_absolute_path;
use crate::paths::path_text;
use crate::text::opt_text;
use crate::text::trim;
use crate::text::trim_text;

verus! {

/// One entry of a raw directory listing, as the walk hands it over: its path
/// relative to the walk root, and whether it is a regular file.
pub struct RawEntry {
    pub rel: SysPath,
    pub is_file: bool,
}

pub struct RawModel {
    pub rel: PathModel,
    pub is_file: bool,
}

impl View for RawEntry {
    type V = RawModel;

    open spec fn view(&self) -> RawModel {
        RawModel { rel: self.rel@, is_file: self.is_file }
    }
}

/// A discovered file: its path under the walk root, and the relative path it
/// was found at.
pub struct FileEntry {
    pub path: SysPath,
    pub rel: SysPath,
}

pub struct FileModel {
    pub path: PathModel,
    pub rel: PathModel,
}

impl View for FileEntry {
    type V = FileModel;

    open spec fn view(&self) -> FileModel {
        FileModel { path: self.path@, rel: self.rel@ }
    }
}

pub open spec fn raw_models(s: Seq<RawEntry>) -> Seq<RawModel> {
    s.map_values(|e: RawEntry| e@)
}

pub open spec fn file_models(s: Seq<FileEntry>) -> Seq<FileModel> {
    s.map_values(|e: FileEntry| e@)
}

/// The file entry that discovery records for a kept listing entry.
pub open spec fn found_file(root: PathModel, m: RawModel) -> FileModel {
    FileModel {
        path: PathModel { absolute: root.absolute, parts: root.parts + m.rel.parts },
        rel: m.rel,
    }
}

/// The flat text of the walk root extended by the first `i` components of a
/// relative path: the text the exclusion set is matched against.
pub open spec fn prefix_text(root: PathModel, rel: PathModel, i: int) -> Seq<char> {
    path_text(PathModel { absolute: root.absolute, parts: root.parts + rel.parts.take(i) })
}

/// How deep below the source root discovery may descend: one level when
/// recursion is off, else a large finite ceiling that stops symlink cycles.
pub open spec fn depth_limit(recursive: bool) -> int {
    if recursive {
        100
    } else {
        1
    }
}

/// The depth the walk itself may be bounded at.
pub fn depth_limit_for(recursive: bool) -> (r: usize)
    ensures
        r == depth_limit(recursive),
{
    if recursive {
        100
    } else {
        1
    }
}

/// Each pattern of a configured set, trimmed of surrounding whitespace.
pub open spec fn trimmed_patterns(pats: Seq<Seq<char>>) -> Seq<Seq<char>> {
    pats.map_values(|p: Seq<char>| trim_text(p))
}

/// The include pattern set: a glob admitting files with the configured
/// extension, or match-all when no filter is set.
pub open spec fn include_patterns(filter: Option<Seq<char>>) -> Seq<Seq<char>> {
    match filter {
        Some(f) => seq![seq!['*', '.'] + trim_text(f)],
        None => seq![seq!['*']],
    }
}

/// Whether the glob compiler accepts every pattern of a set, and the set.
pub open spec fn patterns_ok(pats: Seq<Seq<char>>) -> bool {
    (forall|i: int| 0 <= i < pats.len() ==> glob_ok(#[trigger] pats[i])) && globset_compile_ok(
        pats,
    )
}

/// A listing entry that discovery keeps: a regular file within the depth
/// bound, with no hidden component, whose path and every ancestor under the
/// walk root escape the exclusion set, and whose full path matches the
/// inclusion set.
pub open spec fn kept_entry(
    root: PathModel,
    incl: Seq<Seq<char>>,
    excl: Seq<Seq<char>>,
    recursive: bool,
    m: RawModel,
) -> bool {
    &&& m.is_file
    &&& !m.rel.absolute
    &&& 1 <= m.rel.parts.len() <= depth_limit(recursive)
    &&& !any_hidden(m.rel.parts)
    &&& (forall|i: int|
        1 <= i <= m.rel.parts.len() ==> !globset_match(
            excl,
            #[trigger] prefix_text(root, m.rel, i),
        ))
    &&& globset_match(incl, prefix_text(root, m.rel, m.rel.parts.len() as int))
}

/// The sort key of a discovered entry: its full path text.
pub open spec fn entry_key(m: FileModel) -> Seq<char> {
    path_text(m.path)
}

/// Entries in non-descending path order.
pub open spec fn sorted_entries(s: Seq<FileModel>) -> bool {
    forall|i: int, j: int|
        0 <= i < j < s.len() ==> lex_le(#[trigger] entry_key(s[i]), #[trigger] entry_key(s[j]))
}

/// What discovery promises of its result: exactly the kept entries of the
/// listing, each recorded with its path under the root, sorted by path.
pub open spec fn discovery_post(
    out: Seq<FileModel>,
    listing: Seq<RawModel>,
    root: PathModel,
    incl: Seq<Seq<char>>,
    excl: Seq<Seq<char>>,
    recursive: bool,
) -> bool {
    &&& out.to_multiset() == listing.filter(
        |m: RawModel| kept_entry(root, incl, excl, recursive, m),
    ).map_values(|m: RawModel| found_file(root, m)).to_multiset()
    &&& sorted_entries(out)
}

/// No discovered entry has a hidden component anywhere under the root.
pub open spec fn no_hidden_entries(out: Seq<FileModel>) -> bool {
    forall|k: int| 0 <= k < out.len() ==> !any_hidden(#[trigger] out[k].rel.parts)
}

/// No discovered entry lies deeper than the depth bound.
pub open spec fn depth_bounded(out: Seq<FileModel>, recursive: bool) -> bool {
    forall|k: int| 0 <= k < out.len() ==> (#[trigger] out[k].rel.parts.len()) <= depth_limit(
        recursive,
    )
}

/// Each discovered entry records a non-empty relative path and the walk
/// root's extension by it.
pub open spec fn entries_based(out: Seq<FileModel>, root: PathModel) -> bool {
    forall|k: int|
        0 <= k < out.len() ==> {
            &&& !(#[trigger] out[k]).rel.absolute
            &&& 1 <= out[k].rel.parts.len()
            &&& out[k].path.absolute == root.absolute
            &&& out[k].path.parts == root.parts + out[k].rel.parts
        }
}

/// Every discovered entry's full path matches the inclusion set.
pub open spec fn all_match_include(out: Seq<FileModel>, incl: Seq<Seq<char>>) -> bool {
    forall|k: int| 0 <= k < out.len() ==> globset_match(incl, path_text(#[trigger] out[k].path))
}

/// Compiles a set of configured patterns, each trimmed, into one matcher.
/// Succeeds exactly when every trimmed pattern, and the set, compiles.
pub fn build_glob(patterns: &Vec<String>) -> (r: Result<globset::GlobSet, DiscoveryError>)
    ensures
        r is Ok <==> patterns_ok(trimmed_patterns(patterns.deep_view())),
        r matches Ok(g) ==> globset_patterns(g) == trimmed_patterns(patterns.deep_view()),
        r matches Err(e) ==> e is BadPattern,
{
    let ghost pats = trimmed_patterns(patterns.deep_view());
    let mut builder = globset_builder_new();
    let mut i: usize = 0;
    proof {
        assert(builder_patterns(builder) =~= pats.take(0int));
    }
    while i < patterns.len()
        invariant
            i <= patterns.len(),
            pats == trimmed_patterns(patterns.deep_view()),
            pats.len() == patterns.deep_view().len(),
            builder_patterns(builder) == pats.take(i as int),
            forall|k: int| 0 <= k < i ==> glob_ok(#[trigger] pats[k]),
        decreases patterns.len() - i,
    {
        let t = trim(patterns[i].as_str());
        proof {
            assert(t@ == pats[i as int]);
        }
        match glob_new(t.as_str()) {
            Ok(g) => {
                globset_builder_add(&mut builder, g);
                proof {
                    assert(builder_patterns(builder) =~= pats.take(i as int + 1));
                }
            },
            Err(_) => {
                proof {
                    assert(!glob_ok(pats[i as int]));
                }
                return Err(DiscoveryError::BadPattern { pattern: t });
            },
        }
        i += 1;
    }
    proof {
        assert(pats.take(patterns.len() as int) =~= pats);
    }
    match globset_builder_build(&builder) {
        Ok(s) => Ok(s),
        Err(_) => Err(DiscoveryError::BadPattern { pattern: String::new() }),
    }
}

/// Discovers the files of one source tree: the raw listing is filtered by the
/// project's settings, and the kept entries come back sorted by path. Hidden
/// entries are always dropped; an excluded path drops its whole subtree;
/// directories are never emitted; a file must match the include set, which
/// admits the configured extension (the filter `org` keeps `a.org`).
/// Succeeds exactly when both pattern sets compile.
pub fn get_source_entries(
    listing: &Vec<RawEntry>,
    root: &SysPath,
    include_filter: &Option<String>,
    exclude_filter: &Vec<String>,
    recursive: bool,
) -> (r: Result<Vec<FileEntry>, DiscoveryError>)
    ensures
        ({
            let incl = include_patterns(opt_text(*include_filter));
            let excl = trimmed_patterns(exclude_filter.deep_view());
            &&& (r is Ok <==> patterns_ok(incl) && patterns_ok(excl))
            &&& (r matches Ok(out) ==> discovery_post(
                file_models(out@),
                raw_models(listing@),
                root@,
                incl,
                excl,
                recursive,
            ))
            &&& (r matches Ok(out) ==> no_hidden_entries(file_models(out@)))
            &&& (r matches Ok(out) ==> depth_bounded(file_models(out@), recursive))
            &&& (r matches Ok(out) ==> all_match_include(file_models(out@), incl))
            &&& (r matches Ok(out) ==> entries_based(file_models(out@), root@))
            &&& (r matches Err(e) ==> e is BadPattern)
        }),
{
    let ghost incl = include_patterns(opt_text(*include_filter));
    let ghost excl = trimmed_patterns(exclude_filter.deep_view());
    let mut incl_vec: Vec<String> = Vec::new();
    match include_filter {
        Some(f) => {
            let ext = trim(f.as_str());
            let mut pattern = String::from_str("*.");
            pattern.append(ext.as_str());
            incl_vec.push(pattern);
            proof {
                reveal_strlit("*.");
                let tail = trim_text(f@);
                let whole = "*."@ + tail;
                crate::text::lemma_trim_back_end(crate::text::trim_front(f@));
                assert(whole[0] == '*');
                assert(crate::text::trim_front(whole) == whole);
                if tail.len() == 0 {
                    assert(whole.last() == '.');
                } else {
                    assert(whole.last() == tail.last());
                }
                assert(crate::text::trim_back(whole) == whole);
                assert(trim_text(whole) == whole);
                assert(whole =~= seq!['*', '.'] + tail);
                assert(trimmed_patterns(incl_vec.deep_view()) =~= incl);
            }
        },
        None => {
            incl_vec.push("*".to_owned());
            proof {
                reveal_strlit("*");
                assert(trim_text("*"@) =~= seq!['*']);
                assert(trimmed_patterns(incl_vec.deep_view()) =~= incl);
            }
        },
    }
    let incl_set = match build_glob(&incl_vec) {
        Ok(s) => s,
        Err(e) => {
            return Err(e);
        },
    };
    let excl_set = match build_glob(exclude_filter) {
        Ok(s) => s,
        Err(e) => {
            return Err(e);
        },
    };
    let limit = depth_limit_for(recursive);
    let ghost pred = |m: RawModel| kept_entry(root@, incl, excl, recursive, m);
    let ghost record = |m: RawModel| found_file(root@, m);
    let mut found: Vec<FileEntry> = Vec::new();
    let mut idx: usize = 0;
    proof {
        reveal(Seq::filter);
        assert(raw_models(listing@.take(0int)) =~= Seq::<RawModel>::empty());
        assert(file_models(found@) =~= raw_models(listing@.take(0int)).filter(pred).map_values(
            record,
        ));
    }
    while idx < listing.len()
        invariant
            idx <= listing.len(),
            globset_patterns(incl_set) == incl,
            globset_patterns(excl_set) == excl,
            limit == depth_limit(recursive),
            pred == (|m: RawModel| kept_entry(root@, incl, excl, recursive, m)),
            record == (|m: RawModel| found_file(root@, m)),
            file_models(found@) == raw_models(listing@.take(idx as int)).filter(pred).map_values(
                record,
            ),
        decreases listing.len() - idx,
    {
        let e = &listing[idx];
        let ghost em = listing@[idx as int]@;
        let rel_len = e.rel.parts.len();
        let mut keep = e.is_file && !e.rel.absolute && 1 <= rel_len && rel_len <= limit
            && !e.rel.has_hidden_component();
        if keep {
            let mut i: usize = 1;
            let mut excluded = false;
            while i <= rel_len
                invariant
                    1 <= i <= rel_len + 1,
                    rel_len <= 100,
                    rel_len == em.rel.parts.len(),
                    rel_len == e.rel.parts.len(),
                    e.rel@ == em.rel,
                    !em.rel.absolute,
                    globset_patterns(excl_set) == excl,
                    excluded == exists|j: int|
                        1 <= j < i && globset_match(excl, #[trigger] prefix_text(root@, em.rel, j)),
                decreases rel_len + 1 - i,
            {
                let pre = root.join(&e.rel.prefix_path(i));
                let t = pre.to_text();
                proof {
                    assert(t@ == prefix_text(root@, em.rel, i as int));
                }
                let ghost was = excluded;
                if globset_is_match(&excl_set, t.as_str()) {
                    excluded = true;
                    proof {
                        assert(globset_match(excl, prefix_text(root@, em.rel, i as int)));
                    }
                } else {
                    proof {
                        if !was {
                            assert forall|j: int|
                                !(1 <= j < i + 1 && globset_match(
                                    excl,
                                    #[trigger] prefix_text(root@, em.rel, j),
                                )) by {
                                if 1 <= j < i {
                                    assert(!globset_match(excl, prefix_text(root@, em.rel, j)));
                                }
                            }
                        }
                    }
                }
                i += 1;
            }
            if excluded {
                keep = false;
            }
        }
        if keep {
            let full = root.join(&e.rel);
            let t = full.to_text();
            proof {
                assert(em.rel.parts.take(em.rel.parts.len() as int) =~= em.rel.parts);
                assert(t@ == prefix_text(root@, em.rel, em.rel.parts.len() as int));
            }
            if !globset_is_match(&incl_set, t.as_str()) {
                keep = false;
            }
        }
        proof {
            assert(keep == pred(em));
        }
        let ghost prev_found = found@;
        if keep {
            let fe = FileEntry { path: root.join(&e.rel), rel: e.rel.duplicate() };
            found.push(fe);
            proof {
                assert(fe@ == record(em));
            }
        }
        proof {
            reveal(Seq::filter);
            let prevraw = raw_models(listing@.take(idx as int));
            let nextraw = raw_models(listing@.take(idx as int + 1));
            assert(nextraw.drop_last() =~= prevraw);
            assert(nextraw.last() == em);
            assert(nextraw.len() > 0);
            if pred(em) {
                assert(nextraw.filter(pred) == prevraw.filter(pred).push(em));
                assert(file_models(found@) =~= file_models(prev_found).push(record(em)));
                assert(file_models(found@) =~= nextraw.filter(pred).map_values(record));
            } else {
                assert(nextraw.filter(pred) == prevraw.filter(pred));
                assert(file_models(found@) =~= nextraw.filter(pred).map_values(record));
            }
        }
        idx += 1;
    }
    proof {
        assert(listing@.take(listing.len() as int) =~= listing@);
    }
    let sorted = sort_entries(found);
    proof {
        broadcast use vstd::seq_lib::group_to_multiset_ensures;
        let ghost filtered = raw_models(listing@).filter(pred).map_values(record);
        assert(file_models(sorted@).to_multiset() == filtered.to_multiset());
        assert forall|k: int|
            #![trigger file_models(sorted@)[k]]
            0 <= k < file_models(sorted@).len() implies !any_hidden(
            file_models(sorted@)[k].rel.parts,
        ) && file_models(sorted@)[k].rel.parts.len() <= depth_limit(recursive) && globset_match(
            incl,
            path_text(file_models(sorted@)[k].path),
        ) && !file_models(sorted@)[k].rel.absolute && 1 <= file_models(sorted@)[k].rel.parts.len()
            && file_models(sorted@)[k].path.absolute == root@.absolute && file_models(
            sorted@,
        )[k].path.parts == root@.parts + file_models(sorted@)[k].rel.parts by {
            let x = file_models(sorted@)[k];
            assert(file_models(sorted@).contains(x));
            assert(file_models(sorted@).to_multiset().count(x) > 0);
            assert(filtered.to_multiset().count(x) > 0);
            assert(filtered.contains(x));
            let j = choose|j: int| 0 <= j < filtered.len() && filtered[j] == x;
            let m = raw_models(listing@).filter(pred)[j];
            vstd::seq::Seq::lemma_filter_pred(raw_models(listing@), pred, j);
            assert(x == found_file(root@, m));
            assert(kept_entry(root@, incl, excl, recursive, m));
            assert(m.rel.parts.take(m.rel.parts.len() as int) =~= m.rel.parts);
            assert(path_text(x.path) == prefix_text(root@, m.rel, m.rel.parts.len() as int));
        }
    }
    Ok(sorted)
}

/// Sorts discovered entries by path text: the result holds exactly the given
/// entries, in non-descending path order.
pub fn sort_entries(v: Vec<FileEntry>) -> (r: Vec<FileEntry>)
    ensures
        file_models(r@).to_multiset() == file_models(v@).to_multiset(),
        sorted_entries(file_models(r@)),
{
    let mut src = v;
    let mut out: Vec<FileEntry> = Vec::new();
    proof {
        broadcast use vstd::seq_lib::group_to_multiset_ensures;
        assert(file_models(out@) =~= Seq::<FileModel>::empty());
        assert(file_models(out@).to_multiset().add(file_models(src@).to_multiset())
            =~= file_models(src@).to_multiset());
    }
    while src.len() > 0
        invariant
            file_models(out@).to_multiset().add(file_models(src@).to_multiset()) == file_models(
                v@,
            ).to_multiset(),
            sorted_entries(file_models(out@)),
            forall|x: int, y: int|
                0 <= x < out@.len() && 0 <= y < src@.len() ==> !lex_lt(
                    entry_key(#[trigger] file_models(src@)[y]),
                    entry_key(#[trigger] file_models(out@)[x]),
                ),
        decreases src.len(),
    {
        let mut m: usize = 0;
        let mut k: usize = 1;
        proof {
            crate::order::lemma_lex_irrefl(entry_key(file_models(src@)[0int]));
        }
        while k < src.len()
            invariant
                src.len() > 0,
                m < src.len(),
                1 <= k <= src.len(),
                forall|j: int|
                    0 <= j < k ==> !lex_lt(
                        entry_key(#[trigger] file_models(src@)[j]),
                        entry_key(file_models(src@)[m as int]),
                    ),
            decreases src.len() - k,
        {
            let tk = (&src[k]).path.to_text();
            let tm = (&src[m]).path.to_text();
            proof {
                assert(tk@ == entry_key(file_models(src@)[k as int]));
                assert(tm@ == entry_key(file_models(src@)[m as int]));
            }
            if str_lex_lt(tk.as_str(), tm.as_str()) {
                proof {
                    let ghost ms = file_models(src@);
                    assert forall|j: int| 0 <= j < k + 1 implies !lex_lt(
                        entry_key(#[trigger] ms[j]),
                        entry_key(ms[k as int]),
                    ) by {
                        if j < k && lex_lt(entry_key(ms[j]), entry_key(ms[k as int])) {
                            lemma_lex_trans(
                                entry_key(ms[j]),
                                entry_key(ms[k as int]),
                                entry_key(ms[m as int]),
                            );
                        }
                        if j == k {
                            crate::order::lemma_lex_irrefl(entry_key(ms[k as int]));
                        }
                    }
                }
                m = k;
            } else {
                proof {
                    crate::order::lemma_lex_irrefl(entry_key(file_models(src@)[k as int]));
                }
            }
            k += 1;
        }
        let ghost old_src = src@;
        let ghost old_out = out@;
        let e = src.remove(m);
        out.push(e);
        proof {
            broadcast use vstd::seq_lib::group_to_multiset_ensures;
            assert(file_models(src@) =~= file_models(old_src).remove(m as int));
            assert(file_models(out@) =~= file_models(old_out).push(e@));
            assert(file_models(old_src)[m as int] == e@);
            assert(file_models(old_src).remove(m as int).to_multiset() =~= file_models(
                old_src,
            ).to_multiset().remove(e@));
            assert(file_models(old_out).push(e@).to_multiset() =~= file_models(
                old_out,
            ).to_multiset().insert(e@));
            assert(file_models(old_src).contains(e@));
            assert(file_models(old_src).to_multiset().count(e@) > 0);
            assert(file_models(out@).to_multiset().add(file_models(src@).to_multiset())
                =~= file_models(v@).to_multiset());
            // the pushed entry follows everything already placed
            assert forall|x: int, y: int|
                #![trigger file_models(out@)[x], file_models(out@)[y]]
                0 <= x < out@.len() && x < y < out@.len() implies !lex_lt(
                    entry_key(file_models(out@)[y]),
                    entry_key(file_models(out@)[x]),
                ) by {
                if y < old_out.len() {
                    assert(file_models(out@)[x] == file_models(old_out)[x]);
                    assert(file_models(out@)[y] == file_models(old_out)[y]);
                } else {
                    assert(file_models(out@)[y] == e@);
                    if x < old_out.len() {
                        assert(file_models(out@)[x] == file_models(old_out)[x]);
                        assert(!lex_lt(
                            entry_key(file_models(old_src)[m as int]),
                            entry_key(file_models(old_out)[x]),
                        ));
                    }
                }
            }
            // everything still unplaced follows the pushed entry
            assert forall|x: int, y: int|
                0 <= x < out@.len() && 0 <= y < src@.len() implies !lex_lt(
                    entry_key(#[trigger] file_models(src@)[y]),
                    entry_key(#[trigger] file_models(out@)[x]),
                ) by {
                let ghost oy: int = if y < m { y } else { y + 1 };
                assert(file_models(src@)[y] == file_models(old_src)[oy]);
                if x < old_out.len() {
                    assert(file_models(out@)[x] == file_models(old_out)[x]);
                } else {
                    assert(file_models(out@)[x] == e@);
                    assert(!lex_lt(
                        entry_key(file_models(old_src)[oy]),
                        entry_key(file_models(old_src)[m as int]),
                    ));
                }
            }
        }
    }
    proof {
        broadcast use vstd::seq_lib::group_to_multiset_ensures;
        assert(file_models(src@) =~= Seq::<FileModel>::empty());
        assert(file_models(out@).to_multiset().add(file_models(src@).to_multiset())
            =~= file_models(out@).to_multiset());
    }
    out
}

/// The directory a configured path resolves to against an absolute root.
pub open spec fn resolved_dir(dir: PathModel, root: PathModel) -> PathModel {
    PathModel {
        absolute: true,
        parts: if dir.absolute {
            dir.parts
        } else {
            root.parts + dir.parts
        },
    }
}

/// A project's build inputs: its discovered file set, the canonical source
/// directory, and the absolute publish directory.
pub struct DirSettings {
    pub files: Vec<FileEntry>,
    pub source_dir: SysPath,
    pub publish_dir: SysPath,
}

/// What gathered build inputs promise: the file set is exactly the project's
/// discovery over the listing, anchored at the resolved source directory; the
/// source directory is the canonical one the caller resolved; the publish
/// directory is the configured one resolved against the root.
pub open spec fn settings_for(
    ds: DirSettings,
    project: Project,
    root: PathModel,
    canonical_source: SysPath,
    listing: Seq<RawEntry>,
) -> bool {
    let walk_root = resolved_dir(project.base_directory@, root);
    let incl = include_patterns(opt_text(project.base_extension));
    let excl = trimmed_patterns(project.exclude.deep_view());
    &&& discovery_post(
        file_models(ds.files@),
        raw_models(listing),
        walk_root,
        incl,
        excl,
        project.recursive,
    )
    &&& no_hidden_entries(file_models(ds.files@))
    &&& depth_bounded(file_models(ds.files@), project.recursive)
    &&& all_match_include(file_models(ds.files@), incl)
    &&& entries_based(file_models(ds.files@), walk_root)
    &&& ds.wf()
    &&& ds.source_dir == canonical_source
    &&& ds.publish_dir@ == resolved_dir(project.publishing_directory@, root)
}

impl DirSettings {
    /// The file set invariant the transformers rely on: every entry sits at a
    /// non-empty relative path.
    pub open spec fn wf(&self) -> bool {
        forall|k: int|
            0 <= k < self.files@.len() ==> {
                &&& !(#[trigger] self.files@[k]).rel.absolute
                &&& 1 <= self.files@[k].rel@.parts.len()
            }
    }

    /// Gathers a project's build inputs. The listing is the raw walk of the
    /// project's resolved source directory; the canonical source directory is
    /// resolved by the caller, symlinks followed. Succeeds exactly when the
    /// project's pattern sets compile.
    pub fn new_from_project(
        project: &Project,
        root: &SysPath,
        canonical_source: SysPath,
        listing: &Vec<RawEntry>,
    ) -> (r: Result<DirSettings, DiscoveryError>)
        requires
            root.absolute,
        ensures
            r is Ok <==> patterns_ok(include_patterns(opt_text(project.base_extension)))
                && patterns_ok(trimmed_patterns(project.exclude.deep_view())),
            r matches Ok(ds) ==> settings_for(ds, *project, root@, canonical_source, listing@),
            r matches Err(e) ==> e is BadPattern,
    {
        let source_abs = make_absolute_path(&project.base_directory, root);
        proof {
            assert(source_abs@ == resolved_dir(project.base_directory@, root@));
        }
        let files = match get_source_entries(
            listing,
            &source_abs,
            &project.base_extension,
            &project.exclude,
            project.recursive,
        ) {
            Ok(files) => files,
            Err(e) => {
                return Err(e);
            },
        };
        let publish_dir = make_absolute_path(&project.publishing_directory, root);
        proof {
            assert(publish_dir@ == resolved_dir(project.publishing_directory@, root@));
        }
        let ds = DirSettings { files, source_dir: canonical_source, publish_dir };
        proof {
            assert forall|k: int| 0 <= k < ds.files@.len() implies {
                &&& !(#[trigger] ds.files@[k]).rel.absolute
                &&& 1 <= ds.files@[k].rel@.parts.len()
            } by {
                assert(file_models(ds.files@)[k] == ds.files@[k]@);
            }
        }
        Ok(ds)
    }
}

} // verus!
