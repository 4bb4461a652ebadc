use vstd::prelude::*;

verus! {

/// The mathematical shape of a path: an absolute-or-relative flag and the
/// sequence of its components.
pub struct PathModel {
    pub absolute: bool,
    pub parts: Seq<Seq<char>>,
}

/// A filesystem path, modeled as its components. The operating-system side
/// (splitting an OS path into components and back) is the caller's concern;
/// every containment or naming decision of the library is made on this type.
pub struct SysPath {
    pub absolute: bool,
    pub parts: Vec<String>,
}

impl View for SysPath {
    type V = PathModel;

    open spec fn view(&self) -> PathModel {
        PathModel { absolute: self.absolute, parts: self.parts.deep_view() }
    }
}

/// A component whose name marks it as hidden.
pub open spec fn hidden_name(s: Seq<char>) -> bool {
    s.len() > 0 && s[0] == '.'
}

/// Whether any component of a sequence is hidden.
pub open spec fn any_hidden(parts: Seq<Seq<char>>) -> bool {
    exists|i: int| 0 <= i < parts.len() && hidden_name(#[trigger] parts[i])
}

/// The flat text of a component sequence, separated by `/`.
pub open spec fn flat_parts(parts: Seq<Seq<char>>) -> Seq<char>
    decreases parts.len(),
{
    if parts.len() == 0 {
        Seq::empty()
    } else if parts.len() == 1 {
        parts.last()
    } else {
        flat_parts(parts.drop_last()) + seq!['/'] + parts.last()
    }
}

/// The flat text of a whole path; an absolute path is anchored at `/`.
pub open spec fn path_text(m: PathModel) -> Seq<char> {
    if m.absolute {
        seq!['/'] + flat_parts(m.parts)
    } else {
        flat_parts(m.parts)
    }
}

/// `pre` names an ancestor-or-self of `full`: same anchoring, and every
/// component of `pre` is the corresponding component of `full`.
pub open spec fn lies_under(full: PathModel, pre: PathModel) -> bool {
    full.absolute == pre.absolute && pre.parts.len() <= full.parts.len()
        && pre.parts == full.parts.take(pre.parts.len() as int)
}

impl SysPath {
    pub fn new(absolute: bool) -> (r: SysPath)
        ensures
            r.absolute == absolute,
            r@.parts == Seq::<Seq<char>>::empty(),
    {
        SysPath { absolute, parts: Vec::new() }
    }

    pub fn push_part(&mut self, part: String)
        ensures
            final(self).absolute == old(self).absolute,
            final(self)@.parts == old(self)@.parts.push(part@),
    {
        self.parts.push(part);
    }

    /// Joining a relative path under this one appends its components.
    pub fn join(&self, other: &SysPath) -> (r: SysPath)
        requires
            !other.absolute,
        ensures
            r.absolute == self.absolute,
            r@.parts == self@.parts + other@.parts,
    {
        let mut parts: Vec<String> = Vec::new();
        proof {
            assert(parts.deep_view() =~= Seq::<Seq<char>>::empty());
        }
        append_parts(&mut parts, &self.parts);
        proof {
            assert(parts.deep_view() =~= self@.parts);
        }
        append_parts(&mut parts, &other.parts);
        SysPath { absolute: self.absolute, parts }
    }

    /// The flat text of the path, components separated by `/`.
    pub fn to_text(&self) -> (r: String)
        ensures
            r@ == path_text(self@),
    {
        let mut s = String::new();
        if self.absolute {
            s.append("/");
        }
        let ghost anchor: Seq<char> = if self.absolute { seq!['/'] } else { Seq::empty() };
        proof {
            reveal_strlit("/");
            assert(s@ =~= anchor + flat_parts(self@.parts.take(0int)));
        }
        let mut i: usize = 0;
        while i < self.parts.len()
            invariant
                i <= self.parts.len(),
                s@ == anchor + flat_parts(self@.parts.take(i as int)),
            decreases self.parts.len() - i,
        {
            if i > 0 {
                s.append("/");
            }
            s.append(self.parts[i].as_str());
            proof {
                reveal_strlit("/");
                let taken = self@.parts.take(i as int + 1);
                assert(taken.drop_last() =~= self@.parts.take(i as int));
                assert(taken.last() == self@.parts[i as int]);
                if i == 0 {
                    assert(s@ =~= anchor + flat_parts(taken));
                } else {
                    assert(s@ =~= anchor + flat_parts(taken));
                }
            }
            i += 1;
        }
        proof {
            assert(self@.parts.take(self.parts.len() as int) =~= self@.parts);
        }
        s
    }

    /// A copy of the path.
    pub fn duplicate(&self) -> (r: SysPath)
        ensures
            r.absolute == self.absolute,
            r@.parts == self@.parts,
    {
        let mut parts: Vec<String> = Vec::new();
        proof {
            assert(parts.deep_view() =~= Seq::<Seq<char>>::empty());
        }
        append_parts(&mut parts, &self.parts);
        proof {
            assert(Seq::<Seq<char>>::empty() + self@.parts =~= self@.parts);
        }
        SysPath { absolute: self.absolute, parts }
    }

    /// The path made of the first `n` components.
    pub fn prefix_path(&self, n: usize) -> (r: SysPath)
        requires
            n <= self@.parts.len(),
        ensures
            r.absolute == self.absolute,
            r@.parts == self@.parts.take(n as int),
    {
        let mut parts: Vec<String> = Vec::new();
        let mut i: usize = 0;
        proof {
            assert(parts.deep_view() =~= self@.parts.subrange(0int, 0int));
        }
        while i < n
            invariant
                i <= n <= self.parts.len(),
                parts.deep_view() == self@.parts.subrange(0int, i as int),
            decreases n - i,
        {
            let ghost pre = parts.deep_view();
            proof {
                assert(pre.len() == i);
            }
            parts.push(self.parts[i].clone());
            proof {
                assert(parts.deep_view() =~= pre.push(self.parts@[i as int]@));
                assert(parts.deep_view() =~= self@.parts.subrange(0int, i as int + 1));
            }
            i += 1;
        }
        proof {
            assert(self@.parts.subrange(0int, n as int) =~= self@.parts.take(n as int));
        }
        SysPath { absolute: self.absolute, parts }
    }

    /// Whether any component of the path is hidden.
    pub open spec fn spec_has_hidden(&self) -> bool {
        any_hidden(self@.parts)
    }

    pub fn has_hidden_component(&self) -> (r: bool)
        ensures
            r == self.spec_has_hidden(),
    {
        let mut i: usize = 0;
        while i < self.parts.len()
            invariant
                i <= self.parts.len(),
                forall|k: int| 0 <= k < i ==> !hidden_name(#[trigger] self@.parts[k]),
            decreases self.parts.len() - i,
        {
            if part_is_hidden(&self.parts[i]) {
                proof {
                    assert(hidden_name(self@.parts[i as int]));
                }
                return true;
            }
            i += 1;
        }
        false
    }
}

/// Whether a single component's name marks it as hidden.
pub fn part_is_hidden(part: &String) -> (r: bool)
    ensures
        r == hidden_name(part@),
{
    let s = part.as_str();
    if s.unicode_len() == 0 {
        false
    } else {
        s.get_char(0) == '.'
    }
}

/// Strips `root` off the front of `entry`. `Some` exactly when `entry` lies
/// under `root`; the result is the relative remainder.
pub fn strip_prefix(entry: &SysPath, root: &SysPath) -> (r: Option<SysPath>)
    ensures
        match r {
            Some(rel) => lies_under(entry@, root@) && !rel.absolute && rel@.parts
                == entry@.parts.skip(root@.parts.len() as int),
            None => !lies_under(entry@, root@),
        },
{
    if entry.absolute != root.absolute {
        return None;
    }
    if entry.parts.len() < root.parts.len() {
        proof {
            assert(!lies_under(entry@, root@));
        }
        return None;
    }
    let mut i: usize = 0;
    while i < root.parts.len()
        invariant
            i <= root.parts.len() <= entry.parts.len(),
            entry.absolute == root.absolute,
            forall|k: int| 0 <= k < i ==> root@.parts[k] == entry@.parts[k],
        decreases root.parts.len() - i,
    {
        if !strings_equal(&entry.parts[i], &root.parts[i]) {
            proof {
                assert(root@.parts[i as int] != entry@.parts.take(root@.parts.len() as int)[i as int]);
            }
            return None;
        }
        i += 1;
    }
    let rel_parts = parts_suffix(&entry.parts, root.parts.len());
    proof {
        assert(root@.parts =~= entry@.parts.take(root@.parts.len() as int));
    }
    Some(SysPath { absolute: false, parts: rel_parts })
}

/// A contained path, split at its root and joined back, is restored: the
/// destination `publish_root` extended by `relative(entry, source_root)`
/// mirrors the entry's place under its source root, component for component.
pub proof fn lemma_relative_roundtrip(entry: PathModel, root: PathModel)
    requires
        lies_under(entry, root),
    ensures
        root.parts + entry.parts.skip(root.parts.len() as int) == entry.parts,
{
    assert(root.parts + entry.parts.skip(root.parts.len() as int) =~= entry.parts);
}

/// Resolves a configured path against a root: a relative path is joined under
/// the root, an absolute one passes through unchanged.
pub fn make_absolute_path(path: &SysPath, root: &SysPath) -> (r: SysPath)
    requires
        root.absolute,
    ensures
        r.absolute,
        path.absolute ==> r@.parts == path@.parts,
        !path.absolute ==> r@.parts == root@.parts + path@.parts,
{
    if path.absolute {
        let r = path.join(&SysPath::new(false));
        proof {
            assert(r@.parts =~= path@.parts);
        }
        r
    } else {
        root.join(path)
    }
}

/// Component-wise equality of two strings.
pub fn strings_equal(a: &String, b: &String) -> (r: bool)
    ensures
        r == (a@ == b@),
{
    a.eq(b)
}


/// Appends clones of `src`'s components to `dst`.
fn append_parts(dst: &mut Vec<String>, src: &Vec<String>)
    ensures
        final(dst).deep_view() == old(dst).deep_view() + src.deep_view(),
{
    let ghost base = dst.deep_view();
    let mut i: usize = 0;
    proof {
        assert(base + src.deep_view().take(0int) =~= base);
    }
    while i < src.len()
        invariant
            i <= src.len(),
            dst.deep_view() == base + src.deep_view().take(i as int),
        decreases src.len() - i,
    {
        let ghost pre = dst.deep_view();
        proof {
            assert(pre.len() == base.len() + i);
        }
        dst.push(src[i].clone());
        proof {
            assert(dst.deep_view() =~= pre.push(src@[i as int]@));
            assert(dst.deep_view() =~= base + src.deep_view().take(i as int + 1));
        }
        i += 1;
    }
    proof {
        assert(src.deep_view().take(src.len() as int) =~= src.deep_view());
    }
}

/// Clones the components of `src` from position `from` on.
fn parts_suffix(src: &Vec<String>, from: usize) -> (r: Vec<String>)
    requires
        from <= src.len(),
    ensures
        r.deep_view() == src.deep_view().skip(from as int),
{
    let mut out: Vec<String> = Vec::new();
    let mut j: usize = from;
    proof {
        assert(out.deep_view() =~= src.deep_view().subrange(from as int, from as int));
    }
    while j < src.len()
        invariant
            from <= j <= src.len(),
            out.deep_view() == src.deep_view().subrange(from as int, j as int),
        decreases src.len() - j,
    {
        let ghost pre = out.deep_view();
        proof {
            assert(pre.len() == j - from);
        }
        out.push(src[j].clone());
        proof {
            assert(out.deep_view() =~= pre.push(src@[j as int]@));
            assert(out.deep_view() =~= src.deep_view().subrange(from as int, j as int + 1));
        }
        j += 1;
    }
    proof {
        assert(src.deep_view().subrange(from as int, src.len() as int) =~= src.deep_view().skip(
            from as int,
        ));
    }
    out
}

} // verus!
