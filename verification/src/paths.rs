//! Unix path handling on strings: joining a directory with a name, splitting
//! a path into components (with the normalization that `std::path` documents),
//! and the final file name of a path.
use vstd::prelude::*;

verus! {

/// One component of a path, as `std::path::Component` has them on Unix.
pub enum Comp {
    Root,
    Cur,
    Parent,
    Normal(Seq<char>),
}

/// The executable form of [`Comp`].
#[derive(PartialEq, Eq, Debug)]
pub enum PathComponent {
    RootDir,
    CurDir,
    ParentDir,
    Normal(String),
}

impl View for PathComponent {
    type V = Comp;

    open spec fn view(&self) -> Comp {
        match self {
            PathComponent::RootDir => Comp::Root,
            PathComponent::CurDir => Comp::Cur,
            PathComponent::ParentDir => Comp::Parent,
            PathComponent::Normal(s) => Comp::Normal(s@),
        }
    }
}

/// The pieces of `s` between separators `/`, empty pieces included.
pub open spec fn segments(s: Seq<char>) -> Seq<Seq<char>>
    decreases s.len(),
{
    if s.len() == 0 {
        seq![Seq::<char>::empty()]
    } else {
        let prev = segments(s.drop_last());
        if s.last() == '/' {
            prev.push(Seq::<char>::empty())
        } else {
            prev.update(prev.len() - 1, prev.last().push(s.last()))
        }
    }
}

/// What one piece contributes: nothing for an empty piece or `.`,
/// `ParentDir` for `..`, otherwise the piece as a normal component.
pub open spec fn classify(seg: Seq<char>) -> Seq<Comp> {
    if seg.len() == 0 || seg == seq!['.'] {
        Seq::empty()
    } else if seg == seq!['.', '.'] {
        seq![Comp::Parent]
    } else {
        seq![Comp::Normal(seg)]
    }
}

/// The components that a run of pieces contributes, in order.
pub open spec fn comps_of(segs: Seq<Seq<char>>) -> Seq<Comp>
    decreases segs.len(),
{
    if segs.len() == 0 {
        Seq::empty()
    } else {
        comps_of(segs.drop_last()) + classify(segs.last())
    }
}

/// Whether `s` starts at the root.
pub open spec fn is_rooted(s: Seq<char>) -> bool {
    s.len() > 0 && s[0] == '/'
}

/// The components of `s`: repeated separators and a trailing separator are
/// ignored, `.` is dropped except as the first piece of a relative path.
pub open spec fn components(s: Seq<char>) -> Seq<Comp> {
    let segs = segments(s);
    let head = if is_rooted(s) {
        seq![Comp::Root]
    } else if segs[0] == seq!['.'] {
        seq![Comp::Cur]
    } else {
        classify(segs[0])
    };
    head + comps_of(segs.skip(1))
}

/// `PathBuf::push` / `Path::join` on Unix: an absolute `p` replaces `dir`,
/// otherwise `p` is appended after a separator when `dir` needs one.
pub open spec fn join(dir: Seq<char>, p: Seq<char>) -> Seq<char> {
    if is_rooted(p) {
        p
    } else if dir.len() > 0 && dir.last() != '/' {
        dir + seq!['/'] + p
    } else {
        dir + p
    }
}

/// `Path::file_name`: the last component when it is a normal one.
pub open spec fn file_name(s: Seq<char>) -> Option<Seq<char>> {
    let c = components(s);
    if c.len() > 0 && c.last() is Normal {
        Some(c.last()->Normal_0)
    } else {
        None
    }
}

/// A path made of exactly one normal component: the shape of a config id.
pub open spec fn is_single_name(s: Seq<char>) -> bool {
    let c = components(s);
    c.len() == 1 && c[0] is Normal
}

pub proof fn lemma_segments_nonempty(s: Seq<char>)
    ensures
        segments(s).len() >= 1,
    decreases s.len(),
{
    if s.len() > 0 {
        lemma_segments_nonempty(s.drop_last());
    }
}

/// Appending characters without a separator extends the last piece.
pub proof fn lemma_segments_append(x: Seq<char>, p: Seq<char>)
    requires
        !p.contains('/'),
    ensures
        segments(x + p).len() == segments(x).len(),
        segments(x + p) == segments(x).update(
            segments(x).len() - 1,
            segments(x).last() + p,
        ),
    decreases p.len(),
{
    lemma_segments_nonempty(x);
    if p.len() == 0 {
        assert(x + p =~= x);
        assert(segments(x).last() + p =~= segments(x).last());
        assert(segments(x).update(segments(x).len() - 1, segments(x).last()) =~= segments(x));
    } else {
        let q = p.drop_last();
        assert(!q.contains('/')) by {
            if q.contains('/') {
                let k = choose|k: int| 0 <= k < q.len() && q[k] == '/';
                assert(p[k] == '/');
            }
        }
        lemma_segments_append(x, q);
        assert((x + p).drop_last() =~= x + q);
        assert((x + p).last() == p.last());
        assert(p.last() != '/') by {
            if p.last() == '/' {
                assert(p.contains('/'));
            }
        }
        let prev = segments(x + q);
        assert(prev.last() == segments(x).last() + q);
        assert(segments(x + p) == prev.update(prev.len() - 1, prev.last().push(p.last())));
        assert(prev.last().push(p.last()) =~= segments(x).last() + p);
        assert(segments(x).last() + q + seq![p.last()] =~= segments(x).last() + p);
        assert(segments(x + p) =~= segments(x).update(
            segments(x).len() - 1,
            segments(x).last() + p,
        ));
    }
}

/// The components of a run of pieces end with what the last piece gives.
pub proof fn lemma_comps_of_last(segs: Seq<Seq<char>>)
    requires
        segs.len() >= 1,
    ensures
        comps_of(segs) == comps_of(segs.drop_last()) + classify(segs.last()),
{
}

/// A name without separators that is neither empty, `.` nor `..` is what
/// `file_name` gives back from any directory joined with it.
pub proof fn lemma_file_name_of_join(dir: Seq<char>, name: Seq<char>)
    requires
        !name.contains('/'),
        name.len() > 0,
        name != seq!['.'],
        name != seq!['.', '.'],
    ensures
        file_name(join(dir, name)) == Some(name),
{
    let x = if dir.len() > 0 && dir.last() != '/' {
        dir + seq!['/']
    } else {
        dir
    };
    assert(join(dir, name) =~= x + name);
    lemma_segments_nonempty(x);
    // the last piece of `x` is empty
    assert(segments(x).last() =~= Seq::<char>::empty()) by {
        if x.len() > 0 {
            assert(x.last() == '/');
        }
    }
    lemma_segments_append(x, name);
    if x.len() > 0 {
        assert(x.last() == '/');
        lemma_segments_nonempty(x.drop_last());
        assert(segments(x).len() >= 2);
    }
    let s = x + name;
    let segs = segments(s);
    assert(segs.last() =~= name);
    assert(classify(name) == seq![Comp::Normal(name)]);
    if segs.len() == 1 {
        assert(segs[0] == name);
        assert(!is_rooted(s)) by {
            if is_rooted(s) {
                assert(x.len() == 0);
                assert(s =~= name);
                assert(name[0] == '/');
                assert(name.contains('/'));
            }
        }
        assert(segs.skip(1) =~= Seq::<Seq<char>>::empty());
        assert(components(s) =~= seq![Comp::Normal(name)]);
    } else {
        let rest = segs.skip(1);
        lemma_comps_of_last(rest);
        assert(rest.last() == segs.last());
        assert(components(s).last() == Comp::Normal(name));
    }
}

/// A name without separators is a config id exactly when it is neither
/// empty, `.` nor `..`.
pub proof fn lemma_single_name_plain(name: Seq<char>)
    requires
        !name.contains('/'),
    ensures
        is_single_name(name) <==> (name.len() > 0 && name != seq!['.'] && name != seq![
            '.',
            '.',
        ]),
{
    lemma_segments_append(Seq::<char>::empty(), name);
    assert(Seq::<char>::empty() + name =~= name);
    let segs = segments(name);
    assert(segs.len() == 1);
    assert(segs[0] =~= name);
    assert(segs.skip(1) =~= Seq::<Seq<char>>::empty());
    assert(!is_rooted(name)) by {
        if is_rooted(name) {
            assert(name.contains('/'));
        }
    }
    if name == seq!['.'] {
        assert(components(name) =~= seq![Comp::Cur]);
    } else if name.len() == 0 {
        assert(components(name) =~= Seq::<Comp>::empty());
    } else if name == seq!['.', '.'] {
        assert(components(name) =~= seq![Comp::Parent]);
    } else {
        assert(components(name) =~= seq![Comp::Normal(name)]);
    }
}

/// `Path::parent`, seen as the components of the path it gives back: all
/// but the last component, unless the path ends at the root or is empty.
/// Paths compare equal exactly when their components do.
pub open spec fn parent_components(s: Seq<char>) -> Option<Seq<Comp>> {
    let c = components(s);
    if c.len() > 0 && !(c.last() is Root) {
        Some(c.drop_last())
    } else {
        None
    }
}

/// The pieces of `a + b`: those of `a`, with its last piece run together
/// with the first piece of `b`, then the rest of `b`'s.
pub proof fn lemma_segments_concat(a: Seq<char>, b: Seq<char>)
    ensures
        segments(a + b) == segments(a).drop_last() + seq![segments(a).last() + segments(b)[0]]
            + segments(b).skip(1),
    decreases b.len(),
{
    lemma_segments_nonempty(a);
    lemma_segments_nonempty(b);
    let sa = segments(a);
    if b.len() == 0 {
        assert(a + b =~= a);
        assert(segments(b) == seq![Seq::<char>::empty()]);
        assert(sa.last() + Seq::<char>::empty() =~= sa.last());
        assert(sa.drop_last() + seq![sa.last()] + segments(b).skip(1) =~= sa);
    } else {
        let b1 = b.drop_last();
        let c = b.last();
        lemma_segments_concat(a, b1);
        lemma_segments_nonempty(b1);
        assert((a + b).drop_last() =~= a + b1);
        assert((a + b).last() == c);
        let sb1 = segments(b1);
        let prev = segments(a + b1);
        let sb = segments(b);
        if c == '/' {
            assert(sb == sb1.push(Seq::<char>::empty()));
            assert(segments(a + b) == prev.push(Seq::<char>::empty()));
            assert(sb[0] == sb1[0]);
            assert(sb.skip(1) =~= sb1.skip(1).push(Seq::<char>::empty()));
            assert(segments(a + b) =~= sa.drop_last() + seq![sa.last() + sb[0]] + sb.skip(1));
        } else {
            assert(sb == sb1.update(sb1.len() - 1, sb1.last().push(c)));
            assert(segments(a + b) == prev.update(prev.len() - 1, prev.last().push(c)));
            if sb1.len() == 1 {
                assert(sb[0] == sb1[0].push(c));
                assert(sb.skip(1) =~= Seq::<Seq<char>>::empty());
                assert(sb1.skip(1) =~= Seq::<Seq<char>>::empty());
                assert(prev.last() == sa.last() + sb1[0]);
                assert((sa.last() + sb1[0]).push(c) =~= sa.last() + sb1[0].push(c));
                assert(segments(a + b) =~= sa.drop_last() + seq![sa.last() + sb[0]] + sb.skip(1));
            } else {
                assert(sb[0] == sb1[0]);
                assert(sb.skip(1) =~= sb1.skip(1).update(sb1.len() - 2, sb1.last().push(c)));
                assert(prev.last() == sb1.last());
                assert(segments(a + b) =~= sa.drop_last() + seq![sa.last() + sb[0]] + sb.skip(1));
            }
        }
    }
}

/// The components of two runs of pieces are those of each, one after the other.
pub proof fn lemma_comps_of_concat(u: Seq<Seq<char>>, v: Seq<Seq<char>>)
    ensures
        comps_of(u + v) == comps_of(u) + comps_of(v),
    decreases v.len(),
{
    if v.len() == 0 {
        assert(u + v =~= u);
        assert(comps_of(u) + Seq::<Comp>::empty() =~= comps_of(u));
    } else {
        lemma_comps_of_concat(u, v.drop_last());
        assert((u + v).drop_last() =~= u + v.drop_last());
        assert((u + v).last() == v.last());
        assert(comps_of(u) + comps_of(v.drop_last()) + classify(v.last()) =~= comps_of(u) + (
        comps_of(v.drop_last()) + classify(v.last())));
    }
}

/// Joining a directory with a config id (one normal component) gives the
/// directory's components followed by the id's.
pub proof fn lemma_components_of_join(dir: Seq<char>, id: Seq<char>)
    requires
        is_single_name(id),
    ensures
        components(join(dir, id)) == components(dir) + components(id),
{
    let sid = segments(id);
    lemma_segments_nonempty(id);
    lemma_segments_nonempty(dir);
    // an id made of one normal component is relative and does not start with `.`
    assert(!is_rooted(id)) by {
        if is_rooted(id) {
            assert(components(id)[0] == Comp::Root);
        }
    }
    assert(sid[0] != seq!['.']) by {
        if sid[0] == seq!['.'] {
            assert(components(id)[0] == Comp::Cur);
        }
    }
    // the id's components are those of all its pieces
    assert(sid =~= seq![sid[0]] + sid.skip(1));
    lemma_comps_of_concat(seq![sid[0]], sid.skip(1));
    assert(seq![sid[0]].drop_last() =~= Seq::<Seq<char>>::empty());
    assert(seq![sid[0]].last() == sid[0]);
    assert(comps_of(Seq::<Seq<char>>::empty()) == Seq::<Comp>::empty());
    assert(Seq::<Comp>::empty() + classify(sid[0]) =~= classify(sid[0]));
    assert(comps_of(seq![sid[0]]) == classify(sid[0]));
    assert(comps_of(sid) == components(id));
    let x = if dir.len() > 0 && dir.last() != '/' {
        dir + seq!['/']
    } else {
        dir
    };
    assert(join(dir, id) =~= x + id);
    lemma_segments_nonempty(x);
    // `x` is `dir` as far as components go, and its last piece is empty
    assert(components(x) == components(dir)) by {
        if x != dir {
            assert(x.drop_last() =~= dir);
            assert(x.last() == '/');
            let sd = segments(dir);
            assert(segments(x) == sd.push(Seq::<char>::empty()));
            assert(segments(x)[0] == sd[0]);
            assert(segments(x).skip(1) =~= sd.skip(1).push(Seq::<char>::empty()));
            assert(sd.skip(1).push(Seq::<char>::empty()).drop_last() =~= sd.skip(1));
            assert(comps_of(segments(x).skip(1)) == comps_of(sd.skip(1)) + classify(
                Seq::<char>::empty(),
            ));
            assert(comps_of(sd.skip(1)) + Seq::<Comp>::empty() =~= comps_of(sd.skip(1)));
            assert(is_rooted(x) == is_rooted(dir));
        }
    }
    assert(segments(x).last() =~= Seq::<char>::empty()) by {
        if x.len() > 0 {
            assert(x.last() == '/');
        }
    }
    lemma_segments_concat(x, id);
    let d = segments(x).drop_last();
    let s = segments(x + id);
    assert(Seq::<char>::empty() + sid[0] =~= sid[0]);
    assert(s =~= d + sid);
    if x.len() == 0 {
        assert(d =~= Seq::<Seq<char>>::empty());
        assert(x + id =~= id);
        assert(dir.len() == 0);
        assert(components(dir) =~= Seq::<Comp>::empty()) by {
            assert(segments(dir) == seq![Seq::<char>::empty()]);
            assert(segments(dir).skip(1) =~= Seq::<Seq<char>>::empty());
        }
        assert(components(dir) + components(id) =~= components(id));
    } else {
        assert(x.last() == '/');
        lemma_segments_nonempty(x.drop_last());
        assert(segments(x).len() >= 2);
        assert(d.len() >= 1);
        assert(s[0] == d[0]);
        assert(segments(x)[0] == d[0]);
        assert((x + id)[0] == x[0]);
        assert(is_rooted(x + id) == is_rooted(x));
        assert(s.skip(1) =~= d.skip(1) + sid);
        lemma_comps_of_concat(d.skip(1), sid);
        assert(segments(x).skip(1) =~= d.skip(1).push(Seq::<char>::empty()));
        assert(d.skip(1).push(Seq::<char>::empty()).drop_last() =~= d.skip(1));
        assert(comps_of(segments(x).skip(1)) == comps_of(d.skip(1)) + classify(
            Seq::<char>::empty(),
        ));
        assert(comps_of(d.skip(1)) + Seq::<Comp>::empty() =~= comps_of(d.skip(1)));
        assert(components(x + id) =~= components(x) + components(id));
    }
}

/// The file joined for a config id sits right in the directory: its parent
/// is the directory and its file name is the id's one component.
pub proof fn lemma_join_config_id(dir: Seq<char>, id: Seq<char>)
    requires
        is_single_name(id),
    ensures
        file_name(join(dir, id)) == file_name(id),
        file_name(id) == Some(components(id)[0]->Normal_0),
        parent_components(join(dir, id)) == Some(components(dir)),
{
    lemma_components_of_join(dir, id);
    let c = components(join(dir, id));
    assert(c.last() == components(id)[0]);
    assert(c.drop_last() =~= components(dir));
}

/// Joins `dir` and `p` as `Path::join` does.
pub fn join_path(dir: &str, p: &str) -> (r: String)
    ensures
        r@ == join(dir@, p@),
{
    let pn = p.unicode_len();
    let dn = dir.unicode_len();
    if pn > 0 && p.get_char(0) == '/' {
        return p.to_string();
    }
    let mut r = dir.to_string();
    if dn > 0 && dir.get_char(dn - 1) != '/' {
        proof {
            reveal_strlit("/");
        }
        r.append("/");
    }
    r.append(p);
    r
}

/// Classifies one piece of a path.
fn classify_piece(seg: &str) -> (r: Option<PathComponent>)
    ensures
        r is None ==> classify(seg@) == Seq::<Comp>::empty(),
        r matches Some(c) ==> classify(seg@) == seq![c@],
{
    let n = seg.unicode_len();
    if n == 0 {
        return None;
    }
    if n == 1 && seg.get_char(0) == '.' {
        assert(seg@ =~= seq!['.']);
        return None;
    }
    if n == 2 && seg.get_char(0) == '.' && seg.get_char(1) == '.' {
        assert(seg@ =~= seq!['.', '.']);
        return Some(PathComponent::ParentDir);
    }
    assert(seg@ != seq!['.']) by {
        if seg@ == seq!['.'] {
            assert(seg@[0] == '.');
        }
    }
    assert(seg@ != seq!['.', '.']) by {
        if seg@ == seq!['.', '.'] {
            assert(seg@[0] == '.' && seg@[1] == '.');
        }
    }
    Some(PathComponent::Normal(seg.to_string()))
}

/// The pieces of `s` between separators, as [`segments`] gives them.
fn split_pieces(s: &str) -> (r: Vec<String>)
    ensures
        r@.map_values(|x: String| x@) == segments(s@),
{
    let n = s.unicode_len();
    let mut done: Vec<String> = Vec::new();
    let mut start: usize = 0;
    let mut i: usize = 0;
    assert(s@.subrange(0, 0) =~= Seq::<char>::empty());
    while i < n
        invariant
            n == s@.len(),
            start <= i <= n,
            segments(s@.subrange(0, i as int)) == done@.map_values(|x: String| x@).push(
                s@.subrange(start as int, i as int),
            ),
        decreases n - i,
    {
        let c = s.get_char(i);
        let ghost prefix = s@.subrange(0, i + 1);
        assert(prefix.drop_last() =~= s@.subrange(0, i as int));
        assert(prefix.last() == c);
        if c == '/' {
            let piece = s.substring_char(start, i).to_string();
            done.push(piece);
            i = i + 1;
            start = i;
            assert(s@.subrange(start as int, i as int) =~= Seq::<char>::empty());
            assert(done@.map_values(|x: String| x@) =~= done@.drop_last().map_values(
                |x: String| x@,
            ).push(piece@));
        } else {
            assert(s@.subrange(start as int, i + 1) =~= s@.subrange(start as int, i as int).push(
                c,
            ));
            i = i + 1;
        }
    }
    let last = s.substring_char(start, n).to_string();
    done.push(last);
    assert(s@.subrange(0, n as int) =~= s@);
    assert(done@.map_values(|x: String| x@) =~= done@.drop_last().map_values(|x: String| x@).push(
        last@,
    ));
    done
}

/// Splits `s` into its components, as `Path::components` does on Unix.
pub fn path_components(s: &str) -> (r: Vec<PathComponent>)
    ensures
        r@.map_values(|c: PathComponent| c@) == components(s@),
{
    let pieces = split_pieces(s);
    let ghost segs = segments(s@);
    proof {
        lemma_segments_nonempty(s@);
    }
    assert(pieces@.len() == segs.len());
    assert(pieces@[0]@ == segs[0]);
    let mut out: Vec<PathComponent> = Vec::new();
    let n = s.unicode_len();
    let first = pieces[0].as_str();
    if n > 0 && s.get_char(0) == '/' {
        out.push(PathComponent::RootDir);
    } else if first.unicode_len() == 1 && first.get_char(0) == '.' {
        assert(first@ =~= seq!['.']);
        out.push(PathComponent::CurDir);
    } else {
        assert(first@ != seq!['.']) by {
            if first@ == seq!['.'] {
                assert(first@.len() == 1 && first@[0] == '.');
            }
        }
        match classify_piece(first) {
            Some(c) => out.push(c),
            None => {},
        }
    }
    let ghost head = out@.map_values(|c: PathComponent| c@);
    let ghost expected_head = if is_rooted(s@) {
        seq![Comp::Root]
    } else if segs[0] == seq!['.'] {
        seq![Comp::Cur]
    } else {
        classify(segs[0])
    };
    assert(head =~= expected_head);
    let count = pieces.len();
    let mut k: usize = 1;
    assert(segs.skip(1).subrange(0, 0) =~= Seq::<Seq<char>>::empty());
    while k < count
        invariant
            count == pieces@.len(),
            pieces@.map_values(|x: String| x@) == segs,
            1 <= k <= count,
            out@.map_values(|c: PathComponent| c@) == head + comps_of(
                segs.skip(1).subrange(0, k - 1),
            ),
        decreases count - k,
    {
        let ghost before = out@.map_values(|c: PathComponent| c@);
        let piece = pieces[k].as_str();
        assert(piece@ == segs[k as int]);
        let ghost run = segs.skip(1).subrange(0, k as int);
        assert(run.drop_last() =~= segs.skip(1).subrange(0, k - 1));
        assert(run.last() == segs[k as int]);
        match classify_piece(piece) {
            Some(c) => {
                out.push(c);
                assert(out@.map_values(|c: PathComponent| c@) =~= before.push(c@));
            },
            None => {},
        }
        assert(out@.map_values(|c: PathComponent| c@) =~= head + comps_of(run));
        k = k + 1;
    }
    assert(segs.skip(1).subrange(0, count - 1) =~= segs.skip(1));
    out
}

/// The final component of `s` when it is a normal one (`Path::file_name`).
pub fn path_file_name(s: &str) -> (r: Option<String>)
    ensures
        r matches Some(x) ==> file_name(s@) == Some(x@),
        r is None ==> file_name(s@) is None,
{
    let comps = path_components(s);
    let ghost cv = comps@.map_values(|c: PathComponent| c@);
    let n = comps.len();
    if n == 0 {
        return None;
    }
    assert(cv.last() == comps@[n - 1]@);
    match &comps[n - 1] {
        PathComponent::Normal(name) => Some(name.clone()),
        _ => None,
    }
}

/// Whether `s` is made of exactly one normal component.
pub fn is_single_name_path(s: &str) -> (r: bool)
    ensures
        r == is_single_name(s@),
{
    let comps = path_components(s);
    let ghost cv = comps@.map_values(|c: PathComponent| c@);
    if comps.len() != 1 {
        return false;
    }
    assert(cv[0] == comps@[0]@);
    match &comps[0] {
        PathComponent::Normal(_) => true,
        _ => false,
    }
}

} // verus!
