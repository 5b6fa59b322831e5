//! Unix path operations on string paths.
//!
//! Paths are held as `String`s. The component model follows the standard
//! library's documented Unix behavior of `Path::components`: repeated
//! separators and interior `.` segments are ignored, a leading `/` is the root
//! directory and a leading `.` segment is the current directory.

use vstd::prelude::*;

use crate::order::{lex_lt, lex_lt_at, lemma_lex_irreflexive, lemma_lex_total, lemma_lex_transitive, str_lt, string_lt, char_lt, lemma_char_lt_strict_total, strict_total};
use crate::text::{push_char, owned, str_eq, str_starts_with, starts_with};

verus! {

/// One component of a path.
#[derive(Debug)]
pub enum PathComponent {
    RootDir,
    CurDir,
    ParentDir,
    Normal(String),
}

/// The mathematical value of a path component.
pub enum ComponentView {
    RootDir,
    CurDir,
    ParentDir,
    Normal(Seq<char>),
}

impl View for PathComponent {
    type V = ComponentView;

    open spec fn view(&self) -> ComponentView {
        match self {
            PathComponent::RootDir => ComponentView::RootDir,
            PathComponent::CurDir => ComponentView::CurDir,
            PathComponent::ParentDir => ComponentView::ParentDir,
            PathComponent::Normal(s) => ComponentView::Normal(s@),
        }
    }
}

/// The views of a sequence of components.
pub open spec fn comps_view(v: Seq<PathComponent>) -> Seq<ComponentView> {
    Seq::new(v.len(), |i: int| v[i]@)
}

/// The pieces of `s` between `/` separators, in order (at least one piece).
pub open spec fn split_slash(s: Seq<char>) -> Seq<Seq<char>>
    decreases s.len(),
{
    if s.len() == 0 {
        seq![Seq::<char>::empty()]
    } else {
        let init = split_slash(s.drop_last());
        if s.last() == '/' {
            init.push(Seq::<char>::empty())
        } else {
            init.update(init.len() - 1, init.last().push(s.last()))
        }
    }
}

/// The components contributed by one piece between separators.
pub open spec fn segment_components(seg: Seq<char>) -> Seq<ComponentView> {
    if seg.len() == 0 || seg == "."@ {
        Seq::empty()
    } else if seg == ".."@ {
        seq![ComponentView::ParentDir]
    } else {
        seq![ComponentView::Normal(seg)]
    }
}

/// The components contributed by a sequence of pieces.
pub open spec fn segments_components(segs: Seq<Seq<char>>) -> Seq<ComponentView>
    decreases segs.len(),
{
    if segs.len() == 0 {
        Seq::empty()
    } else {
        segments_components(segs.drop_last()) + segment_components(segs.last())
    }
}

/// Whether a path is absolute: on Unix, whether it starts with `/`.
pub open spec fn is_absolute(s: Seq<char>) -> bool {
    s.len() > 0 && s[0] == '/'
}

/// Whether a relative path starts with the current directory `.`.
pub open spec fn has_leading_cur_dir(s: Seq<char>) -> bool {
    s == "."@ || starts_with(s, "./"@)
}

/// The components of a path.
pub open spec fn path_components(s: Seq<char>) -> Seq<ComponentView> {
    let head = if is_absolute(s) {
        seq![ComponentView::RootDir]
    } else if has_leading_cur_dir(s) {
        seq![ComponentView::CurDir]
    } else {
        Seq::empty()
    };
    head + segments_components(split_slash(s))
}

proof fn lemma_split_slash_nonempty(s: Seq<char>)
    ensures
        split_slash(s).len() >= 1,
    decreases s.len(),
{
    if s.len() > 0 {
        lemma_split_slash_nonempty(s.drop_last());
    }
}

/// The components of one piece between separators.
fn segment_to_components(seg: String, out: &mut Vec<PathComponent>)
    ensures
        comps_view(final(out)@) == comps_view(old(out)@) + segment_components(seg@),
{
    let ghost old_view = comps_view(out@);
    let n = seg.as_str().unicode_len();
    if n == 0 || str_eq(seg.as_str(), ".") {
        assert(comps_view(out@) =~= old_view + segment_components(seg@));
    } else if str_eq(seg.as_str(), "..") {
        out.push(PathComponent::ParentDir);
        assert(comps_view(out@) =~= old_view + segment_components(seg@));
    } else {
        out.push(PathComponent::Normal(seg));
        assert(comps_view(out@) =~= old_view + segment_components(seg@));
    }
}

/// The components of a path, as `Path::components` yields them on Unix.
pub fn components(p: &str) -> (r: Vec<PathComponent>)
    ensures
        comps_view(r@) == path_components(p@),
{
    let n = p.unicode_len();
    let mut out: Vec<PathComponent> = Vec::new();
    if n > 0 && p.get_char(0) == '/' {
        out.push(PathComponent::RootDir);
    } else if str_eq(p, ".") || str_starts_with(p, "./") {
        out.push(PathComponent::CurDir);
    }
    let ghost head = comps_view(out@);
    let mut cur = String::new();
    let mut i: usize = 0;
    proof {
        assert(p@.take(0) =~= Seq::<char>::empty());
        assert(split_slash(p@.take(0)).drop_last() =~= Seq::<Seq<char>>::empty());
        assert(comps_view(out@) =~= head + segments_components(Seq::<Seq<char>>::empty()));
    }
    while i < n
        invariant
            n == p@.len(),
            i <= n,
            cur@ == split_slash(p@.take(i as int)).last(),
            split_slash(p@.take(i as int)).len() >= 1,
            comps_view(out@) == head + segments_components(
                split_slash(p@.take(i as int)).drop_last(),
            ),
        decreases n - i,
    {
        let c = p.get_char(i);
        let ghost pre = p@.take(i as int);
        let ghost post = p@.take(i + 1);
        proof {
            assert(post.drop_last() =~= pre);
            assert(post.last() == c);
        }
        if c == '/' {
            let seg = cur;
            cur = String::new();
            segment_to_components(seg, &mut out);
            proof {
                let sp = split_slash(pre);
                assert(split_slash(post) == sp.push(Seq::<char>::empty()));
                assert(split_slash(post).drop_last() =~= sp);
                assert(sp =~= sp.drop_last().push(sp.last()));
                assert(segments_components(sp) == segments_components(sp.drop_last())
                    + segment_components(sp.last()));
                assert(comps_view(out@) =~= head + segments_components(split_slash(post).drop_last()));
            }
        } else {
            push_char(&mut cur, c);
            proof {
                let sp = split_slash(pre);
                assert(split_slash(post) == sp.update(sp.len() - 1, sp.last().push(c)));
                assert(split_slash(post).drop_last() =~= sp.drop_last());
            }
        }
        i = i + 1;
    }
    segment_to_components(cur, &mut out);
    proof {
        assert(p@.take(n as int) =~= p@);
        let sp = split_slash(p@);
        assert(sp =~= sp.drop_last().push(sp.last()));
        assert(comps_view(out@) =~= head + segments_components(sp));
    }
    out
}

/// The number of components of a path.
pub fn component_count(p: &str) -> (r: usize)
    ensures
        r == path_components(p@).len(),
{
    let c = components(p);
    c.len()
}

/// Whether a path is absolute.
pub fn path_is_absolute(p: &str) -> (r: bool)
    ensures
        r == is_absolute(p@),
{
    p.unicode_len() > 0 && p.get_char(0) == '/'
}

/// `base` with `p` pushed onto it, as `PathBuf::push` does on Unix: an
/// absolute `p` replaces `base`; otherwise a separator is inserted unless
/// `base` is empty or already ends with one.
pub open spec fn path_push(base: Seq<char>, p: Seq<char>) -> Seq<char> {
    if is_absolute(p) {
        p
    } else if base.len() > 0 && base.last() != '/' {
        base + "/"@ + p
    } else {
        base + p
    }
}

/// Pushes `p` onto the path `base`.
pub fn push_path(base: &mut String, p: &str)
    ensures
        final(base)@ == path_push(old(base)@, p@),
{
    proof {
        reveal_strlit("/");
    }
    if path_is_absolute(p) {
        *base = owned(p);
    } else {
        let n = base.as_str().unicode_len();
        if n > 0 && base.as_str().get_char(n - 1) != '/' {
            push_char(base, '/');
            assert(old(base)@.push('/') =~= old(base)@ + "/"@);
        }
        base.append(p);
    }
}

/// `base` joined with `p`.
pub fn join_path(base: &str, p: &str) -> (r: String)
    ensures
        r@ == path_push(base@, p@),
{
    let mut r = owned(base);
    push_path(&mut r, p);
    r
}

/// The string form of one component.
pub open spec fn component_str(c: ComponentView) -> Seq<char> {
    match c {
        ComponentView::RootDir => "/"@,
        ComponentView::CurDir => "."@,
        ComponentView::ParentDir => ".."@,
        ComponentView::Normal(s) => s,
    }
}

/// The path made by pushing each component in turn onto an empty path.
pub open spec fn render_components(cs: Seq<ComponentView>) -> Seq<char>
    decreases cs.len(),
{
    if cs.len() == 0 {
        Seq::empty()
    } else {
        path_push(render_components(cs.drop_last()), component_str(cs.last()))
    }
}

/// The last component of a path when it is a normal name.
pub open spec fn file_name(s: Seq<char>) -> Option<Seq<char>> {
    let c = path_components(s);
    if c.len() > 0 && c.last() is Normal {
        Some(c.last()->Normal_0)
    } else {
        None
    }
}

/// The components of `path` after those of `base`, when `base`'s components
/// are a prefix of `path`'s.
pub open spec fn strip_prefix_components(path: Seq<char>, base: Seq<char>) -> Option<
    Seq<ComponentView>,
> {
    let pc = path_components(path);
    let bc = path_components(base);
    if bc.len() <= pc.len() && pc.take(bc.len() as int) == bc {
        Some(pc.skip(bc.len() as int))
    } else {
        None
    }
}

fn component_str_of(c: &PathComponent) -> (r: String)
    ensures
        r@ == component_str(c@),
{
    match c {
        PathComponent::RootDir => owned("/"),
        PathComponent::CurDir => owned("."),
        PathComponent::ParentDir => owned(".."),
        PathComponent::Normal(s) => s.clone(),
    }
}

fn component_eq(a: &PathComponent, b: &PathComponent) -> (r: bool)
    ensures
        r == (a@ == b@),
{
    match (a, b) {
        (PathComponent::RootDir, PathComponent::RootDir) => true,
        (PathComponent::CurDir, PathComponent::CurDir) => true,
        (PathComponent::ParentDir, PathComponent::ParentDir) => true,
        (PathComponent::Normal(x), PathComponent::Normal(y)) => str_eq(x.as_str(), y.as_str()),
        _ => false,
    }
}

/// The path made from the components `cs[from..]`.
fn render_from(cs: &Vec<PathComponent>, from: usize) -> (r: String)
    requires
        from <= cs.len(),
    ensures
        r@ == render_components(comps_view(cs@).skip(from as int)),
{
    let mut r = String::new();
    let mut i = from;
    proof {
        assert(comps_view(cs@).skip(from as int).take(0) =~= Seq::<ComponentView>::empty());
    }
    while i < cs.len()
        invariant
            from <= i <= cs.len(),
            r@ == render_components(comps_view(cs@).skip(from as int).take(i - from)),
        decreases cs.len() - i,
    {
        let piece = component_str_of(&cs[i]);
        push_path(&mut r, piece.as_str());
        proof {
            let all = comps_view(cs@).skip(from as int);
            assert(all.take(i + 1 - from).drop_last() =~= all.take(i - from));
            assert(all.take(i + 1 - from).last() == cs@[i as int]@);
        }
        i = i + 1;
    }
    proof {
        let all = comps_view(cs@).skip(from as int);
        assert(all.take(cs.len() - from) =~= all);
    }
    r
}

/// The last component of `p` when it is a normal name.
pub fn path_file_name(p: &str) -> (r: Option<String>)
    ensures
        match r {
            Some(s) => file_name(p@) == Some(s@),
            None => file_name(p@) is None,
        },
{
    let cs = components(p);
    let n = cs.len();
    if n == 0 {
        return None;
    }
    match &cs[n - 1] {
        PathComponent::Normal(s) => Some(s.clone()),
        _ => None,
    }
}

/// The components of `path` after those of `base`, rendered as a path, or
/// `None` when `base` is not a component-wise prefix of `path`.
pub fn strip_prefix(path: &str, base: &str) -> (r: Option<String>)
    ensures
        match r {
            Some(s) => strip_prefix_components(path@, base@) is Some && s@ == render_components(
                strip_prefix_components(path@, base@)->Some_0,
            ),
            None => strip_prefix_components(path@, base@) is None,
        },
{
    let pc = components(path);
    let bc = components(base);
    if bc.len() > pc.len() {
        return None;
    }
    let mut i: usize = 0;
    while i < bc.len()
        invariant
            bc.len() <= pc.len(),
            i <= bc.len(),
            comps_view(pc@) == path_components(path@),
            comps_view(bc@) == path_components(base@),
            forall|j: int| 0 <= j < i ==> pc@[j]@ == bc@[j]@,
        decreases bc.len() - i,
    {
        if !component_eq(&pc[i], &bc[i]) {
            proof {
                assert(comps_view(pc@).take(bc.len() as int)[i as int] != comps_view(bc@)[i as int]);
                assert(comps_view(pc@).take(bc.len() as int) != comps_view(bc@));
            }
            return None;
        }
        i = i + 1;
    }
    proof {
        assert(comps_view(pc@).take(bc.len() as int) =~= comps_view(bc@));
    }
    Some(render_from(&pc, bc.len()))
}

/// The position of a component kind in the order of `Component`'s variants.
pub open spec fn component_rank(c: ComponentView) -> int {
    match c {
        ComponentView::RootDir => 1,
        ComponentView::CurDir => 2,
        ComponentView::ParentDir => 3,
        ComponentView::Normal(_) => 4,
    }
}

/// The order of components: by kind, then normal names in string order.
pub open spec fn component_lt(a: ComponentView, b: ComponentView) -> bool {
    if component_rank(a) != component_rank(b) {
        component_rank(a) < component_rank(b)
    } else {
        match (a, b) {
            (ComponentView::Normal(x), ComponentView::Normal(y)) => str_lt(x, y),
            _ => false,
        }
    }
}

/// The identity of a path: its components. Two paths are equal exactly when
/// their components are.
pub open spec fn path_key(s: Seq<char>) -> Seq<ComponentView> {
    path_components(s)
}

/// The order of paths: lexicographic over their components.
pub open spec fn path_lt(a: Seq<char>, b: Seq<char>) -> bool {
    lex_lt(path_key(a), path_key(b), |x: ComponentView, y: ComponentView| component_lt(x, y))
}

pub proof fn lemma_component_lt_strict_total()
    ensures
        strict_total(|x: ComponentView, y: ComponentView| component_lt(x, y)),
{
    let celt = |x: char, y: char| char_lt(x, y);
    lemma_char_lt_strict_total();
    let elt = |x: ComponentView, y: ComponentView| component_lt(x, y);
    assert forall|x: ComponentView| !#[trigger] elt(x, x) by {
        if let ComponentView::Normal(s) = x {
            lemma_lex_irreflexive(s, celt);
        }
    }
    assert forall|x: ComponentView, y: ComponentView, z: ComponentView|
        #[trigger] elt(x, y) && #[trigger] elt(y, z) implies elt(x, z) by {
        if let (ComponentView::Normal(a), ComponentView::Normal(b), ComponentView::Normal(c)) = (
            x,
            y,
            z,
        ) {
            lemma_lex_transitive(a, b, c, celt);
        }
    }
    assert forall|x: ComponentView, y: ComponentView| x != y implies #[trigger] elt(x, y)
        || #[trigger] elt(y, x) by {
        if let (ComponentView::Normal(a), ComponentView::Normal(b)) = (x, y) {
            lemma_lex_total(a, b, celt);
        }
    }
}

/// Path order is a strict total order on path identities.
pub proof fn lemma_path_lt_facts(a: Seq<char>, b: Seq<char>, c: Seq<char>)
    ensures
        !path_lt(a, a),
        path_lt(a, b) && path_lt(b, c) ==> path_lt(a, c),
        path_key(a) != path_key(b) ==> path_lt(a, b) || path_lt(b, a),
        path_key(a) == path_key(b) ==> !path_lt(a, b),
{
    let elt = |x: ComponentView, y: ComponentView| component_lt(x, y);
    lemma_component_lt_strict_total();
    lemma_lex_irreflexive(path_key(a), elt);
    if path_lt(a, b) && path_lt(b, c) {
        lemma_lex_transitive(path_key(a), path_key(b), path_key(c), elt);
    }
    if path_key(a) != path_key(b) {
        lemma_lex_total(path_key(a), path_key(b), elt);
    }
}

fn component_lt_exec(a: &PathComponent, b: &PathComponent) -> (r: bool)
    ensures
        r == component_lt(a@, b@),
{
    match (a, b) {
        (PathComponent::Normal(x), PathComponent::Normal(y)) => string_lt(x.as_str(), y.as_str()),
        _ => {
            let ra: u8 = match a {
                PathComponent::RootDir => 1,
                PathComponent::CurDir => 2,
                PathComponent::ParentDir => 3,
                PathComponent::Normal(_) => 4,
            };
            let rb: u8 = match b {
                PathComponent::RootDir => 1,
                PathComponent::CurDir => 2,
                PathComponent::ParentDir => 3,
                PathComponent::Normal(_) => 4,
            };
            ra < rb
        },
    }
}

/// Whether path `a` comes before path `b`.
pub fn path_less(a: &str, b: &str) -> (r: bool)
    ensures
        r == path_lt(a@, b@),
{
    let ca = components(a);
    let cb = components(b);
    let ghost ka = comps_view(ca@);
    let ghost kb = comps_view(cb@);
    let ghost elt = |x: ComponentView, y: ComponentView| component_lt(x, y);
    proof {
        lemma_component_lt_strict_total();
    }
    let n = ca.len();
    let m = cb.len();
    let mut i: usize = 0;
    while i < n && i < m
        invariant
            n == ka.len(),
            m == kb.len(),
            ka == comps_view(ca@),
            kb == comps_view(cb@),
            ka == path_key(a@),
            kb == path_key(b@),
            i <= n,
            i <= m,
            forall|j: int| 0 <= j < i ==> ka[j] == kb[j],
            elt == (|x: ComponentView, y: ComponentView| component_lt(x, y)),
            strict_total(elt),
        decreases n - i,
    {
        if !component_eq(&ca[i], &cb[i]) {
            let lt = component_lt_exec(&ca[i], &cb[i]);
            proof {
                assert(ka[i as int] == ca@[i as int]@);
                assert(kb[i as int] == cb@[i as int]@);
                assert(elt(ka[i as int], kb[i as int]) == lt);
                assert(elt(ka[i as int], kb[i as int]) || elt(kb[i as int], ka[i as int]));
                if lt {
                    assert(lex_lt_at(ka, kb, elt, i as int));
                } else {
                    assert(elt(kb[i as int], ka[i as int]));
                    assert(lex_lt_at(kb, ka, elt, i as int));
                    lemma_lex_irreflexive(ka, elt);
                    if lex_lt(ka, kb, elt) {
                        lemma_lex_transitive(ka, kb, ka, elt);
                    }
                }
            }
            return lt;
        }
        i = i + 1;
    }
    proof {
        if i < m {
            assert(lex_lt_at(ka, kb, elt, i as int));
        } else {
            if lex_lt(ka, kb, elt) {
                let k = choose|k: int| #[trigger] lex_lt_at(ka, kb, elt, k);
                assert(false);
            }
        }
    }
    i < m
}

/// Whether two paths are equal (have the same components).
pub fn path_equal(a: &str, b: &str) -> (r: bool)
    ensures
        r == (path_key(a@) == path_key(b@)),
{
    let ca = components(a);
    let cb = components(b);
    if ca.len() != cb.len() {
        return false;
    }
    let mut i: usize = 0;
    while i < ca.len()
        invariant
            ca.len() == cb.len(),
            comps_view(ca@) == path_key(a@),
            comps_view(cb@) == path_key(b@),
            i <= ca.len(),
            forall|j: int| 0 <= j < i ==> ca@[j]@ == cb@[j]@,
        decreases ca.len() - i,
    {
        if !component_eq(&ca[i], &cb[i]) {
            assert(comps_view(ca@)[i as int] != comps_view(cb@)[i as int]);
            return false;
        }
        i = i + 1;
    }
    assert(comps_view(ca@) =~= comps_view(cb@));
    true
}

/// Paths in strictly increasing path order (so no two are equal).
pub open spec fn sorted_paths(v: Seq<String>) -> bool {
    forall|i: int, j: int| 0 <= i < j < v.len() ==> path_lt(#[trigger] v[i]@, #[trigger] v[j]@)
}

/// Whether `v` holds a path equal to `s`.
pub open spec fn contains_path(v: Seq<String>, s: Seq<char>) -> bool {
    exists|i: int| 0 <= i < v.len() && path_key(#[trigger] v[i]@) == path_key(s)
}

/// Inserts `x` into a sorted set of paths, as `BTreeSet::insert` does: a path
/// already present (by path equality) is kept and `x` is dropped.
pub fn insert_path_sorted(v: &mut Vec<String>, x: String)
    requires
        sorted_paths(old(v)@),
    ensures
        sorted_paths(final(v)@),
        contains_path(old(v)@, x@) ==> final(v)@ == old(v)@,
        !contains_path(old(v)@, x@) ==> exists|k: int|
            0 <= k <= old(v)@.len() && final(v)@ == old(v)@.insert(k, x),
{
    let mut i: usize = 0;
    while i < v.len() && path_less(v[i].as_str(), x.as_str())
        invariant
            i <= v.len(),
            v@ == old(v)@,
            forall|j: int| 0 <= j < i ==> path_lt(#[trigger] v@[j]@, x@),
        decreases v.len() - i,
    {
        i = i + 1;
    }
    if i < v.len() && path_equal(v[i].as_str(), x.as_str()) {
        assert(path_key(v@[i as int]@) == path_key(x@));
        return;
    }
    proof {
        assert forall|j: int| 0 <= j < v@.len() implies path_key(#[trigger] v@[j]@) != path_key(x@) by {
            lemma_path_lt_facts(v@[j]@, x@, x@);
            if j > i {
                lemma_path_lt_facts(x@, v@[i as int]@, v@[j]@);
                lemma_path_lt_facts(v@[i as int]@, x@, v@[j]@);
                lemma_path_lt_facts(v@[j]@, x@, x@);
                lemma_path_lt_facts(x@, v@[j]@, x@);
            }
        }
    }
    let ghost before = v@;
    v.insert(i, x);
    proof {
        assert forall|a: int, b: int| 0 <= a < b < v@.len() implies path_lt(
            #[trigger] v@[a]@,
            #[trigger] v@[b]@,
        ) by {
            if b < i {
                assert(v@[a] == before[a] && v@[b] == before[b]);
            } else if b == i {
                assert(v@[a] == before[a]);
            } else if a == i {
                assert(v@[b] == before[b - 1]);
                if b - 1 > i {
                    lemma_path_lt_facts(x@, before[i as int]@, before[b - 1]@);
                }
                lemma_path_lt_facts(x@, before[i as int]@, before[i as int]@);
                lemma_path_lt_facts(before[i as int]@, x@, x@);
            } else if a < i {
                assert(v@[a] == before[a] && v@[b] == before[b - 1]);
            } else {
                assert(v@[a] == before[a - 1] && v@[b] == before[b - 1]);
            }
        }
    }
}

} // verus!
